//! Helpers shared with the command-line collaborator: turning the task
//! number given on the command line into a zero-based index into the list.

use vstd::prelude::*;
use crate::tasks::Task;

verus! {

/// Whether `s` is one or more decimal digits.
pub open spec fn all_digits(s: Seq<char>) -> bool {
    s.len() > 0 && forall|i: int|
        0 <= i < s.len() ==> '0' as int <= #[trigger] s[i] as int <= '9' as int
}

/// The digit part of a numeral: one leading plus sign is allowed and
/// carries no meaning.
pub open spec fn numeral_digits(s: Seq<char>) -> Seq<char> {
    if s.len() > 0 && s[0] == '+' {
        s.drop_first()
    } else {
        s
    }
}

/// Whether `s` is a numeral as the commands read one: an optional
/// leading plus sign, then one or more decimal digits.
pub open spec fn is_numeral(s: Seq<char>) -> bool {
    all_digits(numeral_digits(s))
}

/// The number a numeral denotes.
pub open spec fn numeral_value(s: Seq<char>) -> int {
    digits_value(numeral_digits(s))
}

/// The number the decimal digits of `s` denote.
pub open spec fn digits_value(s: Seq<char>) -> int
    decreases s.len(),
{
    if s.len() == 0 {
        0
    } else {
        digits_value(s.drop_last()) * 10 + (s.last() as int - '0' as int)
    }
}

/// A digit string denotes nothing negative.
proof fn lemma_digits_nonneg(s: Seq<char>)
    requires
        forall|i: int| 0 <= i < s.len() ==> '0' as int <= #[trigger] s[i] as int <= '9' as int,
    ensures
        digits_value(s) >= 0,
    decreases s.len(),
{
    if s.len() > 0 {
        lemma_digits_nonneg(s.drop_last());
    }
}

/// Extending a digit string never shrinks its value.
proof fn lemma_digits_prefix_grow(s: Seq<char>, i: int)
    requires
        0 <= i <= s.len(),
        forall|k: int| 0 <= k < s.len() ==> '0' as int <= #[trigger] s[k] as int <= '9' as int,
    ensures
        digits_value(s) >= digits_value(s.take(i)),
    decreases s.len() - i,
{
    if i < s.len() {
        lemma_digits_prefix_grow(s, i + 1);
        assert(s.take(i + 1).drop_last() =~= s.take(i));
        lemma_digits_nonneg(s.take(i));
    } else {
        assert(s.take(i) =~= s);
    }
}

/// Parses a decimal number as the original's commands did: `Some`
/// exactly when the text is an optional plus sign followed by one or
/// more digits, and the value fits the machine.
pub fn parse_number(s: &str) -> (r: Option<usize>)
    ensures
        (match r {
            Some(v) => is_numeral(s@) && v as int == numeral_value(s@),
            None => !is_numeral(s@) || numeral_value(s@) > usize::MAX,
        }),
{
    let n = s.unicode_len();
    if n == 0 {
        return None;
    }
    let start: usize = if s.get_char(0) == '+' {
        1
    } else {
        0
    };
    let ghost ds = numeral_digits(s@);
    proof {
        assert(ds =~= s@.skip(start as int));
    }
    if start == n {
        proof {
            assert(ds.len() == 0);
        }
        return None;
    }
    let mut acc: usize = 0;
    let mut i: usize = start;
    while i < n
        invariant
            start <= i <= n,
            n == s@.len(),
            start < n,
            ds == s@.skip(start as int),
            ds == numeral_digits(s@),
            acc as int == digits_value(ds.take(i - start)),
            forall|k: int|
                0 <= k < i - start ==> '0' as int <= #[trigger] ds[k] as int <= '9' as int,
        decreases n - i,
    {
        let c = s.get_char(i);
        proof {
            assert(ds[i - start] == s@[i as int]);
        }
        if c < '0' || c > '9' {
            return None;
        }
        let d: usize = (c as u32 - '0' as u32) as usize;
        let acc10 = match acc.checked_mul(10) {
            Some(x) => x,
            None => {
                proof {
                    overflow_means_too_big(ds, i - start, acc as int, d as int);
                }
                return None;
            },
        };
        let next = match acc10.checked_add(d) {
            Some(x) => x,
            None => {
                proof {
                    overflow_means_too_big(ds, i - start, acc as int, d as int);
                }
                return None;
            },
        };
        proof {
            assert(ds.take(i - start + 1).drop_last() =~= ds.take(i - start));
        }
        acc = next;
        i += 1;
    }
    proof {
        assert(ds.take(n - start) =~= ds);
    }
    Some(acc)
}

/// When one more digit overflows the machine word, the whole digit string
/// is too big for it.
proof fn overflow_means_too_big(s: Seq<char>, i: int, acc: int, d: int)
    requires
        0 <= i < s.len(),
        acc == digits_value(s.take(i)),
        forall|k: int| 0 <= k < i ==> '0' as int <= #[trigger] s[k] as int <= '9' as int,
        '0' as int <= s[i] as int <= '9' as int,
        d == s[i] as int - '0' as int,
        acc * 10 + d > usize::MAX,
    ensures
        !all_digits(s) || digits_value(s) > usize::MAX,
{
    if all_digits(s) {
        assert(s.take(i + 1).drop_last() =~= s.take(i));
        assert(digits_value(s.take(i + 1)) == acc * 10 + d);
        lemma_digits_prefix_grow(s, i + 1);
    }
}

/// Resolves the task number named on the command line (the argument at
/// index two, counted one-based by the user) to a zero-based index into
/// `todos`, or the message the command prints instead. The four clauses
/// cover every input: exactly the valid task numbers give `Ok`.
pub fn get_task_index(args: &Vec<String>, todos: &Vec<Task>) -> (r: Result<usize, String>)
    ensures
        args@.len() < 3 ==> (r matches Err(m) && m@ == "Please provide a task number"@),
        args@.len() >= 3 && !(is_numeral(args@[2]@) && numeral_value(args@[2]@) <= usize::MAX)
            ==> (r matches Err(m) && m@ == "Please provide a valid task number."@),
        args@.len() >= 3 && is_numeral(args@[2]@) && numeral_value(args@[2]@) <= usize::MAX && !(1
            <= numeral_value(args@[2]@) <= todos@.len()) ==> (r matches Err(m) && m@
            == "Invalid task number. use 'list' to see available tasks."@),
        args@.len() >= 3 && is_numeral(args@[2]@) && numeral_value(args@[2]@) <= usize::MAX && 1
            <= numeral_value(args@[2]@) <= todos@.len() ==> (r matches Ok(i) && i as int
            == numeral_value(args@[2]@) - 1),
        r matches Ok(i) ==> i < todos@.len(),
{
    if args.len() < 3 {
        return Err("Please provide a task number".to_owned());
    }
    let task_num: usize = match parse_number(args[2].as_str()) {
        Some(v) => v,
        None => {
            return Err("Please provide a valid task number.".to_owned());
        },
    };
    if task_num == 0 || task_num > todos.len() {
        return Err("Invalid task number. use 'list' to see available tasks.".to_owned());
    }
    Ok(task_num - 1)
}

} // verus!
