//! The persistence codec: the task list's durable text form. A list is
//! written as an array of objects, each with a quoted `title`, a boolean
//! `completed`, and a quoted `comment` that is present exactly when the
//! task has one. Quotes and backslashes inside a text are escaped with a
//! backslash; every other character stands as itself. Parsing reads this
//! form (inside quotes, a backslash before any character stands for that
//! character) and rejects everything else; parsing a rendered list gives
//! the list back ([`lemma_render_parse_round_trip`]).

use vstd::prelude::*;
use crate::tasks::{list_view, Task, TaskView};

verus! {

// ---------------------------------------------------------------- rendering

/// The characters that carry an escaping backslash inside a quoted text.
pub open spec fn needs_escape(c: char) -> bool {
    c == '"' || c == '\\'
}

/// The escaped form of one character.
pub open spec fn esc_char(c: char) -> Seq<char> {
    if needs_escape(c) {
        seq!['\\', c]
    } else {
        seq![c]
    }
}

/// The escaped form of the text `s` from index `i` on.
pub open spec fn esc_from(s: Seq<char>, i: int) -> Seq<char>
    decreases s.len() - i,
{
    if i < 0 || i >= s.len() {
        Seq::empty()
    } else {
        esc_char(s[i]) + esc_from(s, i + 1)
    }
}

/// A quoted text: the escaped content between double quotes.
pub open spec fn quoted(s: Seq<char>) -> Seq<char> {
    seq!['"'] + esc_from(s, 0) + seq!['"']
}

/// A boolean's text.
pub open spec fn bool_text(b: bool) -> Seq<char> {
    if b {
        "true"@
    } else {
        "false"@
    }
}

/// The comment field's text: nothing when the comment is absent.
pub open spec fn comment_text(c: Option<Seq<char>>) -> Seq<char> {
    match c {
        None => Seq::empty(),
        Some(t) => ",\"comment\":"@ + quoted(t),
    }
}

/// One task's object text.
pub open spec fn task_text(t: TaskView) -> Seq<char> {
    "{\"title\":"@ + quoted(t.title) + ",\"completed\":"@ + bool_text(t.completed) + comment_text(
        t.comment,
    ) + "}"@
}

/// The comma-separated objects of the tasks from index `i` on.
pub open spec fn items_text(ts: Seq<TaskView>, i: int) -> Seq<char>
    decreases ts.len() - i,
{
    if i < 0 || i >= ts.len() {
        Seq::empty()
    } else if i == ts.len() - 1 {
        task_text(ts[i])
    } else {
        task_text(ts[i]) + seq![','] + items_text(ts, i + 1)
    }
}

/// A whole list's text: the objects between brackets.
pub open spec fn list_text(ts: Seq<TaskView>) -> Seq<char> {
    seq!['['] + items_text(ts, 0) + seq![']']
}

// ---------------------------------------------------------------- parsing

/// Consumes the literal `lit` from the front of `s`.
pub open spec fn p_lit(s: Seq<char>, lit: Seq<char>) -> Option<Seq<char>> {
    if lit.len() <= s.len() && s.subrange(0, lit.len() as int) == lit {
        Some(s.subrange(lit.len() as int, s.len() as int))
    } else {
        None
    }
}

/// Consumes an escaped text up to and including its closing quote,
/// returning the unescaped content and the rest.
pub open spec fn p_quoted_body(s: Seq<char>) -> Option<(Seq<char>, Seq<char>)>
    decreases s.len(),
{
    if s.len() == 0 {
        None
    } else if s[0] == '"' {
        Some((Seq::empty(), s.drop_first()))
    } else if s[0] == '\\' {
        if s.len() < 2 {
            None
        } else {
            match p_quoted_body(s.subrange(2, s.len() as int)) {
                None => None,
                Some((v, r)) => Some((seq![s[1]] + v, r)),
            }
        }
    } else {
        match p_quoted_body(s.drop_first()) {
            None => None,
            Some((v, r)) => Some((seq![s[0]] + v, r)),
        }
    }
}

/// Consumes a quoted text, opening quote included.
pub open spec fn p_quoted(s: Seq<char>) -> Option<(Seq<char>, Seq<char>)> {
    if s.len() > 0 && s[0] == '"' {
        p_quoted_body(s.drop_first())
    } else {
        None
    }
}

/// Consumes a boolean's text.
pub open spec fn p_bool(s: Seq<char>) -> Option<(bool, Seq<char>)> {
    match p_lit(s, "true"@) {
        Some(r) => Some((true, r)),
        None => match p_lit(s, "false"@) {
            Some(r) => Some((false, r)),
            None => None,
        },
    }
}

/// Consumes one task object.
pub open spec fn p_task(s: Seq<char>) -> Option<(TaskView, Seq<char>)> {
    match p_lit(s, "{\"title\":"@) {
        None => None,
        Some(r1) => match p_quoted(r1) {
            None => None,
            Some((title, r2)) => match p_lit(r2, ",\"completed\":"@) {
                None => None,
                Some(r3) => match p_bool(r3) {
                    None => None,
                    Some((b, r4)) => match p_lit(r4, "}"@) {
                        Some(r5) => Some(
                            (TaskView { title, completed: b, comment: None }, r5),
                        ),
                        None => match p_lit(r4, ",\"comment\":"@) {
                            None => None,
                            Some(r5) => match p_quoted(r5) {
                                None => None,
                                Some((cm, r6)) => match p_lit(r6, "}"@) {
                                    None => None,
                                    Some(r7) => Some(
                                        (
                                            TaskView {
                                                title,
                                                completed: b,
                                                comment: Some(cm),
                                            },
                                            r7,
                                        ),
                                    ),
                                },
                            },
                        },
                    },
                },
            },
        },
    }
}

/// A parsed quoted text ends before the rest does.
pub proof fn lemma_p_quoted_body_shrinks(s: Seq<char>)
    ensures
        p_quoted_body(s) matches Some((v, r)) ==> r.len() < s.len(),
    decreases s.len(),
{
    if s.len() == 0 {
    } else if s[0] == '"' {
    } else if s[0] == '\\' {
        if s.len() >= 2 {
            lemma_p_quoted_body_shrinks(s.subrange(2, s.len() as int));
        }
    } else {
        lemma_p_quoted_body_shrinks(s.drop_first());
    }
}

/// A parsed quoted text, quote included, ends before the rest does.
pub proof fn lemma_p_quoted_shrinks(s: Seq<char>)
    ensures
        p_quoted(s) matches Some((v, r)) ==> r.len() < s.len(),
{
    if s.len() > 0 && s[0] == '"' {
        lemma_p_quoted_body_shrinks(s.drop_first());
    }
}

/// A parsed task object ends before the rest does.
pub proof fn lemma_p_task_shrinks(s: Seq<char>)
    ensures
        p_task(s) matches Some((t, r)) ==> r.len() < s.len(),
{
    match p_lit(s, "{\"title\":"@) {
        None => {},
        Some(r1) => {
            lemma_p_quoted_shrinks(r1);
            match p_quoted(r1) {
                None => {},
                Some((title, r2)) => {
                    match p_lit(r2, ",\"completed\":"@) {
                        None => {},
                        Some(r3) => {
                            match p_bool(r3) {
                                None => {},
                                Some((b, r4)) => {
                                    match p_lit(r4, ",\"comment\":"@) {
                                        None => {},
                                        Some(r5) => {
                                            lemma_p_quoted_shrinks(r5);
                                        },
                                    }
                                },
                            }
                        },
                    }
                },
            }
        },
    }
}

/// Consumes the task objects up to and including the closing bracket.
pub open spec fn p_items(s: Seq<char>) -> Option<(Seq<TaskView>, Seq<char>)>
    decreases s.len(),
    via p_items_decreases
{
    match p_task(s) {
        None => None,
        Some((t, r)) => if r.len() > 0 && r[0] == ',' {
            match p_items(r.drop_first()) {
                None => None,
                Some((ts, r2)) => Some((seq![t] + ts, r2)),
            }
        } else if r.len() > 0 && r[0] == ']' {
            Some((seq![t], r.drop_first()))
        } else {
            None
        },
    }
}

#[via_fn]
proof fn p_items_decreases(s: Seq<char>) {
    lemma_p_task_shrinks(s);
}

/// Consumes a whole list's text.
pub open spec fn p_list(s: Seq<char>) -> Option<(Seq<TaskView>, Seq<char>)> {
    if s.len() >= 2 && s[0] == '[' && s[1] == ']' {
        Some((Seq::empty(), s.subrange(2, s.len() as int)))
    } else if s.len() >= 1 && s[0] == '[' {
        p_items(s.drop_first())
    } else {
        None
    }
}

/// What a stored text means: the task list it denotes, or nothing when it
/// is not exactly a rendered list.
pub open spec fn spec_parse(s: Seq<char>) -> Option<Seq<TaskView>> {
    match p_list(s) {
        None => None,
        Some((ts, r)) => if r.len() == 0 {
            Some(ts)
        } else {
            None
        },
    }
}

// ------------------------------------------------------------- round trip

/// Parsing an escaped text (from index `i` of the original) followed by a
/// closing quote gives back the original's tail.
proof fn lemma_esc_round_trip(x: Seq<char>, i: int, rest: Seq<char>)
    requires
        0 <= i <= x.len(),
    ensures
        p_quoted_body(esc_from(x, i) + seq!['"'] + rest) == Some(
            (x.subrange(i, x.len() as int), rest),
        ),
    decreases x.len() - i,
{
    let s = esc_from(x, i) + seq!['"'] + rest;
    if i == x.len() {
        assert(s =~= seq!['"'] + rest);
        assert(s[0] == '"');
        assert(s.drop_first() =~= rest);
        assert(x.subrange(i, x.len() as int) =~= Seq::empty());
        assert(p_quoted_body(s) == Some((x.subrange(i, x.len() as int), rest)));
    } else {
        let c = x[i];
        lemma_esc_round_trip(x, i + 1, rest);
        let tail = esc_from(x, i + 1) + seq!['"'] + rest;
        if needs_escape(c) {
            assert(s =~= seq!['\\', c] + tail);
            assert(s[0] == '\\' && s.len() >= 2 && s[1] == c);
            assert(s.subrange(2, s.len() as int) =~= tail);
            assert(seq![c] + x.subrange(i + 1, x.len() as int) =~= x.subrange(
                i,
                x.len() as int,
            ));
        } else {
            assert(s =~= seq![c] + tail);
            assert(s[0] == c && c != '"' && c != '\\');
            assert(s.drop_first() =~= tail);
            assert(seq![c] + x.subrange(i + 1, x.len() as int) =~= x.subrange(
                i,
                x.len() as int,
            ));
        }
    }
}

/// Consuming a literal from itself-plus-rest leaves exactly the rest.
proof fn lemma_lit_round_trip(lit: Seq<char>, rest: Seq<char>)
    ensures
        p_lit(lit + rest, lit) == Some(rest),
{
    let s = lit + rest;
    assert(s.subrange(0, lit.len() as int) =~= lit);
    assert(s.subrange(lit.len() as int, s.len() as int) =~= rest);
}

/// Parsing a quoted text followed by anything gives back the text.
proof fn lemma_quoted_round_trip(x: Seq<char>, rest: Seq<char>)
    ensures
        p_quoted(quoted(x) + rest) == Some((x, rest)),
{
    let s = quoted(x) + rest;
    assert(s =~= seq!['"'] + (esc_from(x, 0) + seq!['"'] + rest));
    assert(s[0] == '"');
    assert(s.drop_first() =~= esc_from(x, 0) + seq!['"'] + rest);
    lemma_esc_round_trip(x, 0, rest);
    assert(x.subrange(0, x.len() as int) =~= x);
}

/// Parsing a boolean's text followed by anything gives back the boolean.
proof fn lemma_bool_round_trip(b: bool, rest: Seq<char>)
    ensures
        p_bool(bool_text(b) + rest) == Some((b, rest)),
{
    reveal_strlit("true");
    reveal_strlit("false");
    let s = bool_text(b) + rest;
    if b {
        lemma_lit_round_trip("true"@, rest);
    } else {
        lemma_lit_round_trip("false"@, rest);
        if "true"@.len() <= s.len() {
            assert(s.subrange(0, 4)[0] == 'f');
            assert(s.subrange(0, 4) != "true"@);
        }
    }
}

/// Parsing one rendered task followed by anything gives back the task.
#[verifier::rlimit(80)]
proof fn lemma_task_round_trip(t: TaskView, rest: Seq<char>)
    ensures
        p_task(task_text(t) + rest) == Some((t, rest)),
{
    reveal_strlit("}");
    reveal_strlit(",\"comment\":");
    let s = task_text(t) + rest;
    let after_title = ",\"completed\":"@ + bool_text(t.completed) + comment_text(t.comment)
        + "}"@ + rest;
    assert(s =~= "{\"title\":"@ + (quoted(t.title) + after_title));
    lemma_lit_round_trip("{\"title\":"@, quoted(t.title) + after_title);
    lemma_quoted_round_trip(t.title, after_title);
    let after_completed = bool_text(t.completed) + comment_text(t.comment) + "}"@ + rest;
    assert(after_title =~= ",\"completed\":"@ + after_completed);
    lemma_lit_round_trip(",\"completed\":"@, after_completed);
    let r4 = comment_text(t.comment) + "}"@ + rest;
    assert(after_completed =~= bool_text(t.completed) + r4);
    lemma_bool_round_trip(t.completed, r4);
    match t.comment {
        None => {
            assert(r4 =~= "}"@ + rest);
            lemma_lit_round_trip("}"@, rest);
            assert(p_task(s) matches Some((pt, pr)) && pr == rest && pt =~= t);
        },
        Some(cm) => {
            assert(r4 =~= ",\"comment\":"@ + (quoted(cm) + ("}"@ + rest)));
            assert(r4[0] == ',');
            if "}"@.len() <= r4.len() {
                assert(r4.subrange(0, 1)[0] == ',');
                assert(r4.subrange(0, 1) != "}"@);
            }
            lemma_lit_round_trip(",\"comment\":"@, quoted(cm) + ("}"@ + rest));
            lemma_quoted_round_trip(cm, "}"@ + rest);
            lemma_lit_round_trip("}"@, rest);
            assert(p_task(s) matches Some((pt, pr)) && pr == rest && pt =~= t);
        },
    }
}

/// Parsing the rendered tasks from index `i` on, followed by the closing
/// bracket and anything, gives back those tasks.
#[verifier::rlimit(60)]
proof fn lemma_items_round_trip(ts: Seq<TaskView>, i: int, rest: Seq<char>)
    requires
        0 <= i < ts.len(),
    ensures
        p_items(items_text(ts, i) + seq![']'] + rest) == Some(
            (ts.subrange(i, ts.len() as int), rest),
        ),
    decreases ts.len() - i,
{
    let s = items_text(ts, i) + seq![']'] + rest;
    if i == ts.len() - 1 {
        assert(s =~= task_text(ts[i]) + (seq![']'] + rest));
        lemma_task_round_trip(ts[i], seq![']'] + rest);
        let r = seq![']'] + rest;
        assert(r[0] == ']');
        assert(r.drop_first() =~= rest);
        assert(seq![ts[i]] =~= ts.subrange(i, ts.len() as int));
    } else {
        let tail = items_text(ts, i + 1) + seq![']'] + rest;
        assert(s =~= task_text(ts[i]) + (seq![','] + tail));
        lemma_task_round_trip(ts[i], seq![','] + tail);
        let r = seq![','] + tail;
        assert(r[0] == ',');
        assert(r.drop_first() =~= tail);
        lemma_items_round_trip(ts, i + 1, rest);
        assert(seq![ts[i]] + ts.subrange(i + 1, ts.len() as int) =~= ts.subrange(
            i,
            ts.len() as int,
        ));
    }
}

/// Parsing a rendered list gives the list back: saving and then loading
/// reproduces every title, completion flag, and comment (present or
/// absent), in order.
pub proof fn lemma_render_parse_round_trip(ts: Seq<TaskView>)
    ensures
        spec_parse(list_text(ts)) == Some(ts),
{
    let s = list_text(ts);
    if ts.len() == 0 {
        assert(s =~= seq!['[', ']']);
        assert(s[0] == '[' && s[1] == ']');
        assert(s.subrange(2, s.len() as int) =~= Seq::<char>::empty());
        assert(spec_parse(s) matches Some(e) && e =~= ts);
    } else {
        reveal_strlit("{\"title\":");
        assert(s =~= seq!['['] + (items_text(ts, 0) + seq![']'] + Seq::<char>::empty()));
        assert(items_text(ts, 0)[0] == task_text(ts[0])[0]);
        assert(task_text(ts[0])[0] == '{');
        assert(s[1] == '{');
        assert(s.drop_first() =~= items_text(ts, 0) + seq![']'] + Seq::<char>::empty());
        lemma_items_round_trip(ts, 0, Seq::empty());
        assert(ts.subrange(0, ts.len() as int) =~= ts);
    }
}

// ------------------------------------------------------------ exec rendering

/// Appends the escaped form of `text` to `out`.
fn push_escaped(out: &mut String, text: &str)
    ensures
        final(out)@ == old(out)@ + esc_from(text@, 0),
{
    let ghost o0 = out@;
    let n = text.unicode_len();
    let mut i: usize = 0;
    while i < n
        invariant
            i <= n,
            n == text@.len(),
            o0 + esc_from(text@, 0) == out@ + esc_from(text@, i as int),
        decreases n - i,
    {
        let c = text.get_char(i);
        let ghost pre = out@;
        if c == '"' || c == '\\' {
            out.push('\\');
            out.push(c);
        } else {
            out.push(c);
        }
        proof {
            assert(out@ =~= pre + esc_char(text@[i as int]));
            assert(pre + (esc_char(text@[i as int]) + esc_from(text@, i + 1)) =~= (pre + esc_char(
                text@[i as int],
            )) + esc_from(text@, i + 1));
        }
        i += 1;
    }
    proof {
        assert(out@ + esc_from(text@, n as int) =~= out@);
    }
}

/// Appends the quoted form of `text` to `out`.
fn push_quoted(out: &mut String, text: &str)
    ensures
        final(out)@ == old(out)@ + quoted(text@),
{
    let ghost o0 = out@;
    out.push('"');
    push_escaped(out, text);
    out.push('"');
    proof {
        assert(out@ =~= o0 + quoted(text@));
    }
}

/// Appends one task's object text to `out`.
fn push_task(out: &mut String, t: &Task)
    ensures
        final(out)@ == old(out)@ + task_text(t@),
{
    let ghost o0 = out@;
    out.append("{\"title\":");
    push_quoted(out, t.title.as_str());
    out.append(",\"completed\":");
    if t.completed {
        out.append("true");
    } else {
        out.append("false");
    }
    match &t.comment {
        Some(c) => {
            out.append(",\"comment\":");
            push_quoted(out, c.as_str());
        },
        None => {},
    }
    out.append("}");
    proof {
        assert(out@ =~= o0 + task_text(t@));
    }
}

/// Renders the whole list to its durable text.
pub fn render_tasks(tasks: &Vec<Task>) -> (r: String)
    ensures
        r@ == list_text(list_view(tasks@)),
{
    let ghost lv = list_view(tasks@);
    let mut out = String::new();
    out.push('[');
    let n = tasks.len();
    let mut i: usize = 0;
    proof {
        assert(lv.len() == tasks@.len());
        assert(out@ + items_text(lv, 0) + seq![']'] =~= list_text(lv));
    }
    while i < n
        invariant
            i <= n,
            n == tasks@.len(),
            lv == list_view(tasks@),
            lv.len() == n,
            out@ + items_text(lv, i as int) + seq![']'] == list_text(lv),
        decreases n - i,
    {
        let ghost pre = out@;
        push_task(&mut out, &tasks[i]);
        proof {
            assert(tasks@[i as int]@ == lv[i as int]);
        }
        if i + 1 < n {
            out.push(',');
            proof {
                assert(out@ + items_text(lv, i + 1) =~= pre + items_text(lv, i as int));
            }
        } else {
            proof {
                assert(out@ + items_text(lv, i + 1) =~= pre + items_text(lv, i as int));
            }
        }
        i += 1;
    }
    out.push(']');
    proof {
        assert(out@ =~= list_text(lv));
    }
    out
}

// -------------------------------------------------------------- exec parsing

/// Consumes the literal `lit` at index `i` of `s`; `Some` holds the index
/// just past it.
fn expect_lit(s: &str, i: usize, lit: &str) -> (r: Option<usize>)
    requires
        i <= s@.len(),
    ensures
        (match r {
            Some(j) => i <= j <= s@.len() && p_lit(s@.skip(i as int), lit@) == Some(
                s@.skip(j as int),
            ),
            None => p_lit(s@.skip(i as int), lit@) is None,
        }),
{
    let n = s.unicode_len();
    let ln = lit.unicode_len();
    if ln > n - i {
        proof {
            assert(s@.skip(i as int).len() == n - i);
        }
        return None;
    }
    let mut k: usize = 0;
    while k < ln
        invariant
            k <= ln,
            i + ln <= n,
            n == s@.len(),
            ln == lit@.len(),
            forall|m: int| 0 <= m < k ==> s@[i + m] == lit@[m],
        decreases ln - k,
    {
        if s.get_char(i + k) != lit.get_char(k) {
            proof {
                assert(s@.skip(i as int).subrange(0, ln as int)[k as int] == s@[i + k]);
                assert(s@.skip(i as int).subrange(0, ln as int) != lit@);
            }
            return None;
        }
        k += 1;
    }
    proof {
        assert(s@.skip(i as int).subrange(0, ln as int) =~= lit@);
        assert(s@.skip(i as int).subrange(ln as int, s@.skip(i as int).len() as int) =~= s@.skip(
            i + ln,
        ));
    }
    Some(i + ln)
}

/// Consumes a quoted text starting at index `i`; `Some` holds its
/// unescaped content and the index just past the closing quote.
fn scan_quoted(s: &str, i: usize) -> (r: Option<(String, usize)>)
    requires
        i <= s@.len(),
    ensures
        (match r {
            Some((v, j)) => i < j <= s@.len() && p_quoted(s@.skip(i as int)) == Some(
                (v@, s@.skip(j as int)),
            ),
            None => p_quoted(s@.skip(i as int)) is None,
        }),
{
    let n = s.unicode_len();
    if i == n {
        return None;
    }
    if s.get_char(i) != '"' {
        proof {
            assert(s@.skip(i as int)[0] == s@[i as int]);
        }
        return None;
    }
    proof {
        assert(s@.skip(i as int).drop_first() =~= s@.skip(i + 1));
    }
    let mut out = String::new();
    let mut j: usize = i + 1;
    while j < n
        invariant
            i + 1 <= j <= n,
            n == s@.len(),
            s@.skip(i as int).len() > 0 && s@.skip(i as int)[0] == '"',
            s@.skip(i as int).drop_first() == s@.skip(i + 1),
            (match p_quoted_body(s@.skip(j as int)) {
                Some((v, r)) => p_quoted_body(s@.skip(i + 1)) == Some((out@ + v, r)),
                None => p_quoted_body(s@.skip(i + 1)) is None,
            }),
        decreases n - j,
    {
        let c = s.get_char(j);
        let ghost sj = s@.skip(j as int);
        proof {
            assert(sj[0] == s@[j as int] && sj.len() == n - j);
        }
        if c == '"' {
            proof {
                assert(sj.drop_first() =~= s@.skip(j + 1));
                assert(out@ + Seq::<char>::empty() =~= out@);
            }
            return Some((out, j + 1));
        } else if c == '\\' {
            if j + 1 == n {
                return None;
            }
            let c2 = s.get_char(j + 1);
            let ghost pre = out@;
            out.push(c2);
            proof {
                assert(sj.len() >= 2 && sj[1] == s@[j + 1]);
                assert(sj.subrange(2, sj.len() as int) =~= s@.skip(j + 2));
                match p_quoted_body(s@.skip(j + 2)) {
                    Some((v, r)) => {
                        assert(pre + (seq![s@[j + 1]] + v) =~= out@ + v);
                    },
                    None => {},
                }
            }
            j += 2;
        } else {
            let ghost pre = out@;
            out.push(c);
            proof {
                assert(sj.drop_first() =~= s@.skip(j + 1));
                match p_quoted_body(s@.skip(j + 1)) {
                    Some((v, r)) => {
                        assert(pre + (seq![s@[j as int]] + v) =~= out@ + v);
                    },
                    None => {},
                }
            }
            j += 1;
        }
    }
    proof {
        assert(s@.skip(n as int).len() == 0);
    }
    None
}

/// Consumes a boolean's text at index `i`.
fn parse_bool(s: &str, i: usize) -> (r: Option<(bool, usize)>)
    requires
        i <= s@.len(),
    ensures
        (match r {
            Some((b, j)) => i <= j <= s@.len() && p_bool(s@.skip(i as int)) == Some(
                (b, s@.skip(j as int)),
            ),
            None => p_bool(s@.skip(i as int)) is None,
        }),
{
    match expect_lit(s, i, "true") {
        Some(j) => Some((true, j)),
        None => match expect_lit(s, i, "false") {
            Some(j) => Some((false, j)),
            None => None,
        },
    }
}

/// Consumes one task object at index `i`.
fn parse_task(s: &str, i: usize) -> (r: Option<(Task, usize)>)
    requires
        i <= s@.len(),
    ensures
        (match r {
            Some((t, j)) => i <= j <= s@.len() && p_task(s@.skip(i as int)) == Some(
                (t@, s@.skip(j as int)),
            ),
            None => p_task(s@.skip(i as int)) is None,
        }),
{
    let j1 = match expect_lit(s, i, "{\"title\":") {
        Some(j) => j,
        None => {
            return None;
        },
    };
    let (title, j2) = match scan_quoted(s, j1) {
        Some(x) => x,
        None => {
            return None;
        },
    };
    let j3 = match expect_lit(s, j2, ",\"completed\":") {
        Some(j) => j,
        None => {
            return None;
        },
    };
    let (b, j4) = match parse_bool(s, j3) {
        Some(x) => x,
        None => {
            return None;
        },
    };
    match expect_lit(s, j4, "}") {
        Some(j5) => Some((Task { title, completed: b, comment: None }, j5)),
        None => {
            let j5 = match expect_lit(s, j4, ",\"comment\":") {
                Some(j) => j,
                None => {
                    return None;
                },
            };
            let (cm, j6) = match scan_quoted(s, j5) {
                Some(x) => x,
                None => {
                    return None;
                },
            };
            let j7 = match expect_lit(s, j6, "}") {
                Some(j) => j,
                None => {
                    return None;
                },
            };
            Some((Task { title, completed: b, comment: Some(cm) }, j7))
        },
    }
}

/// Consumes the task objects and the closing bracket from index `i` on.
fn parse_items(s: &str, i: usize) -> (r: Option<(Vec<Task>, usize)>)
    requires
        i <= s@.len(),
    ensures
        (match r {
            Some((v, j)) => i <= j <= s@.len() && p_items(s@.skip(i as int)) == Some(
                (list_view(v@), s@.skip(j as int)),
            ),
            None => p_items(s@.skip(i as int)) is None,
        }),
{
    let n = s.unicode_len();
    let mut acc: Vec<Task> = Vec::new();
    let mut cur: usize = i;
    loop
        invariant
            i <= cur <= n,
            n == s@.len(),
            (match p_items(s@.skip(cur as int)) {
                Some((ts, r)) => p_items(s@.skip(i as int)) == Some((list_view(acc@) + ts, r)),
                None => p_items(s@.skip(i as int)) is None,
            }),
        decreases n - cur,
    {
        let (t, j) = match parse_task(s, cur) {
            Some(x) => x,
            None => {
                return None;
            },
        };
        proof {
            lemma_p_task_shrinks(s@.skip(cur as int));
        }
        if j == n {
            proof {
                assert(s@.skip(j as int).len() == 0);
            }
            return None;
        }
        let c = s.get_char(j);
        proof {
            assert(s@.skip(j as int)[0] == s@[j as int]);
            assert(s@.skip(j as int).drop_first() =~= s@.skip(j + 1));
        }
        if c == ',' {
            let ghost a0 = acc@;
            acc.push(t);
            proof {
                assert(list_view(acc@) =~= list_view(a0).push(t@));
                match p_items(s@.skip(j + 1)) {
                    Some((ts, r)) => {
                        assert(list_view(a0) + (seq![t@] + ts) =~= list_view(acc@) + ts);
                    },
                    None => {},
                }
            }
            cur = j + 1;
        } else if c == ']' {
            let ghost a0 = acc@;
            acc.push(t);
            proof {
                assert(list_view(acc@) =~= list_view(a0) + seq![t@]);
            }
            return Some((acc, j + 1));
        } else {
            return None;
        }
    }
}

/// Parses a stored text back into a task list; `None` when the text is
/// not exactly a rendered list. A load treats a `None` as a fatal,
/// unrepairable file.
pub fn parse_tasks(s: &str) -> (r: Option<Vec<Task>>)
    ensures
        (match r {
            Some(v) => spec_parse(s@) == Some(list_view(v@)),
            None => spec_parse(s@) is None,
        }),
{
    let n = s.unicode_len();
    if n == 0 {
        return None;
    }
    if s.get_char(0) != '[' {
        return None;
    }
    if n >= 2 && s.get_char(1) == ']' {
        if n == 2 {
            let v: Vec<Task> = Vec::new();
            proof {
                assert(list_view(v@) =~= Seq::<TaskView>::empty());
                assert(s@.subrange(2, s@.len() as int).len() == 0);
            }
            return Some(v);
        } else {
            return None;
        }
    }
    proof {
        assert(s@.drop_first() =~= s@.skip(1));
    }
    match parse_items(s, 1) {
        Some((v, j)) => {
            if j == n {
                proof {
                    assert(s@.skip(j as int).len() == 0);
                }
                Some(v)
            } else {
                proof {
                    assert(s@.skip(j as int).len() > 0);
                }
                None
            }
        },
        None => None,
    }
}

/// Two lists with the same rendered text are the same list: the stored
/// form determines the list completely.
pub proof fn lemma_render_injective(a: Seq<TaskView>, b: Seq<TaskView>)
    requires
        list_text(a) == list_text(b),
    ensures
        a == b,
{
    lemma_render_parse_round_trip(a);
    lemma_render_parse_round_trip(b);
}

} // verus!
