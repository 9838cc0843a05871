//! Text helpers for the draft buffers: appending and removing single
//! characters of a `String`, and the whitespace test used to decide
//! whether a committed draft is blank.

use vstd::prelude::*;

verus! {

/// Relies on String::push: it appends exactly the given character at the
/// end of the string.
pub assume_specification[ String::push ](s: &mut String, c: char)
    ensures
        final(s)@ == old(s)@.push(c),
;

/// Relies on String::pop: it removes and returns the last character, or
/// returns None and leaves the string unchanged when it is empty.
pub assume_specification[ String::pop ](s: &mut String) -> (r: Option<char>)
    ensures
        old(s)@.len() == 0 ==> r is None && final(s)@ == old(s)@,
        old(s)@.len() > 0 ==> r == Some(old(s)@.last()) && final(s)@ == old(s)@.drop_last(),
;

/// The whitespace characters the editor recognises when it trims a
/// draft: the Unicode White_Space set, the same characters a trim of the
/// standard library removes.
pub open spec fn is_space(c: char) -> bool {
    let v = c as int;
    ||| v == 0x20
    ||| 0x09 <= v <= 0x0d
    ||| v == 0x85
    ||| v == 0xa0
    ||| v == 0x1680
    ||| 0x2000 <= v <= 0x200a
    ||| v == 0x2028
    ||| v == 0x2029
    ||| v == 0x202f
    ||| v == 0x205f
    ||| v == 0x3000
}

/// A draft is blank when every character of it is whitespace; trimming
/// such a draft leaves nothing.
pub open spec fn blank(s: Seq<char>) -> bool {
    forall|i: int| 0 <= i < s.len() ==> is_space(#[trigger] s[i])
}

/// Whether one character counts as whitespace for trimming.
pub fn char_is_space(c: char) -> (r: bool)
    ensures
        r == is_space(c),
{
    let v = c as u32;
    v == 0x20 || (0x09 <= v && v <= 0x0d) || v == 0x85 || v == 0xa0 || v == 0x1680 || (0x2000
        <= v && v <= 0x200a) || v == 0x2028 || v == 0x2029 || v == 0x202f || v == 0x205f || v
        == 0x3000
}

/// Whether the whole draft is whitespace (so a trim would empty it).
pub fn is_blank(s: &String) -> (r: bool)
    ensures
        r == blank(s@),
{
    let text = s.as_str();
    let n = text.unicode_len();
    let mut i: usize = 0;
    while i < n
        invariant
            i <= n,
            n == text@.len(),
            text@ == s@,
            forall|j: int| 0 <= j < i ==> is_space(#[trigger] text@[j]),
        decreases n - i,
    {
        if !char_is_space(text.get_char(i)) {
            return false;
        }
        i += 1;
    }
    true
}

} // verus!
