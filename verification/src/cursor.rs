//! The selection cursor: wraparound navigation over a list of a given
//! length, and the clamp applied after a removal.

use vstd::prelude::*;

verus! {

/// Where the cursor stands after moving one step forward: the next index,
/// wrapping from the last entry to the first; unchanged on an empty list.
pub open spec fn advanced(cursor: int, len: int) -> int {
    if len == 0 {
        cursor
    } else if cursor + 1 < len {
        cursor + 1
    } else {
        0
    }
}

/// Where the cursor stands after moving one step back: the previous index,
/// wrapping from the first entry to the last; unchanged on an empty list.
pub open spec fn retreated(cursor: int, len: int) -> int {
    if len == 0 {
        cursor
    } else if cursor == 0 {
        len - 1
    } else {
        cursor - 1
    }
}

/// The parked position after a removal: one step back, floored at zero.
pub open spec fn clamped_back(cursor: int) -> int {
    if cursor > 0 {
        cursor - 1
    } else {
        0
    }
}

/// Where the cursor stands after the entry at `removed` left the list:
/// one step back (floored at zero) when the removed entry was at or
/// before the cursor, unchanged otherwise.
pub open spec fn clamped_after_removal(cursor: int, removed: int) -> int {
    if removed <= cursor {
        clamped_back(cursor)
    } else {
        cursor
    }
}

/// The last valid index of a list of length `len`, or the parked position
/// zero when the list is empty.
pub open spec fn last_or_zero(len: int) -> int {
    if len > 0 {
        len - 1
    } else {
        0
    }
}

/// Moves the cursor one entry forward, wrapping past the end.
pub fn advance(cursor: usize, len: usize) -> (r: usize)
    requires
        len == 0 ==> cursor == 0,
        len > 0 ==> cursor < len,
    ensures
        r == advanced(cursor as int, len as int),
        len > 0 ==> r == (cursor + 1) % (len as int),
        len == 0 ==> r == 0,
        len > 0 ==> r < len,
{
    let r = if len == 0 {
        cursor
    } else if cursor + 1 < len {
        cursor + 1
    } else {
        0
    };
    proof {
        if len > 0 {
            if cursor + 1 < len {
                vstd::arithmetic::div_mod::lemma_small_mod((cursor + 1) as nat, len as nat);
            } else {
                vstd::arithmetic::div_mod::lemma_mod_self_0(len as int);
            }
        }
    }
    r
}

/// Moves the cursor one entry back, wrapping past the start.
pub fn retreat(cursor: usize, len: usize) -> (r: usize)
    requires
        len == 0 ==> cursor == 0,
        len > 0 ==> cursor < len,
    ensures
        r == retreated(cursor as int, len as int),
        len > 0 ==> r == (cursor + len - 1) % (len as int),
        len == 0 ==> r == 0,
        len > 0 ==> r < len,
{
    let r = if len == 0 {
        cursor
    } else if cursor == 0 {
        len - 1
    } else {
        cursor - 1
    };
    proof {
        if len > 0 {
            if cursor == 0 {
                vstd::arithmetic::div_mod::lemma_small_mod((len - 1) as nat, len as nat);
            } else {
                vstd::arithmetic::div_mod::lemma_mod_multiples_vanish(1, cursor - 1, len as int);
                vstd::arithmetic::div_mod::lemma_small_mod((cursor - 1) as nat, len as nat);
            }
        }
    }
    r
}

/// Clamps the cursor after the entry at `removed` was taken out of the
/// list; both indices address the list as it was before the removal.
/// When both were in bounds, the result is in bounds of the shortened
/// list whenever that list stays non-empty.
pub fn clamp_after_removal(cursor: usize, removed: usize) -> (r: usize)
    ensures
        r == clamped_after_removal(cursor as int, removed as int),
{
    if removed <= cursor && cursor > 0 {
        cursor - 1
    } else {
        cursor
    }
}

} // verus!
