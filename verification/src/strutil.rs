//! Verified string helpers: equality, ASCII case folding, and lexicographic
//! comparison by code point, shared by the path resolver and the parsers.

use vstd::prelude::*;

verus! {

/// Whether two string slices hold the same characters.
pub fn str_eq(a: &str, b: &str) -> (r: bool)
    ensures
        r == (a@ == b@),
{
    let sa: String = a.to_owned();
    let sb: String = b.to_owned();
    sa == sb
}

/// ASCII lowercase folding of one character; characters outside `A`..`Z`
/// are unchanged.
pub open spec fn lower_char(c: char) -> char {
    if 'A' <= c && c <= 'Z' {
        ((c as u8) + 32) as char
    } else {
        c
    }
}

/// ASCII lowercase folding of a character sequence.
pub open spec fn fold_lower(s: Seq<char>) -> Seq<char> {
    s.map(|i: int, c: char| lower_char(c))
}

/// Folds one character to ASCII lowercase.
pub fn lower_char_exec(c: char) -> (r: char)
    ensures
        r == lower_char(c),
{
    let u = c as u32;
    if 65 <= u && u <= 90 {
        (((c as u8) + 32) as char)
    } else {
        c
    }
}

/// Whether two strings are equal up to ASCII case.
pub fn eq_ignore_ascii_case(a: &str, b: &str) -> (r: bool)
    ensures
        r == (fold_lower(a@) == fold_lower(b@)),
{
    let na = a.unicode_len();
    let nb = b.unicode_len();
    if na != nb {
        proof {
            assert(fold_lower(a@).len() == a@.len());
            assert(fold_lower(b@).len() == b@.len());
        }
        return false;
    }
    let mut i: usize = 0;
    while i < na
        invariant
            i <= na,
            na == a@.len(),
            nb == b@.len(),
            na == nb,
            forall|j: int| 0 <= j < i ==> fold_lower(a@)[j] == fold_lower(b@)[j],
        decreases na - i,
    {
        let ca = lower_char_exec(a.get_char(i));
        let cb = lower_char_exec(b.get_char(i));
        if ca != cb {
            proof {
                assert(fold_lower(a@)[i as int] != fold_lower(b@)[i as int]);
            }
            return false;
        }
        i += 1;
    }
    proof {
        assert(fold_lower(a@) =~= fold_lower(b@));
    }
    true
}

/// Lexicographic "less than or equal" on character sequences, ordered by
/// code point.
pub open spec fn lex_le(a: Seq<char>, b: Seq<char>) -> bool
    decreases a.len(),
{
    if a.len() == 0 {
        true
    } else if b.len() == 0 {
        false
    } else if (a[0] as u32) < (b[0] as u32) {
        true
    } else if (b[0] as u32) < (a[0] as u32) {
        false
    } else {
        lex_le(a.subrange(1, a.len() as int), b.subrange(1, b.len() as int))
    }
}

/// Decides `lex_le` on string slices.
pub fn str_lex_le(a: &str, b: &str) -> (r: bool)
    ensures
        r == lex_le(a@, b@),
    decreases a@.len(),
{
    let na = a.unicode_len();
    let nb = b.unicode_len();
    if na == 0 {
        true
    } else if nb == 0 {
        false
    } else {
        let ca = a.get_char(0);
        let cb = b.get_char(0);
        if (ca as u32) < (cb as u32) {
            true
        } else if (cb as u32) < (ca as u32) {
            false
        } else {
            str_lex_le(a.substring_char(1, na), b.substring_char(1, nb))
        }
    }
}

} // verus!
