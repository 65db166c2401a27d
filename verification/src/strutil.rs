//! Small executable helpers over strings and characters that the rest of the
//! crate builds on: decoding a `&str` into a vector of its characters,
//! comparing strings by their character sequences, and appending a single
//! character to a `String`.

use vstd::prelude::*;

verus! {

/// Relies on `String::push`: appends the character to the end of the string.
pub assume_specification[ String::push ](s: &mut String, c: char)
    ensures
        final(s)@ == old(s)@.push(c),
;

/// Decode a string into the vector of its characters.
pub fn to_char_vec(s: &str) -> (r: Vec<char>)
    ensures
        r@ == s@,
{
    let n = s.unicode_len();
    let mut v: Vec<char> = Vec::new();
    let mut i: usize = 0;
    while i < n
        invariant
            n == s@.len(),
            i <= n,
            v@ == s@.subrange(0, i as int),
        decreases n - i,
    {
        let c = s.get_char(i);
        v.push(c);
        i = i + 1;
    }
    proof {
        assert(v@ =~= s@);
    }
    v
}

/// Compare two string slices by their character sequences.
pub fn str_eq(a: &str, b: &str) -> (r: bool)
    ensures
        r == (a@ == b@),
{
    let sa = a.to_owned();
    let sb = b.to_owned();
    sa == sb
}

/// An ASCII capital letter.
pub open spec fn is_upper_char(c: char) -> bool {
    ('A' as u32) <= (c as u32) && (c as u32) <= ('Z' as u32)
}

/// Two characters equal up to ASCII case.
pub open spec fn char_eq_ci(a: char, b: char) -> bool {
    a == b || (is_upper_char(a) && (b as u32) == (a as u32) + 32) || (is_upper_char(b) && (
    a as u32) == (b as u32) + 32)
}

/// Two character sequences equal up to ASCII case.
pub open spec fn seq_eq_ci(a: Seq<char>, b: Seq<char>) -> bool {
    a.len() == b.len() && (forall|i: int| 0 <= i < a.len() ==> char_eq_ci(a[i], b[i]))
}

fn char_eq_ci_exec(a: char, b: char) -> (r: bool)
    ensures
        r == char_eq_ci(a, b),
{
    let au = a as u32;
    let bu = b as u32;
    if a == b {
        true
    } else if 65 <= au && au <= 90 && bu == au + 32 {
        true
    } else {
        65 <= bu && bu <= 90 && au == bu + 32
    }
}

/// Compare two string slices up to ASCII case.
pub fn str_eq_ci(a: &str, b: &str) -> (r: bool)
    ensures
        r == seq_eq_ci(a@, b@),
{
    let va = to_char_vec(a);
    let vb = to_char_vec(b);
    if va.len() != vb.len() {
        return false;
    }
    let n = va.len();
    let mut i: usize = 0;
    while i < n
        invariant
            va@ == a@,
            vb@ == b@,
            n == a@.len() == b@.len(),
            i <= n,
            forall|k: int| 0 <= k < i ==> char_eq_ci(a@[k], b@[k]),
        decreases n - i,
    {
        if !char_eq_ci_exec(va[i], vb[i]) {
            return false;
        }
        i = i + 1;
    }
    true
}

} // verus!
