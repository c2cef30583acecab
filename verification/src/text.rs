//! Small text utilities shared across the crate, and the one piece of
//! text support taken on trust from the standard library.

use vstd::prelude::*;
use vstd::string::StrSliceExecFns;

verus! {

/// Relies on `alloc::string::String::push`: appending one character to
/// the end of the string.
pub assume_specification[ String::push ](s: &mut String, ch: char)
    ensures
        final(s)@ == old(s)@.push(ch),
;

/// The lower-case form of an ASCII letter's code point; other code
/// points are left as they are.
pub open spec fn lower_code(u: u32) -> u32 {
    if 65 <= u && u <= 90 {
        (u + 32) as u32
    } else {
        u
    }
}

/// ASCII-case-insensitive equality of two texts.
pub open spec fn eq_ignore_ascii_case(s: Seq<char>, t: Seq<char>) -> bool {
    s.len() == t.len() && forall|i: int|
        0 <= i < s.len() ==> lower_code(#[trigger] s[i] as u32) == lower_code(t[i] as u32)
}

/// Compares two texts ignoring the case of ASCII letters.
pub fn str_eq_ignore_ascii_case(s: &str, t: &str) -> (r: bool)
    ensures
        r == eq_ignore_ascii_case(s@, t@),
{
    let n: usize = s.unicode_len();
    let m: usize = t.unicode_len();
    if n != m {
        return false;
    }
    let mut i: usize = 0;
    while i < n
        invariant
            n == s@.len(),
            n == t@.len(),
            i <= n,
            forall|j: int|
                0 <= j < i ==> lower_code(#[trigger] s@[j] as u32) == lower_code(t@[j] as u32),
        decreases n - i,
    {
        let a: u32 = s.get_char(i) as u32;
        let b: u32 = t.get_char(i) as u32;
        let la: u32 = if 65 <= a && a <= 90 { a + 32 } else { a };
        let lb: u32 = if 65 <= b && b <= 90 { b + 32 } else { b };
        if la != lb {
            return false;
        }
        i += 1;
    }
    true
}

} // verus!
