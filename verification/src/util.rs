//! Partition-key codec: conversion between the numeric partition key
//! and its canonical hex text form.
//!
//! A key's canonical text is lower-case hex with no leading zeros,
//! prefixed `0x`.  Text is accepted back with or without a single
//! leading `0x` or `0X`, and hex digits of either case.

use vstd::prelude::*;
use vstd::arithmetic::div_mod::lemma_fundamental_div_mod;
use vstd::string::StrSliceExecFns;

use crate::error::UFMError;

verus! {

/// True when `c` is a hex digit of either case.
pub open spec fn is_hex_digit(c: char) -> bool {
    (48 <= c as u32 && c as u32 <= 57)  // '0' ..= '9'
    || (97 <= c as u32 && c as u32 <= 102)  // 'a' ..= 'f'
    || (65 <= c as u32 && c as u32 <= 70)  // 'A' ..= 'F'

}

/// The value of the hex digit `c`; zero on any other character.
pub open spec fn hex_digit_val(c: char) -> nat {
    if 48 <= c as u32 && c as u32 <= 57 {
        (c as u32 - 48) as nat
    } else if 97 <= c as u32 && c as u32 <= 102 {
        (c as u32 - 87) as nat
    } else if 65 <= c as u32 && c as u32 <= 70 {
        (c as u32 - 55) as nat
    } else {
        0
    }
}

/// True when every character of `s` is a hex digit.
pub open spec fn all_hex_digits(s: Seq<char>) -> bool {
    forall|i: int| 0 <= i < s.len() ==> is_hex_digit(#[trigger] s[i])
}

/// The number a sequence of hex digits denotes, most significant
/// digit first.
pub open spec fn hex_val(s: Seq<char>) -> nat
    decreases s.len(),
{
    if s.len() == 0 {
        0
    } else {
        16 * hex_val(s.drop_last()) + hex_digit_val(s.last())
    }
}

/// `s` without a single leading `0x` or `0X`, if it carries one.
pub open spec fn strip_hex_prefix(s: Seq<char>) -> Seq<char> {
    if s.len() >= 2 && s[0] == '0' && (s[1] == 'x' || s[1] == 'X') {
        s.skip(2)
    } else {
        s
    }
}

/// What decoding a partition key from text yields: after stripping an
/// optional `0x`/`0X` prefix, the remainder must be a non-empty run
/// of hex digits whose value fits a non-negative 32-bit key; any
/// other text decodes to nothing.
pub open spec fn spec_parse_pkey(s: Seq<char>) -> Option<i32> {
    let d = strip_hex_prefix(s);
    if d.len() > 0 && all_hex_digits(d) && hex_val(d) <= 0x7fff_ffff {
        Some(hex_val(d) as i32)
    } else {
        None
    }
}

/// The lower-case glyph of the hex digit value `n`.
pub open spec fn hex_digit_char(n: nat) -> char {
    if n == 0 {
        '0'
    } else if n == 1 {
        '1'
    } else if n == 2 {
        '2'
    } else if n == 3 {
        '3'
    } else if n == 4 {
        '4'
    } else if n == 5 {
        '5'
    } else if n == 6 {
        '6'
    } else if n == 7 {
        '7'
    } else if n == 8 {
        '8'
    } else if n == 9 {
        '9'
    } else if n == 10 {
        'a'
    } else if n == 11 {
        'b'
    } else if n == 12 {
        'c'
    } else if n == 13 {
        'd'
    } else if n == 14 {
        'e'
    } else {
        'f'
    }
}

/// The hex digits of `n`, most significant first, lower case, no
/// leading zeros (a single `0` for zero itself).
pub open spec fn hex_rep(n: nat) -> Seq<char>
    decreases n,
{
    if n < 16 {
        seq![hex_digit_char(n)]
    } else {
        hex_rep(n / 16).push(hex_digit_char(n % 16))
    }
}

/// The 32 bits of `x`, read as an unsigned number: what the canonical
/// text form of a key spells out.
pub open spec fn pkey_bits(x: i32) -> nat {
    if x >= 0 {
        x as nat
    } else {
        (x + 0x1_0000_0000) as nat
    }
}

/// The canonical text of the partition key `x`.
pub open spec fn spec_build_pkey(x: i32) -> Seq<char> {
    seq!['0', 'x'] + hex_rep(pkey_bits(x))
}

/// The digits of a number are hex digits, and there is at least one.
pub proof fn lemma_hex_rep_wf(n: nat)
    ensures
        hex_rep(n).len() >= 1,
        all_hex_digits(hex_rep(n)),
    decreases n,
{
    if n >= 16 {
        lemma_hex_rep_wf(n / 16);
    }
}

/// Reading the digits of `n` back yields `n`.
pub proof fn lemma_hex_val_rep(n: nat)
    ensures
        hex_val(hex_rep(n)) == n,
    decreases n,
{
    if n < 16 {
        let c = hex_digit_char(n);
        let s1 = seq![c];
        assert(s1.drop_last() =~= Seq::<char>::empty());
        assert(hex_val(Seq::<char>::empty()) == 0);
        assert(s1.last() == c);
        assert(hex_val(s1) == 16 * hex_val(s1.drop_last()) + hex_digit_val(s1.last()));
        assert(hex_digit_val(c) == n);
    } else {
        lemma_hex_val_rep(n / 16);
        let a = hex_rep(n / 16);
        let c = hex_digit_char(n % 16);
        assert(a.push(c).drop_last() =~= a);
        assert(a.push(c).last() == c);
        assert(hex_val(a.push(c)) == 16 * hex_val(a) + hex_digit_val(c));
        assert(hex_digit_val(c) == n % 16);
        lemma_fundamental_div_mod(n as int, 16);
    }
}

/// A prefix of a digit run never denotes more than the whole run.
pub proof fn lemma_hex_val_prefix(s: Seq<char>, i: int)
    requires
        0 <= i <= s.len(),
    ensures
        hex_val(s.take(i)) <= hex_val(s),
    decreases s.len(),
{
    if i < s.len() {
        assert(s.take(i) =~= s.drop_last().take(i));
        lemma_hex_val_prefix(s.drop_last(), i);
    } else {
        assert(s.take(i) =~= s);
    }
}

/// Decoding the canonical text of a non-negative key yields the key
/// back: the codec round-trips.
pub proof fn lemma_pkey_round_trip(x: i32)
    requires
        0 <= x,
    ensures
        spec_parse_pkey(spec_build_pkey(x)) == Some(x),
{
    let n = pkey_bits(x);
    lemma_hex_rep_wf(n);
    lemma_hex_val_rep(n);
    let s = spec_build_pkey(x);
    let rep = hex_rep(n);
    assert(strip_hex_prefix(s) =~= rep);
}

/// The value of the hex digit `c`, or nothing when `c` is no hex
/// digit.
fn hex_digit_value(c: char) -> (r: Option<u32>)
    ensures
        match r {
            Some(v) => is_hex_digit(c) && v == hex_digit_val(c) && v < 16,
            None => !is_hex_digit(c),
        },
{
    let u: u32 = c as u32;
    if 48 <= u && u <= 57 {
        Some(u - 48)
    } else if 97 <= u && u <= 102 {
        Some(u - 87)
    } else if 65 <= u && u <= 70 {
        Some(u - 55)
    } else {
        None
    }
}

/// The lower-case glyph of the hex digit value `d`.
pub(crate) fn hex_digit_glyph(d: u32) -> (c: char)
    requires
        d < 16,
    ensures
        c == hex_digit_char(d as nat),
{
    if d == 0 {
        '0'
    } else if d == 1 {
        '1'
    } else if d == 2 {
        '2'
    } else if d == 3 {
        '3'
    } else if d == 4 {
        '4'
    } else if d == 5 {
        '5'
    } else if d == 6 {
        '6'
    } else if d == 7 {
        '7'
    } else if d == 8 {
        '8'
    } else if d == 9 {
        '9'
    } else if d == 10 {
        'a'
    } else if d == 11 {
        'b'
    } else if d == 12 {
        'c'
    } else if d == 13 {
        'd'
    } else if d == 14 {
        'e'
    } else {
        'f'
    }
}

/// Appends the hex digits of `n` to `out`.
fn push_hex_rep(out: &mut String, n: u32)
    ensures
        final(out)@ == old(out)@ + hex_rep(n as nat),
    decreases n,
{
    if n >= 16 {
        push_hex_rep(out, n / 16);
    }
    out.push(hex_digit_glyph(n % 16));
    proof {
        assert(out@ =~= old(out)@ + hex_rep(n as nat));
    }
}

/// Builds a partition key's canonical text form: lower-case hex, no
/// leading zeros, prefixed `0x`.
pub fn build_pkey(pkey: i32) -> (r: String)
    ensures
        r@ == spec_build_pkey(pkey),
{
    let bits: u32 = if pkey >= 0 {
        pkey as u32
    } else {
        ((pkey as i64) + 0x1_0000_0000i64) as u32
    };
    assert(bits as nat == pkey_bits(pkey));
    let mut r = "0x".to_owned();
    proof {
        reveal_strlit("0x");
        assert(r@ =~= seq!['0', 'x']);
    }
    push_hex_rep(&mut r, bits);
    r
}

/// Decodes a partition key from text: an optional `0x`/`0X` prefix,
/// then hex digits of either case, together denoting a non-negative
/// 32-bit key.  Any other text is rejected as an invalid key, with
/// the offending text carried in the error.
pub fn parse_pkey(pkey: &String) -> (r: Result<i32, UFMError>)
    ensures
        match spec_parse_pkey(pkey@) {
            Some(v) => r == Ok::<i32, UFMError>(v),
            None => r == Err::<i32, UFMError>(UFMError::InvalidPKey(*pkey)),
        },
{
    let s: &str = pkey.as_str();
    let n: usize = s.unicode_len();
    let start: usize = if n >= 2 && s.get_char(0) == '0' && (s.get_char(1) == 'x' || s.get_char(1)
        == 'X') {
        2
    } else {
        0
    };
    let ghost digits: Seq<char> = strip_hex_prefix(pkey@);
    proof {
        assert(digits =~= pkey@.subrange(start as int, n as int));
    }
    if start >= n {
        return Err(UFMError::InvalidPKey(pkey.clone()));
    }
    let mut val: u32 = 0;
    let mut i: usize = start;
    while i < n
        invariant
            start <= i <= n,
            n == pkey@.len(),
            s@ == pkey@,
            digits == strip_hex_prefix(pkey@),
            digits =~= pkey@.subrange(start as int, n as int),
            all_hex_digits(pkey@.subrange(start as int, i as int)),
            val == hex_val(pkey@.subrange(start as int, i as int)),
            val <= 0x7fff_ffff,
        decreases n - i,
    {
        let c: char = s.get_char(i);
        let ghost done: Seq<char> = pkey@.subrange(start as int, i as int);
        let ghost next: Seq<char> = pkey@.subrange(start as int, i as int + 1);
        proof {
            assert(next.drop_last() =~= done);
            assert(next.last() == pkey@[i as int]);
        }
        match hex_digit_value(c) {
            None => {
                proof {
                    assert(!is_hex_digit(digits[i - start]));
                }
                return Err(UFMError::InvalidPKey(pkey.clone()));
            },
            Some(d) => {
                if val > 0x07ff_ffff {
                    proof {
                        assert(hex_val(next) == 16 * val + hex_digit_val(c));
                        assert(hex_val(next) > 0x7fff_ffff);
                        assert(next =~= digits.take(i + 1 - start));
                        lemma_hex_val_prefix(digits, i + 1 - start);
                    }
                    return Err(UFMError::InvalidPKey(pkey.clone()));
                }
                val = val * 16 + d;
            },
        }
        i += 1;
    }
    proof {
        assert(pkey@.subrange(start as int, n as int) =~= digits);
    }
    Ok(val as i32)
}

/// True exactly when `pkey` is the fabric's default/management
/// partition key, which implicitly contains all hosts.
pub fn is_default_pkey(pkey: i32) -> (r: bool)
    ensures
        r == (pkey == crate::DEFAULT_PKEY),
{
    pkey == crate::DEFAULT_PKEY
}

} // verus!
