//! The wire JSON model.
//!
//! The transport collaborator hands response bodies to the core as
//! values of [`JsonValue`], and takes request bodies back as JSON
//! text.  A number is carried as its decimal wire text, so that a
//! value the core does not interpret (a rate limit, say) is forwarded
//! verbatim.

use vstd::prelude::*;
use vstd::string::StrSliceExecFns;

use crate::util::hex_digit_char;

verus! {

/// A JSON value as the core sees it.  An object keeps its fields in
/// wire order; a lookup takes the first binding of a key.
#[derive(Debug)]
pub enum JsonValue {
    Null,
    Bool(bool),
    /// A number, as its decimal wire text.
    Num(String),
    Str(String),
    Arr(Vec<JsonValue>),
    Obj(Vec<(String, JsonValue)>),
}

/// The first value bound to `key` among `entries`, if any.
pub open spec fn lookup_entries(entries: Seq<(String, JsonValue)>, key: Seq<char>) -> Option<
    JsonValue,
>
    decreases entries.len(),
{
    if entries.len() == 0 {
        None
    } else if entries[0].0@ == key {
        Some(entries[0].1)
    } else {
        lookup_entries(entries.drop_first(), key)
    }
}

impl JsonValue {
    /// The value of the field `key`, when this is an object that
    /// carries one.
    pub open spec fn spec_get(self, key: Seq<char>) -> Option<JsonValue> {
        match self {
            JsonValue::Obj(entries) => lookup_entries(entries@, key),
            _ => None,
        }
    }
}

/// Looks `key` up among an object's entries, first binding wins.
pub fn obj_get<'a>(entries: &'a Vec<(String, JsonValue)>, key: &str) -> (r: Option<
    &'a JsonValue,
>)
    ensures
        match lookup_entries(entries@, key@) {
            Some(v) => r matches Some(rv) && *rv == v,
            None => r is None,
        },
{
    let k: String = key.to_owned();
    let n: usize = entries.len();
    let mut i: usize = 0;
    proof {
        assert(entries@.skip(0) =~= entries@);
    }
    while i < n
        invariant
            n == entries@.len(),
            i <= n,
            k@ == key@,
            lookup_entries(entries@, key@) == lookup_entries(entries@.skip(i as int), key@),
        decreases n - i,
    {
        proof {
            assert(entries@.skip(i as int).drop_first() =~= entries@.skip(i as int + 1));
            assert(entries@.skip(i as int)[0] == entries@[i as int]);
        }
        if entries[i].0.eq(&k) {
            return Some(&entries[i].1);
        }
        i += 1;
    }
    proof {
        assert(entries@.skip(n as int) =~= Seq::<(String, JsonValue)>::empty());
    }
    None
}

/// A successful lookup yields the value of one of the entries.
pub proof fn lemma_lookup_in_entries(entries: Seq<(String, JsonValue)>, key: Seq<char>)
    requires
        lookup_entries(entries, key) is Some,
    ensures
        exists|i: int|
            0 <= i < entries.len() && entries[i].1 == lookup_entries(entries, key)->0,
    decreases entries.len(),
{
    if entries[0].0@ == key {
        assert(entries[0].1 == lookup_entries(entries, key)->0);
    } else {
        lemma_lookup_in_entries(entries.drop_first(), key);
        let j = choose|j: int|
            0 <= j < entries.drop_first().len() && entries.drop_first()[j].1 == lookup_entries(
                entries.drop_first(),
                key,
            )->0;
        assert(entries[j + 1].1 == lookup_entries(entries, key)->0);
    }
}

/// What a character contributes to a JSON string literal: quote and
/// backslash are escaped, the common control characters take their
/// short escapes, any other control character its `\u00..` form, and
/// everything else stands as itself.
pub open spec fn escape_char(c: char) -> Seq<char> {
    if c == '"' {
        seq!['\\', '"']
    } else if c == '\\' {
        seq!['\\', '\\']
    } else if c == '\n' {
        seq!['\\', 'n']
    } else if c == '\r' {
        seq!['\\', 'r']
    } else if c == '\t' {
        seq!['\\', 't']
    } else if (c as u32) < 32 {
        seq![
            '\\',
            'u',
            '0',
            '0',
            hex_digit_char((c as u32 / 16) as nat),
            hex_digit_char((c as u32 % 16) as nat),
        ]
    } else {
        seq![c]
    }
}

/// The body of a JSON string literal for the text `s`.
pub open spec fn escape_text(s: Seq<char>) -> Seq<char>
    decreases s.len(),
{
    if s.len() == 0 {
        Seq::<char>::empty()
    } else {
        escape_text(s.drop_last()) + escape_char(s.last())
    }
}

/// The JSON string literal for the text `s`, quotes included.
pub open spec fn json_string_text(s: Seq<char>) -> Seq<char> {
    seq!['"'] + escape_text(s) + seq!['"']
}

/// Appends the JSON string literal for `s`, quotes included, to
/// `out`.
pub fn push_json_string(out: &mut String, s: &str)
    ensures
        final(out)@ == old(out)@ + json_string_text(s@),
{
    out.push('"');
    let n: usize = s.unicode_len();
    let mut i: usize = 0;
    while i < n
        invariant
            n == s@.len(),
            i <= n,
            out@ == old(out)@ + seq!['"'] + escape_text(s@.take(i as int)),
        decreases n - i,
    {
        let c: char = s.get_char(i);
        let ghost done: Seq<char> = s@.take(i as int);
        let ghost next: Seq<char> = s@.take(i as int + 1);
        proof {
            assert(next.drop_last() =~= done);
            assert(next.last() == s@[i as int]);
        }
        let u: u32 = c as u32;
        if c == '"' {
            out.push('\\');
            out.push('"');
        } else if c == '\\' {
            out.push('\\');
            out.push('\\');
        } else if c == '\n' {
            out.push('\\');
            out.push('n');
        } else if c == '\r' {
            out.push('\\');
            out.push('r');
        } else if c == '\t' {
            out.push('\\');
            out.push('t');
        } else if u < 32 {
            out.push('\\');
            out.push('u');
            out.push('0');
            out.push('0');
            out.push(crate::util::hex_digit_glyph(u / 16));
            out.push(crate::util::hex_digit_glyph(u % 16));
        } else {
            out.push(c);
        }
        proof {
            assert(out@ =~= old(out)@ + seq!['"'] + escape_text(next));
        }
        i += 1;
    }
    proof {
        assert(s@.take(n as int) =~= s@);
    }
    out.push('"');
    proof {
        assert(out@ =~= old(out)@ + json_string_text(s@));
    }
}

/// True when `c` is a decimal digit.
pub open spec fn is_dec_digit(c: char) -> bool {
    48 <= c as u32 && c as u32 <= 57
}

/// True when every character of `s` is a decimal digit.
pub open spec fn all_dec_digits(s: Seq<char>) -> bool {
    forall|i: int| 0 <= i < s.len() ==> is_dec_digit(#[trigger] s[i])
}

/// The number a sequence of decimal digits denotes, most significant
/// digit first.
pub open spec fn dec_val(s: Seq<char>) -> nat
    decreases s.len(),
{
    if s.len() == 0 {
        0
    } else {
        10 * dec_val(s.drop_last()) + (s.last() as u32 - 48) as nat
    }
}

/// The integer a decimal number text denotes: an optional leading
/// minus sign, then at least one digit.  Any other text denotes
/// nothing.
pub open spec fn spec_dec_int(s: Seq<char>) -> Option<int> {
    if s.len() >= 1 && s[0] == '-' {
        let d = s.skip(1);
        if d.len() > 0 && all_dec_digits(d) {
            Some(-(dec_val(d) as int))
        } else {
            None
        }
    } else {
        if s.len() > 0 && all_dec_digits(s) {
            Some(dec_val(s) as int)
        } else {
            None
        }
    }
}

/// A prefix of a digit run never denotes more than the whole run.
proof fn lemma_dec_val_prefix(s: Seq<char>, i: int)
    requires
        0 <= i <= s.len(),
    ensures
        dec_val(s.take(i)) <= dec_val(s),
    decreases s.len(),
{
    if i < s.len() {
        assert(s.take(i) =~= s.drop_last().take(i));
        lemma_dec_val_prefix(s.drop_last(), i);
    } else {
        assert(s.take(i) =~= s);
    }
}

/// Reads the digit run `s[start ..]` as a number, when it is
/// non-empty, all digits, and its value is at most `0x8000_0000`.
fn dec_magnitude(s: &str, start: usize) -> (r: Option<u32>)
    requires
        start <= s@.len(),
    ensures
        ({
            let d = s@.skip(start as int);
            match r {
                Some(v) => d.len() > 0 && all_dec_digits(d) && v == dec_val(d) && v
                    <= 0x8000_0000,
                None => !(d.len() > 0 && all_dec_digits(d) && dec_val(d) <= 0x8000_0000),
            }
        }),
{
    let ghost d: Seq<char> = s@.skip(start as int);
    let n: usize = s.unicode_len();
    if start >= n {
        return None;
    }
    let mut val: u32 = 0;
    let mut i: usize = start;
    while i < n
        invariant
            start <= i <= n,
            n == s@.len(),
            start < n,
            d == s@.skip(start as int),
            all_dec_digits(s@.subrange(start as int, i as int)),
            val == dec_val(s@.subrange(start as int, i as int)),
            val <= 0x8000_0000,
        decreases n - i,
    {
        let c: char = s.get_char(i);
        let u: u32 = c as u32;
        let ghost done: Seq<char> = s@.subrange(start as int, i as int);
        let ghost next: Seq<char> = s@.subrange(start as int, i as int + 1);
        proof {
            assert(next.drop_last() =~= done);
            assert(next.last() == s@[i as int]);
            assert(next =~= d.take(i + 1 - start));
        }
        if !(48 <= u && u <= 57) {
            proof {
                assert(!is_dec_digit(d[i - start]));
            }
            return None;
        }
        let wide: u64 = (val as u64) * 10 + ((u - 48) as u64);
        if wide > 0x8000_0000u64 {
            proof {
                assert(dec_val(next) == wide);
                lemma_dec_val_prefix(d, i + 1 - start);
            }
            return None;
        }
        val = wide as u32;
        i += 1;
    }
    proof {
        assert(s@.subrange(start as int, n as int) =~= d);
    }
    Some(val)
}

/// What parsing a 16-bit unsigned number from its wire text yields.
pub open spec fn spec_parse_u16(s: Seq<char>) -> Option<u16> {
    match spec_dec_int(s) {
        Some(v) => if 0 <= v <= 0xffff {
            Some(v as u16)
        } else {
            None
        },
        None => None,
    }
}

/// Reads a 16-bit unsigned number from its wire text.
pub fn parse_u16_text(s: &str) -> (r: Option<u16>)
    ensures
        r == spec_parse_u16(s@),
{
    let n: usize = s.unicode_len();
    if n >= 1 && s.get_char(0) == '-' {
        // only "-0" both carries a sign and stays in range
        return match dec_magnitude(s, 1) {
            Some(0) => Some(0),
            _ => None,
        };
    }
    match dec_magnitude(s, 0) {
        Some(v) => {
            proof {
                assert(s@.skip(0) =~= s@);
            }
            if v <= 0xffff {
                Some(v as u16)
            } else {
                None
            }
        },
        None => {
            proof {
                assert(s@.skip(0) =~= s@);
            }
            None
        },
    }
}

/// What parsing an 8-bit unsigned number from its wire text yields.
pub open spec fn spec_parse_u8(s: Seq<char>) -> Option<u8> {
    match spec_dec_int(s) {
        Some(v) => if 0 <= v <= 0xff {
            Some(v as u8)
        } else {
            None
        },
        None => None,
    }
}

/// Reads an 8-bit unsigned number from its wire text.
pub fn parse_u8_text(s: &str) -> (r: Option<u8>)
    ensures
        r == spec_parse_u8(s@),
{
    let n: usize = s.unicode_len();
    if n >= 1 && s.get_char(0) == '-' {
        // only "-0" both carries a sign and stays in range
        return match dec_magnitude(s, 1) {
            Some(0) => Some(0),
            _ => None,
        };
    }
    match dec_magnitude(s, 0) {
        Some(v) => {
            proof {
                assert(s@.skip(0) =~= s@);
            }
            if v <= 0xff {
                Some(v as u8)
            } else {
                None
            }
        },
        None => {
            proof {
                assert(s@.skip(0) =~= s@);
            }
            None
        },
    }
}

/// What parsing a signed 32-bit number from its wire text yields.
pub open spec fn spec_parse_i32(s: Seq<char>) -> Option<i32> {
    match spec_dec_int(s) {
        Some(v) => if -0x8000_0000 <= v <= 0x7fff_ffff {
            Some(v as i32)
        } else {
            None
        },
        None => None,
    }
}

/// Reads a signed 32-bit number from its wire text.
pub fn parse_i32_text(s: &str) -> (r: Option<i32>)
    ensures
        r == spec_parse_i32(s@),
{
    let n: usize = s.unicode_len();
    if n >= 1 && s.get_char(0) == '-' {
        match dec_magnitude(s, 1) {
            Some(v) => {
                // -v is representable for every magnitude up to 2^31
                Some((-(v as i64)) as i32)
            },
            None => None,
        }
    } else {
        match dec_magnitude(s, 0) {
            Some(v) => {
                proof {
                    assert(s@.skip(0) =~= s@);
                }
                if v <= 0x7fff_ffff {
                    Some(v as i32)
                } else {
                    None
                }
            },
            None => {
                proof {
                    assert(s@.skip(0) =~= s@);
                }
                None
            },
        }
    }
}

} // verus!
