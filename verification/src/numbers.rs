//! Verified decimal parsing and formatting: track positions parsed from
//! catalog position strings, and years and day/month pairs written into date
//! fields.

use vstd::prelude::*;
use crate::text::{chars_of, string_from_chars};

verus! {

pub open spec fn is_digit_char(c: char) -> bool {
    48 <= c as u32 <= 57
}

/// The value of a string of decimal digits.
pub open spec fn digits_val(s: Seq<char>) -> int
    decreases s.len(),
{
    if s.len() == 0 {
        0
    } else {
        digits_val(s.drop_last()) * 10 + (s.last() as u32 - 48)
    }
}

pub open spec fn all_digits(s: Seq<char>) -> bool {
    forall|i: int| 0 <= i < s.len() ==> is_digit_char(#[trigger] s[i])
}

/// The digits of an integer literal, after an optional leading sign.
pub open spec fn int_body(s: Seq<char>) -> Seq<char> {
    if s.len() > 0 && (s[0] == '+' || s[0] == '-') {
        s.drop_first()
    } else {
        s
    }
}

/// A decimal integer literal as i32's `FromStr` accepts it: an optional
/// sign, then one or more digits.
pub open spec fn is_int_literal(s: Seq<char>) -> bool {
    int_body(s).len() > 0 && all_digits(int_body(s))
}

pub open spec fn int_value(s: Seq<char>) -> int {
    if s.len() > 0 && s[0] == '-' {
        -digits_val(int_body(s))
    } else {
        digits_val(int_body(s))
    }
}

/// What parsing a string as an i32 yields: the literal's value when it is
/// one and fits, `None` otherwise.
pub open spec fn parse_i32_spec(s: Seq<char>) -> Option<i32> {
    if is_int_literal(s) && i32::MIN <= int_value(s) <= i32::MAX {
        Some(int_value(s) as i32)
    } else {
        None
    }
}

pub proof fn lemma_digits_val_nonneg(s: Seq<char>)
    requires
        all_digits(s),
    ensures
        digits_val(s) >= 0,
    decreases s.len(),
{
    if s.len() > 0 {
        assert(all_digits(s.drop_last()));
        lemma_digits_val_nonneg(s.drop_last());
    }
}

/// A digit string is worth at least any of its prefixes.
proof fn lemma_digits_prefix_le(s: Seq<char>, k: int)
    requires
        all_digits(s),
        0 <= k <= s.len(),
    ensures
        digits_val(s.take(k)) <= digits_val(s),
    decreases s.len() - k,
{
    assert(all_digits(s.take(k)));
    if k == s.len() {
        assert(s.take(k) =~= s);
    } else {
        lemma_digits_prefix_le(s, k + 1);
        assert(s.take(k + 1).drop_last() =~= s.take(k));
        lemma_digits_val_nonneg(s.take(k));
        assert(digits_val(s.take(k + 1)) == digits_val(s.take(k)) * 10 + (s.take(k + 1).last()
            as u32 - 48));
    }
}

/// Parses a decimal integer exactly as i32's `FromStr` does: optional sign,
/// one or more digits, `None` on anything else or on overflow.
pub fn parse_i32(s: &str) -> (r: Option<i32>)
    ensures
        r == parse_i32_spec(s@),
{
    let v = chars_of(s);
    let neg: bool = v.len() > 0 && v[0] == '-';
    let start: usize = if v.len() > 0 && (v[0] == '+' || v[0] == '-') {
        1
    } else {
        0
    };
    proof {
        assert(int_body(v@) =~= v@.skip(start as int));
    }
    if v.len() == start {
        return None;
    }
    let ghost body = v@.skip(start as int);
    let mut acc: u64 = 0;
    let mut i: usize = start;
    proof {
        assert(body.take(0) =~= Seq::<char>::empty());
    }
    while i < v.len()
        invariant
            start <= i <= v@.len(),
            v@ == s@,
            body == v@.skip(start as int),
            body == int_body(v@),
            neg ==> v@.len() > 0 && v@[0] == '-',
            !neg ==> !(v@.len() > 0 && v@[0] == '-'),
            forall|k: int| start <= k < i ==> is_digit_char(#[trigger] v@[k]),
            acc == digits_val(body.take(i - start)),
            acc <= 0x8000_0000,
        decreases v@.len() - i,
    {
        let c = v[i];
        let u = c as u32;
        if !(48 <= u && u <= 57) {
            proof {
                assert(body[i - start] == v@[i as int]);
                assert(!is_int_literal(v@));
            }
            return None;
        }
        let d: u64 = (u - 48) as u64;
        let next: u64 = acc * 10 + d;
        proof {
            assert(body.take(i + 1 - start as int).drop_last() =~= body.take(i - start));
            assert(body.take(i + 1 - start as int).last() == v@[i as int]);
            assert(all_digits(body.take(i + 1 - start as int)));
        }
        if next > 0x8000_0000 {
            proof {
                if is_int_literal(v@) {
                    assert(all_digits(body));
                    lemma_digits_prefix_le(body, i + 1 - start);
                    assert(int_value(v@) > 0x8000_0000 || int_value(v@) < -0x8000_0000);
                }
            }
            return None;
        }
        acc = next;
        i = i + 1;
    }
    proof {
        assert(body.take(v@.len() - start as int) =~= body);
        assert(is_int_literal(v@));
    }
    if neg {
        Some((-(acc as i64)) as i32)
    } else {
        if acc > 0x7fff_ffff {
            proof {
                assert(int_value(v@) > i32::MAX);
            }
            return None;
        }
        Some(acc as i32)
    }
}

/// What parsing a string as an i16 yields.
pub open spec fn parse_i16_spec(s: Seq<char>) -> Option<i16> {
    if is_int_literal(s) && i16::MIN <= int_value(s) <= i16::MAX {
        Some(int_value(s) as i16)
    } else {
        None
    }
}

pub fn parse_i16(s: &str) -> (r: Option<i16>)
    ensures
        r == parse_i16_spec(s@),
{
    match parse_i32(s) {
        Some(v) => if -32768 <= v && v <= 32767 {
            Some(v as i16)
        } else {
            None
        },
        None => None,
    }
}

pub open spec fn digit_char(d: int) -> char {
    ((48 + d) as u8) as char
}

/// The decimal digits of a non-negative integer.
pub open spec fn dec_str(n: int) -> Seq<char>
    decreases n when n >= 0
{
    if n < 10 {
        seq![digit_char(n)]
    } else {
        dec_str(n / 10).push(digit_char(n % 10))
    }
}

/// The decimal form of an integer, with a leading minus sign when negative.
pub open spec fn int_str(n: int) -> Seq<char> {
    if n < 0 {
        seq!['-'] + dec_str(-n)
    } else {
        dec_str(n)
    }
}

fn push_dec(n: u64, out: &mut Vec<char>)
    ensures
        final(out)@ == old(out)@ + dec_str(n as int),
    decreases n,
{
    if n < 10 {
        out.push(((48 + n) as u8) as char);
        proof {
            assert(old(out)@ + dec_str(n as int) =~= final(out)@);
        }
    } else {
        push_dec(n / 10, out);
        out.push(((48 + (n % 10)) as u8) as char);
        proof {
            assert(old(out)@ + dec_str(n as int) =~= final(out)@);
        }
    }
}

/// Writes an integer in decimal.
pub fn i64_to_string(n: i64) -> (r: String)
    ensures
        r@ == int_str(n as int),
{
    let mut out: Vec<char> = Vec::new();
    if n < 0 {
        out.push('-');
        let mag: u64 = (-(n as i128)) as u64;
        push_dec(mag, &mut out);
        proof {
            assert(out@ =~= int_str(n as int));
        }
    } else {
        push_dec(n as u64, &mut out);
    }
    string_from_chars(&out)
}

/// A number padded to two digits, as the legacy day-month field wants it.
pub open spec fn two_digit_str(n: int) -> Seq<char> {
    if n < 10 {
        seq!['0', digit_char(n)]
    } else {
        dec_str(n)
    }
}

pub fn push_two_digit(n: u8, out: &mut Vec<char>)
    ensures
        final(out)@ == old(out)@ + two_digit_str(n as int),
{
    if n < 10 {
        out.push('0');
    }
    push_dec(n as u64, out);
    proof {
        if n < 10 {
            assert(old(out)@ + two_digit_str(n as int) =~= final(out)@);
        }
    }
}

} // verus!
