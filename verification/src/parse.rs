//! Decimal and hexadecimal integer parsing with the acceptance rules of
//! `str::parse::<u64>` and `u16::from_str_radix(_, 16)`.

use vstd::prelude::*;
use crate::text::{chars_of, split_whitespace, trim_chars, views, words};

verus! {

pub open spec fn is_digit(c: char) -> bool {
    '0' <= c && c <= '9'
}

pub open spec fn digit_value(c: char) -> nat {
    (c as u32 - '0' as u32) as nat
}

pub open spec fn all_digits(s: Seq<char>) -> bool {
    forall|i: int| 0 <= i < s.len() ==> is_digit(s[i])
}

pub open spec fn digits_value(s: Seq<char>) -> nat
    decreases s.len(),
{
    if s.len() == 0 {
        0
    } else {
        digits_value(s.drop_last()) * 10 + digit_value(s.last())
    }
}

/// The digits that `str::parse::<u64>` reads: an optional leading `+`.
pub open spec fn unsigned_body(s: Seq<char>) -> Seq<char> {
    if s.len() > 0 && s[0] == '+' {
        s.drop_first()
    } else {
        s
    }
}

/// `str::parse::<u64>`: `Some(n)` exactly for an optional `+` followed by
/// one or more ASCII digits whose value fits in 64 bits.
pub open spec fn parse_u64_spec(s: Seq<char>) -> Option<u64> {
    let b = unsigned_body(s);
    if b.len() > 0 && all_digits(b) && digits_value(b) <= u64::MAX {
        Some(digits_value(b) as u64)
    } else {
        None
    }
}

proof fn lemma_digits_value_prefix_monotone(s: Seq<char>, i: int)
    requires
        0 <= i <= s.len(),
        all_digits(s),
    ensures
        digits_value(s.subrange(0, i)) <= digits_value(s),
    decreases s.len() - i,
{
    if i < s.len() {
        lemma_digits_value_prefix_monotone(s, i + 1);
        let t = s.subrange(0, i + 1);
        assert(t.drop_last() =~= s.subrange(0, i));
        assert(digits_value(t) == digits_value(s.subrange(0, i)) * 10 + digit_value(t.last()));
    } else {
        assert(s.subrange(0, i) =~= s);
    }
}

pub fn parse_u64_chars(s: &[char], from: usize, to: usize) -> (r: Option<u64>)
    requires
        from <= to <= s@.len(),
    ensures
        r == parse_u64_spec(s@.subrange(from as int, to as int)),
{
    let ghost full = s@.subrange(from as int, to as int);
    let mut start = from;
    if start < to && s[start] == '+' {
        start = start + 1;
    }
    let ghost body = s@.subrange(start as int, to as int);
    assert(body =~= unsigned_body(full));
    if start == to {
        return None;
    }
    let mut acc: u64 = 0;
    let mut i = start;
    while i < to
        invariant
            start <= i <= to <= s@.len(),
            body == s@.subrange(start as int, to as int),
            body == unsigned_body(full),
            full == s@.subrange(from as int, to as int),
            all_digits(s@.subrange(start as int, i as int)),
            acc as nat == digits_value(s@.subrange(start as int, i as int)),
        decreases to - i,
    {
        let c = s[i];
        let ghost pre = s@.subrange(start as int, i as int);
        let ghost next = s@.subrange(start as int, i + 1);
        assert(next.drop_last() =~= pre);
        assert(next.last() == c);
        if !('0' <= c && c <= '9') {
            assert(body[i - start] == c);
            return None;
        }
        let d = (c as u32 - '0' as u32) as u64;
        if acc > (u64::MAX - d) / 10 {
            proof {
                assert(acc * 10 + d > u64::MAX) by (nonlinear_arith)
                    requires
                        acc > (u64::MAX - d) / 10,
                        d <= 9,
                ;
                assert(all_digits(next));
                if all_digits(body) {
                    assert(next =~= body.subrange(0, i + 1 - start));
                    lemma_digits_value_prefix_monotone(body, i + 1 - start);
                }
            }
            return None;
        }
        proof {
            assert(acc * 10 + d <= u64::MAX) by (nonlinear_arith)
                requires
                    acc <= (u64::MAX - d) / 10,
                    d <= 9,
            ;
        }
        acc = acc * 10 + d;
        i = i + 1;
    }
    Some(acc)
}

/// `s.trim().parse::<u64>().ok()`.
pub fn parse_trimmed_u64(s: &str) -> (r: Option<u64>)
    ensures
        r == parse_u64_spec(crate::text::trim(s@)),
{
    let v = chars_of(s);
    let (lo, hi) = trim_chars(v.as_slice());
    parse_u64_chars(v.as_slice(), lo, hi)
}

/// `s.parse::<u64>().ok()`.
pub fn parse_u64_str(s: &str) -> (r: Option<u64>)
    ensures
        r == parse_u64_spec(s@),
{
    let v = chars_of(s);
    let r = parse_u64_chars(v.as_slice(), 0, v.len());
    assert(v@.subrange(0, v@.len() as int) =~= s@);
    r
}

pub open spec fn is_hex_digit(c: char) -> bool {
    ('0' <= c && c <= '9') || ('a' <= c && c <= 'f') || ('A' <= c && c <= 'F')
}

pub open spec fn hex_value(c: char) -> nat {
    if '0' <= c && c <= '9' {
        (c as u32 - '0' as u32) as nat
    } else if 'a' <= c && c <= 'f' {
        (c as u32 - 'a' as u32 + 10) as nat
    } else {
        (c as u32 - 'A' as u32 + 10) as nat
    }
}

pub open spec fn hex_digits_value(s: Seq<char>) -> nat
    decreases s.len(),
{
    if s.len() == 0 {
        0
    } else {
        hex_digits_value(s.drop_last()) * 16 + hex_value(s.last())
    }
}

/// `u16::from_str_radix(s, 16).ok()`: an optional `+`, then one or more hex
/// digits whose value fits in 16 bits.
pub open spec fn parse_hex_u16_spec(s: Seq<char>) -> Option<u16> {
    let b = unsigned_body(s);
    if b.len() > 0 && (forall|i: int| 0 <= i < b.len() ==> is_hex_digit(b[i]))
        && hex_digits_value(b) <= u16::MAX {
        Some(hex_digits_value(b) as u16)
    } else {
        None
    }
}

proof fn lemma_hex_prefix_monotone(s: Seq<char>, i: int)
    requires
        0 <= i <= s.len(),
        forall|k: int| 0 <= k < s.len() ==> is_hex_digit(s[k]),
    ensures
        hex_digits_value(s.subrange(0, i)) <= hex_digits_value(s),
    decreases s.len() - i,
{
    if i < s.len() {
        lemma_hex_prefix_monotone(s, i + 1);
        let t = s.subrange(0, i + 1);
        assert(t.drop_last() =~= s.subrange(0, i));
    } else {
        assert(s.subrange(0, i) =~= s);
    }
}

pub fn parse_hex_u16(s: &str) -> (r: Option<u16>)
    ensures
        r == parse_hex_u16_spec(s@),
{
    let v = chars_of(s);
    let mut start: usize = 0;
    if v.len() > 0 && v[0] == '+' {
        start = 1;
    }
    let ghost body = v@.subrange(start as int, v@.len() as int);
    assert(body =~= unsigned_body(s@));
    if start == v.len() {
        return None;
    }
    let mut acc: u32 = 0;
    let mut i = start;
    while i < v.len()
        invariant
            v@ == s@,
            start <= i <= v@.len(),
            body == v@.subrange(start as int, v@.len() as int),
            body == unsigned_body(s@),
            forall|k: int| start <= k < i ==> is_hex_digit(v@[k]),
            acc as nat == hex_digits_value(v@.subrange(start as int, i as int)),
            acc <= u16::MAX,
        decreases v.len() - i,
    {
        let c = v[i];
        let ghost pre = v@.subrange(start as int, i as int);
        let ghost next = v@.subrange(start as int, i + 1);
        assert(next.drop_last() =~= pre);
        assert(next.last() == c);
        let d: u32 = if '0' <= c && c <= '9' {
            c as u32 - '0' as u32
        } else if 'a' <= c && c <= 'f' {
            c as u32 - 'a' as u32 + 10
        } else if 'A' <= c && c <= 'F' {
            c as u32 - 'A' as u32 + 10
        } else {
            assert(body[i - start] == c);
            return None;
        };
        let next_acc = acc * 16 + d;
        if next_acc > 0xffff {
            proof {
                if forall|k: int| 0 <= k < body.len() ==> is_hex_digit(body[k]) {
                    assert(next =~= body.subrange(0, i + 1 - start));
                    lemma_hex_prefix_monotone(body, i + 1 - start);
                }
            }
            return None;
        }
        acc = next_acc;
        i = i + 1;
    }
    assert(v@.subrange(start as int, i as int) =~= body);
    Some(acc as u16)
}

/// The whitespace-separated words of `s`, owned.
pub fn words_of(s: &str) -> (r: Vec<String>)
    ensures
        views(r@) == words(s@),
{
    split_whitespace(s)
}

} // verus!
