//! Decimal numerals: what a word means as a number, and how it is read.

use crate::text::chars_of;
use vstd::prelude::*;

verus! {

/// Whether `c` is one of the ten decimal digits `0` to `9`.
pub open spec fn is_digit(c: char) -> bool {
    0x30 <= c as u32 <= 0x39
}

/// The value of a decimal digit; 0 for any other character.
pub open spec fn digit_value(c: char) -> nat {
    if is_digit(c) {
        (c as u32 - 0x30) as nat
    } else {
        0
    }
}

/// Whether every character of `s` is a decimal digit.
pub open spec fn all_digits(s: Seq<char>) -> bool {
    forall|i: int| 0 <= i < s.len() ==> is_digit(#[trigger] s[i])
}

/// The number that the digits of `s` write in base ten, the last digit counting least.
pub open spec fn decimal(s: Seq<char>) -> nat
    decreases s.len(),
{
    if s.len() == 0 {
        0
    } else {
        10 * decimal(s.drop_last()) + digit_value(s.last())
    }
}

/// The number that `s` writes where it is a non-empty run of digits.
pub open spec fn digits_number(s: Seq<char>) -> Option<nat> {
    if s.len() > 0 && all_digits(s) {
        Some(decimal(s))
    } else {
        None
    }
}

/// The number that `s` writes as an unsigned numeral: digits, with `+` allowed in front.
pub open spec fn unsigned_number(s: Seq<char>) -> Option<nat> {
    if s.len() > 0 && s[0] == '+' {
        digits_number(s.skip(1))
    } else {
        digits_number(s)
    }
}

/// The number that `s` writes as a signed numeral: digits, with `+` or `-` allowed in front.
pub open spec fn signed_number(s: Seq<char>) -> Option<int> {
    if s.len() > 0 && s[0] == '-' {
        match digits_number(s.skip(1)) {
            Some(n) => Some(-(n as int)),
            None => None,
        }
    } else {
        match unsigned_number(s) {
            Some(n) => Some(n as int),
            None => None,
        }
    }
}

/// The signed 32-bit integer that `s` writes, if it writes one.
pub open spec fn i32_of(s: Seq<char>) -> Option<i32> {
    match signed_number(s) {
        Some(v) => if i32::MIN <= v <= i32::MAX {
            Some(v as i32)
        } else {
            None
        },
        None => None,
    }
}

/// The unsigned 32-bit integer that `s` writes, if it writes one.
pub open spec fn u32_of(s: Seq<char>) -> Option<u32> {
    match unsigned_number(s) {
        Some(v) => if v <= u32::MAX {
            Some(v as u32)
        } else {
            None
        },
        None => None,
    }
}

/// The size that `s` writes, if it writes one that the machine can hold.
pub open spec fn usize_of(s: Seq<char>) -> Option<usize> {
    match unsigned_number(s) {
        Some(v) => if v <= usize::MAX {
            Some(v as usize)
        } else {
            None
        },
        None => None,
    }
}

/// A numeral is worth at least as much as any of its prefixes.
pub proof fn lemma_decimal_prefix(s: Seq<char>, k: int)
    requires
        0 <= k <= s.len(),
    ensures
        decimal(s.take(k)) <= decimal(s),
    decreases s.len(),
{
    if k == s.len() {
        assert(s.take(k) =~= s);
    } else {
        lemma_decimal_prefix(s.drop_last(), k);
        assert(s.drop_last().take(k) =~= s.take(k));
    }
}

/// Reads the digits of `cs` from `start` to the end as a number of at most `limit`.
fn read_digits(cs: &Vec<char>, start: usize, limit: u64) -> (r: Option<u64>)
    requires
        start <= cs.len(),
    ensures
        r == match digits_number(cs@.skip(start as int)) {
            Some(n) => if n <= limit {
                Some(n as u64)
            } else {
                None
            },
            None => None,
        },
{
    let n = cs.len();
    let ghost body = cs@.skip(start as int);
    let mut acc: u64 = 0;
    let mut i: usize = start;
    while i < n
        invariant
            n == cs.len(),
            start <= i <= n,
            body == cs@.skip(start as int),
            all_digits(body.take(i - start)),
            acc == decimal(body.take(i - start)),
            acc <= limit,
        decreases n - i,
    {
        let c: u32 = cs[i] as u32;
        assert(body[i - start] == cs@[i as int]);
        if c < 0x30 || c > 0x39 {
            return None;
        }
        let next: u128 = (acc as u128) * 10 + ((c - 0x30) as u128);
        proof {
            let t = body.take(i - start + 1);
            assert(t.drop_last() =~= body.take(i - start));
            assert(t.last() == cs@[i as int]);
            assert(next == decimal(t));
            lemma_decimal_prefix(body, i - start + 1);
        }
        if next > limit as u128 {
            return None;
        }
        acc = next as u64;
        i += 1;
    }
    proof {
        assert(body.take(i - start) =~= body);
    }
    if i == start {
        None
    } else {
        Some(acc)
    }
}

/// Reads a word as a signed 32-bit integer.
pub fn parse_i32(text: &str) -> (r: Option<i32>)
    ensures
        r == i32_of(text@),
{
    let cs = chars_of(text);
    if cs.len() > 0 && cs[0] == '-' {
        match read_digits(&cs, 1, 2147483648) {
            Some(n) => Some((-(n as i64)) as i32),
            None => None,
        }
    } else {
        let start: usize = if cs.len() > 0 && cs[0] == '+' {
            1
        } else {
            0
        };
        proof {
            assert(cs@.skip(0) =~= cs@);
        }
        match read_digits(&cs, start, 2147483647) {
            Some(n) => Some(n as i32),
            None => None,
        }
    }
}

/// Reads a word as an unsigned 32-bit integer.
pub fn parse_u32(text: &str) -> (r: Option<u32>)
    ensures
        r == u32_of(text@),
{
    let cs = chars_of(text);
    let start: usize = if cs.len() > 0 && cs[0] == '+' {
        1
    } else {
        0
    };
    proof {
        assert(cs@.skip(0) =~= cs@);
    }
    match read_digits(&cs, start, 4294967295) {
        Some(n) => Some(n as u32),
        None => None,
    }
}

/// Reads a word as a size: an index or a count that the machine can hold.
pub fn parse_usize(text: &str) -> (r: Option<usize>)
    ensures
        r == usize_of(text@),
{
    let cs = chars_of(text);
    let start: usize = if cs.len() > 0 && cs[0] == '+' {
        1
    } else {
        0
    };
    proof {
        assert(cs@.skip(0) =~= cs@);
    }
    match read_digits(&cs, start, usize::MAX as u64) {
        Some(n) => Some(n as usize),
        None => None,
    }
}

} // verus!
