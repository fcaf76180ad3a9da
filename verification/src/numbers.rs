//! Decimal integers as text: the parsing of `str::parse` for integer types and
//! the formatting of `u64`'s `Display`.
use vstd::prelude::*;
use crate::text::{chars_of, string_of};

verus! {

pub open spec fn is_digit(c: char) -> bool {
    '0' <= c <= '9'
}

pub open spec fn digit_value(c: char) -> nat {
    (c as u32 - '0' as u32) as nat
}

pub open spec fn all_digits(s: Seq<char>) -> bool {
    forall|k: int| 0 <= k < s.len() ==> is_digit(#[trigger] s[k])
}

/// The number the decimal digits `s` write.
pub open spec fn digits_value(s: Seq<char>) -> nat
    decreases s.len(),
{
    if s.len() == 0 {
        0
    } else {
        10 * digits_value(s.drop_last()) + digit_value(s.last())
    }
}

/// The number `s` writes, in the syntax `str::parse` accepts for integers:
/// an optional `'+'` (or, for signed types, `'-'`) and at least one ASCII
/// digit. Range is not considered here.
pub open spec fn written_integer(s: Seq<char>, signed: bool) -> Option<int> {
    if s.len() == 0 {
        None
    } else {
        let negative = signed && s[0] == '-';
        let body = if s[0] == '+' || negative {
            s.drop_first()
        } else {
            s
        };
        if body.len() == 0 || !all_digits(body) {
            None
        } else if negative {
            Some(-(digits_value(body) as int))
        } else {
            Some(digits_value(body) as int)
        }
    }
}

/// What `str::parse` gives for an integer type with range `lo..=hi`.
pub open spec fn parsed_integer(s: Seq<char>, signed: bool, lo: int, hi: int) -> Option<int> {
    match written_integer(s, signed) {
        Some(v) => if lo <= v <= hi {
            Some(v)
        } else {
            None
        },
        None => None,
    }
}

pub proof fn lemma_digits_prefix_grows(s: Seq<char>, i: int)
    requires
        0 <= i <= s.len(),
    ensures
        digits_value(s.take(i)) <= digits_value(s),
    decreases s.len() - i,
{
    if i < s.len() {
        lemma_digits_prefix_grows(s, i + 1);
        assert(s.take(i + 1).drop_last() =~= s.take(i));
        assert(digits_value(s.take(i + 1)) == 10 * digits_value(s.take(i)) + digit_value(
            s.take(i + 1).last(),
        ));
    } else {
        assert(s.take(i) =~= s);
    }
}

/// The value of the digits `s`, when all are digits and the value is at most
/// `limit`.
fn bounded_digits(s: &Vec<char>, from: usize, limit: u64) -> (r: Option<u64>)
    requires
        from <= s@.len(),
    ensures
        match r {
            Some(v) => all_digits(s@.skip(from as int)) && v == digits_value(s@.skip(from as int))
                && v <= limit,
            None => !all_digits(s@.skip(from as int)) || digits_value(s@.skip(from as int))
                > limit,
        },
{
    let ghost body = s@.skip(from as int);
    let mut v: u64 = 0;
    let mut i = from;
    while i < s.len()
        invariant
            from <= i <= s@.len(),
            body == s@.skip(from as int),
            all_digits(body.take(i - from)),
            v == digits_value(body.take(i - from)),
            v <= limit,
        decreases s@.len() - i,
    {
        let c = s[i];
        let ghost k = i - from;
        assert(body[k] == c);
        if !('0' <= c && c <= '9') {
            return None;
        }
        let d = (c as u32 - '0' as u32) as u128;
        let next: u128 = (v as u128) * 10 + d;
        assert(body.take(k + 1).drop_last() =~= body.take(k));
        assert(body.take(k + 1).last() == c);
        if next > limit as u128 {
            proof {
                if all_digits(body) {
                    lemma_digits_prefix_grows(body, k + 1);
                }
            }
            return None;
        }
        v = next as u64;
        i = i + 1;
        assert forall|j: int| 0 <= j < i - from implies is_digit(#[trigger] body.take(i - from)[j]) by {
            if j < k {
                assert(body.take(i - from)[j] == body.take(k)[j]);
            }
        }
    }
    assert(body.take(i - from) =~= body);
    Some(v)
}

/// `s.parse::<u64>().ok()`.
pub fn parse_u64(s: &str) -> (r: Option<u64>)
    ensures
        match r {
            Some(v) => parsed_integer(s@, false, 0, u64::MAX as int) == Some(v as int),
            None => parsed_integer(s@, false, 0, u64::MAX as int) is None,
        },
{
    let v = chars_of(s);
    if v.len() == 0 {
        return None;
    }
    let from: usize = if v[0] == '+' {
        1
    } else {
        0
    };
    assert(from == 1 ==> v@.drop_first() =~= v@.skip(1));
    assert(v@.skip(0) =~= v@);
    if from == v.len() {
        return None;
    }
    bounded_digits(&v, from, u64::MAX)
}

/// The magnitude bound, then the value, of a signed number in `lo..=hi`.
fn parse_signed(s: &str, hi: u64) -> (r: Option<(bool, u64)>)
    requires
        hi < u64::MAX,
    ensures
        match r {
            Some((negative, m)) => {
                &&& written_integer(s@, true) == Some(if negative {
                    -(m as int)
                } else {
                    m as int
                })
                &&& if negative {
                    m <= hi + 1
                } else {
                    m <= hi
                }
            },
            None => parsed_integer(s@, true, -(hi + 1), hi as int) is None,
        },
{
    let v = chars_of(s);
    if v.len() == 0 {
        return None;
    }
    let negative = v[0] == '-';
    let from: usize = if v[0] == '+' || negative {
        1
    } else {
        0
    };
    assert(from == 1 ==> v@.drop_first() =~= v@.skip(1));
    assert(v@.skip(0) =~= v@);
    if from == v.len() {
        return None;
    }
    let limit: u64 = if negative {
        hi + 1
    } else {
        hi
    };
    match bounded_digits(&v, from, limit) {
        Some(m) => Some((negative, m)),
        None => None,
    }
}

/// `s.parse::<i64>().ok()`.
pub fn parse_i64(s: &str) -> (r: Option<i64>)
    ensures
        match r {
            Some(v) => parsed_integer(s@, true, i64::MIN as int, i64::MAX as int) == Some(v as int),
            None => parsed_integer(s@, true, i64::MIN as int, i64::MAX as int) is None,
        },
{
    match parse_signed(s, 0x7fff_ffff_ffff_ffff) {
        Some((negative, m)) => {
            if negative {
                if m == 0x8000_0000_0000_0000 {
                    Some(i64::MIN)
                } else {
                    Some(-(m as i64))
                }
            } else {
                Some(m as i64)
            }
        },
        None => None,
    }
}

/// `s.parse::<i32>().ok()`.
pub fn parse_i32(s: &str) -> (r: Option<i32>)
    ensures
        match r {
            Some(v) => parsed_integer(s@, true, i32::MIN as int, i32::MAX as int) == Some(v as int),
            None => parsed_integer(s@, true, i32::MIN as int, i32::MAX as int) is None,
        },
{
    match parse_signed(s, 0x7fff_ffff) {
        Some((negative, m)) => {
            if negative {
                Some(-(m as i64) as i32)
            } else {
                Some(m as i32)
            }
        },
        None => None,
    }
}

pub open spec fn digit_char(d: nat) -> char {
    (d + '0' as u32) as char
}

/// The decimal writing of `n` (`Display` for unsigned integers).
pub open spec fn decimal(n: nat) -> Seq<char>
    decreases n,
{
    if n < 10 {
        seq![digit_char(n)]
    } else {
        decimal(n / 10) + seq![digit_char(n % 10)]
    }
}

fn decimal_chars(n: u64) -> (r: Vec<char>)
    ensures
        r@ == decimal(n as nat),
    decreases n,
{
    let d = ((n % 10) as u32 + '0' as u32) as u8 as char;
    assert(d == digit_char((n % 10) as nat)) by {
        assert((n % 10) < 10);
    }
    if n < 10 {
        let mut v: Vec<char> = Vec::new();
        v.push(d);
        assert(v@ =~= decimal(n as nat));
        v
    } else {
        let mut v = decimal_chars(n / 10);
        v.push(d);
        assert(v@ =~= decimal(n as nat));
        v
    }
}

/// `n.to_string()` for a `u64`.
pub fn decimal_u64(n: u64) -> (r: String)
    ensures
        r@ == decimal(n as nat),
{
    let v = decimal_chars(n);
    string_of(v.as_slice())
}

/// The decimal writing of `n` is all digits and has value `n`.
pub proof fn lemma_decimal_value(n: nat)
    ensures
        all_digits(decimal(n)),
        decimal(n).len() > 0,
        digits_value(decimal(n)) == n,
    decreases n,
{
    let s = decimal(n);
    if n >= 10 {
        lemma_decimal_value(n / 10);
        assert(s.drop_last() =~= decimal(n / 10));
        let d = (n % 10) as nat;
        assert(digit_value(digit_char(d)) == d) by {
            assert(d < 10);
        }
        assert(s.last() == digit_char(d));
        assert(n == 10 * (n / 10) + n % 10) by (nonlinear_arith);
        assert(digits_value(s) == 10 * digits_value(s.drop_last()) + digit_value(s.last()));
        assert(digits_value(s.drop_last()) == n / 10);
        assert(digits_value(s) == n);
        assert forall|k: int| 0 <= k < s.len() implies is_digit(#[trigger] s[k]) by {
            if k < s.len() - 1 {
                assert(s[k] == decimal(n / 10)[k]);
            }
        }
    } else {
        assert(digit_value(digit_char(n)) == n);
        assert(s.drop_last() =~= Seq::<char>::empty());
        assert(digits_value(s.drop_last()) == 0);
        assert(digits_value(s) == 10 * digits_value(s.drop_last()) + digit_value(s.last()));
        assert(digits_value(s) == n);
    }
}

/// Law: parsing the decimal writing of a `u64` gives it back.
pub proof fn lemma_parse_decimal(n: u64)
    ensures
        parsed_integer(decimal(n as nat), false, 0, u64::MAX as int) == Some(n as int),
{
    lemma_decimal_value(n as nat);
    let s = decimal(n as nat);
    assert(is_digit(s[0]));
    assert(s[0] != '+');
}

} // verus!
