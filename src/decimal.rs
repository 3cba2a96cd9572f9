//! Decimal integers in ASCII text: reading them from bytes and writing them out.
use vstd::prelude::*;

verus! {

pub open spec fn is_digit(c: u8) -> bool {
    48 <= c <= 57
}

pub open spec fn all_digits(d: Seq<u8>) -> bool {
    forall|i: int| 0 <= i < d.len() ==> is_digit(#[trigger] d[i])
}

/// The value of a run of decimal digits, most significant first.
pub open spec fn digits_value(d: Seq<u8>) -> nat
    decreases d.len(),
{
    if d.len() == 0 {
        0
    } else {
        digits_value(d.drop_last()) * 10 + (d.last() - 48) as nat
    }
}

/// The integer written in `f`: an optional `+` or `-` sign, then one or more
/// digits, nothing else. `None` when `f` is not of that form.
pub open spec fn signed_value(f: Seq<u8>) -> Option<int> {
    let neg = f.len() > 0 && f[0] == 45;
    let signed = f.len() > 0 && (f[0] == 45 || f[0] == 43);
    let d = if signed {
        f.drop_first()
    } else {
        f
    };
    if d.len() == 0 || !all_digits(d) {
        None
    } else if neg {
        Some(-digits_value(d))
    } else {
        Some(digits_value(d) as int)
    }
}

/// `f` read as an `i32`, as Rust's integer parsing reads it: `None` when `f`
/// is not a signed decimal integer or does not fit.
pub open spec fn i32_value(f: Seq<u8>) -> Option<i32> {
    match signed_value(f) {
        Some(v) => if i32::MIN <= v <= i32::MAX {
            Some(v as i32)
        } else {
            None
        },
        None => None,
    }
}

/// `f` read as a `u64`: an optional `+`, then digits; `None` when it does not fit.
pub open spec fn u64_value(f: Seq<u8>) -> Option<u64> {
    match signed_value(f) {
        Some(v) => if 0 <= v <= u64::MAX && !(f.len() > 0 && f[0] == 45) {
            Some(v as u64)
        } else {
            None
        },
        None => None,
    }
}

proof fn lemma_digits_value_grows(d: Seq<u8>, j: int)
    requires
        0 <= j <= d.len(),
        all_digits(d),
    ensures
        digits_value(d.subrange(0, j)) <= digits_value(d),
    decreases d.len() - j,
{
    if j < d.len() {
        lemma_digits_value_grows(d, j + 1);
        assert(d.subrange(0, j + 1).drop_last() =~= d.subrange(0, j));
    } else {
        assert(d.subrange(0, j) =~= d);
    }
}

/// The value of the digits `b[start..end]` when they are all digits, there is
/// at least one, and the value is at most `limit`; `None` otherwise.
fn digits_upto(b: &[u8], start: usize, end: usize, limit: u64) -> (r: Option<u64>)
    requires
        start <= end <= b@.len(),
    ensures
        ({
            let d = b@.subrange(start as int, end as int);
            match r {
                Some(v) => d.len() > 0 && all_digits(d) && v == digits_value(d) && v <= limit,
                None => d.len() == 0 || !all_digits(d) || digits_value(d) > limit,
            }
        }),
{
    let ghost d = b@.subrange(start as int, end as int);
    if start == end {
        return None;
    }
    let mut value: u64 = 0;
    let mut i: usize = start;
    while i < end
        invariant
            start <= i <= end <= b@.len(),
            d == b@.subrange(start as int, end as int),
            all_digits(b@.subrange(start as int, i as int)),
            value == digits_value(b@.subrange(start as int, i as int)),
            value <= limit,
        decreases end - i,
    {
        let c = b[i];
        assert(b@.subrange(start as int, i + 1) =~= d.subrange(0, i + 1 - start));
        assert(b@.subrange(start as int, i + 1).drop_last() =~= b@.subrange(start as int, i as int));
        if c < 48 || c > 57 {
            assert(!is_digit(d[i - start]));
            return None;
        }
        let digit = (c - 48) as u64;
        if digit > limit || value > (limit - digit) / 10 {
            proof {
                assert(value * 10 + digit > limit) by (nonlinear_arith)
                    requires
                        digit > limit || value > (limit - digit) / 10,
                        value >= 0,
                        limit >= 0,
                ;
                if all_digits(d) {
                    lemma_digits_value_grows(d, i + 1 - start);
                }
            }
            return None;
        }
        assert(value * 10 + digit <= limit) by (nonlinear_arith)
            requires
                value <= (limit - digit) / 10,
                digit <= limit,
        ;
        value = value * 10 + digit;
        i = i + 1;
    }
    assert(b@.subrange(start as int, i as int) =~= d);
    Some(value)
}

/// Reads `b[start..end]` as an `i32`, with an optional sign.
pub fn parse_i32(b: &[u8], start: usize, end: usize) -> (r: Option<i32>)
    requires
        start <= end <= b@.len(),
    ensures
        r == i32_value(b@.subrange(start as int, end as int)),
{
    let ghost f = b@.subrange(start as int, end as int);
    let mut from = start;
    let mut neg = false;
    if start < end && (b[start] == 45 || b[start] == 43) {
        neg = b[start] == 45;
        from = start + 1;
        assert(f.drop_first() =~= b@.subrange(from as int, end as int));
    } else {
        assert(f =~= b@.subrange(from as int, end as int));
    }
    let limit: u64 = if neg {
        0x8000_0000
    } else {
        0x7FFF_FFFF
    };
    match digits_upto(b, from, end, limit) {
        Some(v) => {
            if neg {
                Some((0 - v as i64) as i32)
            } else {
                Some(v as i32)
            }
        },
        None => None,
    }
}

/// Reads `b[start..end]` as a `u64`, with an optional `+`.
pub fn parse_u64(b: &[u8], start: usize, end: usize) -> (r: Option<u64>)
    requires
        start <= end <= b@.len(),
    ensures
        r == u64_value(b@.subrange(start as int, end as int)),
{
    let ghost f = b@.subrange(start as int, end as int);
    if start < end && b[start] == 45 {
        return None;
    }
    let mut from = start;
    if start < end && b[start] == 43 {
        from = start + 1;
        assert(f.drop_first() =~= b@.subrange(from as int, end as int));
    } else {
        assert(f =~= b@.subrange(from as int, end as int));
    }
    digits_upto(b, from, end, u64::MAX)
}

} // verus!
