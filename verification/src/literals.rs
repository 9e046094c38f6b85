//! Integer literals as the language writes them: decimal with an optional
//! sign, binary after `0b`, hexadecimal after `0x`.
use vstd::prelude::*;
use vstd::string::StringSliceAdditionalSpecFns;

verus! {

/// Why a literal is not a number of the type.
#[derive(Debug, PartialEq, Eq, Structural, Clone, Copy)]
pub enum LiteralError {
    /// No digits.
    Empty,
    /// A character that is not a digit of the base.
    InvalidDigit,
    /// A number the type cannot hold.
    Overflow,
}

/// The value of an ASCII digit in a base up to 36.
pub open spec fn digit_of(c: u8, radix: nat) -> Option<nat> {
    let d: int = if 48 <= c <= 57 {
        c - 48
    } else if 97 <= c <= 122 {
        c - 97 + 10
    } else if 65 <= c <= 90 {
        c - 65 + 10
    } else {
        radix as int
    };
    if 0 <= d < radix {
        Some(d as nat)
    } else {
        None
    }
}

/// The number the digits write in the base, most significant first.
pub open spec fn digits_value(s: Seq<u8>, radix: nat) -> Option<int>
    decreases s.len(),
{
    if s.len() == 0 {
        Some(0)
    } else {
        match (digits_value(s.drop_last(), radix), digit_of(s.last(), radix)) {
            (Some(v), Some(d)) => Some(v * radix + d),
            _ => None,
        }
    }
}

/// The number a literal writes in the base: an optional `+` (or, for a
/// signed type, `-`) and at least one digit.
pub open spec fn radix_value(s: Seq<u8>, radix: nat, signed: bool) -> Option<int> {
    if s.len() == 0 {
        None
    } else {
        let negative = signed && s[0] == 45;
        let body = if s[0] == 43 || negative {
            s.drop_first()
        } else {
            s
        };
        if body.len() == 0 {
            None
        } else {
            match digits_value(body, radix) {
                Some(v) => Some(if negative { -v } else { v }),
                None => None,
            }
        }
    }
}

/// The base a literal is written in and where its number starts: 2 after
/// `0b`/`0B`, 16 after `0x`/`0X`, else 10.
pub open spec fn literal_base(s: Seq<u8>) -> (nat, Seq<u8>) {
    if s.len() >= 2 && s[0] == 48 && (s[1] == 98 || s[1] == 66) {
        (2, s.skip(2))
    } else if s.len() >= 2 && s[0] == 48 && (s[1] == 120 || s[1] == 88) {
        (16, s.skip(2))
    } else {
        (10, s)
    }
}

/// The number a literal writes, in its base.
pub open spec fn literal_value(s: Seq<u8>, signed: bool) -> Option<int> {
    let (radix, body) = literal_base(s);
    radix_value(body, radix, signed)
}

/// The ASCII digit of `d` (below 36): `0`-`9`, then `a`-`z`.
pub open spec fn digit_byte(d: nat) -> u8 {
    if d < 10 {
        (48 + d) as u8
    } else {
        (87 + d) as u8
    }
}

/// `n` written in the base (2 to 36), most significant digit first.
pub open spec fn digits_of(n: nat, radix: nat) -> Seq<u8>
    recommends
        2 <= radix <= 36,
    decreases n,
{
    if radix < 2 || n < radix {
        seq![digit_byte(n)]
    } else {
        proof {
            vstd::arithmetic::div_mod::lemma_div_decreases(n as int, radix as int);
        }
        digits_of(n / radix, radix).push(digit_byte(n % radix))
    }
}

/// Digits written in a base read back as the number, and every one of them is
/// a digit of the base (no sign, no `b`, no `x`).
pub proof fn lemma_digits_of(n: nat, radix: nat)
    requires
        2 <= radix <= 36,
    ensures
        digits_value(digits_of(n, radix), radix) == Some(n as int),
        digits_of(n, radix).len() > 0,
        forall|i: int| 0 <= i < digits_of(n, radix).len() ==> #[trigger] digit_of(digits_of(n, radix)[i], radix) is Some,
    decreases n,
{
    let s = digits_of(n, radix);
    if n < radix {
        assert(digit_of(digit_byte(n), radix) == Some(n));
        assert(s.drop_last() =~= Seq::<u8>::empty());
        assert(digits_value(s.drop_last(), radix) == Some(0int));
        assert(s.last() == digit_byte(n));
        assert(0 * radix + n == n);
    } else {
        let q = n / radix;
        let m = n % radix;
        vstd::arithmetic::div_mod::lemma_div_decreases(n as int, radix as int);
        lemma_digits_of(q, radix);
        assert(s.drop_last() =~= digits_of(q, radix));
        assert(digit_of(digit_byte(m), radix) == Some(m));
        assert(n == q * radix + m) by (nonlinear_arith)
            requires
                q == n / radix,
                m == n % radix,
                radix > 0,
        ;
        assert(s.last() == digit_byte(m));
        assert(digits_value(s, radix) == Some((q * radix + m) as int));
        assert forall|i: int| 0 <= i < s.len() implies #[trigger] digit_of(s[i], radix) is Some by {
            if i < s.len() - 1 {
                assert(s[i] == digits_of(q, radix)[i]);
            }
        }
    }
}

/// The digits with each lowercase letter written in uppercase.
pub open spec fn upper_digits(s: Seq<u8>) -> Seq<u8> {
    Seq::new(s.len(), |i: int| if 97 <= s[i] <= 122 { (s[i] - 32) as u8 } else { s[i] })
}

/// A digit means the same in either case.
pub proof fn lemma_upper_digits(s: Seq<u8>, radix: nat)
    ensures
        digits_value(upper_digits(s), radix) == digits_value(s, radix),
        upper_digits(s).len() == s.len(),
    decreases s.len(),
{
    if s.len() > 0 {
        lemma_upper_digits(s.drop_last(), radix);
        assert(upper_digits(s).drop_last() =~= upper_digits(s.drop_last()));
        assert(digit_of(upper_digits(s).last(), radix) == digit_of(s.last(), radix));
    }
}

fn digit(c: u8, radix: u32) -> (r: Option<u32>)
    requires
        2 <= radix <= 36,
    ensures
        r matches Some(d) ==> digit_of(c, radix as nat) == Some(d as nat),
        r is None ==> digit_of(c, radix as nat) is None,
{
    let d: u32 = if 48 <= c && c <= 57 {
        (c - 48) as u32
    } else if 97 <= c && c <= 122 {
        (c - 97) as u32 + 10
    } else if 65 <= c && c <= 90 {
        (c - 65) as u32 + 10
    } else {
        radix
    };
    if d < radix {
        Some(d)
    } else {
        None
    }
}

/// The number `s[start..]` writes in the base (with an optional sign), when
/// it lies within `[min, max]`.
fn parse_radix(s: &[u8], start: usize, radix: u32, signed: bool, min: i128, max: i128) -> (r: Result<i128, LiteralError>)
    requires
        2 <= radix <= 16,
        start <= s@.len(),
        min <= 0 <= max,
        -0x1_0000_0000_0000_0000 <= min,
        max <= 0x1_0000_0000_0000_0000,
    ensures
        r matches Ok(n) ==> radix_value(s@.skip(start as int), radix as nat, signed) == Some(n as int),
        r is Err <==> !(radix_value(s@.skip(start as int), radix as nat, signed) matches Some(v) && min <= v <= max),
{
    let ghost all = s@.skip(start as int);
    if start >= s.len() {
        return Err(LiteralError::Empty);
    }
    let negative = signed && s[start] == 45;
    let first = if s[start] == 43 || negative {
        start + 1
    } else {
        start
    };
    let ghost body = s@.skip(first as int);
    assert(all.len() > 0 && all[0] == s@[start as int]);
    assert(body == if s@[start as int] == 43 || negative { all.drop_first() } else { all });
    if first >= s.len() {
        return Err(LiteralError::InvalidDigit);
    }
    let mut value: i128 = 0;
    let mut i: usize = first;
    let limit: i128 = if negative {
        -min
    } else {
        max
    };
    assert(body.take(0) =~= Seq::<u8>::empty());
    assert(radix_value(all, radix as nat, signed) == match digits_value(body, radix as nat) {
        Some(v) => Some(if negative { -v } else { v }),
        None => None,
    });
    while i < s.len()
        invariant
            first <= i <= s@.len(),
            radix_value(all, radix as nat, signed) == match digits_value(body, radix as nat) {
                Some(v) => Some(if negative { -v } else { v }),
                None => None,
            },
            all == s@.skip(start as int),
            limit as int == if negative { -min } else { max as int },
            min <= 0 <= max,
            body == s@.skip(first as int),
            0 <= limit <= 0x1_0000_0000_0000_0000,
            2 <= radix <= 16,
            0 <= value <= limit,
            digits_value(body.take(i - first), radix as nat) == Some(value as int),
        decreases s@.len() - i,
    {
        let d = match digit(s[i], radix) {
            Some(d) => d,
            None => {
                proof {
                    lemma_digits_invalid(body, radix as nat, (i - first) as int);
                }
                return Err(LiteralError::InvalidDigit);
            },
        };
        assert(body.take(i - first + 1).drop_last() == body.take(i - first));
        assert(body.take(i - first + 1).last() == s@[i as int]);
        proof {
            assert(value * radix <= 0x1_0000_0000_0000_0000 * 16) by (nonlinear_arith)
                requires
                    0 <= value <= 0x1_0000_0000_0000_0000,
                    2 <= radix <= 16,
            ;
        }
        let next: i128 = value * radix as i128 + d as i128;
        if next > limit {
            proof {
                lemma_digits_too_large(body, radix as nat, (i - first + 1) as int, next as int, limit as int);
            }
            return Err(LiteralError::Overflow);
        }
        value = next;
        i = i + 1;
    }
    assert(body.take(s@.len() - first) == body);
    Ok(if negative {
        -value
    } else {
        value
    })
}

/// A digit that is not one of the base makes the whole number invalid.
proof fn lemma_digits_invalid(body: Seq<u8>, radix: nat, k: int)
    requires
        0 <= k < body.len(),
        digit_of(body[k], radix) is None,
    ensures
        digits_value(body, radix) is None,
    decreases body.len() - k,
{
    if k == body.len() - 1 {
    } else {
        lemma_digits_prefix_none(body, radix, k + 1);
    }
}

proof fn lemma_digits_prefix_none(body: Seq<u8>, radix: nat, k: int)
    requires
        0 < k <= body.len(),
        digit_of(body[k - 1], radix) is None || digits_value(body.take(k), radix) is None,
    ensures
        digits_value(body, radix) is None,
    decreases body.len() - k,
{
    assert(body.take(k).drop_last() == body.take(k - 1));
    assert(digits_value(body.take(k), radix) is None);
    if k < body.len() {
        assert(body.take(k + 1).drop_last() == body.take(k));
        lemma_digits_prefix_none(body, radix, k + 1);
    } else {
        assert(body.take(k) == body);
    }
}

/// Once a prefix exceeds the limit, the whole number does or is invalid.
proof fn lemma_digits_too_large(body: Seq<u8>, radix: nat, k: int, v: int, limit: int)
    requires
        0 < k <= body.len(),
        radix >= 2,
        digits_value(body.take(k), radix) == Some(v),
        v > limit,
        limit >= 0,
    ensures
        !(digits_value(body, radix) matches Some(w) && w <= limit),
    decreases body.len() - k,
{
    if k < body.len() {
        assert(body.take(k + 1).drop_last() == body.take(k));
        match digit_of(body[k], radix) {
            Some(d) => {
                assert(v * radix + d > limit) by (nonlinear_arith)
                    requires
                        v > limit,
                        limit >= 0,
                        radix >= 2,
                        d >= 0,
                ;
                lemma_digits_too_large(body, radix, k + 1, v * radix + d, limit);
            },
            None => {
                lemma_digits_prefix_none(body, radix, k + 1);
            },
        }
    } else {
        assert(body.take(k) == body);
    }
}

/// Splits off a `0b` or `0x` prefix.
fn base_of(s: &[u8]) -> (r: (u32, usize))
    ensures
        literal_base(s@) == (r.0 as nat, s@.skip(r.1 as int)),
        r.1 <= s@.len(),
        r.0 == 2 || r.0 == 10 || r.0 == 16,
{
    if s.len() >= 2 && s[0] == 48 && (s[1] == 98 || s[1] == 66) {
        (2, 2)
    } else if s.len() >= 2 && s[0] == 48 && (s[1] == 120 || s[1] == 88) {
        (16, 2)
    } else {
        assert(s@.skip(0) == s@);
        (10, 0)
    }
}

/// Reads an `s32` literal: decimal with an optional sign, binary after
/// `0b`, hexadecimal after `0x`.
pub fn parse_i32_literal(s: &str) -> (r: Result<i32, LiteralError>)
    ensures
        r matches Ok(n) ==> literal_value(s.spec_bytes(), true) == Some(n as int),
        r is Err <==> !(literal_value(s.spec_bytes(), true) matches Some(v) && i32::MIN <= v <= i32::MAX),
{
    let bytes = s.as_bytes();
    let (radix, start) = base_of(bytes);
    let n = parse_radix(bytes, start, radix, true, i32::MIN as i128, i32::MAX as i128)?;
    Ok(n as i32)
}

/// Reads a `usize` literal: decimal with an optional `+`, binary after `0b`,
/// hexadecimal after `0x`.
pub fn parse_usize_literal(s: &str) -> (r: Result<usize, LiteralError>)
    ensures
        r matches Ok(n) ==> literal_value(s.spec_bytes(), false) == Some(n as int),
        r is Err <==> !(literal_value(s.spec_bytes(), false) matches Some(v) && 0 <= v <= usize::MAX),
{
    let bytes = s.as_bytes();
    let (radix, start) = base_of(bytes);
    let n = parse_radix(bytes, start, radix, false, 0, usize::MAX as i128)?;
    Ok(n as usize)
}

} // verus!
