//! Cache-time parsing: the operator's `--cache` value is a human-readable
//! duration (`1h`, `1year 6months`) or a bare number of seconds, and must
//! come out as whole seconds fitting a `u32` — fractional and overflowing
//! values are rejected.

use vstd::prelude::*;

use crate::text::view_opt;

verus! {

/// A decimal digit.
pub open spec fn is_digit(c: char) -> bool {
    48 <= c as int <= 57
}

/// The value of a decimal digit.
pub open spec fn digit_val(c: char) -> nat {
    (c as int - 48) as nat
}

/// Whether every character is a decimal digit.
pub open spec fn all_digits(s: Seq<char>) -> bool {
    forall|i: int| 0 <= i < s.len() ==> is_digit(#[trigger] s[i])
}

/// The number a digit string denotes.
pub open spec fn digits_val(s: Seq<char>) -> nat
    decreases s.len(),
{
    if s.len() == 0 {
        0
    } else {
        digits_val(s.drop_last()) * 10 + digit_val(s.last())
    }
}

/// A string with one leading plus sign removed, as the standard integer
/// parsers accept.
pub open spec fn strip_plus(s: Seq<char>) -> Seq<char> {
    if s.len() > 0 && s.first() == '+' {
        s.drop_first()
    } else {
        s
    }
}

/// Why a number failed to parse.
#[derive(Clone, Copy, Debug, PartialEq, Eq, Structural)]
pub enum NumberError {
    /// Empty, or holding a character that is no digit.
    Invalid,
    /// All digits, but past the type's maximum.
    Overflow,
}

/// A longer digit prefix never denotes a smaller number.
proof fn lemma_digits_val_prefix_le(s: Seq<char>, i: int)
    requires
        0 <= i <= s.len(),
    ensures
        digits_val(s.take(i)) <= digits_val(s),
    decreases s.len() - i,
{
    if i < s.len() {
        let t = s.take(i + 1);
        assert(t.drop_last() =~= s.take(i));
        assert(t.last() == s[i]);
        assert(digits_val(s.take(i)) * 10 >= digits_val(s.take(i))) by (nonlinear_arith);
        lemma_digits_val_prefix_le(s, i + 1);
    } else {
        assert(s.take(i) =~= s);
    }
}

/// Parses a decimal `u32`, accepting one leading `+`: the digits' value
/// exactly when it fits, `Overflow` exactly when digits alone exceed the
/// maximum, `Invalid` exactly when no digits or something else is there.
pub fn parse_u32(s: &str) -> (r: Result<u32, NumberError>)
    ensures
        ({
            let d = strip_plus(s@);
            match r {
                Ok(v) => d.len() > 0 && all_digits(d) && digits_val(d) <= u32::MAX && v
                    == digits_val(d),
                Err(NumberError::Overflow) => d.len() > 0 && all_digits(d) && digits_val(d)
                    > u32::MAX,
                Err(NumberError::Invalid) => d.len() == 0 || !all_digits(d),
            }
        }),
{
    let n = s.unicode_len();
    let mut i: usize = 0;
    if n > 0 && s.get_char(0) == '+' {
        i = 1;
    }
    let start = i;
    let ghost d = strip_plus(s@);
    proof {
        if s@.len() > 0 && s@.first() == '+' {
            assert(d =~= s@.skip(1));
        } else {
            assert(d =~= s@.skip(0));
        }
    }
    if i == n {
        return Err(NumberError::Invalid);
    }
    let mut v: u32 = 0;
    let mut over: bool = false;
    proof {
        assert(d.take(0) =~= Seq::<char>::empty());
    }
    while i < n
        invariant
            start <= i <= n,
            n == s@.len(),
            d == s@.skip(start as int),
            d == strip_plus(s@),
            all_digits(d.take(i - start)),
            !over ==> v == digits_val(d.take(i - start)),
            over ==> digits_val(d.take(i - start)) > u32::MAX,
        decreases n - i,
    {
        let ghost prev = d.take(i - start);
        proof {
            let t = d.take(i + 1 - start);
            assert(t.drop_last() =~= prev);
            assert(t.last() == d[i - start]);
            assert(d[i - start] == s@[i as int]);
        }
        let c = s.get_char(i);
        let u = c as u32;
        if u < 48 || u > 57 {
            proof {
                assert(d[(i - start) as int] == c);
                assert(c as int == u as int);
                assert(!is_digit(c));
                assert(((i - start) as int) < d.len());
                assert(!all_digits(d));
            }
            return Err(NumberError::Invalid);
        }
        let dv: u32 = u - 48;
        proof {
            assert(digit_val(d[(i - start) as int]) == dv);
        }
        if over {
            proof {
                assert(digits_val(prev) * 10 + digit_val(d[(i - start) as int]) > u32::MAX)
                    by (nonlinear_arith)
                    requires
                        digits_val(prev) > u32::MAX,
                ;
            }
        } else if v > (u32::MAX - dv) / 10 {
            over = true;
            proof {
                let m = (u32::MAX - dv) as int;
                assert((m / 10) * 10 + m % 10 == m);
                assert(v as int * 10 >= (m / 10 + 1) * 10) by (nonlinear_arith)
                    requires
                        v as int >= m / 10 + 1,
                ;
                assert((m / 10 + 1) * 10 == (m / 10) * 10 + 10);
                assert(v as int * 10 + dv > u32::MAX);
            }
        } else {
            proof {
                let m = (u32::MAX - dv) as int;
                assert((m / 10) * 10 + m % 10 == m);
                assert(v as int * 10 <= (m / 10) * 10) by (nonlinear_arith)
                    requires
                        v as int <= m / 10,
                ;
            }
            v = v * 10 + dv;
        }
        i = i + 1;
    }
    proof {
        assert(d.take(n - start) =~= d);
        assert(d.len() > 0);
    }
    if over {
        Err(NumberError::Overflow)
    } else {
        Ok(v)
    }
}

/// Parses a decimal `u16`, accepting one leading `+`, with the same exact
/// contract at the smaller maximum.
pub fn parse_u16(s: &str) -> (r: Result<u16, NumberError>)
    ensures
        ({
            let d = strip_plus(s@);
            match r {
                Ok(v) => d.len() > 0 && all_digits(d) && digits_val(d) <= u16::MAX && v
                    == digits_val(d),
                Err(NumberError::Overflow) => d.len() > 0 && all_digits(d) && digits_val(d)
                    > u16::MAX,
                Err(NumberError::Invalid) => d.len() == 0 || !all_digits(d),
            }
        }),
{
    match parse_u32(s) {
        Ok(v) => {
            if v <= 65535 {
                Ok(v as u16)
            } else {
                Err(NumberError::Overflow)
            }
        },
        Err(NumberError::Overflow) => Err(NumberError::Overflow),
        Err(NumberError::Invalid) => Err(NumberError::Invalid),
    }
}

/// Why a cache time was refused.
#[derive(Clone, Copy, Debug, PartialEq, Eq, Structural)]
pub enum CacheTimeError {
    /// The duration has a fractional second.
    Fractional,
    /// The seconds do not fit a `u32`.
    TooLarge,
    /// Not a duration or a bare number of seconds.
    Invalid,
}

/// The view of a duration-parser outcome: whole seconds and subsecond
/// nanoseconds on success, on failure the unknown unit verbatim where one
/// was the fault, nothing otherwise.
pub open spec fn outcome_view(o: Result<(u64, u32), Option<String>>) -> Result<
    (u64, u32),
    Option<Seq<char>>,
> {
    match o {
        Ok(p) => Ok(p),
        Err(u) => Err(view_opt(u)),
    }
}

/// Narrows a parsed duration to whole seconds fitting a `u32`: a nonzero
/// subsecond part is fractional, seconds past the maximum are too large.
pub fn whole_seconds(secs: u64, nanos: u32) -> (r: Result<u32, CacheTimeError>)
    ensures
        r == (if nanos != 0 {
            Err::<u32, CacheTimeError>(CacheTimeError::Fractional)
        } else if secs > u32::MAX {
            Err::<u32, CacheTimeError>(CacheTimeError::TooLarge)
        } else {
            Ok::<u32, CacheTimeError>(secs as u32)
        }),
{
    if nanos != 0 {
        Err(CacheTimeError::Fractional)
    } else if secs > 0xffff_ffffu64 {
        Err(CacheTimeError::TooLarge)
    } else {
        Ok(secs as u32)
    }
}

/// The cache-time rules, over the duration-parser outcome for the raw
/// string: a parsed duration must have no fractional second and fit a
/// `u32`; a bare number (the parser reports an empty unknown unit) falls
/// back to a plain decimal parse of the raw string; anything else is
/// invalid.
pub open spec fn cache_time_spec(
    outcome: Result<(u64, u32), Option<Seq<char>>>,
    s: Seq<char>,
) -> Result<u32, CacheTimeError> {
    match outcome {
        Ok(p) => if p.1 != 0 {
            Err(CacheTimeError::Fractional)
        } else if p.0 > u32::MAX {
            Err(CacheTimeError::TooLarge)
        } else {
            Ok(p.0 as u32)
        },
        Err(uopt) => match uopt {
            Some(unit) => if unit.len() == 0 {
                let d = strip_plus(s);
                if d.len() > 0 && all_digits(d) && digits_val(d) <= u32::MAX {
                    Ok(digits_val(d) as u32)
                } else if d.len() > 0 && all_digits(d) {
                    Err(CacheTimeError::TooLarge)
                } else {
                    Err(CacheTimeError::Invalid)
                }
            } else {
                Err(CacheTimeError::Invalid)
            },
            None => Err(CacheTimeError::Invalid),
        },
    }
}

/// Classifies the configured cache time (max-age) into whole seconds.
///
/// The host parses the raw string with its duration parser and hands the
/// outcome over beside the string; the outside parser's quirks (including
/// any panic of its own) thus stay with the host, and the classification
/// here is verified for every outcome.
pub fn parse_cache_time(s: &str, parsed: Result<(u64, u32), Option<String>>) -> (r: Result<
    u32,
    CacheTimeError,
>)
    ensures
        r == cache_time_spec(outcome_view(parsed), s@),
{
    match parsed {
        Ok(p) => whole_seconds(p.0, p.1),
        Err(uopt) => match uopt {
            Some(unit) => {
                if unit.as_str().unicode_len() == 0 {
                    match parse_u32(s) {
                        Ok(v) => Ok(v),
                        Err(NumberError::Overflow) => Err(CacheTimeError::TooLarge),
                        Err(NumberError::Invalid) => Err(CacheTimeError::Invalid),
                    }
                } else {
                    Err(CacheTimeError::Invalid)
                }
            },
            None => Err(CacheTimeError::Invalid),
        },
    }
}


} // verus!
