//! Range arguments: parsing an offset written in decimal or `0x`-prefixed
//! hexadecimal, and deriving a normalized `(start, end)` pair from any two of
//! `{start, end, num}`. Both are pure: they run before any I/O.

use vstd::prelude::*;
use vstd::string::StringSliceAdditionalSpecFns;

use crate::error::HexError;

verus! {

/// Is `b` an ASCII decimal digit?
pub open spec fn is_dec_digit(b: u8) -> bool {
    48 <= b <= 57
}

/// Is `b` an ASCII hexadecimal digit (either case)?
pub open spec fn is_hex_digit(b: u8) -> bool {
    is_dec_digit(b) || (65 <= b <= 70) || (97 <= b <= 102)
}

/// The numeric value of a digit byte; meaningful only on digit bytes.
pub open spec fn digit_val(b: u8) -> int {
    if is_dec_digit(b) {
        b - 48
    } else if 65 <= b <= 70 {
        b - 55
    } else {
        b - 87
    }
}

/// Every byte of `s` is a digit of the given radix (10 or 16).
pub open spec fn all_digits(s: Seq<u8>, radix: int) -> bool {
    forall|i: int| 0 <= i < s.len() ==> #[trigger] digit_ok(s[i], radix)
}

/// Is `b` a digit of the given radix?
pub open spec fn digit_ok(b: u8, radix: int) -> bool {
    if radix == 16 {
        is_hex_digit(b)
    } else {
        is_dec_digit(b)
    }
}

/// The value of a digit string read most-significant first.
pub open spec fn digits_value(s: Seq<u8>, radix: int) -> int
    decreases s.len(),
{
    if s.len() == 0 {
        0
    } else {
        digits_value(s.drop_last(), radix) * radix + digit_val(s.last())
    }
}

/// Does `s` start with the two bytes `0x`?
pub open spec fn has_hex_prefix(s: Seq<u8>) -> bool {
    s.len() >= 2 && s[0] == 48 && s[1] == 120
}

/// The number a command-line offset value denotes, if it denotes one:
/// a non-empty run of decimal digits, or `0x` followed by a non-empty run of
/// hexadecimal digits.
pub open spec fn parsed_number(s: Seq<u8>) -> Option<int> {
    if has_hex_prefix(s) {
        let t = s.skip(2);
        if t.len() > 0 && all_digits(t, 16) {
            Some(digits_value(t, 16))
        } else {
            None
        }
    } else {
        if s.len() > 0 && all_digits(s, 10) {
            Some(digits_value(s, 10))
        } else {
            None
        }
    }
}

/// The value of a valid digit string is never negative.
proof fn lemma_digits_value_nonneg(s: Seq<u8>, radix: int)
    requires
        radix == 10 || radix == 16,
        all_digits(s, radix),
    ensures
        digits_value(s, radix) >= 0,
    decreases s.len(),
{
    if s.len() > 0 {
        assert(forall|i: int|
            0 <= i < s.drop_last().len() ==> #[trigger] digit_ok(s.drop_last()[i], radix) && s.drop_last()[i]
                == s[i]);
        lemma_digits_value_nonneg(s.drop_last(), radix);
        assert(digit_ok(s[s.len() - 1], radix));
        assert(digit_val(s.last()) >= 0);
    }
}

/// Parse the digits of `bytes` from index `from` to the end, in the given
/// radix, accumulating into a `usize` and rejecting overflow.
fn parse_digits(bytes: &[u8], from: usize, radix: usize) -> (r: Result<usize, HexError>)
    requires
        radix == 10 || radix == 16,
        from <= bytes@.len(),
    ensures
        match r {
            Ok(v) => {
                let t = bytes@.skip(from as int);
                &&& t.len() > 0
                &&& all_digits(t, radix as int)
                &&& v == digits_value(t, radix as int)
            },
            Err(e) => {
                let t = bytes@.skip(from as int);
                &&& e == HexError::ParseNumber
                &&& (t.len() == 0 || !all_digits(t, radix as int) || digits_value(
                    t,
                    radix as int,
                ) > usize::MAX)
            },
        },
{
    let ghost t = bytes@.skip(from as int);
    if from == bytes.len() {
        return Err(HexError::ParseNumber);
    }
    let mut acc: usize = 0;
    let mut i: usize = from;
    while i < bytes.len()
        invariant
            radix == 10 || radix == 16,
            from <= i <= bytes@.len(),
            t == bytes@.skip(from as int),
            all_digits(t.take(i - from), radix as int),
            acc == digits_value(t.take(i - from), radix as int),
        decreases bytes@.len() - i,
    {
        let b = bytes[i];
        let d: usize = if 48 <= b && b <= 57 {
            (b - 48) as usize
        } else if radix == 16 && 65 <= b && b <= 70 {
            (b - 55) as usize
        } else if radix == 16 && 97 <= b && b <= 102 {
            (b - 87) as usize
        } else {
            proof {
                assert(!digit_ok(t[i - from], radix as int));
            }
            return Err(HexError::ParseNumber);
        };
        proof {
            assert(digit_ok(t[i - from], radix as int));
            assert(d == digit_val(t[i - from]));
        }
        if acc > (usize::MAX - d) / radix {
            proof {
                let tt = t.take(i - from + 1);
                assert(tt.drop_last() =~= t.take(i - from));
                assert(tt.last() == t[i - from]);
                assert(digits_value(tt, radix as int) == acc * radix + d);
                lemma_digits_prefix_monotone(t, i - from + 1, radix as int);
                assert(acc * radix + d > usize::MAX) by (nonlinear_arith)
                    requires
                        acc as int > ((usize::MAX - d) as int) / (radix as int),
                        radix >= 2,
                        0 <= d < radix,
                ;
            }
            return Err(HexError::ParseNumber);
        }
        proof {
            assert(acc * radix + d <= usize::MAX) by (nonlinear_arith)
                requires
                    acc as int <= ((usize::MAX - d) as int) / (radix as int),
                    radix >= 2,
                    0 <= d,
                    d <= usize::MAX,
            ;
        }
        acc = acc * radix + d;
        proof {
            let tt = t.take(i - from + 1);
            assert(tt.drop_last() =~= t.take(i - from));
            assert(tt.last() == t[i - from]);
        }
        i = i + 1;
    }
    proof {
        assert(t.take(bytes@.len() - from) =~= t);
    }
    Ok(acc)
}

/// If all digits of `s` up to `n` are valid and the value of that prefix
/// already exceeds `usize::MAX`, so does the value of any longer valid run.
proof fn lemma_digits_prefix_monotone(s: Seq<u8>, n: int, radix: int)
    requires
        radix == 10 || radix == 16,
        0 <= n <= s.len(),
    ensures
        all_digits(s, radix) && digits_value(s.take(n), radix) > usize::MAX ==> digits_value(
            s,
            radix,
        ) > usize::MAX,
    decreases s.len() - n,
{
    if n < s.len() {
        if all_digits(s, radix) {
            let p = s.take(n + 1);
            assert(p.drop_last() =~= s.take(n));
            assert(digit_ok(s[n], radix));
            assert(digit_val(p.last()) >= 0);
            if digits_value(s.take(n), radix) > usize::MAX {
                assert(digits_value(p, radix) > usize::MAX) by (nonlinear_arith)
                    requires
                        digits_value(p, radix) == digits_value(s.take(n), radix) * radix
                            + digit_val(p.last()),
                        digits_value(s.take(n), radix) > usize::MAX,
                        radix >= 2,
                        digit_val(p.last()) >= 0,
                ;
            }
        }
        lemma_digits_prefix_monotone(s, n + 1, radix);
    } else {
        assert(s.take(n) =~= s);
    }
}

/// Parse a command-line offset value: decimal, or hexadecimal after a `0x`
/// prefix. Returns the parse error exactly when the text denotes no number
/// that fits in `usize`.
pub fn parse_cli_number(s: &str) -> (r: Result<usize, HexError>)
    ensures
        match r {
            Ok(v) => parsed_number(s.spec_bytes()) == Some(v as int),
            Err(e) => {
                &&& e == HexError::ParseNumber
                &&& match parsed_number(s.spec_bytes()) {
                    Some(v) => v > usize::MAX,
                    None => true,
                }
            },
        },
{
    let bytes = s.as_bytes();
    if bytes.len() >= 2 && bytes[0] == 48 && bytes[1] == 120 {
        let r = parse_digits(bytes, 2, 16);
        proof {
            if r is Err {
                let t = s.spec_bytes().skip(2);
                if t.len() > 0 && all_digits(t, 16) {
                    lemma_digits_value_nonneg(t, 16);
                }
            }
        }
        r
    } else {
        let r = parse_digits(bytes, 0, 10);
        proof {
            assert(bytes@.skip(0) =~= bytes@);
        }
        r
    }
}

/// What `normalize_range` returns, as a mathematical function of the three
/// optional arguments.
pub open spec fn spec_normalize(
    start: Option<usize>,
    end: Option<usize>,
    num: Option<usize>,
) -> Result<(Option<usize>, Option<usize>), HexError> {
    match (start, end, num) {
        (Some(_), Some(_), Some(_)) => Err(HexError::InvalidArguments),
        (s, e, None) => Ok((s, e)),
        (Some(s), None, Some(n)) => if s + n <= usize::MAX {
            Ok((Some(s), Some((s + n) as usize)))
        } else {
            Err(HexError::InvalidArguments)
        },
        (None, Some(e), Some(n)) => if n <= e {
            Ok((Some((e - n) as usize), Some(e)))
        } else {
            Err(HexError::InvalidArguments)
        },
        (None, None, Some(n)) => Ok((Some(0usize), Some(n))),
    }
}

/// Derive a normalized `(start, end)` pair from at most two of
/// `{start, end, num}`:
/// `num` alone means `start = 0, end = num`; `start` and `num` mean
/// `end = start + num`; `end` and `num` mean `start = end - num`; anything
/// not involving `num` passes through. Supplying all three is an
/// argument-conflict error, as is a derived bound that cannot be represented.
/// Pure arithmetic: no I/O can have happened when it rejects.
pub fn normalize_range(start: Option<usize>, end: Option<usize>, num: Option<usize>) -> (r: Result<
    (Option<usize>, Option<usize>),
    HexError,
>)
    ensures
        r == spec_normalize(start, end, num),
        start is Some && end is Some && num is Some ==> r == Err::<
            (Option<usize>, Option<usize>),
            HexError,
        >(HexError::InvalidArguments),
{
    match (start, end, num) {
        (Some(_), Some(_), Some(_)) => Err(HexError::InvalidArguments),
        (s, e, None) => Ok((s, e)),
        (Some(s), None, Some(n)) => {
            if n <= usize::MAX - s {
                Ok((Some(s), Some(s + n)))
            } else {
                Err(HexError::InvalidArguments)
            }
        },
        (None, Some(e), Some(n)) => {
            if n <= e {
                Ok((Some(e - n), Some(e)))
            } else {
                Err(HexError::InvalidArguments)
            }
        },
        (None, None, Some(n)) => Ok((Some(0), Some(n))),
    }
}

/// Giving `start` and `num` derives the same range as giving `start` and
/// `end = start + num` directly: the two spellings select the same window,
/// so the whole dump that follows from them is identical.
pub proof fn lemma_start_num_matches_explicit_end(s: usize, n: usize)
    requires
        s + n <= usize::MAX,
    ensures
        spec_normalize(Some(s), None, Some(n)) == spec_normalize(
            Some(s),
            Some((s + n) as usize),
            None,
        ),
{
}

} // verus!
