//! Textual form of log numbers.
//!
//! Parsing accepts a plain decimal (`"12.5"`, `"-3"`) or a mantissa and
//! exponent split by `e` (`"1.5e300"`, `"1e-20"`); a bare exponent form
//! (`"e40"`) denotes exactly that power of ten, and one optional leading
//! minus negates the whole value. Malformed text, including a non-empty
//! mantissa that is not a decimal, is a parse error. Formatting renders
//! `M.MMe<E>`: the exponent is the floor of the log magnitude and the
//! mantissa carries two decimal places.

use vstd::prelude::*;
use crate::fixedlog::{SCALE, HALF_SCALE, ten_pow, pow10_frac, spec_pow10, log_of_int};
use crate::fixedlog::spec_log_of_int;
use crate::lognum::{LogNum, LogVal, MAG_MAX, spec_mul, spec_neg};
use vstd::string::StringExecFns;
use vstd::string::StrSliceExecFns;
use vstd::string::StringSliceAdditionalSpecFns;

verus! {

/// Failure to parse a log number from text.
#[derive(Clone, Copy, Debug, PartialEq, Eq, Structural)]
pub struct LogNumParseError;

/// Cap on the scanned significand: digits past seventeen places only move
/// the decimal exponent.
pub const DIGIT_CAP: i64 = 100_000_000_000_000_000;

/// Scan of a decimal number: returns the significand, the count of
/// fractional digits folded into it, and the count of integral digits
/// dropped past the significand cap; `None` when the text is not a
/// decimal. State threads left to right through the digits.
pub open spec fn spec_scan(
    b: Seq<u8>,
    to: int,
    i: int,
    d: int,
    f: int,
    extra: int,
    seen_digit: bool,
    seen_dot: bool,
) -> Option<(int, int, int)>
    decreases to - i,
{
    if i >= to {
        if seen_digit {
            Option::Some((d, f, extra))
        } else {
            Option::None
        }
    } else {
        let c = b[i];
        if 48 <= c <= 57 {
            if d < DIGIT_CAP && f < 18 {
                spec_scan(
                    b,
                    to,
                    i + 1,
                    d * 10 + (c - 48),
                    if seen_dot { f + 1 } else { f },
                    extra,
                    true,
                    seen_dot,
                )
            } else {
                spec_scan(
                    b,
                    to,
                    i + 1,
                    d,
                    f,
                    if !seen_dot && extra < 1000 { extra + 1 } else { extra },
                    true,
                    seen_dot,
                )
            }
        } else if c == 46 && !seen_dot {
            spec_scan(b, to, i + 1, d, f, extra, seen_digit, true)
        } else {
            Option::None
        }
    }
}

/// Scan of a decimal with an optional leading sign.
pub open spec fn spec_scan_signed(b: Seq<u8>, from: int, to: int, allow_sign: bool) -> Option<
    (bool, int, int, int),
> {
    if from < to && allow_sign && (b[from] == 45 || b[from] == 43) {
        match spec_scan(b, to, from + 1, 0, 0, 0, false, false) {
            Option::Some((d, f, x)) => Option::Some((b[from] == 45, d, f, x)),
            Option::None => Option::None,
        }
    } else {
        match spec_scan(b, to, from, 0, 0, 0, false, false) {
            Option::Some((d, f, x)) => Option::Some((false, d, f, x)),
            Option::None => Option::None,
        }
    }
}

/// First `e` at or after `i`.
pub open spec fn spec_find_e(b: Seq<u8>, i: int) -> Option<int>
    decreases b.len() - i,
{
    if i >= b.len() {
        Option::None
    } else if b[i] == 101 {
        Option::Some(i)
    } else {
        spec_find_e(b, i + 1)
    }
}

/// The value of a scanned decimal as a log number: the significand through
/// the integer logarithm, shifted by the net decimal exponent.
pub open spec fn spec_dec_val(d: int, f: int, extra: int) -> LogVal {
    if d == 0 {
        LogVal::Zero
    } else {
        LogVal::Fin {
            neg: false,
            mag: spec_log_of_int(d) + (extra - f) * (SCALE as int),
        }
    }
}

/// The magnitude named by a scanned exponent: the fixed-point value of the
/// decimal, saturating to infinity upward and to zero downward.
pub open spec fn spec_exp_val(neg: bool, d: int, f: int, extra: int) -> LogVal {
    if extra > 0 {
        if neg {
            LogVal::Zero
        } else {
            LogVal::Inf { neg: false }
        }
    } else {
        let h = ten_pow(f as u32) as int;
        let m0 = (d * (SCALE as int) + h / 2) / h;
        let m = if neg { -m0 } else { m0 };
        if m > MAG_MAX {
            LogVal::Inf { neg: false }
        } else if m < -MAG_MAX {
            LogVal::Zero
        } else {
            LogVal::Fin { neg: false, mag: m }
        }
    }
}

/// Full parse of a byte string into a log-number value.
pub open spec fn spec_parse(b: Seq<u8>) -> Option<LogVal> {
    if b.len() == 0 {
        Option::None
    } else {
        let neg = b[0] == 45;
        let st: int = if neg { 1 } else { 0 };
        let val = match spec_find_e(b, st) {
            Option::None => {
                match spec_scan_signed(b, st, b.len() as int, false) {
                    Option::None => Option::None,
                    Option::Some((sg, d, f, x)) => Option::Some(spec_dec_val(d, f, x)),
                }
            },
            Option::Some(ei) => {
                match spec_scan_signed(b, ei + 1, b.len() as int, true) {
                    Option::None => Option::None,
                    Option::Some((se, de, fe, xe)) => {
                        let ev = spec_exp_val(se, de, fe, xe);
                        if ei == st {
                            Option::Some(ev)
                        } else {
                            match spec_scan_signed(b, st, ei, false) {
                                Option::None => Option::None,
                                Option::Some((sm, dm, fm, xm)) => Option::Some(
                                    spec_mul(ev, spec_dec_val(dm, fm, xm)),
                                ),
                            }
                        }
                    },
                }
            },
        };
        match val {
            Option::None => Option::None,
            Option::Some(v) => Option::Some(if neg { spec_neg(v) } else { v }),
        }
    }
}

/// Runs the decimal scan; the recursion mirrors the spec scan step for step.
fn scan_rec(
    b: &[u8],
    to: usize,
    i: usize,
    d: i64,
    f: u32,
    extra: u32,
    seen_digit: bool,
    seen_dot: bool,
) -> (r: Option<(i64, u32, u32)>)
    requires
        i <= to <= b@.len(),
        0 <= d < 10 * DIGIT_CAP,
        f <= 18,
        extra <= 1000,
    ensures
        (r matches Some(v) && spec_scan(
            b@,
            to as int,
            i as int,
            d as int,
            f as int,
            extra as int,
            seen_digit,
            seen_dot,
        ) == Some((v.0 as int, v.1 as int, v.2 as int)) && 0 <= v.0 < 10 * DIGIT_CAP && v.1 <= 18
            && v.2 <= 1000) || (r is None && spec_scan(
            b@,
            to as int,
            i as int,
            d as int,
            f as int,
            extra as int,
            seen_digit,
            seen_dot,
        ) is None),
    decreases to - i,
{
    if i >= to {
        if seen_digit {
            Option::Some((d, f, extra))
        } else {
            Option::None
        }
    } else {
        let c = b[i];
        if 48 <= c && c <= 57 {
            if d < DIGIT_CAP && f < 18 {
                scan_rec(
                    b,
                    to,
                    i + 1,
                    d * 10 + ((c - 48) as i64),
                    if seen_dot { f + 1 } else { f },
                    extra,
                    true,
                    seen_dot,
                )
            } else {
                scan_rec(
                    b,
                    to,
                    i + 1,
                    d,
                    f,
                    if !seen_dot && extra < 1000 { extra + 1 } else { extra },
                    true,
                    seen_dot,
                )
            }
        } else if c == 46 && !seen_dot {
            scan_rec(b, to, i + 1, d, f, extra, seen_digit, true)
        } else {
            Option::None
        }
    }
}

/// Runs the signed decimal scan.
fn scan_signed(b: &[u8], from: usize, to: usize, allow_sign: bool) -> (r: Option<
    (bool, i64, u32, u32),
>)
    requires
        from <= to <= b@.len(),
    ensures
        (r matches Some(v) && spec_scan_signed(b@, from as int, to as int, allow_sign) == Some(
            (v.0, v.1 as int, v.2 as int, v.3 as int),
        ) && 0 <= v.1 < 10 * DIGIT_CAP && v.2 <= 18 && v.3 <= 1000) || (r is None
            && spec_scan_signed(b@, from as int, to as int, allow_sign) is None),
{
    if from < to && allow_sign && (b[from] == 45 || b[from] == 43) {
        match scan_rec(b, to, from + 1, 0, 0, 0, false, false) {
            Option::Some((d, f, x)) => Option::Some((b[from] == 45, d, f, x)),
            Option::None => Option::None,
        }
    } else {
        match scan_rec(b, to, from, 0, 0, 0, false, false) {
            Option::Some((d, f, x)) => Option::Some((false, d, f, x)),
            Option::None => Option::None,
        }
    }
}

/// Finds the first `e`.
fn find_e_rec(b: &[u8], i: usize) -> (r: Option<usize>)
    requires
        i <= b@.len(),
    ensures
        (r matches Some(v) && spec_find_e(b@, i as int) == Some(v as int) && i <= v < b@.len())
            || (r is None && spec_find_e(b@, i as int) is None),
    decreases b@.len() - i,
{
    if i >= b.len() {
        Option::None
    } else if b[i] == 101 {
        Option::Some(i)
    } else {
        find_e_rec(b, i + 1)
    }
}

/// Builds the log number named by a scanned decimal.
fn dec_to_lognum(d: i64, f: u32, extra: u32) -> (r: LogNum)
    requires
        0 <= d < 10 * DIGIT_CAP,
        f <= 18,
        extra <= 1000,
    ensures
        r@ == spec_dec_val(d as int, f as int, extra as int),
{
    if d == 0 {
        LogNum::zero()
    } else {
        let base = log_of_int(d);
        let shift = ((extra as i64) - (f as i64)) * SCALE;
        LogNum::from_mag_parts(false, base + shift)
    }
}

/// Builds the power of ten named by a scanned exponent.
fn exp_to_lognum(neg: bool, d: i64, f: u32, extra: u32) -> (r: LogNum)
    requires
        0 <= d < 10 * DIGIT_CAP,
        f <= 18,
        extra <= 1000,
    ensures
        r@ == spec_exp_val(neg, d as int, f as int, extra as int),
{
    if extra > 0 {
        if neg {
            LogNum::zero()
        } else {
            LogNum::infinity()
        }
    } else {
        let h = ten_pow(f);
        let m0 = ((d as i128) * (SCALE as i128) + (h as i128) / 2) / (h as i128);
        proof {
            assert(0 <= (d as int) * (SCALE as int) <= 10 * (DIGIT_CAP as int) * (SCALE as int))
                by (nonlinear_arith)
                requires 0 <= d < 10 * DIGIT_CAP, SCALE > 0;
            vstd::arithmetic::div_mod::lemma_div_is_ordered(
                0,
                (d as int) * (SCALE as int) + (h as int) / 2,
                h as int,
            );
        }
        let m = if neg { -m0 } else { m0 };
        if m > (MAG_MAX as i128) {
            LogNum::infinity()
        } else if m < ((-MAG_MAX) as i128) {
            LogNum::zero()
        } else {
            LogNum::from_mag_parts(false, m as i64)
        }
    }
}

impl LogNum {
    /// Parses the textual form of a log number; empty or malformed text is
    /// a parse error.
    pub fn from_str(s: &str) -> (r: Result<LogNum, LogNumParseError>)
        ensures
            (r matches Ok(v) && spec_parse(s.spec_bytes()) == Some(v@)) || (r is Err && spec_parse(
                s.spec_bytes(),
            ) is None),
    {
        let b = s.as_bytes();
        let n = b.len();
        if n == 0 {
            return Result::Err(LogNumParseError);
        }
        let neg = b[0] == 45;
        let st: usize = if neg { 1 } else { 0 };
        let val: Option<LogNum> = match find_e_rec(b, st) {
            Option::None => {
                match scan_signed(b, st, n, false) {
                    Option::None => Option::None,
                    Option::Some((_sg, d, f, x)) => Option::Some(dec_to_lognum(d, f, x)),
                }
            },
            Option::Some(ei) => {
                match scan_signed(b, ei + 1, n, true) {
                    Option::None => Option::None,
                    Option::Some((se, de, fe, xe)) => {
                        let ev = exp_to_lognum(se, de, fe, xe);
                        if ei == st {
                            Option::Some(ev)
                        } else {
                            match scan_signed(b, st, ei, false) {
                                Option::None => Option::None,
                                Option::Some((_sm, dm, fm, xm)) => Option::Some(
                                    ev.mul(dec_to_lognum(dm, fm, xm)),
                                ),
                            }
                        }
                    },
                }
            },
        };
        match val {
            Option::None => Result::Err(LogNumParseError),
            Option::Some(v) => Result::Ok(if neg { v.neg() } else { v }),
        }
    }
}

/// The ten digit characters.
pub open spec fn digit_char(d: int) -> char {
    if d == 0 { '0' }
    else if d == 1 { '1' }
    else if d == 2 { '2' }
    else if d == 3 { '3' }
    else if d == 4 { '4' }
    else if d == 5 { '5' }
    else if d == 6 { '6' }
    else if d == 7 { '7' }
    else if d == 8 { '8' }
    else { '9' }
}

/// Decimal digits of a non-negative integer, most significant first.
pub open spec fn spec_digits_pos(n: int) -> Seq<char>
    decreases n,
{
    if n <= 9 {
        seq![digit_char(n)]
    } else {
        spec_digits_pos(n / 10).push(digit_char(n % 10))
    }
}

/// Decimal digits of an integer, with a leading minus when negative.
pub open spec fn spec_int_digits(n: int) -> Seq<char> {
    if n < 0 {
        seq!['-'] + spec_digits_pos(-n)
    } else {
        spec_digits_pos(n)
    }
}

/// One digit as text.
fn digit_str(d: u8) -> (r: &'static str)
    requires
        d < 10,
    ensures
        r@ == seq![digit_char(d as int)],
{
    proof {
        reveal_strlit("0");
        reveal_strlit("1");
        reveal_strlit("2");
        reveal_strlit("3");
        reveal_strlit("4");
        reveal_strlit("5");
        reveal_strlit("6");
        reveal_strlit("7");
        reveal_strlit("8");
        reveal_strlit("9");
    }
    let r = match d {
        0u8 => "0",
        1u8 => "1",
        2u8 => "2",
        3u8 => "3",
        4u8 => "4",
        5u8 => "5",
        6u8 => "6",
        7u8 => "7",
        8u8 => "8",
        _ => "9",
    };
    proof {
        assert(r@ =~= seq![digit_char(d as int)]);
    }
    r
}

/// Appends the decimal digits of a non-negative integer.
fn push_digits_pos(out: &mut String, n: i64)
    requires
        n >= 0,
    ensures
        final(out)@ == old(out)@ + spec_digits_pos(n as int),
    decreases n,
{
    if n <= 9 {
        out.append(digit_str(n as u8));
        proof {
            assert(final(out)@ =~= old(out)@ + spec_digits_pos(n as int));
        }
    } else {
        push_digits_pos(out, n / 10);
        out.append(digit_str((n % 10) as u8));
        proof {
            assert(final(out)@ =~= old(out)@ + spec_digits_pos(n as int));
        }
    }
}

/// The canonical rendering of a log-number value.
pub open spec fn spec_format(v: LogVal) -> Seq<char> {
    match v {
        LogVal::Zero => "0.00e0"@,
        LogVal::Nan => "nan"@,
        LogVal::Inf { neg } => if neg { "-inf"@ } else { "inf"@ },
        LogVal::Fin { neg, mag } => {
            let e0 = mag / (SCALE as int);
            let fr = mag % (SCALE as int);
            let h = (spec_pow10(fr) * 100 + HALF_SCALE) / (SCALE as int);
            (if neg { seq!['-'] } else { Seq::<char>::empty() }) + spec_digits_pos(h / 100)
                + seq!['.'] + seq![digit_char((h / 10) % 10), digit_char(h % 10)] + seq!['e']
                + spec_int_digits(e0)
        },
    }
}

impl LogNum {
    /// Renders the number as `M.MMe<E>`, the mantissa with two decimal
    /// places; zero, the infinities and not-a-number have fixed spellings.
    pub fn to_display_string(&self) -> (r: String)
        ensures
            r@ == spec_format(self@),
    {
        match self.magnitude_scaled() {
            Option::None => {
                if self.is_nan() {
                    String::from_str("nan")
                } else if self.is_zero() {
                    String::from_str("0.00e0")
                } else if self.is_sign_negative() {
                    String::from_str("-inf")
                } else {
                    String::from_str("inf")
                }
            },
            Option::Some(mag) => {
                let (e0, fr) = floor_div_mod(mag);
                let p = pow10_frac(fr);
                let h = (p * 100 + HALF_SCALE) / SCALE;
                proof {
                    vstd::arithmetic::div_mod::lemma_div_is_ordered(
                        100 * (SCALE as int),
                        (p as int) * 100 + HALF_SCALE,
                        SCALE as int,
                    );
                    vstd::arithmetic::div_mod::lemma_div_is_ordered(
                        (p as int) * 100 + HALF_SCALE,
                        1000 * (SCALE as int) + HALF_SCALE,
                        SCALE as int,
                    );
                    assert((100 * (SCALE as int)) / (SCALE as int) == 100) by {
                        vstd::arithmetic::div_mod::lemma_div_multiples_vanish(100, SCALE as int);
                    }
                    assert((1000 * (SCALE as int) + HALF_SCALE) / (SCALE as int) == 1000) by {
                        vstd::arithmetic::div_mod::lemma_fundamental_div_mod_converse(
                            1000 * (SCALE as int) + HALF_SCALE,
                            SCALE as int,
                            1000,
                            HALF_SCALE as int,
                        );
                    }
                }
                let mut out = String::new();
                if self.is_sign_negative() {
                    out.append("-");
                }
                push_digits_pos(&mut out, h / 100);
                out.append(".");
                out.append(digit_str(((h / 10) % 10) as u8));
                out.append(digit_str((h % 10) as u8));
                out.append("e");
                if e0 < 0 {
                    out.append("-");
                    push_digits_pos(&mut out, -e0);
                } else {
                    push_digits_pos(&mut out, e0);
                }
                proof {
                    reveal_strlit("-");
                    reveal_strlit(".");
                    reveal_strlit("e");
                    assert(out@ =~= spec_format(self@));
                }
                out
            },
        }
    }
}

/// Euclidean decomposition of a magnitude into whole decades and a
/// non-negative fractional part.
fn floor_div_mod(mag: i64) -> (r: (i64, i64))
    requires
        -MAG_MAX <= mag <= MAG_MAX,
    ensures
        r.0 == mag as int / (SCALE as int),
        r.1 == mag as int % (SCALE as int),
        0 <= r.1 < SCALE,
        -MAG_MAX <= r.0 <= MAG_MAX,
{
    if mag >= 0 {
        (mag / SCALE, mag % SCALE)
    } else {
        let q = (-mag) / SCALE;
        let r = (-mag) % SCALE;
        if r == 0 {
            proof {
                vstd::arithmetic::div_mod::lemma_fundamental_div_mod(-mag as int, SCALE as int);
                vstd::arithmetic::div_mod::lemma_fundamental_div_mod_converse(
                    mag as int,
                    SCALE as int,
                    -q as int,
                    0,
                );
            }
            (-q, 0)
        } else {
            proof {
                vstd::arithmetic::div_mod::lemma_fundamental_div_mod(-mag as int, SCALE as int);
                vstd::arithmetic::div_mod::lemma_fundamental_div_mod_converse(
                    mag as int,
                    SCALE as int,
                    -q as int - 1,
                    SCALE - r as int,
                );
            }
            (-q - 1, SCALE - r)
        }
    }
}

/// The blank characters a strategy label may contain.
pub open spec fn spec_is_space(c: char) -> bool {
    c == ' ' || c == '\t' || c == '\n' || c == '\r'
}

/// First position at or after `i` holding a non-blank character.
pub open spec fn spec_skip_space(s: Seq<char>, i: int) -> int
    decreases s.len() - i,
{
    if i < 0 || i >= s.len() {
        s.len() as int
    } else if spec_is_space(s[i]) {
        spec_skip_space(s, i + 1)
    } else {
        i
    }
}

/// First position at or after `i` holding a blank character.
pub open spec fn spec_find_space(s: Seq<char>, i: int) -> int
    decreases s.len() - i,
{
    if i < 0 || i >= s.len() {
        s.len() as int
    } else if spec_is_space(s[i]) {
        i
    } else {
        spec_find_space(s, i + 1)
    }
}

/// The first blank-separated word of a label: blanks are skipped, then
/// characters are taken up to the next blank; an all-blank label gives
/// the empty word.
pub open spec fn spec_first_word(s: Seq<char>) -> Seq<char> {
    s.subrange(spec_skip_space(s, 0), spec_find_space(s, spec_skip_space(s, 0)))
}

/// Whether a character is blank.
fn is_space(c: char) -> (r: bool)
    ensures
        r == spec_is_space(c),
{
    c == ' ' || c == '\t' || c == '\n' || c == '\r'
}

/// Extracts the first blank-separated word of a strategy label.
pub fn first_word(s: &str) -> (r: String)
    ensures
        r@ == spec_first_word(s@),
{
    let n = s.unicode_len();
    let mut a: usize = 0;
    while a < n && is_space(s.get_char(a))
        invariant
            a <= n,
            n == s@.len(),
            spec_skip_space(s@, 0) == spec_skip_space(s@, a as int),
        decreases n - a,
    {
        a = a + 1;
    }
    let mut b: usize = a;
    while b < n && !is_space(s.get_char(b))
        invariant
            a <= b <= n,
            n == s@.len(),
            spec_find_space(s@, a as int) == spec_find_space(s@, b as int),
        decreases n - b,
    {
        b = b + 1;
    }
    let w = s.substring_char(a, b);
    w.to_owned()
}

} // verus!
