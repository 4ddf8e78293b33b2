use vstd::prelude::*;

use vstd::string::StringSliceAdditionalSpecFns;

use crate::tonemap::{Color, Policy, Ratio};

verus! {

/// Why a configuration string was refused.
#[derive(Clone, Copy, Debug, PartialEq, Eq, Structural)]
pub enum ConfigError {
    /// The base colour is not exactly six bytes long.
    ColorLength,
    /// The percentage is not a decimal number with at most six fraction digits.
    MalformedPercentage,
    /// The percentage is above 100.
    PercentageOutOfRange,
}

pub open spec fn is_hex(b: u8) -> bool {
    (48 <= b <= 57) || (65 <= b <= 70) || (97 <= b <= 102)
}

pub open spec fn hex_val(b: u8) -> int {
    if 48 <= b <= 57 {
        b - 48
    } else if 65 <= b <= 70 {
        b - 55
    } else {
        b - 87
    }
}

/// The value of one two-byte channel of a colour string, read in base 16 with an
/// optional leading `+`; a pair that does not read as a number gives 255.
pub open spec fn channel_value(b0: u8, b1: u8) -> int {
    if is_hex(b0) && is_hex(b1) {
        16 * hex_val(b0) + hex_val(b1)
    } else if b0 == 43 && is_hex(b1) {
        hex_val(b1)
    } else {
        255
    }
}

fn hex_digit(b: u8) -> (r: Option<u8>)
    ensures
        r is Some <==> is_hex(b),
        r matches Some(v) ==> v as int == hex_val(b) && v < 16,
{
    if 48 <= b && b <= 57 {
        Some(b - 48)
    } else if 65 <= b && b <= 70 {
        Some(b - 55)
    } else if 97 <= b && b <= 102 {
        Some(b - 87)
    } else {
        None
    }
}

fn read_channel(b0: u8, b1: u8) -> (r: u8)
    ensures
        r as int == channel_value(b0, b1),
{
    match (hex_digit(b0), hex_digit(b1)) {
        (Some(h), Some(l)) => h * 16 + l,
        (None, Some(l)) => if b0 == 43 {
            l
        } else {
            255
        },
        _ => 255,
    }
}

/// Parses a base colour written as six hexadecimal digits `RRGGBB`.
pub fn parse_color(s: &str) -> (r: Result<Color, ConfigError>)
    ensures
        r is Err <==> s.spec_bytes().len() != 6,
        r matches Err(e) ==> e == ConfigError::ColorLength,
        r matches Ok(c) ==> {
            let b = s.spec_bytes();
            &&& c.r as int == channel_value(b[0], b[1])
            &&& c.g as int == channel_value(b[2], b[3])
            &&& c.b as int == channel_value(b[4], b[5])
        },
{
    let b = s.as_bytes();
    if b.len() != 6 {
        return Err(ConfigError::ColorLength);
    }
    Ok(
        Color {
            r: read_channel(b[0], b[1]),
            g: read_channel(b[2], b[3]),
            b: read_channel(b[4], b[5]),
        },
    )
}

pub open spec fn is_digit(b: u8) -> bool {
    48 <= b <= 57
}

pub open spec fn all_digits(s: Seq<u8>) -> bool {
    forall|i: int| 0 <= i < s.len() ==> is_digit(#[trigger] s[i])
}

/// The number that a string of decimal digits denotes.
pub open spec fn decimal(s: Seq<u8>) -> nat
    decreases s.len(),
{
    if s.len() == 0 {
        0
    } else {
        decimal(s.drop_last()) * 10 + (s.last() - 48) as nat
    }
}

pub open spec fn pow10(n: nat) -> nat
    decreases n,
{
    if n == 0 {
        1
    } else {
        10 * pow10((n - 1) as nat)
    }
}

/// Largest number of digits a percentage may have after its decimal point.
pub const MAX_FRACTION_DIGITS: usize = 6;

/// `s` is digits, a point at index `d`, and one to six more digits.
pub open spec fn point_at(s: Seq<u8>, d: int) -> bool {
    &&& 0 < d < s.len()
    &&& s[d] == 46
    &&& all_digits(s.take(d))
    &&& all_digits(s.skip(d + 1))
    &&& 1 <= s.len() - d - 1 <= MAX_FRACTION_DIGITS
}

/// `s` reads as a non-negative decimal number.
pub open spec fn well_formed_percentage(s: Seq<u8>) -> bool {
    (s.len() > 0 && all_digits(s)) || exists|d: int| point_at(s, d)
}

/// The fraction `num / den` that a well-formed percentage string denotes, as a
/// ratio (so "60" gives 60/100 and "55.5" gives 555/1000).
pub open spec fn percentage_ratio(s: Seq<u8>) -> (nat, nat) {
    if all_digits(s) {
        (decimal(s), 100)
    } else {
        let d = choose|d: int| point_at(s, d);
        let f = (s.len() - d - 1) as nat;
        (decimal(s.take(d)) * pow10(f) + decimal(s.skip(d + 1)), 100 * pow10(f))
    }
}

proof fn lemma_decimal_bound(s: Seq<u8>)
    requires
        all_digits(s),
    ensures
        decimal(s) < pow10(s.len()),
    decreases s.len(),
{
    if s.len() > 0 {
        assert(all_digits(s.drop_last()));
        lemma_decimal_bound(s.drop_last());
        assert(is_digit(s[s.len() - 1]));
    }
}

/// Bound above which a decimal read stops tracking the exact value.
const READ_CAP: u64 = 1_000_000;

/// Reads the digits `s[lo..hi]`; the result is exact up to `READ_CAP` and stays
/// above it for larger numbers.
fn read_decimal(s: &[u8], lo: usize, hi: usize) -> (r: u64)
    requires
        lo <= hi <= s@.len(),
        all_digits(s@.subrange(lo as int, hi as int)),
    ensures
        decimal(s@.subrange(lo as int, hi as int)) <= READ_CAP ==> r == decimal(
            s@.subrange(lo as int, hi as int),
        ),
        decimal(s@.subrange(lo as int, hi as int)) > READ_CAP ==> r > READ_CAP,
        r <= 10 * READ_CAP + 9,
{
    let mut acc: u64 = 0;
    let mut i: usize = lo;
    while i < hi
        invariant
            lo <= i <= hi <= s@.len(),
            all_digits(s@.subrange(lo as int, hi as int)),
            decimal(s@.subrange(lo as int, i as int)) <= READ_CAP ==> acc == decimal(
                s@.subrange(lo as int, i as int),
            ),
            decimal(s@.subrange(lo as int, i as int)) > READ_CAP ==> acc > READ_CAP,
            acc <= 10 * READ_CAP + 9,
        decreases hi - i,
    {
        let ghost prev = s@.subrange(lo as int, i as int);
        let ghost next = s@.subrange(lo as int, i as int + 1);
        assert(next.drop_last() == prev);
        assert(s@[i as int] == s@.subrange(lo as int, hi as int)[i - lo]);
        let digit = (s[i] - 48) as u64;
        if acc <= READ_CAP {
            acc = acc * 10 + digit;
        }
        assert(decimal(next) == decimal(prev) * 10 + digit);
        i = i + 1;
    }
    acc
}

/// Finds the first decimal point in `s`, or `s.len()` where there is none.
fn find_point(s: &[u8]) -> (d: usize)
    ensures
        d <= s@.len(),
        d < s@.len() ==> s@[d as int] == 46,
        forall|j: int| 0 <= j < d ==> s@[j] != 46,
{
    let mut i: usize = 0;
    while i < s.len()
        invariant
            i <= s@.len(),
            forall|j: int| 0 <= j < i ==> s@[j] != 46,
        decreases s@.len() - i,
    {
        if s[i] == 46 {
            return i;
        }
        i = i + 1;
    }
    i
}

fn all_digits_in(s: &[u8], lo: usize, hi: usize) -> (r: bool)
    requires
        lo <= hi <= s@.len(),
    ensures
        r == all_digits(s@.subrange(lo as int, hi as int)),
{
    let mut i: usize = lo;
    while i < hi
        invariant
            lo <= i <= hi <= s@.len(),
            all_digits(s@.subrange(lo as int, i as int)),
        decreases hi - i,
    {
        if !(48 <= s[i] && s[i] <= 57) {
            assert(!is_digit(s@.subrange(lo as int, hi as int)[i - lo]));
            return false;
        }
        assert(forall|j: int|
            0 <= j < i + 1 - lo ==> #[trigger] s@.subrange(lo as int, i as int + 1)[j] == s@[lo
                + j]);
        i = i + 1;
    }
    true
}


proof fn lemma_pow10_monotone(a: nat, b: nat)
    requires
        a <= b,
    ensures
        1 <= pow10(a) <= pow10(b),
    decreases b,
{
    if a < b {
        lemma_pow10_monotone(a, (b - 1) as nat);
    } else if a > 0 {
        lemma_pow10_monotone((a - 1) as nat, (a - 1) as nat);
    }
}

fn pow10_exec(n: usize) -> (r: u64)
    requires
        n <= MAX_FRACTION_DIGITS,
    ensures
        r as nat == pow10(n as nat),
        1 <= r <= READ_CAP,
{
    proof {
        lemma_pow10_monotone(0, n as nat);
    }
    proof {
        reveal_with_fuel(pow10, 7);
        lemma_pow10_monotone(n as nat, MAX_FRACTION_DIGITS as nat);
    }
    let mut p: u64 = 1;
    let mut i: usize = 0;
    while i < n
        invariant
            i <= n <= MAX_FRACTION_DIGITS,
            p as nat == pow10(i as nat),
            pow10(n as nat) <= READ_CAP,
        decreases n - i,
    {
        proof {
            lemma_pow10_monotone((i + 1) as nat, n as nat);
        }
        p = p * 10;
        i = i + 1;
    }
    p
}

/// Parses a percentage such as "60" or "55.5" into the ratio it denotes.
pub fn parse_percentage(s: &str) -> (r: Result<Ratio, ConfigError>)
    ensures
        r == Err::<Ratio, ConfigError>(ConfigError::MalformedPercentage) <==> !well_formed_percentage(
            s.spec_bytes(),
        ),
        r == Err::<Ratio, ConfigError>(ConfigError::PercentageOutOfRange) <==> (
        well_formed_percentage(s.spec_bytes()) && percentage_ratio(s.spec_bytes()).0
            > percentage_ratio(s.spec_bytes()).1),
        r is Ok <==> (well_formed_percentage(s.spec_bytes()) && percentage_ratio(
            s.spec_bytes(),
        ).0 <= percentage_ratio(s.spec_bytes()).1),
        r matches Ok(q) ==> q.wf() && q.num == percentage_ratio(s.spec_bytes()).0 && q.den
            == percentage_ratio(s.spec_bytes()).1,
{
    let b = s.as_bytes();
    let len = b.len();
    let ghost bs = b@;
    if len == 0 {
        return Err(ConfigError::MalformedPercentage);
    }
    let d = find_point(b);
    proof {
        assert(bs.subrange(0, len as int) == bs);
    }
    if d == len {
        if !all_digits_in(b, 0, len) {
            assert forall|k: int| !point_at(bs, k) by {
                if 0 < k < bs.len() {
                    assert(bs[k] != 46);
                }
            }
            return Err(ConfigError::MalformedPercentage);
        }
        let v = read_decimal(b, 0, len);
        if v > 100 {
            return Err(ConfigError::PercentageOutOfRange);
        }
        return Ok(Ratio { num: v, den: 100 });
    }
    assert(!all_digits(bs)) by {
        assert(!is_digit(bs[d as int]));
    }
    let f: usize = len - d - 1;
    assert(bs.take(d as int) == bs.subrange(0, d as int));
    assert(bs.skip(d + 1) == bs.subrange(d + 1, len as int));
    proof {
        assert forall|k: int| point_at(bs, k) implies k == d by {
            if k > d {
                assert(bs.take(k)[d as int] == bs[d as int]);
            } else if k < d {
                assert(bs[k] != 46);
            }
        }
    }
    if d == 0 || f == 0 || f > MAX_FRACTION_DIGITS || !all_digits_in(b, 0, d) || !all_digits_in(
        b,
        d + 1,
        len,
    ) {
        return Err(ConfigError::MalformedPercentage);
    }
    assert(point_at(bs, d as int));
    let ghost ip_digits = bs.take(d as int);
    let ghost fp_digits = bs.skip(d + 1);
    let ip = read_decimal(b, 0, d);
    let p = pow10_exec(f);
    proof {
        lemma_decimal_bound(fp_digits);
        lemma_pow10_monotone(f as nat, MAX_FRACTION_DIGITS as nat);
        reveal_with_fuel(pow10, 7);
        assert(pow10(MAX_FRACTION_DIGITS as nat) == READ_CAP);
    }
    let fp = read_decimal(b, d + 1, len);
    assert(fp as nat == decimal(fp_digits) && fp < p);
    if ip > 100 {
        assert(decimal(ip_digits) * pow10(f as nat) + decimal(fp_digits) > 100 * pow10(f as nat))
            by (nonlinear_arith)
            requires
                decimal(ip_digits) > 100,
                pow10(f as nat) >= 1,
        ;
        return Err(ConfigError::PercentageOutOfRange);
    }
    assert(ip * p <= 100 * READ_CAP) by (nonlinear_arith)
        requires
            ip <= 100,
            p <= READ_CAP,
    ;
    let num: u64 = ip * p + fp;
    let den: u64 = 100 * p;
    if num > den {
        return Err(ConfigError::PercentageOutOfRange);
    }
    Ok(Ratio { num, den })
}

/// Builds the tonemap policy from the command-line settings: giving a base colour
/// selects the fixed mode, and the fixed mode's base colour is white by default.
pub fn make_policy(percentage: &str, fixed: bool, color: Option<&str>) -> (r: Result<
    Policy,
    ConfigError,
>)
    ensures
        r matches Ok(p) ==> p.wf(),
        ({
            let pr = percentage_ratio(percentage.spec_bytes());
            match color {
                Some(c) => {
                    if c.spec_bytes().len() != 6 {
                        r == Err::<Policy, ConfigError>(ConfigError::ColorLength)
                    } else if !well_formed_percentage(percentage.spec_bytes()) {
                        r == Err::<Policy, ConfigError>(ConfigError::MalformedPercentage)
                    } else if pr.0 > pr.1 {
                        r == Err::<Policy, ConfigError>(ConfigError::PercentageOutOfRange)
                    } else {
                        let b = c.spec_bytes();
                        r matches Ok(Policy::Fixed { ratio, base }) && ratio.num == pr.0
                            && ratio.den == pr.1 && base.r as int == channel_value(b[0], b[1])
                            && base.g as int == channel_value(b[2], b[3]) && base.b as int
                            == channel_value(b[4], b[5])
                    }
                },
                None => {
                    if !well_formed_percentage(percentage.spec_bytes()) {
                        r == Err::<Policy, ConfigError>(ConfigError::MalformedPercentage)
                    } else if pr.0 > pr.1 {
                        r == Err::<Policy, ConfigError>(ConfigError::PercentageOutOfRange)
                    } else if fixed {
                        r matches Ok(Policy::Fixed { ratio, base }) && ratio.num == pr.0
                            && ratio.den == pr.1 && base == (Color { r: 255, g: 255, b: 255 })
                    } else {
                        r matches Ok(Policy::Proportional { ratio }) && ratio.num == pr.0
                            && ratio.den == pr.1
                    }
                },
            }
        }),
{
    let base = match color {
        Some(c) => match parse_color(c) {
            Ok(v) => Some(v),
            Err(e) => {
                return Err(e);
            },
        },
        None => None,
    };
    let ratio = match parse_percentage(percentage) {
        Ok(q) => q,
        Err(e) => {
            return Err(e);
        },
    };
    match base {
        Some(b) => Ok(Policy::Fixed { ratio, base: b }),
        None => if fixed {
            Ok(Policy::Fixed { ratio, base: Color { r: 255, g: 255, b: 255 } })
        } else {
            Ok(Policy::Proportional { ratio })
        },
    }
}

} // verus!
