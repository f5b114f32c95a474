//! Amounts of currency: checked satoshi arithmetic, and parsing and
//! formatting of decimal amount strings in a chosen denomination.

use vstd::prelude::*;
use vstd::utf8::encode_utf8;

use crate::util::text::dec_chars;
use crate::util::text::push_char;
use crate::util::text::push_dec_u64;
use crate::util::text::str_chars;
use crate::util::text::str_eq;

verus! {

/// A denomination an amount can be written in.
#[derive(Debug, Clone, Copy, Eq, PartialEq, Hash, Structural)]
pub enum Denomination {
    /// One hundred million satoshi.
    Bitcoin,
    /// One hundred thousand satoshi.
    MilliBitcoin,
    /// One hundred satoshi.
    MicroBitcoin,
    /// One hundred satoshi.
    Bit,
    /// One satoshi.
    Satoshi,
    /// One thousandth of a satoshi.
    MilliSatoshi,
}

/// The number of decimal places each denomination carries beyond a satoshi:
/// negative for coarser units, positive for finer ones.
pub open spec fn precision_of(d: Denomination) -> int {
    match d {
        Denomination::Bitcoin => -8,
        Denomination::MilliBitcoin => -5,
        Denomination::MicroBitcoin => -2,
        Denomination::Bit => -2,
        Denomination::Satoshi => 0,
        Denomination::MilliSatoshi => 3,
    }
}

/// The abbreviation each denomination is written with.
pub open spec fn denom_name(d: Denomination) -> Seq<char> {
    match d {
        Denomination::Bitcoin => "BTC"@,
        Denomination::MilliBitcoin => "mBTC"@,
        Denomination::MicroBitcoin => "uBTC"@,
        Denomination::Bit => "bits"@,
        Denomination::Satoshi => "satoshi"@,
        Denomination::MilliSatoshi => "msat"@,
    }
}

/// The denomination an abbreviation stands for, if any. `sat` is accepted
/// as a second name for satoshi.
pub open spec fn denom_of_name(s: Seq<char>) -> Option<Denomination> {
    if s == "BTC"@ {
        Some(Denomination::Bitcoin)
    } else if s == "mBTC"@ {
        Some(Denomination::MilliBitcoin)
    } else if s == "uBTC"@ {
        Some(Denomination::MicroBitcoin)
    } else if s == "bits"@ {
        Some(Denomination::Bit)
    } else if s == "satoshi"@ {
        Some(Denomination::Satoshi)
    } else if s == "sat"@ {
        Some(Denomination::Satoshi)
    } else if s == "msat"@ {
        Some(Denomination::MilliSatoshi)
    } else {
        None
    }
}

impl Denomination {
    /// The number of decimal places this denomination carries beyond a
    /// satoshi.
    fn precision(self) -> (r: i32)
        ensures
            r == precision_of(self),
    {
        match self {
            Denomination::Bitcoin => -8,
            Denomination::MilliBitcoin => -5,
            Denomination::MicroBitcoin => -2,
            Denomination::Bit => -2,
            Denomination::Satoshi => 0,
            Denomination::MilliSatoshi => 3,
        }
    }

    /// This denomination's abbreviation.
    pub fn to_string(&self) -> (r: String)
        ensures
            r@ == denom_name(*self),
    {
        let mut s = String::new();
        match *self {
            Denomination::Bitcoin => s.append("BTC"),
            Denomination::MilliBitcoin => s.append("mBTC"),
            Denomination::MicroBitcoin => s.append("uBTC"),
            Denomination::Bit => s.append("bits"),
            Denomination::Satoshi => s.append("satoshi"),
            Denomination::MilliSatoshi => s.append("msat"),
        }
        s
    }

    /// The denomination with the given abbreviation, or the unknown-
    /// denomination error carrying the offending text.
    pub fn from_name(s: &str) -> (r: Result<Denomination, ParseAmountError>)
        ensures
            match r {
                Ok(d) => denom_of_name(s@) == Some(d),
                Err(e) => denom_of_name(s@) is None && (e matches
                    ParseAmountError::UnknownDenomination(t) && t@ == s@),
            },
    {
        if str_eq(s, "BTC") {
            Ok(Denomination::Bitcoin)
        } else if str_eq(s, "mBTC") {
            Ok(Denomination::MilliBitcoin)
        } else if str_eq(s, "uBTC") {
            Ok(Denomination::MicroBitcoin)
        } else if str_eq(s, "bits") {
            Ok(Denomination::Bit)
        } else if str_eq(s, "satoshi") {
            Ok(Denomination::Satoshi)
        } else if str_eq(s, "sat") {
            Ok(Denomination::Satoshi)
        } else if str_eq(s, "msat") {
            Ok(Denomination::MilliSatoshi)
        } else {
            Err(ParseAmountError::UnknownDenomination(s.to_owned()))
        }
    }
}

impl core::str::FromStr for Denomination {
    type Err = ParseAmountError;

    fn from_str(s: &str) -> Result<Denomination, ParseAmountError> {
        Denomination::from_name(s)
    }
}

/// The ways parsing an amount string can fail.
#[derive(Debug, Clone, PartialEq, Eq)]
pub enum ParseAmountError {
    /// The amount is negative, in a context that only takes unsigned
    /// amounts.
    Negative,
    /// The amount is too big to fit inside the type.
    TooBig,
    /// The amount has higher-than-supported decimal precision.
    TooPrecise,
    /// Invalid number format.
    InvalidFormat,
    /// The input string was too large.
    InputTooLarge,
    /// Invalid character in the input string.
    InvalidCharacter(char),
    /// The denomination did not match a known one.
    UnknownDenomination(String),
}

/// The digit characters have higher precision than the given denomination
/// allows losslessly: there is a decimal point, or fewer digits than must be
/// cut, or a cut digit is not zero.
pub open spec fn too_precise(s: Seq<char>, p: int) -> bool {
    ||| s.contains('.')
    ||| p > s.len()
    ||| exists|i: int| s.len() - p <= i < s.len() && s[i] != '0'
}

/// The value of an optional decimal count, zero when absent.
pub open spec fn opt_or_zero(o: Option<int>) -> int {
    match o {
        Some(d) => d,
        None => 0,
    }
}

/// One pass over the digit characters from position `j` with the value
/// accumulated so far, the count of decimals seen past a decimal point, and
/// the number of decimals allowed: the accumulated value with overflow
/// checked at every digit, or the first failure.
pub open spec fn scan(
    chars: Seq<char>,
    j: int,
    value: u64,
    decimals: Option<int>,
    md: int,
) -> Result<(u64, Option<int>), ParseAmountError>
    decreases chars.len() - j,
    when 0 <= j <= chars.len()
{
    if j == chars.len() {
        Ok((value, decimals))
    } else {
        let c = chars[j];
        let u = c as u32;
        if 48 <= u <= 57 {
            let digit = (u - 48) as int;
            if 10 * (value as int) + digit > u64::MAX {
                Err(ParseAmountError::TooBig)
            } else {
                let value2 = (10 * (value as int) + digit) as u64;
                match decimals {
                    None => scan(chars, j + 1, value2, None, md),
                    Some(d) => if d < md {
                        scan(chars, j + 1, value2, Some(d + 1), md)
                    } else {
                        Err(ParseAmountError::TooPrecise)
                    },
                }
            }
        } else if c == '.' {
            match decimals {
                None => scan(chars, j + 1, value, Some(0), md),
                Some(d) => Err(ParseAmountError::InvalidFormat),
            }
        } else {
            Err(ParseAmountError::InvalidCharacter(c))
        }
    }
}

/// Decimally shift the value left `k` times, with overflow checked at every
/// step.
pub open spec fn scale(value: u64, k: int) -> Result<u64, ParseAmountError>
    decreases k,
{
    if k <= 0 {
        Ok(value)
    } else if 10 * (value as int) > u64::MAX {
        Err(ParseAmountError::TooBig)
    } else {
        scale((10 * (value as int)) as u64, k - 1)
    }
}

/// What parsing a decimal string in the given denomination yields: whether
/// the amount is negative and its magnitude in satoshi, or the failure. For
/// a denomination finer than a satoshi the trailing digits that stand for
/// fractional satoshi must all be zero, and are cut before scanning.
pub open spec fn parse_sats(chars: Seq<char>, denom: Denomination) -> Result<
    (bool, u64),
    ParseAmountError,
> {
    if chars.len() == 0 {
        Err(ParseAmountError::InvalidFormat)
    } else {
        let neg = chars[0] == '-';
        let body0 = if neg {
            chars.skip(1)
        } else {
            chars
        };
        if neg && body0.len() == 0 {
            Err(ParseAmountError::InvalidFormat)
        } else {
            let pd = 0 - precision_of(denom);
            if pd < 0 {
                let last_n = 0 - pd;
                if too_precise(body0, last_n) {
                    Err(ParseAmountError::TooPrecise)
                } else {
                    let body = body0.take(body0.len() - last_n);
                    match scan(body, 0, 0u64, None, 0) {
                        Ok(p) => match scale(p.0, 0 - opt_or_zero(p.1)) {
                            Ok(v) => Ok((neg, v)),
                            Err(e) => Err(e),
                        },
                        Err(e) => Err(e),
                    }
                }
            } else {
                match scan(body0, 0, 0u64, None, pd) {
                    Ok(p) => match scale(p.0, pd - opt_or_zero(p.1)) {
                        Ok(v) => Ok((neg, v)),
                        Err(e) => Err(e),
                    },
                    Err(e) => Err(e),
                }
            }
        }
    }
}

/// What parsing the whole input yields: an empty input and an input of more
/// than fifty bytes are rejected before anything is scanned.
pub open spec fn parse_sats_chars(chars: Seq<char>, denom: Denomination) -> Result<
    (bool, u64),
    ParseAmountError,
> {
    if chars.len() == 0 {
        Err(ParseAmountError::InvalidFormat)
    } else if encode_utf8(chars).len() > 50 {
        Err(ParseAmountError::InputTooLarge)
    } else {
        parse_sats(chars, denom)
    }
}

/// See [`parse_sats_chars`], applied to a string's characters.
pub open spec fn parse_sats_str(s: &str, denom: Denomination) -> Result<
    (bool, u64),
    ParseAmountError,
> {
    parse_sats_chars(s@, denom)
}

/// What parsing an unsigned amount yields: a negative amount and a
/// magnitude beyond the signed 64-bit range are rejected.
pub open spec fn amount_from_chars(chars: Seq<char>, denom: Denomination) -> Result<
    u64,
    ParseAmountError,
> {
    match parse_sats_chars(chars, denom) {
        Ok(p) => if p.0 {
            Err(ParseAmountError::Negative)
        } else if p.1 > 0x7FFF_FFFF_FFFF_FFFF {
            Err(ParseAmountError::TooBig)
        } else {
            Ok(p.1)
        },
        Err(e) => Err(e),
    }
}

/// What parsing a signed amount yields: a magnitude beyond the signed
/// 64-bit range is rejected, and the sign is applied.
pub open spec fn samount_from_chars(chars: Seq<char>, denom: Denomination) -> Result<
    i64,
    ParseAmountError,
> {
    match parse_sats_chars(chars, denom) {
        Ok(p) => if p.1 > 0x7FFF_FFFF_FFFF_FFFF {
            Err(ParseAmountError::TooBig)
        } else if p.0 {
            Ok((0 - p.1 as int) as i64)
        } else {
            Ok(p.1 as i64)
        },
        Err(e) => Err(e),
    }
}

/// The position of the first space character at or after `j`, or the length
/// when there is none.
pub open spec fn first_space(s: Seq<char>, j: int) -> int
    decreases s.len() - j,
    when 0 <= j <= s.len()
{
    if j == s.len() {
        j
    } else if s[j] == ' ' {
        j
    } else {
        first_space(s, j + 1)
    }
}

/// The trailing characters that stand for fractional satoshi cannot be cut
/// losslessly.
fn is_too_precise(chars: &Vec<char>, start: usize, precision: usize) -> (r: bool)
    requires
        start <= chars@.len(),
    ensures
        r == too_precise(chars@.skip(start as int), precision as int),
{
    let ghost s = chars@.skip(start as int);
    let n = chars.len();
    let mut i: usize = start;
    while i < n
        invariant
            start <= i <= n,
            n == chars@.len(),
            s == chars@.skip(start as int),
            forall|j: int| 0 <= j < i - start ==> s[j] != '.',
        decreases n - i,
    {
        if chars[i] == '.' {
            proof {
                assert(s[i - start] == '.');
            }
            return true;
        }
        i = i + 1;
    }
    if precision > n - start {
        return true;
    }
    let mut i: usize = n - precision;
    while i < n
        invariant
            n - precision <= i <= n,
            n == chars@.len(),
            start <= n - precision,
            s == chars@.skip(start as int),
            forall|j: int| n - precision - start <= j < i - start ==> s[j] == '0',
        decreases n - i,
    {
        if chars[i] != '0' {
            proof {
                assert(s[i - start] != '0');
            }
            return true;
        }
        i = i + 1;
    }
    proof {
        assert(!s.contains('.')) by {
            assert(forall|j: int| 0 <= j < s.len() ==> s[j] != '.');
        }
        assert(!(exists|j: int| s.len() - precision <= j < s.len() && s[j] != '0'));
    }
    false
}

/// Parse a decimal string in the given denomination into a satoshi
/// magnitude and a flag for a negative amount.
#[verifier::loop_isolation(false)]
pub fn parse_signed_to_satoshi(s: &str, denom: Denomination) -> (r: Result<
    (bool, u64),
    ParseAmountError,
>)
    ensures
        r == parse_sats_str(s, denom),
{
    let sbytes = s.as_bytes();
    proof {
        lemma_encode_utf8_len_zero(s@);
    }
    if sbytes.len() == 0 {
        return Err(ParseAmountError::InvalidFormat);
    }
    if sbytes.len() > 50 {
        return Err(ParseAmountError::InputTooLarge);
    }
    let chars = str_chars(s);
    let negative = chars[0] == '-';
    let start: usize = if negative {
        if chars.len() == 1 {
            return Err(ParseAmountError::InvalidFormat);
        }
        1
    } else {
        0
    };
    let ghost body0 = chars@.skip(start as int);
    proof {
        assert(chars@.skip(0) =~= chars@);
    }
    let mut end = chars.len();
    let mut max_decimals: i32 = 0;
    let p = denom.precision();
    if p > 0 {
        // parsing into a unit finer than a satoshi: the digits standing for
        // fractional satoshi must all be zero, and are cut
        let last_n = p as usize;
        if is_too_precise(&chars, start, last_n) {
            return Err(ParseAmountError::TooPrecise);
        }
        end = end - last_n;
        max_decimals = 0;
    } else {
        max_decimals = -p;
    }
    let ghost body = chars@.subrange(start as int, end as int);
    proof {
        if p > 0 {
            assert(body =~= body0.take(body0.len() - (p as int)));
        } else {
            assert(body =~= body0);
        }
    }
    let mut decimals: Option<i32> = None;
    let mut value: u64 = 0;
    let mut i: usize = start;
    while i < end
        invariant
            start <= i <= end,
            (match decimals {
                Some(d) => 0 <= d <= max_decimals,
                None => true,
            }),
            scan(
                body,
                i - start,
                value,
                match decimals {
                    Some(d) => Some(d as int),
                    None => None,
                },
                max_decimals as int,
            ) == scan(body, 0, 0u64, None, max_decimals as int),
        decreases end - i,
    {
        let c = chars[i];
        let u = c as u32;
        proof {
            assert(body[i - start] == chars@[i as int]);
        }
        if 48 <= u && u <= 57 {
            let digit = (u - 48) as u64;
            value = match value.checked_mul(10) {
                None => {
                    return Err(ParseAmountError::TooBig);
                },
                Some(val) => match val.checked_add(digit) {
                    None => {
                        return Err(ParseAmountError::TooBig);
                    },
                    Some(val2) => val2,
                },
            };
            decimals = match decimals {
                None => None,
                Some(d) => if d < max_decimals {
                    Some(d + 1)
                } else {
                    return Err(ParseAmountError::TooPrecise);
                },
            };
        } else if c == '.' {
            decimals = match decimals {
                None => Some(0),
                Some(_) => {
                    return Err(ParseAmountError::InvalidFormat);
                },
            };
        } else {
            return Err(ParseAmountError::InvalidCharacter(c));
        }
        i = i + 1;
    }
    let dec_count: i32 = match decimals {
        Some(d) => d,
        None => 0,
    };
    let scale_factor = max_decimals - dec_count;
    let ghost value_scanned = value;
    let ghost dec_spec: Option<int> = match decimals {
        Some(d) => Some(d as int),
        None => None,
    };
    proof {
        assert(scan(body, 0, 0u64, None, max_decimals as int) == Ok::<
            (u64, Option<int>),
            ParseAmountError,
        >((value_scanned, dec_spec)));
        assert(parse_sats(s@, denom) == (match scale(value_scanned, scale_factor as int) {
            Ok(v) => Ok::<(bool, u64), ParseAmountError>((negative, v)),
            Err(e) => Err::<(bool, u64), ParseAmountError>(e),
        }));
    }
    let mut k: i32 = 0;
    while k < scale_factor
        invariant
            0 <= k <= scale_factor,
            scale(value, (scale_factor - k) as int) == scale(
                value_scanned,
                scale_factor as int,
            ),
        decreases scale_factor - k,
    {
        value = match value.checked_mul(10) {
            Some(v) => v,
            None => {
                return Err(ParseAmountError::TooBig);
            },
        };
        k = k + 1;
    }
    proof {
        assert(scale(value_scanned, scale_factor as int) == Ok::<u64, ParseAmountError>(value));
    }
    Ok((negative, value))
}

/// The rendering of a satoshi magnitude in a denomination: a sign, then the
/// digits, with zeros appended for a finer unit and a decimal point inserted
/// for a coarser one.
pub open spec fn fmt_sats(sat: nat, negative: bool, denom: Denomination) -> Seq<char> {
    let sign: Seq<char> = if negative {
        "-"@
    } else {
        Seq::empty()
    };
    let p = precision_of(denom);
    let ds = dec_chars(sat);
    if p > 0 {
        sign + ds + Seq::new(p as nat, |i: int| '0')
    } else if p < 0 {
        let nb = 0 - p;
        let padded = if ds.len() >= nb {
            ds
        } else {
            Seq::new((nb - ds.len()) as nat, |i: int| '0') + ds
        };
        if padded.len() == nb {
            sign + "0."@ + padded
        } else {
            sign + padded.take(padded.len() - nb) + "."@ + padded.skip(padded.len() - nb)
        }
    } else {
        sign + ds
    }
}

/// The character for one decimal digit value.
fn digit_char_of(d: u8) -> (c: char)
    requires
        d < 10,
    ensures
        c == crate::util::text::digit_char(d as int),
{
    match d {
        0 => '0',
        1 => '1',
        2 => '2',
        3 => '3',
        4 => '4',
        5 => '5',
        6 => '6',
        7 => '7',
        8 => '8',
        _ => '9',
    }
}

/// The decimal digits of a number, as characters.
fn dec_chars_vec(v: u64) -> (r: Vec<char>)
    ensures
        r@ == dec_chars(v as nat),
    decreases v,
{
    if v < 10 {
        let mut r: Vec<char> = Vec::new();
        r.push(digit_char_of(v as u8));
        proof {
            assert(r@ =~= dec_chars(v as nat));
        }
        r
    } else {
        let mut r = dec_chars_vec(v / 10);
        r.push(digit_char_of((v % 10) as u8));
        r
    }
}

/// Append the characters of `v` between `from` and `to` to `f`.
#[verifier::loop_isolation(false)]
fn push_chars(f: &mut String, v: &Vec<char>, from: usize, to: usize)
    requires
        from <= to <= v@.len(),
    ensures
        final(f)@ == old(f)@ + v@.subrange(from as int, to as int),
{
    let mut i = from;
    proof {
        assert(f@ =~= old(f)@ + v@.subrange(from as int, from as int));
    }
    while i < to
        invariant
            from <= i <= to,
            f@ == old(f)@ + v@.subrange(from as int, i as int),
        decreases to - i,
    {
        push_char(f, v[i]);
        proof {
            assert(v@.subrange(from as int, i + 1) =~= v@.subrange(from as int, i as int).push(
                v@[i as int],
            ));
        }
        i = i + 1;
    }
}

/// Format the given satoshi magnitude in the given denomination, appending
/// it to the buffer.
#[verifier::loop_isolation(false)]
#[verifier::rlimit(100)]
pub fn fmt_satoshi_in(satoshi: u64, negative: bool, f: &mut String, denom: Denomination)
    ensures
        final(f)@ == old(f)@ + fmt_sats(satoshi as nat, negative, denom),
{
    proof {
        reveal_strlit("0");
    }
    let ghost sign: Seq<char> = if negative {
        "-"@
    } else {
        Seq::empty()
    };
    if negative {
        f.append("-");
    }
    proof {
        assert(f@ =~= old(f)@ + sign);
    }
    let p = denom.precision();
    if p > 0 {
        // a unit finer than a satoshi: append zeros for the fraction
        push_dec_u64(f, satoshi);
        let ghost base = f@;
        let mut i: i32 = 0;
        while i < p
            invariant
                0 <= i <= p,
                f@ == base + Seq::new(i as nat, |j: int| '0'),
            decreases p - i,
        {
            f.append("0");
            proof {
                assert(f@ =~= base + Seq::new((i + 1) as nat, |j: int| '0'));
            }
            i = i + 1;
        }
        proof {
            assert(f@ =~= old(f)@ + fmt_sats(satoshi as nat, negative, denom));
        }
    } else if p < 0 {
        // a coarser unit: inject a decimal point
        let nb = (0 - p) as usize;
        let digits = dec_chars_vec(satoshi);
        let mut whole: Vec<char> = Vec::new();
        let dlen = digits.len();
        if dlen < nb {
            let pad = nb - dlen;
            let mut z: usize = 0;
            while z < pad
                invariant
                    0 <= z <= pad,
                    whole@ == Seq::new(z as nat, |j: int| '0'),
                decreases pad - z,
            {
                whole.push('0');
                proof {
                    assert(whole@ =~= Seq::new((z + 1) as nat, |j: int| '0'));
                }
                z = z + 1;
            }
        }
        let mut digits = digits;
        whole.append(&mut digits);
        let ghost realv = whole@;
        proof {
            let ds = dec_chars(satoshi as nat);
            if dlen >= nb {
                assert(realv =~= ds);
            } else {
                assert(realv =~= Seq::new((nb - ds.len()) as nat, |j: int| '0') + ds);
            }
        }
        if whole.len() == nb {
            f.append("0.");
            push_chars(f, &whole, 0, nb);
            proof {
                reveal_strlit("0.");
                assert(realv.subrange(0, nb as int) =~= realv);
                assert("0."@ =~= seq!['0', '.']);
                assert(f@ =~= old(f)@ + fmt_sats(satoshi as nat, negative, denom));
            }
        } else {
            let cut = whole.len() - nb;
            push_chars(f, &whole, 0, cut);
            f.append(".");
            push_chars(f, &whole, cut, whole.len());
            proof {
                assert(realv.subrange(0, cut as int) =~= realv.take(cut as int));
                assert(realv.subrange(cut as int, realv.len() as int) =~= realv.skip(cut as int));
                assert(f@ =~= old(f)@ + fmt_sats(satoshi as nat, negative, denom));
            }
        }
    } else {
        push_dec_u64(f, satoshi);
        proof {
            assert(f@ =~= old(f)@ + fmt_sats(satoshi as nat, negative, denom));
        }
    }
}

/// Encoding no characters takes no bytes, and at least one character takes
/// at least one byte./// Encoding no characters takes no bytes, and at least one character takes
/// at least one byte.
proof fn lemma_encode_utf8_len_zero(s: Seq<char>)
    ensures
        (encode_utf8(s).len() == 0) == (s.len() == 0),
{
    if s.len() > 0 {
        vstd::utf8::char_is_scalar(s[0]);
        assert(vstd::utf8::encode_scalar(s[0] as u32).len() >= 1);
    }
}


/// The position of the first space at or after `from`, or the length when
/// there is none.
fn find_space(chars: &Vec<char>, from: usize) -> (r: usize)
    requires
        from <= chars@.len(),
    ensures
        r == first_space(chars@, from as int),
        from <= r <= chars@.len(),
{
    let n = chars.len();
    let mut i = from;
    while i < n
        invariant
            from <= i <= n,
            n == chars@.len(),
            first_space(chars@, from as int) == first_space(chars@, i as int),
        decreases n - i,
    {
        if chars[i] == ' ' {
            return i;
        }
        i = i + 1;
    }
    i
}

/// Split an amount-with-denomination string at its single space into the
/// amount text and the denomination. More or fewer spaces are an invalid
/// format.
fn split_denom(s: &str) -> (r: Result<(String, Denomination), ParseAmountError>)
    ensures
        ({
            let sv = s@;
            let i = first_space(sv, 0);
            if i == sv.len() || first_space(sv, i + 1) != sv.len() {
                r matches Err(e) && e == ParseAmountError::InvalidFormat
            } else {
                match denom_of_name(sv.skip(i + 1)) {
                    Some(d) => r matches Ok(p) && p.0@ == sv.take(i) && p.1 == d,
                    None => r matches Err(e) && (e matches ParseAmountError::UnknownDenomination(t)
                        && t@ == sv.skip(i + 1)),
                }
            }
        }),
{
    let chars = str_chars(s);
    let n = chars.len();
    let i = find_space(&chars, 0);
    if i == n {
        return Err(ParseAmountError::InvalidFormat);
    }
    let j = find_space(&chars, i + 1);
    if j != n {
        return Err(ParseAmountError::InvalidFormat);
    }
    let mut amt = String::new();
    push_chars(&mut amt, &chars, 0, i);
    let mut dstr = String::new();
    push_chars(&mut dstr, &chars, i + 1, n);
    proof {
        assert(amt@ =~= s@.take(i as int));
        assert(dstr@ =~= s@.skip(i + 1));
    }
    match Denomination::from_name(dstr.as_str()) {
        Ok(d) => Ok((amt, d)),
        Err(e) => Err(e),
    }
}

/// An unsigned amount of currency, counted in satoshi.
#[derive(Copy, Clone, Hash, PartialEq, Eq, PartialOrd, Ord, Debug, Structural)]
pub struct Amount(u64);

impl Amount {
    /// The number of satoshi this amount stands for.
    pub closed spec fn sats(&self) -> u64 {
        self.0
    }

    /// The zero amount.
    pub fn zero() -> (r: Amount)
        ensures
            r.sats() == 0,
    {
        Amount(0)
    }

    /// Exactly one satoshi.
    pub fn one_sat() -> (r: Amount)
        ensures
            r.sats() == 1,
    {
        Amount(1)
    }

    /// Exactly one bitcoin.
    pub fn one_btc() -> (r: Amount)
        ensures
            r.sats() == 100_000_000,
    {
        Amount(100_000_000)
    }

    /// The amount with the given number of satoshi.
    pub fn from_sat(satoshis: u64) -> (r: Amount)
        ensures
            r.sats() == satoshis,
    {
        Amount(satoshis)
    }

    /// The number of satoshi.
    pub fn as_sat(self) -> (r: u64)
        ensures
            r == self.sats(),
    {
        self.0
    }

    /// The largest representable amount.
    pub fn max_value() -> (r: Amount)
        ensures
            r.sats() == u64::MAX,
    {
        Amount(u64::MAX)
    }

    /// The smallest representable amount.
    pub fn min_value() -> (r: Amount)
        ensures
            r.sats() == 0,
    {
        Amount(0)
    }

    /// Checked addition: the sum, or `None` on overflow.
    pub fn checked_add(self, rhs: Amount) -> (r: Option<Amount>)
        ensures
            self.sats() + rhs.sats() <= u64::MAX ==> (r matches Some(a) && a.sats() == self.sats()
                + rhs.sats()),
            self.sats() + rhs.sats() > u64::MAX ==> r is None,
    {
        match self.0.checked_add(rhs.0) {
            Some(v) => Some(Amount(v)),
            None => None,
        }
    }

    /// Checked subtraction: the difference, or `None` on underflow.
    pub fn checked_sub(self, rhs: Amount) -> (r: Option<Amount>)
        ensures
            self.sats() >= rhs.sats() ==> (r matches Some(a) && a.sats() == self.sats()
                - rhs.sats()),
            self.sats() < rhs.sats() ==> r is None,
    {
        match self.0.checked_sub(rhs.0) {
            Some(v) => Some(Amount(v)),
            None => None,
        }
    }

    /// Checked multiplication: the product, or `None` on overflow.
    pub fn checked_mul(self, rhs: u64) -> (r: Option<Amount>)
        ensures
            self.sats() * rhs <= u64::MAX ==> (r matches Some(a) && a.sats() == self.sats() * rhs),
            self.sats() * rhs > u64::MAX ==> r is None,
    {
        match self.0.checked_mul(rhs) {
            Some(v) => Some(Amount(v)),
            None => None,
        }
    }

    /// Checked division: the quotient with the remainder lost, or `None`
    /// for a zero divisor.
    pub fn checked_div(self, rhs: u64) -> (r: Option<Amount>)
        ensures
            rhs != 0 ==> (r matches Some(a) && a.sats() == self.sats() / rhs),
            rhs == 0 ==> r is None,
    {
        match self.0.checked_div(rhs) {
            Some(v) => Some(Amount(v)),
            None => None,
        }
    }

    /// Checked remainder, or `None` for a zero divisor.
    pub fn checked_rem(self, rhs: u64) -> (r: Option<Amount>)
        ensures
            rhs != 0 ==> (r matches Some(a) && a.sats() == self.sats() % rhs),
            rhs == 0 ==> r is None,
    {
        match self.0.checked_rem(rhs) {
            Some(v) => Some(Amount(v)),
            None => None,
        }
    }

    /// Parse a decimal string as an amount in the given denomination. A
    /// negative amount is an error here; signed amounts have their own type.
    pub fn from_str_in(s: &str, denom: Denomination) -> (r: Result<Amount, ParseAmountError>)
        ensures
            match amount_from_chars(s@, denom) {
                Ok(v) => r matches Ok(a) && a.sats() == v,
                Err(e) => r matches Err(e2) && e2 == e,
            },
    {
        let (negative, satoshi) = match parse_signed_to_satoshi(s, denom) {
            Ok(p) => p,
            Err(e) => {
                return Err(e);
            },
        };
        if negative {
            return Err(ParseAmountError::Negative);
        }
        if satoshi > 0x7FFF_FFFF_FFFF_FFFF {
            return Err(ParseAmountError::TooBig);
        }
        Ok(Amount::from_sat(satoshi))
    }

    /// Format the value of this amount in the given denomination, appending
    /// it to the buffer.
    pub fn fmt_value_in(&self, f: &mut String, denom: Denomination)
        ensures
            final(f)@ == old(f)@ + fmt_sats(self.sats() as nat, false, denom),
    {
        fmt_satoshi_in(self.0, false, f, denom)
    }

    /// The value of this amount written in the given denomination.
    pub fn to_string_in(&self, denom: Denomination) -> (r: String)
        ensures
            r@ == fmt_sats(self.sats() as nat, false, denom),
    {
        let mut buf = String::new();
        self.fmt_value_in(&mut buf, denom);
        buf
    }

    /// The value of this amount written in the given denomination, suffixed
    /// with the denomination's abbreviation.
    pub fn to_string_with_denomination(&self, denom: Denomination) -> (r: String)
        ensures
            r@ == fmt_sats(self.sats() as nat, false, denom) + " "@ + denom_name(denom),
    {
        let mut buf = String::new();
        self.fmt_value_in(&mut buf, denom);
        buf.append(" ");
        let d = denom.to_string();
        buf.append(d.as_str());
        buf
    }

    /// Parse an amount with a denomination suffix, such as `1 BTC`.
    pub fn from_str_with_denomination(s: &str) -> (r: Result<Amount, ParseAmountError>)
        ensures
            ({
                let sv = s@;
                let i = first_space(sv, 0);
                if i == sv.len() || first_space(sv, i + 1) != sv.len() {
                    r matches Err(e) && e == ParseAmountError::InvalidFormat
                } else {
                    match denom_of_name(sv.skip(i + 1)) {
                        Some(d) => match amount_from_chars(sv.take(i), d) {
                            Ok(v) => r matches Ok(a) && a.sats() == v,
                            Err(e) => r matches Err(e2) && e2 == e,
                        },
                        None => r matches Err(e) && (e matches
                            ParseAmountError::UnknownDenomination(t) && t@ == sv.skip(i + 1)),
                    }
                }
            }),
    {
        let (amt, denom) = match split_denom(s) {
            Ok(p) => p,
            Err(e) => {
                return Err(e);
            },
        };
        Amount::from_str_in(amt.as_str(), denom)
    }

    /// This amount rendered for diagnostics, with its satoshi count.
    pub fn debug_string(&self) -> (r: String)
        ensures
            r@ == "Amount("@ + dec_chars(self.sats() as nat) + " satoshi)"@,
    {
        let mut buf = String::new();
        buf.append("Amount(");
        push_dec_u64(&mut buf, self.0);
        buf.append(" satoshi)");
        buf
    }
}

impl core::str::FromStr for Amount {
    type Err = ParseAmountError;

    fn from_str(s: &str) -> Result<Amount, ParseAmountError> {
        Amount::from_str_with_denomination(s)
    }
}

impl Default for Amount {
    /// The zero amount.
    fn default() -> (r: Amount)
        ensures
            r.sats() == 0,
    {
        Amount::zero()
    }
}

/// The decimal rendering of a signed number.
pub open spec fn dec_chars_signed(v: int) -> Seq<char> {
    if v < 0 {
        "-"@ + dec_chars((0 - v) as nat)
    } else {
        dec_chars(v as nat)
    }
}

/// A signed amount of currency, counted in satoshi.
#[derive(Copy, Clone, Hash, PartialEq, Eq, PartialOrd, Ord, Debug, Structural)]
pub struct SignedAmount(i64);

impl SignedAmount {
    /// The number of satoshi this amount stands for.
    pub closed spec fn sats(&self) -> i64 {
        self.0
    }

    /// The zero amount.
    pub fn zero() -> (r: SignedAmount)
        ensures
            r.sats() == 0,
    {
        SignedAmount(0)
    }

    /// Exactly one satoshi.
    pub fn one_sat() -> (r: SignedAmount)
        ensures
            r.sats() == 1,
    {
        SignedAmount(1)
    }

    /// Exactly one bitcoin.
    pub fn one_btc() -> (r: SignedAmount)
        ensures
            r.sats() == 100_000_000,
    {
        SignedAmount(100_000_000)
    }

    /// The amount with the given number of satoshi.
    pub fn from_sat(satoshis: i64) -> (r: SignedAmount)
        ensures
            r.sats() == satoshis,
    {
        SignedAmount(satoshis)
    }

    /// The number of satoshi.
    pub fn as_sat(self) -> (r: i64)
        ensures
            r == self.sats(),
    {
        self.0
    }

    /// The largest representable amount.
    pub fn max_value() -> (r: SignedAmount)
        ensures
            r.sats() == i64::MAX,
    {
        SignedAmount(i64::MAX)
    }

    /// The smallest representable amount.
    pub fn min_value() -> (r: SignedAmount)
        ensures
            r.sats() == i64::MIN,
    {
        SignedAmount(i64::MIN)
    }

    /// This amount is strictly below zero.
    pub fn is_negative(self) -> (r: bool)
        ensures
            r == (self.sats() < 0),
    {
        self.0 < 0
    }

    /// Checked addition: the sum, or `None` when it leaves the type's
    /// range.
    pub fn checked_add(self, rhs: SignedAmount) -> (r: Option<SignedAmount>)
        ensures
            i64::MIN <= self.sats() + rhs.sats() <= i64::MAX ==> (r matches Some(a) && a.sats()
                == self.sats() + rhs.sats()),
            !(i64::MIN <= self.sats() + rhs.sats() <= i64::MAX) ==> r is None,
    {
        match self.0.checked_add(rhs.0) {
            Some(v) => Some(SignedAmount(v)),
            None => None,
        }
    }

    /// Checked subtraction: the difference, or `None` when it leaves the
    /// type's range.
    pub fn checked_sub(self, rhs: SignedAmount) -> (r: Option<SignedAmount>)
        ensures
            i64::MIN <= self.sats() - rhs.sats() <= i64::MAX ==> (r matches Some(a) && a.sats()
                == self.sats() - rhs.sats()),
            !(i64::MIN <= self.sats() - rhs.sats() <= i64::MAX) ==> r is None,
    {
        match self.0.checked_sub(rhs.0) {
            Some(v) => Some(SignedAmount(v)),
            None => None,
        }
    }

    /// Checked multiplication: the product, or `None` when it leaves the
    /// type's range.
    pub fn checked_mul(self, rhs: i64) -> (r: Option<SignedAmount>)
        ensures
            i64::MIN <= self.sats() * rhs <= i64::MAX ==> (r matches Some(a) && a.sats()
                == self.sats() * rhs),
            !(i64::MIN <= self.sats() * rhs <= i64::MAX) ==> r is None,
    {
        match self.0.checked_mul(rhs) {
            Some(v) => Some(SignedAmount(v)),
            None => None,
        }
    }

    /// Checked division, truncating toward zero: the quotient, or `None`
    /// for a zero divisor or an overflowing result.
    pub fn checked_div(self, rhs: i64) -> (r: Option<SignedAmount>)
        ensures
            match self.sats().checked_div(rhs) {
                Some(v) => r matches Some(a) && a.sats() == v,
                None => r is None,
            },
    {
        match self.0.checked_div(rhs) {
            Some(v) => Some(SignedAmount(v)),
            None => None,
        }
    }

    /// Checked remainder, with the sign of the dividend: the remainder, or
    /// `None` for a zero divisor or an overflowing result.
    pub fn checked_rem(self, rhs: i64) -> (r: Option<SignedAmount>)
        ensures
            match self.sats().checked_rem(rhs) {
                Some(v) => r matches Some(a) && a.sats() == v,
                None => r is None,
            },
    {
        match self.0.checked_rem(rhs) {
            Some(v) => Some(SignedAmount(v)),
            None => None,
        }
    }

    /// Subtraction that stays at or above zero: `None` when either operand
    /// or the result is strictly negative.
    pub fn positive_sub(self, rhs: SignedAmount) -> (r: Option<SignedAmount>)
        ensures
            (self.sats() < 0 || rhs.sats() < 0 || rhs.sats() > self.sats()) ==> r is None,
            !(self.sats() < 0 || rhs.sats() < 0 || rhs.sats() > self.sats()) ==> (r matches Some(a)
                && a.sats() == self.sats() - rhs.sats()),
    {
        if self.is_negative() || rhs.is_negative() || rhs.0 > self.0 {
            None
        } else {
            self.checked_sub(rhs)
        }
    }

    /// Parse a decimal string as a signed amount in the given denomination.
    pub fn from_str_in(s: &str, denom: Denomination) -> (r: Result<SignedAmount, ParseAmountError>)
        ensures
            match samount_from_chars(s@, denom) {
                Ok(v) => r matches Ok(a) && a.sats() == v,
                Err(e) => r matches Err(e2) && e2 == e,
            },
    {
        let (negative, satoshi) = match parse_signed_to_satoshi(s, denom) {
            Ok(p) => p,
            Err(e) => {
                return Err(e);
            },
        };
        if satoshi > 0x7FFF_FFFF_FFFF_FFFF {
            return Err(ParseAmountError::TooBig);
        }
        if negative {
            Ok(SignedAmount(-1 * (satoshi as i64)))
        } else {
            Ok(SignedAmount(satoshi as i64))
        }
    }

    /// Format the value of this amount in the given denomination, appending
    /// it to the buffer.
    pub fn fmt_value_in(&self, f: &mut String, denom: Denomination)
        ensures
            final(f)@ == old(f)@ + fmt_sats(
                (if self.sats() >= 0 {
                    self.sats() as int
                } else {
                    0 - self.sats()
                }) as nat,
                self.sats() < 0,
                denom,
            ),
    {
        let magnitude: u64 = if self.0 >= 0 {
            self.0 as u64
        } else if self.0 == i64::MIN {
            0x8000_0000_0000_0000u64
        } else {
            (-self.0) as u64
        };
        fmt_satoshi_in(magnitude, self.is_negative(), f, denom)
    }

    /// The value of this amount written in the given denomination.
    pub fn to_string_in(&self, denom: Denomination) -> (r: String)
        ensures
            r@ == fmt_sats(
                (if self.sats() >= 0 {
                    self.sats() as int
                } else {
                    0 - self.sats()
                }) as nat,
                self.sats() < 0,
                denom,
            ),
    {
        let mut buf = String::new();
        self.fmt_value_in(&mut buf, denom);
        buf
    }

    /// The value of this amount written in the given denomination, suffixed
    /// with the denomination's abbreviation.
    pub fn to_string_with_denomination(&self, denom: Denomination) -> (r: String)
        ensures
            r@ == fmt_sats(
                (if self.sats() >= 0 {
                    self.sats() as int
                } else {
                    0 - self.sats()
                }) as nat,
                self.sats() < 0,
                denom,
            ) + " "@ + denom_name(denom),
    {
        let mut buf = String::new();
        self.fmt_value_in(&mut buf, denom);
        buf.append(" ");
        let d = denom.to_string();
        buf.append(d.as_str());
        buf
    }

    /// Parse a signed amount with a denomination suffix, such as `-1 BTC`.
    pub fn from_str_with_denomination(s: &str) -> (r: Result<SignedAmount, ParseAmountError>)
        ensures
            ({
                let sv = s@;
                let i = first_space(sv, 0);
                if i == sv.len() || first_space(sv, i + 1) != sv.len() {
                    r matches Err(e) && e == ParseAmountError::InvalidFormat
                } else {
                    match denom_of_name(sv.skip(i + 1)) {
                        Some(d) => match samount_from_chars(sv.take(i), d) {
                            Ok(v) => r matches Ok(a) && a.sats() == v,
                            Err(e) => r matches Err(e2) && e2 == e,
                        },
                        None => r matches Err(e) && (e matches
                            ParseAmountError::UnknownDenomination(t) && t@ == sv.skip(i + 1)),
                    }
                }
            }),
    {
        let (amt, denom) = match split_denom(s) {
            Ok(p) => p,
            Err(e) => {
                return Err(e);
            },
        };
        SignedAmount::from_str_in(amt.as_str(), denom)
    }

    /// This amount rendered for diagnostics, with its satoshi count.
    pub fn debug_string(&self) -> (r: String)
        ensures
            r@ == "SignedAmount("@ + dec_chars_signed(self.sats() as int) + " satoshi)"@,
    {
        let mut buf = String::new();
        buf.append("SignedAmount(");
        if self.0 >= 0 {
            push_dec_u64(&mut buf, self.0 as u64);
        } else {
            buf.append("-");
            let magnitude: u64 = if self.0 == i64::MIN {
                0x8000_0000_0000_0000u64
            } else {
                (-self.0) as u64
            };
            push_dec_u64(&mut buf, magnitude);
        }
        buf.append(" satoshi)");
        buf
    }
}

impl core::str::FromStr for SignedAmount {
    type Err = ParseAmountError;

    fn from_str(s: &str) -> Result<SignedAmount, ParseAmountError> {
        SignedAmount::from_str_with_denomination(s)
    }
}

impl Default for SignedAmount {
    /// The zero amount.
    fn default() -> (r: SignedAmount)
        ensures
            r.sats() == 0,
    {
        SignedAmount::zero()
    }
}

} // verus!
