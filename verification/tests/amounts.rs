//! Tests for amounts: checked arithmetic, decimal parsing and formatting.

use core::str::FromStr;

use bitcoin::util::amount::fmt_satoshi_in;
use bitcoin::util::amount::parse_signed_to_satoshi;
use bitcoin::util::amount::Denomination;
use bitcoin::util::amount::ParseAmountError;
use bitcoin::Amount;
use bitcoin::SignedAmount;

// The floating-point entry points are thin wrappers around decimal-string
// parsing and formatting; the wrappers live outside the verified library,
// so these helpers reproduce them for the tests.
fn amount_from_float_in(value: f64, denom: Denomination) -> Result<Amount, ParseAmountError> {
    if value < 0.0 {
        return Err(ParseAmountError::Negative);
    }
    Amount::from_str_in(&value.to_string(), denom)
}

fn samount_from_float_in(
    value: f64,
    denom: Denomination,
) -> Result<SignedAmount, ParseAmountError> {
    SignedAmount::from_str_in(&value.to_string(), denom)
}

fn amount_to_float_in(a: Amount, denom: Denomination) -> f64 {
    f64::from_str(&a.to_string_in(denom)).unwrap()
}

fn samount_to_float_in(a: SignedAmount, denom: Denomination) -> f64 {
    f64::from_str(&a.to_string_in(denom)).unwrap()
}

#[test]
fn test_fmt() {
    let sat = Amount::from_sat;
    let ssat = SignedAmount::from_sat;
    assert_eq!(sat(15).debug_string(), "Amount(15 satoshi)");
    assert_eq!(ssat(15).debug_string(), "SignedAmount(15 satoshi)");
    assert_eq!(ssat(-15).debug_string(), "SignedAmount(-15 satoshi)");
}

#[test]
fn test_checked_arithmetic() {
    let sat = Amount::from_sat;
    let ssat = SignedAmount::from_sat;

    assert_eq!(sat(42).checked_add(sat(1)), Some(sat(43)));
    assert_eq!(SignedAmount::max_value().checked_add(ssat(1)), None);
    assert_eq!(SignedAmount::min_value().checked_sub(ssat(1)), None);
    assert_eq!(Amount::max_value().checked_add(sat(1)), None);
    assert_eq!(Amount::min_value().checked_sub(sat(1)), None);

    assert_eq!(sat(5).checked_sub(sat(3)), Some(sat(2)));
    assert_eq!(sat(5).checked_sub(sat(6)), None);
    assert_eq!(ssat(5).checked_sub(ssat(6)), Some(ssat(-1)));
    assert_eq!(sat(5).checked_rem(2), Some(sat(1)));

    assert_eq!(sat(5).checked_div(2), Some(sat(2)));
    assert_eq!(ssat(-5).checked_div(2), Some(ssat(-2)));

    assert_eq!(ssat(-5).positive_sub(ssat(3)), None);
    assert_eq!(ssat(5).positive_sub(ssat(-3)), None);
    assert_eq!(ssat(3).positive_sub(ssat(5)), None);
    assert_eq!(ssat(3).positive_sub(ssat(3)), Some(ssat(0)));
    assert_eq!(ssat(5).positive_sub(ssat(3)), Some(ssat(2)));
}

#[test]
fn test_parse_signed_to_satoshi() {
    assert_eq!(
        parse_signed_to_satoshi("1", Denomination::Bitcoin).unwrap(),
        (false, 100000000)
    );
    assert_eq!(
        parse_signed_to_satoshi("-1", Denomination::Bitcoin).unwrap(),
        (true, 100000000)
    );
    assert_eq!(
        parse_signed_to_satoshi("-900", Denomination::Bitcoin).unwrap(),
        (true, 90000000000)
    );
    assert_eq!(
        parse_signed_to_satoshi("10000", Denomination::MilliSatoshi).unwrap(),
        (false, 10)
    );
    assert_eq!(
        parse_signed_to_satoshi("100", Denomination::MilliSatoshi).unwrap_err(),
        ParseAmountError::TooPrecise
    );
    assert_eq!(
        parse_signed_to_satoshi(".001", Denomination::MilliSatoshi).unwrap_err(),
        ParseAmountError::TooPrecise
    );
    assert_eq!(
        parse_signed_to_satoshi(".0000100", Denomination::Satoshi).unwrap_err(),
        ParseAmountError::TooPrecise
    );
    assert_eq!(
        parse_signed_to_satoshi(".0000100", Denomination::Bitcoin).unwrap(),
        (false, 1000)
    );
    assert_eq!(
        parse_signed_to_satoshi("-", Denomination::Satoshi).unwrap_err(),
        ParseAmountError::InvalidFormat
    );
    assert_eq!(
        parse_signed_to_satoshi("", Denomination::Satoshi).unwrap_err(),
        ParseAmountError::InvalidFormat
    );
    assert_eq!(
        parse_signed_to_satoshi(
            "100000000000000000000000000000000000000000000000000000000000000000000000000000000",
            Denomination::Satoshi
        )
        .unwrap_err(),
        ParseAmountError::InputTooLarge
    );
    assert_eq!(
        parse_signed_to_satoshi("1..0", Denomination::Satoshi).unwrap_err(),
        ParseAmountError::InvalidFormat
    );
    assert_eq!(
        parse_signed_to_satoshi("c", Denomination::Satoshi).unwrap_err(),
        ParseAmountError::InvalidCharacter("c".chars().next().unwrap())
    );
    assert_eq!(
        parse_signed_to_satoshi(&*format!("{}", i64::max_value()), Denomination::Bitcoin)
            .unwrap_err(),
        ParseAmountError::TooBig
    );
}

#[test]
fn floating_point() {
    type D = Denomination;
    let f = amount_from_float_in;
    let sf = samount_from_float_in;
    let sat = Amount::from_sat;
    let ssat = SignedAmount::from_sat;

    // successful parsing
    assert_eq!(f(11.22, D::Bitcoin), Ok(sat(1122000000)));
    assert_eq!(sf(-11.22, D::MilliBitcoin), Ok(ssat(-1122000)));
    assert_eq!(f(11.22, D::Bit), Ok(sat(1122)));
    assert_eq!(sf(-1000.0, D::MilliSatoshi), Ok(ssat(-1)));
    assert_eq!(f(0.0001234, D::Bitcoin), Ok(sat(12340)));
    assert_eq!(sf(-0.00012345, D::Bitcoin), Ok(ssat(-12345)));

    // failed parsing
    assert_eq!(f(-100.0, D::MilliSatoshi), Err(ParseAmountError::Negative));
    assert_eq!(f(11.22, D::Satoshi), Err(ParseAmountError::TooPrecise));
    assert_eq!(sf(-100.0, D::MilliSatoshi), Err(ParseAmountError::TooPrecise));
    assert_eq!(f(42.123456781, D::Bitcoin), Err(ParseAmountError::TooPrecise));
    assert_eq!(sf(-184467440738.0, D::Bitcoin), Err(ParseAmountError::TooBig));
    assert_eq!(f(18446744073709551617.0, D::Satoshi), Err(ParseAmountError::TooBig));
    assert_eq!(
        f(samount_to_float_in(SignedAmount::max_value(), D::Satoshi) + 1.0, D::Satoshi),
        Err(ParseAmountError::TooBig)
    );
    assert_eq!(
        f(amount_to_float_in(Amount::max_value(), D::Satoshi) + 1.0, D::Satoshi),
        Err(ParseAmountError::TooBig)
    );

    let btc = move |f: f64| samount_from_float_in(f, D::Bitcoin).unwrap();
    assert_eq!(samount_to_float_in(btc(2.5), D::Bitcoin), 2.5);
    assert_eq!(samount_to_float_in(btc(-2.5), D::MilliBitcoin), -2500.0);
    assert_eq!(samount_to_float_in(btc(2.5), D::Satoshi), 250000000.0);
    assert_eq!(samount_to_float_in(btc(-2.5), D::MilliSatoshi), -250000000000.0);

    let btc = move |f: f64| amount_from_float_in(f, D::Bitcoin).unwrap();
    assert_eq!(&amount_to_float_in(btc(0.0012), D::Bitcoin).to_string(), "0.0012");
}

#[test]
fn test_fmt_satoshi_in() {
    let mut buf = String::new();
    fmt_satoshi_in(100, false, &mut buf, Denomination::Satoshi);
    assert_eq!(buf, "100");
    let mut buf = String::new();
    fmt_satoshi_in(1000, true, &mut buf, Denomination::Satoshi);
    assert_eq!(buf, "-1000");
    let mut buf = String::new();
    fmt_satoshi_in(1000, true, &mut buf, Denomination::MilliSatoshi);
    assert_eq!(buf, "-1000000");
    let mut buf = String::new();
    fmt_satoshi_in(1000, true, &mut buf, Denomination::Bitcoin);
    assert_eq!(buf, "-0.00001000");
}

#[test]
fn test_parsing() {
    type E = ParseAmountError;
    let btc = Denomination::Bitcoin;
    let p = Amount::from_str_in;
    let sp = SignedAmount::from_str_in;

    assert_eq!(p("x", btc), Err(E::InvalidCharacter('x')));
    assert_eq!(p("-", btc), Err(E::InvalidFormat));
    assert_eq!(sp("-", btc), Err(E::InvalidFormat));
    assert_eq!(p("-1.0x", btc), Err(E::InvalidCharacter('x')));
    assert_eq!(p("0.0 ", btc), Err(E::InvalidCharacter(' ')));
    assert_eq!(p("0.000.000 ", btc), Err(E::InvalidFormat));
    let max = format!("{}", i64::max_value());
    assert_eq!(p(&max, btc), Err(E::TooBig));
    let more_than_max = format!(
        "1{}",
        Amount::max_value().to_string_with_denomination(Denomination::Bitcoin)
    );
    assert_eq!(p(&more_than_max, btc), Err(E::TooBig));
    assert_eq!(p("0.000000042", btc), Err(E::TooPrecise));

    assert_eq!(p("1", btc), Ok(Amount::from_sat(100_000_000)));
    assert_eq!(sp("-.5", btc), Ok(SignedAmount::from_sat(-50_000_000)));
    assert_eq!(p("1.1", btc), Ok(Amount::from_sat(110_000_000)));
    assert_eq!(
        p("12345678901.12345678", btc),
        Ok(Amount::from_sat(12_345_678_901__123_456_78))
    );
    assert_eq!(p("12", Denomination::MilliSatoshi), Err(E::TooPrecise));
}

#[test]
fn test_to_string() {
    type D = Denomination;

    assert_eq!(Amount::one_btc().to_string_in(D::Bitcoin), "1.00000000");
    assert_eq!(Amount::one_btc().to_string_in(D::Satoshi), "100000000");
    assert_eq!(Amount::one_sat().to_string_in(D::Bitcoin), "0.00000001");
    assert_eq!(SignedAmount::from_sat(-42).to_string_in(D::Bitcoin), "-0.00000042");

    assert_eq!(Amount::one_btc().to_string_with_denomination(D::Bitcoin), "1.00000000 BTC");
    assert_eq!(Amount::one_sat().to_string_with_denomination(D::MilliSatoshi), "1000 msat");
    assert_eq!(
        Amount::one_btc().to_string_with_denomination(D::Satoshi),
        "100000000 satoshi"
    );
    assert_eq!(Amount::one_sat().to_string_with_denomination(D::Bitcoin), "0.00000001 BTC");
    assert_eq!(
        SignedAmount::from_sat(-42).to_string_with_denomination(D::Bitcoin),
        "-0.00000042 BTC"
    );
}

#[test]
fn test_from_string() {
    type E = ParseAmountError;
    let p = Amount::from_str;
    let sp = SignedAmount::from_str;

    assert_eq!(p("x BTC"), Err(E::InvalidCharacter('x')));
    assert_eq!(p("5 BTC BTC"), Err(E::InvalidFormat));
    assert_eq!(p("5 5 BTC"), Err(E::InvalidFormat));

    assert_eq!(p("5 BCH"), Err(E::UnknownDenomination("BCH".to_owned())));

    assert_eq!(p("-1 BTC"), Err(E::Negative));
    assert_eq!(p("-0.0 BTC"), Err(E::Negative));
    assert_eq!(p("0.123456789 BTC"), Err(E::TooPrecise));
    assert_eq!(sp("-0.1 satoshi"), Err(E::TooPrecise));
    assert_eq!(p("0.123456 mBTC"), Err(E::TooPrecise));
    assert_eq!(sp("-1.001 bits"), Err(E::TooPrecise));
    assert_eq!(sp("-200000000000 BTC"), Err(E::TooBig));
    assert_eq!(p("18446744073709551616 BTC"), Err(E::TooBig));

    assert_eq!(sp("0 msat"), Err(E::TooPrecise));
    assert_eq!(sp("-0 msat"), Err(E::TooPrecise));
    assert_eq!(p("0 msat"), Err(E::TooPrecise));
    assert_eq!(p("-0 msat"), Err(E::TooPrecise));

    assert_eq!(p("1 BTC"), Ok(Amount::from_sat(100_000_000)));
    assert_eq!(sp("-5 satoshi"), Ok(SignedAmount::from_sat(-5)));
}

#[test]
fn denomination_names() {
    assert_eq!(Denomination::Bitcoin.to_string(), "BTC");
    assert_eq!(Denomination::MilliSatoshi.to_string(), "msat");
    assert_eq!("sat".parse::<Denomination>().unwrap(), Denomination::Satoshi);
    assert_eq!("satoshi".parse::<Denomination>().unwrap(), Denomination::Satoshi);
    assert_eq!(
        "BCH".parse::<Denomination>(),
        Err(ParseAmountError::UnknownDenomination("BCH".to_owned()))
    );
}

#[test]
fn default_is_zero() {
    assert_eq!(Amount::default(), Amount::zero());
    assert_eq!(SignedAmount::default(), SignedAmount::zero());
    assert_eq!(Amount::zero().as_sat(), 0);
    assert_eq!(SignedAmount::one_btc().as_sat(), 100_000_000);
}
