use temperature_converter::convert::{Temperature, TemperatureConversionError};
use temperature_converter::parse::ParseTemperatureError;
use temperature_converter::rational::Rational;
use temperature_converter::units::{all_units, TemperatureUnit};

fn parsed(s: &str) -> Temperature {
    Temperature::from_str(s).unwrap()
}

fn converted(t: Temperature, u: TemperatureUnit) -> Temperature {
    t.convert(u).unwrap()
}

fn rat(num: i128, den: i128) -> Rational {
    Rational::new(num, den)
}

#[test]
fn parse_celsius_decimal() {
    let t = parsed("36.9C");
    assert_eq!(t.value, rat(369, 10));
    assert_eq!(t.unit, TemperatureUnit::Celsius);
}

#[test]
fn parse_with_space_and_degree() {
    let t = parsed("36.9 \u{00B0}C");
    assert_eq!(t.value, rat(369, 10));
    assert_eq!(t.unit, TemperatureUnit::Celsius);
}

#[test]
fn parse_case_insensitive() {
    assert_eq!(parsed("36.9c"), parsed("36.9C"));
    assert_eq!(parsed("36.9 \u{00B0}c"), parsed("36.9C"));
    assert_eq!(parsed("0k"), parsed("0K"));
    assert_eq!(parsed("12f"), parsed("12F"));
}

#[test]
fn parse_fahrenheit() {
    let t = parsed("98.6F");
    assert_eq!(t.value, rat(986, 10));
    assert_eq!(t.unit, TemperatureUnit::Fahrenheit);
}

#[test]
fn parse_kelvin() {
    let t = parsed("0K");
    assert_eq!(t.value, rat(0, 1));
    assert_eq!(t.unit, TemperatureUnit::Kelvin);
}

#[test]
fn parse_ascii_and_unicode_minus_agree() {
    let a = parsed("-40C");
    let b = parsed("\u{2212}40C");
    assert_eq!(a, b);
    assert_eq!(a.value, rat(-40, 1));
}

#[test]
fn parse_empty_is_empty() {
    assert_eq!(Temperature::from_str(""), Err(ParseTemperatureError::Empty));
}

#[test]
fn parse_garbage_is_invalid() {
    assert_eq!(Temperature::from_str("abc"), Err(ParseTemperatureError::Invalid));
}

#[test]
fn parse_unknown_unit_is_invalid() {
    assert_eq!(Temperature::from_str("100X"), Err(ParseTemperatureError::Invalid));
}

#[test]
fn parse_symbol_alone_is_invalid() {
    assert_eq!(Temperature::from_str("\u{00B0}C"), Err(ParseTemperatureError::Invalid));
}

#[test]
fn parse_bad_fraction_is_invalid() {
    assert_eq!(Temperature::from_str("36.C"), Err(ParseTemperatureError::Invalid));
    assert_eq!(Temperature::from_str("36."), Err(ParseTemperatureError::Invalid));
    assert_eq!(Temperature::from_str("36.9.1C"), Err(ParseTemperatureError::Invalid));
}

#[test]
fn parse_extra_whitespace_is_invalid() {
    assert_eq!(Temperature::from_str("36  C"), Err(ParseTemperatureError::Invalid));
    assert_eq!(Temperature::from_str(" 36C"), Err(ParseTemperatureError::Invalid));
}

#[test]
fn parse_degree_kelvin_is_invalid() {
    assert_eq!(Temperature::from_str("0\u{00B0}K"), Err(ParseTemperatureError::Invalid));
}

#[test]
fn parse_trailing_junk_is_invalid() {
    assert_eq!(Temperature::from_str("36.9Cx"), Err(ParseTemperatureError::Invalid));
}

#[test]
fn parse_too_many_digits_reports_number() {
    let r = Temperature::from_str("1234567890123456789012345678901C");
    match r {
        Err(ParseTemperatureError::Parse { value }) => {
            assert_eq!(value, "1234567890123456789012345678901");
        },
        other => panic!("expected a numeric parse failure, got {:?}", other),
    }
}

#[test]
fn identity_conversion_is_bit_identical() {
    let t = parsed("36.9C");
    assert_eq!(t.convert(TemperatureUnit::Celsius), Ok(t));
    let k = parsed("0K");
    assert_eq!(k.convert(TemperatureUnit::Kelvin), Ok(k));
}

#[test]
fn scenario_celsius_input() {
    let t = parsed("36.9C");
    let f = converted(t, TemperatureUnit::Fahrenheit);
    assert_eq!(f.unit, TemperatureUnit::Fahrenheit);
    assert!(f.value.eq_value(&rat(9842, 100)));
    let k = converted(t, TemperatureUnit::Kelvin);
    assert_eq!(k.unit, TemperatureUnit::Kelvin);
    assert!(k.value.eq_value(&rat(31005, 100)));
}

#[test]
fn scenario_fahrenheit_input() {
    let t = parsed("98.6F");
    let c = converted(t, TemperatureUnit::Celsius);
    assert!(c.value.eq_value(&rat(37, 1)));
    let k = converted(t, TemperatureUnit::Kelvin);
    assert!(k.value.eq_value(&rat(31015, 100)));
}

#[test]
fn scenario_kelvin_input() {
    let t = parsed("0K");
    let c = converted(t, TemperatureUnit::Celsius);
    assert!(c.value.eq_value(&rat(-27315, 100)));
    let f = converted(t, TemperatureUnit::Fahrenheit);
    assert!(f.value.eq_value(&rat(-45967, 100)));
}

#[test]
fn round_trip_every_pair_is_exact() {
    let samples = ["36.9C", "-40C", "98.6F", "0K", "273.15K", "0.5F"];
    let units = all_units();
    for s in samples.iter() {
        let t = parsed(s);
        for &b in units.iter() {
            let there = converted(t, b);
            let back = converted(there, t.unit);
            assert!(back.value.eq_value(&t.value), "round trip {} via {:?}", s, b);
            assert_eq!(back.unit, t.unit);
        }
    }
}

#[test]
fn composition_consistency() {
    let t = parsed("98.6F");
    let direct = converted(t, TemperatureUnit::Kelvin);
    let via_c = converted(converted(t, TemperatureUnit::Celsius), TemperatureUnit::Kelvin);
    assert!(direct.value.eq_value(&via_c.value));
    assert_eq!(direct.unit, via_c.unit);

    let k = parsed("310.15K");
    let direct = converted(k, TemperatureUnit::Fahrenheit);
    let via_c = converted(converted(k, TemperatureUnit::Celsius), TemperatureUnit::Fahrenheit);
    assert!(direct.value.eq_value(&via_c.value));
}

#[test]
fn convert_to_all_gives_other_units_in_registry_order() {
    let t = parsed("36.9C");
    let outs = t.convert_to_all();
    assert_eq!(outs.len(), 2);
    assert_eq!(outs[0].unit, TemperatureUnit::Fahrenheit);
    assert!(outs[0].value.eq_value(&rat(9842, 100)));
    assert_eq!(outs[1].unit, TemperatureUnit::Kelvin);
    assert!(outs[1].value.eq_value(&rat(31005, 100)));

    let f = parsed("98.6F");
    let outs = f.convert_to_all();
    assert_eq!(outs[0].unit, TemperatureUnit::Celsius);
    assert_eq!(outs[1].unit, TemperatureUnit::Kelvin);
}

#[test]
fn conversion_error_carries_the_pair() {
    let e = TemperatureConversionError::NotSupported {
        from: TemperatureUnit::Celsius,
        to: TemperatureUnit::Kelvin,
    };
    assert_eq!(e.message(), "conversion from \u{00B0}C to K is not supported");
}

#[test]
fn parse_error_messages_embed_the_input() {
    assert_eq!(
        ParseTemperatureError::Empty.message(),
        "cannot parse temperature from empty string"
    );
    assert_eq!(ParseTemperatureError::Invalid.message(), "invalid temperature literal");
    let e = Temperature::from_str("1234567890123456789012345678901C").unwrap_err();
    assert_eq!(e.message(), "invalid temperature value: 1234567890123456789012345678901");
}

#[test]
fn display_formats_value_space_symbol() {
    assert_eq!(parsed("36.9C").to_display_string(), "36.9 \u{00B0}C");
    assert_eq!(parsed("98.6F").to_display_string(), "98.6 \u{00B0}F");
    assert_eq!(parsed("0K").to_display_string(), "0 K");
}

#[test]
fn display_canonicalizes_the_symbol() {
    assert_eq!(parsed("36.9c").to_display_string(), "36.9 \u{00B0}C");
    assert_eq!(parsed("5k").to_display_string(), "5 K");
}

#[test]
fn display_negative_value() {
    assert_eq!(parsed("-45.67F").to_display_string(), "-45.67 \u{00B0}F");
    assert_eq!(parsed("\u{2212}40C").to_display_string(), "-40 \u{00B0}C");
}

#[test]
fn display_reduces_terminating_fractions() {
    let half = Temperature { value: rat(5, 10), unit: TemperatureUnit::Kelvin };
    assert_eq!(half.to_display_string(), "0.5 K");
    let t = Temperature { value: rat(3700, 100), unit: TemperatureUnit::Celsius };
    assert_eq!(t.to_display_string(), "37 \u{00B0}C");
}

#[test]
fn display_after_conversion() {
    let c = converted(parsed("98.6F"), TemperatureUnit::Celsius);
    assert_eq!(c.to_display_string(), "37 \u{00B0}C");
}

#[test]
fn format_then_parse_round_trips() {
    for s in ["36.9C", "98.6 F", "0K", "-40c", "255.37K"].iter() {
        let t = parsed(s);
        let rendered = t.to_display_string();
        let back = parsed(&rendered);
        assert_eq!(back.unit, t.unit, "unit after round trip of {}", s);
        assert!(back.value.eq_value(&t.value), "value after round trip of {}", s);
    }
}

#[test]
fn symbols_are_canonical() {
    assert_eq!(TemperatureUnit::Celsius.symbol(), "\u{00B0}C");
    assert_eq!(TemperatureUnit::Fahrenheit.symbol(), "\u{00B0}F");
    assert_eq!(TemperatureUnit::Kelvin.symbol(), "K");
}

#[test]
fn registry_order_is_fixed() {
    let units = all_units();
    assert_eq!(
        units,
        vec![TemperatureUnit::Celsius, TemperatureUnit::Fahrenheit, TemperatureUnit::Kelvin]
    );
}

#[test]
fn value_equality_is_by_cross_multiplication() {
    assert!(rat(1, 2).eq_value(&rat(2, 4)));
    assert!(rat(-3, 6).eq_value(&rat(-1, 2)));
    assert!(!rat(1, 2).eq_value(&rat(2, 3)));
    assert!(rat(0, 7).eq_value(&rat(0, 1)));
}
