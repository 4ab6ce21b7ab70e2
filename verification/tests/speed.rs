use robot_commander::numeral::is_magnitude_text;
use robot_commander::speed::Speed;

fn spelled(text: &str) -> Speed {
    match Speed::parse(text) {
        Some(speed) => speed,
        None => panic!("{text:?} should be a speed"),
    }
}

#[test]
fn plain_numbers_are_speeds() {
    for text in ["0", "7", "10", "0.25", "1.0", "12.5", "255", "0.0"] {
        assert_eq!(spelled(text).text(), text);
        assert!(!spelled(text).is_negative());
    }
}

#[test]
fn negative_numbers_are_speeds() {
    for text in ["-0.5", "-1", "-0.0", "-12.75"] {
        assert_eq!(spelled(text).text(), text);
        assert!(spelled(text).is_negative());
    }
}

#[test]
fn numbers_with_exponents_are_speeds() {
    for text in ["1e10", "1E10", "1.5e-7", "2e+3", "0e0", "-3.4028235e38", "1e-45"] {
        assert_eq!(spelled(text).text(), text);
    }
}

#[test]
fn text_that_is_no_number_is_no_speed() {
    for text in [
        "", "-", "null", "NaN", "inf", "-inf", "Infinity", "true", "abc", "+1", "--1", ".5", "5.",
        "-.5", "1e", "1e+", "1e-", "1.e5", "e5", "1.5.2", "1e5e5", "1e5.5", " 1", "1 ", "1,0", "0x10",
        "1_000", "\"1\"", "1f", "- 1",
    ] {
        assert!(Speed::parse(text).is_none(), "{text:?} was taken for a speed");
    }
}

#[test]
fn leading_zeros_are_refused() {
    for text in ["00", "01", "-01", "007", "00.5"] {
        assert!(Speed::parse(text).is_none(), "{text:?} was taken for a speed");
    }
    assert!(Speed::parse("0.5").is_some());
    assert!(Speed::parse("0e5").is_some());
    assert!(Speed::parse("10").is_some());
}

#[test]
fn digits_of_other_scripts_are_refused() {
    assert!(Speed::parse("\u{0661}").is_none());
    assert!(Speed::parse("1\u{0662}").is_none());
    assert!(Speed::parse("\u{ff11}.5").is_none());
    assert!(Speed::parse("-\u{00bd}").is_none());
}

#[test]
fn unsigned_numbers_take_no_sign() {
    assert!(is_magnitude_text("0.25"));
    assert!(is_magnitude_text("3e8"));
    assert!(!is_magnitude_text("-0.25"));
    assert!(!is_magnitude_text("+0.25"));
    assert!(!is_magnitude_text(""));
}

#[test]
fn negation_changes_the_sign_only() {
    assert_eq!(spelled("0.5").negated().text(), "-0.5");
    assert_eq!(spelled("-0.5").negated().text(), "0.5");
    assert_eq!(spelled("0.0").negated().text(), "-0.0");
    assert_eq!(spelled("1e-7").negated().text(), "-1e-7");
    assert!(spelled("2").negated().is_negative());
    assert!(!spelled("-2").negated().is_negative());
}

#[test]
fn negating_twice_gives_the_speed_back() {
    for text in ["0.25", "-0.25", "0", "-0.0", "6.02e23"] {
        let speed = spelled(text);
        assert_eq!(speed.negated().negated().text(), text);
        assert_eq!(speed.negated().negated().is_negative(), speed.is_negative());
    }
}

#[test]
fn a_negated_speed_reads_back_as_itself() {
    for text in ["0.25", "-0.25", "17", "-1e3"] {
        let negated = spelled(text).negated().text();
        assert_eq!(spelled(&negated).text(), negated);
    }
}

#[test]
fn a_copy_is_the_same_speed() {
    let speed = spelled("-0.75");
    let copy = speed.clone();
    assert_eq!(copy.text(), "-0.75");
    assert!(copy.is_negative());
    assert_eq!(speed.text(), "-0.75");
}

#[test]
fn every_finite_float_has_a_speed() {
    let values = [
        0.0f32,
        -0.0,
        0.25,
        -0.5,
        1.0,
        0.1,
        100.0,
        1.0e-7,
        3.0e10,
        f32::MAX,
        f32::MIN,
        f32::MIN_POSITIVE,
        f32::EPSILON,
        1.0e-45,
    ];
    for value in values {
        let text = serde_json::to_string(&value).unwrap();
        let speed = spelled(&text);
        assert_eq!(speed.text(), text);
        assert_eq!(speed.is_negative(), value.is_sign_negative());
        let negated = serde_json::to_string(&-value).unwrap();
        assert_eq!(speed.negated().text(), negated);
    }
}

#[test]
fn floats_that_are_not_finite_have_no_speed() {
    for value in [f32::NAN, f32::INFINITY, f32::NEG_INFINITY] {
        let text = serde_json::to_string(&value).unwrap();
        assert!(Speed::parse(&text).is_none());
    }
}

#[test]
fn the_grammar_is_the_one_a_json_reader_goes_by() {
    let texts = [
        "0", "-0", "0.0", "-0.0", "7", "10", "0.25", "-0.5", "1e10", "1E10", "1.5e-7", "2e+3", "0e0",
        "-3.4028235e38", "12.5", "", "-", "null", "true", "NaN", "inf", "+1", "--1", ".5", "5.", "-.5",
        "1e", "1e+", "1e-", "1.e5", "e5", "1.5.2", "1e5e5", "1e5.5", "1,0", "0x10", "1_000", "\"1\"",
        "1f", "- 1", "00", "01", "-01", "007", "00.5", "[1]", "{}",
    ];
    for text in texts {
        let read = match serde_json::from_str::<serde_json::Value>(text) {
            Ok(value) => value.is_number(),
            Err(_) => false,
        };
        assert_eq!(Speed::parse(text).is_some(), read, "{text:?}");
    }
}
