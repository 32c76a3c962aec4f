use mergebom::value::convert_comment_to_value;
use mergebom::value::detect_measure_unit;
use mergebom::value::EngineeringValue;
use mergebom::value::MeasureUnit;

fn number(digits: &[u8], scale: usize, exponent: i32) -> EngineeringValue {
    EngineeringValue::Number { digits: digits.to_vec(), scale, exponent }
}

fn magnitude(value: &EngineeringValue) -> f64 {
    match value {
        EngineeringValue::NotPopulated => panic!("no magnitude"),
        EngineeringValue::Number { digits, scale, exponent } => {
            let mut mantissa: f64 = 0.0;
            for d in digits {
                mantissa = mantissa * 10.0 + f64::from(*d);
            }
            mantissa * 10f64.powi(*exponent - *scale as i32)
        }
    }
}

fn close(a: f64, b: f64) -> bool {
    (a - b).abs() <= 1e-9 * b.abs()
}

fn parsed(text: &str) -> EngineeringValue {
    convert_comment_to_value(text).unwrap()
}

#[test]
fn value_table_magnitudes() {
    assert!(close(magnitude(&parsed("100nF")), 100e-9));
    assert!(close(magnitude(&parsed("1R0")), 1.0));
    assert!(close(magnitude(&parsed("1k")), 1e3));
    assert!(close(magnitude(&parsed("2k3")), 2300.0));
    assert!(close(magnitude(&parsed("4mH")), 4e-3));
    assert!(close(magnitude(&parsed("1k5")), 1500.0));
    assert!(close(magnitude(&parsed("5K421")), 5421.0));
    assert!(close(magnitude(&parsed("0.33R")), 0.33));
    assert!(close(magnitude(&parsed("1M12")), 1.12e6));
    assert_eq!(parsed("NP"), EngineeringValue::NotPopulated);
}

#[test]
fn value_table_exact() {
    assert_eq!(parsed("100nF"), number(&[1, 0, 0], 0, -9));
    assert_eq!(parsed("1R0"), number(&[1, 0], 1, 0));
    assert_eq!(parsed("1k"), number(&[1], 0, 3));
    assert_eq!(parsed("2k3"), number(&[2, 3], 1, 3));
    assert_eq!(parsed("4mH"), number(&[4], 0, -3));
    assert_eq!(parsed("1k5"), number(&[1, 5], 1, 3));
    assert_eq!(parsed("5K421"), number(&[5, 4, 2, 1], 3, 3));
    assert_eq!(parsed("0.33R"), number(&[0, 3, 3], 2, 0));
    assert_eq!(parsed("1M12"), number(&[1, 1, 2], 2, 6));
}

#[test]
fn every_multiplier_letter() {
    assert_eq!(parsed("1G"), number(&[1], 0, 12));
    assert_eq!(parsed("1M"), number(&[1], 0, 6));
    assert_eq!(parsed("1k"), number(&[1], 0, 3));
    assert_eq!(parsed("1K"), number(&[1], 0, 3));
    assert_eq!(parsed("1R"), number(&[1], 0, 0));
    assert_eq!(parsed("1m"), number(&[1], 0, -3));
    assert_eq!(parsed("1u"), number(&[1], 0, -6));
    assert_eq!(parsed("1n"), number(&[1], 0, -9));
    assert_eq!(parsed("1p"), number(&[1], 0, -12));
}

#[test]
fn giga_is_ten_to_the_twelfth() {
    assert!(close(magnitude(&parsed("2G")), 2e12));
}

#[test]
fn plain_numbers() {
    assert_eq!(parsed("0.3"), number(&[0, 3], 1, 0));
    assert_eq!(parsed("100"), number(&[1, 0, 0], 0, 0));
    assert_eq!(parsed("5."), number(&[5], 0, 0));
    assert_eq!(parsed(".5"), number(&[5], 1, 0));
}

#[test]
fn letter_in_place_of_the_point() {
    assert_eq!(parsed("4R7"), number(&[4, 7], 1, 0));
    assert_eq!(parsed("R47"), number(&[4, 7], 2, 0));
    assert!(close(magnitude(&parsed("R47")), 0.47));
}

#[test]
fn unit_suffix_is_ignored() {
    assert_eq!(parsed("10MHz"), number(&[1, 0], 0, 6));
    assert_eq!(parsed("1H"), number(&[1], 0, 0));
    assert_eq!(parsed("100 ohm"), number(&[1, 0, 0], 0, 0));
    assert_eq!(parsed("4k7ohm"), number(&[4, 7], 1, 3));
}

#[test]
fn only_the_first_token_counts() {
    assert_eq!(parsed("100nF, tolerance 5%"), number(&[1, 0, 0], 0, -9));
    assert_eq!(parsed("2k3,1%"), number(&[2, 3], 1, 3));
    assert_eq!(parsed("0,33R"), number(&[0], 0, 0));
}

#[test]
fn white_space_around_the_token() {
    assert_eq!(parsed("  100nF  "), number(&[1, 0, 0], 0, -9));
    assert_eq!(parsed("\t1k5 , x"), number(&[1, 5], 1, 3));
    assert_eq!(parsed("\u{a0}1k\u{a0}"), number(&[1], 0, 3));
}

#[test]
fn not_populated_is_exact() {
    assert_eq!(parsed("NP"), EngineeringValue::NotPopulated);
    assert!(convert_comment_to_value(" NP").is_err());
    assert!(convert_comment_to_value("np").is_err());
    assert!(convert_comment_to_value("NP ").is_err());
}

#[test]
fn unreadable_comments_carry_their_text() {
    for text in ["", "abc", "k", "nF", ".", "1.5k3", "1.k3", "-5", ",100", "   "] {
        let err = convert_comment_to_value(text).unwrap_err();
        assert_eq!(err.text, text);
    }
}

#[test]
fn long_numbers_are_exact() {
    let text = "123456789012345678901234567890k5";
    let mut digits: Vec<u8> = Vec::new();
    for _ in 0..3 {
        digits.extend_from_slice(&[1, 2, 3, 4, 5, 6, 7, 8, 9, 0]);
    }
    digits.push(5);
    assert_eq!(parsed(text), number(&digits, 1, 3));
}

#[test]
fn units_by_first_letter() {
    assert_eq!(detect_measure_unit("R1"), MeasureUnit::Ohm);
    assert_eq!(detect_measure_unit("r1"), MeasureUnit::Ohm);
    assert_eq!(detect_measure_unit("RN3"), MeasureUnit::Ohm);
    assert_eq!(detect_measure_unit("C45"), MeasureUnit::Farad);
    assert_eq!(detect_measure_unit("L2"), MeasureUnit::Henry);
    assert_eq!(detect_measure_unit("Y1"), MeasureUnit::Hertz);
    assert_eq!(detect_measure_unit("U7"), MeasureUnit::Unknown);
    assert_eq!(detect_measure_unit("1R"), MeasureUnit::Unknown);
    assert_eq!(detect_measure_unit(""), MeasureUnit::Unknown);
}

#[test]
fn unit_symbols() {
    assert_eq!(MeasureUnit::Ohm.symbol(), "ohm");
    assert_eq!(MeasureUnit::Farad.symbol(), "F");
    assert_eq!(MeasureUnit::Henry.symbol(), "H");
    assert_eq!(MeasureUnit::Hertz.symbol(), "Hz");
    assert_eq!(MeasureUnit::Unknown.symbol(), "");
}
