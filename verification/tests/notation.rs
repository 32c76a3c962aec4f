use mergebom::notation::join;
use mergebom::notation::number_text;
use mergebom::notation::value_to_eng_notation;
use mergebom::value::convert_comment_to_value;
use mergebom::value::EngineeringValue;
use mergebom::value::MeasureUnit;

fn number(digits: &[u8], scale: usize, exponent: i32) -> EngineeringValue {
    EngineeringValue::Number { digits: digits.to_vec(), scale, exponent }
}

#[test]
fn numbers_in_decimal() {
    assert_eq!(number_text(0), "0");
    assert_eq!(number_text(7), "7");
    assert_eq!(number_text(10), "10");
    assert_eq!(number_text(1048576), "1048576");
    assert_eq!(number_text(u64::MAX), "18446744073709551615");
}

#[test]
fn joined_texts() {
    let list: Vec<String> = vec!["R1".to_string(), "R2".to_string(), "R3".to_string()];
    assert_eq!(join(&list, ", "), "R1, R2, R3");
    assert_eq!(join(&list[..1].to_vec(), ", "), "R1");
    assert_eq!(join(&Vec::new(), ", "), "");
    assert_eq!(join(&vec!["".to_string(), "".to_string()], "-"), "-");
}

#[test]
fn values_in_engineering_notation() {
    assert_eq!(value_to_eng_notation(&EngineeringValue::NotPopulated, MeasureUnit::Ohm), "NP");
    assert_eq!(value_to_eng_notation(&number(&[2, 3], 1, 3), MeasureUnit::Ohm), "2.3kohm");
    assert_eq!(value_to_eng_notation(&number(&[1, 0, 0], 0, -9), MeasureUnit::Farad), "100nF");
    assert_eq!(value_to_eng_notation(&number(&[0, 3, 3], 2, 0), MeasureUnit::Ohm), "0.33ohm");
    assert_eq!(value_to_eng_notation(&number(&[4, 7], 2, 0), MeasureUnit::Ohm), "0.47ohm");
    assert_eq!(value_to_eng_notation(&number(&[4], 0, -3), MeasureUnit::Henry), "4mH");
    assert_eq!(value_to_eng_notation(&number(&[1, 0], 0, 6), MeasureUnit::Hertz), "10MHz");
    assert_eq!(value_to_eng_notation(&number(&[1, 1, 2], 2, 6), MeasureUnit::Unknown), "1.12M");
    assert_eq!(value_to_eng_notation(&number(&[5], 0, 12), MeasureUnit::Unknown), "5G");
    assert_eq!(value_to_eng_notation(&number(&[5], 0, -6), MeasureUnit::Farad), "5uF");
    assert_eq!(value_to_eng_notation(&number(&[5], 0, -12), MeasureUnit::Farad), "5pF");
}

#[test]
fn values_out_of_the_ordinary() {
    assert_eq!(value_to_eng_notation(&number(&[], 0, 0), MeasureUnit::Unknown), "0");
    assert_eq!(value_to_eng_notation(&number(&[1, 2], 5, 0), MeasureUnit::Unknown), "0.12");
    assert_eq!(value_to_eng_notation(&number(&[1, 12], 0, 0), MeasureUnit::Unknown), "1?");
    assert_eq!(value_to_eng_notation(&number(&[1], 0, 7), MeasureUnit::Ohm), "1e7ohm");
    assert_eq!(value_to_eng_notation(&number(&[1], 0, -1), MeasureUnit::Ohm), "1e-1ohm");
    assert_eq!(
        value_to_eng_notation(&number(&[1], 0, i32::MIN), MeasureUnit::Unknown),
        "1e-2147483648"
    );
}

#[test]
fn notation_reads_back() {
    for text in ["100nF", "1R0", "1k", "2k3", "4mH", "1k5", "5K421", "0.33R", "1M12", "R47", "7G"] {
        for unit in [
            MeasureUnit::Ohm,
            MeasureUnit::Farad,
            MeasureUnit::Henry,
            MeasureUnit::Hertz,
            MeasureUnit::Unknown,
        ] {
            let value = convert_comment_to_value(text).unwrap();
            let written = value_to_eng_notation(&value, unit);
            let again = convert_comment_to_value(&written).unwrap();
            assert_eq!(value_to_eng_notation(&again, unit), written);
            match (value, again) {
                (
                    EngineeringValue::Number { digits: a, scale: sa, exponent: ea },
                    EngineeringValue::Number { digits: b, scale: sb, exponent: eb },
                ) => {
                    assert_eq!(sa, sb);
                    assert_eq!(ea, eb);
                    let strip = |d: &Vec<u8>| d.iter().skip_while(|x| **x == 0).cloned().collect::<Vec<u8>>();
                    assert_eq!(strip(&a), strip(&b));
                }
                _ => panic!("a number was expected"),
            }
        }
    }
}
