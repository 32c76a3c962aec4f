use mergebom::category::Category;
use mergebom::items::Item;
use mergebom::text::chars_of;
use mergebom::text::find_comma;
use mergebom::text::fold;
use mergebom::text::is_whitespace;
use mergebom::text::spells;
use mergebom::text::split_commas;
use mergebom::text::str_eq;
use mergebom::text::trim;
use mergebom::value::EngineeringValue;
use mergebom::value::MeasureUnit;

#[test]
fn characters_of_a_text() {
    assert_eq!(chars_of(""), Vec::<char>::new());
    assert_eq!(chars_of("R1"), vec!['R', '1']);
    assert_eq!(chars_of("\u{b5}F\u{3a9}"), vec!['\u{b5}', 'F', '\u{3a9}']);
}

#[test]
fn equal_texts() {
    assert!(str_eq("", ""));
    assert!(str_eq("Designator", "Designator"));
    assert!(!str_eq("Designator", "designator"));
    assert!(!str_eq("Designator", "Designato"));
    assert!(!str_eq("a", "b"));
}

#[test]
fn white_space_is_the_unicode_property() {
    let mut code: u32 = 0;
    while code <= 0x10ffff {
        if let Some(c) = char::from_u32(code) {
            assert_eq!(is_whitespace(c), c.is_whitespace());
        }
        code += 1;
    }
}

#[test]
fn folding_the_case() {
    assert_eq!(fold("DeSiGnAtOr_1"), chars_of("designator_1"));
    assert_eq!(fold("AZaz@[`{"), chars_of("azaz@[`{"));
    assert_eq!(fold("\u{c9}\u{212a}"), chars_of("\u{c9}\u{212a}"));
    assert!(spells(&fold("Layer"), "layer"));
    assert!(!spells(&fold("Layer"), "Layer"));
    assert!(!spells(&fold("Layers"), "layer"));
}

#[test]
fn trimming() {
    assert_eq!(trim(""), "");
    assert_eq!(trim("   "), "");
    assert_eq!(trim("R1"), "R1");
    assert_eq!(trim("  R1"), "R1");
    assert_eq!(trim("R1 \t\r\n"), "R1");
    assert_eq!(trim(" a b "), "a b");
    assert_eq!(trim("\u{a0}\u{2003}x\u{3000}"), "x");
    assert_eq!(trim("\u{200b}x"), "\u{200b}x");
    for s in ["", " ", " x ", "\u{b5} \u{3a9} ", "\n\ta,b "] {
        assert_eq!(trim(s), s.trim());
    }
}

#[test]
fn first_comma() {
    assert_eq!(find_comma(&chars_of("")), 0);
    assert_eq!(find_comma(&chars_of("abc")), 3);
    assert_eq!(find_comma(&chars_of(",abc")), 0);
    assert_eq!(find_comma(&chars_of("ab,c,d")), 2);
}

#[test]
fn splitting_at_commas() {
    for s in ["", ",", "a", "a,b", ",a", "a,", "a,,b", " a , b ", "\u{3a9},\u{b5}"] {
        let expected: Vec<String> = s.split(',').map(|p| p.to_string()).collect();
        assert_eq!(split_commas(s), expected);
    }
}

#[test]
fn lines_are_equal_by_their_key() {
    let line = |comment: &str, footprint: &str, designator: &str| {
        Item::new(
            Category::Resistors,
            EngineeringValue::NotPopulated,
            MeasureUnit::Ohm,
            vec![designator.to_string()],
            comment.to_string(),
            footprint.to_string(),
            String::new(),
            Vec::new(),
        )
    };
    assert!(line("1k", "0805", "R1") == line("1k", "0805", "R2"));
    assert!(line("1k0", "805", "R1") == line("1k", "0805", "R1"));
    assert!(line("1k", "0805", "R1") != line("2k", "0805", "R1"));
}
