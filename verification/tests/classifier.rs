use mergebom::category::guess_category;
use mergebom::category::Category;

fn prefix(text: &str) -> Category {
    mergebom::category::lookup_prefix(&text.chars().collect())
}

#[test]
fn category_table() {
    assert_eq!(guess_category("R123"), Category::Resistors);
    assert_eq!(guess_category("C45"), Category::Capacitors);
    assert_eq!(guess_category("L2"), Category::Inductors);
    assert_eq!(guess_category("Y1"), Category::Crystal);
    assert_eq!(guess_category("Q3"), Category::Transistor);
    assert_eq!(guess_category("U7"), Category::IC);
    assert_eq!(guess_category("J1"), Category::Connectors);
    assert_eq!(guess_category("D2"), Category::Diode);
    assert_eq!(guess_category("ZZ9"), Category::Unknown);
}

#[test]
fn every_prefix_of_the_table() {
    for p in ["J", "X", "P", "SIM"] {
        assert_eq!(guess_category(&format!("{}1", p)), Category::Connectors);
    }
    for p in ["S", "SCR", "SPA", "BAT", "BUZ", "BT", "B", "SW", "MP", "K"] {
        assert_eq!(guess_category(&format!("{}1", p)), Category::Mechanicals);
    }
    for p in ["F", "FU"] {
        assert_eq!(guess_category(&format!("{}1", p)), Category::Fuses);
    }
    for p in ["R", "RN"] {
        assert_eq!(guess_category(&format!("{}1", p)), Category::Resistors);
    }
    for p in ["C", "CAP"] {
        assert_eq!(guess_category(&format!("{}1", p)), Category::Capacitors);
    }
    for p in ["D", "DZ"] {
        assert_eq!(guess_category(&format!("{}1", p)), Category::Diode);
    }
    assert_eq!(guess_category("L1"), Category::Inductors);
    assert_eq!(guess_category("Q1"), Category::Transistor);
    assert_eq!(guess_category("TR4"), Category::Transformer);
    assert_eq!(guess_category("Y1"), Category::Crystal);
    assert_eq!(guess_category("U1"), Category::IC);
}

#[test]
fn prefix_table_lookup() {
    assert_eq!(prefix("R_G"), Category::Resistors);
    assert_eq!(prefix("SIM"), Category::Connectors);
    assert_eq!(prefix("TR"), Category::Transformer);
    assert_eq!(prefix("T"), Category::Unknown);
    assert_eq!(prefix("r"), Category::Unknown);
    assert_eq!(prefix(""), Category::Unknown);
    assert_eq!(prefix("CAPS"), Category::Unknown);
}

#[test]
fn case_does_not_matter() {
    assert_eq!(guess_category("r12"), Category::Resistors);
    assert_eq!(guess_category("tr4"), Category::Transformer);
    assert_eq!(guess_category("Sim1"), Category::Connectors);
}

#[test]
fn at_most_three_letters_count() {
    assert_eq!(guess_category("SIMCARD1"), Category::Connectors);
    assert_eq!(guess_category("CAPX"), Category::Capacitors);
    assert_eq!(guess_category("RESET"), Category::Unknown);
}

#[test]
fn underscore_ends_the_letters() {
    assert_eq!(guess_category("R_G1"), Category::Resistors);
    assert_eq!(guess_category("C_X"), Category::Capacitors);
}

#[test]
fn no_leading_letter_is_unknown() {
    assert_eq!(guess_category(""), Category::Unknown);
    assert_eq!(guess_category("123"), Category::Unknown);
    assert_eq!(guess_category(" R1"), Category::Unknown);
    assert_eq!(guess_category("\u{e9}1"), Category::Unknown);
}

#[test]
fn categories_are_ordered() {
    let all = [
        Category::Connectors,
        Category::Mechanicals,
        Category::Fuses,
        Category::Resistors,
        Category::Capacitors,
        Category::Diode,
        Category::Inductors,
        Category::Transistor,
        Category::Transformer,
        Category::Crystal,
        Category::IC,
        Category::Unknown,
    ];
    for (i, c) in all.iter().enumerate() {
        assert_eq!(c.index() as usize, i);
        assert_eq!(Category::from_index(i as u8), *c);
    }
    for w in all.windows(2) {
        assert!(w[0] < w[1]);
    }
    assert_eq!(Category::from_index(200), Category::Unknown);
}
