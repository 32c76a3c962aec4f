use mergebom::category::Category;
use mergebom::header::Header;
use mergebom::header::HeaderMap;
use mergebom::items::ExtraCol;
use mergebom::items::Item;
use mergebom::parser::DataParser;
use mergebom::report::fits;
use mergebom::report::layout;
use mergebom::report::report_row;
use mergebom::report::CellStyle;
use mergebom::report::SheetCell;
use mergebom::value::EngineeringValue;
use mergebom::value::MeasureUnit;

fn texts(list: &[&str]) -> Vec<String> {
    list.iter().map(|s| s.to_string()).collect()
}

fn cell(row: u32, column: u16, last_column: u16, text: &str, style: CellStyle) -> SheetCell {
    SheetCell { row, column, last_column, text: text.to_string(), style }
}

fn part(category: Category, designators: &[&str], extras: usize) -> Item {
    let extra: Vec<ExtraCol> = (0..extras)
        .map(|n| ExtraCol { label: format!("Code {}", n), value: format!("v{}", n) })
        .collect();
    Item::new(
        category,
        EngineeringValue::Number { digits: vec![1], scale: 0, exponent: 3 },
        MeasureUnit::Ohm,
        texts(designators),
        "1k".to_string(),
        "0805".to_string(),
        "resistor".to_string(),
        extra,
    )
}

#[test]
fn rows_of_the_report() {
    let row = report_row(&part(Category::Resistors, &["R1", "R2", "R3"], 0));
    assert_eq!(row.quantity, "3");
    assert_eq!(row.designator, vec!["R1", "R2", "R3"]);
    assert_eq!(row.comment, "1kohm");
    assert_eq!(row.footprint, "0805");
    assert_eq!(row.description, "resistor");
}

#[test]
fn sheet_of_a_small_bill() {
    let grid: Vec<Vec<String>> = vec![
        texts(&["Designator", "Comment", "Footprint", "Description", "CODE farnell"]),
        texts(&["R1,R2", "2k3", "0805", "resistor", "f1"]),
        texts(&["C1", "100nF", "0603", "cap", "f2"]),
        texts(&["R3", "2k3", "0805", "resistor", "f1"]),
        texts(&["R4", "NP", "0805", "resistor", ""]),
    ];
    let parser = DataParser::new(&grid).unwrap();
    let cells = layout(parser.headers(), parser.items(), &parser.categories()).unwrap();
    let expected = vec![
        cell(0, 0, 0, "Qty", CellStyle::Quantity),
        cell(0, 1, 1, "Designator", CellStyle::Header),
        cell(0, 2, 2, "Comment", CellStyle::Header),
        cell(0, 3, 3, "Footprint", CellStyle::Header),
        cell(0, 4, 4, "Description", CellStyle::Header),
        cell(0, 5, 5, "Code farnell", CellStyle::Header),
        cell(1, 0, 5, "Resistors", CellStyle::Category),
        cell(2, 0, 0, "3", CellStyle::Quantity),
        cell(2, 1, 1, "R1, R2, R3", CellStyle::Plain),
        cell(2, 2, 2, "2.3kohm", CellStyle::Plain),
        cell(2, 3, 3, "0805", CellStyle::Plain),
        cell(2, 4, 4, "resistor", CellStyle::Plain),
        cell(2, 7, 7, "f1", CellStyle::Plain),
        cell(3, 0, 0, "1", CellStyle::Quantity),
        cell(3, 1, 1, "R4", CellStyle::Plain),
        cell(3, 2, 2, "NP", CellStyle::Plain),
        cell(3, 3, 3, "0805", CellStyle::Plain),
        cell(3, 4, 4, "resistor", CellStyle::Plain),
        cell(3, 7, 7, "", CellStyle::Plain),
        cell(4, 0, 5, "Capacitors", CellStyle::Category),
        cell(5, 0, 0, "1", CellStyle::Quantity),
        cell(5, 1, 1, "C1", CellStyle::Plain),
        cell(5, 2, 2, "100nF", CellStyle::Plain),
        cell(5, 3, 3, "0603", CellStyle::Plain),
        cell(5, 4, 4, "cap", CellStyle::Plain),
        cell(5, 7, 7, "f2", CellStyle::Plain),
    ];
    assert_eq!(cells, expected);
}

#[test]
fn categories_in_the_order_given() {
    let data = vec![
        part(Category::Resistors, &["R1"], 0),
        part(Category::IC, &["U1"], 2),
        part(Category::Resistors, &["R2"], 0),
    ];
    let cells = layout(&Vec::new(), &data, &vec![Category::IC, Category::Fuses, Category::Resistors])
        .unwrap();
    let rows: Vec<(u32, &str)> = cells
        .iter()
        .filter(|c| c.column == 0)
        .map(|c| (c.row, c.text.as_str()))
        .collect();
    assert_eq!(
        rows,
        vec![(0, "Qty"), (1, "IC"), (2, "1"), (3, "Fuses"), (4, "Resistors"), (5, "1"), (6, "1")]
    );
    let extras: Vec<(u32, u16, &str)> = cells
        .iter()
        .filter(|c| c.column >= 7)
        .map(|c| (c.row, c.column, c.text.as_str()))
        .collect();
    assert_eq!(extras, vec![(2, 7, "v0"), (2, 8, "v1")]);
    assert_eq!(cells[1].last_column, 0);
}

#[test]
fn an_empty_bill() {
    let cells = layout(&Vec::new(), &Vec::new(), &Vec::new()).unwrap();
    assert_eq!(cells, vec![cell(0, 0, 0, "Qty", CellStyle::Quantity)]);
}

#[test]
fn too_many_columns() {
    let one = |n: usize| vec![part(Category::Resistors, &["R1"], n)];
    let none: Vec<HeaderMap> = Vec::new();
    let list = vec![Category::Resistors];
    assert!(fits(&none, &one(16384 - 7), &list));
    assert!(layout(&none, &one(16384 - 7), &list).is_some());
    assert!(!fits(&none, &one(16384 - 6), &list));
    assert!(layout(&none, &one(16384 - 6), &list).is_none());
    let wide = |n: usize| -> Vec<HeaderMap> {
        (0..n).map(|i| HeaderMap { key: Header::Extra, label: String::new(), index: i }).collect()
    };
    assert!(layout(&wide(16383), &Vec::new(), &Vec::new()).is_some());
    assert!(layout(&wide(16384), &Vec::new(), &Vec::new()).is_none());
}

#[test]
fn too_many_rows() {
    let data: Vec<Item> = Vec::new();
    let list = |n: usize| vec![Category::Fuses; n];
    assert!(fits(&Vec::new(), &data, &list(1048575)));
    assert!(!fits(&Vec::new(), &data, &list(1048576)));
    assert!(layout(&Vec::new(), &data, &list(1048576)).is_none());
}
