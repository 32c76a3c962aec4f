use mergebom::category::Category;
use mergebom::header::Header;
use mergebom::header::HeaderMap;
use mergebom::items::ExtraCol;
use mergebom::rows::parse_data;
use mergebom::rows::parse_row;
use mergebom::rows::split_designators;
use mergebom::rows::Warning;
use mergebom::rows::WarningKind;
use mergebom::value::EngineeringValue;
use mergebom::value::MeasureUnit;

fn col(key: Header, label: &str, index: usize) -> HeaderMap {
    HeaderMap { key, label: label.to_string(), index }
}

fn mapping() -> Vec<HeaderMap> {
    vec![
        col(Header::Designator, "Designator", 0),
        col(Header::Comment, "Comment", 1),
        col(Header::Footprint, "Footprint", 2),
        col(Header::Description, "Description", 3),
        col(Header::Layer, "Layer", 4),
        col(Header::Extra, "Code farnell", 5),
    ]
}

fn row(cells: &[&str]) -> Vec<String> {
    cells.iter().map(|c| c.to_string()).collect()
}

#[test]
fn a_full_row() {
    let mut warnings: Vec<Warning> = Vec::new();
    let item = parse_row(
        &row(&["R1, R2 ,R3", "2k3", "0805", "resistor", "TopLayer", "12-345a"]),
        &mapping(),
        7,
        &mut warnings,
    )
    .unwrap();
    assert!(warnings.is_empty());
    assert_eq!(item.designator, vec!["R1", "R2", "R3"]);
    assert_eq!(item.category, Category::Resistors);
    assert_eq!(item.measure_unit, MeasureUnit::Ohm);
    assert_eq!(item.comment, "2k3");
    assert_eq!(
        item.base_exp,
        EngineeringValue::Number { digits: vec![2, 3], scale: 1, exponent: 3 }
    );
    assert_eq!(item.footprint, "0805");
    assert_eq!(item.description, "resistor");
    assert_eq!(
        item.extra,
        vec![
            ExtraCol { label: "Layer".to_string(), value: "TOPLAYER".to_string() },
            ExtraCol { label: "Code farnell".to_string(), value: "12-345a".to_string() },
        ]
    );
    assert_eq!(item.unique_id(), "2k30805resistorTOPLAYER12-345a");
}

#[test]
fn connectors_leave_the_comment_out_of_the_key() {
    let mut warnings: Vec<Warning> = Vec::new();
    let item = parse_row(
        &row(&["J1", "USB", "usb-b", "socket", "top", "77"]),
        &mapping(),
        0,
        &mut warnings,
    )
    .unwrap();
    assert_eq!(item.category, Category::Connectors);
    assert_eq!(item.unique_id(), "usb-bsocketTOP77");
    assert_eq!(item.base_exp, EngineeringValue::NotPopulated);
    assert_eq!(warnings.len(), 1);
    assert_eq!(warnings[0], Warning { row: 0, kind: WarningKind::ValueParse, text: "USB".to_string() });
}

#[test]
fn stray_headers_and_blank_rows_are_left_out() {
    let mut warnings: Vec<Warning> = Vec::new();
    let m = mapping();
    assert!(parse_row(&row(&["Designator", "Comment", "", "", "", ""]), &m, 0, &mut warnings).is_none());
    assert!(parse_row(&row(&["", "1k", "0805", "r", "", ""]), &m, 1, &mut warnings).is_none());
    assert!(parse_row(&row(&[]), &m, 2, &mut warnings).is_none());
    assert!(parse_row(&row(&["R1"]), &vec![col(Header::Comment, "Comment", 0)], 3, &mut warnings).is_none());
    assert!(warnings.is_empty());
    assert!(parse_row(&row(&["designator", "1k"]), &m, 4, &mut warnings).is_some());
}

#[test]
fn missing_fields_are_empty() {
    let mut warnings: Vec<Warning> = Vec::new();
    let item = parse_row(&row(&["C1"]), &mapping(), 3, &mut warnings).unwrap();
    assert_eq!(item.designator, vec!["C1"]);
    assert_eq!(item.category, Category::Capacitors);
    assert_eq!(item.measure_unit, MeasureUnit::Farad);
    assert_eq!(item.comment, "");
    assert_eq!(item.base_exp, EngineeringValue::NotPopulated);
    assert_eq!(item.footprint, "");
    assert_eq!(item.description, "");
    assert!(item.extra.is_empty());
    assert_eq!(item.unique_id(), "");
    assert!(warnings.is_empty());
}

#[test]
fn unknown_category_is_kept_and_reported() {
    let mut warnings: Vec<Warning> = Vec::new();
    let item = parse_row(&row(&["ZZ9, R1", "abc"]), &mapping(), 5, &mut warnings).unwrap();
    assert_eq!(item.category, Category::Unknown);
    assert_eq!(item.measure_unit, MeasureUnit::Unknown);
    assert_eq!(
        warnings,
        vec![
            Warning { row: 5, kind: WarningKind::ValueParse, text: "abc".to_string() },
            Warning { row: 5, kind: WarningKind::UnknownCategory, text: "ZZ9".to_string() },
        ]
    );
}

#[test]
fn not_populated_comment() {
    let mut warnings: Vec<Warning> = Vec::new();
    let item = parse_row(&row(&["R1", "NP"]), &mapping(), 0, &mut warnings).unwrap();
    assert_eq!(item.comment, "NP");
    assert_eq!(item.base_exp, EngineeringValue::NotPopulated);
    assert!(warnings.is_empty());
}

#[test]
fn layer_and_mount_technology_are_upper_cased() {
    let m = vec![
        col(Header::Designator, "Designator", 0),
        col(Header::MountTechnology, "Mount Technology", 2),
        col(Header::Layer, "Layer", 1),
        col(Header::Extra, "Note x", 3),
    ];
    let mut warnings: Vec<Warning> = Vec::new();
    let item = parse_row(&row(&["U1", "top", "smd", "keep me"]), &m, 0, &mut warnings).unwrap();
    assert_eq!(
        item.extra,
        vec![
            ExtraCol { label: "Mount Technology".to_string(), value: "SMD".to_string() },
            ExtraCol { label: "Layer".to_string(), value: "TOP".to_string() },
            ExtraCol { label: "Note x".to_string(), value: "keep me".to_string() },
        ]
    );
    assert_eq!(item.unique_id(), "SMDTOPkeep me");
}

#[test]
fn quantity_column_is_not_read() {
    let m = vec![col(Header::Quantity, "Quantity", 0), col(Header::Designator, "Designator", 1)];
    let mut warnings: Vec<Warning> = Vec::new();
    let item = parse_row(&row(&["3", "U1,U2,U3"]), &m, 0, &mut warnings).unwrap();
    assert!(item.extra.is_empty());
    assert_eq!(item.designator.len(), 3);
}

#[test]
fn the_last_column_of_a_role_counts() {
    let m = vec![
        col(Header::Designator, "Designator", 0),
        col(Header::Designator, "Designator", 1),
        col(Header::Comment, "Comment", 2),
        col(Header::Comment, "Comment", 9),
    ];
    let mut warnings: Vec<Warning> = Vec::new();
    let item = parse_row(&row(&["C1", "R1", "1k"]), &m, 0, &mut warnings).unwrap();
    assert_eq!(item.designator, vec!["R1"]);
    assert_eq!(item.comment, "");
}

#[test]
fn designators_are_split_and_trimmed() {
    assert_eq!(split_designators("R1"), vec!["R1"]);
    assert_eq!(split_designators(" R1 ,\tR2,R3\u{a0}"), vec!["R1", "R2", "R3"]);
    assert_eq!(split_designators("R1,,R2,"), vec!["R1", "", "R2", ""]);
    assert_eq!(split_designators(","), vec!["", ""]);
    assert_eq!(split_designators(""), vec![""]);
}

#[test]
fn rows_below_the_header() {
    let grid: Vec<Vec<String>> = vec![
        row(&["R9", "9k", "x", "x", "", ""]),
        row(&["Designator", "Comment", "Footprint", "Description", "Layer", "CODE farnell"]),
        row(&["R1,R2", "2k3", "0805", "resistor", "", ""]),
        row(&["", "", "", "", "", ""]),
        row(&["Q1", "bc847", "sot23", "npn", "", ""]),
    ];
    let parsed = parse_data(&grid, &mapping(), 2);
    assert_eq!(parsed.items.len(), 2);
    assert_eq!(parsed.items[0].designator, vec!["R1", "R2"]);
    assert_eq!(parsed.items[1].designator, vec!["Q1"]);
    assert_eq!(
        parsed.warnings,
        vec![Warning { row: 4, kind: WarningKind::ValueParse, text: "bc847".to_string() }]
    );
    assert!(parse_data(&grid, &mapping(), 5).items.is_empty());
    assert!(parse_data(&grid, &mapping(), 99).items.is_empty());
    assert_eq!(parse_data(&grid, &mapping(), 0).items.len(), 3);
}
