use mergebom::header::find_headers;
use mergebom::header::header_for;
use mergebom::header::push_cell_entries;
use mergebom::header::BomError;
use mergebom::header::Header;
use mergebom::header::HeaderMap;

fn grid(rows: &[&[&str]]) -> Vec<Vec<String>> {
    rows.iter().map(|r| r.iter().map(|c| c.to_string()).collect()).collect()
}

fn check(found: &[HeaderMap], expected: &[(Header, &str, usize)]) {
    assert_eq!(found.len(), expected.len());
    for (n, i) in found.iter().enumerate() {
        assert_eq!(i.key, expected[n].0);
        assert_eq!(i.label, expected[n].1);
        assert_eq!(i.index, expected[n].2);
    }
}

#[test]
fn test_find_headers() {
    let boms = [
        grid(&[
            &["", "Comment", "Description", "Designator", "Footprint"],
            &["", "100nF", "cap", "C1", "0603"],
        ]),
        grid(&[
            &["Bill of materials"],
            &[
                "",
                "Designator",
                "Comment",
                "Footprint",
                "Description",
                "CODE farnell",
                "NOTE produzione",
                "CODE digikey",
            ],
            &["", "R1", "1k", "0805", "resistor", "123", "", "456"],
        ]),
        grid(&[
            &["Description", "", "Comment", "Footprint", "", "Designator"],
            &["cap", "", "100nF", "0603", "", "C1"],
        ]),
    ];

    let header_map_check = (
        [
            (Header::Designator, "Designator", 3),
            (Header::Comment, "Comment", 1),
            (Header::Footprint, "Footprint", 4),
            (Header::Description, "Description", 2),
        ],
        [
            (Header::Designator, "Designator", 1),
            (Header::Comment, "Comment", 2),
            (Header::Footprint, "Footprint", 3),
            (Header::Description, "Description", 4),
            (Header::Extra, "Code farnell", 5),
            (Header::Extra, "Note produzione", 6),
            (Header::Extra, "Code digikey", 7),
        ],
        [
            (Header::Designator, "Designator", 5),
            (Header::Comment, "Comment", 2),
            (Header::Footprint, "Footprint", 3),
            (Header::Description, "Description", 0),
        ],
    );

    let scan = find_headers(&boms[0]).unwrap();
    check(&scan.headers, &header_map_check.0);
    assert_eq!(scan.row, 0);

    let scan = find_headers(&boms[1]).unwrap();
    check(&scan.headers, &header_map_check.1);
    assert_eq!(scan.row, 1);

    let scan = find_headers(&boms[2]).unwrap();
    check(&scan.headers, &header_map_check.2);
    assert_eq!(scan.row, 0);
}

#[test]
fn synthetic_header_row() {
    let g = grid(&[&["", "Comment", "Description", "Designator", "Footprint"]]);
    let scan = find_headers(&g).unwrap();
    check(
        &scan.headers,
        &[
            (Header::Designator, "Designator", 3),
            (Header::Comment, "Comment", 1),
            (Header::Footprint, "Footprint", 4),
            (Header::Description, "Description", 2),
        ],
    );
}

#[test]
fn no_designator_is_refused() {
    let g = grid(&[&["Comment", "Footprint"], &["1k", "0805"]]);
    assert_eq!(find_headers(&g).unwrap_err(), BomError::HeaderNotFound);
    assert_eq!(find_headers(&Vec::new()).unwrap_err(), BomError::HeaderNotFound);
    assert_eq!(find_headers(&grid(&[&[]])).unwrap_err(), BomError::HeaderNotFound);
}

#[test]
fn names_match_whatever_the_case() {
    let g = grid(&[&[
        "QUANTITY",
        "designator",
        "CoMmEnT",
        "FOOTPRINT",
        "description",
        "MountTechnology",
        "LAYER",
    ]]);
    let scan = find_headers(&g).unwrap();
    check(
        &scan.headers,
        &[
            (Header::Quantity, "Quantity", 0),
            (Header::Designator, "Designator", 1),
            (Header::Comment, "Comment", 2),
            (Header::Footprint, "Footprint", 3),
            (Header::Description, "Description", 4),
            (Header::MountTechnology, "Mount Technology", 5),
            (Header::Layer, "Layer", 6),
        ],
    );
    let g = grid(&[&["Mount_Technology", "Designator"]]);
    let scan = find_headers(&g).unwrap();
    check(
        &scan.headers,
        &[(Header::Designator, "Designator", 1), (Header::MountTechnology, "Mount Technology", 0)],
    );
}

#[test]
fn names_match_exactly() {
    let g = grid(&[&[" Designator", "Designators", "Designator"]]);
    let scan = find_headers(&g).unwrap();
    check(&scan.headers, &[(Header::Designator, "Designator", 2)]);
}

#[test]
fn scan_stops_after_the_header_row() {
    let g = grid(&[
        &["Comment", "", ""],
        &["", "Designator", "Footprint"],
        &["Description", "R1", "CODE late"],
    ]);
    let scan = find_headers(&g).unwrap();
    assert_eq!(scan.row, 1);
    check(
        &scan.headers,
        &[
            (Header::Designator, "Designator", 1),
            (Header::Comment, "Comment", 0),
            (Header::Footprint, "Footprint", 2),
        ],
    );
}

#[test]
fn the_whole_header_row_is_read() {
    let g = grid(&[&["Designator", "Comment", "NOTE x"]]);
    let scan = find_headers(&g).unwrap();
    check(
        &scan.headers,
        &[
            (Header::Designator, "Designator", 0),
            (Header::Comment, "Comment", 1),
            (Header::Extra, "Note x", 2),
        ],
    );
}

#[test]
fn repeated_columns_count_once() {
    let g = grid(&[
        &["Comment", "x"],
        &["Designator", "Comment", "Designator", "CODE a", "CODE b", "CODE a"],
    ]);
    let scan = find_headers(&g).unwrap();
    check(
        &scan.headers,
        &[
            (Header::Designator, "Designator", 2),
            (Header::Comment, "Comment", 1),
            (Header::Extra, "Code b", 4),
            (Header::Extra, "Code a", 5),
        ],
    );
}

#[test]
fn the_header_row_overrides_the_rows_above_it() {
    let g = grid(&[
        &["Comment", "Footprint", "NOTE x"],
        &["", "", "", ""],
        &["Footprint", "Designator", "Comment", "NOTE x"],
        &["0805", "R1", "1k", "n"],
    ]);
    let scan = find_headers(&g).unwrap();
    assert_eq!(scan.row, 2);
    check(
        &scan.headers,
        &[
            (Header::Designator, "Designator", 1),
            (Header::Comment, "Comment", 2),
            (Header::Footprint, "Footprint", 0),
            (Header::Extra, "Note x", 3),
        ],
    );
}

#[test]
fn code_and_note_patterns() {
    let g = grid(&[&[
        "Designator",
        "CODE farnell",
        "code farnell",
        "CODE",
        "CODE\tmouser x",
        "BARCODE z",
        "CODE NOTE q",
        "CODEx",
        "CODE ",
    ]]);
    let scan = find_headers(&g).unwrap();
    check(
        &scan.headers,
        &[
            (Header::Designator, "Designator", 0),
            (Header::Extra, "Code farnell", 1),
            (Header::Extra, "Code mouser x", 4),
            (Header::Extra, "Code z", 5),
            (Header::Extra, "Code NOTE q", 6),
            (Header::Extra, "Note q", 6),
            (Header::Extra, "Code ", 8),
        ],
    );
}

#[test]
fn header_for_each_name() {
    assert_eq!(header_for("quantity"), Some(Header::Quantity));
    assert_eq!(header_for("designator"), Some(Header::Designator));
    assert_eq!(header_for("comment"), Some(Header::Comment));
    assert_eq!(header_for("footprint"), Some(Header::Footprint));
    assert_eq!(header_for("description"), Some(Header::Description));
    assert_eq!(header_for("mounttechnology"), Some(Header::MountTechnology));
    assert_eq!(header_for("mount_technology"), Some(Header::MountTechnology));
    assert_eq!(header_for("layer"), Some(Header::Layer));
    assert_eq!(header_for("Designator"), Some(Header::Designator));
    assert_eq!(header_for("DESIGNATOR"), Some(Header::Designator));
    assert_eq!(header_for("Mount_Technology"), Some(Header::MountTechnology));
    assert_eq!(header_for("extra"), None);
    assert_eq!(header_for(""), None);
    assert_eq!(header_for("designator "), None);
    assert_eq!(header_for("mount technology"), None);
}

#[test]
fn names_match_as_their_lower_case_does() {
    for text in [
        "Designator",
        "DESIGNATOR",
        "des\u{131}gnator",
        "DES\u{130}GNATOR",
        "\u{212a}",
        "layer",
        "LAYER",
        "Layer\u{301}",
        "COMMENT",
        "Quantity",
        "FootPrint",
        "Description",
        "MOUNTTECHNOLOGY",
        "mount_Technology",
        "",
    ] {
        let lower = text.to_lowercase();
        let expected = match lower.as_str() {
            "quantity" => Some(Header::Quantity),
            "designator" => Some(Header::Designator),
            "comment" => Some(Header::Comment),
            "footprint" => Some(Header::Footprint),
            "description" => Some(Header::Description),
            "mounttechnology" | "mount_technology" => Some(Header::MountTechnology),
            "layer" => Some(Header::Layer),
            _ => None,
        };
        assert_eq!(header_for(text), expected);
    }
}

#[test]
fn cell_entries_from_captures() {
    let mut out: Vec<HeaderMap> = Vec::new();
    push_cell_entries(&mut out, "comment", Some("x".to_string()), None, 4);
    push_cell_entries(&mut out, "other", Some("a".to_string()), Some("b".to_string()), 5);
    push_cell_entries(&mut out, "other", None, Some("c".to_string()), 6);
    push_cell_entries(&mut out, "other", None, None, 7);
    check(
        &out,
        &[
            (Header::Comment, "Comment", 4),
            (Header::Extra, "Code a", 5),
            (Header::Extra, "Note b", 5),
            (Header::Extra, "Note c", 6),
        ],
    );
}

#[test]
fn roles_are_ordered() {
    let all = [
        Header::Quantity,
        Header::Designator,
        Header::Comment,
        Header::Footprint,
        Header::Description,
        Header::MountTechnology,
        Header::Layer,
        Header::Extra,
    ];
    for (i, h) in all.iter().enumerate() {
        assert_eq!(h.index() as usize, i);
        assert_eq!(Header::from_index(i as u8), *h);
    }
    for w in all.windows(2) {
        assert!(w[0] < w[1]);
    }
}
