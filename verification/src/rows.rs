//! Reading the rows of a grid into the lines of a bill of materials, by the
//! column mapping of its header row.

use crate::category::category_of;
use crate::category::guess_category;
use crate::category::Category;
use crate::header::Header;
use crate::header::HeaderMap;
use crate::header::HeaderMapView;
use crate::items::identity_key;
use crate::items::ExtraCol;
use crate::items::ExtraColView;
use crate::items::Item;
use crate::items::ItemView;
use crate::text::comma_split;
use crate::text::split_commas;
use crate::text::str_eq;
use crate::text::trim;
use crate::text::trimmed;
use crate::text::uppercase;
use crate::text::uppercase_of;
use crate::value::convert_comment_to_value;
use crate::value::detect_measure_unit;
use crate::value::parsed_value;
use crate::value::unit_of;
use crate::value::EngineeringValue;
use crate::value::ValueView;
use vstd::prelude::*;
use vstd::string::*;

verus! {

/// What a warning is about.
#[derive(Debug, Clone, Copy, PartialEq, Eq, Structural)]
pub enum WarningKind {
    /// The comment of the row writes no value.
    ValueParse,
    /// The designator of the row belongs to no category.
    UnknownCategory,
}

/// A defect of one row that does not stop the reading: the position of the
/// row in the grid, the kind of defect, and the text that has it.
#[derive(Debug, PartialEq, Eq)]
pub struct Warning {
    pub row: usize,
    pub kind: WarningKind,
    pub text: String,
}

/// What a `Warning` stands for.
pub struct WarningView {
    pub row: int,
    pub kind: WarningKind,
    pub text: Seq<char>,
}

impl View for Warning {
    type V = WarningView;

    open spec fn view(&self) -> WarningView {
        WarningView { row: self.row as int, kind: self.kind, text: self.text@ }
    }
}

impl DeepView for Warning {
    type V = WarningView;

    open spec fn deep_view(&self) -> WarningView {
        self.view()
    }
}

impl Clone for Warning {
    fn clone(&self) -> (r: Self)
        ensures
            r@ == self@,
    {
        Warning { row: self.row, kind: self.kind, text: self.text.clone() }
    }
}

/// The position in a row of the column of role `key`: of the first `upto`
/// entries of the mapping the last one of that role counts. `None` where
/// none of them has the role.
pub open spec fn column_of(headers: Seq<HeaderMapView>, key: Header, upto: int) -> Option<int>
    decreases upto,
{
    if upto <= 0 {
        None
    } else if headers[upto - 1].key == key {
        Some(headers[upto - 1].index)
    } else {
        column_of(headers, key, upto - 1)
    }
}

/// The cell of a row in the column of role `key`. `None` where the mapping
/// has no such column or the row is too short to reach it.
pub open spec fn cell_of(row: Seq<Seq<char>>, headers: Seq<HeaderMapView>, key: Header) -> Option<
    Seq<char>,
> {
    match column_of(headers, key, headers.len() as int) {
        Some(column) => if 0 <= column < row.len() {
            Some(row[column])
        } else {
            None
        },
        None => None,
    }
}

/// The text of a cell, or the empty text where there is no cell.
pub open spec fn text_or_empty(cell: Option<Seq<char>>) -> Seq<char> {
    match cell {
        Some(text) => text,
        None => Seq::empty(),
    }
}

/// The designators that a designator cell lists: its pieces between commas,
/// each without the white space around it.
pub open spec fn designators_of(cell: Seq<char>) -> Seq<Seq<char>> {
    Seq::new(comma_split(cell).len(), |i: int| trimmed(comma_split(cell)[i]))
}

/// Whether the columns of a role go to the extra columns of a line.
pub open spec fn is_extra_role(key: Header) -> bool {
    key == Header::MountTechnology || key == Header::Layer || key == Header::Extra
}

/// The value that a cell gives to an extra column: the cell as it is in a
/// column of codes or notes, in upper case in a column that tells the layer
/// or the mount technology.
pub open spec fn extra_value(key: Header, cell: Seq<char>) -> Seq<char> {
    if key == Header::Extra {
        cell
    } else {
        uppercase_of(cell)
    }
}

/// The extra columns that a row has by the first `upto` entries of the
/// mapping, in the order of the mapping. An entry that the row is too short
/// to reach gives none.
pub open spec fn row_extras(row: Seq<Seq<char>>, headers: Seq<HeaderMapView>, upto: int) -> Seq<
    ExtraColView,
>
    decreases upto,
{
    if upto <= 0 {
        Seq::empty()
    } else {
        let entry = headers[upto - 1];
        let before = row_extras(row, headers, upto - 1);
        if is_extra_role(entry.key) && 0 <= entry.index < row.len() {
            before.push(
                ExtraColView {
                    label: entry.label,
                    value: extra_value(entry.key, row[entry.index]),
                },
            )
        } else {
            before
        }
    }
}

/// Whether a row is left out: it has no designator cell, an empty one, or
/// one that repeats the header.
pub open spec fn is_skipped(row: Seq<Seq<char>>, headers: Seq<HeaderMapView>) -> bool {
    match cell_of(row, headers, Header::Designator) {
        Some(cell) => cell.len() == 0 || cell == "Designator"@,
        None => true,
    }
}

/// The value of a line whose comment cell is `cell`: the value that the
/// comment writes, or the mark of a part that is not populated where there
/// is no comment or it writes no value.
pub open spec fn value_of(cell: Option<Seq<char>>) -> ValueView {
    match cell {
        Some(comment) => match parsed_value(comment) {
            Some(v) => v,
            None => ValueView::NotPopulated,
        },
        None => ValueView::NotPopulated,
    }
}

/// The line that a row gives by a column mapping, or `None` for a row that
/// is left out.
///
/// The first designator decides category and unit. Comment, footprint and
/// description are the cells of their columns, empty where the row has no
/// such cell.
pub open spec fn row_item(row: Seq<Seq<char>>, headers: Seq<HeaderMapView>) -> Option<ItemView> {
    if is_skipped(row, headers) {
        None
    } else {
        let designator = designators_of(cell_of(row, headers, Header::Designator)->Some_0);
        let category = category_of(designator[0]);
        let comment = text_or_empty(cell_of(row, headers, Header::Comment));
        let footprint = text_or_empty(cell_of(row, headers, Header::Footprint));
        let description = text_or_empty(cell_of(row, headers, Header::Description));
        let extra = row_extras(row, headers, headers.len() as int);
        Some(
            ItemView {
                unique_id: identity_key(category, comment, footprint, description, extra),
                category,
                base_exp: value_of(cell_of(row, headers, Header::Comment)),
                measure_unit: unit_of(designator[0]),
                designator,
                comment,
                footprint,
                description,
                extra,
            },
        )
    }
}

/// The warnings that the row at position `line` gives: one where its comment
/// writes no value, then one where its first designator belongs to no
/// category. A row that is left out gives none.
pub open spec fn row_warnings(row: Seq<Seq<char>>, headers: Seq<HeaderMapView>, line: int) -> Seq<
    WarningView,
> {
    if is_skipped(row, headers) {
        Seq::empty()
    } else {
        let designator = designators_of(cell_of(row, headers, Header::Designator)->Some_0);
        let comment = cell_of(row, headers, Header::Comment);
        let about_value = if comment is Some && parsed_value(comment->Some_0) is None {
            seq![WarningView { row: line, kind: WarningKind::ValueParse, text: comment->Some_0 }]
        } else {
            Seq::empty()
        };
        let about_category = if category_of(designator[0]) == Category::Unknown {
            seq![
                WarningView { row: line, kind: WarningKind::UnknownCategory, text: designator[0] },
            ]
        } else {
            Seq::empty()
        };
        about_value + about_category
    }
}

/// Finds the cell of a row in the column of role `key`.
pub fn find_cell<'a>(row: &'a Vec<String>, headers: &[HeaderMap], key: Header) -> (r: Option<
    &'a String,
>)
    ensures
        match r {
            Some(cell) => cell_of(row.deep_view(), headers.deep_view(), key) == Some(cell@),
            None => cell_of(row.deep_view(), headers.deep_view(), key) is None,
        },
{
    let ghost columns = headers.deep_view();
    let mut i: usize = headers.len();
    while i > 0
        invariant
            columns == headers.deep_view(),
            i <= headers.len(),
            column_of(columns, key, headers.len() as int) == column_of(columns, key, i as int),
        decreases i,
    {
        assert(columns[i - 1] == headers[i - 1]@);
        if headers[i - 1].key == key {
            let column = headers[i - 1].index;
            if column < row.len() {
                assert(row.deep_view()[column as int] == row[column as int]@);
                return Some(&row[column]);
            }
            return None;
        }
        i -= 1;
    }
    None
}

/// Trims each piece of a designator cell.
pub fn split_designators(cell: &str) -> (r: Vec<String>)
    ensures
        r.deep_view() == designators_of(cell@),
        r.len() >= 1,
{
    let pieces = split_commas(cell);
    let mut out: Vec<String> = Vec::new();
    let mut i: usize = 0;
    while i < pieces.len()
        invariant
            pieces.deep_view() == comma_split(cell@),
            i <= pieces.len(),
            out.len() == i,
            forall|j: int| 0 <= j < i ==> (#[trigger] out@[j])@ == trimmed(comma_split(cell@)[j]),
        decreases pieces.len() - i,
    {
        assert(pieces.deep_view()[i as int] == pieces[i as int]@);
        out.push(trim(pieces[i].as_str()));
        i += 1;
    }
    assert(out.deep_view() =~= designators_of(cell@));
    out
}

/// Gathers the extra columns of a row.
pub fn collect_extras(row: &Vec<String>, headers: &[HeaderMap]) -> (r: Vec<ExtraCol>)
    ensures
        r.deep_view() == row_extras(row.deep_view(), headers.deep_view(), headers.len() as int),
{
    let ghost cells = row.deep_view();
    let ghost columns = headers.deep_view();
    let mut out: Vec<ExtraCol> = Vec::new();
    let mut i: usize = 0;
    assert(out.deep_view() =~= row_extras(cells, columns, 0));
    while i < headers.len()
        invariant
            cells == row.deep_view(),
            columns == headers.deep_view(),
            i <= headers.len(),
            out.deep_view() == row_extras(cells, columns, i as int),
        decreases headers.len() - i,
    {
        let entry = &headers[i];
        assert(columns[i as int] == entry@);
        let extra_role = match entry.key {
            Header::MountTechnology | Header::Layer | Header::Extra => true,
            _ => false,
        };
        if extra_role && entry.index < row.len() {
            let cell = &row[entry.index];
            assert(cells[entry.index as int] == cell@);
            let value = match entry.key {
                Header::Extra => cell.clone(),
                _ => uppercase(cell.as_str()),
            };
            let ghost before = out.deep_view();
            let column = ExtraCol { label: entry.label.clone(), value };
            out.push(column);
            assert(out.deep_view() =~= before.push(column@));
        }
        i += 1;
    }
    out
}

/// Reads the row at position `line` of a grid into a line of the bill of
/// materials, by the column mapping `headers`. A row without a designator
/// cell, with an empty one or with one that repeats the header is left out.
/// What is wrong with a row that is kept is appended to `warnings`.
pub fn parse_row(
    row: &Vec<String>,
    headers: &[HeaderMap],
    line: usize,
    warnings: &mut Vec<Warning>,
) -> (r: Option<Item>)
    ensures
        match row_item(row.deep_view(), headers.deep_view()) {
            Some(item) => r is Some && r->Some_0@ == item && r->Some_0.wf(),
            None => r is None,
        },
        final(warnings).deep_view() == old(warnings).deep_view() + row_warnings(
            row.deep_view(),
            headers.deep_view(),
            line as int,
        ),
{
    let ghost cells = row.deep_view();
    let ghost columns = headers.deep_view();
    let ghost noted = warnings.deep_view();
    let cell = match find_cell(row, headers, Header::Designator) {
        Some(cell) => cell,
        None => {
            assert(warnings.deep_view() =~= noted + row_warnings(cells, columns, line as int));
            return None;
        },
    };
    if cell.as_str().is_empty() || str_eq(cell.as_str(), "Designator") {
        assert(warnings.deep_view() =~= noted + row_warnings(cells, columns, line as int));
        return None;
    }
    let designator = split_designators(cell.as_str());
    assert(designator.deep_view()[0] == designator[0]@);
    let category = guess_category(designator[0].as_str());
    let measure_unit = detect_measure_unit(designator[0].as_str());
    let comment_cell = find_cell(row, headers, Header::Comment);
    let mut base_exp = EngineeringValue::NotPopulated;
    let mut comment = String::new();
    match comment_cell {
        Some(text) => {
            comment = text.clone();
            match convert_comment_to_value(text.as_str()) {
                Ok(v) => {
                    base_exp = v;
                },
                Err(e) => {
                    let ghost before = warnings.deep_view();
                    let warning = Warning { row: line, kind: WarningKind::ValueParse, text: e.text };
                    warnings.push(warning);
                    assert(warnings.deep_view() =~= before.push(warning@));
                },
            }
        },
        None => {},
    }
    let footprint = match find_cell(row, headers, Header::Footprint) {
        Some(text) => text.clone(),
        None => String::new(),
    };
    let description = match find_cell(row, headers, Header::Description) {
        Some(text) => text.clone(),
        None => String::new(),
    };
    if category == Category::Unknown {
        let ghost before = warnings.deep_view();
        let warning = Warning {
            row: line,
            kind: WarningKind::UnknownCategory,
            text: designator[0].clone(),
        };
        warnings.push(warning);
        assert(warnings.deep_view() =~= before.push(warning@));
    }
    let extra = collect_extras(row, headers);
    assert(warnings.deep_view() =~= noted + row_warnings(cells, columns, line as int));
    let item = Item::new(
        category,
        base_exp,
        measure_unit,
        designator,
        comment,
        footprint,
        description,
        extra,
    );
    Some(item)
}

/// The lines that the rows of a grid from `from` up to `upto` give, in the
/// order of the rows.
pub open spec fn grid_items(
    grid: Seq<Seq<Seq<char>>>,
    headers: Seq<HeaderMapView>,
    from: int,
    upto: int,
) -> Seq<ItemView>
    decreases upto - from,
{
    if upto <= from {
        Seq::empty()
    } else {
        let before = grid_items(grid, headers, from, upto - 1);
        match row_item(grid[upto - 1], headers) {
            Some(item) => before.push(item),
            None => before,
        }
    }
}

/// The warnings that the rows of a grid from `from` up to `upto` give, in
/// the order of the rows.
pub open spec fn grid_warnings(
    grid: Seq<Seq<Seq<char>>>,
    headers: Seq<HeaderMapView>,
    from: int,
    upto: int,
) -> Seq<WarningView>
    decreases upto - from,
{
    if upto <= from {
        Seq::empty()
    } else {
        grid_warnings(grid, headers, from, upto - 1) + row_warnings(
            grid[upto - 1],
            headers,
            upto - 1,
        )
    }
}

/// The lines read from a grid, and what was found wrong with its rows.
#[derive(Debug)]
pub struct ParsedRows {
    pub items: Vec<Item>,
    pub warnings: Vec<Warning>,
}

/// Reads the rows of a grid from position `from` on, by the column mapping
/// `headers`: one line for each row that is not left out, in the order of the
/// rows, each holding the identity key of its fields.
pub fn parse_data(grid: &Vec<Vec<String>>, headers: &[HeaderMap], from: usize) -> (r: ParsedRows)
    ensures
        r.items.deep_view() == grid_items(
            grid.deep_view(),
            headers.deep_view(),
            from as int,
            grid.len() as int,
        ),
        r.warnings.deep_view() == grid_warnings(
            grid.deep_view(),
            headers.deep_view(),
            from as int,
            grid.len() as int,
        ),
        forall|k: int| 0 <= k < r.items.len() ==> (#[trigger] r.items@[k]).wf(),
{
    let ghost cells = grid.deep_view();
    let ghost columns = headers.deep_view();
    let mut items: Vec<Item> = Vec::new();
    let mut warnings: Vec<Warning> = Vec::new();
    if from >= grid.len() {
        assert(items.deep_view() =~= grid_items(cells, columns, from as int, grid.len() as int));
        assert(warnings.deep_view() =~= grid_warnings(
            cells,
            columns,
            from as int,
            grid.len() as int,
        ));
        return ParsedRows { items, warnings };
    }
    let mut line: usize = from;
    assert(items.deep_view() =~= grid_items(cells, columns, from as int, from as int));
    assert(warnings.deep_view() =~= grid_warnings(cells, columns, from as int, from as int));
    while line < grid.len()
        invariant
            cells == grid.deep_view(),
            columns == headers.deep_view(),
            from <= line <= grid.len(),
            items.deep_view() == grid_items(cells, columns, from as int, line as int),
            warnings.deep_view() == grid_warnings(cells, columns, from as int, line as int),
            forall|k: int| 0 <= k < items.len() ==> (#[trigger] items@[k]).wf(),
        decreases grid.len() - line,
    {
        assert(cells[line as int] == grid[line as int].deep_view());
        let ghost before = items.deep_view();
        match parse_row(&grid[line], headers, line, &mut warnings) {
            Some(item) => {
                items.push(item);
                assert(items.deep_view() =~= before.push(item@));
            },
            None => {},
        }
        line += 1;
    }
    ParsedRows { items, warnings }
}

} // verus!
