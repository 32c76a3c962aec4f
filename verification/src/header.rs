//! The roles that the columns of a bill of materials play, and the search for
//! the header row that names them.

use crate::text::fold;
use crate::text::folded;
use crate::text::spells;
use crate::text::str_eq;
use vstd::prelude::*;
use vstd::string::*;

verus! {

/// The role of a column. The order of the variants is the order in which
/// reports lay the columns out.
#[derive(Debug, Clone, Copy, PartialEq, Eq, Structural, PartialOrd, Ord)]
pub enum Header {
    Quantity,
    Designator,
    Comment,
    Footprint,
    Description,
    MountTechnology,
    Layer,
    Extra,
}

/// How many roles there are.
pub const HEADER_COUNT: u8 = 8;

impl Header {
    /// Position of the role in the order of the roles.
    pub open spec fn rank(self) -> int {
        match self {
            Header::Quantity => 0,
            Header::Designator => 1,
            Header::Comment => 2,
            Header::Footprint => 3,
            Header::Description => 4,
            Header::MountTechnology => 5,
            Header::Layer => 6,
            Header::Extra => 7,
        }
    }

    /// The role at position `rank`; `Extra` past the last position.
    pub open spec fn at(rank: int) -> Header {
        if rank == 0 {
            Header::Quantity
        } else if rank == 1 {
            Header::Designator
        } else if rank == 2 {
            Header::Comment
        } else if rank == 3 {
            Header::Footprint
        } else if rank == 4 {
            Header::Description
        } else if rank == 5 {
            Header::MountTechnology
        } else if rank == 6 {
            Header::Layer
        } else {
            Header::Extra
        }
    }

    /// The label under which reports print a column of this role. The label
    /// of an extra column is its own; this one is a placeholder for it.
    pub open spec fn label_text(self) -> Seq<char> {
        match self {
            Header::Quantity => "Quantity"@,
            Header::Designator => "Designator"@,
            Header::Comment => "Comment"@,
            Header::Footprint => "Footprint"@,
            Header::Description => "Description"@,
            Header::MountTechnology => "Mount Technology"@,
            Header::Layer => "Layer"@,
            Header::Extra => "Extra"@,
        }
    }

    /// Position of the role in the order of the roles.
    pub fn index(self) -> (r: u8)
        ensures
            r == self.rank(),
            r < HEADER_COUNT,
            Header::at(r as int) == self,
    {
        match self {
            Header::Quantity => 0,
            Header::Designator => 1,
            Header::Comment => 2,
            Header::Footprint => 3,
            Header::Description => 4,
            Header::MountTechnology => 5,
            Header::Layer => 6,
            Header::Extra => 7,
        }
    }

    /// The role at position `rank`; `Extra` past the last position.
    pub fn from_index(rank: u8) -> (r: Header)
        ensures
            r == Header::at(rank as int),
            rank < HEADER_COUNT ==> r.rank() == rank,
    {
        match rank {
            0 => Header::Quantity,
            1 => Header::Designator,
            2 => Header::Comment,
            3 => Header::Footprint,
            4 => Header::Description,
            5 => Header::MountTechnology,
            6 => Header::Layer,
            _ => Header::Extra,
        }
    }

    /// The label under which reports print a column of this role.
    pub fn label(self) -> (r: String)
        ensures
            r@ == self.label_text(),
    {
        match self {
            Header::Quantity => "Quantity".to_owned(),
            Header::Designator => "Designator".to_owned(),
            Header::Comment => "Comment".to_owned(),
            Header::Footprint => "Footprint".to_owned(),
            Header::Description => "Description".to_owned(),
            Header::MountTechnology => "Mount Technology".to_owned(),
            Header::Layer => "Layer".to_owned(),
            Header::Extra => "Extra".to_owned(),
        }
    }
}

/// One column of a bill of materials: its role, the label of the column, and
/// its position in the rows.
#[derive(Debug, PartialEq, Eq, PartialOrd, Ord)]
pub struct HeaderMap {
    pub key: Header,
    pub label: String,
    pub index: usize,
}

/// What a `HeaderMap` stands for.
pub struct HeaderMapView {
    pub key: Header,
    pub label: Seq<char>,
    pub index: int,
}

impl View for HeaderMap {
    type V = HeaderMapView;

    open spec fn view(&self) -> HeaderMapView {
        HeaderMapView { key: self.key, label: self.label@, index: self.index as int }
    }
}

impl DeepView for HeaderMap {
    type V = HeaderMapView;

    open spec fn deep_view(&self) -> HeaderMapView {
        self.view()
    }
}

impl Clone for HeaderMap {
    fn clone(&self) -> (r: Self)
        ensures
            r@ == self@,
    {
        HeaderMap { key: self.key, label: self.label.clone(), index: self.index }
    }
}

/// The role that a header cell names: the cell holds the name of the role,
/// whatever the case of its letters, and nothing else. `None` for a cell
/// that names no role.
pub open spec fn role_of(text: Seq<char>) -> Option<Header> {
    let name = folded(text);
    if name == "quantity"@ {
        Some(Header::Quantity)
    } else if name == "designator"@ {
        Some(Header::Designator)
    } else if name == "comment"@ {
        Some(Header::Comment)
    } else if name == "footprint"@ {
        Some(Header::Footprint)
    } else if name == "description"@ {
        Some(Header::Description)
    } else if name == "mounttechnology"@ || name == "mount_technology"@ {
        Some(Header::MountTechnology)
    } else if name == "layer"@ {
        Some(Header::Layer)
    } else {
        None
    }
}

/// Finds the role that a header cell names.
pub fn header_for(text: &str) -> (r: Option<Header>)
    ensures
        r == role_of(text@),
{
    let name = fold(text);
    if spells(&name, "quantity") {
        Some(Header::Quantity)
    } else if spells(&name, "designator") {
        Some(Header::Designator)
    } else if spells(&name, "comment") {
        Some(Header::Comment)
    } else if spells(&name, "footprint") {
        Some(Header::Footprint)
    } else if spells(&name, "description") {
        Some(Header::Description)
    } else if spells(&name, "mounttechnology") || spells(&name, "mount_technology") {
        Some(Header::MountTechnology)
    } else if spells(&name, "layer") {
        Some(Header::Layer)
    } else {
        None
    }
}

/// The pattern of a cell that heads a column of vendor codes.
pub const CODE_PATTERN: &'static str = "CODE\\s(.*)";

/// The pattern of a cell that heads a column of notes.
pub const NOTE_PATTERN: &'static str = "NOTE\\s(.*)";

/// What the first capture group of the regular expression `pattern` holds at
/// the leftmost match of the expression in `text`; `None` where `pattern`
/// does not compile, where it matches nowhere in `text`, or where the group
/// takes no part in the match.
pub uninterp spec fn first_capture(pattern: Seq<char>, text: Seq<char>) -> Option<Seq<char>>;

/// Compiles `pattern` with `regex::Regex::new`, searches `text` with
/// `Regex::captures`, and hands out the text of capture group 1
/// (`Captures::get`, `Match::as_str`). Trusted: the result depends on the two
/// texts alone; `first_capture` names it.
#[verifier::external_body]
pub(crate) fn capture(pattern: &str, text: &str) -> (r: Option<String>)
    ensures
        match r {
            Some(found) => first_capture(pattern@, text@) == Some(found@),
            None => first_capture(pattern@, text@) is None,
        },
{
    match regex::Regex::new(pattern) {
        Ok(re) => match re.captures(text) {
            Some(caps) => match caps.get(1) {
                Some(group) => Some(group.as_str().to_string()),
                None => None,
            },
            None => None,
        },
        Err(_) => None,
    }
}

/// The extra column that a capture announces: its label is `prefix` followed
/// by the capture. No capture, no column.
pub open spec fn extra_entry(prefix: Seq<char>, found: Option<Seq<char>>, index: int) -> Seq<
    HeaderMapView,
> {
    match found {
        Some(rest) => seq![HeaderMapView { key: Header::Extra, label: prefix + rest, index }],
        None => Seq::empty(),
    }
}

/// The columns that one cell of a header row announces, given the text of the
/// cell and what the code and note patterns captured in it.
///
/// A cell that names a role announces that role under the label of the role.
/// Any other cell announces an extra column for each of the two patterns that
/// matches it, codes first.
pub open spec fn cell_entries(
    text: Seq<char>,
    code: Option<Seq<char>>,
    note: Option<Seq<char>>,
    index: int,
) -> Seq<HeaderMapView> {
    match role_of(text) {
        Some(key) => seq![HeaderMapView { key, label: key.label_text(), index }],
        None => extra_entry("Code "@, code, index) + extra_entry("Note "@, note, index),
    }
}

/// The columns that the cell `text` at position `index` announces.
pub open spec fn cell_headers(text: Seq<char>, index: int) -> Seq<HeaderMapView> {
    cell_entries(
        text,
        first_capture(CODE_PATTERN@, text),
        first_capture(NOTE_PATTERN@, text),
        index,
    )
}

/// The characters of an optional text.
pub open spec fn text_of(found: Option<String>) -> Option<Seq<char>> {
    match found {
        Some(s) => Some(s@),
        None => None,
    }
}

/// Appends to `out` the extra column that a capture announces.
pub fn push_extra(out: &mut Vec<HeaderMap>, prefix: &str, found: Option<String>, index: usize)
    ensures
        final(out).deep_view() == old(out).deep_view() + extra_entry(
            prefix@,
            text_of(found),
            index as int,
        ),
{
    let ghost before = out.deep_view();
    match found {
        Some(rest) => {
            let mut label = prefix.to_owned();
            label.append(rest.as_str());
            let entry = HeaderMap { key: Header::Extra, label, index };
            out.push(entry);
            assert(out.deep_view() =~= before + seq![entry@]);
        },
        None => {
            assert(out.deep_view() =~= before + Seq::<HeaderMapView>::empty());
        },
    }
}

/// Appends to `out` the columns that one cell of a header row announces,
/// given the text of the cell and what the code and note patterns captured
/// in it.
pub fn push_cell_entries(
    out: &mut Vec<HeaderMap>,
    text: &str,
    code: Option<String>,
    note: Option<String>,
    index: usize,
)
    ensures
        final(out).deep_view() == old(out).deep_view() + cell_entries(
            text@,
            text_of(code),
            text_of(note),
            index as int,
        ),
{
    let ghost before = out.deep_view();
    match header_for(text) {
        Some(key) => {
            let entry = HeaderMap { key, label: key.label(), index };
            out.push(entry);
            assert(out.deep_view() =~= before + seq![entry@]);
        },
        None => {
            push_extra(out, "Code ", code, index);
            let ghost middle = out.deep_view();
            push_extra(out, "Note ", note, index);
            assert(out.deep_view() =~= before + (extra_entry(
                "Code "@,
                text_of(code),
                index as int,
            ) + extra_entry("Note "@, text_of(note), index as int)));
        },
    }
}

/// Appends to `out` the columns that the cell `text` at position `index`
/// announces, and tells whether the cell names the designator column.
pub fn scan_cell(out: &mut Vec<HeaderMap>, text: &str, index: usize) -> (r: bool)
    ensures
        final(out).deep_view() == old(out).deep_view() + cell_headers(text@, index as int),
        r == is_designator_cell(text@),
{
    let named = header_for(text);
    if named.is_some() {
        push_cell_entries(out, text, None, None, index);
    } else {
        let code = capture(CODE_PATTERN, text);
        let note = capture(NOTE_PATTERN, text);
        push_cell_entries(out, text, code, note, index);
    }
    named == Some(Header::Designator)
}

/// Whether a cell names the designator column.
pub open spec fn is_designator_cell(text: Seq<char>) -> bool {
    role_of(text) == Some(Header::Designator)
}

/// Whether a row names the designator column, which makes it the header row.
pub open spec fn is_header_row(row: Seq<Seq<char>>) -> bool {
    exists|i: int| 0 <= i < row.len() && is_designator_cell(#[trigger] row[i])
}

/// The columns that the first `upto` cells of a row announce, from left to
/// right.
pub open spec fn row_headers(row: Seq<Seq<char>>, upto: int) -> Seq<HeaderMapView>
    decreases upto,
{
    if upto <= 0 {
        Seq::empty()
    } else {
        row_headers(row, upto - 1) + cell_headers(row[upto - 1], upto - 1)
    }
}

/// The columns that the first `rows` rows of a grid announce, row by row.
pub open spec fn scanned(grid: Seq<Seq<Seq<char>>>, rows: int) -> Seq<HeaderMapView>
    decreases rows,
{
    if rows <= 0 {
        Seq::empty()
    } else {
        scanned(grid, rows - 1) + row_headers(grid[rows - 1], grid[rows - 1].len() as int)
    }
}

/// Whether `list` holds a column of the given role and label.
pub open spec fn announces(list: Seq<HeaderMapView>, key: Header, label: Seq<char>) -> bool {
    exists|i: int| 0 <= i < list.len() && (#[trigger] list[i]).key == key && list[i].label == label
}

/// Whether two columns have the same role and label.
pub open spec fn same_column(a: HeaderMapView, b: HeaderMapView) -> bool {
    a.key == b.key && a.label == b.label
}

/// Whether a column further on in `list` has the role and label of column
/// `i`.
pub open spec fn repeated_later(list: Seq<HeaderMapView>, i: int) -> bool {
    exists|j: int| i < j < list.len() && same_column(list[i], #[trigger] list[j])
}

/// The first `upto` columns of `list` without those whose role and label a
/// column further on in `list` repeats: of columns with the same role and
/// label the last one stays.
pub open spec fn distinct(list: Seq<HeaderMapView>, upto: int) -> Seq<HeaderMapView>
    decreases upto,
{
    if upto <= 0 {
        Seq::empty()
    } else if repeated_later(list, upto - 1) {
        distinct(list, upto - 1)
    } else {
        distinct(list, upto - 1).push(list[upto - 1])
    }
}

/// The columns of role `key` among the first `upto` columns of `list`, in
/// their order.
pub open spec fn with_key(list: Seq<HeaderMapView>, key: Header, upto: int) -> Seq<HeaderMapView>
    decreases upto,
{
    if upto <= 0 {
        Seq::empty()
    } else if list[upto - 1].key == key {
        with_key(list, key, upto - 1).push(list[upto - 1])
    } else {
        with_key(list, key, upto - 1)
    }
}

/// The columns of `list` whose role is one of the first `ranks` roles: role
/// by role, and within a role in the order of `list`.
pub open spec fn by_priority(list: Seq<HeaderMapView>, ranks: int) -> Seq<HeaderMapView>
    decreases ranks,
{
    if ranks <= 0 {
        Seq::empty()
    } else {
        by_priority(list, ranks - 1) + with_key(list, Header::at(ranks - 1), list.len() as int)
    }
}

/// The column mapping made of the announced columns `found`: repeated columns
/// dropped, the rest in the order of the roles.
pub open spec fn arrange(found: Seq<HeaderMapView>) -> Seq<HeaderMapView> {
    by_priority(distinct(found, found.len() as int), HEADER_COUNT as int)
}

/// Appends to `out` the columns that a row announces, and tells whether the
/// row is a header row.
pub fn scan_row(out: &mut Vec<HeaderMap>, row: &Vec<String>) -> (r: bool)
    ensures
        final(out).deep_view() == old(out).deep_view() + row_headers(
            row.deep_view(),
            row.len() as int,
        ),
        r == is_header_row(row.deep_view()),
{
    let ghost cells = row.deep_view();
    let mut found = false;
    let mut i: usize = 0;
    assert(out.deep_view() =~= old(out).deep_view() + row_headers(cells, 0));
    while i < row.len()
        invariant
            cells == row.deep_view(),
            i <= row.len(),
            out.deep_view() == old(out).deep_view() + row_headers(cells, i as int),
            found == exists|j: int| 0 <= j < i && is_designator_cell(#[trigger] cells[j]),
        decreases row.len() - i,
    {
        let ghost before = out.deep_view();
        let names = scan_cell(out, row[i].as_str(), i);
        assert(cells[i as int] == row[i as int]@);
        assert(before + cell_headers(cells[i as int], i as int) =~= old(out).deep_view()
            + row_headers(cells, i + 1));
        if names {
            found = true;
        }
        i += 1;
    }
    found
}

/// Tells whether a column further on in `list` has the role and label of
/// column `i`.
fn is_repeated_later(list: &Vec<HeaderMap>, i: usize) -> (r: bool)
    requires
        i < list.len(),
    ensures
        r == repeated_later(list.deep_view(), i as int),
{
    let ghost columns = list.deep_view();
    assert(columns[i as int] == list[i as int]@);
    let mut j: usize = i + 1;
    while j < list.len()
        invariant
            columns == list.deep_view(),
            i < j <= list.len(),
            columns[i as int] == list[i as int]@,
            forall|k: int| i < k < j ==> !same_column(columns[i as int], #[trigger] columns[k]),
        decreases list.len() - j,
    {
        assert(columns[j as int] == list[j as int]@);
        if list[j].key == list[i].key && str_eq(list[j].label.as_str(), list[i].label.as_str()) {
            return true;
        }
        j += 1;
    }
    false
}

/// Copies `found` without the columns whose role and label a column further
/// on repeats.
pub fn distinct_headers(found: &Vec<HeaderMap>) -> (r: Vec<HeaderMap>)
    ensures
        r.deep_view() == distinct(found.deep_view(), found.len() as int),
{
    let mut out: Vec<HeaderMap> = Vec::new();
    let mut i: usize = 0;
    assert(out.deep_view() =~= distinct(found.deep_view(), 0));
    while i < found.len()
        invariant
            i <= found.len(),
            out.deep_view() == distinct(found.deep_view(), i as int),
        decreases found.len() - i,
    {
        assert(found.deep_view()[i as int] == found[i as int]@);
        if !is_repeated_later(found, i) {
            let ghost before = out.deep_view();
            let entry = found[i].clone();
            out.push(entry);
            assert(out.deep_view() =~= before.push(entry@));
        }
        i += 1;
    }
    out
}

/// Lays the columns of `list` out in the order of the roles, columns of one
/// role in the order of `list`.
pub fn sort_headers(list: &Vec<HeaderMap>) -> (r: Vec<HeaderMap>)
    ensures
        r.deep_view() == by_priority(list.deep_view(), HEADER_COUNT as int),
{
    let ghost all = list.deep_view();
    let mut out: Vec<HeaderMap> = Vec::new();
    let mut rank: u8 = 0;
    assert(out.deep_view() =~= by_priority(all, 0));
    while rank < HEADER_COUNT
        invariant
            all == list.deep_view(),
            rank <= HEADER_COUNT,
            out.deep_view() == by_priority(all, rank as int),
        decreases HEADER_COUNT - rank,
    {
        let key = Header::from_index(rank);
        let ghost done = out.deep_view();
        let mut i: usize = 0;
        assert(out.deep_view() =~= done + with_key(all, key, 0));
        while i < list.len()
            invariant
                all == list.deep_view(),
                i <= list.len(),
                out.deep_view() == done + with_key(all, key, i as int),
            decreases list.len() - i,
        {
            assert(all[i as int] == list[i as int]@);
            if list[i].key == key {
                let ghost before = out.deep_view();
                let entry = list[i].clone();
                out.push(entry);
                assert(out.deep_view() =~= before.push(entry@));
                assert(out.deep_view() =~= done + with_key(all, key, i + 1));
            }
            i += 1;
        }
        rank += 1;
    }
    out
}

/// Why a bill of materials cannot be read.
#[derive(Debug, Clone, Copy, PartialEq, Eq, Structural)]
pub enum BomError {
    /// No row of the grid names the designator column.
    HeaderNotFound,
}

/// The header row of a grid and the column mapping read from it.
#[derive(Debug)]
pub struct HeaderScan {
    /// Position of the header row in the grid.
    pub row: usize,
    /// The columns, in the order of the roles.
    pub headers: Vec<HeaderMap>,
}

/// Whether row `row` of `grid` is its header row: the first row that names
/// the designator column.
pub open spec fn is_first_header_row(grid: Seq<Seq<Seq<char>>>, row: int) -> bool {
    &&& 0 <= row < grid.len()
    &&& is_header_row(grid[row])
    &&& forall|q: int| 0 <= q < row ==> !is_header_row(#[trigger] grid[q])
}

/// Finds the header row of a grid and reads the column mapping from it.
///
/// The grid is scanned row by row, each row from left to right, down to and
/// including the first row that names the designator column. Every cell on
/// the way that names a role or matches the code or note pattern announces a
/// column. Of columns with the same role and label the last counts; the
/// mapping lists the columns in the order of the roles, columns of one role
/// in the order of the scan. A grid without a designator column is refused.
pub fn find_headers(grid: &Vec<Vec<String>>) -> (r: Result<HeaderScan, BomError>)
    ensures
        match r {
            Ok(scan) => {
                &&& is_first_header_row(grid.deep_view(), scan.row as int)
                &&& scan.headers.deep_view() == arrange(
                    scanned(grid.deep_view(), scan.row + 1),
                )
                &&& mapping_wf(scan.headers.deep_view())
                &&& announces(
                    scan.headers.deep_view(),
                    Header::Designator,
                    Header::Designator.label_text(),
                )
            },
            Err(e) => {
                &&& e == BomError::HeaderNotFound
                &&& forall|q: int|
                    0 <= q < grid.deep_view().len() ==> !is_header_row(#[trigger] grid.deep_view()[q])
            },
        },
{
    let ghost cells = grid.deep_view();
    let mut found: Vec<HeaderMap> = Vec::new();
    let mut row: usize = 0;
    assert(found.deep_view() =~= scanned(cells, 0));
    while row < grid.len()
        invariant
            cells == grid.deep_view(),
            row <= grid.len(),
            found.deep_view() == scanned(cells, row as int),
            forall|q: int| 0 <= q < row ==> !is_header_row(#[trigger] cells[q]),
        decreases grid.len() - row,
    {
        assert(cells[row as int] == grid[row as int].deep_view());
        let is_header = scan_row(&mut found, &grid[row]);
        if is_header {
            let unique = distinct_headers(&found);
            let headers = sort_headers(&unique);
            proof {
                lemma_found_mapping(cells, row as int);
            }
            return Ok(HeaderScan { row, headers });
        }
        row += 1;
    }
    Err(BomError::HeaderNotFound)
}

/// Whether no column of `list` repeats the role and label of another.
pub open spec fn no_repeats(list: Seq<HeaderMapView>) -> bool {
    forall|i: int, j: int|
        0 <= i < j < list.len() ==> !same_column(#[trigger] list[i], #[trigger] list[j])
}

/// Whether the columns of `list` stand in the order of the roles.
pub open spec fn in_order(list: Seq<HeaderMapView>) -> bool {
    forall|i: int, j: int|
        0 <= i < j < list.len() ==> (#[trigger] list[i]).key.rank() <= (#[trigger] list[j]).key.rank()
}

/// Whether each column of `list` but the extra ones has the label of its
/// role.
pub open spec fn fixed_labels(list: Seq<HeaderMapView>) -> bool {
    forall|i: int|
        0 <= i < list.len() && (#[trigger] list[i]).key != Header::Extra ==> list[i].label
            == list[i].key.label_text()
}

/// Whether `list` is a column mapping: its columns stand in the order of the
/// roles, a role but `Extra` has one column at most, and the extra columns
/// have labels that differ from one another.
pub open spec fn mapping_wf(list: Seq<HeaderMapView>) -> bool {
    &&& in_order(list)
    &&& forall|i: int, j: int|
        0 <= i < j < list.len() && (#[trigger] list[i]).key == (#[trigger] list[j]).key ==> {
            &&& list[i].key == Header::Extra
            &&& list[i].label != list[j].label
        }
}

/// Whether `list` holds the column `entry`.
pub open spec fn holds(list: Seq<HeaderMapView>, entry: HeaderMapView) -> bool {
    exists|i: int| 0 <= i < list.len() && #[trigger] list[i] == entry
}

/// Each column of a list has a last column of its role and label.
pub proof fn lemma_last_column(list: Seq<HeaderMapView>, i: int) -> (last: int)
    requires
        0 <= i < list.len(),
    ensures
        i <= last < list.len(),
        same_column(list[i], list[last]),
        !repeated_later(list, last),
    decreases list.len() - i,
{
    if repeated_later(list, i) {
        let j = choose|j: int| i < j < list.len() && same_column(list[i], #[trigger] list[j]);
        let last = lemma_last_column(list, j);
        last
    } else {
        i
    }
}

/// What `distinct` keeps: the columns that no column further on repeats,
/// none twice.
pub proof fn lemma_distinct(list: Seq<HeaderMapView>, upto: int)
    requires
        0 <= upto <= list.len(),
    ensures
        no_repeats(distinct(list, upto)),
        forall|k: int|
            0 <= k < distinct(list, upto).len() ==> exists|a: int|
                0 <= a < upto && !repeated_later(list, a) && #[trigger] list[a] == (
                #[trigger] distinct(list, upto)[k]),
        forall|a: int|
            0 <= a < upto && !repeated_later(list, a) ==> holds(
                distinct(list, upto),
                #[trigger] list[a],
            ),
    decreases upto,
{
    if upto > 0 {
        lemma_distinct(list, upto - 1);
        let before = distinct(list, upto - 1);
        let now = distinct(list, upto);
        let entry = list[upto - 1];
        assert forall|k: int| 0 <= k < now.len() implies exists|a: int|
            0 <= a < upto && !repeated_later(list, a) && #[trigger] list[a] == (#[trigger] now[k]) by {
            if k < before.len() {
                let a = choose|a: int|
                    0 <= a < upto - 1 && !repeated_later(list, a) && #[trigger] list[a] == (
                    #[trigger] before[k]);
                assert(list[a] == now[k]);
            } else {
                assert(list[upto - 1] == now[k]);
            }
        }
        assert forall|a: int| 0 <= a < upto && !repeated_later(list, a) implies holds(
            now,
            #[trigger] list[a],
        ) by {
            if a < upto - 1 {
                assert(holds(before, list[a]));
                let k = choose|k: int| 0 <= k < before.len() && #[trigger] before[k] == list[a];
                assert(now[k] == list[a]);
            } else {
                assert(now[before.len() as int] == list[a]);
            }
        }
        assert forall|i: int, j: int| 0 <= i < j < now.len() implies !same_column(
            #[trigger] now[i],
            #[trigger] now[j],
        ) by {
            if j == before.len() && !repeated_later(list, upto - 1) {
                let a = choose|a: int|
                    0 <= a < upto - 1 && !repeated_later(list, a) && #[trigger] list[a] == (
                    #[trigger] before[i]);
                assert(!same_column(list[a], list[upto - 1]));
            }
        }
    }
}

/// What `with_key` keeps: the columns of one role, none twice where the list
/// has none twice.
pub proof fn lemma_with_key(list: Seq<HeaderMapView>, key: Header, upto: int)
    requires
        0 <= upto <= list.len(),
    ensures
        forall|k: int|
            0 <= k < with_key(list, key, upto).len() ==> (#[trigger] with_key(list, key, upto)[k]).key
                == key,
        forall|k: int|
            0 <= k < with_key(list, key, upto).len() ==> holds(
                list.subrange(0, upto),
                #[trigger] with_key(list, key, upto)[k],
            ),
        forall|j: int|
            0 <= j < upto && (#[trigger] list[j]).key == key ==> holds(
                with_key(list, key, upto),
                list[j],
            ),
        no_repeats(list) ==> no_repeats(with_key(list, key, upto)),
    decreases upto,
{
    if upto > 0 {
        lemma_with_key(list, key, upto - 1);
        let before = with_key(list, key, upto - 1);
        let now = with_key(list, key, upto);
        let entry = list[upto - 1];
        assert forall|k: int| 0 <= k < now.len() implies holds(
            list.subrange(0, upto),
            #[trigger] now[k],
        ) by {
            if k < before.len() {
                assert(holds(list.subrange(0, upto - 1), before[k]));
                let i = choose|i: int|
                    0 <= i < upto - 1 && #[trigger] list.subrange(0, upto - 1)[i] == before[k];
                assert(list.subrange(0, upto)[i] == now[k]);
            } else {
                assert(list.subrange(0, upto)[upto - 1] == now[k]);
            }
        }
        assert forall|j: int| 0 <= j < upto && (#[trigger] list[j]).key == key implies holds(
            now,
            list[j],
        ) by {
            if j < upto - 1 {
                assert(holds(before, list[j]));
                let k = choose|k: int| 0 <= k < before.len() && #[trigger] before[k] == list[j];
                assert(now[k] == list[j]);
            } else {
                assert(now[before.len() as int] == list[j]);
            }
        }
        if no_repeats(list) {
            assert forall|i: int, j: int| 0 <= i < j < now.len() implies !same_column(
                #[trigger] now[i],
                #[trigger] now[j],
            ) by {
                if j == before.len() {
                    assert(holds(list.subrange(0, upto - 1), before[i]));
                    let a = choose|a: int|
                        0 <= a < upto - 1 && #[trigger] list.subrange(0, upto - 1)[a] == before[i];
                    assert(list[a] == now[i]);
                    assert(list[upto - 1] == now[j]);
                    assert(!same_column(list[a], list[upto - 1]));
                }
            }
        }
    }
}

/// What `by_priority` gives: the columns of the first `ranks` roles, in the
/// order of the roles, none twice where the list has none twice.
pub proof fn lemma_by_priority(list: Seq<HeaderMapView>, ranks: int)
    requires
        0 <= ranks <= HEADER_COUNT,
    ensures
        in_order(by_priority(list, ranks)),
        forall|k: int|
            0 <= k < by_priority(list, ranks).len() ==> (#[trigger] by_priority(
                list,
                ranks,
            )[k]).key.rank() < ranks,
        forall|k: int|
            0 <= k < by_priority(list, ranks).len() ==> holds(
                list,
                #[trigger] by_priority(list, ranks)[k],
            ),
        forall|j: int|
            0 <= j < list.len() && (#[trigger] list[j]).key.rank() < ranks ==> holds(
                by_priority(list, ranks),
                list[j],
            ),
        no_repeats(list) ==> no_repeats(by_priority(list, ranks)),
    decreases ranks,
{
    if ranks > 0 {
        let key = Header::at(ranks - 1);
        let n = list.len() as int;
        lemma_by_priority(list, ranks - 1);
        lemma_with_key(list, key, n);
        let before = by_priority(list, ranks - 1);
        let block = with_key(list, key, n);
        let now = by_priority(list, ranks);
        assert(now == before + block);
        assert(key.rank() == ranks - 1);
        assert(list.subrange(0, n) == list);
        assert forall|k: int| 0 <= k < now.len() implies (#[trigger] now[k]).key.rank() < ranks
            && holds(list, now[k]) by {
            if k < before.len() {
                assert(now[k] == before[k]);
            } else {
                assert(now[k] == block[k - before.len()]);
            }
        }
        assert forall|i: int, j: int| 0 <= i < j < now.len() implies (#[trigger] now[i]).key.rank()
            <= (#[trigger] now[j]).key.rank() by {
            if j < before.len() {
                assert(now[i] == before[i] && now[j] == before[j]);
            } else if i < before.len() {
                assert(now[i] == before[i] && now[j] == block[j - before.len()]);
            } else {
                assert(now[i] == block[i - before.len()] && now[j] == block[j - before.len()]);
            }
        }
        assert forall|j: int|
            0 <= j < list.len() && (#[trigger] list[j]).key.rank() < ranks implies holds(
            now,
            list[j],
        ) by {
            if list[j].key.rank() < ranks - 1 {
                assert(holds(before, list[j]));
                let k = choose|k: int| 0 <= k < before.len() && #[trigger] before[k] == list[j];
                assert(now[k] == list[j]);
            } else {
                assert(list[j].key == key);
                assert(holds(block, list[j]));
                let k = choose|k: int| 0 <= k < block.len() && #[trigger] block[k] == list[j];
                assert(now[before.len() + k] == list[j]);
            }
        }
        if no_repeats(list) {
            assert forall|i: int, j: int| 0 <= i < j < now.len() implies !same_column(
                #[trigger] now[i],
                #[trigger] now[j],
            ) by {
                if j < before.len() {
                    assert(now[i] == before[i] && now[j] == before[j]);
                } else if i < before.len() {
                    assert(now[i] == before[i] && now[j] == block[j - before.len()]);
                } else {
                    assert(now[i] == block[i - before.len()] && now[j] == block[j - before.len()]);
                }
            }
        }
    }
}

/// The column mapping made of announced columns is well formed, and it holds
/// a column for each role and label announced, and no other.
pub proof fn lemma_arrange(found: Seq<HeaderMapView>)
    requires
        fixed_labels(found),
    ensures
        mapping_wf(arrange(found)),
        no_repeats(arrange(found)),
        fixed_labels(arrange(found)),
        forall|k: int| 0 <= k < arrange(found).len() ==> holds(found, #[trigger] arrange(found)[k]),
        forall|j: int|
            0 <= j < found.len() ==> announces(
                arrange(found),
                (#[trigger] found[j]).key,
                found[j].label,
            ),
{
    let n = found.len() as int;
    let unique = distinct(found, n);
    let out = arrange(found);
    lemma_distinct(found, n);
    lemma_by_priority(unique, HEADER_COUNT as int);
    assert(found.subrange(0, n) == found);
    assert forall|k: int| 0 <= k < out.len() implies holds(found, #[trigger] out[k]) by {
        assert(holds(unique, out[k]));
        let u = choose|u: int| 0 <= u < unique.len() && #[trigger] unique[u] == out[k];
        let a = choose|a: int|
            0 <= a < n && !repeated_later(found, a) && #[trigger] found[a] == (#[trigger] unique[u]);
        assert(found[a] == out[k]);
    }
    assert forall|k: int| 0 <= k < out.len() && (#[trigger] out[k]).key != Header::Extra implies out[k].label
        == out[k].key.label_text() by {
        assert(holds(found, out[k]));
        let f = choose|f: int| 0 <= f < found.len() && #[trigger] found[f] == out[k];
        assert(found[f].key != Header::Extra);
    }
    assert forall|j: int| 0 <= j < found.len() implies announces(
        out,
        (#[trigger] found[j]).key,
        found[j].label,
    ) by {
        let last = lemma_last_column(found, j);
        assert(holds(unique, found[last]));
        let u = choose|u: int| 0 <= u < unique.len() && #[trigger] unique[u] == found[last];
        assert(unique[u].key.rank() < HEADER_COUNT);
        assert(holds(out, unique[u]));
        let k = choose|k: int| 0 <= k < out.len() && #[trigger] out[k] == unique[u];
        assert(out[k].key == found[j].key && out[k].label == found[j].label);
    }
    assert forall|i: int, j: int|
        0 <= i < j < out.len() && (#[trigger] out[i]).key == (#[trigger] out[j]).key implies out[i].key
        == Header::Extra && out[i].label != out[j].label by {
        assert(!same_column(out[i], out[j]));
        if out[i].key != Header::Extra {
            assert(out[i].label == out[i].key.label_text());
            assert(out[j].label == out[j].key.label_text());
        }
    }
}

/// The columns that a grid announces have the labels of their roles, the
/// extra ones aside.
pub proof fn lemma_scanned_labels(grid: Seq<Seq<Seq<char>>>, rows: int)
    ensures
        fixed_labels(scanned(grid, rows)),
    decreases rows,
{
    if rows > 0 {
        lemma_scanned_labels(grid, rows - 1);
        let row = grid[rows - 1];
        lemma_row_labels(row, row.len() as int);
        let before = scanned(grid, rows - 1);
        let block = row_headers(row, row.len() as int);
        let now = scanned(grid, rows);
        assert forall|i: int| 0 <= i < now.len() && (#[trigger] now[i]).key != Header::Extra implies now[i].label
            == now[i].key.label_text() by {
            if i < before.len() {
                assert(now[i] == before[i]);
            } else {
                assert(now[i] == block[i - before.len()]);
            }
        }
    }
}

/// The columns that a row announces have the labels of their roles, the
/// extra ones aside; a cell that names the designator column announces it.
pub proof fn lemma_row_labels(row: Seq<Seq<char>>, upto: int)
    requires
        upto <= row.len(),
    ensures
        fixed_labels(row_headers(row, upto)),
        forall|c: int|
            0 <= c < upto && is_designator_cell(#[trigger] row[c]) ==> announces(
                row_headers(row, upto),
                Header::Designator,
                Header::Designator.label_text(),
            ),
    decreases upto,
{
    if upto > 0 {
        lemma_row_labels(row, upto - 1);
        let before = row_headers(row, upto - 1);
        let block = cell_headers(row[upto - 1], upto - 1);
        let now = row_headers(row, upto);
        assert forall|i: int| 0 <= i < now.len() && (#[trigger] now[i]).key != Header::Extra implies now[i].label
            == now[i].key.label_text() by {
            if i < before.len() {
                assert(now[i] == before[i]);
            } else {
                assert(now[i] == block[i - before.len()]);
            }
        }
        assert forall|c: int| 0 <= c < upto && is_designator_cell(#[trigger] row[c]) implies announces(
            now,
            Header::Designator,
            Header::Designator.label_text(),
        ) by {
            if c < upto - 1 {
                let k = choose|k: int|
                    0 <= k < before.len() && (#[trigger] before[k]).key == Header::Designator
                        && before[k].label == Header::Designator.label_text();
                assert(now[k] == before[k]);
            } else {
                assert(block[0].key == Header::Designator);
                assert(now[before.len() as int] == block[0]);
            }
        }
    }
}

/// The column mapping read from a grid with a header row is well formed and
/// has the designator column.
pub proof fn lemma_found_mapping(grid: Seq<Seq<Seq<char>>>, row: int)
    requires
        0 <= row < grid.len(),
        is_header_row(grid[row]),
    ensures
        mapping_wf(arrange(scanned(grid, row + 1))),
        announces(
            arrange(scanned(grid, row + 1)),
            Header::Designator,
            Header::Designator.label_text(),
        ),
{
    let found = scanned(grid, row + 1);
    lemma_scanned_labels(grid, row + 1);
    lemma_arrange(found);
    let cells = grid[row];
    lemma_row_labels(cells, cells.len() as int);
    let block = row_headers(cells, cells.len() as int);
    let c = choose|c: int| 0 <= c < cells.len() && is_designator_cell(#[trigger] cells[c]);
    assert(announces(block, Header::Designator, Header::Designator.label_text()));
    let k = choose|k: int|
        0 <= k < block.len() && (#[trigger] block[k]).key == Header::Designator && block[k].label
            == Header::Designator.label_text();
    let before = scanned(grid, row);
    assert(found[before.len() + k] == block[k]);
    assert(found[before.len() + k].key == Header::Designator);
}

} // verus!
