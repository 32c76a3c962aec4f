//! The layout of the report sheet: which cell holds which text. Writing the
//! cells to a file is left to the caller.

use crate::category::Category;
use crate::header::HeaderMap;
use crate::header::HeaderMapView;
use crate::items::clone_texts;
use crate::items::ExtraColView;
use crate::items::Item;
use crate::items::ItemView;
use crate::notation::decimal_text;
use crate::notation::eng_notation;
use crate::notation::join;
use crate::notation::joined;
use crate::notation::number_text;
use crate::notation::value_to_eng_notation;
use crate::stats::category_count;
use crate::stats::count_category;
use vstd::prelude::*;
use vstd::string::*;

verus! {

/// How many rows a sheet can hold.
pub const ROW_LIMIT: u32 = 1048576;

/// How many columns a sheet can hold.
pub const COLUMN_LIMIT: u16 = 16384;

/// The column of the quantity of a part.
pub const QUANTITY_COLUMN: u16 = 0;

/// The column of the designators of a part.
pub const DESIGNATOR_COLUMN: u16 = 1;

/// The column of the value of a part.
pub const COMMENT_COLUMN: u16 = 2;

/// The column of the footprint of a part.
pub const FOOTPRINT_COLUMN: u16 = 3;

/// The column of the description of a part.
pub const DESCRIPTION_COLUMN: u16 = 4;

/// The column of the first extra column of a part.
pub const EXTRA_COLUMN: u16 = 7;

/// How a cell of the report is dressed.
#[derive(Debug, Clone, Copy, PartialEq, Eq, Structural)]
pub enum CellStyle {
    Plain,
    Header,
    Category,
    Quantity,
}

/// One cell of the report: its row, the columns it spans from `column` to
/// `last_column`, its text and its style.
#[derive(Debug, PartialEq, Eq)]
pub struct SheetCell {
    pub row: u32,
    pub column: u16,
    pub last_column: u16,
    pub text: String,
    pub style: CellStyle,
}

/// What a `SheetCell` stands for.
pub struct SheetCellView {
    pub row: int,
    pub column: int,
    pub last_column: int,
    pub text: Seq<char>,
    pub style: CellStyle,
}

impl View for SheetCell {
    type V = SheetCellView;

    open spec fn view(&self) -> SheetCellView {
        SheetCellView {
            row: self.row as int,
            column: self.column as int,
            last_column: self.last_column as int,
            text: self.text@,
            style: self.style,
        }
    }
}

impl DeepView for SheetCell {
    type V = SheetCellView;

    open spec fn deep_view(&self) -> SheetCellView {
        self.view()
    }
}

/// The texts of one part as the report prints them.
#[derive(Debug, PartialEq, Eq)]
pub struct ItemRow {
    pub quantity: String,
    pub designator: Vec<String>,
    pub comment: String,
    pub footprint: String,
    pub description: String,
}

/// A cell of one column.
pub open spec fn single_cell(row: int, column: int, text: Seq<char>, style: CellStyle)
    -> SheetCellView {
    SheetCellView { row, column, last_column: column, text, style }
}

/// The separator between the designators of a part.
pub open spec fn separator() -> Seq<char> {
    seq![',', ' ']
}

/// The first row of the sheet up to the label of entry `upto` of the mapping:
/// `Qty` in the first column, then the labels of the mapping, one column
/// each.
pub open spec fn header_cells(headers: Seq<HeaderMapView>, upto: int) -> Seq<SheetCellView>
    decreases upto,
{
    if upto <= 0 {
        seq![single_cell(0, 0, seq!['Q', 't', 'y'], CellStyle::Quantity)]
    } else {
        header_cells(headers, upto - 1).push(
            single_cell(0, upto, headers[upto - 1].label, CellStyle::Header),
        )
    }
}

/// The cells of the first `upto` extra columns of a part, in row `row`.
pub open spec fn extra_cells(extra: Seq<ExtraColView>, row: int, upto: int) -> Seq<SheetCellView>
    decreases upto,
{
    if upto <= 0 {
        Seq::empty()
    } else {
        extra_cells(extra, row, upto - 1).push(
            single_cell(row, EXTRA_COLUMN + upto - 1, extra[upto - 1].value, CellStyle::Plain),
        )
    }
}

/// The cells of a part in row `row`: the number of its designators, its
/// designators, its value in engineering notation, footprint, description,
/// and its extra columns.
pub open spec fn item_cells(item: ItemView, row: int) -> Seq<SheetCellView> {
    seq![
        single_cell(
            row,
            QUANTITY_COLUMN as int,
            decimal_text(item.designator.len()),
            CellStyle::Quantity,
        ),
        single_cell(
            row,
            DESIGNATOR_COLUMN as int,
            joined(item.designator, separator(), item.designator.len() as int),
            CellStyle::Plain,
        ),
        single_cell(
            row,
            COMMENT_COLUMN as int,
            eng_notation(item.base_exp, item.measure_unit),
            CellStyle::Plain,
        ),
        single_cell(row, FOOTPRINT_COLUMN as int, item.footprint, CellStyle::Plain),
        single_cell(row, DESCRIPTION_COLUMN as int, item.description, CellStyle::Plain),
    ] + extra_cells(item.extra, row, item.extra.len() as int)
}

/// The block of a category that starts in row `start`: the name of the
/// category across the columns 0 to `width`, and below it one row for each of
/// the first `upto` parts that belongs to the category.
pub open spec fn block_cells(
    data: Seq<ItemView>,
    category: Category,
    start: int,
    width: int,
    upto: int,
) -> Seq<SheetCellView>
    decreases upto,
{
    if upto <= 0 {
        seq![
            SheetCellView {
                row: start,
                column: 0,
                last_column: width,
                text: category.name_text(),
                style: CellStyle::Category,
            },
        ]
    } else if data[upto - 1].category == category {
        block_cells(data, category, start, width, upto - 1) + item_cells(
            data[upto - 1],
            start + 1 + category_count(data, category, upto - 1),
        )
    } else {
        block_cells(data, category, start, width, upto - 1)
    }
}

/// The row in which the block of entry `upto` of `categories` starts: the
/// blocks follow the header row, each as long as its parts and one row more.
pub open spec fn block_start(data: Seq<ItemView>, categories: Seq<Category>, upto: int) -> int
    decreases upto,
{
    if upto <= 0 {
        1
    } else {
        block_start(data, categories, upto - 1) + 1 + category_count(
            data,
            categories[upto - 1],
            data.len() as int,
        )
    }
}

/// The cells of the sheet down to the block of entry `upto` of `categories`:
/// the header row, then the blocks of the categories in the order given.
pub open spec fn sheet_cells(
    headers: Seq<HeaderMapView>,
    data: Seq<ItemView>,
    categories: Seq<Category>,
    upto: int,
) -> Seq<SheetCellView>
    decreases upto,
{
    if upto <= 0 {
        header_cells(headers, headers.len() as int)
    } else {
        sheet_cells(headers, data, categories, upto - 1) + block_cells(
            data,
            categories[upto - 1],
            block_start(data, categories, upto - 1),
            headers.len() as int,
            data.len() as int,
        )
    }
}

/// Whether the report fits a sheet: the labels of the mapping and the extra
/// columns of each part within the columns, the header row and the blocks
/// within the rows.
pub open spec fn sheet_fits(
    headers: Seq<HeaderMapView>,
    data: Seq<ItemView>,
    categories: Seq<Category>,
) -> bool {
    &&& headers.len() < COLUMN_LIMIT
    &&& block_start(data, categories, categories.len() as int) <= ROW_LIMIT
    &&& forall|i: int|
        0 <= i < data.len() ==> EXTRA_COLUMN + (#[trigger] data[i]).extra.len() <= COLUMN_LIMIT
}

/// The texts of a part as the report prints them: the number of its
/// designators, the designators, the value in engineering notation, footprint
/// and description.
pub fn report_row(item: &Item) -> (r: ItemRow)
    ensures
        r.quantity@ == decimal_text(item@.designator.len()),
        r.designator.deep_view() == item@.designator,
        r.comment@ == eng_notation(item@.base_exp, item@.measure_unit),
        r.footprint@ == item@.footprint,
        r.description@ == item@.description,
{
    ItemRow {
        quantity: number_text(item.designator.len() as u64),
        designator: clone_texts(&item.designator),
        comment: value_to_eng_notation(&item.base_exp, item.measure_unit),
        footprint: item.footprint.clone(),
        description: item.description.clone(),
    }
}

/// The count of a category grows with the lines counted.
pub proof fn lemma_count_monotone(data: Seq<ItemView>, category: Category, from: int, upto: int)
    requires
        0 <= from <= upto,
    ensures
        category_count(data, category, from) <= category_count(data, category, upto),
    decreases upto - from,
{
    if from < upto {
        lemma_count_monotone(data, category, from, upto - 1);
    }
}

/// Each block starts below the one before it.
pub proof fn lemma_block_start_monotone(
    data: Seq<ItemView>,
    categories: Seq<Category>,
    from: int,
    upto: int,
)
    requires
        0 <= from <= upto,
    ensures
        1 <= block_start(data, categories, from),
        block_start(data, categories, from) <= block_start(data, categories, upto),
    decreases upto,
{
    if from < upto {
        lemma_block_start_monotone(data, categories, from, upto - 1);
    } else if upto > 0 {
        lemma_block_start_monotone(data, categories, from - 1, upto - 1);
    }
}

/// Tells whether the report fits a sheet.
pub fn fits(headers: &[HeaderMap], data: &[Item], categories: &Vec<Category>) -> (r: bool)
    ensures
        r == sheet_fits(headers.deep_view(), data.deep_view(), categories@),
{
    let ghost lines = data.deep_view();
    if headers.len() >= COLUMN_LIMIT as usize {
        return false;
    }
    let mut i: usize = 0;
    while i < data.len()
        invariant
            lines == data.deep_view(),
            i <= data.len(),
            forall|j: int| 0 <= j < i ==> EXTRA_COLUMN + (#[trigger] lines[j]).extra.len() <= COLUMN_LIMIT,
        decreases data.len() - i,
    {
        assert(lines[i as int] == data[i as int]@);
        if data[i].extra.len() > (COLUMN_LIMIT - EXTRA_COLUMN) as usize {
            return false;
        }
        i += 1;
    }
    let mut rows: u64 = 1;
    let mut k: usize = 0;
    while k < categories.len()
        invariant
            lines == data.deep_view(),
            k <= categories.len(),
            rows == block_start(lines, categories@, k as int),
            rows <= ROW_LIMIT,
        decreases categories.len() - k,
    {
        let count = count_category(data, categories[k]);
        proof {
            lemma_block_start_monotone(lines, categories@, k + 1, categories.len() as int);
        }
        if count >= ROW_LIMIT as usize {
            return false;
        }
        rows = rows + 1 + count as u64;
        if rows > ROW_LIMIT as u64 {
            return false;
        }
        k += 1;
    }
    true
}

/// Appends to `out` the cells of a part in row `row`.
fn push_item_cells(out: &mut Vec<SheetCell>, item: &Item, row: u32)
    requires
        EXTRA_COLUMN + item@.extra.len() <= COLUMN_LIMIT,
    ensures
        final(out).deep_view() == old(out).deep_view() + item_cells(item@, row as int),
{
    let ghost before = out.deep_view();
    let texts = report_row(item);
    proof {
        reveal_strlit(", ");
        assert(", "@ =~= separator());
    }
    let c0 = SheetCell {
        row,
        column: QUANTITY_COLUMN,
        last_column: QUANTITY_COLUMN,
        text: texts.quantity,
        style: CellStyle::Quantity,
    };
    let c1 = SheetCell {
        row,
        column: DESIGNATOR_COLUMN,
        last_column: DESIGNATOR_COLUMN,
        text: join(&texts.designator, ", "),
        style: CellStyle::Plain,
    };
    let c2 = SheetCell {
        row,
        column: COMMENT_COLUMN,
        last_column: COMMENT_COLUMN,
        text: texts.comment,
        style: CellStyle::Plain,
    };
    let c3 = SheetCell {
        row,
        column: FOOTPRINT_COLUMN,
        last_column: FOOTPRINT_COLUMN,
        text: texts.footprint,
        style: CellStyle::Plain,
    };
    let c4 = SheetCell {
        row,
        column: DESCRIPTION_COLUMN,
        last_column: DESCRIPTION_COLUMN,
        text: texts.description,
        style: CellStyle::Plain,
    };
    let ghost fixed = seq![c0@, c1@, c2@, c3@, c4@];
    out.push(c0);
    out.push(c1);
    out.push(c2);
    out.push(c3);
    out.push(c4);
    assert(out.deep_view() =~= before + fixed);
    let ghost columns = item@.extra;
    let mut n: usize = 0;
    assert(out.deep_view() =~= before + fixed + extra_cells(columns, row as int, 0));
    while n < item.extra.len()
        invariant
            columns == item@.extra,
            columns == item.extra.deep_view(),
            EXTRA_COLUMN + columns.len() <= COLUMN_LIMIT,
            n <= item.extra.len(),
            out.deep_view() == before + fixed + extra_cells(columns, row as int, n as int),
        decreases item.extra.len() - n,
    {
        assert(columns[n as int] == item.extra[n as int]@);
        let ghost so_far = out.deep_view();
        let column: u16 = EXTRA_COLUMN + n as u16;
        let cell = SheetCell {
            row,
            column,
            last_column: column,
            text: item.extra[n].value.clone(),
            style: CellStyle::Plain,
        };
        out.push(cell);
        assert(out.deep_view() =~= so_far.push(cell@));
        assert(out.deep_view() =~= before + fixed + extra_cells(columns, row as int, n + 1));
        n += 1;
    }
    assert(before + fixed + extra_cells(columns, row as int, columns.len() as int) =~= before
        + item_cells(item@, row as int));
}

/// Appends to `out` the block of a category that starts in row `start`.
fn push_block(
    out: &mut Vec<SheetCell>,
    data: &[Item],
    category: Category,
    start: u32,
    width: u16,
)
    requires
        start + 1 + category_count(data.deep_view(), category, data.len() as int) <= ROW_LIMIT,
        forall|i: int|
            0 <= i < data.len() ==> EXTRA_COLUMN + (#[trigger] data.deep_view()[i]).extra.len()
                <= COLUMN_LIMIT,
    ensures
        final(out).deep_view() == old(out).deep_view() + block_cells(
            data.deep_view(),
            category,
            start as int,
            width as int,
            data.len() as int,
        ),
{
    let ghost before = out.deep_view();
    let ghost lines = data.deep_view();
    let title = SheetCell {
        row: start,
        column: 0,
        last_column: width,
        text: category.name().to_owned(),
        style: CellStyle::Category,
    };
    out.push(title);
    assert(out.deep_view() =~= before + block_cells(lines, category, start as int, width as int, 0));
    let mut row: u32 = start + 1;
    let mut i: usize = 0;
    while i < data.len()
        invariant
            lines == data.deep_view(),
            i <= data.len(),
            start + 1 + category_count(lines, category, data.len() as int) <= ROW_LIMIT,
            forall|j: int|
                0 <= j < data.len() ==> EXTRA_COLUMN + (#[trigger] lines[j]).extra.len()
                    <= COLUMN_LIMIT,
            row == start + 1 + category_count(lines, category, i as int),
            out.deep_view() == before + block_cells(
                lines,
                category,
                start as int,
                width as int,
                i as int,
            ),
        decreases data.len() - i,
    {
        assert(lines[i as int] == data[i as int]@);
        proof {
            lemma_count_monotone(lines, category, i + 1, data.len() as int);
        }
        if data[i].category == category {
            let ghost so_far = out.deep_view();
            push_item_cells(out, &data[i], row);
            assert(out.deep_view() =~= before + block_cells(
                lines,
                category,
                start as int,
                width as int,
                i + 1,
            ));
            row += 1;
        }
        i += 1;
    }
}

/// Lays out the report of a bill of materials: the header row with `Qty` and
/// the labels of the column mapping, then for each category of `categories`,
/// in the order given, a row with the name of the category across the
/// columns and one row for each part of `data` that belongs to it, in the
/// order of `data`. The result is `None` where the report does not fit a
/// sheet.
pub fn layout(headers: &[HeaderMap], data: &[Item], categories: &Vec<Category>) -> (r: Option<
    Vec<SheetCell>,
>)
    ensures
        match r {
            Some(cells) => {
                &&& sheet_fits(headers.deep_view(), data.deep_view(), categories@)
                &&& cells.deep_view() == sheet_cells(
                    headers.deep_view(),
                    data.deep_view(),
                    categories@,
                    categories.len() as int,
                )
            },
            None => !sheet_fits(headers.deep_view(), data.deep_view(), categories@),
        },
{
    if !fits(headers, data, categories) {
        return None;
    }
    let ghost columns = headers.deep_view();
    let ghost lines = data.deep_view();
    proof {
        reveal_strlit("Qty");
        assert("Qty"@ =~= seq!['Q', 't', 'y']);
    }
    let mut out: Vec<SheetCell> = Vec::new();
    let corner = SheetCell {
        row: 0,
        column: 0,
        last_column: 0,
        text: "Qty".to_owned(),
        style: CellStyle::Quantity,
    };
    out.push(corner);
    assert(out.deep_view() =~= seq![corner@]);
    assert(out.deep_view() =~= header_cells(columns, 0));
    let mut i: usize = 0;
    while i < headers.len()
        invariant
            columns == headers.deep_view(),
            headers.len() < COLUMN_LIMIT,
            i <= headers.len(),
            out.deep_view() == header_cells(columns, i as int),
        decreases headers.len() - i,
    {
        assert(columns[i as int] == headers[i as int]@);
        let ghost so_far = out.deep_view();
        let column: u16 = (i + 1) as u16;
        let cell = SheetCell {
            row: 0,
            column,
            last_column: column,
            text: headers[i].label.clone(),
            style: CellStyle::Header,
        };
        out.push(cell);
        assert(out.deep_view() =~= so_far.push(cell@));
        i += 1;
    }
    let width: u16 = headers.len() as u16;
    let mut start: u32 = 1;
    let mut k: usize = 0;
    while k < categories.len()
        invariant
            columns == headers.deep_view(),
            lines == data.deep_view(),
            sheet_fits(columns, lines, categories@),
            width == headers.len(),
            k <= categories.len(),
            start == block_start(lines, categories@, k as int),
            out.deep_view() == sheet_cells(columns, lines, categories@, k as int),
        decreases categories.len() - k,
    {
        proof {
            lemma_block_start_monotone(lines, categories@, k + 1, categories.len() as int);
        }
        let count = count_category(data, categories[k]);
        push_block(&mut out, data, categories[k], start, width);
        start = start + 1 + count as u32;
        k += 1;
    }
    Some(out)
}

} // verus!
