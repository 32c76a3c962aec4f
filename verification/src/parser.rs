//! Reading a whole bill of materials: from the grid of its cells to the
//! merged parts.

use crate::category::Category;
use crate::category::CATEGORY_COUNT;
use crate::header::arrange;
use crate::header::find_headers;
use crate::header::is_first_header_row;
use crate::header::is_header_row;
use crate::header::mapping_wf;
use crate::header::scanned;
use crate::header::BomError;
use crate::header::HeaderMap;
use crate::header::HeaderMapView;
use crate::items::Item;
use crate::items::ItemView;
use crate::items::Stats;
use crate::merge::distinct_keys;
use crate::merge::merged;
use crate::merge::sets;
use crate::rows::grid_items;
use crate::rows::grid_warnings;
use crate::rows::parse_data;
use crate::rows::Warning;
use crate::rows::WarningView;
use crate::stats::categories;
use crate::stats::categories_of;
use crate::stats::stats;
use crate::stats::stats_of;
use vstd::prelude::*;

verus! {

/// A bill of materials that was read: its column mapping, its parts, and
/// what was found wrong with its rows.
#[derive(Debug)]
pub struct DataParser {
    items: Vec<Item>,
    headers: Vec<HeaderMap>,
    warnings: Vec<Warning>,
    header_row: usize,
}

impl DataParser {
    /// The column mapping.
    pub closed spec fn header_views(&self) -> Seq<HeaderMapView> {
        self.headers.deep_view()
    }

    /// The parts.
    pub closed spec fn item_views(&self) -> Seq<ItemView> {
        self.items.deep_view()
    }

    /// What was found wrong with the rows.
    pub closed spec fn warning_views(&self) -> Seq<WarningView> {
        self.warnings.deep_view()
    }

    /// Position of the header row in the grid.
    pub closed spec fn header_line(&self) -> int {
        self.header_row as int
    }

    /// Reads a bill of materials from the grid of its cells.
    ///
    /// The header row is the first row that names the designator column; a
    /// grid without one is refused. The column mapping is read from the grid
    /// down to that row, the rows below it are read into lines, and the lines
    /// are merged into parts.
    pub fn new(grid: &Vec<Vec<String>>) -> (r: Result<DataParser, BomError>)
        ensures
            match r {
                Ok(parser) => {
                    &&& is_first_header_row(grid.deep_view(), parser.header_line())
                    &&& parser.header_views() == arrange(
                        scanned(grid.deep_view(), parser.header_line() + 1),
                    )
                    &&& mapping_wf(parser.header_views())
                    &&& parser.item_views() == merged(
                        grid_items(
                            grid.deep_view(),
                            parser.header_views(),
                            parser.header_line() + 1,
                            grid.len() as int,
                        ),
                    )
                    &&& distinct_keys(parser.item_views())
                    &&& forall|k: int|
                        0 <= k < parser.item_views().len() ==> (#[trigger] parser.item_views()[k]).wf()
                    &&& parser.warning_views() == grid_warnings(
                        grid.deep_view(),
                        parser.header_views(),
                        parser.header_line() + 1,
                        grid.len() as int,
                    )
                },
                Err(e) => {
                    &&& e == BomError::HeaderNotFound
                    &&& forall|q: int|
                        0 <= q < grid.deep_view().len() ==> !is_header_row(
                            #[trigger] grid.deep_view()[q],
                        )
                },
            },
    {
        match find_headers(grid) {
            Ok(scan) => {
                assert(grid.deep_view().len() == grid.len());
                let rows = parse_data(grid, scan.headers.as_slice(), scan.row + 1);
                assert forall|j: int| 0 <= j < rows.items.len() implies (#[trigger] rows.items.deep_view()[j]).wf() by {
                    assert(rows.items.deep_view()[j] == rows.items@[j]@);
                }
                let items = sets(rows.items);
                Ok(
                    DataParser {
                        items,
                        headers: scan.headers,
                        warnings: rows.warnings,
                        header_row: scan.row,
                    },
                )
            },
            Err(e) => Err(e),
        }
    }

    /// The column mapping, in the order of the roles.
    pub fn headers(&self) -> (r: &[HeaderMap])
        ensures
            r.deep_view() == self.header_views(),
    {
        let r = self.headers.as_slice();
        assert(r.deep_view() =~= self.headers.deep_view());
        r
    }

    /// The parts, in the order in which their first rows stand in the grid.
    pub fn items(&self) -> (r: &[Item])
        ensures
            r.deep_view() == self.item_views(),
    {
        let r = self.items.as_slice();
        assert(r.deep_view() =~= self.items.deep_view());
        r
    }

    /// What was found wrong with the rows, row by row.
    pub fn warnings(&self) -> (r: &[Warning])
        ensures
            r.deep_view() == self.warning_views(),
    {
        let r = self.warnings.as_slice();
        assert(r.deep_view() =~= self.warnings.deep_view());
        r
    }

    /// Position of the header row in the grid.
    pub fn header_row(&self) -> (r: usize)
        ensures
            r == self.header_line(),
    {
        self.header_row
    }

    /// The categories that have parts, in the order of the categories.
    pub fn categories(&self) -> (r: Vec<Category>)
        ensures
            r@ == categories_of(self.item_views(), CATEGORY_COUNT as int),
    {
        categories(self.items.as_slice())
    }

    /// The number of parts of each category that has parts, in the order of
    /// the categories.
    pub fn stats(&self) -> (r: Vec<Stats>)
        ensures
            r@ == stats_of(self.item_views(), CATEGORY_COUNT as int),
    {
        stats(self.items.as_slice())
    }
}

} // verus!
