//! The lines of a bill of materials: one `Item` for each row read, and one
//! for each part that rows are merged into.

use crate::category::Category;
use crate::value::EngineeringValue;
use crate::value::MeasureUnit;
use crate::value::ValueView;
use vstd::prelude::*;
use vstd::std_specs::cmp::PartialEqSpecImpl;
use vstd::string::*;

verus! {

/// The content of one extra column of a row: the label of the column and the
/// text of the cell.
#[derive(Debug, PartialEq, Eq)]
pub struct ExtraCol {
    pub label: String,
    pub value: String,
}

/// What an `ExtraCol` stands for.
pub struct ExtraColView {
    pub label: Seq<char>,
    pub value: Seq<char>,
}

impl View for ExtraCol {
    type V = ExtraColView;

    open spec fn view(&self) -> ExtraColView {
        ExtraColView { label: self.label@, value: self.value@ }
    }
}

impl DeepView for ExtraCol {
    type V = ExtraColView;

    open spec fn deep_view(&self) -> ExtraColView {
        self.view()
    }
}

impl Clone for ExtraCol {
    fn clone(&self) -> (r: Self)
        ensures
            r@ == self@,
    {
        ExtraCol { label: self.label.clone(), value: self.value.clone() }
    }
}

/// How many parts of a category a bill of materials holds.
#[derive(Debug, Clone, Copy, PartialEq, Eq, Structural)]
pub struct Stats {
    pub label: Category,
    pub value: usize,
}

/// One line of a bill of materials. As read from a row it lists the
/// designators of that row; as a merged part it lists the designators of all
/// the rows that share its identity key.
#[derive(Debug)]
pub struct Item {
    /// The identity key: rows with the same key are the same part.
    pub unique_id: String,
    pub category: Category,
    pub base_exp: EngineeringValue,
    pub measure_unit: MeasureUnit,
    pub designator: Vec<String>,
    pub comment: String,
    pub footprint: String,
    pub description: String,
    pub extra: Vec<ExtraCol>,
}

/// What an `Item` stands for.
pub struct ItemView {
    pub unique_id: Seq<char>,
    pub category: Category,
    pub base_exp: ValueView,
    pub measure_unit: MeasureUnit,
    pub designator: Seq<Seq<char>>,
    pub comment: Seq<char>,
    pub footprint: Seq<char>,
    pub description: Seq<char>,
    pub extra: Seq<ExtraColView>,
}

/// The values of the first `upto` extra columns, written one after the other.
pub open spec fn extra_values(extra: Seq<ExtraColView>, upto: int) -> Seq<char>
    decreases upto,
{
    if upto <= 0 {
        Seq::empty()
    } else {
        extra_values(extra, upto - 1) + extra[upto - 1].value
    }
}

/// The identity key of a line with the given fields: footprint, description
/// and the values of the extra columns, one after the other; for any category
/// but the connectors the comment goes before them.
pub open spec fn identity_key(
    category: Category,
    comment: Seq<char>,
    footprint: Seq<char>,
    description: Seq<char>,
    extra: Seq<ExtraColView>,
) -> Seq<char> {
    let tail = footprint + description + extra_values(extra, extra.len() as int);
    if category == Category::Connectors {
        tail
    } else {
        comment + tail
    }
}

impl ItemView {
    /// The identity key that the fields of the line give.
    pub open spec fn key(self) -> Seq<char> {
        identity_key(self.category, self.comment, self.footprint, self.description, self.extra)
    }

    /// The line holds the identity key of its fields.
    pub open spec fn wf(self) -> bool {
        self.unique_id == self.key()
    }

    /// The line with other designators.
    pub open spec fn with_designator(self, designator: Seq<Seq<char>>) -> ItemView {
        ItemView { designator, ..self }
    }
}

impl View for Item {
    type V = ItemView;

    open spec fn view(&self) -> ItemView {
        ItemView {
            unique_id: self.unique_id@,
            category: self.category,
            base_exp: self.base_exp@,
            measure_unit: self.measure_unit,
            designator: self.designator.deep_view(),
            comment: self.comment@,
            footprint: self.footprint@,
            description: self.description@,
            extra: self.extra.deep_view(),
        }
    }
}

impl DeepView for Item {
    type V = ItemView;

    open spec fn deep_view(&self) -> ItemView {
        self.view()
    }
}

/// Two lines are equal where they have the same identity key.
impl PartialEq for Item {
    fn eq(&self, other: &Self) -> (r: bool) {
        self.unique_id == other.unique_id
    }
}

impl PartialEqSpecImpl for Item {
    open spec fn obeys_eq_spec() -> bool {
        true
    }

    open spec fn eq_spec(&self, other: &Self) -> bool {
        self.unique_id@ == other.unique_id@
    }
}

/// Copies a list of texts.
pub fn clone_texts(list: &Vec<String>) -> (r: Vec<String>)
    ensures
        r.deep_view() == list.deep_view(),
{
    let mut out: Vec<String> = Vec::new();
    let mut i: usize = 0;
    while i < list.len()
        invariant
            i <= list.len(),
            out.len() == i,
            forall|j: int| 0 <= j < i ==> (#[trigger] out@[j])@ == list@[j]@,
        decreases list.len() - i,
    {
        out.push(list[i].clone());
        i += 1;
    }
    assert(out.deep_view() =~= list.deep_view());
    out
}

/// Copies a list of extra columns.
pub fn clone_extras(list: &Vec<ExtraCol>) -> (r: Vec<ExtraCol>)
    ensures
        r.deep_view() == list.deep_view(),
{
    let mut out: Vec<ExtraCol> = Vec::new();
    let mut i: usize = 0;
    while i < list.len()
        invariant
            i <= list.len(),
            out.len() == i,
            forall|j: int| 0 <= j < i ==> (#[trigger] out@[j])@ == list@[j]@,
        decreases list.len() - i,
    {
        out.push(list[i].clone());
        i += 1;
    }
    assert(out.deep_view() =~= list.deep_view());
    out
}

impl Clone for Item {
    fn clone(&self) -> (r: Self)
        ensures
            r@ == self@,
    {
        Item {
            unique_id: self.unique_id.clone(),
            category: self.category,
            base_exp: self.base_exp.clone(),
            measure_unit: self.measure_unit,
            designator: clone_texts(&self.designator),
            comment: self.comment.clone(),
            footprint: self.footprint.clone(),
            description: self.description.clone(),
            extra: clone_extras(&self.extra),
        }
    }
}

/// Writes the identity key of a line with the given fields.
pub fn make_key(
    category: Category,
    comment: &str,
    footprint: &str,
    description: &str,
    extra: &Vec<ExtraCol>,
) -> (r: String)
    ensures
        r@ == identity_key(category, comment@, footprint@, description@, extra.deep_view()),
{
    let mut key = String::new();
    match category {
        Category::Connectors => {},
        _ => {
            key.append(comment);
        },
    }
    key.append(footprint);
    key.append(description);
    let ghost head = key@;
    let ghost columns = extra.deep_view();
    let mut i: usize = 0;
    assert(key@ =~= head + extra_values(columns, 0));
    while i < extra.len()
        invariant
            columns == extra.deep_view(),
            i <= extra.len(),
            key@ == head + extra_values(columns, i as int),
        decreases extra.len() - i,
    {
        assert(columns[i as int] == extra[i as int]@);
        key.append(extra[i].value.as_str());
        assert(key@ =~= head + extra_values(columns, i + 1));
        i += 1;
    }
    assert(key@ =~= identity_key(category, comment@, footprint@, description@, columns));
    key
}

impl Item {
    /// The line holds the identity key of its fields.
    pub open spec fn wf(&self) -> bool {
        self@.wf()
    }

    /// A line with the given fields and the identity key that they give.
    pub fn new(
        category: Category,
        base_exp: EngineeringValue,
        measure_unit: MeasureUnit,
        designator: Vec<String>,
        comment: String,
        footprint: String,
        description: String,
        extra: Vec<ExtraCol>,
    ) -> (r: Item)
        ensures
            r.wf(),
            r@.category == category,
            r@.base_exp == base_exp@,
            r.base_exp == base_exp,
            r@.measure_unit == measure_unit,
            r@.designator == designator.deep_view(),
            r@.comment == comment@,
            r@.footprint == footprint@,
            r@.description == description@,
            r@.extra == extra.deep_view(),
    {
        let unique_id = make_key(
            category,
            comment.as_str(),
            footprint.as_str(),
            description.as_str(),
            &extra,
        );
        Item {
            unique_id,
            category,
            base_exp,
            measure_unit,
            designator,
            comment,
            footprint,
            description,
            extra,
        }
    }

    /// The identity key of the line.
    pub fn unique_id(&self) -> (r: &str)
        ensures
            r@ == self@.unique_id,
    {
        self.unique_id.as_str()
    }
}

} // verus!
