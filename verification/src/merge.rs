//! Merging the rows of a bill of materials into parts: rows with the same
//! identity key are one part.

use crate::category::Category;
use crate::items::clone_texts;
use crate::items::extra_values;
use crate::items::Item;
use crate::items::ItemView;
use crate::text::str_eq;
use vstd::prelude::*;
use vstd::string::*;

verus! {

/// Whether row `i` is the first of `rows` with its identity key.
pub open spec fn first_of_key(rows: Seq<ItemView>, i: int) -> bool {
    forall|j: int| 0 <= j < i ==> (#[trigger] rows[j]).unique_id != rows[i].unique_id
}

/// The designators of those among the first `upto` rows that have the
/// identity key `key`, in the order of the rows.
pub open spec fn key_designators(rows: Seq<ItemView>, key: Seq<char>, upto: int) -> Seq<Seq<char>>
    decreases upto,
{
    if upto <= 0 {
        Seq::empty()
    } else if rows[upto - 1].unique_id == key {
        key_designators(rows, key, upto - 1) + rows[upto - 1].designator
    } else {
        key_designators(rows, key, upto - 1)
    }
}

/// The parts whose first row is among the first `upto` rows, each with the
/// designators that the first `gathered` rows give it. A part has the fields
/// of its first row.
pub open spec fn parts(rows: Seq<ItemView>, upto: int, gathered: int) -> Seq<ItemView>
    decreases upto,
{
    if upto <= 0 {
        Seq::empty()
    } else if first_of_key(rows, upto - 1) {
        parts(rows, upto - 1, gathered).push(
            rows[upto - 1].with_designator(
                key_designators(rows, rows[upto - 1].unique_id, gathered),
            ),
        )
    } else {
        parts(rows, upto - 1, gathered)
    }
}

/// The parts that `rows` merge into: one part for each identity key, in the
/// order in which the keys first occur. A part has the fields of the first
/// row with its key, and the designators of all the rows with its key, in the
/// order of the rows.
pub open spec fn merged(rows: Seq<ItemView>) -> Seq<ItemView> {
    parts(rows, rows.len() as int, rows.len() as int)
}

/// Whether the identity keys of `list` differ from one another.
pub open spec fn distinct_keys(list: Seq<ItemView>) -> bool {
    forall|a: int, b: int|
        0 <= a < b < list.len() ==> (#[trigger] list[a]).unique_id != (#[trigger] list[b]).unique_id
}

/// Whether one of the first `upto` rows has the identity key `key`.
pub open spec fn key_seen(rows: Seq<ItemView>, key: Seq<char>, upto: int) -> bool {
    exists|j: int| 0 <= j < upto && (#[trigger] rows[j]).unique_id == key
}

/// `list` with the designators `more` appended to each line of identity key
/// `key`.
pub open spec fn extend_key(list: Seq<ItemView>, key: Seq<char>, more: Seq<Seq<char>>) -> Seq<
    ItemView,
> {
    Seq::new(
        list.len(),
        |k: int|
            if list[k].unique_id == key {
                list[k].with_designator(list[k].designator + more)
            } else {
                list[k]
            },
    )
}

/// The parts hold exactly the identity keys of the rows they come from, each
/// once, and no more parts than rows.
pub proof fn lemma_parts_keys(rows: Seq<ItemView>, upto: int, gathered: int)
    requires
        0 <= upto <= rows.len(),
    ensures
        distinct_keys(parts(rows, upto, gathered)),
        parts(rows, upto, gathered).len() <= upto,
        forall|k: int|
            0 <= k < parts(rows, upto, gathered).len() ==> key_seen(
                rows,
                (#[trigger] parts(rows, upto, gathered)[k]).unique_id,
                upto,
            ),
        forall|j: int|
            0 <= j < upto ==> key_seen(parts(rows, upto, gathered), (#[trigger] rows[j]).unique_id,
                parts(rows, upto, gathered).len() as int),
    decreases upto,
{
    if upto > 0 {
        lemma_parts_keys(rows, upto - 1, gathered);
        let before = parts(rows, upto - 1, gathered);
        let now = parts(rows, upto, gathered);
        let row = rows[upto - 1];
        if first_of_key(rows, upto - 1) {
            assert forall|a: int, b: int| 0 <= a < b < now.len() implies (#[trigger] now[a]).unique_id
                != (#[trigger] now[b]).unique_id by {
                if b == before.len() {
                    assert(key_seen(rows, before[a].unique_id, upto - 1));
                }
            }
            assert forall|k: int| 0 <= k < now.len() implies key_seen(
                rows,
                (#[trigger] now[k]).unique_id,
                upto,
            ) by {
                if k < before.len() {
                    assert(key_seen(rows, before[k].unique_id, upto - 1));
                    let j = choose|j: int|
                        0 <= j < upto - 1 && (#[trigger] rows[j]).unique_id == before[k].unique_id;
                    assert(rows[j].unique_id == now[k].unique_id);
                } else {
                    assert(rows[upto - 1].unique_id == now[k].unique_id);
                }
            }
            assert forall|j: int| 0 <= j < upto implies key_seen(
                now,
                (#[trigger] rows[j]).unique_id,
                now.len() as int,
            ) by {
                if j < upto - 1 {
                    assert(key_seen(before, rows[j].unique_id, before.len() as int));
                    let k = choose|k: int|
                        0 <= k < before.len() && (#[trigger] before[k]).unique_id
                            == rows[j].unique_id;
                    assert(now[k].unique_id == rows[j].unique_id);
                } else {
                    assert(now[before.len() as int].unique_id == rows[j].unique_id);
                }
            }
        } else {
            let i = choose|i: int|
                0 <= i < upto - 1 && (#[trigger] rows[i]).unique_id == row.unique_id;
            assert forall|k: int| 0 <= k < now.len() implies key_seen(
                rows,
                (#[trigger] now[k]).unique_id,
                upto,
            ) by {
                assert(key_seen(rows, before[k].unique_id, upto - 1));
                let j = choose|j: int|
                    0 <= j < upto - 1 && (#[trigger] rows[j]).unique_id == before[k].unique_id;
                assert(rows[j].unique_id == now[k].unique_id);
            }
            assert forall|j: int| 0 <= j < upto implies key_seen(
                now,
                (#[trigger] rows[j]).unique_id,
                now.len() as int,
            ) by {
                if j < upto - 1 {
                    assert(key_seen(before, rows[j].unique_id, before.len() as int));
                } else {
                    assert(key_seen(before, rows[i].unique_id, before.len() as int));
                }
            }
        }
    }
}

/// Gathering the designators of one more row appends them to the part of
/// that row's identity key and leaves the other parts as they are.
pub proof fn lemma_parts_gather(rows: Seq<ItemView>, upto: int, gathered: int)
    requires
        0 <= upto <= gathered < rows.len(),
    ensures
        parts(rows, upto, gathered + 1) == extend_key(
            parts(rows, upto, gathered),
            rows[gathered].unique_id,
            rows[gathered].designator,
        ),
    decreases upto,
{
    let key = rows[gathered].unique_id;
    let more = rows[gathered].designator;
    if upto > 0 {
        lemma_parts_gather(rows, upto - 1, gathered);
    }
    assert(parts(rows, upto, gathered + 1) =~= extend_key(parts(rows, upto, gathered), key, more));
}

/// Rows without the identity key `key` give it no designators.
pub proof fn lemma_unseen_key(rows: Seq<ItemView>, key: Seq<char>, upto: int)
    requires
        0 <= upto <= rows.len(),
        !key_seen(rows, key, upto),
    ensures
        key_designators(rows, key, upto) == Seq::<Seq<char>>::empty(),
    decreases upto,
{
    if upto > 0 {
        assert(rows[upto - 1].unique_id != key);
        assert forall|j: int| 0 <= j < upto - 1 implies (#[trigger] rows[j]).unique_id != key by {}
        lemma_unseen_key(rows, key, upto - 1);
    }
}

/// Finds the line of `items` that has the identity key `key`: the first such
/// line, or `None` where no line has it.
pub fn find_key(items: &Vec<Item>, key: &str) -> (r: Option<usize>)
    ensures
        match r {
            Some(at) => {
                &&& at < items.len()
                &&& items.deep_view()[at as int].unique_id == key@
                &&& !key_seen(items.deep_view(), key@, at as int)
            },
            None => !key_seen(items.deep_view(), key@, items.len() as int),
        },
{
    let mut i: usize = 0;
    while i < items.len()
        invariant
            i <= items.len(),
            !key_seen(items.deep_view(), key@, i as int),
        decreases items.len() - i,
    {
        assert(items.deep_view()[i as int] == items[i as int]@);
        if str_eq(items[i].unique_id.as_str(), key) {
            return Some(i);
        }
        i += 1;
    }
    None
}

/// Merges rows into parts: rows with the same identity key become one part,
/// and the parts stand in the order in which their keys first occur. A part
/// keeps the fields of the first row with its key and lists the designators
/// of all the rows with its key, row after row.
pub fn sets(data: Vec<Item>) -> (r: Vec<Item>)
    ensures
        r.deep_view() == merged(data.deep_view()),
        distinct_keys(r.deep_view()),
        (forall|j: int| 0 <= j < data.len() ==> (#[trigger] data.deep_view()[j]).wf()) ==> (forall|
            k: int,
        |
            0 <= k < r.len() ==> (#[trigger] r.deep_view()[k]).wf()),
{
    let ghost rows = data.deep_view();
    let mut items: Vec<Item> = Vec::new();
    let mut i: usize = 0;
    assert(items.deep_view() =~= parts(rows, 0, 0));
    while i < data.len()
        invariant
            rows == data.deep_view(),
            i <= data.len(),
            items.deep_view() == parts(rows, i as int, i as int),
        decreases data.len() - i,
    {
        let row = &data[i];
        let ghost before = items.deep_view();
        assert(rows[i as int] == row@);
        proof {
            lemma_parts_keys(rows, i as int, i as int);
            lemma_parts_gather(rows, i as int, i as int);
        }
        match find_key(&items, row.unique_id.as_str()) {
            Some(at) => {
                let mut more = clone_texts(&row.designator);
                let ghost old_items = items@;
                items[at].designator.append(&mut more);
                proof {
                    assert forall|k: int| 0 <= k < items.len() implies (#[trigger] items@[k])@
                        == extend_key(before, row@.unique_id, row@.designator)[k] by {
                        if k == at {
                            assert(items@[k].designator.deep_view() =~= old_items[k].designator.deep_view()
                                + row@.designator);
                        } else {
                            assert(items@[k] == old_items[k]);
                            assert(before[k] == old_items[k]@);
                            assert(before[at as int].unique_id == row@.unique_id);
                        }
                    }
                    assert(items.deep_view() =~= extend_key(
                        before,
                        row@.unique_id,
                        row@.designator,
                    ));
                    assert(key_seen(rows, before[at as int].unique_id, i as int));
                    assert(!first_of_key(rows, i as int));
                }
            },
            None => {
                let part = row.clone();
                items.push(part);
                proof {
                    assert(first_of_key(rows, i as int)) by {
                        assert forall|j: int| 0 <= j < i implies (#[trigger] rows[j]).unique_id
                            != rows[i as int].unique_id by {
                            assert(key_seen(before, rows[j].unique_id, before.len() as int));
                        }
                    }
                    assert(!key_seen(rows, row@.unique_id, i as int));
                    lemma_unseen_key(rows, row@.unique_id, i as int);
                    assert(key_designators(rows, row@.unique_id, i + 1) =~= row@.designator);
                    assert(extend_key(before, row@.unique_id, row@.designator) =~= before);
                    assert(items.deep_view() =~= before.push(part@));
                }
            },
        }
        i += 1;
    }
    proof {
        lemma_parts_keys(rows, rows.len() as int, rows.len() as int);
        if forall|j: int| 0 <= j < rows.len() ==> (#[trigger] rows[j]).wf() {
            lemma_merged_wf(rows, rows.len() as int, rows.len() as int);
        }
    }
    items
}

/// Among rows with distinct identity keys, a key gathers the designators of
/// its one row.
pub proof fn lemma_single_row_designators(rows: Seq<ItemView>, i: int, upto: int)
    requires
        distinct_keys(rows),
        0 <= i < rows.len(),
        0 <= upto <= rows.len(),
    ensures
        key_designators(rows, rows[i].unique_id, upto) == if i < upto {
            rows[i].designator
        } else {
            Seq::<Seq<char>>::empty()
        },
    decreases upto,
{
    if upto > 0 {
        lemma_single_row_designators(rows, i, upto - 1);
        if upto - 1 == i {
            assert(key_designators(rows, rows[i].unique_id, upto) =~= rows[i].designator);
        } else if upto - 1 < i {
            assert(rows[upto - 1].unique_id != rows[i].unique_id);
        } else {
            assert(rows[i].unique_id != rows[upto - 1].unique_id);
        }
    }
}

/// Rows with distinct identity keys are their own parts.
pub proof fn lemma_parts_of_distinct(rows: Seq<ItemView>, upto: int)
    requires
        distinct_keys(rows),
        0 <= upto <= rows.len(),
    ensures
        parts(rows, upto, rows.len() as int) == rows.subrange(0, upto),
    decreases upto,
{
    if upto > 0 {
        lemma_parts_of_distinct(rows, upto - 1);
        lemma_single_row_designators(rows, upto - 1, rows.len() as int);
        assert(first_of_key(rows, upto - 1));
        assert(rows[upto - 1].with_designator(rows[upto - 1].designator) == rows[upto - 1]);
        assert(parts(rows, upto, rows.len() as int) =~= rows.subrange(0, upto));
    } else {
        assert(parts(rows, upto, rows.len() as int) =~= rows.subrange(0, upto));
    }
}

/// The parts of a merge have identity keys that differ from one another, and
/// each key of the rows is the key of a part.
pub proof fn lemma_merged_keys(rows: Seq<ItemView>)
    ensures
        distinct_keys(merged(rows)),
        merged(rows).len() <= rows.len(),
        forall|j: int|
            0 <= j < rows.len() ==> key_seen(
                merged(rows),
                (#[trigger] rows[j]).unique_id,
                merged(rows).len() as int,
            ),
        forall|k: int|
            0 <= k < merged(rows).len() ==> key_seen(
                rows,
                (#[trigger] merged(rows)[k]).unique_id,
                rows.len() as int,
            ),
{
    lemma_parts_keys(rows, rows.len() as int, rows.len() as int);
}

/// Merging is idempotent: the parts of a merge, taken as rows and merged
/// again, are the same parts.
pub proof fn lemma_merge_idempotent(rows: Seq<ItemView>)
    ensures
        merged(merged(rows)) == merged(rows),
{
    let once = merged(rows);
    lemma_merged_keys(rows);
    lemma_parts_of_distinct(once, once.len() as int);
    assert(once.subrange(0, once.len() as int) =~= once);
}

/// Two rows with the same identity key merge into one part: it has the
/// fields of the first row and the designators of both, those of the first
/// row first.
pub proof fn lemma_merge_same_key(a: ItemView, b: ItemView)
    requires
        a.unique_id == b.unique_id,
    ensures
        merged(seq![a, b]) == seq![a.with_designator(a.designator + b.designator)],
        merged(seq![a, b])[0].designator.len() == a.designator.len() + b.designator.len(),
{
    let rows = seq![a, b];
    assert(rows[0] == a && rows[1] == b);
    assert(first_of_key(rows, 0));
    assert(!first_of_key(rows, 1));
    reveal_with_fuel(parts, 3);
    reveal_with_fuel(key_designators, 3);
    assert(key_designators(rows, a.unique_id, 2) =~= a.designator + b.designator);
    assert(merged(rows) =~= seq![a.with_designator(a.designator + b.designator)]);
}

/// Two rows of connectors with the same footprint, the same description and
/// the same values in their extra columns merge into one part, whatever
/// their comments: the part lists as many designators as both rows together.
pub proof fn lemma_merge_connectors(a: ItemView, b: ItemView)
    requires
        a.wf(),
        b.wf(),
        a.category == Category::Connectors,
        b.category == Category::Connectors,
        a.footprint == b.footprint,
        a.description == b.description,
        extra_values(a.extra, a.extra.len() as int) == extra_values(b.extra, b.extra.len() as int),
    ensures
        merged(seq![a, b]).len() == 1,
        merged(seq![a, b])[0] == a.with_designator(a.designator + b.designator),
        merged(seq![a, b])[0].designator.len() == a.designator.len() + b.designator.len(),
{
    lemma_merge_same_key(a, b);
}

/// Merging keeps lines well formed: where each row holds the identity key of
/// its fields, so does each part.
pub proof fn lemma_merged_wf(rows: Seq<ItemView>, upto: int, gathered: int)
    requires
        0 <= upto <= rows.len(),
        forall|j: int| 0 <= j < rows.len() ==> (#[trigger] rows[j]).wf(),
    ensures
        forall|k: int|
            0 <= k < parts(rows, upto, gathered).len() ==> (#[trigger] parts(
                rows,
                upto,
                gathered,
            )[k]).wf(),
    decreases upto,
{
    if upto > 0 {
        lemma_merged_wf(rows, upto - 1, gathered);
        let before = parts(rows, upto - 1, gathered);
        let now = parts(rows, upto, gathered);
        let row = rows[upto - 1];
        assert(row.wf());
        assert forall|k: int| 0 <= k < now.len() implies (#[trigger] now[k]).wf() by {
            if k < before.len() {
                assert(now[k] == before[k]);
            } else {
                let part = row.with_designator(key_designators(rows, row.unique_id, gathered));
                assert(now[k] == part);
                assert(part.key() == row.key());
            }
        }
    }
}

} // verus!
