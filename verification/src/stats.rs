//! Figures on a bill of materials: which categories it holds, and how many
//! parts of each.

use crate::category::Category;
use crate::category::CATEGORY_COUNT;
use crate::items::Item;
use crate::items::ItemView;
use crate::items::Stats;
use vstd::prelude::*;

verus! {

/// How many of the first `upto` lines belong to `category`.
pub open spec fn category_count(items: Seq<ItemView>, category: Category, upto: int) -> nat
    decreases upto,
{
    if upto <= 0 {
        0
    } else if items[upto - 1].category == category {
        category_count(items, category, upto - 1) + 1
    } else {
        category_count(items, category, upto - 1)
    }
}

/// The figures of the first `ranks` categories: for each category that has
/// lines, in the order of the categories, the number of its lines.
pub open spec fn stats_of(items: Seq<ItemView>, ranks: int) -> Seq<Stats>
    decreases ranks,
{
    if ranks <= 0 {
        Seq::empty()
    } else {
        let before = stats_of(items, ranks - 1);
        let label = Category::at(ranks - 1);
        let value = category_count(items, label, items.len() as int);
        if value > 0 {
            before.push(Stats { label, value: value as usize })
        } else {
            before
        }
    }
}

/// Those of the first `ranks` categories that have lines, in the order of
/// the categories.
pub open spec fn categories_of(items: Seq<ItemView>, ranks: int) -> Seq<Category>
    decreases ranks,
{
    if ranks <= 0 {
        Seq::empty()
    } else {
        let before = categories_of(items, ranks - 1);
        let label = Category::at(ranks - 1);
        if category_count(items, label, items.len() as int) > 0 {
            before.push(label)
        } else {
            before
        }
    }
}

/// No more lines belong to a category than there are lines.
pub proof fn lemma_count_bound(items: Seq<ItemView>, category: Category, upto: int)
    requires
        0 <= upto,
    ensures
        category_count(items, category, upto) <= upto,
    decreases upto,
{
    if upto > 0 {
        lemma_count_bound(items, category, upto - 1);
    }
}

/// Counts the lines of a category.
pub fn count_category(items: &[Item], category: Category) -> (r: usize)
    ensures
        r == category_count(items.deep_view(), category, items.len() as int),
{
    let ghost lines = items.deep_view();
    let mut count: usize = 0;
    let mut i: usize = 0;
    while i < items.len()
        invariant
            lines == items.deep_view(),
            i <= items.len(),
            count <= i,
            count == category_count(lines, category, i as int),
        decreases items.len() - i,
    {
        assert(lines[i as int] == items[i as int]@);
        if items[i].category == category {
            count += 1;
        }
        i += 1;
    }
    count
}

/// Counts the lines of each category. The result lists the categories that
/// have lines, in the order of the categories, each with the number of its
/// lines.
pub fn stats(items: &[Item]) -> (r: Vec<Stats>)
    ensures
        r@ == stats_of(items.deep_view(), CATEGORY_COUNT as int),
{
    let ghost lines = items.deep_view();
    let mut out: Vec<Stats> = Vec::new();
    let mut rank: u8 = 0;
    assert(out@ =~= stats_of(lines, 0));
    while rank < CATEGORY_COUNT
        invariant
            lines == items.deep_view(),
            rank <= CATEGORY_COUNT,
            out@ == stats_of(lines, rank as int),
        decreases CATEGORY_COUNT - rank,
    {
        let label = Category::from_index(rank);
        let value = count_category(items, label);
        if value > 0 {
            out.push(Stats { label, value });
        }
        rank += 1;
    }
    out
}

/// Lists the categories that have lines, in the order of the categories,
/// each once.
pub fn categories(items: &[Item]) -> (r: Vec<Category>)
    ensures
        r@ == categories_of(items.deep_view(), CATEGORY_COUNT as int),
{
    let ghost lines = items.deep_view();
    let mut out: Vec<Category> = Vec::new();
    let mut rank: u8 = 0;
    assert(out@ =~= categories_of(lines, 0));
    while rank < CATEGORY_COUNT
        invariant
            lines == items.deep_view(),
            rank <= CATEGORY_COUNT,
            out@ == categories_of(lines, rank as int),
        decreases CATEGORY_COUNT - rank,
    {
        let label = Category::from_index(rank);
        if count_category(items, label) > 0 {
            out.push(label);
        }
        rank += 1;
    }
    out
}

/// How many of the first `upto` lines belong to one of the first `ranks`
/// categories.
pub open spec fn ranked_count(items: Seq<ItemView>, ranks: int, upto: int) -> nat
    decreases ranks,
{
    if ranks <= 0 {
        0
    } else {
        ranked_count(items, ranks - 1, upto) + category_count(items, Category::at(ranks - 1), upto)
    }
}

/// The sum of the figures of `list`.
pub open spec fn total(list: Seq<Stats>) -> nat
    decreases list.len(),
{
    if list.len() == 0 {
        0
    } else {
        total(list.drop_last()) + list.last().value as nat
    }
}

/// One more line adds one to the count of the categories up to its own, and
/// nothing to the count of those before it.
pub proof fn lemma_ranked_count_step(items: Seq<ItemView>, ranks: int, upto: int)
    requires
        0 <= ranks <= CATEGORY_COUNT,
        0 < upto,
    ensures
        ranked_count(items, ranks, upto) == ranked_count(items, ranks, upto - 1) + if items[upto
            - 1].category.rank() < ranks {
            1nat
        } else {
            0nat
        },
    decreases ranks,
{
    if ranks > 0 {
        lemma_ranked_count_step(items, ranks - 1, upto);
        assert(Category::at(ranks - 1).rank() == ranks - 1);
        assert(Category::at(items[upto - 1].category.rank()) == items[upto - 1].category);
    }
}

/// Each line belongs to one category: the counts of all the categories add
/// up to the number of lines.
pub proof fn lemma_ranked_count_all(items: Seq<ItemView>, upto: int)
    requires
        0 <= upto,
    ensures
        ranked_count(items, CATEGORY_COUNT as int, upto) == upto,
    decreases upto,
{
    if upto > 0 {
        lemma_ranked_count_all(items, upto - 1);
        lemma_ranked_count_step(items, CATEGORY_COUNT as int, upto);
    } else {
        lemma_ranked_count_zero(items, CATEGORY_COUNT as int);
    }
}

/// No lines, no count.
pub proof fn lemma_ranked_count_zero(items: Seq<ItemView>, ranks: int)
    ensures
        ranked_count(items, ranks, 0) == 0,
    decreases ranks,
{
    if ranks > 0 {
        lemma_ranked_count_zero(items, ranks - 1);
    }
}

/// The figures of the first `ranks` categories add up to the number of lines
/// that belong to them.
pub proof fn lemma_stats_total(items: Seq<ItemView>, ranks: int)
    requires
        items.len() <= usize::MAX,
    ensures
        total(stats_of(items, ranks)) == ranked_count(items, ranks, items.len() as int),
    decreases ranks,
{
    if ranks > 0 {
        lemma_stats_total(items, ranks - 1);
        let before = stats_of(items, ranks - 1);
        let label = Category::at(ranks - 1);
        let value = category_count(items, label, items.len() as int);
        lemma_count_bound(items, label, items.len() as int);
        if value > 0 {
            let now = before.push(Stats { label, value: value as usize });
            assert(now.drop_last() == before);
        }
    }
}

/// The figures of a bill of materials count each line once: they add up to
/// the number of lines.
pub proof fn lemma_stats_count_every_line(items: Seq<ItemView>)
    requires
        items.len() <= usize::MAX,
    ensures
        total(stats_of(items, CATEGORY_COUNT as int)) == items.len(),
{
    lemma_stats_total(items, CATEGORY_COUNT as int);
    lemma_ranked_count_all(items, items.len() as int);
}

/// The figures list the categories that have lines: the labels of the
/// figures are those categories, one by one.
pub proof fn lemma_stats_labels(items: Seq<ItemView>, ranks: int)
    ensures
        stats_of(items, ranks).len() == categories_of(items, ranks).len(),
        forall|k: int|
            0 <= k < stats_of(items, ranks).len() ==> (#[trigger] stats_of(items, ranks)[k]).label
                == categories_of(items, ranks)[k],
    decreases ranks,
{
    if ranks > 0 {
        lemma_stats_labels(items, ranks - 1);
    }
}

} // verus!
