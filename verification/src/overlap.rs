//! Whether two lists of form ids have a form id in common, found by
//! sorting both and walking them side by side.

use crate::form_id::{
    lemma_form_id_at_most_transitive, lemma_form_id_order_respects_equality,
    lemma_form_id_order_trichotomy, FormId, FormIdView,
};
use vstd::prelude::*;

verus! {

/// The form id that stands at place `k` of an order of the indices of
/// `ids`.
pub open spec fn entry_at(ids: Seq<(FormId, bool)>, order: Seq<usize>, k: int) -> FormIdView {
    ids[order[k] as int].0@
}

/// Whether every index that `order` lists is at least `low` and below
/// `high`.
pub open spec fn indexes_within(order: Seq<usize>, low: int, high: int) -> bool {
    forall|k: int| 0 <= k < order.len() ==> low <= #[trigger] order[k] < high
}

/// Whether the form ids stand in ascending order when they are taken in
/// the order of the indices that `order` lists.
pub open spec fn ascending(ids: Seq<(FormId, bool)>, order: Seq<usize>) -> bool {
    forall|k: int, l: int|
        0 <= k < l < order.len() ==> (#[trigger] entry_at(ids, order, k)).at_most(
            #[trigger] entry_at(ids, order, l),
        )
}

/// Whether `order` lists `index`.
pub open spec fn lists(order: Seq<usize>, index: int) -> bool {
    exists|k: int| 0 <= k < order.len() && #[trigger] order[k] == index
}

/// Whether `order` lists every index from `low` up to, not including,
/// `high`.
pub open spec fn lists_all(order: Seq<usize>, low: int, high: int) -> bool {
    forall|index: int| low <= index < high ==> #[trigger] lists(order, index)
}

/// What each entry of a list of form ids holds: the form id, and whether
/// the record overrides one of a master.
pub open spec fn entry_views(ids: Seq<(FormId, bool)>) -> Seq<(FormIdView, bool)> {
    Seq::new(ids.len(), |i: int| (ids[i].0@, ids[i].1))
}

/// Whether two lists of form ids have a form id in common: one of the
/// first is equal to one of the second.
pub open spec fn have_common_form_id(
    left: Seq<(FormIdView, bool)>,
    right: Seq<(FormIdView, bool)>,
) -> bool {
    exists|i: int, j: int|
        0 <= i < left.len() && 0 <= j < right.len() && (#[trigger] left[i]).0.same_as(
            (#[trigger] right[j]).0,
        )
}

/// Having a form id in common does not depend on which list is named
/// first.
pub proof fn lemma_common_form_id_symmetric(
    left: Seq<(FormIdView, bool)>,
    right: Seq<(FormIdView, bool)>,
)
    ensures
        have_common_form_id(left, right) == have_common_form_id(right, left),
{
    if have_common_form_id(left, right) {
        let (i, j) = choose|i: int, j: int|
            0 <= i < left.len() && 0 <= j < right.len() && (#[trigger] left[i]).0.same_as(
                (#[trigger] right[j]).0,
            );
        assert(right[j].0.same_as(left[i].0));
    }
    if have_common_form_id(right, left) {
        let (j, i) = choose|j: int, i: int|
            0 <= j < right.len() && 0 <= i < left.len() && (#[trigger] right[j]).0.same_as(
                (#[trigger] left[i]).0,
            );
        assert(left[i].0.same_as(right[j].0));
    }
}

/// A list that holds a form id has a form id in common with itself.
pub proof fn lemma_common_form_id_reflexive(ids: Seq<(FormIdView, bool)>)
    requires
        ids.len() > 0,
    ensures
        have_common_form_id(ids, ids),
{
    assert(ids[0].0.same_as(ids[0].0));
}

/// Whether no form id of `merged` comes after a form id that `order` lists
/// at place `from` or later.
pub open spec fn all_at_most(
    ids: Seq<(FormId, bool)>,
    merged: Seq<usize>,
    order: Seq<usize>,
    from: int,
) -> bool {
    forall|k: int, p: int|
        0 <= k < merged.len() && from <= p < order.len() ==> (#[trigger] entry_at(
            ids,
            merged,
            k,
        )).at_most(#[trigger] entry_at(ids, order, p))
}

/// Whether `merged` lists every index that `order` lists before place
/// `upto`.
pub open spec fn lists_start_of(merged: Seq<usize>, order: Seq<usize>, upto: int) -> bool {
    forall|p: int| 0 <= p < upto ==> lists(merged, #[trigger] order[p] as int)
}

/// Whether `left` or `right` lists every index that `merged` lists.
pub open spec fn drawn_from(merged: Seq<usize>, left: Seq<usize>, right: Seq<usize>) -> bool {
    forall|k: int|
        0 <= k < merged.len() ==> lists(left, #[trigger] merged[k] as int) || lists(
            right,
            merged[k] as int,
        )
}

/// What an order lists it still lists after one more index is put at its
/// end, and it lists that index too.
proof fn lemma_lists_after_push(order: Seq<usize>, pushed: usize, index: int)
    ensures
        lists(order, index) ==> lists(order.push(pushed), index),
        lists(order.push(pushed), pushed as int),
{
    if lists(order, index) {
        let k = choose|k: int| 0 <= k < order.len() && #[trigger] order[k] == index;
        assert(order.push(pushed)[k] == index);
    }
    assert(order.push(pushed)[order.len() as int] == pushed);
}

/// One step of a merge keeps the order. The index at place `at` of
/// `source` is put at the end of `merged`, which so far held nothing that
/// comes after what `source` lists from `at` on or `other` lists from
/// `other_from` on; the form id at that index does not come after the next
/// one of `other`.
proof fn lemma_merge_step_keeps_order(
    ids: Seq<(FormId, bool)>,
    merged: Seq<usize>,
    source: Seq<usize>,
    at: int,
    other: Seq<usize>,
    other_from: int,
)
    requires
        0 <= at < source.len(),
        0 <= other_from <= other.len(),
        ascending(ids, merged),
        ascending(ids, source),
        ascending(ids, other),
        all_at_most(ids, merged, source, at),
        all_at_most(ids, merged, other, other_from),
        other_from < other.len() ==> entry_at(ids, source, at).at_most(
            entry_at(ids, other, other_from),
        ),
    ensures
        ascending(ids, merged.push(source[at])),
        all_at_most(ids, merged.push(source[at]), source, at + 1),
        all_at_most(ids, merged.push(source[at]), other, other_from),
{
    let after = merged.push(source[at]);
    let taken = entry_at(ids, source, at);
    assert forall|k: int| 0 <= k < after.len() implies #[trigger] entry_at(ids, after, k) == if k
        < merged.len() {
        entry_at(ids, merged, k)
    } else {
        taken
    } by {}
    assert forall|k: int, l: int| 0 <= k < l < after.len() implies (#[trigger] entry_at(
        ids,
        after,
        k,
    )).at_most(#[trigger] entry_at(ids, after, l)) by {
        if l == merged.len() {
            assert(entry_at(ids, merged, k).at_most(entry_at(ids, source, at)));
        } else {
            assert(entry_at(ids, merged, k).at_most(entry_at(ids, merged, l)));
        }
    }
    assert forall|k: int, p: int| 0 <= k < after.len() && at + 1 <= p < source.len() implies (
    #[trigger] entry_at(ids, after, k)).at_most(#[trigger] entry_at(ids, source, p)) by {
        if k < merged.len() {
            assert(entry_at(ids, merged, k).at_most(entry_at(ids, source, p)));
        } else {
            assert(taken.at_most(entry_at(ids, source, p)));
        }
    }
    assert forall|k: int, q: int| 0 <= k < after.len() && other_from <= q < other.len() implies (
    #[trigger] entry_at(ids, after, k)).at_most(#[trigger] entry_at(ids, other, q)) by {
        if k < merged.len() {
            assert(entry_at(ids, merged, k).at_most(entry_at(ids, other, q)));
        } else {
            let next = entry_at(ids, other, other_from);
            if q > other_from {
                assert(next.at_most(entry_at(ids, other, q)));
                lemma_form_id_at_most_transitive(taken, next, entry_at(ids, other, q));
            }
        }
    }
}

/// One step of a merge loses no index and invents none: after the index at
/// place `at` of `source` is put at the end of `merged`, it lists the
/// start of `source` up to and with that place, still lists the start of
/// `other`, and still lists only what `left` or `right` lists.
proof fn lemma_merge_step_keeps_indices(
    merged: Seq<usize>,
    source: Seq<usize>,
    at: int,
    other: Seq<usize>,
    other_upto: int,
    left: Seq<usize>,
    right: Seq<usize>,
)
    requires
        0 <= at < source.len(),
        0 <= other_upto <= other.len(),
        lists_start_of(merged, source, at),
        lists_start_of(merged, other, other_upto),
        drawn_from(merged, left, right),
        source == left || source == right,
    ensures
        lists_start_of(merged.push(source[at]), source, at + 1),
        lists_start_of(merged.push(source[at]), other, other_upto),
        drawn_from(merged.push(source[at]), left, right),
{
    let after = merged.push(source[at]);
    assert forall|p: int| 0 <= p < at + 1 implies lists(after, #[trigger] source[p] as int) by {
        lemma_lists_after_push(merged, source[at], source[p] as int);
    }
    assert forall|q: int| 0 <= q < other_upto implies lists(after, #[trigger] other[q] as int) by {
        lemma_lists_after_push(merged, source[at], other[q] as int);
    }
    assert forall|k: int| 0 <= k < after.len() implies lists(left, #[trigger] after[k] as int)
        || lists(right, after[k] as int) by {
        if k == merged.len() {
            assert(lists(source, source[at] as int));
        } else {
            assert(after[k] == merged[k]);
        }
    }
}

/// Merges two ascending orders of indices of `ids` into one.
fn merge(ids: &[(FormId, bool)], left: &Vec<usize>, right: &Vec<usize>) -> (merged: Vec<usize>)
    requires
        indexes_within(left@, 0, ids@.len() as int),
        indexes_within(right@, 0, ids@.len() as int),
        ascending(ids@, left@),
        ascending(ids@, right@),
        left@.len() + right@.len() <= usize::MAX,
    ensures
        merged@.len() == left@.len() + right@.len(),
        indexes_within(merged@, 0, ids@.len() as int),
        ascending(ids@, merged@),
        drawn_from(merged@, left@, right@),
        lists_start_of(merged@, left@, left@.len() as int),
        lists_start_of(merged@, right@, right@.len() as int),
{
    let mut merged: Vec<usize> = Vec::new();
    let mut i: usize = 0;
    let mut j: usize = 0;
    while i < left.len() || j < right.len()
        invariant
            indexes_within(left@, 0, ids@.len() as int),
            indexes_within(right@, 0, ids@.len() as int),
            ascending(ids@, left@),
            ascending(ids@, right@),
            left@.len() + right@.len() <= usize::MAX,
            i <= left@.len(),
            j <= right@.len(),
            merged@.len() == i + j,
            indexes_within(merged@, 0, ids@.len() as int),
            ascending(ids@, merged@),
            all_at_most(ids@, merged@, left@, i as int),
            all_at_most(ids@, merged@, right@, j as int),
            drawn_from(merged@, left@, right@),
            lists_start_of(merged@, left@, i as int),
            lists_start_of(merged@, right@, j as int),
        decreases left@.len() - i + right@.len() - j,
    {
        let take_left: bool = if i >= left.len() {
            false
        } else if j >= right.len() {
            true
        } else {
            !ids[right[j]].0.precedes(&ids[left[i]].0)
        };
        if take_left {
            proof {
                lemma_merge_step_keeps_order(ids@, merged@, left@, i as int, right@, j as int);
                lemma_merge_step_keeps_indices(
                    merged@,
                    left@,
                    i as int,
                    right@,
                    j as int,
                    left@,
                    right@,
                );
            }
            merged.push(left[i]);
            i += 1;
        } else {
            proof {
                if i < left@.len() {
                    lemma_form_id_order_trichotomy(
                        entry_at(ids@, right@, j as int),
                        entry_at(ids@, left@, i as int),
                    );
                }
                lemma_merge_step_keeps_order(ids@, merged@, right@, j as int, left@, i as int);
                lemma_merge_step_keeps_indices(
                    merged@,
                    right@,
                    j as int,
                    left@,
                    i as int,
                    left@,
                    right@,
                );
            }
            merged.push(right[j]);
            j += 1;
        }
    }
    merged
}

/// Sorts the indices from `low` up to, not including, `high` by the form
/// ids that stand at them.
fn sort_range(ids: &[(FormId, bool)], low: usize, high: usize) -> (order: Vec<usize>)
    requires
        low <= high <= ids@.len(),
    ensures
        order@.len() == high - low,
        indexes_within(order@, low as int, high as int),
        lists_all(order@, low as int, high as int),
        ascending(ids@, order@),
    decreases high - low,
{
    if high - low == 0 {
        Vec::new()
    } else if high - low == 1 {
        let mut order: Vec<usize> = Vec::new();
        order.push(low);
        assert(order@[0] == low);
        order
    } else {
        let middle: usize = low + (high - low) / 2;
        let left = sort_range(ids, low, middle);
        let right = sort_range(ids, middle, high);
        let order = merge(ids, &left, &right);
        proof {
            assert forall|k: int| 0 <= k < order@.len() implies low <= #[trigger] order@[k]
                < high by {
                if lists(left@, order@[k] as int) {
                    let p = choose|p: int| 0 <= p < left@.len() && #[trigger] left@[p] == order@[k];
                } else {
                    assert(lists(right@, order@[k] as int));
                    let q = choose|q: int|
                        0 <= q < right@.len() && #[trigger] right@[q] == order@[k];
                }
            }
            assert forall|index: int| low <= index < high implies #[trigger] lists(
                order@,
                index,
            ) by {
                if index < middle {
                    assert(lists(left@, index));
                    let p = choose|p: int| 0 <= p < left@.len() && #[trigger] left@[p] == index;
                    assert(lists(order@, left@[p] as int));
                } else {
                    assert(lists(right@, index));
                    let q = choose|q: int| 0 <= q < right@.len() && #[trigger] right@[q] == index;
                    assert(lists(order@, right@[q] as int));
                }
            }
        }
        order
    }
}

/// The indices of `ids` in ascending order of the form ids at them: each
/// index once, and no form id before one that precedes it.
pub fn sorted_indices(ids: &[(FormId, bool)]) -> (order: Vec<usize>)
    ensures
        order@.len() == ids@.len(),
        indexes_within(order@, 0, ids@.len() as int),
        lists_all(order@, 0, ids@.len() as int),
        ascending(ids@, order@),
{
    sort_range(ids, 0, ids.len())
}

/// Whether two lists of form ids have a form id in common. Both lists are
/// sorted once and then walked side by side.
pub fn form_ids_overlap(left: &[(FormId, bool)], right: &[(FormId, bool)]) -> (overlap: bool)
    ensures
        overlap == have_common_form_id(entry_views(left@), entry_views(right@)),
{
    let left_order = sorted_indices(left);
    let right_order = sorted_indices(right);
    let mut i: usize = 0;
    let mut j: usize = 0;
    while i < left_order.len() && j < right_order.len()
        invariant
            left_order@.len() == left@.len(),
            right_order@.len() == right@.len(),
            indexes_within(left_order@, 0, left@.len() as int),
            indexes_within(right_order@, 0, right@.len() as int),
            ascending(left@, left_order@),
            ascending(right@, right_order@),
            i <= left_order@.len(),
            j <= right_order@.len(),
            forall|k: int, l: int|
                0 <= k < i && 0 <= l < right_order@.len() ==> !(#[trigger] entry_at(
                    left@,
                    left_order@,
                    k,
                )).same_as(#[trigger] entry_at(right@, right_order@, l)),
            forall|k: int, l: int|
                0 <= k < left_order@.len() && 0 <= l < j ==> !(#[trigger] entry_at(
                    left@,
                    left_order@,
                    k,
                )).same_as(#[trigger] entry_at(right@, right_order@, l)),
        decreases left_order@.len() - i + right_order@.len() - j,
    {
        let a: &FormId = &left[left_order[i]].0;
        let b: &FormId = &right[right_order[j]].0;
        let ghost x = entry_at(left@, left_order@, i as int);
        let ghost y = entry_at(right@, right_order@, j as int);
        assert(a@ == x && b@ == y);
        if a.precedes(b) {
            proof {
                assert forall|l: int| 0 <= l < right_order@.len() implies !x.same_as(
                    #[trigger] entry_at(right@, right_order@, l),
                ) by {
                    let z = entry_at(right@, right_order@, l);
                    if l >= j && x.same_as(z) {
                        if l > j {
                            assert(y.at_most(z));
                        }
                        lemma_form_id_order_trichotomy(y, z);
                        lemma_form_id_order_trichotomy(x, y);
                        lemma_form_id_order_respects_equality(x, z, y);
                    }
                }
            }
            i += 1;
        } else if b.precedes(a) {
            proof {
                assert forall|k: int| 0 <= k < left_order@.len() implies !(#[trigger] entry_at(
                    left@,
                    left_order@,
                    k,
                )).same_as(y) by {
                    let z = entry_at(left@, left_order@, k);
                    if k >= i && z.same_as(y) {
                        if k > i {
                            assert(x.at_most(z));
                        }
                        lemma_form_id_order_trichotomy(x, z);
                        lemma_form_id_order_trichotomy(y, x);
                        lemma_form_id_order_respects_equality(z, y, x);
                    }
                }
            }
            j += 1;
        } else {
            proof {
                lemma_form_id_order_trichotomy(x, y);
                let p = left_order@[i as int] as int;
                let q = right_order@[j as int] as int;
                assert(entry_views(left@)[p].0.same_as(entry_views(right@)[q].0));
            }
            return true;
        }
    }
    proof {
        let left_views = entry_views(left@);
        let right_views = entry_views(right@);
        if have_common_form_id(left_views, right_views) {
            let (p, q) = choose|p: int, q: int|
                0 <= p < left_views.len() && 0 <= q < right_views.len() && (
                #[trigger] left_views[p]).0.same_as((#[trigger] right_views[q]).0);
            assert(lists(left_order@, p));
            assert(lists(right_order@, q));
            let k = choose|k: int| 0 <= k < left_order@.len() && #[trigger] left_order@[k] == p;
            let l = choose|l: int| 0 <= l < right_order@.len() && #[trigger] right_order@[l] == q;
            assert(entry_at(left@, left_order@, k).same_as(entry_at(right@, right_order@, l)));
        }
    }
    false
}

} // verus!
