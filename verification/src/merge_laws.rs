//! What holds of every merge of a scan into the registry.
use vstd::prelude::*;
use crate::app::{AppView, Identity};
use crate::db::{describes, ids_unique, kept, known_in, merged, new_to};

verus! {

/// A filter keeps the whole list where every record passes the test.
pub proof fn lemma_filter_keeps_all(apps: Seq<AppView>, pred: spec_fn(AppView) -> bool)
    requires
        forall|i: int| 0 <= i < apps.len() ==> pred(#[trigger] apps[i]),
    ensures
        apps.filter(pred) == apps,
    decreases apps.len(),
{
    reveal(Seq::filter);
    if apps.len() > 0 {
        lemma_filter_keeps_all(apps.drop_last(), pred);
        assert(apps.drop_last().push(apps.last()) =~= apps);
    }
}

/// A filter keeps nothing where no record passes the test.
pub proof fn lemma_filter_keeps_none(apps: Seq<AppView>, pred: spec_fn(AppView) -> bool)
    requires
        forall|i: int| 0 <= i < apps.len() ==> !pred(#[trigger] apps[i]),
    ensures
        apps.filter(pred) == Seq::<AppView>::empty(),
    decreases apps.len(),
{
    reveal(Seq::filter);
    if apps.len() > 0 {
        lemma_filter_keeps_none(apps.drop_last(), pred);
    } else {
        assert(apps =~= Seq::<AppView>::empty());
    }
}

/// After a merge the registry describes the applications that the scan found,
/// all of them and no others.
pub proof fn lemma_merge_describes_the_scan(
    existing: Seq<AppView>,
    incoming: Seq<AppView>,
    id: Identity,
)
    ensures
        describes(merged(existing, incoming), id) <==> describes(incoming, id),
{
    let stay = kept(existing, incoming);
    let join = incoming.filter(new_to(stay));
    let all = merged(existing, incoming);
    if describes(all, id) {
        let i = choose|i: int| 0 <= i < all.len() && #[trigger] all[i].identity() == id;
        if i < stay.len() {
            assert(all[i] == stay[i]);
            existing.lemma_filter_pred(known_in(incoming), i);
        } else {
            let k = i - stay.len();
            assert(all[i] == join[k]);
            assert(join.contains(join[k]));
            incoming.lemma_filter_contains_rev(new_to(stay), join[k]);
            let j = choose|j: int| 0 <= j < incoming.len() && incoming[j] == join[k];
            assert(incoming[j].identity() == id);
        }
    }
    if describes(incoming, id) {
        let j = choose|j: int| 0 <= j < incoming.len() && #[trigger] incoming[j].identity() == id;
        if describes(stay, id) {
            let i = choose|i: int| 0 <= i < stay.len() && #[trigger] stay[i].identity() == id;
            assert(all[i] == stay[i]);
        } else {
            assert(new_to(stay)(incoming[j]));
            incoming.lemma_filter_contains(new_to(stay), j);
            let k = choose|k: int| 0 <= k < join.len() && join[k] == incoming[j];
            assert(all[stay.len() + k] == join[k]);
        }
    }
}

/// Merging a list into itself leaves it as it is: every record stays, with
/// its identifier and its score, and none is added.
pub proof fn lemma_merge_into_itself(apps: Seq<AppView>)
    ensures
        merged(apps, apps) == apps,
{
    assert forall|i: int| 0 <= i < apps.len() implies known_in(apps)(#[trigger] apps[i]) by {
        assert(apps[i].identity() == apps[i].identity());
    }
    lemma_filter_keeps_all(apps, known_in(apps));
    assert forall|i: int| 0 <= i < apps.len() implies !new_to(apps)(#[trigger] apps[i]) by {
        assert(apps[i].identity() == apps[i].identity());
    }
    lemma_filter_keeps_none(apps, new_to(apps));
    assert(apps + Seq::<AppView>::empty() =~= apps);
}

/// Merging the same scan a second time changes nothing.
pub proof fn lemma_merge_twice(existing: Seq<AppView>, incoming: Seq<AppView>)
    ensures
        merged(merged(existing, incoming), incoming) == merged(existing, incoming),
{
    let once = merged(existing, incoming);
    assert forall|i: int| 0 <= i < once.len() implies known_in(incoming)(#[trigger] once[i]) by {
        assert(describes(once, once[i].identity()));
        lemma_merge_describes_the_scan(existing, incoming, once[i].identity());
    }
    lemma_filter_keeps_all(once, known_in(incoming));
    assert forall|j: int| 0 <= j < incoming.len() implies !new_to(once)(#[trigger] incoming[j]) by {
        assert(describes(incoming, incoming[j].identity()));
        lemma_merge_describes_the_scan(existing, incoming, incoming[j].identity());
    }
    lemma_filter_keeps_none(incoming, new_to(once));
    assert(once + Seq::<AppView>::empty() =~= once);
}

/// A record of the registry whose application the scan found again is still
/// there after the merge, unchanged.
pub proof fn lemma_merge_keeps_known(existing: Seq<AppView>, incoming: Seq<AppView>, i: int)
    requires
        0 <= i < existing.len(),
        describes(incoming, existing[i].identity()),
    ensures
        merged(existing, incoming).contains(existing[i]),
{
    let stay = kept(existing, incoming);
    existing.lemma_filter_contains(known_in(incoming), i);
    let k = choose|k: int| 0 <= k < stay.len() && stay[k] == existing[i];
    assert(merged(existing, incoming)[k] == stay[k]);
}

/// A record of the registry whose application the scan did not find is gone
/// after the merge: no record describes that application any more.
pub proof fn lemma_merge_drops_unknown(existing: Seq<AppView>, incoming: Seq<AppView>, i: int)
    requires
        0 <= i < existing.len(),
        !describes(incoming, existing[i].identity()),
    ensures
        !describes(merged(existing, incoming), existing[i].identity()),
{
    lemma_merge_describes_the_scan(existing, incoming, existing[i].identity());
}

/// A record of the scan whose application the registry did not know is
/// there after the merge, as the scan made it: with its new identifier and
/// its score.
pub proof fn lemma_merge_adds_new(existing: Seq<AppView>, incoming: Seq<AppView>, j: int)
    requires
        0 <= j < incoming.len(),
        !describes(existing, incoming[j].identity()),
    ensures
        merged(existing, incoming).contains(incoming[j]),
{
    let stay = kept(existing, incoming);
    let join = incoming.filter(new_to(stay));
    if describes(stay, incoming[j].identity()) {
        let i = choose|i: int|
            0 <= i < stay.len() && #[trigger] stay[i].identity() == incoming[j].identity();
        assert(stay.contains(stay[i]));
        existing.lemma_filter_contains_rev(known_in(incoming), stay[i]);
        let p = choose|p: int| 0 <= p < existing.len() && existing[p] == stay[i];
        assert(existing[p].identity() == incoming[j].identity());
    }
    incoming.lemma_filter_contains(new_to(stay), j);
    let k = choose|k: int| 0 <= k < join.len() && join[k] == incoming[j];
    assert(merged(existing, incoming)[stay.len() + k] == join[k]);
}

/// A record that stays after a merge is a record of the registry as it was:
/// the merge changes no record, and what it adds comes after all that stay.
pub proof fn lemma_merge_changes_no_record(existing: Seq<AppView>, incoming: Seq<AppView>, i: int)
    requires
        0 <= i < merged(existing, incoming).len(),
    ensures
        i < kept(existing, incoming).len() ==> existing.contains(merged(existing, incoming)[i]),
        i >= kept(existing, incoming).len() ==> incoming.contains(merged(existing, incoming)[i]),
{
    let stay = kept(existing, incoming);
    let join = incoming.filter(new_to(stay));
    let all = merged(existing, incoming);
    if i < stay.len() {
        assert(all[i] == stay[i]);
        assert(stay.contains(stay[i]));
        existing.lemma_filter_contains_rev(known_in(incoming), stay[i]);
    } else {
        assert(all[i] == join[i - stay.len()]);
        assert(join.contains(join[i - stay.len()]));
        incoming.lemma_filter_contains_rev(new_to(stay), join[i - stay.len()]);
    }
}

/// Whether no record of `a` has the identifier of a record of `b`.
pub open spec fn ids_apart(a: Seq<AppView>, b: Seq<AppView>) -> bool {
    forall|i: int, j: int|
        0 <= i < a.len() && 0 <= j < b.len() ==> (#[trigger] a[i]).uuid != (#[trigger] b[j]).uuid
}

/// A list with unique identifiers holds no record twice.
pub proof fn lemma_ids_unique_no_duplicates(apps: Seq<AppView>)
    requires
        ids_unique(apps),
    ensures
        apps.no_duplicates(),
{
    assert forall|i: int, j: int|
        0 <= i < apps.len() && 0 <= j < apps.len() && i != j implies apps[i] != apps[j] by {
        if i < j {
            assert(apps[i].uuid != apps[j].uuid);
        } else {
            assert(apps[j].uuid != apps[i].uuid);
        }
    }
}

/// What a filter keeps of a list without duplicates has no duplicates.
pub proof fn lemma_filter_no_duplicates(apps: Seq<AppView>, pred: spec_fn(AppView) -> bool)
    requires
        apps.no_duplicates(),
    ensures
        apps.filter(pred).no_duplicates(),
    decreases apps.len(),
{
    reveal(Seq::filter);
    if apps.len() > 0 {
        let front = apps.drop_last();
        lemma_filter_no_duplicates(front, pred);
        let part = front.filter(pred);
        if pred(apps.last()) {
            assert forall|i: int| 0 <= i < part.len() implies part[i] != apps.last() by {
                assert(part.contains(part[i]));
                front.lemma_filter_contains_rev(pred, part[i]);
                let p = choose|p: int| 0 <= p < front.len() && front[p] == part[i];
                assert(apps[p] == part[i]);
            }
        }
    }
}

/// What a filter keeps of a list with unique identifiers has unique
/// identifiers.
pub proof fn lemma_filter_keeps_ids_unique(apps: Seq<AppView>, pred: spec_fn(AppView) -> bool)
    requires
        ids_unique(apps),
    ensures
        ids_unique(apps.filter(pred)),
{
    lemma_ids_unique_no_duplicates(apps);
    lemma_filter_no_duplicates(apps, pred);
    let part = apps.filter(pred);
    assert forall|i: int, j: int| 0 <= i < j < part.len() implies (#[trigger] part[i]).uuid != (
    #[trigger] part[j]).uuid by {
        assert(part.contains(part[i]));
        assert(part.contains(part[j]));
        apps.lemma_filter_contains_rev(pred, part[i]);
        apps.lemma_filter_contains_rev(pred, part[j]);
        let p = choose|p: int| 0 <= p < apps.len() && apps[p] == part[i];
        let q = choose|q: int| 0 <= q < apps.len() && apps[q] == part[j];
        assert(part[i] != part[j]);
        assert(p != q);
        if p < q {
            assert(apps[p].uuid != apps[q].uuid);
        } else {
            assert(apps[q].uuid != apps[p].uuid);
        }
    }
}

/// A merge keeps the identifiers unique, where the records that the scan made
/// have identifiers that differ from each other and from those of the
/// registry.
pub proof fn lemma_merge_keeps_ids_unique(existing: Seq<AppView>, incoming: Seq<AppView>)
    requires
        ids_unique(existing),
        ids_unique(incoming),
        ids_apart(existing, incoming),
    ensures
        ids_unique(merged(existing, incoming)),
{
    let stay = kept(existing, incoming);
    let join = incoming.filter(new_to(stay));
    let all = merged(existing, incoming);
    lemma_filter_keeps_ids_unique(existing, known_in(incoming));
    lemma_filter_keeps_ids_unique(incoming, new_to(stay));
    assert forall|i: int, j: int| 0 <= i < j < all.len() implies (#[trigger] all[i]).uuid != (
    #[trigger] all[j]).uuid by {
        if j < stay.len() {
            assert(all[i] == stay[i] && all[j] == stay[j]);
        } else if i >= stay.len() {
            assert(all[i] == join[i - stay.len()] && all[j] == join[j - stay.len()]);
        } else {
            assert(all[i] == stay[i] && all[j] == join[j - stay.len()]);
            assert(stay.contains(stay[i]));
            assert(join.contains(join[j - stay.len()]));
            existing.lemma_filter_contains_rev(known_in(incoming), stay[i]);
            incoming.lemma_filter_contains_rev(new_to(stay), join[j - stay.len()]);
            let p = choose|p: int| 0 <= p < existing.len() && existing[p] == stay[i];
            let q = choose|q: int|
                0 <= q < incoming.len() && incoming[q] == join[j - stay.len()];
            assert(existing[p].uuid != incoming[q].uuid);
        }
    }
}

} // verus!
