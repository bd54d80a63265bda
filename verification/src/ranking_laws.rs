//! What holds of every ranking of records.
use vstd::prelude::*;
use vstd::seq_lib::to_multiset_contains;
use crate::app::AppView;
use crate::db::{ids_unique, is_top_ranking, shown};
use crate::ranking::{in_order, is_ranking_of, ordered};

verus! {

/// Whether no two records of a list rank alike.
pub open spec fn ranks_differ(apps: Seq<AppView>) -> bool {
    forall|i: int, j: int|
        0 <= i < j < apps.len() ==> (#[trigger] apps[i]).score.rank() != (
        #[trigger] apps[j]).score.rank()
}

/// Two lists that hold the same records equally often have each other's
/// records.
pub proof fn lemma_same_records(a: Seq<AppView>, b: Seq<AppView>, i: int)
    requires
        a.to_multiset() == b.to_multiset(),
        0 <= i < b.len(),
    ensures
        a.contains(b[i]),
{
    assert(b.contains(b[i]));
    to_multiset_contains(b, b[i]);
    to_multiset_contains(a, b[i]);
}

/// Reordering a list in which no record stands twice gives such a list.
pub proof fn lemma_reordered_no_duplicates(a: Seq<AppView>, b: Seq<AppView>)
    requires
        a.to_multiset() == b.to_multiset(),
        a.no_duplicates(),
    ensures
        b.no_duplicates(),
{
    a.lemma_multiset_has_no_duplicates();
    b.lemma_multiset_has_no_duplicates_conv();
}

/// Reordering the records keeps their identifiers apart: a list that holds
/// the records of a list with unique identifiers has unique identifiers.
pub proof fn lemma_reordering_keeps_ids_unique(a: Seq<AppView>, b: Seq<AppView>)
    requires
        a.to_multiset() == b.to_multiset(),
        ids_unique(a),
    ensures
        ids_unique(b),
{
    assert(a.no_duplicates()) by {
        assert forall|i: int, j: int| 0 <= i < a.len() && 0 <= j < a.len() && i != j implies a[i]
            != a[j] by {
            if i < j {
                assert(a[i].uuid != a[j].uuid);
            } else {
                assert(a[j].uuid != a[i].uuid);
            }
        }
    }
    lemma_reordered_no_duplicates(a, b);
    assert forall|i: int, j: int| 0 <= i < j < b.len() implies (#[trigger] b[i]).uuid != (
    #[trigger] b[j]).uuid by {
        lemma_same_records(a, b, i);
        lemma_same_records(a, b, j);
        let p = choose|p: int| 0 <= p < a.len() && a[p] == b[i];
        let q = choose|q: int| 0 <= q < a.len() && a[q] == b[j];
        assert(b[i] != b[j]);
        if p < q {
            assert(a[p].uuid != a[q].uuid);
        } else {
            assert(a[q].uuid != a[p].uuid);
        }
    }
}

/// A ranking from the highest score down falls strictly where no two of the
/// records rank alike: each record ranks above all that follow it.
pub proof fn lemma_ranking_strict(out: Seq<AppView>, apps: Seq<AppView>)
    requires
        is_ranking_of(out, apps, true),
        ranks_differ(apps),
    ensures
        out.len() == apps.len(),
        forall|i: int, j: int|
            0 <= i < j < out.len() ==> (#[trigger] out[i]).score.rank() > (
            #[trigger] out[j]).score.rank(),
{
    assert(out.len() == apps.len()) by {
        broadcast use vstd::seq_lib::group_to_multiset_ensures;

        assert(out.to_multiset().len() == apps.to_multiset().len());
    }
    assert(apps.no_duplicates()) by {
        assert forall|i: int, j: int|
            0 <= i < apps.len() && 0 <= j < apps.len() && i != j implies apps[i] != apps[j] by {
            if i < j {
                assert(apps[i].score.rank() != apps[j].score.rank());
            } else {
                assert(apps[j].score.rank() != apps[i].score.rank());
            }
        }
    }
    lemma_reordered_no_duplicates(apps, out);
    assert forall|i: int, j: int| 0 <= i < j < out.len() implies (#[trigger] out[i]).score.rank()
        > (#[trigger] out[j]).score.rank() by {
        lemma_same_records(apps, out, i);
        lemma_same_records(apps, out, j);
        let p = choose|p: int| 0 <= p < apps.len() && apps[p] == out[i];
        let q = choose|q: int| 0 <= q < apps.len() && apps[q] == out[j];
        assert(out[i] != out[j]);
        assert(p != q);
        if p < q {
            assert(apps[p].score.rank() != apps[q].score.rank());
        } else {
            assert(apps[q].score.rank() != apps[p].score.rank());
        }
        assert(in_order(out[i], out[j], true));
    }
}

/// A ranked list that is not cut short holds all the records, each as often
/// as they were given, from the highest score down; and it falls strictly
/// where no two records rank alike.
pub proof fn lemma_uncut_ranking(out: Seq<AppView>, apps: Seq<AppView>)
    requires
        is_top_ranking(out, apps, None),
    ensures
        is_ranking_of(out, apps, true),
        out.len() == apps.len(),
        ranks_differ(apps) ==> forall|i: int, j: int|
            0 <= i < j < out.len() ==> (#[trigger] out[i]).score.rank() > (
            #[trigger] out[j]).score.rank(),
{
    let full = choose|full: Seq<AppView>|
        is_ranking_of(full, apps, true) && out == full.take(
            crate::db::shown(full.len(), None),
        );
    assert(full.take(full.len() as int) =~= full);
    assert(out.len() == apps.len()) by {
        broadcast use vstd::seq_lib::group_to_multiset_ensures;

        assert(out.to_multiset().len() == apps.to_multiset().len());
    }
    if ranks_differ(apps) {
        lemma_ranking_strict(out, apps);
    }
}

/// A ranked list that is cut to a number holds that many records, or all
/// where there are fewer; they fall from the highest score down; each is a
/// record that was given; and the records that are left out, which make up
/// the given ones together with those shown, rank no higher than any that is
/// shown.
pub proof fn lemma_cut_ranking(out: Seq<AppView>, apps: Seq<AppView>, num_items: Option<usize>)
    requires
        is_top_ranking(out, apps, num_items),
    ensures
        out.len() == shown(apps.len(), num_items),
        ordered(out, true),
        forall|i: int| 0 <= i < out.len() ==> apps.contains(#[trigger] out[i]),
        exists|rest: Seq<AppView>|
            (out + rest).to_multiset() == apps.to_multiset() && forall|i: int, j: int|
                0 <= i < out.len() && 0 <= j < rest.len() ==> in_order(
                    #[trigger] out[i],
                    #[trigger] rest[j],
                    true,
                ),
{
    let full = choose|full: Seq<AppView>|
        is_ranking_of(full, apps, true) && out == full.take(shown(full.len(), num_items));
    assert(full.len() == apps.len()) by {
        broadcast use vstd::seq_lib::group_to_multiset_ensures;

        assert(full.to_multiset().len() == apps.to_multiset().len());
    }
    let k = shown(full.len(), num_items);
    let rest = full.skip(k);
    assert(out + rest =~= full);
    assert forall|i: int, j: int| 0 <= i < j < out.len() implies in_order(
        out[i],
        out[j],
        true,
    ) by {
        assert(in_order(full[i], full[j], true));
    }
    assert forall|i: int| 0 <= i < out.len() implies apps.contains(#[trigger] out[i]) by {
        assert(out[i] == full[i]);
        lemma_same_records(apps, full, i);
    }
    assert forall|i: int, j: int| 0 <= i < out.len() && 0 <= j < rest.len() implies in_order(
        #[trigger] out[i],
        #[trigger] rest[j],
        true,
    ) by {
        assert(out[i] == full[i] && rest[j] == full[k + j]);
        assert(in_order(full[i], full[k + j], true));
    }
}

} // verus!
