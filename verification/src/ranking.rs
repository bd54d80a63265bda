//! Putting records in the order of their scores.
use vstd::prelude::*;
use vstd::multiset::Multiset;
use vstd::seq_lib::{to_multiset_build, to_multiset_insert};
use crate::app::{views, App, AppView};

verus! {

/// Whether `a` may stand before `b` in a list ordered by score, falling where
/// `descending` holds and rising where it does not.
pub open spec fn in_order(a: AppView, b: AppView, descending: bool) -> bool {
    if descending {
        a.score.rank() >= b.score.rank()
    } else {
        a.score.rank() <= b.score.rank()
    }
}

/// Whether a list is ordered by score.
pub open spec fn ordered(apps: Seq<AppView>, descending: bool) -> bool {
    forall|i: int, j: int| 0 <= i < j < apps.len() ==> in_order(apps[i], apps[j], descending)
}

/// Whether `out` holds the records of `input`, each as often as `input` does,
/// ordered by score. Records of equal rank may stand in any order.
pub open spec fn is_ranking_of(out: Seq<AppView>, input: Seq<AppView>, descending: bool) -> bool {
    ordered(out, descending) && out.to_multiset() == input.to_multiset()
}

/// A list with one record more has that record's view more.
pub proof fn lemma_views_push(apps: Seq<App>, app: App)
    ensures
        views(apps.push(app)) == views(apps).push(app@),
{
    assert(views(apps.push(app)) =~= views(apps).push(app@));
}

/// Inserting a record inserts its view at the same place.
pub proof fn lemma_views_insert(apps: Seq<App>, i: int, app: App)
    requires
        0 <= i <= apps.len(),
    ensures
        views(apps.insert(i, app)) == views(apps).insert(i, app@),
{
    assert(views(apps.insert(i, app)) =~= views(apps).insert(i, app@));
}

/// Whether a record may stand before another in the chosen direction.
fn may_precede(a: &App, b: &App, descending: bool) -> (r: bool)
    ensures
        r == in_order(a@, b@, descending),
{
    if descending {
        a.score.rank_value() >= b.score.rank_value()
    } else {
        a.score.rank_value() <= b.score.rank_value()
    }
}

/// Puts a record into an ordered list, behind the records that may stand
/// before it.
fn insert_ordered(out: &mut Vec<App>, app: App, descending: bool)
    requires
        ordered(views(old(out)@), descending),
    ensures
        ordered(views(final(out)@), descending),
        views(final(out)@).to_multiset() == views(old(out)@).to_multiset().insert(app@),
{
    let mut j: usize = 0;
    while j < out.len() && may_precede(&out[j], &app, descending)
        invariant
            j <= out.len(),
            forall|k: int| 0 <= k < j ==> in_order(#[trigger] out@[k]@, app@, descending),
        decreases out.len() - j,
    {
        j += 1;
    }
    proof {
        let before = views(out@);
        lemma_views_insert(out@, j as int, app);
        to_multiset_insert(before, j as int, app@);
        let after = before.insert(j as int, app@);
        assert forall|a: int, b: int| 0 <= a < b < after.len() implies in_order(
            after[a],
            after[b],
            descending,
        ) by {
            if b < j {
                assert(after[a] == before[a] && after[b] == before[b]);
            } else if b == j {
                assert(after[a] == out@[a]@);
            } else if a < j {
                assert(after[a] == before[a] && after[b] == before[b - 1]);
            } else if a == j {
                // the record at `j` may not stand before the new one, so the
                // new one may stand before it and all that follow it
                assert(after[b] == before[b - 1]);
                assert(j < out.len());
                assert(!in_order(before[j as int], app@, descending));
                if j < b - 1 {
                    assert(in_order(before[j as int], before[b - 1], descending));
                }
            } else {
                assert(after[a] == before[a - 1] && after[b] == before[b - 1]);
            }
        }
    }
    out.insert(j, app);
}

/// Orders records by score: from the highest down where `descending` holds,
/// from the lowest up where it does not.
pub fn sort_by_score(apps: Vec<App>, descending: bool) -> (out: Vec<App>)
    ensures
        is_ranking_of(views(out@), views(apps@), descending),
{
    let mut rest = apps;
    let mut out: Vec<App> = Vec::new();
    proof {
        assert(views(out@) =~= Seq::<AppView>::empty());
        assert(views(out@).to_multiset().add(views(rest@).to_multiset()) =~= views(
            apps@,
        ).to_multiset()) by {
            broadcast use vstd::seq_lib::group_to_multiset_ensures;

        }
    }
    while rest.len() > 0
        invariant
            ordered(views(out@), descending),
            views(out@).to_multiset().add(views(rest@).to_multiset()) == views(
                apps@,
            ).to_multiset(),
        decreases rest.len(),
    {
        let ghost before = rest@;
        let ghost placed = views(out@);
        let app = rest.pop().unwrap();
        proof {
            assert(before =~= rest@.push(app));
            lemma_views_push(rest@, app);
            to_multiset_build(views(rest@), app@);
        }
        insert_ordered(&mut out, app, descending);
        proof {
            assert(views(out@).to_multiset().add(views(rest@).to_multiset()) =~= placed.to_multiset().add(
                views(before).to_multiset(),
            ));
        }
    }
    proof {
        assert(views(rest@) =~= Seq::<AppView>::empty());
        assert(views(rest@).to_multiset() =~= Multiset::<AppView>::empty()) by {
            broadcast use vstd::seq_lib::group_to_multiset_ensures;

        }
        assert(views(out@).to_multiset() =~= views(apps@).to_multiset());
    }
    out
}

} // verus!
