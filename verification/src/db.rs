//! The registry of applications: what it holds and how a new scan is merged
//! into it without losing what is known of the applications that stay.
use vstd::prelude::*;
use crate::app::{views, App, AppView, Identity};
use crate::config::Config;
use crate::merge_laws::{ids_apart, lemma_merge_keeps_ids_unique};
use crate::ranking_laws::lemma_reordering_keeps_ids_unique;
use crate::scan::ScanError;
use crate::ranking::{is_ranking_of, lemma_views_push, sort_by_score};
use crate::score::Score;

verus! {

/// The registry of applications.
#[derive(Debug)]
pub struct AppsDB {
    /// The records, one for each application.
    pub apps: Vec<App>,
    /// The moment that the stored scores refer to, in seconds since the
    /// epoch, as the 64 bits of an IEEE 754 double-precision number. It is set
    /// when the registry is made and never changes after.
    pub reference_time: u64,
    /// The half-life that the scores were gathered with, as the 32 bits of an
    /// IEEE 754 single-precision number.
    pub half_life: u32,
    /// The settings that the registry is run with. They are not stored.
    pub config: Config,
}

/// Whether one of the records describes the application `id`.
pub open spec fn describes(apps: Seq<AppView>, id: Identity) -> bool {
    exists|i: int| 0 <= i < apps.len() && #[trigger] apps[i].identity() == id
}

/// The test for a record whose application one of `apps` describes too.
pub open spec fn known_in(apps: Seq<AppView>) -> spec_fn(AppView) -> bool {
    |a: AppView| describes(apps, a.identity())
}

/// The test for a record whose application none of `apps` describes.
pub open spec fn new_to(apps: Seq<AppView>) -> spec_fn(AppView) -> bool {
    |a: AppView| !describes(apps, a.identity())
}

/// The records of `existing` that stay after a scan that found `incoming`:
/// those whose application was found again, in their old order.
pub open spec fn kept(existing: Seq<AppView>, incoming: Seq<AppView>) -> Seq<AppView> {
    existing.filter(known_in(incoming))
}

/// The registry after a scan that found `incoming`: the records that stay,
/// then the records of `incoming` whose application none of those describes.
pub open spec fn merged(existing: Seq<AppView>, incoming: Seq<AppView>) -> Seq<AppView> {
    kept(existing, incoming) + incoming.filter(new_to(kept(existing, incoming)))
}

/// Whether one of the records describes the same application as `app`.
pub fn contains_identity(apps: &Vec<App>, app: &App) -> (r: bool)
    ensures
        r == describes(views(apps@), app@.identity()),
{
    let mut i: usize = 0;
    while i < apps.len()
        invariant
            i <= apps.len(),
            forall|k: int| 0 <= k < i ==> (#[trigger] views(apps@)[k]).identity() != app@.identity(),
        decreases apps.len() - i,
    {
        if apps[i].same_identity(app) {
            assert(views(apps@)[i as int].identity() == app@.identity());
            return true;
        }
        i += 1;
    }
    false
}

/// The records of `apps` whose application `others` describes too, where
/// `wanted` holds, or does not describe, where it does not.
fn select(apps: Vec<App>, others: &Vec<App>, wanted: bool) -> (out: Vec<App>)
    ensures
        wanted ==> views(out@) == views(apps@).filter(known_in(views(others@))),
        !wanted ==> views(out@) == views(apps@).filter(new_to(views(others@))),
{
    let ghost pred = if wanted {
        known_in(views(others@))
    } else {
        new_to(views(others@))
    };
    let mut out: Vec<App> = Vec::new();
    let ghost all = apps@;
    proof {
        reveal(Seq::filter);
        assert(views(all.take(0)) =~= Seq::<AppView>::empty());
        assert(views(out@) =~= Seq::<AppView>::empty());
    }
    for app in it: apps
        invariant
            it.seq() == all,
            pred == if wanted {
                known_in(views(others@))
            } else {
                new_to(views(others@))
            },
            views(out@) == views(all.take(it.index())).filter(pred),
    {
        proof {
            let i = it.index();
            assert(all.take(i + 1) =~= all.take(i).push(app));
            lemma_views_push(all.take(i), app);
            views(all.take(i)).lemma_filter_push(app@, pred);
            lemma_views_push(out@, app);
        }
        if contains_identity(others, &app) == wanted {
            out.push(app);
        }
    }
    proof {
        assert(all.take(all.len() as int) =~= all);
    }
    out
}

impl AppsDB {
    /// Merges the applications that a new scan found into the registry.
    ///
    /// A record whose application was found again stays as it is, with its
    /// identifier and its score. A record whose application was not found
    /// leaves. A found application that no remaining record describes joins at
    /// the end, as the scan made it.
    pub fn merge_new_entries(&mut self, apps_to_merge: Vec<App>)
        ensures
            views(final(self).apps@) == merged(views(old(self).apps@), views(apps_to_merge@)),
            final(self).reference_time == old(self).reference_time,
            final(self).half_life == old(self).half_life,
            final(self).config == old(self).config,
            old(self).well_formed() && ids_unique(views(apps_to_merge@)) && ids_apart(
                views(old(self).apps@),
                views(apps_to_merge@),
            ) ==> final(self).well_formed(),
    {
        proof {
            if ids_unique(views(self.apps@)) && ids_unique(views(apps_to_merge@)) && ids_apart(
                views(self.apps@),
                views(apps_to_merge@),
            ) {
                lemma_merge_keeps_ids_unique(views(self.apps@), views(apps_to_merge@));
            }
        }
        let mut existing: Vec<App> = Vec::new();
        std::mem::swap(&mut self.apps, &mut existing);
        let mut stay = select(existing, &apps_to_merge, true);
        let mut join = select(apps_to_merge, &stay, false);
        proof {
            assert(views(stay@ + join@) =~= views(stay@) + views(join@));
        }
        stay.append(&mut join);
        self.apps = stay;
    }
}

/// Whether `i` is the place of the first record with the identifier `uuid`.
pub open spec fn is_first_with_uuid(apps: Seq<AppView>, uuid: Seq<char>, i: int) -> bool {
    &&& 0 <= i < apps.len()
    &&& apps[i].uuid == uuid
    &&& forall|k: int| 0 <= k < i ==> (#[trigger] apps[k]).uuid != uuid
}

/// Whether one of the records has the identifier `uuid`.
pub open spec fn has_uuid(apps: Seq<AppView>, uuid: Seq<char>) -> bool {
    exists|i: int| 0 <= i < apps.len() && (#[trigger] apps[i]).uuid == uuid
}

/// The place of the first record with the identifier `uuid`, where there is
/// one.
pub open spec fn place_of_uuid(apps: Seq<AppView>, uuid: Seq<char>) -> int {
    choose|i: int| is_first_with_uuid(apps, uuid, i)
}

/// The first record with an identifier has one place only.
pub proof fn lemma_place_of_uuid(apps: Seq<AppView>, uuid: Seq<char>, i: int)
    requires
        is_first_with_uuid(apps, uuid, i),
    ensures
        has_uuid(apps, uuid),
        place_of_uuid(apps, uuid) == i,
{
    let j = place_of_uuid(apps, uuid);
    assert(is_first_with_uuid(apps, uuid, j));
    if j < i {
        assert(apps[j].uuid != uuid);
    } else if i < j {
        assert(apps[i].uuid != uuid);
    }
}

/// The records, with the stored score of the first one that has the
/// identifier `uuid` replaced by `score`.
pub open spec fn rescored(apps: Seq<AppView>, uuid: Seq<char>, score: Score) -> Seq<AppView> {
    apps.update(
        place_of_uuid(apps, uuid),
        with_score(apps[place_of_uuid(apps, uuid)], score),
    )
}

/// Whether no two records have the same identifier.
pub open spec fn ids_unique(apps: Seq<AppView>) -> bool {
    forall|i: int, j: int|
        0 <= i < j < apps.len() ==> (#[trigger] apps[i]).uuid != (#[trigger] apps[j]).uuid
}

/// The record `app` with its score replaced.
pub open spec fn with_score(app: AppView, score: Score) -> AppView {
    AppView {
        name: app.name,
        command: app.command,
        score,
        uuid: app.uuid,
        icon: app.icon,
        terminal: app.terminal,
    }
}

impl AppsDB {
    /// Makes a registry of the given records, with `now` as the moment that
    /// the scores refer to and the half-life of the settings.
    pub fn new(config: Config, apps: Vec<App>, now: u64) -> (db: AppsDB)
        ensures
            db.apps == apps,
            db.reference_time == now,
            db.half_life == config.half_life,
            db.config == config,
            ids_unique(views(apps@)) ==> db.well_formed(),
    {
        let half_life: u32 = config.half_life;
        AppsDB { apps, reference_time: now, half_life, config }
    }

    /// Makes a registry of what was stored: the records, the moment that their
    /// scores refer to and the half-life that they were gathered with. The
    /// settings are those of this run.
    pub fn restore(config: Config, apps: Vec<App>, reference_time: u64, half_life: u32) -> (db:
        AppsDB)
        ensures
            db.apps == apps,
            db.reference_time == reference_time,
            db.half_life == half_life,
            db.config == config,
            ids_unique(views(apps@)) ==> db.well_formed(),
    {
        AppsDB { apps, reference_time, half_life, config }
    }

    /// Whether no two records of the registry have the same identifier.
    pub open spec fn well_formed(&self) -> bool {
        ids_unique(views(self.apps@))
    }

    /// Finds the first record with the identifier `uuid`.
    pub fn find(&self, uuid: &str) -> (r: Option<usize>)
        ensures
            r is Some <==> has_uuid(views(self.apps@), uuid@),
            r matches Some(i) ==> i == place_of_uuid(views(self.apps@), uuid@)
                && is_first_with_uuid(views(self.apps@), uuid@, i as int),
    {
        let wanted = uuid.to_owned();
        let mut i: usize = 0;
        while i < self.apps.len()
            invariant
                i <= self.apps.len(),
                wanted@ == uuid@,
                forall|k: int| 0 <= k < i ==> (#[trigger] views(self.apps@)[k]).uuid != uuid@,
            decreases self.apps.len() - i,
        {
            if self.apps[i].uuid == wanted {
                proof {
                    assert(views(self.apps@)[i as int].uuid == uuid@);
                    lemma_place_of_uuid(views(self.apps@), uuid@, i as int);
                }
                return Some(i);
            }
            i += 1;
        }
        None
    }

    /// The stored score of the first record with the identifier `uuid`.
    pub fn score_of(&self, uuid: &str) -> (r: Option<Score>)
        ensures
            r is Some <==> has_uuid(views(self.apps@), uuid@),
            r matches Some(score) ==> score == views(self.apps@)[place_of_uuid(
                views(self.apps@),
                uuid@,
            )].score,
    {
        match self.find(uuid) {
            Some(i) => Some(self.apps[i].score),
            None => None,
        }
    }

    /// Gives the first record with the identifier `uuid` a new stored score.
    /// Nothing else changes. The registry is not ordered anew.
    pub fn update_score(&mut self, uuid: &str, score: Score)
        requires
            has_uuid(views(old(self).apps@), uuid@),
        ensures
            views(final(self).apps@) == rescored(views(old(self).apps@), uuid@, score),
            final(self).reference_time == old(self).reference_time,
            final(self).half_life == old(self).half_life,
            final(self).config == old(self).config,
            old(self).well_formed() ==> final(self).well_formed(),
    {
        let found = self.find(uuid);
        match found {
            Some(i) => {
                let ghost before = views(self.apps@);
                let mut app = self.apps.remove(i);
                app.score = score;
                self.apps.insert(i, app);
                proof {
                    assert(views(self.apps@) =~= before.update(
                        i as int,
                        with_score(before[i as int], score),
                    ));
                    if ids_unique(before) {
                        let after = views(self.apps@);
                        assert forall|a: int, b: int| 0 <= a < b < after.len() implies (
                        #[trigger] after[a]).uuid != (#[trigger] after[b]).uuid by {
                            assert(after[a].uuid == before[a].uuid);
                            assert(after[b].uuid == before[b].uuid);
                        }
                    }
                }
            },
            None => {},
        }
    }

    /// Orders the registry by stored score, from the lowest up.
    pub fn sort(&mut self)
        ensures
            is_ranking_of(views(final(self).apps@), views(old(self).apps@), false),
            final(self).reference_time == old(self).reference_time,
            final(self).half_life == old(self).half_life,
            final(self).config == old(self).config,
            old(self).well_formed() ==> final(self).well_formed(),
    {
        let ghost before = views(self.apps@);
        let mut apps: Vec<App> = Vec::new();
        std::mem::swap(&mut self.apps, &mut apps);
        self.apps = sort_by_score(apps, false);
        proof {
            if ids_unique(before) {
                lemma_reordering_keeps_ids_unique(before, views(self.apps@));
            }
        }
    }

    /// Records a launch of `to_update`: the stored score of its record becomes
    /// what `launch` makes of it, and the registry is ordered anew, from the
    /// lowest score up.
    ///
    /// `launch` is the scoring arithmetic: from the stored score of a record
    /// to its stored score after one more launch. `to_update` must be a
    /// record of the registry.
    pub fn update<F: Fn(Score) -> Score>(&mut self, to_update: &App, launch: F)
        requires
            has_uuid(views(old(self).apps@), to_update@.uuid),
            forall|stored: Score| call_requires(launch, (stored,)),
        ensures
            exists|score: Score|
                launched(views(old(self).apps@), to_update@.uuid, launch, score) && is_ranking_of(
                    views(final(self).apps@),
                    rescored(views(old(self).apps@), to_update@.uuid, score),
                    false,
                ),
            final(self).reference_time == old(self).reference_time,
            final(self).half_life == old(self).half_life,
            final(self).config == old(self).config,
            old(self).well_formed() ==> final(self).well_formed(),
    {
        let ghost before = views(self.apps@);
        let stored = self.score_of(to_update.uuid.as_str()).unwrap();
        let score = launch(stored);
        self.update_score(to_update.uuid.as_str(), score);
        self.sort();
        proof {
            assert(launched(before, to_update@.uuid, launch, score));
        }
    }
}

/// Whether `score` is what `launch` makes of the stored score of the first
/// record with the identifier `uuid`.
pub open spec fn launched<F: Fn(Score) -> Score>(
    apps: Seq<AppView>,
    uuid: Seq<char>,
    launch: F,
    score: Score,
) -> bool {
    call_ensures(launch, (apps[place_of_uuid(apps, uuid)].score,), score)
}

/// How well `pattern` matches `choice`, as `fuzzy_matcher`'s skim matcher
/// scores it with its default settings; `None` where it does not match.
pub uninterp spec fn skim_score(choice: Seq<char>, pattern: Seq<char>) -> Option<i64>;

/// Scores a match with `fuzzy_matcher::skim::SkimMatcherV2`, made by
/// `default()` and asked through `FuzzyMatcher::fuzzy_match`.
///
/// The contract gives the result its name, and says what the matcher does
/// first of all: an empty pattern matches everything with a score of zero.
#[verifier::external_body]
fn fuzzy_score(choice: &str, pattern: &str) -> (r: Option<i64>)
    ensures
        r == skim_score(choice@, pattern@),
        pattern@.len() == 0 ==> r == Some(0i64),
{
    let matcher = fuzzy_matcher::skim::SkimMatcherV2::default();
    fuzzy_matcher::FuzzyMatcher::fuzzy_match(&matcher, choice, pattern)
}

/// A record that matched a search, with the score of the match.
#[derive(Debug)]
pub struct Candidate {
    /// The record, as the registry holds it.
    pub app: App,
    /// The score of the match, which is positive.
    pub fuzzy: i64,
}

/// A candidate as plain values.
pub struct CandidateView {
    pub app: AppView,
    pub fuzzy: i64,
}

impl View for Candidate {
    type V = CandidateView;

    open spec fn view(&self) -> CandidateView {
        CandidateView { app: self.app@, fuzzy: self.fuzzy }
    }
}

/// The views of a list of candidates, in order.
pub open spec fn candidate_views(list: Seq<Candidate>) -> Seq<CandidateView> {
    Seq::new(list.len(), |i: int| list[i]@)
}

/// The candidates among the first `n` records, given the score of each
/// record's match: the records whose match has a positive score, in the order
/// of the registry.
pub open spec fn candidates_among(apps: Seq<AppView>, scores: Seq<Option<i64>>, n: int) -> Seq<
    CandidateView,
>
    decreases n,
{
    if n <= 0 || n > apps.len() || n > scores.len() {
        Seq::empty()
    } else {
        let before = candidates_among(apps, scores, n - 1);
        match scores[n - 1] {
            Some(fuzzy) => if fuzzy > 0 {
                before.push(CandidateView { app: apps[n - 1], fuzzy })
            } else {
                before
            },
            None => before,
        }
    }
}

/// The candidates of a search, given the score of each record's match. A
/// record without a score is no candidate.
pub open spec fn candidates(apps: Seq<AppView>, scores: Seq<Option<i64>>) -> Seq<CandidateView> {
    candidates_among(
        apps,
        scores,
        if apps.len() <= scores.len() {
            apps.len() as int
        } else {
            scores.len() as int
        },
    )
}

/// The score of each record's match with `search`, by the name of the record.
pub open spec fn name_scores(apps: Seq<AppView>, search: Seq<char>) -> Seq<Option<i64>> {
    Seq::new(apps.len(), |i: int| skim_score(apps[i].name, search))
}

/// Picks the candidates of a search from the records, given the score of each
/// record's match.
pub fn select_candidates(apps: &Vec<App>, scores: &Vec<Option<i64>>) -> (out: Vec<Candidate>)
    ensures
        candidate_views(out@) == candidates(views(apps@), scores@),
{
    let n: usize = if apps.len() <= scores.len() {
        apps.len()
    } else {
        scores.len()
    };
    let mut out: Vec<Candidate> = Vec::new();
    let mut i: usize = 0;
    proof {
        assert(candidate_views(out@) =~= Seq::<CandidateView>::empty());
    }
    while i < n
        invariant
            i <= n,
            n <= apps.len(),
            n <= scores.len(),
            candidate_views(out@) == candidates_among(views(apps@), scores@, i as int),
        decreases n - i,
    {
        match scores[i] {
            Some(fuzzy) => {
                if fuzzy > 0 {
                    let found = Candidate { app: apps[i].clone(), fuzzy };
                    proof {
                        assert(candidate_views(out@.push(found)) =~= candidate_views(out@).push(
                            found@,
                        ));
                    }
                    out.push(found);
                }
            },
            None => {},
        }
        i += 1;
    }
    out
}

impl AppsDB {
    /// Scores the match of `search` with the name of each record.
    pub fn score_names(&self, search: &str) -> (scores: Vec<Option<i64>>)
        ensures
            scores@ == name_scores(views(self.apps@), search@),
    {
        let mut scores: Vec<Option<i64>> = Vec::new();
        let mut i: usize = 0;
        while i < self.apps.len()
            invariant
                i <= self.apps.len(),
                scores@.len() == i,
                forall|k: int|
                    0 <= k < i ==> scores@[k] == skim_score(
                        (#[trigger] views(self.apps@)[k]).name,
                        search@,
                    ),
            decreases self.apps.len() - i,
        {
            scores.push(fuzzy_score(self.apps[i].name.as_str(), search));
            i += 1;
        }
        proof {
            assert(scores@ =~= name_scores(views(self.apps@), search@));
        }
        scores
    }

    /// The records whose name matches `search` with a positive score, each
    /// with that score, in the order of the registry.
    pub fn search_candidates(&self, search: &str) -> (out: Vec<Candidate>)
        ensures
            candidate_views(out@) == candidates(
                views(self.apps@),
                name_scores(views(self.apps@), search@),
            ),
    {
        let scores = self.score_names(search);
        select_candidates(&self.apps, &scores)
    }

    /// Ranks the records, from the highest score down, and gives the first
    /// `num_items` of them, or all where no number is given.
    ///
    /// Without a search the records are those of the registry, ranked by
    /// their stored scores. With a search they are the records whose name
    /// matches `search` with a positive score, each shown and ranked with the
    /// score that `blend` makes of its stored score and the score of its match.
    pub fn get_ranked_list<F: Fn(Score, i64) -> Score>(
        &self,
        search: Option<&str>,
        num_items: Option<usize>,
        blend: F,
    ) -> (out: Vec<App>)
        requires
            forall|stored: Score, fuzzy: i64| call_requires(blend, (stored, fuzzy)),
        ensures
            match search {
                Some(text) => exists|scored: Seq<AppView>|
                    blended_by(
                        scored,
                        candidates(views(self.apps@), name_scores(views(self.apps@), text@)),
                        blend,
                    ) && is_top_ranking(views(out@), scored, num_items),
                None => is_top_ranking(views(out@), views(self.apps@), num_items),
            },
    {
        match search {
            Some(text) => {
                let found = self.search_candidates(text);
                let ghost all = candidate_views(found@);
                let scored = blend_all(found, blend);
                let ghost shown_with = views(scored@);
                let out = rank(scored, num_items);
                proof {
                    assert(blended_by(shown_with, all, blend));
                    assert(is_top_ranking(views(out@), shown_with, num_items));
                }
                out
            },
            None => rank(clone_all(&self.apps), num_items),
        }
    }
}

/// Whether `scored` holds the records of the candidates `found`, in order,
/// each with the score that `blend` makes of its stored score and the score
/// of its match, and otherwise unchanged.
pub open spec fn blended_by<F: Fn(Score, i64) -> Score>(
    scored: Seq<AppView>,
    found: Seq<CandidateView>,
    blend: F,
) -> bool {
    &&& scored.len() == found.len()
    &&& forall|i: int|
        0 <= i < found.len() ==> call_ensures(
            blend,
            (found[i].app.score, found[i].fuzzy),
            (#[trigger] scored[i]).score,
        ) && scored[i] == with_score(found[i].app, scored[i].score)
}

/// Gives each candidate the score that `blend` makes of its stored score and
/// the score of its match.
pub fn blend_all<F: Fn(Score, i64) -> Score>(found: Vec<Candidate>, blend: F) -> (scored: Vec<App>)
    requires
        forall|stored: Score, fuzzy: i64| call_requires(blend, (stored, fuzzy)),
    ensures
        blended_by(views(scored@), candidate_views(found@), blend),
{
    let mut scored: Vec<App> = Vec::new();
    let ghost all = found@;
    for candidate in it: found
        invariant
            it.seq() == all,
            forall|stored: Score, fuzzy: i64| call_requires(blend, (stored, fuzzy)),
            blended_by(views(scored@), candidate_views(all.take(it.index() as int)), blend),
    {
        let ghost n = it.index() as int;
        let ghost before = views(scored@);
        assert(all[n] == candidate);
        let mut app = candidate.app;
        let score = blend(app.score, candidate.fuzzy);
        app.score = score;
        proof {
            lemma_views_push(scored@, app);
            let after = before.push(app@);
            let found_now = candidate_views(all.take(n + 1));
            assert(found_now.len() == n + 1);
            assert forall|i: int| 0 <= i < found_now.len() implies call_ensures(
                blend,
                (found_now[i].app.score, found_now[i].fuzzy),
                (#[trigger] after[i]).score,
            ) && after[i] == with_score(found_now[i].app, after[i].score) by {
                if i < n {
                    assert(after[i] == before[i]);
                    assert(found_now[i] == candidate_views(all.take(n))[i]);
                } else {
                    assert(found_now[i] == candidate@);
                }
            }
        }
        scored.push(app);
    }
    proof {
        assert(all.take(all.len() as int) =~= all);
    }
    scored
}

/// Whether `out` holds the first of the records of `input` once these are
/// ranked from the highest score down: the first `num_items`, or all where
/// no number is given.
pub open spec fn is_top_ranking(out: Seq<AppView>, input: Seq<AppView>, num_items: Option<usize>) -> bool {
    exists|full: Seq<AppView>|
        is_ranking_of(full, input, true) && out == full.take(shown(full.len(), num_items))
}

/// Ranks records by score, from the highest down, and gives the first
/// `num_items` of them, or all where no number is given.
pub fn rank(apps: Vec<App>, num_items: Option<usize>) -> (out: Vec<App>)
    ensures
        is_top_ranking(views(out@), views(apps@), num_items),
{
    let mut sorted = sort_by_score(apps, true);
    let ghost full = views(sorted@);
    match num_items {
        Some(n) => {
            if n < sorted.len() {
                sorted.truncate(n);
            }
        },
        None => {},
    }
    proof {
        assert(views(sorted@) =~= full.take(shown(full.len(), num_items)));
        assert(is_ranking_of(full, views(apps@), true));
    }
    sorted
}

/// How many of `len` ranked records are shown, given the number asked for.
pub open spec fn shown(len: nat, num_items: Option<usize>) -> int {
    match num_items {
        Some(n) => if n < len {
            n as int
        } else {
            len as int
        },
        None => len as int,
    }
}

/// Copies a list of records.
pub fn clone_all(apps: &Vec<App>) -> (out: Vec<App>)
    ensures
        views(out@) == views(apps@),
{
    let mut out: Vec<App> = Vec::new();
    let mut i: usize = 0;
    while i < apps.len()
        invariant
            i <= apps.len(),
            out@.len() == i,
            forall|k: int| 0 <= k < i ==> out@[k]@ == apps@[k]@,
        decreases apps.len() - i,
    {
        out.push(apps[i].clone());
        i += 1;
    }
    proof {
        assert(views(out@) =~= views(apps@));
    }
    out
}

/// Whether `db` is the registry that a start with these inputs comes to.
///
/// Where a stored registry was loaded and the half-life is the one that it
/// was gathered with, the scan is merged into it: its scores, its moment of
/// reference and its half-life stay. Where nothing was stored, or the
/// half-life has changed, the registry is made anew of the scan alone, with
/// `now` as its moment of reference and the half-life of the settings: scores
/// gathered under another half-life mean nothing under this one.
pub open spec fn starts_from(
    db: AppsDB,
    config: Config,
    loaded: Option<AppsDB>,
    half_life_kept: bool,
    scanned: Seq<AppView>,
    now: u64,
) -> bool {
    &&& db.config == config
    &&& match loaded {
        Some(stored) => if half_life_kept {
            &&& views(db.apps@) == merged(views(stored.apps@), scanned)
            &&& db.reference_time == stored.reference_time
            &&& db.half_life == stored.half_life
        } else {
            &&& views(db.apps@) == scanned
            &&& db.reference_time == now
            &&& db.half_life == config.half_life
        },
        None => {
            &&& views(db.apps@) == scanned
            &&& db.reference_time == now
            &&& db.half_life == config.half_life
        },
    }
}

/// Whether a start with these inputs gives a registry with unique
/// identifiers: the records of the scan have identifiers that differ from
/// each other, and where the scan is merged into what was stored, the stored
/// records have unique identifiers that differ from those of the scan.
pub open spec fn keeps_ids_apart(
    loaded: Option<AppsDB>,
    half_life_kept: bool,
    scanned: Seq<AppView>,
) -> bool {
    &&& ids_unique(scanned)
    &&& match loaded {
        Some(stored) => half_life_kept ==> stored.well_formed() && ids_apart(
            views(stored.apps@),
            scanned,
        ),
        None => true,
    }
}

/// A start after the half-life was changed comes to what a start with
/// nothing stored comes to: the registry holds the scan, and nothing of what
/// was stored.
pub proof fn lemma_changed_half_life_discards(
    db: AppsDB,
    config: Config,
    stored: AppsDB,
    scanned: Seq<AppView>,
    now: u64,
)
    requires
        starts_from(db, config, Some(stored), false, scanned, now),
    ensures
        views(db.apps@) == scanned,
        db.reference_time == now,
        db.half_life == config.half_life,
        starts_from(db, config, None, true, scanned, now),
{
}

impl AppsDB {
    /// Makes a registry of what a scan found, with `now` as the moment that
    /// the scores refer to. The errors of the scan are handed on.
    pub fn from_desktop_entries(config: Config, scanned: (Vec<App>, Vec<ScanError>), now: u64) -> (r:
        (AppsDB, Vec<ScanError>))
        ensures
            r.0.apps == scanned.0,
            r.0.reference_time == now,
            r.0.half_life == config.half_life,
            r.0.config == config,
            r.1 == scanned.1,
            ids_unique(views(scanned.0@)) ==> r.0.well_formed(),
    {
        let (apps, errors) = scanned;
        (AppsDB::new(config, apps, now), errors)
    }

    /// Merges what a new scan found into the registry and hands on the errors
    /// of the scan.
    pub fn rescan_desktop_entries(&mut self, scanned: (Vec<App>, Vec<ScanError>)) -> (errors: Vec<
        ScanError,
    >)
        ensures
            views(final(self).apps@) == merged(views(old(self).apps@), views(scanned.0@)),
            final(self).reference_time == old(self).reference_time,
            final(self).half_life == old(self).half_life,
            final(self).config == old(self).config,
            errors == scanned.1,
            old(self).well_formed() && ids_unique(views(scanned.0@)) && ids_apart(
                views(old(self).apps@),
                views(scanned.0@),
            ) ==> final(self).well_formed(),
    {
        let (apps, errors) = scanned;
        self.merge_new_entries(apps);
        errors
    }

    /// Makes the registry that a run starts with.
    ///
    /// `loaded` is the stored registry, where there is one; `half_life_kept`
    /// says whether the half-life of the settings is the one that it was
    /// gathered with; `scanned` is what a scan found now, with its errors,
    /// which are handed on.
    pub fn init(
        config: Config,
        loaded: Option<AppsDB>,
        half_life_kept: bool,
        scanned: (Vec<App>, Vec<ScanError>),
        now: u64,
    ) -> (r: (AppsDB, Vec<ScanError>))
        ensures
            starts_from(r.0, config, loaded, half_life_kept, views(scanned.0@), now),
            r.1 == scanned.1,
            keeps_ids_apart(loaded, half_life_kept, views(scanned.0@)) ==> r.0.well_formed(),
    {
        match loaded {
            Some(stored) => {
                if half_life_kept {
                    let mut db = stored;
                    db.config = config;
                    let errors = db.rescan_desktop_entries(scanned);
                    (db, errors)
                } else {
                    AppsDB::from_desktop_entries(config, scanned, now)
                }
            },
            None => AppsDB::from_desktop_entries(config, scanned, now),
        }
    }
}

} // verus!
