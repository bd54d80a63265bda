use lib_poki_launcher::app::App;
use lib_poki_launcher::config::Config;
use lib_poki_launcher::db::{blend_all, contains_identity, rank, select_candidates, AppsDB};
use lib_poki_launcher::scan::ScanError;
use lib_poki_launcher::score::Score;

const NOW: u64 = 0x41d9_5e3c_8000_0000;
const LATER: u64 = 0x41d9_5e3c_9000_0000;

fn app(name: &str) -> App {
    App::new(
        name.to_owned(),
        "icon".to_owned(),
        vec!["/bin/test".to_owned()],
        false,
    )
}

fn scored(name: &str, bits: u32) -> App {
    let mut a = app(name);
    a.score = Score::from_bits(bits);
    a
}

fn number(score: Score) -> f32 {
    f32::from_bits(score.to_bits())
}

fn stored(value: f32) -> Score {
    Score::from_bits(value.to_bits())
}

/// What a stored score counts for after one half-life, and a hundredth of the
/// score of the match.
fn blend(score: Score, fuzzy: i64) -> Score {
    stored(number(score) / 2.0 + fuzzy as f32 / 100.0)
}

fn names(apps: &[App]) -> Vec<String> {
    apps.iter().map(|a| a.name.clone()).collect()
}

fn uuids(apps: &[App]) -> Vec<String> {
    apps.iter().map(|a| a.uuid.clone()).collect()
}

#[test]
fn merge_new_entries_identical() {
    let apps = vec![
        App::new(
            "Test1".to_owned(),
            "icon".to_owned(),
            vec!["/bin/test".to_owned()],
            false,
        ),
        App::new(
            "Test2".to_owned(),
            "icon".to_owned(),
            vec!["/bin/test".to_owned()],
            false,
        ),
    ];
    let mut apps_db = AppsDB::new(Config::default(), apps.clone(), NOW);
    apps_db.merge_new_entries(apps.clone());
    assert_eq!(apps, apps_db.apps);
}

#[test]
fn merge_new_entries_remove() {
    let mut apps = vec![
        App::new(
            "Test1".to_owned(),
            "icon".to_owned(),
            vec!["/bin/test".to_owned()],
            false,
        ),
        App::new(
            "Test2".to_owned(),
            "icon".to_owned(),
            vec!["/bin/test".to_owned()],
            false,
        ),
    ];
    let mut apps_db = AppsDB::new(Config::default(), apps.clone(), NOW);
    apps.remove(0);
    apps_db.merge_new_entries(apps.clone());
    assert_eq!(apps, apps_db.apps);
}

#[test]
fn merge_new_entries_add() {
    let mut apps = vec![App::new(
        "Test1".to_owned(),
        "icon".to_owned(),
        vec!["/bin/test".to_owned()],
        false,
    )];
    let mut apps_db = AppsDB::new(Config::default(), apps.clone(), NOW);
    apps.push(App::new(
        "Test2".to_owned(),
        "icon".to_owned(),
        vec!["/bin/test".to_owned()],
        false,
    ));
    apps_db.merge_new_entries(apps.clone());
    assert_eq!(apps, apps_db.apps);
}

#[test]
fn merge_into_itself_keeps_identifiers_and_scores() {
    let apps = vec![scored("A", 0x3f80_0000), scored("B", 0x4000_0000)];
    let mut db = AppsDB::new(Config::default(), apps.clone(), NOW);
    db.merge_new_entries(apps.clone());
    assert_eq!(uuids(&db.apps), uuids(&apps));
    assert_eq!(db.apps[0].score, Score::from_bits(0x3f80_0000));
    assert_eq!(db.apps[1].score, Score::from_bits(0x4000_0000));
    assert_eq!(db.apps.len(), 2);
}

#[test]
fn merge_removal_keeps_identifier_and_score_of_what_stays() {
    let a = scored("A", 0x3f80_0000);
    let b = scored("B", 0x4040_0000);
    let mut db = AppsDB::new(Config::default(), vec![a.clone(), b.clone()], NOW);
    // the scan made a new record for B, with a new identifier and no score
    let rescanned_b = app("B");
    assert_ne!(rescanned_b.uuid, b.uuid);
    db.merge_new_entries(vec![rescanned_b]);
    assert_eq!(db.apps.len(), 1);
    assert_eq!(db.apps[0].name, "B");
    assert_eq!(db.apps[0].uuid, b.uuid);
    assert_eq!(db.apps[0].score, Score::from_bits(0x4040_0000));
}

#[test]
fn merge_addition_appends_what_is_new() {
    let a = scored("A", 0x3f80_0000);
    let mut db = AppsDB::new(Config::default(), vec![a.clone()], NOW);
    let rescanned_a = app("A");
    let new_b = app("B");
    db.merge_new_entries(vec![rescanned_a, new_b.clone()]);
    assert_eq!(names(&db.apps), vec!["A", "B"]);
    assert_eq!(db.apps[0].uuid, a.uuid);
    assert_eq!(db.apps[0].score, Score::from_bits(0x3f80_0000));
    assert_eq!(db.apps[1].uuid, new_b.uuid);
    assert_eq!(db.apps[1].score.to_bits(), 0);
}

#[test]
fn merge_appends_every_new_record_of_the_scan() {
    let mut db = AppsDB::new(Config::default(), vec![app("A")], NOW);
    db.merge_new_entries(vec![app("B"), app("A"), app("B")]);
    assert_eq!(names(&db.apps), vec!["A", "B", "B"]);
}

#[test]
fn merge_with_empty_scan_empties_the_registry() {
    let mut db = AppsDB::new(Config::default(), vec![app("A"), app("B")], NOW);
    db.merge_new_entries(Vec::new());
    assert!(db.apps.is_empty());
}

#[test]
fn merge_twice_is_merge_once() {
    let mut db = AppsDB::new(Config::default(), vec![app("A"), app("B")], NOW);
    let scan = vec![app("B"), app("C")];
    db.merge_new_entries(scan.clone());
    let once = uuids(&db.apps);
    db.merge_new_entries(scan);
    assert_eq!(uuids(&db.apps), once);
}

#[test]
fn merge_keeps_reference_time_and_half_life() {
    let mut db = AppsDB::restore(Config::default(), vec![app("A")], NOW, 0x4500_0000);
    db.merge_new_entries(vec![app("B")]);
    assert_eq!(db.reference_time, NOW);
    assert_eq!(db.half_life, 0x4500_0000);
}

#[test]
fn contains_identity_ignores_identifier_and_score() {
    let list = vec![scored("A", 0x3f80_0000)];
    assert!(contains_identity(&list, &app("A")));
    assert!(!contains_identity(&list, &app("B")));
    let mut other_icon = app("A");
    other_icon.icon = "other".to_owned();
    assert!(!contains_identity(&list, &other_icon));
}

#[test]
fn new_registry_takes_half_life_from_settings() {
    let db = AppsDB::new(Config::default(), vec![app("A")], NOW);
    assert_eq!(db.half_life, 0x40e0_0000);
    assert_eq!(db.reference_time, NOW);
    assert_eq!(db.apps.len(), 1);
}

#[test]
fn ranked_list_without_search_falls_by_stored_score() {
    let db = AppsDB::new(
        Config::default(),
        vec![
            scored("one", 0x3f80_0000),
            scored("three", 0x4040_0000),
            scored("zero", 0),
            scored("two", 0x4000_0000),
        ],
        NOW,
    );
    let ranked = db.get_ranked_list(None, None, blend);
    assert_eq!(names(&ranked), vec!["three", "two", "one", "zero"]);
    // the stored scores are shown as they are
    assert_eq!(ranked[0].score.to_bits(), 0x4040_0000);
    // the registry itself is left as it was
    assert_eq!(names(&db.apps), vec!["one", "three", "zero", "two"]);
}

#[test]
fn ranked_list_is_cut_to_the_number_asked_for() {
    let db = AppsDB::new(
        Config::default(),
        vec![scored("one", 0x3f80_0000), scored("three", 0x4040_0000), scored("two", 0x4000_0000)],
        NOW,
    );
    assert_eq!(names(&db.get_ranked_list(None, Some(2), blend)), vec!["three", "two"]);
    assert_eq!(names(&db.get_ranked_list(None, Some(0), blend)), Vec::<String>::new());
    assert_eq!(names(&db.get_ranked_list(None, Some(10), blend)), vec!["three", "two", "one"]);
}

#[test]
fn ranked_list_ranks_negative_scores_and_what_is_no_number_last() {
    let db = AppsDB::new(
        Config::default(),
        vec![
            scored("nan", 0x7fc0_0000),
            scored("minus two", 0xc000_0000),
            scored("one", 0x3f80_0000),
            scored("minus one", 0xbf80_0000),
            scored("infinity", 0x7f80_0000),
        ],
        NOW,
    );
    assert_eq!(
        names(&db.get_ranked_list(None, None, blend)),
        vec!["infinity", "one", "minus one", "minus two", "nan"]
    );
}

#[test]
fn rank_orders_and_cuts() {
    let list = vec![scored("low", 0x3f00_0000), scored("high", 0x3fc0_0000)];
    assert_eq!(names(&rank(list.clone(), Some(1))), vec!["high"]);
    assert_eq!(names(&rank(list, None)), vec!["high", "low"]);
}

#[test]
fn search_fire_finds_firefox_only() {
    let db = AppsDB::new(Config::default(), vec![app("Firefox"), app("Calculator")], NOW);
    let ranked = db.get_ranked_list(Some("fire"), None, blend);
    assert_eq!(names(&ranked), vec!["Firefox"]);
    assert_eq!(ranked[0].uuid, db.apps[0].uuid);
    let found = db.search_candidates("fire");
    assert_eq!(found.len(), 1);
    assert_eq!(found[0].app.name, "Firefox");
    assert!(found[0].fuzzy > 0);
    assert_eq!(found[0].app.uuid, db.apps[0].uuid);
}

#[test]
fn search_shows_the_blended_score() {
    let db = AppsDB::new(
        Config::default(),
        vec![scored("Firefox", 4.0f32.to_bits()), scored("Calculator", 9.0f32.to_bits())],
        NOW,
    );
    let fuzzy = db.search_candidates("fire")[0].fuzzy;
    let ranked = db.get_ranked_list(Some("fire"), Some(5), blend);
    assert_eq!(ranked.len(), 1);
    assert_eq!(number(ranked[0].score), 2.0 + fuzzy as f32 / 100.0);
    // the stored score is not touched
    assert_eq!(number(db.apps[0].score), 4.0);
}

#[test]
fn strong_match_outranks_higher_stored_score() {
    let plain = AppsDB::new(Config::default(), vec![app("file roller"), app("fire")], NOW);
    let found = plain.search_candidates("fire");
    assert_eq!(found.len(), 2);
    let (weak, strong) = (found[0].fuzzy, found[1].fuzzy);
    assert!(strong > weak);
    // the weaker match has the higher stored score, but not by enough
    let lead = (strong - weak) as f32 / 100.0;
    let db = AppsDB::new(
        Config::default(),
        vec![scored("file roller", lead.to_bits()), scored("fire", 0.0f32.to_bits())],
        NOW,
    );
    assert_eq!(names(&db.get_ranked_list(None, None, blend)), vec!["file roller", "fire"]);
    assert_eq!(names(&db.get_ranked_list(Some("fire"), None, blend)), vec!["fire", "file roller"]);
}

#[test]
fn blend_all_keeps_order_and_identity() {
    let db = AppsDB::new(Config::default(), vec![app("Firefox"), app("Firewall")], NOW);
    let found = db.search_candidates("fire");
    let fuzzy: Vec<i64> = found.iter().map(|c| c.fuzzy).collect();
    let shown = blend_all(found, blend);
    assert_eq!(names(&shown), vec!["Firefox", "Firewall"]);
    assert_eq!(shown[0].uuid, db.apps[0].uuid);
    assert_eq!(number(shown[0].score), fuzzy[0] as f32 / 100.0);
    assert_eq!(number(shown[1].score), fuzzy[1] as f32 / 100.0);
}

#[test]
fn search_scores_depend_on_the_name() {
    let db = AppsDB::new(Config::default(), vec![app("Firefox"), app("Calculator")], NOW);
    let scores = db.score_names("fire");
    assert_eq!(scores.len(), 2);
    assert!(scores[0].is_some());
    assert_eq!(scores[1], None);
    let exact = AppsDB::new(Config::default(), vec![app("fire")], NOW).score_names("fire");
    assert!(exact[0].unwrap() > 0);
}

#[test]
fn search_with_empty_text_finds_nothing() {
    let db = AppsDB::new(Config::default(), vec![app("Firefox"), app("Calculator")], NOW);
    assert_eq!(db.score_names(""), vec![Some(0), Some(0)]);
    assert!(db.search_candidates("").is_empty());
    assert!(db.get_ranked_list(Some(""), None, blend).is_empty());
}

#[test]
fn select_candidates_keeps_positive_scores_in_order() {
    let apps = vec![app("a"), app("b"), app("c"), app("d")];
    let scores = vec![Some(5), None, Some(0), Some(7)];
    let found = select_candidates(&apps, &scores);
    assert_eq!(found.len(), 2);
    assert_eq!(found[0].app.name, "a");
    assert_eq!(found[0].fuzzy, 5);
    assert_eq!(found[1].app.name, "d");
    assert_eq!(found[1].fuzzy, 7);
    let negative = select_candidates(&apps, &vec![Some(-3)]);
    assert!(negative.is_empty());
}

#[test]
fn find_gives_first_record_with_identifier() {
    let a = app("A");
    let b = app("B");
    let db = AppsDB::new(Config::default(), vec![a.clone(), b.clone()], NOW);
    assert_eq!(db.find(&b.uuid), Some(1));
    assert_eq!(db.find(&a.uuid), Some(0));
    assert_eq!(db.find("no such identifier"), None);
    assert_eq!(db.score_of(&a.uuid), Some(Score::from_bits(0)));
    assert_eq!(db.score_of("no such identifier"), None);
}

#[test]
fn update_score_changes_one_record() {
    let a = app("A");
    let b = app("B");
    let mut db = AppsDB::new(Config::default(), vec![a.clone(), b.clone()], NOW);
    db.update_score(&b.uuid, Score::from_bits(0x3f80_0000));
    assert_eq!(names(&db.apps), vec!["A", "B"]);
    assert_eq!(db.apps[0].score.to_bits(), 0);
    assert_eq!(db.apps[1].score.to_bits(), 0x3f80_0000);
    assert_eq!(db.apps[1].uuid, b.uuid);
    assert_eq!(db.reference_time, NOW);
}

#[test]
fn update_orders_the_registry_from_the_lowest_score_up() {
    let a = scored("A", 0x4000_0000);
    let b = scored("B", 0x3f80_0000);
    let c = scored("C", 0x4040_0000);
    let mut db = AppsDB::new(Config::default(), vec![a.clone(), b.clone(), c.clone()], NOW);
    db.update(&b, |score| stored(number(score) + 1.5));
    assert_eq!(names(&db.apps), vec!["A", "B", "C"]);
    assert_eq!(number(db.apps[1].score), 2.5);
    db.update(&b, |score| stored(number(score) + 1.5));
    assert_eq!(names(&db.apps), vec!["A", "C", "B"]);
    assert_eq!(number(db.apps[2].score), 4.0);
    assert_eq!(db.apps[2].uuid, b.uuid);
}

#[test]
fn sort_orders_from_the_lowest_score_up() {
    let mut db = AppsDB::new(
        Config::default(),
        vec![scored("two", 0x4000_0000), scored("zero", 0), scored("one", 0x3f80_0000)],
        NOW,
    );
    db.sort();
    assert_eq!(names(&db.apps), vec!["zero", "one", "two"]);
}

fn no_errors() -> Vec<ScanError> {
    Vec::new()
}

#[test]
fn init_without_stored_registry_is_a_fresh_scan() {
    let (db, errors) = AppsDB::init(
        Config::default(),
        None,
        true,
        (vec![app("A"), app("B")], no_errors()),
        NOW,
    );
    assert_eq!(names(&db.apps), vec!["A", "B"]);
    assert_eq!(db.reference_time, NOW);
    assert_eq!(db.half_life, Config::default().half_life);
    assert!(errors.is_empty());
}

#[test]
fn init_with_same_half_life_merges_the_scan() {
    let a = scored("A", 0x3f80_0000);
    let stored = AppsDB::restore(
        Config::default(),
        vec![a.clone(), scored("Gone", 0x4000_0000)],
        NOW,
        0x40e0_0000,
    );
    let (db, _) = AppsDB::init(
        Config::default(),
        Some(stored),
        true,
        (vec![app("A"), app("New")], no_errors()),
        LATER,
    );
    assert_eq!(names(&db.apps), vec!["A", "New"]);
    assert_eq!(db.apps[0].uuid, a.uuid);
    assert_eq!(db.apps[0].score.to_bits(), 0x3f80_0000);
    assert_eq!(db.reference_time, NOW);
    assert_eq!(db.half_life, 0x40e0_0000);
}

#[test]
fn init_with_changed_half_life_discards_stored_records() {
    let a = scored("A", 0x3f80_0000);
    let stored = AppsDB::restore(
        Config::default(),
        vec![a.clone(), scored("Gone", 0x4000_0000)],
        NOW,
        0x40e0_0000,
    );
    let mut config = Config::default();
    config.half_life = 0x4160_0000;
    let fresh_a = app("A");
    let (db, _) = AppsDB::init(
        config,
        Some(stored),
        false,
        (vec![fresh_a.clone(), app("New")], no_errors()),
        LATER,
    );
    assert_eq!(names(&db.apps), vec!["A", "New"]);
    assert_eq!(db.apps[0].uuid, fresh_a.uuid);
    assert_eq!(db.apps[0].score.to_bits(), 0);
    assert_eq!(db.reference_time, LATER);
    assert_eq!(db.half_life, 0x4160_0000);
}

#[test]
fn init_hands_on_the_errors_of_the_scan() {
    let errors = vec![ScanError::ScanDirectory {
        dir: "/nowhere".to_owned(),
        err: "not found".to_owned(),
    }];
    let (_, handed) = AppsDB::init(Config::default(), None, true, (Vec::new(), errors), NOW);
    assert_eq!(handed.len(), 1);
    assert!(matches!(&handed[0], ScanError::ScanDirectory { dir, .. } if dir == "/nowhere"));
}

#[test]
fn rescan_merges_and_hands_on_errors() {
    let mut db = AppsDB::new(Config::default(), vec![app("A")], NOW);
    let errors = db.rescan_desktop_entries((vec![app("B")], no_errors()));
    assert!(errors.is_empty());
    assert_eq!(names(&db.apps), vec!["B"]);
}
