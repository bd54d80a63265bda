use lib_poki_launcher::app::App;
use lib_poki_launcher::ranking::sort_by_score;
use lib_poki_launcher::score::Score;

fn rank_of(value: f32) -> i64 {
    Score::from_bits(value.to_bits()).rank_value()
}

#[test]
fn zero_score_has_rank_zero() {
    assert_eq!(Score::zero().to_bits(), 0);
    assert_eq!(Score::zero().rank_value(), 0);
    assert_eq!(Score::zero().to_bits(), 0.0f32.to_bits());
}

#[test]
fn rank_of_given_bits() {
    assert_eq!(Score::from_bits(0x3f80_0000).rank_value(), 0x3f80_0000);
    assert_eq!(Score::from_bits(0xbf80_0000).rank_value(), -0x3f80_0000);
    assert_eq!(Score::from_bits(0x8000_0000).rank_value(), 0);
    assert_eq!(Score::from_bits(0x7f80_0000).rank_value(), 0x7f80_0000);
    assert_eq!(Score::from_bits(0xff80_0000).rank_value(), -0x7f80_0000);
    assert_eq!(Score::from_bits(0x7fc0_0000).rank_value(), -0x8000_0000);
    assert_eq!(Score::from_bits(0xffff_ffff).rank_value(), -0x8000_0000);
    assert_eq!(Score::from_bits(0x7f80_0001).rank_value(), -0x8000_0000);
}

#[test]
fn rank_orders_as_the_numbers_do() {
    let values = [
        f32::NEG_INFINITY,
        -1.0e30,
        -2.5,
        -1.0,
        -1.0e-30,
        0.0,
        1.0e-30,
        0.5,
        1.0,
        1.5,
        7.0,
        1.0e30,
        f32::INFINITY,
    ];
    for i in 0..values.len() {
        for j in 0..values.len() {
            assert_eq!(
                rank_of(values[i]) < rank_of(values[j]),
                values[i] < values[j],
                "{} against {}",
                values[i],
                values[j]
            );
        }
    }
    assert_eq!(rank_of(0.0), rank_of(-0.0));
    assert!(rank_of(f32::NAN) < rank_of(f32::NEG_INFINITY));
}

#[test]
fn ranks_below_compares_ranks() {
    let one = Score::from_bits(1.0f32.to_bits());
    let two = Score::from_bits(2.0f32.to_bits());
    assert!(one.ranks_below(two));
    assert!(!two.ranks_below(one));
    assert!(!one.ranks_below(one));
}

fn scored(name: &str, value: f32) -> App {
    let mut a = App::new(name.to_owned(), String::new(), vec!["x".to_owned()], false);
    a.score = Score::from_bits(value.to_bits());
    a
}

fn names(apps: &[App]) -> Vec<String> {
    apps.iter().map(|a| a.name.clone()).collect()
}

#[test]
fn sort_by_score_both_ways() {
    let apps = vec![scored("b", 2.0), scored("d", 4.5), scored("a", 0.25), scored("c", 3.0)];
    assert_eq!(names(&sort_by_score(apps.clone(), false)), vec!["a", "b", "c", "d"]);
    assert_eq!(names(&sort_by_score(apps, true)), vec!["d", "c", "b", "a"]);
    assert!(sort_by_score(Vec::new(), true).is_empty());
}

#[test]
fn sort_by_score_keeps_every_record() {
    let apps = vec![scored("x", 1.0), scored("y", 1.0), scored("z", 1.0), scored("w", 0.5)];
    let sorted = sort_by_score(apps.clone(), true);
    assert_eq!(sorted.len(), 4);
    assert_eq!(sorted[3].name, "w");
    let mut ids: Vec<String> = sorted.iter().map(|a| a.uuid.clone()).collect();
    let mut expected: Vec<String> = apps.iter().map(|a| a.uuid.clone()).collect();
    ids.sort();
    expected.sort();
    assert_eq!(ids, expected);
}
