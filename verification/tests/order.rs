use lib_poki_launcher::app::App;
use lib_poki_launcher::order::{compare_lists, compare_text, sort_dedup, Side};

fn app(name: &str, command: &[&str], icon: &str) -> App {
    App::new(
        name.to_owned(),
        icon.to_owned(),
        command.iter().map(|s| (*s).to_owned()).collect(),
        false,
    )
}

fn side_of_std(o: std::cmp::Ordering) -> Side {
    match o {
        std::cmp::Ordering::Less => Side::Before,
        std::cmp::Ordering::Equal => Side::Same,
        std::cmp::Ordering::Greater => Side::After,
    }
}

#[test]
fn compare_text_is_the_order_of_strings() {
    let texts = [
        "", "a", "A", "ab", "abc", "abd", "b", "Firefox", "firefox", "é", "z", "日本", "\u{10000}",
        "\u{ffff}", "a\u{0}",
    ];
    for a in texts.iter() {
        for b in texts.iter() {
            assert_eq!(compare_text(a, b), side_of_std(a.cmp(b)), "{:?} against {:?}", a, b);
        }
    }
}

#[test]
fn compare_lists_is_the_order_of_lists() {
    let lists: Vec<Vec<String>> = vec![
        vec![],
        vec!["a".to_owned()],
        vec!["a".to_owned(), "b".to_owned()],
        vec!["a".to_owned(), "c".to_owned()],
        vec!["ab".to_owned()],
        vec!["b".to_owned()],
        vec!["".to_owned()],
    ];
    for a in lists.iter() {
        for b in lists.iter() {
            assert_eq!(compare_lists(a, b), side_of_std(a.cmp(b)));
        }
    }
}

#[test]
fn compare_goes_by_name_then_command_then_icon() {
    let base = app("B", &["run", "x"], "icon");
    assert_eq!(base.compare(&app("B", &["run", "x"], "icon")), Side::Same);
    assert_eq!(base.compare(&app("C", &["a"], "a")), Side::Before);
    assert_eq!(base.compare(&app("A", &["z"], "z")), Side::After);
    assert_eq!(base.compare(&app("B", &["run", "y"], "a")), Side::Before);
    assert_eq!(base.compare(&app("B", &["run"], "z")), Side::After);
    assert_eq!(base.compare(&app("B", &["run", "x"], "jcon")), Side::Before);
    assert_eq!(base.compare(&app("B", &["run", "x"], "i")), Side::After);
}

#[test]
fn compare_ignores_identifier_score_and_terminal() {
    let a = app("A", &["run"], "icon");
    let mut b = App::new("A".to_owned(), "icon".to_owned(), vec!["run".to_owned()], true);
    b.score = lib_poki_launcher::score::Score::from_bits(0x3f80_0000);
    assert_eq!(a.compare(&b), Side::Same);
    assert_eq!(a, b);
}

#[test]
fn sort_dedup_orders_and_keeps_one_of_each() {
    let apps = vec![
        app("C", &["c"], ""),
        app("A", &["a"], ""),
        app("B", &["b"], ""),
        app("A", &["a"], ""),
        app("A", &["a"], "other"),
        app("C", &["c"], ""),
    ];
    let out = sort_dedup(apps.clone());
    let got: Vec<(String, String)> = out.iter().map(|a| (a.name.clone(), a.icon.clone())).collect();
    assert_eq!(
        got,
        vec![
            ("A".to_owned(), "".to_owned()),
            ("A".to_owned(), "other".to_owned()),
            ("B".to_owned(), "".to_owned()),
            ("C".to_owned(), "".to_owned()),
        ]
    );
    for kept in out.iter() {
        assert!(apps.iter().any(|a| a.uuid == kept.uuid));
    }
    assert!(sort_dedup(Vec::new()).is_empty());
}

#[test]
fn records_compare_with_operators() {
    let a = app("A", &["run"], "icon");
    let b = app("B", &["run"], "icon");
    assert!(a < b);
    assert!(b > a);
    assert!(a <= app("A", &["run"], "icon"));
    assert!(!(a < app("A", &["run"], "icon")));
    assert_eq!(a.partial_cmp(&b), Some(std::cmp::Ordering::Less));
    assert_eq!(b.partial_cmp(&a), Some(std::cmp::Ordering::Greater));
    assert_eq!(a.partial_cmp(&a), Some(std::cmp::Ordering::Equal));
}
