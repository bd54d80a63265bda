use lib_poki_launcher::app::App;
use lib_poki_launcher::config::{
    are_expandable, collect_expanded, expand_paths, is_expandable, Config, ConfigError,
    ExpandFailure,
};

#[test]
fn default_settings() {
    let c = Config::default();
    assert_eq!(
        c.app_paths,
        vec![
            "/usr/share/applications",
            "~/.local/share/applications/",
            "/var/lib/snapd/desktop/applications",
            "/var/lib/flatpak/exports/share/applications",
        ]
    );
    assert_eq!(c.term_cmd, None);
    assert_eq!(f32::from_bits(c.half_life), 7.0);
    assert_eq!(c.window_height, 500);
    assert_eq!(c.window_width, 500);
    assert_eq!(c.background_color, "#282a36");
    assert_eq!(c.border_color, "#2e303b");
    assert_eq!(c.input_box_color, "#44475a");
    assert_eq!(c.input_text_color, "#f8f8f2");
    assert_eq!(c.selected_app_color, "#44475a");
    assert_eq!(c.app_text_color, "#f8f8f2");
    assert_eq!(c.app_separator_color, "#bd93f9");
    assert_eq!(c.input_font_size, 13);
    assert_eq!(c.app_font_size, 20);
    assert_eq!(f32::from_bits(c.input_box_ratio), 0.1);
}

#[test]
fn clone_keeps_every_setting() {
    let mut c = Config::default();
    c.term_cmd = Some("kitty -e".to_owned());
    c.window_width = 640;
    let d = c.clone();
    assert_eq!(d.term_cmd, Some("kitty -e".to_owned()));
    assert_eq!(d.window_width, 640);
    assert_eq!(d.app_paths, c.app_paths);
    assert_eq!(d.half_life, c.half_life);
}

fn failure(var: &str) -> ExpandFailure {
    ExpandFailure { var_name: var.to_owned(), cause: "not set".to_owned() }
}

#[test]
fn collect_expanded_gives_all_paths() {
    let r = collect_expanded(vec![
        ("~/a".to_owned(), Ok("/home/u/a".to_owned())),
        ("/b".to_owned(), Ok("/b".to_owned())),
    ]);
    assert_eq!(r.unwrap(), vec!["/home/u/a", "/b"]);
    assert_eq!(collect_expanded(Vec::new()).unwrap(), Vec::<String>::new());
}

#[test]
fn collect_expanded_names_the_first_failure() {
    let r = collect_expanded(vec![
        ("/a".to_owned(), Ok("/a".to_owned())),
        ("$X/b".to_owned(), Err(failure("X"))),
        ("$Y/c".to_owned(), Err(failure("Y"))),
    ]);
    match r {
        Err(ConfigError::ExpandPath(path, why)) => {
            assert_eq!(path, "$X/b");
            assert_eq!(why.var_name, "X");
            assert_eq!(why.cause, "not set");
        }
        other => panic!("unexpected result {:?}", other),
    }
}

#[test]
fn expand_paths_leaves_plain_paths_alone() {
    let paths = vec!["/usr/share/applications".to_owned(), "/opt/apps".to_owned()];
    assert_eq!(expand_paths(&paths).unwrap(), paths);
}

#[test]
fn expand_paths_reports_unknown_variable() {
    let paths = vec![
        "/usr/share".to_owned(),
        "$POKI_LAUNCHER_NO_SUCH_VARIABLE_4711/apps".to_owned(),
    ];
    match expand_paths(&paths) {
        Err(ConfigError::ExpandPath(path, why)) => {
            assert_eq!(path, "$POKI_LAUNCHER_NO_SUCH_VARIABLE_4711/apps");
            assert_eq!(why.var_name, "POKI_LAUNCHER_NO_SUCH_VARIABLE_4711");
        }
        other => panic!("unexpected result {:?}", other),
    }
}

#[test]
fn app_new_default_and_merge() {
    let a = App::new("A".to_owned(), "i".to_owned(), vec!["a".to_owned()], true);
    let b = App::new("A".to_owned(), "i".to_owned(), vec!["a".to_owned()], true);
    assert_ne!(a.uuid, b.uuid);
    assert_eq!(a.uuid.len(), 36);
    assert_eq!(a.score.to_bits(), 0);
    assert_eq!(a.to_string(), "A");
    let d = App::default();
    assert_eq!(d.name, "");
    assert!(d.command.is_empty());
    assert_eq!(d.uuid, "");
    assert!(!d.terminal);
    let mut target = App::new("Old".to_owned(), "o".to_owned(), vec!["old".to_owned()], false);
    let id = target.uuid.clone();
    target.score = lib_poki_launcher::score::Score::from_bits(0x3f80_0000);
    target.merge(&a);
    assert_eq!(target.name, "A");
    assert_eq!(target.icon, "i");
    assert_eq!(target.command, vec!["a"]);
    assert_eq!(target.uuid, id);
    assert_eq!(target.score.to_bits(), 0x3f80_0000);
    assert!(!target.terminal);
    let c = target.clone();
    assert_eq!(c.uuid, target.uuid);
    assert_eq!(c.score, target.score);
}

#[test]
fn paths_that_the_expansion_copes_with() {
    assert!(is_expandable(""));
    assert!(is_expandable("$"));
    assert!(is_expandable("/usr/share/applications"));
    assert!(is_expandable("$HOME/apps"));
    assert!(is_expandable("${HOME}/\u{e9}t\u{e9}"));
    assert!(is_expandable("/caf\u{e9}/$"));
    assert!(is_expandable("\u{e9}$A"));
    assert!(!is_expandable("$\u{e9}"));
    assert!(!is_expandable("/a/$\u{e9}t\u{e9}/b"));
    assert!(!is_expandable("$HOME/$\u{65e5}"));
    assert!(are_expandable(&vec!["/a".to_owned(), "$HOME".to_owned()]));
    assert!(!are_expandable(&vec!["/a".to_owned(), "$\u{e9}".to_owned()]));
    assert!(are_expandable(&Vec::new()));
}

#[test]
fn expand_paths_copes_with_other_alphabets_away_from_a_dollar() {
    let paths = vec!["/caf\u{e9}/\u{65e5}\u{672c}".to_owned(), "/a $ b".to_owned()];
    assert_eq!(expand_paths(&paths).unwrap(), paths);
}

#[test]
fn expand_paths_reads_a_doubled_dollar_as_one() {
    let paths = vec!["/a$$b".to_owned(), "$$".to_owned()];
    assert_eq!(expand_paths(&paths).unwrap(), vec!["/a$b", "$"]);
}
