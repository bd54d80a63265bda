use lib_poki_launcher::app::App;
use lib_poki_launcher::desktop_entry::{
    app_from_entry, parse_desktop_file, parse_exec, prop_is_true, unescape_string, DesktopEntry,
    EntryParseError,
};

fn ovec(v: &[&str]) -> Vec<String> {
    v.iter().map(|s| (*s).to_owned()).collect()
}

#[test]
fn basic() {
    let exec = "/usr/bin/cat --flag";
    let expected = ovec(&["/usr/bin/cat", "--flag"]);
    assert_eq!(
        parse_exec(&unescape_string(exec), "cat", "cat", "/cat.desktop"),
        expected
    );
}

#[test]
fn quoted() {
    let exec = "\"/usr/bin/cat\" --flag";
    let expected = ovec(&["/usr/bin/cat", "--flag"]);
    assert_eq!(
        parse_exec(&unescape_string(exec), "cat", "cat", "/cat.desktop"),
        expected
    );
}

#[test]
fn args() {
    let exec = "\"/usr/bin/cat\" --flag %k %i %c %f %%";
    let expected = ovec(&[
        "/usr/bin/cat",
        "--flag",
        "/cat.desktop",
        "--icon",
        "cat",
        "cat",
        "%",
    ]);
    assert_eq!(
        parse_exec(&unescape_string(exec), "cat", "cat", "/cat.desktop"),
        expected
    );
}

#[test]
fn complex() {
    let exec = r#""/usr/bin folder/cat" --flag "a very weird \\\\ \" string \\$ <>`" "#;

    let first_pass = r#""/usr/bin folder/cat" --flag "a very weird \\ \" string \$ <>`" "#;
    assert_eq!(unescape_string(exec), first_pass);
    let exec = unescape_string(exec);
    let expected = ovec(&[
        "/usr/bin folder/cat",
        "--flag",
        r#"a very weird \ " string $ <>`"#,
    ]);
    assert_eq!(
        parse_exec(&exec, "cat", "cat", "/cat icon.png"),
        expected
    );
}

#[test]
fn vaild_file_exist() {
    let path = "/tmp/./test.desktop";
    let content = b"[Desktop Entry]
 Name=Test
 Icon=testicon
 Exec=/usr/bin/test --with-flag %f"
        .to_vec();
    let app = parse_desktop_file(path, content).unwrap().unwrap();
    let other_app = App::new(
        "Test".to_owned(),
        "testicon".to_owned(),
        ovec(&["/usr/bin/test", "--with-flag"]),
        false,
    );
    assert_eq!(app, other_app);
}

#[test]
fn file_with_args() {
    let path = "/tmp/./test2.desktop";
    let content = b"[Desktop Entry]
 Name=Test
 Icon=testicon
 Exec=/usr/bin/test --with-flag %c %i %k %f"
        .to_vec();
    let app = parse_desktop_file(path, content).unwrap().unwrap();
    let other_app = App::new(
        "Test".to_owned(),
        "testicon".to_owned(),
        ovec(&[
            "/usr/bin/test",
            "--with-flag",
            "Test",
            "--icon",
            "testicon",
            path,
        ]),
        false,
    );
    assert_eq!(app, other_app);
}

#[test]
fn unescape_known_sequences() {
    assert_eq!(unescape_string(r"a\sb\nc\td\re\\f"), "a b\nc\td\re\\f");
}

#[test]
fn unescape_keeps_unknown_sequence() {
    assert_eq!(unescape_string(r"a\qb"), r"a\qb");
}

#[test]
fn unescape_drops_trailing_backslash() {
    assert_eq!(unescape_string("abc\\"), "abc");
    assert_eq!(unescape_string(""), "");
}

#[test]
fn exec_empty_icon_drops_icon_code() {
    assert_eq!(parse_exec("run %i now", "n", "", "/p"), ovec(&["run", "now"]));
}

#[test]
fn exec_field_code_splits_argument() {
    assert_eq!(parse_exec("a%cb", "Name", "i", "/p"), ovec(&["a", "Name", "b"]));
    assert_eq!(parse_exec("a%kb", "Name", "i", "/p"), ovec(&["a", "/p", "b"]));
}

#[test]
fn exec_empty_name_is_kept_as_argument() {
    assert_eq!(parse_exec("run %c", "", "i", "/p"), ovec(&["run", ""]));
}

#[test]
fn exec_trailing_percent_and_backslash_are_dropped() {
    assert_eq!(parse_exec("run%", "n", "i", "/p"), ovec(&["run"]));
    assert_eq!(parse_exec("\"run\\", "n", "i", "/p"), ovec(&["run"]));
}

#[test]
fn exec_quoted_escape_of_other_character_keeps_backslash() {
    assert_eq!(parse_exec("\"a\\qb\"", "n", "i", "/p"), ovec(&["a\\qb"]));
}

#[test]
fn exec_repeated_spaces_give_no_empty_arguments() {
    assert_eq!(parse_exec("  a   b  ", "n", "i", "/p"), ovec(&["a", "b"]));
    assert_eq!(parse_exec("", "n", "i", "/p"), Vec::<String>::new());
}

#[test]
fn prop_is_true_reads_flags() {
    assert_eq!(prop_is_true(None), Ok(false));
    assert_eq!(prop_is_true(Some("true")), Ok(true));
    assert_eq!(prop_is_true(Some("false")), Ok(false));
    assert!(prop_is_true(Some("yes")).is_err());
    assert!(prop_is_true(Some("True")).is_err());
    assert!(prop_is_true(Some("")).is_err());
}

fn entry(name: Option<&str>, exec_line: Option<&str>) -> DesktopEntry {
    DesktopEntry {
        no_display: None,
        hidden: None,
        name: name.map(|s| s.to_owned()),
        icon: None,
        exec_line: exec_line.map(|s| s.to_owned()),
        terminal: None,
    }
}

#[test]
fn entry_without_name_is_missing_name() {
    let r = app_from_entry("/a.desktop", &entry(None, Some("/bin/a")));
    assert!(matches!(r, Err(EntryParseError::MissingName { file_path }) if file_path == "/a.desktop"));
}

#[test]
fn entry_without_exec_is_missing_exec() {
    let r = app_from_entry("/a.desktop", &entry(Some("A"), None));
    assert!(matches!(r, Err(EntryParseError::MissingExec { file_path }) if file_path == "/a.desktop"));
}

#[test]
fn entry_hidden_is_not_listed() {
    let mut e = entry(None, None);
    e.hidden = Some("true".to_owned());
    assert!(matches!(app_from_entry("/a.desktop", &e), Ok(None)));
    let mut e = entry(Some("A"), Some("/bin/a"));
    e.no_display = Some("true".to_owned());
    assert!(matches!(app_from_entry("/a.desktop", &e), Ok(None)));
}

#[test]
fn entry_with_invalid_flag_is_rejected() {
    let mut e = entry(Some("A"), Some("/bin/a"));
    e.no_display = Some("maybe".to_owned());
    e.hidden = Some("perhaps".to_owned());
    match app_from_entry("/a.desktop", &e) {
        Err(EntryParseError::InvalidPropVal { file_path, name, value }) => {
            assert_eq!(file_path, "/a.desktop");
            assert_eq!(name, "NoDisplay");
            assert_eq!(value, "maybe");
        }
        other => panic!("unexpected result {:?}", other),
    }
    let mut e = entry(Some("A"), Some("/bin/a"));
    e.terminal = Some("1".to_owned());
    match app_from_entry("/a.desktop", &e) {
        Err(EntryParseError::InvalidPropVal { name, value, .. }) => {
            assert_eq!(name, "Terminal");
            assert_eq!(value, "1");
        }
        other => panic!("unexpected result {:?}", other),
    }
}

#[test]
fn entry_makes_record_with_unescaped_name() {
    let mut e = entry(Some(r"My\sApp"), Some("/bin/a %c"));
    e.terminal = Some("true".to_owned());
    let app = app_from_entry("/a.desktop", &e).unwrap().unwrap();
    assert_eq!(app.name, "My App");
    assert_eq!(app.icon, "");
    assert_eq!(app.command, ovec(&["/bin/a", "My App"]));
    assert!(app.terminal);
    assert_eq!(app.score.to_bits(), 0);
    assert_eq!(app.uuid.len(), 36);
}

#[test]
fn file_without_section_is_missing_section() {
    let r = parse_desktop_file("/x.desktop", b"[Other]\nName=Test\n".to_vec());
    assert!(matches!(r, Err(EntryParseError::MissingSection { file_path }) if file_path == "/x.desktop"));
}

#[test]
fn file_that_is_no_entry_is_invalid() {
    let r = parse_desktop_file("/x.desktop", b"Name=Test\n".to_vec());
    match r {
        Err(EntryParseError::InvalidDesktopFile { file_path, err }) => {
            assert_eq!(file_path, "/x.desktop");
            assert!(!err.is_empty());
        }
        other => panic!("unexpected result {:?}", other),
    }
}

#[test]
fn file_reads_fields_of_its_section() {
    let content = b"[Desktop Entry]\nName=Editor\nExec=edit %k\nTerminal=true\nHidden=false\n[Other]\nName=Wrong\n".to_vec();
    let app = parse_desktop_file("/e.desktop", content).unwrap().unwrap();
    assert_eq!(app.name, "Editor");
    assert_eq!(app.command, ovec(&["edit", "/e.desktop"]));
    assert!(app.terminal);
}
