use lib_poki_launcher::app::App;
use lib_poki_launcher::config::Config;
use lib_poki_launcher::runner::{spawn_error, split, RunError};

fn app(command: &[&str], terminal: bool) -> App {
    App::new(
        "App".to_owned(),
        "icon".to_owned(),
        command.iter().map(|s| (*s).to_owned()).collect(),
        terminal,
    )
}

fn term(value: &str) -> Result<String, String> {
    Ok(value.to_owned())
}

#[test]
fn split_at_spaces() {
    assert_eq!(split("alacritty -e", ' '), vec!["alacritty", "-e"]);
    assert_eq!(split("a  b", ' '), vec!["a", "", "b"]);
    assert_eq!(split(" a ", ' '), vec!["", "a", ""]);
    assert_eq!(split("", ' '), vec![""]);
    assert_eq!(split("abc", ' '), vec!["abc"]);
    let std_split: Vec<&str> = "x y  z ".split(' ').collect();
    assert_eq!(split("x y  z ", ' '), std_split);
}

#[test]
fn plain_application_runs_its_own_command() {
    let line = app(&["/usr/bin/gimp", "--new", "file"], false)
        .run(&Config::default(), Err("unset".to_owned()))
        .unwrap();
    assert_eq!(line.program, "/usr/bin/gimp");
    assert_eq!(line.args, vec!["--new", "file"]);
}

#[test]
fn terminal_application_runs_in_configured_terminal() {
    let mut config = Config::default();
    config.term_cmd = Some("kitty --hold -e".to_owned());
    let line = app(&["htop", "-d", "5"], true).run(&config, term("xterm")).unwrap();
    assert_eq!(line.program, "kitty");
    assert_eq!(line.args, vec!["--hold", "-e", "htop", "-d", "5"]);
}

#[test]
fn terminal_application_runs_in_term_variable() {
    let line = app(&["htop"], true).run(&Config::default(), term("xterm")).unwrap();
    assert_eq!(line.program, "xterm");
    assert_eq!(line.args, vec!["-e", "htop"]);
}

#[test]
fn terminal_application_without_terminal_is_an_error() {
    let r = app(&["htop"], true).run(&Config::default(), Err("not present".to_owned()));
    assert!(matches!(r, Err(RunError::TermVar(why)) if why == "not present"));
}

#[test]
fn term_variable_is_not_needed_with_configured_terminal() {
    let mut config = Config::default();
    config.term_cmd = Some("foot".to_owned());
    let line = app(&[], true).run(&config, Err("not present".to_owned())).unwrap();
    assert_eq!(line.program, "foot");
    assert!(line.args.is_empty());
}

#[test]
fn spawn_errors() {
    let none = Config::default();
    let mut some = Config::default();
    some.term_cmd = Some("kitty".to_owned());
    assert!(matches!(
        spawn_error(&none, true, "`x`".to_owned(), "gone".to_owned()),
        RunError::CantFindTerm
    ));
    assert!(matches!(
        spawn_error(&none, false, "`x`".to_owned(), "denied".to_owned()),
        RunError::Exec { command, err } if command == "`x`" && err == "denied"
    ));
    assert!(matches!(
        spawn_error(&some, true, "`x`".to_owned(), "gone".to_owned()),
        RunError::Exec { command, err } if command == "`x`" && err == "gone"
    ));
}
