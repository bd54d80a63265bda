//! Launching an application: the command that is run, and what a failure to
//! run it means.
use vstd::prelude::*;
use crate::app::App;
use crate::config::Config;
use crate::text::{chars_of, clone_strings, lemma_texts_push, texts};

verus! {

/// Why an application could not be run.
#[derive(Debug)]
pub enum RunError {
    /// The command could not be started: `command` is the command, `err`
    /// the reason.
    Exec { command: String, err: String },
    /// The variable `TERM` could not be read; the text says why.
    TermVar(String),
    /// No terminal is configured and the one that was tried is not there.
    CantFindTerm,
}

/// A command: the program and its arguments.
#[derive(Debug)]
pub struct CommandLine {
    pub program: String,
    pub args: Vec<String>,
}

/// A command as plain values.
pub struct CommandLineView {
    pub program: Seq<char>,
    pub args: Seq<Seq<char>>,
}

impl View for CommandLine {
    type V = CommandLineView;

    open spec fn view(&self) -> CommandLineView {
        CommandLineView { program: self.program@, args: texts(self.args@) }
    }
}

/// The pieces of a text between the separators. There is one piece more than
/// there are separators: two separators in a row, or one at either end, give
/// an empty piece.
pub open spec fn split_on(s: Seq<char>, sep: char) -> Seq<Seq<char>>
    decreases s.len(),
{
    if s.len() == 0 {
        seq![Seq::empty()]
    } else {
        let before = split_on(s.drop_last(), sep);
        if s.last() == sep {
            before.push(Seq::empty())
        } else {
            before.drop_last().push(before.last().push(s.last()))
        }
    }
}

/// A text has at least one piece.
pub proof fn lemma_split_nonempty(s: Seq<char>, sep: char)
    ensures
        split_on(s, sep).len() >= 1,
    decreases s.len(),
{
    if s.len() > 0 {
        lemma_split_nonempty(s.drop_last(), sep);
    }
}

/// Splits a text at each separator.
pub fn split(s: &str, sep: char) -> (out: Vec<String>)
    ensures
        texts(out@) == split_on(s@, sep),
        out@.len() >= 1,
{
    let chars = chars_of(s);
    let mut pieces: Vec<String> = Vec::new();
    let mut piece = String::new();
    let mut i: usize = 0;
    proof {
        assert(chars@.take(0) =~= Seq::<char>::empty());
        assert(texts(pieces@).push(piece@) =~= split_on(chars@.take(0), sep));
    }
    while i < chars.len()
        invariant
            i <= chars.len(),
            chars@ == s@,
            texts(pieces@).push(piece@) == split_on(chars@.take(i as int), sep),
        decreases chars.len() - i,
    {
        let c = chars[i];
        proof {
            let next = chars@.take(i + 1);
            assert(next.drop_last() =~= chars@.take(i as int));
            assert(next.last() == c);
            let before = split_on(chars@.take(i as int), sep);
            assert(before.last() == piece@);
            assert(before.drop_last() =~= texts(pieces@));
        }
        if c == sep {
            proof {
                lemma_texts_push(pieces@, piece);
            }
            pieces.push(piece);
            piece = String::new();
        } else {
            piece.push(c);
        }
        i += 1;
    }
    proof {
        assert(chars@.take(chars@.len() as int) =~= chars@);
        lemma_texts_push(pieces@, piece);
    }
    pieces.push(piece);
    pieces
}

/// The command that runs an application.
///
/// An application that needs a terminal runs in the configured one: the
/// configured command is split at its spaces, and the command of the
/// application follows as further arguments. Where none is configured it runs
/// in the terminal that `TERM` names, after `-e`. Any other application is
/// run by its own command.
pub open spec fn launch_line(
    command: Seq<Seq<char>>,
    terminal: bool,
    term_cmd: Option<Seq<char>>,
    term: Seq<char>,
) -> CommandLineView {
    if terminal {
        match term_cmd {
            Some(cmd) => CommandLineView {
                program: split_on(cmd, ' ')[0],
                args: split_on(cmd, ' ').skip(1) + command,
            },
            None => CommandLineView { program: term, args: seq!["-e"@] + command },
        }
    } else {
        CommandLineView { program: command[0], args: command.skip(1) }
    }
}

/// The value of `TERM`, where it could be read.
pub open spec fn term_text(term: Result<String, String>) -> Seq<char> {
    match term {
        Ok(value) => value@,
        Err(_) => Seq::empty(),
    }
}

/// Whether an error says that `TERM` could not be read, for the reason
/// `why`.
pub open spec fn is_term_var(e: RunError, why: Seq<char>) -> bool {
    match e {
        RunError::TermVar(text) => text@ == why,
        _ => false,
    }
}

/// Appends copies of the strings of `more` to `v`.
fn extend_with(v: &mut Vec<String>, more: &Vec<String>)
    ensures
        texts(final(v)@) == texts(old(v)@) + texts(more@),
{
    let ghost start = texts(v@);
    let mut i: usize = 0;
    proof {
        assert(texts(v@) =~= start + texts(more@).take(0));
    }
    while i < more.len()
        invariant
            i <= more.len(),
            texts(v@) == start + texts(more@).take(i as int),
        decreases more.len() - i,
    {
        let item = more[i].clone();
        proof {
            lemma_texts_push(v@, item);
            assert((start + texts(more@).take(i as int)).push(item@) =~= start + texts(
                more@,
            ).take(i + 1));
        }
        v.push(item);
        i += 1;
    }
    proof {
        assert(texts(more@).take(more@.len() as int) =~= texts(more@));
    }
}

impl App {
    /// Works out the command that runs the application.
    ///
    /// `term` is the value of the variable `TERM`, or the reason why it
    /// could not be read. It matters only for an application that needs a
    /// terminal while none is configured; there a variable that cannot be
    /// read is an error. An application that needs no terminal must have a
    /// command.
    pub fn run(&self, config: &Config, term: Result<String, String>) -> (r: Result<
        CommandLine,
        RunError,
    >)
        requires
            !self@.terminal ==> self@.command.len() > 0,
        ensures
            r is Err <==> self@.terminal && config@.term_cmd is None && term is Err,
            match r {
                Ok(line) => line@ == launch_line(
                    self@.command,
                    self@.terminal,
                    config@.term_cmd,
                    term_text(term),
                ),
                Err(e) => term matches Err(why) && is_term_var(e, why@),
            },
    {
        if self.terminal {
            match &config.term_cmd {
                Some(cmd) => {
                    let mut pieces = split(cmd.as_str(), ' ');
                    let ghost all = texts(pieces@);
                    let program = pieces.remove(0);
                    proof {
                        assert(texts(pieces@) =~= all.skip(1));
                    }
                    extend_with(&mut pieces, &self.command);
                    Ok(CommandLine { program, args: pieces })
                },
                None => match term {
                    Ok(program) => {
                        let mut args: Vec<String> = Vec::new();
                        let flag = "-e".to_owned();
                        proof {
                            lemma_texts_push(args@, flag);
                            assert(texts(args@.push(flag)) =~= seq!["-e"@]);
                        }
                        args.push(flag);
                        extend_with(&mut args, &self.command);
                        Ok(CommandLine { program, args })
                    },
                    Err(why) => Err(RunError::TermVar(why)),
                },
            }
        } else {
            let mut args = clone_strings(&self.command);
            let ghost all = texts(args@);
            let program = args.remove(0);
            proof {
                assert(texts(args@) =~= all.skip(1));
            }
            Ok(CommandLine { program, args })
        }
    }
}

/// Whether an error says that `command` could not be started, for the reason
/// `err`.
pub open spec fn is_exec_failure(e: RunError, command: String, err: String) -> bool {
    match e {
        RunError::Exec { command: c, err: why } => c == command && why == err,
        _ => false,
    }
}

/// What a failure to start the command means.
///
/// Where no terminal is configured and the program was not found, the
/// terminal is what is missing. Any other failure is reported with the
/// command and the reason.
pub fn spawn_error(config: &Config, not_found: bool, command: String, err: String) -> (e:
    RunError)
    ensures
        config@.term_cmd is None && not_found ==> e is CantFindTerm,
        !(config@.term_cmd is None && not_found) ==> is_exec_failure(e, command, err),
{
    if config.term_cmd.is_none() && not_found {
        RunError::CantFindTerm
    } else {
        RunError::Exec { command, err }
    }
}

} // verus!
