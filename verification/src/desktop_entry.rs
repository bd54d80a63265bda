//! Reading the fields of a desktop entry: escapes, the `Exec` line, booleans.
use vstd::prelude::*;
use crate::app::App;
use crate::text::{chars_of, lemma_texts_push, texts};
use freedesktop_entry_parser::{Entry, ParseError};
use std::str::ParseBoolError;

verus! {

/// What an escape sequence stands for: the character that follows a backslash
/// gives one character, or stays behind its backslash where it names nothing.
pub open spec fn escape_expansion(c: char) -> Seq<char> {
    if c == '\\' {
        seq!['\\']
    } else if c == 'n' {
        seq!['\n']
    } else if c == 's' {
        seq![' ']
    } else if c == 't' {
        seq!['\t']
    } else if c == 'r' {
        seq!['\r']
    } else {
        seq!['\\', c]
    }
}

/// The text of a value with its escape sequences replaced. A backslash that
/// ends the text is dropped.
pub open spec fn unescaped(s: Seq<char>) -> Seq<char>
    decreases s.len(),
{
    if s.len() == 0 {
        Seq::empty()
    } else if s[0] != '\\' {
        seq![s[0]] + unescaped(s.skip(1))
    } else if s.len() == 1 {
        Seq::empty()
    } else {
        escape_expansion(s[1]) + unescaped(s.skip(2))
    }
}

/// Replaces the escape sequences `\\`, `\n`, `\s`, `\t` and `\r` of a value.
pub fn unescape_string(s: &str) -> (out: String)
    ensures
        out@ == unescaped(s@),
{
    let chars = chars_of(s);
    let n = chars.len();
    let mut out = String::new();
    let mut i: usize = 0;
    proof {
        assert(chars@.skip(0) =~= chars@);
        assert(out@ + unescaped(chars@) =~= unescaped(chars@));
    }
    while i < n
        invariant
            n == chars@.len(),
            chars@ == s@,
            i <= n,
            out@ + unescaped(chars@.skip(i as int)) == unescaped(chars@),
        decreases n - i,
    {
        let ghost rest = chars@.skip(i as int);
        let ghost before = out@;
        let c = chars[i];
        if c == '\\' {
            if i + 1 < n {
                let d = chars[i + 1];
                if d == '\\' {
                    out.push('\\');
                } else if d == 'n' {
                    out.push('\n');
                } else if d == 's' {
                    out.push(' ');
                } else if d == 't' {
                    out.push('\t');
                } else if d == 'r' {
                    out.push('\r');
                } else {
                    out.push('\\');
                    out.push(d);
                }
                proof {
                    assert(rest.skip(2) =~= chars@.skip(i + 2));
                    assert(out@ =~= before + escape_expansion(d));
                    assert(out@ + unescaped(rest.skip(2)) =~= before + unescaped(rest));
                }
                i += 2;
            } else {
                proof {
                    assert(rest.len() == 1);
                    assert(unescaped(rest) =~= Seq::<char>::empty());
                    assert(chars@.skip(i + 1).len() == 0);
                    assert(out@ + unescaped(chars@.skip(i + 1)) =~= before + unescaped(rest));
                }
                i += 1;
            }
        } else {
            out.push(c);
            proof {
                assert(rest.skip(1) =~= chars@.skip(i + 1));
                assert(out@ + unescaped(rest.skip(1)) =~= before + unescaped(rest));
            }
            i += 1;
        }
    }
    proof {
        assert(chars@.skip(n as int).len() == 0);
        assert(out@ + unescaped(chars@.skip(n as int)) =~= out@);
    }
    out
}

/// Where the reading of an `Exec` line stands: the arguments finished so far,
/// the argument being read, and whether a quotation is open.
pub struct ExecScan {
    pub args: Seq<Seq<char>>,
    pub part: Seq<char>,
    pub in_quote: bool,
}

/// The arguments once the one being read is closed: an empty one is not kept.
pub open spec fn flushed(args: Seq<Seq<char>>, part: Seq<char>) -> Seq<Seq<char>> {
    if part.len() == 0 {
        args
    } else {
        args.push(part)
    }
}

/// What a backslash and the character after it stand for inside a quotation.
pub open spec fn quoted_escape(c: char) -> Seq<char> {
    if c == '"' || c == '`' || c == '$' || c == '\\' {
        seq![c]
    } else {
        seq!['\\', c]
    }
}

/// The argument that announces an icon.
pub open spec fn icon_flag() -> Seq<char> {
    seq!['-', '-', 'i', 'c', 'o', 'n']
}

/// The state after a field code, the character that follows a `%`.
///
/// `%%` is a percent sign; `%i` gives `--icon` and the icon, unless the icon
/// is empty; `%c` gives the name; `%k` gives the entry's path; any other code
/// is dropped.
pub open spec fn after_field_code(
    st: ExecScan,
    code: char,
    name: Seq<char>,
    icon: Seq<char>,
    file_path: Seq<char>,
) -> ExecScan {
    if code == '%' {
        ExecScan { args: st.args, part: st.part.push('%'), in_quote: st.in_quote }
    } else if code == 'i' {
        if icon.len() == 0 {
            st
        } else {
            ExecScan {
                args: flushed(st.args, st.part).push(icon_flag()).push(icon),
                part: Seq::empty(),
                in_quote: st.in_quote,
            }
        }
    } else if code == 'c' {
        ExecScan {
            args: flushed(st.args, st.part).push(name),
            part: Seq::empty(),
            in_quote: st.in_quote,
        }
    } else if code == 'k' {
        ExecScan {
            args: flushed(st.args, st.part).push(file_path),
            part: Seq::empty(),
            in_quote: st.in_quote,
        }
    } else {
        st
    }
}

/// The state after reading all of `s`, starting in `st`.
///
/// Inside a quotation a `"` closes the argument, a backslash escapes the next
/// character, and anything else is taken as it is. Outside, a `"` opens a
/// quotation, a space closes the argument, a `%` starts a field code, and
/// anything else is taken as it is. A backslash or a `%` that ends the text is
/// dropped.
pub open spec fn exec_scan(
    st: ExecScan,
    s: Seq<char>,
    name: Seq<char>,
    icon: Seq<char>,
    file_path: Seq<char>,
) -> ExecScan
    decreases s.len(),
{
    if s.len() == 0 {
        st
    } else if st.in_quote {
        if s[0] == '"' {
            exec_scan(
                ExecScan {
                    args: flushed(st.args, st.part),
                    part: Seq::empty(),
                    in_quote: false,
                },
                s.skip(1),
                name,
                icon,
                file_path,
            )
        } else if s[0] == '\\' {
            if s.len() == 1 {
                st
            } else {
                exec_scan(
                    ExecScan {
                        args: st.args,
                        part: st.part + quoted_escape(s[1]),
                        in_quote: true,
                    },
                    s.skip(2),
                    name,
                    icon,
                    file_path,
                )
            }
        } else {
            exec_scan(
                ExecScan { args: st.args, part: st.part.push(s[0]), in_quote: true },
                s.skip(1),
                name,
                icon,
                file_path,
            )
        }
    } else if s[0] == '"' {
        exec_scan(
            ExecScan { args: st.args, part: st.part, in_quote: true },
            s.skip(1),
            name,
            icon,
            file_path,
        )
    } else if s[0] == ' ' {
        exec_scan(
            ExecScan { args: flushed(st.args, st.part), part: Seq::empty(), in_quote: false },
            s.skip(1),
            name,
            icon,
            file_path,
        )
    } else if s[0] == '%' {
        if s.len() == 1 {
            st
        } else {
            exec_scan(
                after_field_code(st, s[1], name, icon, file_path),
                s.skip(2),
                name,
                icon,
                file_path,
            )
        }
    } else {
        exec_scan(
            ExecScan { args: st.args, part: st.part.push(s[0]), in_quote: false },
            s.skip(1),
            name,
            icon,
            file_path,
        )
    }
}

/// The argument list that an `Exec` line stands for.
pub open spec fn exec_args(
    s: Seq<char>,
    name: Seq<char>,
    icon: Seq<char>,
    file_path: Seq<char>,
) -> Seq<Seq<char>> {
    let end = exec_scan(
        ExecScan { args: Seq::empty(), part: Seq::empty(), in_quote: false },
        s,
        name,
        icon,
        file_path,
    );
    flushed(end.args, end.part)
}

/// Closes the argument being read: it joins the list unless it is empty.
fn put(v: &mut Vec<String>, item: String)
    ensures
        texts(final(v)@) == flushed(texts(old(v)@), item@),
{
    if !item.as_str().is_empty() {
        proof {
            lemma_texts_push(v@, item);
        }
        v.push(item);
    }
}

/// Adds an argument to the list as it is, empty or not.
fn put_whole(v: &mut Vec<String>, item: &str)
    ensures
        texts(final(v)@) == texts(old(v)@).push(item@),
{
    let owned = item.to_owned();
    proof {
        lemma_texts_push(v@, owned);
    }
    v.push(owned);
}

/// Splits an `Exec` line into the arguments of the command, filling in the
/// field codes from the entry's name, icon and path.
pub fn parse_exec(s: &str, name: &str, icon: &str, file_path: &str) -> (out: Vec<String>)
    ensures
        texts(out@) == exec_args(s@, name@, icon@, file_path@),
{
    let chars = chars_of(s);
    let n = chars.len();
    let mut output: Vec<String> = Vec::new();
    let mut in_quote = false;
    let mut part = String::new();
    let mut i: usize = 0;
    let ghost start = ExecScan { args: Seq::empty(), part: Seq::empty(), in_quote: false };
    proof {
        assert(chars@.skip(0) =~= chars@);
        assert(texts(output@) =~= Seq::<Seq<char>>::empty());
    }
    while i < n
        invariant
            n == chars@.len(),
            chars@ == s@,
            i <= n,
            exec_scan(
                ExecScan { args: texts(output@), part: part@, in_quote },
                chars@.skip(i as int),
                name@,
                icon@,
                file_path@,
            ) == exec_scan(start, chars@, name@, icon@, file_path@),
        decreases n - i,
    {
        let ghost rest = chars@.skip(i as int);
        let c = chars[i];
        proof {
            assert(rest[0] == c);
            assert(rest.skip(1) =~= chars@.skip(i + 1));
            if i + 1 < n {
                assert(rest[1] == chars@[i + 1]);
                assert(rest.skip(2) =~= chars@.skip(i + 2));
            } else {
                assert(rest.len() == 1);
                assert(chars@.skip(i + 1).len() == 0);
            }
        }
        if in_quote {
            if c == '"' {
                put(&mut output, part);
                part = String::new();
                in_quote = false;
                i += 1;
            } else if c == '\\' {
                if i + 1 < n {
                    let d = chars[i + 1];
                    let ghost before = part@;
                    if d == '"' || d == '`' || d == '$' || d == '\\' {
                        part.push(d);
                    } else {
                        part.push('\\');
                        part.push(d);
                    }
                    proof {
                        assert(part@ =~= before + quoted_escape(d));
                    }
                    i += 2;
                } else {
                    i += 1;
                }
            } else {
                part.push(c);
                i += 1;
            }
        } else if c == '"' {
            in_quote = true;
            i += 1;
        } else if c == ' ' {
            put(&mut output, part);
            part = String::new();
            i += 1;
        } else if c == '%' {
            if i + 1 < n {
                let d = chars[i + 1];
                if d == '%' {
                    part.push('%');
                } else if d == 'i' {
                    if !icon.is_empty() {
                        put(&mut output, part);
                        proof {
                            reveal_strlit("--icon");
                            assert("--icon"@ =~= icon_flag());
                        }
                        put_whole(&mut output, "--icon");
                        put_whole(&mut output, icon);
                        part = String::new();
                    }
                } else if d == 'c' {
                    put(&mut output, part);
                    put_whole(&mut output, name);
                    part = String::new();
                } else if d == 'k' {
                    put(&mut output, part);
                    put_whole(&mut output, file_path);
                    part = String::new();
                }
                i += 2;
            } else {
                i += 1;
            }
        } else {
            part.push(c);
            i += 1;
        }
    }
    put(&mut output, part);
    output
}

/// Why a desktop entry gave no application record.
#[derive(Debug)]
#[allow(inconsistent_fields)]
pub enum EntryParseError {
    /// The file has no `Desktop Entry` section.
    MissingSection { file_path: String },
    /// The section has no `Name`.
    MissingName { file_path: String },
    /// The section has no `Exec`.
    MissingExec { file_path: String },
    /// The section has no `Icon`.
    MissingIcon { file_path: String },
    /// The file could not be read as a desktop entry; `err` says why.
    InvalidDesktopFile { file_path: String, err: String },
    /// `NoDisplay`, `Hidden` or `Terminal` is neither `true` nor `false`.
    InvalidPropVal { file_path: String, name: String, value: String },
    /// A value holds an escape sequence that names nothing.
    InvalidEscape { file_path: String, name: String, value: char },
}

/// The error of `str::parse::<bool>`, carried as it is.
#[verifier::external_type_specification]
#[verifier::external_body]
pub struct ExParseBoolError(ParseBoolError);

/// The text `true`.
pub open spec fn true_text() -> Seq<char> {
    seq!['t', 'r', 'u', 'e']
}

/// The text `false`.
pub open spec fn false_text() -> Seq<char> {
    seq!['f', 'a', 'l', 's', 'e']
}

/// The truth value that a text spells, if it spells one.
pub open spec fn spelled_bool(t: Seq<char>) -> Option<bool> {
    if t == true_text() {
        Some(true)
    } else if t == false_text() {
        Some(false)
    } else {
        None
    }
}

/// The value of an optional flag: one that is not set is off.
pub open spec fn flag_value(item: Option<Seq<char>>) -> Option<bool> {
    match item {
        Some(t) => spelled_bool(t),
        None => Some(false),
    }
}

/// The text of an optional string slice.
pub open spec fn slice_text(item: Option<&str>) -> Option<Seq<char>> {
    match item {
        Some(t) => Some(t@),
        None => None,
    }
}

/// The text of an optional string.
pub open spec fn string_text(item: Option<String>) -> Option<Seq<char>> {
    match item {
        Some(t) => Some(t@),
        None => None,
    }
}

/// Reads a truth value with `str::parse::<bool>`: `true` and `false` are
/// read, every other text is an error.
#[verifier::external_body]
fn parse_bool(text: &str) -> (r: Result<bool, ParseBoolError>)
    ensures
        match r {
            Ok(b) => spelled_bool(text@) == Some(b),
            Err(_) => spelled_bool(text@) is None,
        },
{
    text.parse::<bool>()
}

/// Whether an optional flag is set to `true`. A flag that is absent is off;
/// one that is neither `true` nor `false` is an error.
pub fn prop_is_true(item: Option<&str>) -> (r: Result<bool, ParseBoolError>)
    ensures
        match r {
            Ok(b) => flag_value(slice_text(item)) == Some(b),
            Err(_) => flag_value(slice_text(item)) is None,
        },
{
    match item {
        Some(text) => parse_bool(text),
        None => Ok(false),
    }
}

/// The fields of the `Desktop Entry` section that a record is made from, each
/// as it stands in the file, or `None` where the file does not set it.
#[derive(Debug)]
pub struct DesktopEntry {
    pub no_display: Option<String>,
    pub hidden: Option<String>,
    pub name: Option<String>,
    pub icon: Option<String>,
    pub exec_line: Option<String>,
    pub terminal: Option<String>,
}

/// The fields of an entry as plain values.
pub struct DesktopEntryView {
    pub no_display: Option<Seq<char>>,
    pub hidden: Option<Seq<char>>,
    pub name: Option<Seq<char>>,
    pub icon: Option<Seq<char>>,
    pub exec_line: Option<Seq<char>>,
    pub terminal: Option<Seq<char>>,
}

impl View for DesktopEntry {
    type V = DesktopEntryView;

    open spec fn view(&self) -> DesktopEntryView {
        DesktopEntryView {
            no_display: string_text(self.no_display),
            hidden: string_text(self.hidden),
            name: string_text(self.name),
            icon: string_text(self.icon),
            exec_line: string_text(self.exec_line),
            terminal: string_text(self.terminal),
        }
    }
}

/// What an entry comes to.
pub enum EntryOutcome {
    /// The entry asks not to be listed.
    Unlisted,
    /// The entry describes an application.
    Listed { name: Seq<char>, icon: Seq<char>, command: Seq<Seq<char>>, terminal: bool },
    /// The named flag is neither `true` nor `false`.
    InvalidFlag { name: Seq<char>, value: Seq<char> },
    /// There is no `Name`.
    NoName,
    /// There is no `Exec`.
    NoExec,
}

/// The icon of an entry: empty where none is set.
pub open spec fn icon_of(e: DesktopEntryView) -> Seq<char> {
    match e.icon {
        Some(icon) => icon,
        None => Seq::empty(),
    }
}

/// What the fields of an entry come to, for an entry read from `file_path`.
///
/// The flags are looked at first, `NoDisplay` before `Hidden`; an entry that
/// sets either is not listed, whatever else it holds. Then the name, with its
/// escapes replaced, and the command are required, and `Terminal` is read last.
pub open spec fn entry_outcome(file_path: Seq<char>, e: DesktopEntryView) -> EntryOutcome {
    if flag_value(e.no_display) is None {
        EntryOutcome::InvalidFlag { name: "NoDisplay"@, value: e.no_display->0 }
    } else if flag_value(e.hidden) is None {
        EntryOutcome::InvalidFlag { name: "Hidden"@, value: e.hidden->0 }
    } else if flag_value(e.no_display)->0 || flag_value(e.hidden)->0 {
        EntryOutcome::Unlisted
    } else if e.name is None {
        EntryOutcome::NoName
    } else if e.exec_line is None {
        EntryOutcome::NoExec
    } else if flag_value(e.terminal) is None {
        EntryOutcome::InvalidFlag { name: "Terminal"@, value: e.terminal->0 }
    } else {
        EntryOutcome::Listed {
            name: unescaped(e.name->0),
            icon: icon_of(e),
            command: exec_args(e.exec_line->0, unescaped(e.name->0), icon_of(e), file_path),
            terminal: flag_value(e.terminal)->0,
        }
    }
}

/// Whether an error says that the flag `name` of the entry at `file_path` has
/// the unreadable value `value`.
pub open spec fn is_invalid_flag(
    e: EntryParseError,
    file_path: Seq<char>,
    name: Seq<char>,
    value: Seq<char>,
) -> bool {
    match e {
        EntryParseError::InvalidPropVal { file_path: p, name: n, value: v } => p@ == file_path
            && n@ == name && v@ == value,
        _ => false,
    }
}

/// Whether a result says what the outcome says, for an entry read from
/// `file_path`. A record that is listed starts with a score of zero.
pub open spec fn tells(
    r: Result<Option<App>, EntryParseError>,
    file_path: Seq<char>,
    outcome: EntryOutcome,
) -> bool {
    match outcome {
        EntryOutcome::Unlisted => r matches Ok(None),
        EntryOutcome::Listed { name, icon, command, terminal } => r matches Ok(Some(app))
            && app@.name == name && app@.icon == icon && app@.command == command
            && app@.terminal == terminal && app@.score.bits == 0,
        EntryOutcome::InvalidFlag { name, value } => r matches Err(e) && is_invalid_flag(
            e,
            file_path,
            name,
            value,
        ),
        EntryOutcome::NoName => r matches Err(EntryParseError::MissingName { file_path: p })
            && p@ == file_path,
        EntryOutcome::NoExec => r matches Err(EntryParseError::MissingExec { file_path: p })
            && p@ == file_path,
    }
}

/// The error for a flag that is neither `true` nor `false`.
fn invalid_flag(file_path: &str, name: &str, value: &String) -> (e: EntryParseError)
    ensures
        is_invalid_flag(e, file_path@, name@, value@),
{
    EntryParseError::InvalidPropVal {
        file_path: file_path.to_owned(),
        name: name.to_owned(),
        value: value.clone(),
    }
}

/// Reads an optional flag of an entry.
fn read_flag(file_path: &str, name: &str, item: &Option<String>) -> (r: Result<
    bool,
    EntryParseError,
>)
    ensures
        match r {
            Ok(b) => flag_value(string_text(*item)) == Some(b),
            Err(e) => flag_value(string_text(*item)) is None && item is Some && is_invalid_flag(
                e,
                file_path@,
                name@,
                item->0@,
            ),
        },
{
    match item {
        Some(text) => match prop_is_true(Some(text.as_str())) {
            Ok(b) => Ok(b),
            Err(_) => Err(invalid_flag(file_path, name, text)),
        },
        None => Ok(false),
    }
}

/// Makes the application record that the fields of an entry describe.
///
/// Gives `Ok(None)` for an entry that asks not to be listed, and an error for
/// one that lacks a name or a command or sets a flag to something else than
/// `true` or `false`.
pub fn app_from_entry(file_path: &str, entry: &DesktopEntry) -> (r: Result<
    Option<App>,
    EntryParseError,
>)
    ensures
        tells(r, file_path@, entry_outcome(file_path@, entry@)),
{
    let not_display = match read_flag(file_path, "NoDisplay", &entry.no_display) {
        Ok(b) => b,
        Err(e) => {
            return Err(e);
        },
    };
    let hidden = match read_flag(file_path, "Hidden", &entry.hidden) {
        Ok(b) => b,
        Err(e) => {
            return Err(e);
        },
    };
    if not_display || hidden {
        return Ok(None);
    }
    let name = match &entry.name {
        Some(raw) => unescape_string(raw.as_str()),
        None => {
            return Err(EntryParseError::MissingName { file_path: file_path.to_owned() });
        },
    };
    let icon = match &entry.icon {
        Some(icon) => icon.clone(),
        None => String::new(),
    };
    let command = match &entry.exec_line {
        Some(line) => parse_exec(line.as_str(), name.as_str(), icon.as_str(), file_path),
        None => {
            return Err(EntryParseError::MissingExec { file_path: file_path.to_owned() });
        },
    };
    let terminal = match read_flag(file_path, "Terminal", &entry.terminal) {
        Ok(b) => b,
        Err(e) => {
            return Err(e);
        },
    };
    Ok(Some(App::new(name, icon, command, terminal)))
}

/// A parsed entry file of `freedesktop_entry_parser`. What it holds is
/// spoken of as [`entry_sections`].
#[verifier::external_type_specification]
#[verifier::external_body]
pub struct ExEntry(Entry);

/// The error of `freedesktop_entry_parser`, carried as it is.
#[verifier::external_type_specification]
#[verifier::external_body]
pub struct ExParseError(ParseError);

/// What a parsed entry file holds: for each section its attributes, and for
/// each attribute that has a plain value, one without a parameter, that value.
pub uninterp spec fn entry_sections(entry: Entry) -> Map<Seq<char>, Map<Seq<char>, Seq<char>>>;

/// What `freedesktop_entry_parser` reads from the bytes of an entry file:
/// the sections with their attributes, or `None` where it rejects the bytes.
pub uninterp spec fn parsed_sections(bytes: Seq<u8>) -> Option<
    Map<Seq<char>, Map<Seq<char>, Seq<char>>>,
>;

/// The value of an attribute of a section, where the section has it.
pub open spec fn attr_of(
    sections: Map<Seq<char>, Map<Seq<char>, Seq<char>>>,
    section: Seq<char>,
    name: Seq<char>,
) -> Option<Seq<char>> {
    if sections.dom().contains(section) && sections[section].dom().contains(name) {
        Some(sections[section][name])
    } else {
        None
    }
}

/// The fields that a record is made from, as the `Desktop Entry` section of a
/// parsed file gives them.
pub open spec fn fields_of(sections: Map<Seq<char>, Map<Seq<char>, Seq<char>>>) -> DesktopEntryView {
    DesktopEntryView {
        no_display: attr_of(sections, "Desktop Entry"@, "NoDisplay"@),
        hidden: attr_of(sections, "Desktop Entry"@, "Hidden"@),
        name: attr_of(sections, "Desktop Entry"@, "Name"@),
        icon: attr_of(sections, "Desktop Entry"@, "Icon"@),
        exec_line: attr_of(sections, "Desktop Entry"@, "Exec"@),
        terminal: attr_of(sections, "Desktop Entry"@, "Terminal"@),
    }
}

/// Parses the bytes of an entry file with `freedesktop_entry_parser::Entry::parse`.
///
/// The contract only gives the result its name: the same bytes are read the
/// same way each time, into sections or into an error.
#[verifier::external_body]
fn parse_entry_bytes(bytes: Vec<u8>) -> (r: Result<Entry, ParseError>)
    ensures
        match r {
            Ok(entry) => parsed_sections(bytes@) == Some(entry_sections(entry)),
            Err(_) => parsed_sections(bytes@) is None,
        },
{
    Entry::parse(bytes)
}

/// Asks `Entry::has_section` whether the parsed file has the section.
#[verifier::external_body]
fn entry_has_section(entry: &Entry, section: &str) -> (r: bool)
    ensures
        r == entry_sections(*entry).dom().contains(section@),
{
    entry.has_section(section)
}

/// Looks up an attribute with `Entry::section` and `AttrSelector::attr`: the
/// plain value of the attribute in that section, `None` where the section or
/// the attribute is missing or the attribute has no plain value.
#[verifier::external_body]
fn entry_attr(entry: &Entry, section: &str, name: &str) -> (r: Option<String>)
    ensures
        string_text(r) == attr_of(entry_sections(*entry), section@, name@),
{
    match entry.section(section).attr(name) {
        Some(value) => Some(value.to_owned()),
        None => None,
    }
}

/// The message of a parse error, as its `Display` writes it. Nothing is
/// claimed of the text.
#[verifier::external_body]
fn parse_error_text(err: &ParseError) -> (r: String) {
    err.to_string()
}

/// Whether an error says that the file at `file_path` is no desktop entry.
pub open spec fn is_invalid_file(e: EntryParseError, file_path: Seq<char>) -> bool {
    match e {
        EntryParseError::InvalidDesktopFile { file_path: p, err: _ } => p@ == file_path,
        _ => false,
    }
}

/// Whether an error says that the file at `file_path` lacks its section.
pub open spec fn is_missing_section(e: EntryParseError, file_path: Seq<char>) -> bool {
    match e {
        EntryParseError::MissingSection { file_path: p } => p@ == file_path,
        _ => false,
    }
}

/// Collects the fields that a record is made from.
fn read_fields(entry: &Entry) -> (fields: DesktopEntry)
    ensures
        fields@ == fields_of(entry_sections(*entry)),
{
    DesktopEntry {
        no_display: entry_attr(entry, "Desktop Entry", "NoDisplay"),
        hidden: entry_attr(entry, "Desktop Entry", "Hidden"),
        name: entry_attr(entry, "Desktop Entry", "Name"),
        icon: entry_attr(entry, "Desktop Entry", "Icon"),
        exec_line: entry_attr(entry, "Desktop Entry", "Exec"),
        terminal: entry_attr(entry, "Desktop Entry", "Terminal"),
    }
}

/// What the content of an entry file comes to, by what the parser reads from it.
pub open spec fn file_outcome(
    r: Result<Option<App>, EntryParseError>,
    file_path: Seq<char>,
    parsed: Option<Map<Seq<char>, Map<Seq<char>, Seq<char>>>>,
) -> bool {
    match parsed {
        None => r matches Err(e) && is_invalid_file(e, file_path),
        Some(sections) => if sections.dom().contains("Desktop Entry"@) {
            tells(r, file_path, entry_outcome(file_path, fields_of(sections)))
        } else {
            r matches Err(e) && is_missing_section(e, file_path)
        },
    }
}

/// Reads the content of the desktop entry file at `file_path` and makes the
/// application record that it describes.
///
/// Content that is no entry file, or that has no `Desktop Entry` section, is
/// an error. Otherwise the result is that of [`app_from_entry`] on the fields
/// of that section.
pub fn parse_desktop_file(file_path: &str, content: Vec<u8>) -> (r: Result<
    Option<App>,
    EntryParseError,
>)
    ensures
        file_outcome(r, file_path@, parsed_sections(content@)),
{
    let entry = match parse_entry_bytes(content) {
        Ok(entry) => entry,
        Err(err) => {
            return Err(
                EntryParseError::InvalidDesktopFile {
                    file_path: file_path.to_owned(),
                    err: parse_error_text(&err),
                },
            );
        },
    };
    if !entry_has_section(&entry, "Desktop Entry") {
        return Err(EntryParseError::MissingSection { file_path: file_path.to_owned() });
    }
    let fields = read_fields(&entry);
    app_from_entry(file_path, &fields)
}

} // verus!
