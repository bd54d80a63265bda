//! Finding desktop entries: which files count, and what a walk through the
//! search directories comes to.
use vstd::prelude::*;
use crate::app::{views, App, AppView};
use crate::desktop_entry::{
    file_outcome, is_invalid_file, parse_desktop_file, parsed_sections, EntryParseError,
};
use crate::order::{is_ordered_set_of, sort_dedup};
use crate::ranking::lemma_views_push;
use crate::text::{chars_of, lemma_texts_push, texts};

verus! {

/// Why a scan missed something. A scan goes on after each of these.
#[derive(Debug)]
#[allow(inconsistent_fields)]
pub enum ScanError {
    /// A directory could not be walked; `err` says why.
    ScanDirectory { dir: String, err: String },
    /// A desktop entry could not be read.
    ParseEntry { err: EntryParseError },
    /// A search path could not be expanded; `err` says why.
    PathExpand { path: String, err: String },
}

/// One step of a walk through a search directory.
#[derive(Debug)]
pub enum WalkItem {
    /// A file or directory that the walk came to: the last part of its path,
    /// and the whole path.
    Found { file_name: String, path: String },
    /// A place in the search directory `dir` that the walk could not read.
    Failed { dir: String, err: String },
}

/// Whether `needle` stands in `hay` at the place `at`.
pub open spec fn occurs_at(hay: Seq<char>, needle: Seq<char>, at: int) -> bool {
    0 <= at && at + needle.len() <= hay.len() && hay.subrange(at, at + needle.len()) == needle
}

/// Whether `needle` stands somewhere in `hay`.
pub open spec fn occurs_in(hay: Seq<char>, needle: Seq<char>) -> bool {
    exists|at: int| occurs_at(hay, needle, at)
}

/// The ending that marks a desktop entry.
pub open spec fn entry_mark() -> Seq<char> {
    seq!['.', 'd', 'e', 's', 'k', 't', 'o', 'p']
}

/// Whether a file with this name counts as a desktop entry: `.desktop`
/// stands somewhere in the name.
pub open spec fn is_entry_name(file_name: Seq<char>) -> bool {
    occurs_in(file_name, entry_mark())
}

/// Whether `needle` stands in `hay` at the place `at`.
fn stands_at(hay: &Vec<char>, needle: &Vec<char>, at: usize) -> (r: bool)
    requires
        at + needle.len() <= hay.len(),
    ensures
        r == occurs_at(hay@, needle@, at as int),
{
    let mut k: usize = 0;
    while k < needle.len()
        invariant
            k <= needle.len(),
            at + needle.len() <= hay.len(),
            forall|j: int| 0 <= j < k ==> hay@[at + j] == needle@[j],
        decreases needle.len() - k,
    {
        if hay[at + k] != needle[k] {
            assert(hay@.subrange(at as int, at + needle.len())[k as int] != needle@[k as int]);
            return false;
        }
        k += 1;
    }
    assert(hay@.subrange(at as int, at + needle.len()) =~= needle@);
    true
}

/// Whether `needle` stands somewhere in `hay`.
pub fn contains_text(hay: &str, needle: &str) -> (r: bool)
    ensures
        r == occurs_in(hay@, needle@),
{
    let hay_chars = chars_of(hay);
    let needle_chars = chars_of(needle);
    if needle_chars.len() > hay_chars.len() {
        return false;
    }
    let last: usize = hay_chars.len() - needle_chars.len();
    let mut at: usize = 0;
    while at < last
        invariant
            at <= last,
            last == hay_chars.len() - needle_chars.len(),
            needle_chars.len() <= hay_chars.len(),
            hay_chars@ == hay@,
            needle_chars@ == needle@,
            forall|p: int| 0 <= p < at ==> !occurs_at(hay@, needle@, p),
        decreases last - at,
    {
        if stands_at(&hay_chars, &needle_chars, at) {
            return true;
        }
        at += 1;
    }
    stands_at(&hay_chars, &needle_chars, last)
}

/// Whether a file with this name counts as a desktop entry.
pub fn is_desktop_entry(file_name: &str) -> (r: bool)
    ensures
        r == is_entry_name(file_name@),
{
    proof {
        reveal_strlit(".desktop");
        assert(".desktop"@ =~= entry_mark());
    }
    contains_text(file_name, ".desktop")
}

/// The paths of the desktop entries among the first `n` steps of a walk.
pub open spec fn entries_among(walked: Seq<WalkItem>, n: int) -> Seq<Seq<char>>
    decreases n,
{
    if n <= 0 || n > walked.len() {
        Seq::empty()
    } else {
        let before = entries_among(walked, n - 1);
        match walked[n - 1] {
            WalkItem::Found { file_name, path } => if is_entry_name(file_name@) {
                before.push(path@)
            } else {
                before
            },
            WalkItem::Failed { dir, err } => before,
        }
    }
}

/// The failures among the first `n` steps of a walk, each with its
/// directory and its cause.
pub open spec fn failures_among(walked: Seq<WalkItem>, n: int) -> Seq<(Seq<char>, Seq<char>)>
    decreases n,
{
    if n <= 0 || n > walked.len() {
        Seq::empty()
    } else {
        let before = failures_among(walked, n - 1);
        match walked[n - 1] {
            WalkItem::Found { file_name, path } => before,
            WalkItem::Failed { dir, err } => before.push((dir@, err@)),
        }
    }
}

/// Whether a scan error says that the walk failed in `dir` for the cause
/// `err`.
pub open spec fn is_walk_failure(e: ScanError, dir: Seq<char>, err: Seq<char>) -> bool {
    match e {
        ScanError::ScanDirectory { dir: d, err: c } => d@ == dir && c@ == err,
        _ => false,
    }
}

/// Whether the errors say what the failures were, one for one and in order.
pub open spec fn tell_failures(errors: Seq<ScanError>, failures: Seq<(Seq<char>, Seq<char>)>) -> bool {
    errors.len() == failures.len() && forall|i: int|
        0 <= i < errors.len() ==> is_walk_failure(
            #[trigger] errors[i],
            failures[i].0,
            failures[i].1,
        )
}

/// Sorts out what a walk through the search directories came to: the paths
/// of the files that count as desktop entries, in the order of the walk, and
/// an error for each place that could not be read.
pub fn desktop_entires(walked: Vec<WalkItem>) -> (r: (Vec<String>, Vec<ScanError>))
    ensures
        texts(r.0@) == entries_among(walked@, walked@.len() as int),
        tell_failures(r.1@, failures_among(walked@, walked@.len() as int)),
{
    let mut files: Vec<String> = Vec::new();
    let mut errors: Vec<ScanError> = Vec::new();
    let ghost all = walked@;
    proof {
        assert(texts(files@) =~= Seq::<Seq<char>>::empty());
    }
    for item in it: walked
        invariant
            it.seq() == all,
            texts(files@) == entries_among(all, it.index() as int),
            tell_failures(errors@, failures_among(all, it.index() as int)),
    {
        let ghost n = it.index() as int;
        assert(all[n] == item);
        match item {
            WalkItem::Found { file_name, path } => {
                if is_desktop_entry(file_name.as_str()) {
                    proof {
                        lemma_texts_push(files@, path);
                    }
                    files.push(path);
                }
            },
            WalkItem::Failed { dir, err } => {
                errors.push(ScanError::ScanDirectory { dir, err });
            },
        }
    }
    (files, errors)
}

/// A file that a walk found: its path, and its bytes or the reason why they
/// could not be read.
#[derive(Debug)]
pub struct EntryFile {
    pub path: String,
    pub content: Result<Vec<u8>, String>,
}

/// The records among the first `n` results of reading entries, in order.
pub open spec fn listed_among(results: Seq<Result<Option<App>, EntryParseError>>, n: int) -> Seq<
    AppView,
>
    decreases n,
{
    if n <= 0 || n > results.len() {
        Seq::empty()
    } else {
        match results[n - 1] {
            Ok(Some(app)) => listed_among(results, n - 1).push(app@),
            _ => listed_among(results, n - 1),
        }
    }
}

/// The errors among the first `n` results of reading entries, in order, each
/// as an error of the scan.
pub open spec fn errors_among(results: Seq<Result<Option<App>, EntryParseError>>, n: int) -> Seq<
    ScanError,
>
    decreases n,
{
    if n <= 0 || n > results.len() {
        Seq::empty()
    } else {
        match results[n - 1] {
            Err(err) => errors_among(results, n - 1).push(ScanError::ParseEntry { err }),
            _ => errors_among(results, n - 1),
        }
    }
}

/// Whether a scan came to what the results of reading its entries say: the
/// records in the order of applications, one for each application, and the
/// errors of the walk followed by those of the entries.
pub open spec fn gathers(
    out: (Vec<App>, Vec<ScanError>),
    results: Seq<Result<Option<App>, EntryParseError>>,
    errors: Seq<ScanError>,
) -> bool {
    &&& is_ordered_set_of(views(out.0@), listed_among(results, results.len() as int))
    &&& out.1@ == errors + errors_among(results, results.len() as int)
}

/// Puts together what a scan found: the records that the entries gave, in the
/// order of applications and one for each application, and after the errors
/// of the walk those of the entries.
pub fn gather(results: Vec<Result<Option<App>, EntryParseError>>, errors: Vec<ScanError>) -> (out:
    (Vec<App>, Vec<ScanError>))
    ensures
        gathers(out, results@, errors@),
{
    let mut apps: Vec<App> = Vec::new();
    let mut all_errors = errors;
    let ghost all = results@;
    proof {
        assert(views(apps@) =~= Seq::<AppView>::empty());
        assert(all_errors@ =~= errors@ + errors_among(all, 0));
    }
    for result in it: results
        invariant
            it.seq() == all,
            views(apps@) == listed_among(all, it.index() as int),
            all_errors@ == errors@ + errors_among(all, it.index() as int),
    {
        let ghost n = it.index() as int;
        assert(all[n] == result);
        match result {
            Ok(Some(app)) => {
                proof {
                    lemma_views_push(apps@, app);
                }
                apps.push(app);
            },
            Ok(None) => {},
            Err(err) => {
                proof {
                    assert((errors@ + errors_among(all, n)).push(ScanError::ParseEntry { err })
                        =~= errors@ + errors_among(all, n + 1));
                }
                all_errors.push(ScanError::ParseEntry { err });
            },
        }
    }
    (sort_dedup(apps), all_errors)
}

/// Whether `r` is what reading the file comes to: the record that its bytes
/// describe, or an error that names its path.
pub open spec fn reads(file: EntryFile, r: Result<Option<App>, EntryParseError>) -> bool {
    match file.content {
        Ok(bytes) => file_outcome(r, file.path@, parsed_sections(bytes@)),
        Err(_) => r matches Err(e) && is_invalid_file(e, file.path@),
    }
}

/// Reads a file that the walk found.
fn read_entry(file: EntryFile) -> (r: Result<Option<App>, EntryParseError>)
    ensures
        reads(file, r),
{
    match file.content {
        Ok(bytes) => parse_desktop_file(file.path.as_str(), bytes),
        Err(err) => Err(EntryParseError::InvalidDesktopFile { file_path: file.path, err }),
    }
}

/// Makes the list of applications from the files that a walk found.
///
/// `errors` are the errors of the walk. Each file is read as a desktop entry.
/// The records come back in the order of applications, one for each
/// application; the errors of the walk come back followed by an error for
/// each file that is no entry of an application.
pub fn scan_desktop_entries(files: Vec<EntryFile>, errors: Vec<ScanError>) -> (out: (
    Vec<App>,
    Vec<ScanError>,
))
    ensures
        exists|results: Seq<Result<Option<App>, EntryParseError>>|
            results.len() == files@.len() && (forall|i: int|
                0 <= i < files@.len() ==> reads(files@[i], #[trigger] results[i])) && gathers(
                out,
                results,
                errors@,
            ),
{
    let mut results: Vec<Result<Option<App>, EntryParseError>> = Vec::new();
    let ghost all = files@;
    for file in it: files
        invariant
            it.seq() == all,
            results@.len() == it.index(),
            forall|i: int| 0 <= i < it.index() ==> reads(all[i], #[trigger] results@[i]),
    {
        assert(all[it.index() as int] == file);
        let r = read_entry(file);
        results.push(r);
    }
    let ghost outcomes = results@;
    let out = gather(results, errors);
    proof {
        assert(gathers(out, outcomes, errors@));
    }
    out
}

} // verus!
