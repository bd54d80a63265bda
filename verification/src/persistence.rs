//! Storing the registry: the steps that a save and a load take, and the
//! error that a failed step means. The steps themselves are taken outside
//! this library.
use vstd::prelude::*;

verus! {

/// Why the registry could not be stored or loaded. Each names the path that
/// it is about and gives the reason as text.
#[derive(Debug)]
#[allow(inconsistent_fields)]
pub enum AppDBError {
    /// The file could not be opened and locked.
    FileOpen { file_path: String, err: String },
    /// The file could not be created.
    FileCreate { file_path: String, err: String },
    /// The directory of the file could not be created.
    DirCreate { dir_path: String, err: String },
    /// The file could not be written.
    FileWrite { file_path: String, err: String },
    /// What the file holds is no registry.
    ParseDB { file_path: String, err: String },
}

/// A step of storing or loading the registry.
#[derive(Clone, Copy, Debug, PartialEq, Eq, Structural)]
pub enum IoStep {
    /// Create the directory that holds the file.
    CreateDir,
    /// Open the file and take the lock that shuts all others out.
    LockExclusive,
    /// Open the file and take the lock that readers share.
    LockShared,
    /// Create the file.
    CreateFile,
    /// Cut the file down to nothing, so that nothing of what it held stays
    /// behind what is written next.
    Truncate,
    /// Write the whole registry over what the file holds.
    WriteAll,
    /// Read the file and decode the registry.
    Decode,
    /// Give the lock back.
    Unlock,
}

/// The steps of a save.
///
/// The directory is created where it is missing. A file that is there is
/// locked for the whole of the write and emptied first, so that it holds
/// the new content and nothing else; one that is not is created and written.
pub open spec fn save_steps(dir_exists: bool, file_exists: bool) -> Seq<IoStep> {
    (if dir_exists {
        Seq::empty()
    } else {
        seq![IoStep::CreateDir]
    }) + (if file_exists {
        seq![IoStep::LockExclusive, IoStep::Truncate, IoStep::WriteAll, IoStep::Unlock]
    } else {
        seq![IoStep::CreateFile, IoStep::WriteAll]
    })
}

/// The steps of a load: the file is read under the shared lock.
pub open spec fn load_steps() -> Seq<IoStep> {
    seq![IoStep::LockShared, IoStep::Decode, IoStep::Unlock]
}

/// Plans a save, given whether the directory and the file are there.
pub fn save_plan(dir_exists: bool, file_exists: bool) -> (steps: Vec<IoStep>)
    ensures
        steps@ == save_steps(dir_exists, file_exists),
{
    let mut steps: Vec<IoStep> = Vec::new();
    if !dir_exists {
        steps.push(IoStep::CreateDir);
    }
    if file_exists {
        steps.push(IoStep::LockExclusive);
        steps.push(IoStep::Truncate);
        steps.push(IoStep::WriteAll);
        steps.push(IoStep::Unlock);
    } else {
        steps.push(IoStep::CreateFile);
        steps.push(IoStep::WriteAll);
    }
    proof {
        assert(steps@ =~= save_steps(dir_exists, file_exists));
    }
    steps
}

/// Plans a load.
pub fn load_plan() -> (steps: Vec<IoStep>)
    ensures
        steps@ == load_steps(),
{
    let mut steps: Vec<IoStep> = Vec::new();
    steps.push(IoStep::LockShared);
    steps.push(IoStep::Decode);
    steps.push(IoStep::Unlock);
    proof {
        assert(steps@ =~= load_steps());
    }
    steps
}

/// What an error says: its kind, the path that it names and the reason.
pub enum AppDBErrorView {
    FileOpen { file_path: Seq<char>, err: Seq<char> },
    FileCreate { file_path: Seq<char>, err: Seq<char> },
    DirCreate { dir_path: Seq<char>, err: Seq<char> },
    FileWrite { file_path: Seq<char>, err: Seq<char> },
    ParseDB { file_path: Seq<char>, err: Seq<char> },
}

impl View for AppDBError {
    type V = AppDBErrorView;

    open spec fn view(&self) -> AppDBErrorView {
        match self {
            AppDBError::FileOpen { file_path, err } => AppDBErrorView::FileOpen {
                file_path: file_path@,
                err: err@,
            },
            AppDBError::FileCreate { file_path, err } => AppDBErrorView::FileCreate {
                file_path: file_path@,
                err: err@,
            },
            AppDBError::DirCreate { dir_path, err } => AppDBErrorView::DirCreate {
                dir_path: dir_path@,
                err: err@,
            },
            AppDBError::FileWrite { file_path, err } => AppDBErrorView::FileWrite {
                file_path: file_path@,
                err: err@,
            },
            AppDBError::ParseDB { file_path, err } => AppDBErrorView::ParseDB {
                file_path: file_path@,
                err: err@,
            },
        }
    }
}

/// The error that the failure of a step means. Emptying the file is part of
/// writing it. Giving a lock back does not fail; were it to, it would count
/// as a failure to hold the file open.
pub open spec fn failure_of(
    step: IoStep,
    dir_path: Seq<char>,
    file_path: Seq<char>,
    err: Seq<char>,
) -> AppDBErrorView {
    match step {
        IoStep::CreateDir => AppDBErrorView::DirCreate { dir_path, err },
        IoStep::LockExclusive => AppDBErrorView::FileOpen { file_path, err },
        IoStep::LockShared => AppDBErrorView::FileOpen { file_path, err },
        IoStep::CreateFile => AppDBErrorView::FileCreate { file_path, err },
        IoStep::Truncate => AppDBErrorView::FileWrite { file_path, err },
        IoStep::WriteAll => AppDBErrorView::FileWrite { file_path, err },
        IoStep::Decode => AppDBErrorView::ParseDB { file_path, err },
        IoStep::Unlock => AppDBErrorView::FileOpen { file_path, err },
    }
}

/// Makes the error that the failure of a step means, for the registry file
/// at `file_path` in the directory `dir_path`.
pub fn step_failed(step: IoStep, dir_path: &str, file_path: &str, err: String) -> (e: AppDBError)
    ensures
        e@ == failure_of(step, dir_path@, file_path@, err@),
{
    match step {
        IoStep::CreateDir => AppDBError::DirCreate { dir_path: dir_path.to_owned(), err },
        IoStep::LockExclusive => AppDBError::FileOpen { file_path: file_path.to_owned(), err },
        IoStep::LockShared => AppDBError::FileOpen { file_path: file_path.to_owned(), err },
        IoStep::CreateFile => AppDBError::FileCreate { file_path: file_path.to_owned(), err },
        IoStep::Truncate => AppDBError::FileWrite { file_path: file_path.to_owned(), err },
        IoStep::WriteAll => AppDBError::FileWrite { file_path: file_path.to_owned(), err },
        IoStep::Decode => AppDBError::ParseDB { file_path: file_path.to_owned(), err },
        IoStep::Unlock => AppDBError::FileOpen { file_path: file_path.to_owned(), err },
    }
}

} // verus!
