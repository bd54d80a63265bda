//! The error of making a pool of shared memory.
use vstd::prelude::*;
use nix::errno::Errno;

verus! {

/// Why a pool of shared memory could not be made.
#[derive(Debug)]
pub enum CreatePoolError {
    /// The global that hands out shared memory is not bound.
    MissingShmGlobal,
    /// The object that stands for the pool could not be made; the text is
    /// the protocol's error.
    Protocol(String),
    /// The shared memory could not be allocated; the text is the system's
    /// error.
    Create(String),
}

/// What an error says, as plain values.
pub enum CreatePoolErrorView {
    MissingShmGlobal,
    Protocol(Seq<char>),
    Create(Seq<char>),
}

impl View for CreatePoolError {
    type V = CreatePoolErrorView;

    open spec fn view(&self) -> CreatePoolErrorView {
        match self {
            CreatePoolError::MissingShmGlobal => CreatePoolErrorView::MissingShmGlobal,
            CreatePoolError::Protocol(text) => CreatePoolErrorView::Protocol(text@),
            CreatePoolError::Create(text) => CreatePoolErrorView::Create(text@),
        }
    }
}

/// The text that describes an error: that of the error beneath it, where
/// there is one.
pub open spec fn pool_error_text(e: CreatePoolErrorView) -> Seq<char> {
    match e {
        CreatePoolErrorView::MissingShmGlobal => "wl_shm global is not bound"@,
        CreatePoolErrorView::Protocol(text) => text,
        CreatePoolErrorView::Create(text) => text,
    }
}

/// An error number of the system, as `nix` holds it.
#[verifier::external_type_specification]
#[verifier::external_body]
pub struct ExErrno(Errno);

/// The text of a system error: `nix` turns the error number into a
/// `std::io::Error`, whose `Display` writes it. Nothing is claimed of the
/// text, which the system words.
#[verifier::external_body]
fn errno_text(errno: Errno) -> (text: String) {
    std::io::Error::from(errno).to_string()
}

impl CreatePoolError {
    /// The text that describes the error.
    pub fn to_string(&self) -> (s: String)
        ensures
            s@ == pool_error_text(self@),
    {
        match self {
            CreatePoolError::MissingShmGlobal => "wl_shm global is not bound".to_owned(),
            CreatePoolError::Protocol(text) => text.clone(),
            CreatePoolError::Create(text) => text.clone(),
        }
    }
}

impl From<Errno> for CreatePoolError {
    /// A system error that came up while the shared memory was allocated.
    fn from(errno: Errno) -> (e: Self)
        ensures
            e is Create,
    {
        CreatePoolError::Create(errno_text(errno))
    }
}

impl vstd::std_specs::convert::FromSpecImpl<Errno> for CreatePoolError {
    open spec fn obeys_from_spec() -> bool {
        false
    }

    open spec fn from_spec(errno: Errno) -> Self {
        arbitrary()
    }
}

} // verus!
