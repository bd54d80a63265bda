//! The error of an extractor that reads a page.
use vstd::prelude::*;

verus! {

/// Why reading a page failed.
#[derive(Debug)]
pub enum ParsingError {
    /// The page could not be understood; `cause` says why.
    ParsingError { cause: String },
    /// The page is restricted by age.
    AgeRestricted,
    /// The page could not be fetched; `cause` says why.
    DownloadError { cause: String },
}

/// What an error says, as plain values.
pub enum ParsingErrorView {
    ParsingError { cause: Seq<char> },
    AgeRestricted,
    DownloadError { cause: Seq<char> },
}

impl View for ParsingError {
    type V = ParsingErrorView;

    open spec fn view(&self) -> ParsingErrorView {
        match self {
            ParsingError::ParsingError { cause } => ParsingErrorView::ParsingError {
                cause: cause@,
            },
            ParsingError::AgeRestricted => ParsingErrorView::AgeRestricted,
            ParsingError::DownloadError { cause } => ParsingErrorView::DownloadError {
                cause: cause@,
            },
        }
    }
}

impl ParsingError {
    /// The error of a page that could not be understood, with its cause.
    pub fn parsing_error_from_str(cause: &str) -> (e: Self)
        ensures
            e@ == (ParsingErrorView::ParsingError { cause: cause@ }),
    {
        ParsingError::ParsingError { cause: cause.to_owned() }
    }

    /// The text that describes the error.
    pub fn to_string(&self) -> (s: String)
        ensures
            s@ == describe(self@),
    {
        match self {
            ParsingError::ParsingError { cause } => {
                let mut s = "Parsing Error : ".to_owned();
                s.append(cause.as_str());
                s
            },
            ParsingError::AgeRestricted => "Age restricted video not supported".to_owned(),
            ParsingError::DownloadError { cause } => {
                let mut s = "Download Error : ".to_owned();
                s.append(cause.as_str());
                s
            },
        }
    }
}

/// The text that describes an error.
pub open spec fn describe(e: ParsingErrorView) -> Seq<char> {
    match e {
        ParsingErrorView::ParsingError { cause } => "Parsing Error : "@ + cause,
        ParsingErrorView::AgeRestricted => "Age restricted video not supported"@,
        ParsingErrorView::DownloadError { cause } => "Download Error : "@ + cause,
    }
}

impl Clone for ParsingError {
    fn clone(&self) -> (r: Self)
        ensures
            r@ == self@,
    {
        match self {
            ParsingError::ParsingError { cause } => ParsingError::ParsingError {
                cause: cause.clone(),
            },
            ParsingError::AgeRestricted => ParsingError::AgeRestricted,
            ParsingError::DownloadError { cause } => ParsingError::DownloadError {
                cause: cause.clone(),
            },
        }
    }
}

impl From<&str> for ParsingError {
    fn from(cause: &str) -> (e: Self)
        ensures
            e@ == (ParsingErrorView::ParsingError { cause: cause@ }),
    {
        ParsingError::parsing_error_from_str(cause)
    }
}

impl vstd::std_specs::convert::FromSpecImpl<&str> for ParsingError {
    open spec fn obeys_from_spec() -> bool {
        false
    }

    open spec fn from_spec(cause: &str) -> Self {
        arbitrary()
    }
}

impl From<String> for ParsingError {
    fn from(cause: String) -> (e: Self) {
        ParsingError::ParsingError { cause }
    }
}

impl vstd::std_specs::convert::FromSpecImpl<String> for ParsingError {
    open spec fn obeys_from_spec() -> bool {
        true
    }

    open spec fn from_spec(cause: String) -> Self {
        ParsingError::ParsingError { cause }
    }
}

} // verus!
