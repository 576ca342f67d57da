//! What can go wrong, and how it is told.
use vstd::prelude::*;

use crate::text::concat;

verus! {

/// An error: where it arose, and the text that says what happened.
#[derive(Debug)]
pub enum AppError {
    Network(String),
    Io(String),
    Json(String),
    Zip(String),
    Other(String),
}

/// An error by the characters of its text.
#[verifier::ext_equal]
pub enum ErrorView {
    Network(Seq<char>),
    Io(Seq<char>),
    Json(Seq<char>),
    Zip(Seq<char>),
    Other(Seq<char>),
}

impl View for AppError {
    type V = ErrorView;

    open spec fn view(&self) -> ErrorView {
        match *self {
            AppError::Network(e) => ErrorView::Network(e@),
            AppError::Io(e) => ErrorView::Io(e@),
            AppError::Json(e) => ErrorView::Json(e@),
            AppError::Zip(e) => ErrorView::Zip(e@),
            AppError::Other(e) => ErrorView::Other(e@),
        }
    }
}

impl ErrorView {
    /// The message that tells the error.
    pub open spec fn message(self) -> Seq<char> {
        match self {
            ErrorView::Network(e) => "Network error: "@ + e,
            ErrorView::Io(e) => "File I/O error: "@ + e,
            ErrorView::Json(e) => "JSON parse error: "@ + e,
            ErrorView::Zip(e) => "ZIP extraction error: "@ + e,
            ErrorView::Other(e) => "Other error: "@ + e,
        }
    }
}

impl AppError {
    /// The message that tells the error.
    pub fn message(&self) -> (r: String)
        ensures
            r@ == self@.message(),
    {
        match self {
            AppError::Network(e) => concat("Network error: ", e.as_str()),
            AppError::Io(e) => concat("File I/O error: ", e.as_str()),
            AppError::Json(e) => concat("JSON parse error: ", e.as_str()),
            AppError::Zip(e) => concat("ZIP extraction error: ", e.as_str()),
            AppError::Other(e) => concat("Other error: ", e.as_str()),
        }
    }

    /// An error that is neither the network's, a file's nor a format's:
    /// `what`, and then `detail`.
    pub fn other(what: &str, detail: &str) -> (r: AppError)
        ensures
            r@ == ErrorView::Other(what@ + detail@),
    {
        AppError::Other(concat(what, detail))
    }
}

/// The message of an error is what kind of error it is, and then all of its text.
pub proof fn law_message_tells_the_text(text: Seq<char>)
    ensures
        ErrorView::Network(text).message() == "Network error: "@ + text,
        ErrorView::Io(text).message() == "File I/O error: "@ + text,
        ErrorView::Json(text).message() == "JSON parse error: "@ + text,
        ErrorView::Zip(text).message() == "ZIP extraction error: "@ + text,
        ErrorView::Other(text).message() == "Other error: "@ + text,
{
}

/// What is said of an error's characters is said of all of its text.
pub proof fn law_error_is_seen_whole(text: String)
    ensures
        AppError::Network(text)@ == ErrorView::Network(text@),
        AppError::Io(text)@ == ErrorView::Io(text@),
        AppError::Json(text)@ == ErrorView::Json(text@),
        AppError::Zip(text)@ == ErrorView::Zip(text@),
        AppError::Other(text)@ == ErrorView::Other(text@),
{
}

} // verus!
