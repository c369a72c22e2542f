use vstd::prelude::*;
use vstd::string::StringExecFns;

pub mod generation;
pub mod misc;

verus! {

/// What can go wrong in talking to the backend.
#[derive(Debug)]
pub enum OllamaError {
    /// The connection failed; the text describes how.
    NetworkError(String),
    /// An address could not be formed; the text describes why.
    UrlError(String),
    /// Anything else, described by its text.
    Other(String),
}

/// Mathematical value of an [`OllamaError`].
pub enum OllamaErrorView {
    NetworkError(Seq<char>),
    UrlError(Seq<char>),
    Other(Seq<char>),
}

impl View for OllamaError {
    type V = OllamaErrorView;

    open spec fn view(&self) -> OllamaErrorView {
        match self {
            OllamaError::NetworkError(detail) => OllamaErrorView::NetworkError(detail@),
            OllamaError::UrlError(detail) => OllamaErrorView::UrlError(detail@),
            OllamaError::Other(text) => OllamaErrorView::Other(text@),
        }
    }
}

impl Clone for OllamaError {
    fn clone(&self) -> (r: Self)
        ensures
            r@ == self@,
    {
        match self {
            OllamaError::NetworkError(detail) => OllamaError::NetworkError(detail.clone()),
            OllamaError::UrlError(detail) => OllamaError::UrlError(detail.clone()),
            OllamaError::Other(text) => OllamaError::Other(text.clone()),
        }
    }
}

impl OllamaErrorView {
    /// The line that an error shows to a reader.
    pub open spec fn message(self) -> Seq<char> {
        match self {
            OllamaErrorView::NetworkError(_) => "Network Error"@,
            OllamaErrorView::UrlError(_) => "URL Error"@,
            OllamaErrorView::Other(text) => text,
        }
    }

    /// The error for a response that the backend answered with a status other
    /// than success.
    pub open spec fn rejected(status: Seq<char>, body: Seq<char>) -> OllamaErrorView {
        OllamaErrorView::Other("Error "@ + status + ":\n"@ + body)
    }

    /// The error for a response body that broke off while it was read.
    pub open spec fn stream_failure(detail: Seq<char>) -> OllamaErrorView {
        OllamaErrorView::Other("Failed to parse response: "@ + detail)
    }

    /// The error for a history that can no longer be locked.
    pub open spec fn history_poisoned(detail: Seq<char>) -> OllamaErrorView {
        OllamaErrorView::Other("History lock poisoned: "@ + detail)
    }
}

impl OllamaError {
    /// The line that this error shows to a reader.
    pub fn message(&self) -> (r: String)
        ensures
            r@ == self@.message(),
    {
        match self {
            OllamaError::NetworkError(_) => "Network Error".to_owned(),
            OllamaError::UrlError(_) => "URL Error".to_owned(),
            OllamaError::Other(text) => text.clone(),
        }
    }

    /// The error for a response that the backend answered with `status`, a
    /// status other than success, and with `body`.
    pub fn rejected(status: &str, body: &str) -> (r: Self)
        ensures
            r@ == OllamaErrorView::rejected(status@, body@),
    {
        let mut text = "Error ".to_owned();
        text.append(status);
        text.append(":\n");
        text.append(body);
        OllamaError::Other(text)
    }

    /// The error for a response body that broke off while it was read.
    pub fn stream_failure(detail: &str) -> (r: Self)
        ensures
            r@ == OllamaErrorView::stream_failure(detail@),
    {
        let mut text = "Failed to parse response: ".to_owned();
        text.append(detail);
        OllamaError::Other(text)
    }

    /// The error for a history whose lock a failed holder left unusable.
    pub fn history_poisoned(detail: &str) -> (r: Self)
        ensures
            r@ == OllamaErrorView::history_poisoned(detail@),
    {
        let mut text = "History lock poisoned: ".to_owned();
        text.append(detail);
        OllamaError::Other(text)
    }
}

} // verus!
