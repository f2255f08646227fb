//! Why a run fails.

use vstd::prelude::*;

verus! {

/// The failures that end a run. Cache trouble is not among them: a cache
/// that cannot be read or written is a cache that holds nothing.
pub enum ExecError {
    /// A token names neither a hook nor a variable; holds the name.
    UnresolvedToken(String),
    /// A hook names no request of the definitions; holds what it names.
    MacroNotFound(String),
    /// The result of a macro is no JSON, and the token has a path; holds
    /// the token.
    JsonParseFailure(String),
    /// A segment of the path names no member; holds the token.
    JsonPathNotFound(String),
    /// A hook is not well formed; holds its invocation.
    InvalidDefinition(String),
    /// The file or the download of a multipart part could not be had; holds
    /// the cause.
    MultipartSourceError(String),
    /// The request could not be sent or answered; holds the cause.
    TransportError(String),
    /// A request is run by a hook while it is itself being resolved; holds
    /// its name.
    CycleDetected(String),
    /// A template could not be scanned: the token pattern was refused, or a
    /// match was reported that does not stand in the template.
    ScannerFailure,
    /// An event came that the run was not waiting for.
    UnexpectedEvent,
}

/// What an `ExecError` holds, as characters.
pub enum ErrorView {
    UnresolvedToken(Seq<char>),
    MacroNotFound(Seq<char>),
    JsonParseFailure(Seq<char>),
    JsonPathNotFound(Seq<char>),
    InvalidDefinition(Seq<char>),
    MultipartSourceError(Seq<char>),
    TransportError(Seq<char>),
    CycleDetected(Seq<char>),
    ScannerFailure,
    UnexpectedEvent,
}

impl View for ExecError {
    type V = ErrorView;

    open spec fn view(&self) -> ErrorView {
        match self {
            ExecError::UnresolvedToken(s) => ErrorView::UnresolvedToken(s@),
            ExecError::MacroNotFound(s) => ErrorView::MacroNotFound(s@),
            ExecError::JsonParseFailure(s) => ErrorView::JsonParseFailure(s@),
            ExecError::JsonPathNotFound(s) => ErrorView::JsonPathNotFound(s@),
            ExecError::InvalidDefinition(s) => ErrorView::InvalidDefinition(s@),
            ExecError::MultipartSourceError(s) => ErrorView::MultipartSourceError(s@),
            ExecError::TransportError(s) => ErrorView::TransportError(s@),
            ExecError::CycleDetected(s) => ErrorView::CycleDetected(s@),
            ExecError::ScannerFailure => ErrorView::ScannerFailure,
            ExecError::UnexpectedEvent => ErrorView::UnexpectedEvent,
        }
    }
}

impl ErrorView {
    /// What the failure reads to a user: what went wrong, and the token,
    /// name, line or cause that it went wrong with.
    pub open spec fn message(self) -> Seq<char> {
        match self {
            ErrorView::UnresolvedToken(s) => "variable or hook not found: "@ + s,
            ErrorView::MacroNotFound(s) => "macro names no request: "@ + s,
            ErrorView::JsonParseFailure(s) => "result of the macro is not JSON: "@ + s,
            ErrorView::JsonPathNotFound(s) => "macro path not found: "@ + s,
            ErrorView::InvalidDefinition(s) => "invalid definition: "@ + s,
            ErrorView::MultipartSourceError(s) => "multipart source failed: "@ + s,
            ErrorView::TransportError(s) => "request failed: "@ + s,
            ErrorView::CycleDetected(s) => "hooks run in a cycle through request: "@ + s,
            ErrorView::ScannerFailure => "the token pattern was refused"@,
            ErrorView::UnexpectedEvent => "unexpected event"@,
        }
    }
}

impl ExecError {
    /// What the failure reads to a user.
    pub fn message(&self) -> (r: String)
        ensures
            r@ == self@.message(),
    {
        match self {
            ExecError::UnresolvedToken(s) => "variable or hook not found: ".to_owned().concat(
                s.as_str(),
            ),
            ExecError::MacroNotFound(s) => "macro names no request: ".to_owned().concat(
                s.as_str(),
            ),
            ExecError::JsonParseFailure(s) => "result of the macro is not JSON: ".to_owned().concat(
                s.as_str(),
            ),
            ExecError::JsonPathNotFound(s) => "macro path not found: ".to_owned().concat(
                s.as_str(),
            ),
            ExecError::InvalidDefinition(s) => "invalid definition: ".to_owned().concat(s.as_str()),
            ExecError::MultipartSourceError(s) => "multipart source failed: ".to_owned().concat(
                s.as_str(),
            ),
            ExecError::TransportError(s) => "request failed: ".to_owned().concat(s.as_str()),
            ExecError::CycleDetected(s) => "hooks run in a cycle through request: ".to_owned().concat(
                s.as_str(),
            ),
            ExecError::ScannerFailure => "the token pattern was refused".to_owned(),
            ExecError::UnexpectedEvent => "unexpected event".to_owned(),
        }
    }
}

} // verus!
