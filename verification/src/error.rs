//! The errors that end a request.

use vstd::prelude::*;

verus! {

/// What went wrong.
#[derive(Clone, Copy, Debug, PartialEq, Eq, Structural)]
pub enum Kind {
    /// The caller supplied something that no request or part can be built from.
    Builder,
    /// A chunk of a body could not be produced.
    Body,
    /// More redirects were followed than the policy allows.
    TooManyRedirects,
    /// A redirect led back to a URL that was already visited.
    LoopDetected,
    /// The transport failed; its own account is passed on unchanged.
    Transport,
}

/// An error, with the URL it concerns where there is one and the cause in words.
#[derive(Debug, PartialEq, Eq)]
pub struct Error {
    pub kind: Kind,
    pub url: Option<String>,
    pub cause: String,
}

/// An error as plain data.
pub struct ErrorView {
    pub kind: Kind,
    pub url: Option<Seq<char>>,
    pub cause: Seq<char>,
}

impl View for Error {
    type V = ErrorView;

    open spec fn view(&self) -> ErrorView {
        ErrorView {
            kind: self.kind,
            url: match self.url {
                Some(url) => Some(url@),
                None => None,
            },
            cause: self.cause@,
        }
    }
}

impl Error {
    /// An error of the given kind that concerns no URL.
    pub fn new(kind: Kind, cause: String) -> (error: Error)
        ensures
            error@ == (ErrorView { kind, url: None, cause: cause@ }),
    {
        Error { kind, url: None, cause }
    }

    /// An error of a redirect kind, carrying the URL at which following stopped.
    pub fn redirect(kind: Kind, url: String) -> (error: Error)
        ensures
            error@ == (ErrorView { kind, url: Some(url@), cause: Seq::<char>::empty() }),
    {
        Error { kind, url: Some(url), cause: String::new() }
    }

    /// A copy of this error.
    pub fn duplicate(&self) -> (copy: Error)
        ensures
            copy@ == self@,
    {
        let url = match &self.url {
            Some(url) => Some(url.clone()),
            None => None,
        };
        Error { kind: self.kind, url, cause: self.cause.clone() }
    }

    /// The kind of this error.
    pub fn kind(&self) -> (kind: Kind)
        ensures
            kind == self@.kind,
    {
        self.kind
    }

    /// Whether this error came from reading a body.
    pub fn is_body(&self) -> (yes: bool)
        ensures
            yes == (self@.kind == Kind::Body),
    {
        matches!(self.kind, Kind::Body)
    }

    /// Whether this error ended the following of redirects.
    pub fn is_redirect(&self) -> (yes: bool)
        ensures
            yes == (self@.kind == Kind::TooManyRedirects || self@.kind == Kind::LoopDetected),
    {
        matches!(self.kind, Kind::TooManyRedirects | Kind::LoopDetected)
    }
}

} // verus!
