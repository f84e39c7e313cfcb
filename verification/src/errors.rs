//! The failures that listing and selecting can end in.

use vstd::prelude::*;
use vstd::string::*;

verus! {

/// What went wrong, as a caller may want to tell it apart.
#[derive(Clone, Copy, Debug, PartialEq, Eq, Structural)]
pub enum ErrorKind {
    /// A fetch did not succeed, or its answer was not what was asked for.
    Transport,
    /// The pages ran out before the target was seen.
    PaginationExhausted,
    /// A link header was there but gave no usable next page.
    MalformedLink,
    /// The target has no usable merge time.
    MissingBoundary,
    /// No credential was given.
    CredentialMissing,
}

/// A diagnostic about a response or a record.
#[derive(Debug)]
pub struct JsonError {
    error: String,
}

impl View for JsonError {
    type V = Seq<char>;

    closed spec fn view(&self) -> Seq<char> {
        self.error@
    }
}

impl JsonError {
    pub fn new(err: String) -> (res: JsonError)
        ensures
            res@ == err@,
    {
        JsonError { error: err }
    }

    /// The diagnostic's text.
    pub fn description(&self) -> (res: &str)
        ensures
            res@ == self@,
    {
        self.error.as_str()
    }
}

/// A diagnostic about the link to the next page.
#[derive(Debug)]
pub struct LinkError {
    error: String,
}

impl View for LinkError {
    type V = Seq<char>;

    closed spec fn view(&self) -> Seq<char> {
        self.error@
    }
}

impl LinkError {
    pub fn new(err: String) -> (res: LinkError)
        ensures
            res@ == err@,
    {
        LinkError { error: err }
    }

    /// The diagnostic's text.
    pub fn description(&self) -> (res: &str)
        ensures
            res@ == self@,
    {
        self.error.as_str()
    }
}

/// A failure of the library: its kind, and the diagnostic it carries.
#[derive(Debug)]
#[allow(inconsistent_fields)]
pub enum PullsError {
    /// A fetch did not succeed, or its answer was not what was asked for.
    Transport { error: JsonError },
    /// No next page was left before the target was seen.
    PaginationExhausted { error: LinkError },
    /// A link header was there but gave no usable next page.
    MalformedLink { error: LinkError },
    /// The target has no usable merge time.
    MissingBoundary { error: JsonError },
    /// No credential was given.
    CredentialMissing { error: String },
}

/// A failure as contracts speak of it: its kind and the text of its diagnostic.
pub struct PullsErrorView {
    pub kind: ErrorKind,
    pub description: Seq<char>,
}

impl View for PullsError {
    type V = PullsErrorView;

    open spec fn view(&self) -> PullsErrorView {
        match self {
            PullsError::Transport { error } => PullsErrorView {
                kind: ErrorKind::Transport,
                description: error@,
            },
            PullsError::PaginationExhausted { error } => PullsErrorView {
                kind: ErrorKind::PaginationExhausted,
                description: error@,
            },
            PullsError::MalformedLink { error } => PullsErrorView {
                kind: ErrorKind::MalformedLink,
                description: error@,
            },
            PullsError::MissingBoundary { error } => PullsErrorView {
                kind: ErrorKind::MissingBoundary,
                description: error@,
            },
            PullsError::CredentialMissing { error } => PullsErrorView {
                kind: ErrorKind::CredentialMissing,
                description: error@,
            },
        }
    }
}

/// The failure of kind `kind` that carries the diagnostic `description`.
pub open spec fn failure(kind: ErrorKind, description: Seq<char>) -> PullsErrorView {
    PullsErrorView { kind, description }
}

/// The words that `message` puts before the diagnostic of a failure of this kind.
pub open spec fn prefix(kind: ErrorKind) -> Seq<char> {
    match kind {
        ErrorKind::Transport => "Json error: "@,
        ErrorKind::PaginationExhausted => "Link error: "@,
        ErrorKind::MalformedLink => "Link error: "@,
        ErrorKind::MissingBoundary => "Json error: "@,
        ErrorKind::CredentialMissing => "Env error: "@,
    }
}

impl PullsError {
    /// The kind of this failure.
    pub fn kind(&self) -> (res: ErrorKind)
        ensures
            res == self@.kind,
    {
        match self {
            PullsError::Transport { .. } => ErrorKind::Transport,
            PullsError::PaginationExhausted { .. } => ErrorKind::PaginationExhausted,
            PullsError::MalformedLink { .. } => ErrorKind::MalformedLink,
            PullsError::MissingBoundary { .. } => ErrorKind::MissingBoundary,
            PullsError::CredentialMissing { .. } => ErrorKind::CredentialMissing,
        }
    }

    /// The text of the diagnostic that this failure carries.
    pub fn description(&self) -> (res: &str)
        ensures
            res@ == self@.description,
    {
        match self {
            PullsError::Transport { error } => error.description(),
            PullsError::PaginationExhausted { error } => error.description(),
            PullsError::MalformedLink { error } => error.description(),
            PullsError::MissingBoundary { error } => error.description(),
            PullsError::CredentialMissing { error } => error.as_str(),
        }
    }

    /// The failure in one line: where it arose, then its diagnostic.
    pub fn message(&self) -> (res: String)
        ensures
            res@ == prefix(self@.kind) + self@.description,
    {
        let head: &str = match self {
            PullsError::Transport { .. } => "Json error: ",
            PullsError::PaginationExhausted { .. } => "Link error: ",
            PullsError::MalformedLink { .. } => "Link error: ",
            PullsError::MissingBoundary { .. } => "Json error: ",
            PullsError::CredentialMissing { .. } => "Env error: ",
        };
        let mut out: String = String::from_str(head);
        out.append(self.description());
        out
    }
}

} // verus!
