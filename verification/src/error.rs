//! The ways in which a command can fail.

use vstd::prelude::*;

verus! {

/// Why a command did not succeed.
#[derive(Debug, PartialEq, Eq)]
pub enum AuthorError {
    /// No directory from the working directory upwards holds a repository
    /// marker or an authors file.
    NotInRepo,
    /// The first argument names no command.
    UnknownCommand(String),
    /// `add` was given no identifier.
    MissingLogins,
    /// The operator's selection could not be obtained; the text says why.
    Inquire(String),
    /// The authors file could not be read or written; the text says why.
    Io(String),
    /// The list of authors is empty. A caller may treat this as a notice
    /// rather than a failure.
    NoAuthors,
}

/// An [`AuthorError`] with its texts as sequences of characters.
pub enum AuthorErrorView {
    NotInRepo,
    UnknownCommand(Seq<char>),
    MissingLogins,
    Inquire(Seq<char>),
    Io(Seq<char>),
    NoAuthors,
}

impl View for AuthorError {
    type V = AuthorErrorView;

    open spec fn view(&self) -> AuthorErrorView {
        match self {
            AuthorError::NotInRepo => AuthorErrorView::NotInRepo,
            AuthorError::UnknownCommand(name) => AuthorErrorView::UnknownCommand(name@),
            AuthorError::MissingLogins => AuthorErrorView::MissingLogins,
            AuthorError::Inquire(reason) => AuthorErrorView::Inquire(reason@),
            AuthorError::Io(reason) => AuthorErrorView::Io(reason@),
            AuthorError::NoAuthors => AuthorErrorView::NoAuthors,
        }
    }
}

impl AuthorErrorView {
    /// The one-line message shown to the operator.
    pub open spec fn message(self) -> Seq<char> {
        match self {
            AuthorErrorView::NotInRepo => "Not inside a git repository"@,
            AuthorErrorView::UnknownCommand(name) => "Unknown command: "@ + name,
            AuthorErrorView::MissingLogins => "add requires at least one login"@,
            AuthorErrorView::Inquire(reason) => reason,
            AuthorErrorView::Io(reason) => reason,
            AuthorErrorView::NoAuthors => "No authors in list"@,
        }
    }
}

/// A text or the reason why there is none, as sequences of characters.
pub open spec fn text_view(outcome: Result<String, AuthorError>) -> Result<
    Seq<char>,
    AuthorErrorView,
> {
    match outcome {
        Ok(text) => Ok(text@),
        Err(error) => Err(error@),
    }
}

/// Success or the reason for failure, as sequences of characters.
pub open spec fn unit_view(outcome: Result<(), AuthorError>) -> Result<(), AuthorErrorView> {
    match outcome {
        Ok(()) => Ok(()),
        Err(error) => Err(error@),
    }
}

impl AuthorError {
    /// The one-line message shown to the operator.
    pub fn message(&self) -> (text: String)
        ensures
            text@ == self@.message(),
    {
        match self {
            AuthorError::NotInRepo => String::from_str("Not inside a git repository"),
            AuthorError::UnknownCommand(name) => {
                String::from_str("Unknown command: ").concat(name.as_str())
            },
            AuthorError::MissingLogins => String::from_str("add requires at least one login"),
            AuthorError::Inquire(reason) => reason.clone(),
            AuthorError::Io(reason) => reason.clone(),
            AuthorError::NoAuthors => String::from_str("No authors in list"),
        }
    }
}

} // verus!
