//! Why a command was not carried out.

use vstd::prelude::*;

verus! {

/// The failures a caller can be told of.
#[derive(Debug, PartialEq, Eq)]
pub enum CommandError {
    /// No command is registered under the name.
    UnknownCommand,
    /// The payload does not have the shape the command expects.
    DecodeError,
    /// The caller may not run the command; the handler's message.
    Unauthorized(String),
    /// The handler refused for a reason of its own; its message.
    HandlerFailure(String),
    /// The store did not take the write.
    IoError,
}

/// A [`CommandError`] with its message as a sequence of characters.
pub enum CommandErrorView {
    UnknownCommand,
    DecodeError,
    Unauthorized(Seq<char>),
    HandlerFailure(Seq<char>),
    IoError,
}

/// What a caller can do about a failure.
#[derive(Clone, Copy, Debug, PartialEq, Eq, Structural)]
pub enum ErrorClass {
    /// The request itself is wrong: no such command, or a malformed payload.
    BadRequest,
    /// The request was understood and turned down.
    Rejected,
    /// The store was unavailable; the same request may succeed later.
    Transient,
}

impl View for CommandError {
    type V = CommandErrorView;

    open spec fn view(&self) -> CommandErrorView {
        match self {
            CommandError::UnknownCommand => CommandErrorView::UnknownCommand,
            CommandError::DecodeError => CommandErrorView::DecodeError,
            CommandError::Unauthorized(message) => CommandErrorView::Unauthorized(message@),
            CommandError::HandlerFailure(message) => CommandErrorView::HandlerFailure(message@),
            CommandError::IoError => CommandErrorView::IoError,
        }
    }
}

impl Clone for CommandError {
    fn clone(&self) -> (copy: Self)
        ensures
            copy@ == self@,
    {
        match self {
            CommandError::UnknownCommand => CommandError::UnknownCommand,
            CommandError::DecodeError => CommandError::DecodeError,
            CommandError::Unauthorized(message) => CommandError::Unauthorized(message.clone()),
            CommandError::HandlerFailure(message) => CommandError::HandlerFailure(message.clone()),
            CommandError::IoError => CommandError::IoError,
        }
    }
}

impl CommandErrorView {
    /// The class of a failure.
    pub open spec fn class(self) -> ErrorClass {
        match self {
            CommandErrorView::UnknownCommand | CommandErrorView::DecodeError => ErrorClass::BadRequest,
            CommandErrorView::Unauthorized(_) | CommandErrorView::HandlerFailure(_) => ErrorClass::Rejected,
            CommandErrorView::IoError => ErrorClass::Transient,
        }
    }
}

impl CommandError {
    /// The message for the caller.
    pub open spec fn spec_message(self) -> Seq<char> {
        match self {
            CommandError::UnknownCommand => "unknown command"@,
            CommandError::DecodeError => "malformed payload"@,
            CommandError::Unauthorized(message) => message@,
            CommandError::HandlerFailure(message) => message@,
            CommandError::IoError => "store unavailable"@,
        }
    }

    /// The message for the caller: the handler's own, word for word, where
    /// a handler turned the command down.
    pub fn message(&self) -> (message: String)
        ensures
            message@ == self.spec_message(),
    {
        match self {
            CommandError::UnknownCommand => "unknown command".to_owned(),
            CommandError::DecodeError => "malformed payload".to_owned(),
            CommandError::Unauthorized(message) => message.clone(),
            CommandError::HandlerFailure(message) => message.clone(),
            CommandError::IoError => "store unavailable".to_owned(),
        }
    }

    /// Tells a bad request from a rejection from a store that was unavailable.
    pub fn class(&self) -> (class: ErrorClass)
        ensures
            class == self@.class(),
    {
        match self {
            CommandError::UnknownCommand | CommandError::DecodeError => ErrorClass::BadRequest,
            CommandError::Unauthorized(_) | CommandError::HandlerFailure(_) => ErrorClass::Rejected,
            CommandError::IoError => ErrorClass::Transient,
        }
    }
}

/// The outcome of a command with the failure taken by its view.
pub open spec fn outcome(result: Result<(), CommandError>) -> Result<(), CommandErrorView> {
    match result {
        Ok(()) => Ok(()),
        Err(error) => Err(error@),
    }
}

} // verus!
