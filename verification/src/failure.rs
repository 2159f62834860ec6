//! Errors as the texts that are shown for them.
use crate::text::{copy_option, maybe_text};
use vstd::prelude::*;

verus! {

/// An error with its message and, where something else caused it, the text of that cause.
#[derive(Debug, PartialEq, Eq)]
pub struct Failure {
    pub message: String,
    pub cause: Option<String>,
}

/// What a [`Failure`] says.
#[verifier::ext_equal]
pub struct FailureView {
    pub message: Seq<char>,
    pub cause: Option<Seq<char>>,
}

impl View for Failure {
    type V = FailureView;

    open spec fn view(&self) -> FailureView {
        FailureView { message: self.message@, cause: maybe_text(self.cause) }
    }
}

/// An error without a cause.
pub open spec fn plain(message: Seq<char>) -> FailureView {
    FailureView { message, cause: None }
}

impl FailureView {
    /// The message followed by the cause.
    pub open spec fn full_text(self) -> Seq<char> {
        match self.cause {
            Some(cause) => self.message + ": "@ + cause,
            None => self.message,
        }
    }

    /// The error seen from a caller, which adds a message of its own.
    pub open spec fn within(self, message: Seq<char>) -> FailureView {
        FailureView { message, cause: Some(self.full_text()) }
    }
}

/// The view of a result whose error is a [`Failure`].
pub open spec fn viewed<T>(result: Result<T, Failure>) -> Result<T, FailureView> {
    match result {
        Ok(value) => Ok(value),
        Err(failure) => Err(failure@),
    }
}

/// The view of a text or the failure to get one.
pub open spec fn text_result(result: Result<String, Failure>) -> Result<Seq<char>, FailureView> {
    match result {
        Ok(value) => Ok(value@),
        Err(failure) => Err(failure@),
    }
}

impl Failure {
    /// An error that says only its message.
    pub fn new(message: String) -> (failure: Self)
        ensures
            failure@ == plain(message@),
    {
        Failure { message, cause: None }
    }

    /// An error that says only the given text.
    pub fn of(message: &str) -> (failure: Self)
        ensures
            failure@ == plain(message@),
    {
        Failure { message: message.to_owned(), cause: None }
    }

    /// The message followed by the cause.
    pub fn full(&self) -> (text: String)
        ensures
            text@ == self@.full_text(),
    {
        match &self.cause {
            Some(cause) => {
                let mut text = self.message.clone();
                text.append(": ");
                text.append(cause.as_str());
                text
            },
            None => self.message.clone(),
        }
    }

    /// Adds the message of a caller.
    pub fn context(&self, message: &str) -> (failure: Self)
        ensures
            failure@ == self@.within(message@),
    {
        Failure { message: message.to_owned(), cause: Some(self.full()) }
    }
}

impl Clone for Failure {
    fn clone(&self) -> (copy: Self)
        ensures
            copy@ == self@,
    {
        Failure { message: self.message.clone(), cause: copy_option(&self.cause) }
    }
}

} // verus!
