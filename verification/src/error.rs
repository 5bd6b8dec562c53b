//! The error type of the crate.

use vstd::prelude::*;

use crate::text::concat3;

verus! {

/// An error: what failed, and the message of the cause where another error
/// stands behind it.
#[derive(Debug)]
pub struct CliError {
    pub message: String,
    pub cause: Option<String>,
}

impl View for CliError {
    type V = (Seq<char>, Option<Seq<char>>);

    open spec fn view(&self) -> (Seq<char>, Option<Seq<char>>) {
        (self.message@, self.cause.deep_view())
    }
}

impl CliError {
    /// An error without a cause.
    pub fn new(message: &str) -> (r: CliError)
        ensures
            r@ == (message@, None::<Seq<char>>),
    {
        CliError { message: message.to_owned(), cause: None }
    }

    /// An error that another one caused.
    pub fn with_cause(message: &str, cause: &str) -> (r: CliError)
        ensures
            r@ == (message@, Some(cause@)),
    {
        CliError { message: message.to_owned(), cause: Some(cause.to_owned()) }
    }

    /// The message, followed by that of the cause.
    pub fn to_text(&self) -> (r: String)
        ensures
            r@ == (match self@.1 {
                Some(cause) => self@.0 + ": "@ + cause,
                None => self@.0,
            }),
    {
        match &self.cause {
            Some(cause) => concat3(self.message.as_str(), ": ", cause.as_str()),
            None => self.message.clone(),
        }
    }
}

/// The text of an error is its message, with the cause behind a colon if there is one.
pub proof fn law_error_text(error: &CliError, r: String)
    requires
        call_ensures(CliError::to_text, (error,), r),
    ensures
        error.cause is None ==> r@ == error.message@,
        error.cause matches Some(cause) ==> r@ == error.message@ + ": "@ + cause@,
{
}

/// An error holds the message and the cause that it is made of.
pub proof fn law_errors(message: &str, cause: &str, r: CliError, caused: CliError)
    requires
        call_ensures(CliError::new, (message,), r),
        call_ensures(CliError::with_cause, (message, cause), caused),
    ensures
        r.message@ == message@ && r.cause is None,
        caused.message@ == message@ && caused.cause.deep_view() == Some(cause@),
{
}

} // verus!
