//! What is said when something goes wrong.

use vstd::prelude::*;
use crate::text::opt_text;

verus! {

/// Why something cannot be done: what is said, and what lies behind it, where more is known.
pub struct Failure {
    pub message: String,
    pub cause: Option<String>,
}

/// The texts of a failure.
#[verifier::ext_equal]
pub struct FailureView {
    pub message: Seq<char>,
    pub cause: Option<Seq<char>>,
}

impl View for Failure {
    type V = FailureView;

    open spec fn view(&self) -> FailureView {
        FailureView { message: self.message@, cause: opt_text(self.cause) }
    }
}

/// The failure that a message alone makes.
pub open spec fn plain_failure(message: Seq<char>) -> FailureView {
    FailureView { message, cause: None }
}

/// The failure that is said with a message and has a cause.
pub open spec fn caused_failure(message: Seq<char>, cause: Seq<char>) -> FailureView {
    FailureView { message, cause: Some(cause) }
}

impl Failure {
    /// The failure that a message alone makes.
    pub fn plain(message: String) -> (failure: Failure)
        ensures
            failure@ == plain_failure(message@),
    {
        Failure { message, cause: None }
    }

    /// The failure that is said with a message and has a cause.
    pub fn caused(message: String, cause: String) -> (failure: Failure)
        ensures
            failure@ == caused_failure(message@, cause@),
    {
        Failure { message, cause: Some(cause) }
    }
}

/// A failure is said with its message; it has the cause that it was given, or none.
pub proof fn law_failures(message: Seq<char>, cause: Seq<char>)
    ensures
        plain_failure(message).message == message,
        plain_failure(message).cause is None,
        caused_failure(message, cause).message == message,
        caused_failure(message, cause).cause == Some(cause),
{
}

/// A failure is seen as it is, with its texts.
pub proof fn law_failure_is_seen(failure: Failure)
    ensures
        failure@.message == failure.message@,
        failure.cause is None <==> failure@.cause is None,
        failure.cause matches Some(cause) ==> failure@.cause == Some(cause@),
{
}

} // verus!
