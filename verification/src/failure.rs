//! Why something did not work, in the words shown to the user.

use vstd::prelude::*;
use crate::text;

verus! {

/// A failure and its message.
#[derive(Debug)]
pub struct Failure {
    pub message: String,
}

impl View for Failure {
    type V = Seq<char>;

    open spec fn view(&self) -> Seq<char> {
        self.message@
    }
}

/// The text that came out, or the message of the failure.
pub open spec fn outcome(r: Result<String, Failure>) -> Result<Seq<char>, Seq<char>> {
    match r {
        Ok(t) => Ok(t@),
        Err(e) => Err(e@),
    }
}

impl Failure {
    /// A failure with the message `message`.
    pub fn new(message: &str) -> (r: Failure)
        ensures
            r@ == message@,
    {
        Failure { message: message.to_owned() }
    }

    /// The failure with a message in three parts.
    pub fn about(head: &str, subject: &str, tail: &str) -> (r: Failure)
        ensures
            r@ == head@ + subject@ + tail@,
    {
        Failure { message: text::cat3(head, subject, tail) }
    }

    /// The failure in the light of what was being done: `context: message`.
    pub fn within(self, context: &str) -> (r: Failure)
        ensures
            r@ == context@ + ": "@ + self@,
    {
        Failure { message: text::cat3(context, ": ", self.message.as_str()) }
    }
}

} // verus!
