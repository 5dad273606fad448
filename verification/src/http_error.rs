//! The transport-facing not-found error: what the web layer answers with
//! when a request names something that does not exist.

use vstd::prelude::*;

verus! {

/// A not-found condition, carrying the message to report. The transport
/// layer maps it to its own response format.
#[derive(Debug, Clone, Copy)]
pub struct NotFoundError(&'static str);

impl View for NotFoundError {
    type V = Seq<char>;

    closed spec fn view(&self) -> Seq<char> {
        self.0@
    }
}

impl NotFoundError {
    /// A not-found error carrying `message`.
    pub fn new(message: &'static str) -> (r: Self)
        ensures
            r@ == message@,
    {
        NotFoundError(message)
    }

    /// The message to report.
    pub fn message(&self) -> (r: &'static str)
        ensures
            r@ == self@,
    {
        self.0
    }
}

} // verus!
