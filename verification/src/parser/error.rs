//! The error of a failed parse.

use vstd::prelude::*;

use super::IResult;

verus! {

/// A parse error with its message.
#[derive(Debug)]
pub struct PError(pub String);

impl View for PError {
    type V = Seq<char>;

    open spec fn view(&self) -> Seq<char> {
        self.0@
    }
}

impl PError {
    /// A failed parse with the given message.
    pub fn from<'a, O>(message: &str) -> (r: IResult<'a, O>)
        ensures
            r matches Err(e) && e@ == message@,
    {
        Err(PError(String::from_str(message)))
    }
}

} // verus!
