//! What goes wrong in an exchange, in words.

use vstd::prelude::*;

verus! {

/// A failure, told as the sentence a person reads.
#[derive(Clone, Debug, PartialEq, Eq)]
pub struct Error {
    pub message: String,
}

impl View for Error {
    type V = Seq<char>;

    open spec fn view(&self) -> Seq<char> {
        self.message@
    }
}

/// The failure that `message` tells of.
pub fn protocol_error(message: String) -> (error: Error)
    ensures
        error@ == message@,
{
    Error { message }
}

/// A result seen mathematically: the view of the value, or the message.
pub open spec fn outcome<T: View>(result: Result<T, Error>) -> Result<T::V, Seq<char>> {
    match result {
        Ok(value) => Ok(value@),
        Err(error) => Err(error@),
    }
}

} // verus!
