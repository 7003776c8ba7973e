//! The most that one message carries.

use vstd::prelude::*;

use crate::error::{protocol_error, Error};
#[allow(unused_imports)]
use crate::error::outcome;
use crate::text::decimal;
#[allow(unused_imports)]
use crate::text::decimal_text;

verus! {

/// The most bytes that one ISO-TP message on classic CAN carries: its
/// length is a twelve-bit number.
pub const CLASSIC_CEILING: usize = 4095;

/// `<len> bytes is over the <ceiling> <what>`.
pub open spec fn over_text(len: nat, ceiling: nat, what: Seq<char>) -> Seq<char> {
    decimal_text(len) + " bytes is over the "@ + decimal_text(ceiling) + " "@ + what
}

/// What measuring `len` against `ceiling` comes to.
pub open spec fn measured(len: nat, ceiling: nat, what: Seq<char>) -> Result<(), Seq<char>> {
    if len <= ceiling {
        Ok(())
    } else {
        Err(over_text(len, ceiling, what))
    }
}

/// Whether `len` bytes are within `ceiling`, the most that `what` names.
///
/// # Errors
/// More bytes than the ceiling.
pub fn within(len: usize, ceiling: usize, what: &str) -> (result: Result<(), Error>)
    ensures
        outcome(result) == measured(len as nat, ceiling as nat, what@),
{
    if len <= ceiling {
        return Ok(());
    }
    let mut message = decimal(len as u64);
    message.append(" bytes is over the ");
    message.append(decimal(ceiling as u64).as_str());
    message.append(" ");
    message.append(what);
    Err(protocol_error(message))
}

} // verus!
