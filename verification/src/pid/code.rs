//! The negative response codes an ECU answers with.

use vstd::prelude::*;

verus! {

/// The mode is not one the ECU offers.
pub const SERVICE_NOT_SUPPORTED: u8 = 0x11;

/// The request is the wrong length.
pub const INCORRECT_MESSAGE_LENGTH: u8 = 0x13;

/// The parameter is not one the ECU has.
pub const REQUEST_OUT_OF_RANGE: u8 = 0x31;

} // verus!
