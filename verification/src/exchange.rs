//! One question and its answer, between the steps that the link takes.
//!
//! A poll delivers the request, then collects the answer; each step hands on
//! what the link came back with, and ends the poll where the link failed.

use vstd::prelude::*;

use crate::error::Error;
#[allow(unused_imports)]
use crate::error::outcome;
use crate::pid::Pid;
use crate::text::{cut_before, strip_prefix};
#[allow(unused_imports)]
use crate::text::{before, stripped};

verus! {

/// A Stream that came in, and where it came from.
#[derive(Debug)]
pub struct Arrived {
    pub origin_uri: String,
    pub bytes: Vec<u8>,
}

impl View for Arrived {
    type V = (Seq<char>, Seq<u8>);

    open spec fn view(&self) -> (Seq<char>, Seq<u8>) {
        (self.origin_uri@, self.bytes@)
    }
}

impl Arrived {
    /// `bytes`, come from `origin_uri`.
    #[must_use]
    pub fn new(origin_uri: String, bytes: Vec<u8>) -> (arrived: Self)
        ensures
            arrived@ == (origin_uri@, bytes@),
    {
        Self { origin_uri, bytes }
    }
}

/// The bus that an ISO-TP origin names: what stands between `isotp://` and
/// the next slash, or `isotp` where the origin is of another scheme.
pub open spec fn bus_text(origin: Seq<char>) -> Seq<char> {
    match stripped(origin, "isotp://"@) {
        Some(rest) => before(rest, '/'),
        None => "isotp"@,
    }
}

/// The bus an ISO-TP origin names.
pub fn bus_of(origin: &str) -> (bus: String)
    ensures
        bus@ == bus_text(origin@),
{
    match strip_prefix(origin, "isotp://") {
        Some(rest) => cut_before(rest, '/').to_owned(),
        None => "isotp".to_owned(),
    }
}

/// What a poll of `pid` comes to, given what the link collected: the data of
/// the answer, from the parameter's origin on the bus that the answer names.
pub open spec fn polled(
    pid: Pid,
    collected: Result<(Seq<char>, Seq<u8>), Seq<char>>,
) -> Result<(Seq<char>, Seq<u8>), Seq<char>> {
    match collected {
        Err(message) => Err(message),
        Ok((uri, answer)) => match pid.response_data(answer) {
            Err(message) => Err(message),
            Ok(data) => Ok((pid.origin_text(bus_text(uri)), data)),
        },
    }
}

/// A poll whose request the link has yet to deliver.
pub struct Asking {
    pub pid: Pid,
}

/// A poll whose answer the link has yet to collect.
pub struct Waiting {
    pub pid: Pid,
}

impl Asking {
    /// The bytes for the link to deliver.
    #[must_use]
    pub fn request(&self) -> (bytes: [u8; 2])
        ensures
            bytes@ == self.pid.request_bytes(),
    {
        self.pid.request()
    }

    /// The poll goes on once the request is delivered.
    ///
    /// # Errors
    /// A link that failed to deliver.
    pub fn delivered(self, delivery: Result<(), Error>) -> (result: Result<Waiting, Error>)
        ensures
            result == match delivery {
                Ok(_) => Ok(Waiting { pid: self.pid }),
                Err(error) => Err(error),
            },
    {
        match delivery {
            Ok(_) => Ok(Waiting { pid: self.pid }),
            Err(error) => Err(error),
        }
    }
}

impl Waiting {
    /// The data the collected answer carries.
    ///
    /// # Errors
    /// A link that failed to collect, a negative response, or an answer to
    /// another parameter.
    pub fn collected(self, collection: Result<Arrived, Error>) -> (result: Result<Arrived, Error>)
        ensures
            outcome(result) == polled(self.pid, outcome(collection)),
    {
        let answer = match collection {
            Ok(answer) => answer,
            Err(error) => return Err(error),
        };
        match self.pid.parse_response(answer.bytes.as_slice()) {
            Ok(data) => {
                let bus = bus_of(answer.origin_uri.as_str());
                Ok(Arrived::new(self.pid.origin(bus.as_str()), data))
            },
            Err(error) => Err(error),
        }
    }
}

} // verus!
