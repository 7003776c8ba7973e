//! A parameter identifier of SAE J1979: the mode it belongs to, the request
//! that asks for it, and the response that answers.
//!
//! An OBD-II request is two bytes, a mode and a parameter: mode `01` for
//! current data (engine speed, coolant temperature, the supported-parameter
//! bitmaps) and mode `09` for vehicle information (the VIN, calibration
//! identifiers, the ECU name). A response echoes the mode with `0x40` added
//! and the parameter, and for mode `09` counts the data items after them; a
//! negative response is `0x7f`, the mode and a code, the ISO 15031-5 shape.
//! One ISO-TP message carries it all, so a parameter's data is at most the
//! message's ceiling less that header.

pub mod code;

use vstd::prelude::*;
use vstd::slice::slice_to_vec;

use crate::ceiling::{within, CLASSIC_CEILING};
#[allow(unused_imports)]
use crate::ceiling::measured;
use crate::error::{protocol_error, Error};
#[allow(unused_imports)]
use crate::error::outcome;
use crate::text::hex_of;
#[allow(unused_imports)]
use crate::text::hex_text;

verus! {

/// Mode 01: current data.
pub const CURRENT_DATA: u8 = 0x01;

/// Mode 09: vehicle information.
pub const VEHICLE_INFORMATION: u8 = 0x09;

/// What a positive response adds to the mode.
pub const POSITIVE: u8 = 0x40;

/// The first byte of every negative response.
pub const NEGATIVE: u8 = 0x7f;

/// The functional address a tester asks every emissions ECU at.
pub const FUNCTIONAL: u32 = 0x7df;

/// Where the first ECU answers from.
pub const ECU: u32 = 0x7e8;

/// The parameter in every mode that bitmaps the next thirty-two.
pub const SUPPORTED: u8 = 0x00;

/// One parameter of one mode.
#[derive(Clone, Copy, Debug, PartialEq, Eq, Structural, Hash)]
pub struct Pid {
    pub mode: u8,
    pub pid: u8,
}

impl View for Pid {
    type V = Pid;

    open spec fn view(&self) -> Pid {
        *self
    }
}

/// `mode <mode> refused with code <code>`.
pub open spec fn refused_text(mode: u8, code: u8) -> Seq<char> {
    "mode "@ + hex_text(mode) + " refused with code "@ + hex_text(code)
}

/// `an answer to <first>/<second>, not <mode>/<pid>`: the two bytes told of
/// the answer, then the parameter asked for.
pub open spec fn mismatch_text(first: u8, second: u8, asked: Pid) -> Seq<char> {
    "an answer to "@ + hex_text(first) + "/"@ + hex_text(second) + ", not "@ + hex_text(asked.mode)
        + "/"@ + hex_text(asked.pid)
}

impl Pid {
    /// The two bytes that ask for this parameter.
    pub open spec fn request_bytes(self) -> Seq<u8> {
        seq![self.mode, self.pid]
    }

    /// The parameter that a request asks for.
    pub open spec fn requested(bytes: Seq<u8>) -> Result<Pid, Seq<char>> {
        if bytes.len() == 2 {
            Ok(Pid { mode: bytes[0], pid: bytes[1] })
        } else {
            Err("an OBD-II request is a mode and a parameter"@)
        }
    }

    /// The mode as a positive response echoes it: with `0x40` added, and
    /// round past zero where the sum is more than a byte holds.
    pub open spec fn echo(self) -> u8 {
        if self.mode + POSITIVE <= u8::MAX {
            (self.mode + POSITIVE) as u8
        } else {
            (self.mode + POSITIVE - 256) as u8
        }
    }

    /// The header of a positive response: the mode's echo, the parameter, and
    /// for vehicle information the count of one item.
    pub open spec fn header_bytes(self) -> Seq<u8> {
        if self.mode == VEHICLE_INFORMATION {
            seq![self.echo(), self.pid, 1u8]
        } else {
            seq![self.echo(), self.pid]
        }
    }

    /// The most data that one response carries.
    pub open spec fn data_ceiling(self) -> nat {
        (CLASSIC_CEILING - self.header_bytes().len()) as nat
    }

    /// The positive response that carries `data`, or why none does.
    pub open spec fn responded(self, data: Seq<u8>) -> Result<Seq<u8>, Seq<char>> {
        match measured(data.len(), self.data_ceiling(), "one OBD-II response carries"@) {
            Ok(_) => Ok(self.header_bytes() + data),
            Err(message) => Err(message),
        }
    }

    /// The negative response that refuses this parameter with `code`.
    pub open spec fn negative_bytes(self, code: u8) -> Seq<u8> {
        seq![NEGATIVE, self.mode, code]
    }

    /// The data that a response to this parameter carries, or why it carries
    /// none. An answer to another is told by its first two bytes, the first
    /// with the bit `0x40` cleared: that is the mode that answered where the
    /// mode itself has the bit clear.
    pub open spec fn response_data(self, bytes: Seq<u8>) -> Result<Seq<u8>, Seq<char>> {
        if bytes.len() == 3 && bytes[0] == NEGATIVE {
            Err(refused_text(bytes[1], bytes[2]))
        } else if bytes.len() < self.header_bytes().len() {
            Err("a response too short for its header"@)
        } else if bytes.take(2) != self.header_bytes().take(2) {
            Err(mismatch_text(bytes[0] & !POSITIVE, bytes[1], self))
        } else if !self.header_bytes().is_prefix_of(bytes) {
            Err("a vehicle information item counted other than once"@)
        } else {
            Ok(bytes.skip(self.header_bytes().len() as int))
        }
    }

    /// `obd://<bus>/0x<mode>/0x<pid>`.
    pub open spec fn origin_text(self, bus: Seq<char>) -> Seq<char> {
        "obd://"@ + bus + "/"@ + hex_text(self.mode) + "/"@ + hex_text(self.pid)
    }

    /// Mode 01, parameter `pid`.
    #[must_use]
    pub fn current(pid: u8) -> (parameter: Self)
        ensures
            parameter == (Pid { mode: CURRENT_DATA, pid }),
    {
        Self { mode: CURRENT_DATA, pid }
    }

    /// Mode 09, information type `pid`.
    #[must_use]
    pub fn information(pid: u8) -> (parameter: Self)
        ensures
            parameter == (Pid { mode: VEHICLE_INFORMATION, pid }),
    {
        Self { mode: VEHICLE_INFORMATION, pid }
    }

    /// The two bytes that ask for this parameter.
    #[must_use]
    pub fn request(self) -> (bytes: [u8; 2])
        ensures
            bytes@ == self.request_bytes(),
    {
        [self.mode, self.pid]
    }

    /// The parameter a request asks for.
    ///
    /// # Errors
    /// A request that is not two bytes.
    pub fn parse_request(bytes: &[u8]) -> (result: Result<Self, Error>)
        ensures
            outcome(result) == Self::requested(bytes@),
    {
        if bytes.len() == 2 {
            Ok(Self { mode: bytes[0], pid: bytes[1] })
        } else {
            Err(protocol_error("an OBD-II request is a mode and a parameter".to_owned()))
        }
    }

    /// How many bytes of a response are header: the mode, the parameter,
    /// and for vehicle information the count of items.
    #[must_use]
    pub fn header(self) -> (len: usize)
        ensures
            len == self.header_bytes().len(),
    {
        if self.mode == VEHICLE_INFORMATION {
            3
        } else {
            2
        }
    }

    /// The most data this parameter's response carries in one ISO-TP
    /// message: the message's ceiling less the header.
    #[must_use]
    pub fn ceiling(self) -> (len: usize)
        ensures
            len == self.data_ceiling(),
    {
        CLASSIC_CEILING - self.header()
    }

    /// The positive response carrying `data`.
    ///
    /// # Errors
    /// Data over [`Self::ceiling`].
    pub fn response(self, data: &[u8]) -> (result: Result<Vec<u8>, Error>)
        ensures
            outcome(result) == self.responded(data@),
    {
        match within(data.len(), self.ceiling(), "one OBD-II response carries") {
            Ok(_) => {},
            Err(error) => return Err(error),
        }
        let mut out: Vec<u8> = Vec::with_capacity(self.header() + data.len());
        out.push(self.mode.wrapping_add(POSITIVE));
        out.push(self.pid);
        if self.mode == VEHICLE_INFORMATION {
            out.push(1);
        }
        assert(out@ =~= self.header_bytes());
        out.extend_from_slice(data);
        assert(out@ =~= self.header_bytes() + data@);
        Ok(out)
    }

    /// The negative response refusing this parameter with `code`.
    #[must_use]
    pub fn negative(self, code: u8) -> (bytes: [u8; 3])
        ensures
            bytes@ == self.negative_bytes(code),
    {
        [NEGATIVE, self.mode, code]
    }

    /// The data a response to this parameter carries.
    ///
    /// # Errors
    /// A negative response, one to another parameter, or one too short for
    /// its header.
    pub fn parse_response(self, bytes: &[u8]) -> (result: Result<Vec<u8>, Error>)
        ensures
            outcome(result) == self.response_data(bytes@),
    {
        let len: usize = bytes.len();
        if len == 3 && bytes[0] == NEGATIVE {
            let mut message = "mode ".to_owned();
            message.append(hex_of(bytes[1]).as_str());
            message.append(" refused with code ");
            message.append(hex_of(bytes[2]).as_str());
            return Err(protocol_error(message));
        }
        let header: usize = self.header();
        if len < header {
            return Err(protocol_error("a response too short for its header".to_owned()));
        }
        proof {
            lemma_same_start(bytes@, self.header_bytes());
        }
        if bytes[0] != self.mode.wrapping_add(POSITIVE) || bytes[1] != self.pid {
            let mut message = "an answer to ".to_owned();
            message.append(hex_of(bytes[0] & !POSITIVE).as_str());
            message.append("/");
            message.append(hex_of(bytes[1]).as_str());
            message.append(", not ");
            message.append(hex_of(self.mode).as_str());
            message.append("/");
            message.append(hex_of(self.pid).as_str());
            return Err(protocol_error(message));
        }
        if self.mode == VEHICLE_INFORMATION && bytes[2] != 1 {
            return Err(
                protocol_error("a vehicle information item counted other than once".to_owned()),
            );
        }
        assert(self.header_bytes() =~= bytes@.subrange(0, self.header_bytes().len() as int));
        Ok(slice_to_vec(bytes.split_at(header).1))
    }

    /// `obd://<bus>/0x<mode>/0x<pid>`.
    #[must_use]
    pub fn origin(self, bus: &str) -> (uri: String)
        ensures
            uri@ == self.origin_text(bus@),
    {
        let mut uri = "obd://".to_owned();
        uri.append(bus);
        uri.append("/");
        uri.append(hex_of(self.mode).as_str());
        uri.append("/");
        uri.append(hex_of(self.pid).as_str());
        uri
    }
}

/// Two sequences begin with the same pair exactly if both bytes agree.
proof fn lemma_same_start(left: Seq<u8>, right: Seq<u8>)
    requires
        left.len() >= 2,
        right.len() >= 2,
    ensures
        left.take(2) == right.take(2) <==> left[0] == right[0] && left[1] == right[1],
{
    if left.take(2) == right.take(2) {
        assert(left.take(2)[0] == right.take(2)[0]);
        assert(left.take(2)[1] == right.take(2)[1]);
    } else if left[0] == right[0] && left[1] == right[1] {
        assert(left.take(2) =~= right.take(2));
    }
}

} // verus!
