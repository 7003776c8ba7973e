//! One emissions ECU's worth of SAE J1979: the parameters it answers, and
//! the bitmaps that say which.
//!
//! An ECU answers a parameter it holds with the data it holds, parameter
//! `00` of any mode with the bitmap of the next thirty-two, and anything
//! else negatively: an unsupported mode, a parameter it does not have, a
//! request that is not a request. What it holds is set from outside: a
//! Send Location answering as the ECU sets the parameter it answers.

use std::collections::HashMap;

use vstd::prelude::*;
use vstd::slice::slice_to_vec;

use crate::error::Error;
#[allow(unused_imports)]
use crate::error::outcome;
use crate::pid::{code, Pid, CURRENT_DATA, SUPPORTED, VEHICLE_INFORMATION};

verus! {

/// Where a parameter stands in the table: the mode above the parameter.
spec fn place(pid: Pid) -> u16 {
    (pid.mode * 256 + pid.pid) as u16
}

/// Whether an ECU offers `mode` at all.
pub open spec fn offered(mode: u8) -> bool {
    mode == CURRENT_DATA || mode == VEHICLE_INFORMATION
}

/// Whether each of `count` parameters of `mode` from `first` on is held, as
/// the digits of one binary number, the first parameter's weighing most.
pub open spec fn flags(held: Map<Pid, Seq<u8>>, mode: u8, first: int, count: nat) -> nat
    decreases count,
{
    if count == 0 {
        0
    } else {
        let last = Pid { mode, pid: (first + count - 1) as u8 };
        2 * flags(held, mode, first, (count - 1) as nat) + if held.contains_key(last) {
            1nat
        } else {
            0nat
        }
    }
}

/// The bitmap of parameters `01` to `20` of `mode`: four bytes of eight
/// parameters each, the highest bit of the first byte being parameter `01`.
pub open spec fn bitmap(held: Map<Pid, Seq<u8>>, mode: u8) -> Seq<u8> {
    Seq::new(4, |i: int| flags(held, mode, 8 * i + 1, 8) as u8)
}

/// The mode that an answer to `request` names: its first byte, or zero.
pub open spec fn named_mode(request: Seq<u8>) -> u8 {
    if request.len() > 0 {
        request[0]
    } else {
        0
    }
}

/// The one response to `request` of an ECU that holds `held`.
pub open spec fn answered(held: Map<Pid, Seq<u8>>, request: Seq<u8>) -> Result<
    Seq<u8>,
    Seq<char>,
> {
    match Pid::requested(request) {
        Err(_) => Ok(
            (Pid { mode: named_mode(request), pid: 0 }).negative_bytes(
                code::INCORRECT_MESSAGE_LENGTH,
            ),
        ),
        Ok(pid) => if !offered(pid.mode) {
            Ok(pid.negative_bytes(code::SERVICE_NOT_SUPPORTED))
        } else if pid.pid == SUPPORTED {
            pid.responded(bitmap(held, pid.mode))
        } else if held.contains_key(pid) {
            pid.responded(held[pid])
        } else {
            Ok(pid.negative_bytes(code::REQUEST_OUT_OF_RANGE))
        },
    }
}

/// An ECU: what it answers, by parameter.
pub struct Ecu {
    answers: HashMap<u16, Vec<u8>>,
}

impl View for Ecu {
    type V = Map<Pid, Seq<u8>>;

    /// The data held, by parameter.
    closed spec fn view(&self) -> Map<Pid, Seq<u8>> {
        Map::new(
            |pid: Pid| self.answers@.contains_key(place(pid)),
            |pid: Pid| self.answers@[place(pid)]@,
        )
    }
}

impl Default for Ecu {
    /// An ECU answering nothing but the supported-parameter bitmaps.
    fn default() -> (ecu: Self)
        ensures
            ecu@ == Map::<Pid, Seq<u8>>::empty(),
    {
        let ecu = Ecu { answers: HashMap::new() };
        assert(ecu@ =~= Map::<Pid, Seq<u8>>::empty());
        ecu
    }
}

/// Where `pid` stands in the table.
fn place_of(pid: Pid) -> (at: u16)
    ensures
        at == place(pid),
{
    pid.mode as u16 * 256 + pid.pid as u16
}

/// Up to seven flags leave room in a byte for one more.
proof fn lemma_flags_bound(held: Map<Pid, Seq<u8>>, mode: u8, first: int, count: nat)
    requires
        count <= 7,
    ensures
        flags(held, mode, first, count) < 128,
{
    reveal_with_fuel(flags, 9);
}

impl Ecu {
    /// An ECU answering nothing but the supported-parameter bitmaps.
    #[must_use]
    pub fn new() -> (ecu: Self)
        ensures
            ecu@ == Map::<Pid, Seq<u8>>::empty(),
    {
        Self::default()
    }

    /// Answer `pid` with `data`.
    #[must_use]
    pub fn answering(self, pid: Pid, data: &[u8]) -> (ecu: Self)
        ensures
            ecu@ == self@.insert(pid, data@),
    {
        let mut ecu = self;
        ecu.set(pid, data);
        ecu
    }

    /// Answer `pid` with `data` from now on.
    pub fn set(&mut self, pid: Pid, data: &[u8])
        ensures
            final(self)@ == old(self)@.insert(pid, data@),
    {
        self.answers.insert(place_of(pid), slice_to_vec(data));
        assert(self@ =~= old(self)@.insert(pid, data@));
    }

    /// What `pid` is answered with.
    #[must_use]
    pub fn held(&self, pid: Pid) -> (data: Option<Vec<u8>>)
        ensures
            data is Some <==> self@.contains_key(pid),
            data matches Some(data) ==> data@ == self@[pid],
    {
        match self.answers.get(&place_of(pid)) {
            Some(data) => Some(slice_to_vec(data.as_slice())),
            None => None,
        }
    }

    /// The one response to `request`.
    ///
    /// # Errors
    /// Data held that no response can carry.
    pub fn answer(&self, request: &[u8]) -> (result: Result<Vec<u8>, Error>)
        ensures
            outcome(result) == answered(self@, request@),
    {
        let pid = match Pid::parse_request(request) {
            Ok(pid) => pid,
            Err(_) => {
                let mode: u8 = match request.first() {
                    Some(first) => *first,
                    None => 0,
                };
                let refusal = Pid { mode, pid: 0 }.negative(code::INCORRECT_MESSAGE_LENGTH);
                return Ok(slice_to_vec(refusal.as_slice()));
            },
        };
        if pid.mode != CURRENT_DATA && pid.mode != VEHICLE_INFORMATION {
            return Ok(slice_to_vec(pid.negative(code::SERVICE_NOT_SUPPORTED).as_slice()));
        }
        if pid.pid == SUPPORTED {
            return pid.response(self.supported(pid.mode).as_slice());
        }
        match self.held(pid) {
            Some(data) => pid.response(data.as_slice()),
            None => Ok(slice_to_vec(pid.negative(code::REQUEST_OUT_OF_RANGE).as_slice())),
        }
    }

    /// The bitmap of parameters `01` to `20` of `mode` this ECU answers:
    /// the highest bit of the first byte is parameter `01`.
    #[must_use]
    pub fn supported(&self, mode: u8) -> (bytes: [u8; 4])
        ensures
            bytes@ == bitmap(self@, mode),
    {
        let bytes = [
            self.eight(mode, 1),
            self.eight(mode, 9),
            self.eight(mode, 17),
            self.eight(mode, 25),
        ];
        assert(bytes@ =~= bitmap(self@, mode));
        bytes
    }

    /// One byte of the bitmap: the eight parameters from `first` on.
    fn eight(&self, mode: u8, first: u8) -> (byte: u8)
        requires
            first <= 25,
        ensures
            byte == flags(self@, mode, first as int, 8),
    {
        let mut byte: u8 = 0;
        let mut count: u8 = 0;
        while count < 8
            invariant
                count <= 8,
                first <= 25,
                byte == flags(self@, mode, first as int, count as nat),
            decreases 8 - count,
        {
            proof {
                lemma_flags_bound(self@, mode, first as int, count as nat);
            }
            let pid = Pid { mode, pid: first + count };
            let flag: u8 = if self.answers.contains_key(&place_of(pid)) {
                1
            } else {
                0
            };
            byte = 2 * byte + flag;
            count = count + 1;
        }
        byte
    }
}

} // verus!
