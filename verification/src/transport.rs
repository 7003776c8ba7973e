//! One end of a diagnostic exchange, apart from the link that carries it.

use vstd::prelude::*;

use crate::ceiling::within;
#[allow(unused_imports)]
use crate::ceiling::measured;
#[allow(unused_imports)]
use crate::ecu::answered;
use crate::ecu::Ecu;
use crate::error::{protocol_error, Error};
#[allow(unused_imports)]
use crate::error::outcome;
use crate::exchange::{Arrived, Asking};
use crate::pid::Pid;
#[allow(unused_imports)]
use crate::pid::VEHICLE_INFORMATION;
use crate::text::{cut_once, hex, strip_prefix};
#[allow(unused_imports)]
use crate::text::{
    hex_text, lemma_digit_worth, lemma_hex_round_trip, lemma_split_once, lemma_stripped, parsed_hex,
    split_once, stripped,
};

verus! {

/// The information type of the ECU name, the one vehicle information item a
/// manufacturer fills freely.
pub const ECU_NAME: u8 = 0x0a;

/// The parameter a Location polls or answers unless told otherwise: the
/// ECU name.
#[must_use]
pub fn default_pid() -> (pid: Pid)
    ensures
        pid == (Pid { mode: VEHICLE_INFORMATION, pid: ECU_NAME }),
{
    Pid::information(ECU_NAME)
}

/// The path of an `obd` target: what follows the slash after the bus, where
/// the target is of that scheme and has one.
pub open spec fn target_path(target: Seq<char>) -> Option<Seq<char>> {
    match stripped(target, "obd://"@) {
        Some(rest) => match split_once(rest, '/') {
            Some((_, path)) => Some(path),
            None => None,
        },
        None => None,
    }
}

/// The parameter that a path `0x<mode>/0x<pid>` names.
pub open spec fn path_pid(path: Seq<char>) -> Option<Pid> {
    match split_once(path, '/') {
        Some((mode, pid)) => match (parsed_hex(mode), parsed_hex(pid)) {
            (Some(mode), Some(pid)) => Some(Pid { mode, pid }),
            _ => None,
        },
        None => None,
    }
}

/// The parameter of an end whose own is `own`, given the path of a target.
pub open spec fn overridden_pid(own: Pid, path: Option<Seq<char>>) -> Result<Pid, Seq<char>> {
    match path {
        None => Ok(own),
        Some(path) => if path.len() == 0 {
            Ok(own)
        } else {
            match path_pid(path) {
                Some(pid) => Ok(pid),
                None => Err(path + " is not a mode and a parameter"@),
            }
        },
    }
}

/// The parameter that `target` addresses at an end whose own is `own`.
pub open spec fn addressed_pid(own: Pid, target: Seq<char>) -> Result<Pid, Seq<char>> {
    overridden_pid(own, target_path(target))
}

/// The parameter that sending `data` to a target of that path sets, or why it
/// sets none.
pub open spec fn set_at(own: Pid, path: Option<Seq<char>>, data: Seq<u8>) -> Result<
    Pid,
    Seq<char>,
> {
    match overridden_pid(own, path) {
        Err(message) => Err(message),
        Ok(pid) => match measured(
            data.len(),
            pid.data_ceiling(),
            "one OBD-II response carries"@,
        ) {
            Err(message) => Err(message),
            Ok(_) => Ok(pid),
        },
    }
}

/// A path, or none, as text.
pub open spec fn path_text(path: Option<&str>) -> Option<Seq<char>> {
    match path {
        Some(path) => Some(path@),
        None => None,
    }
}

/// What an ECU that holds `held` has the link deliver, given what the link
/// collected.
pub open spec fn reply(
    held: Map<Pid, Seq<u8>>,
    collected: Result<(Seq<char>, Seq<u8>), Seq<char>>,
) -> Result<Seq<u8>, Seq<char>> {
    match collected {
        Err(message) => Err(message),
        Ok((_, request)) => if request.len() == 0 {
            Err("the tester hung up"@)
        } else {
            answered(held, request)
        },
    }
}

/// The path of an `obd` target.
#[must_use]
pub fn path_of<'a>(target: &'a str) -> (path: Option<&'a str>)
    ensures
        path_text(path) == target_path(target@),
{
    match strip_prefix(target, "obd://") {
        Some(rest) => match cut_once(rest, '/') {
            Some((_, path)) => Some(path),
            None => None,
        },
        None => None,
    }
}

/// One end of a diagnostic exchange: a tester when it receives, an ECU
/// when it sends.
pub struct ObdTransport {
    pub pid: Pid,
    pub ecu: Ecu,
}

impl ObdTransport {
    /// An end polling and answering [`default_pid`] as an ECU holding
    /// nothing.
    #[must_use]
    pub fn new() -> (end: Self)
        ensures
            end.pid == (Pid { mode: VEHICLE_INFORMATION, pid: ECU_NAME }),
            end.ecu@ == Map::<Pid, Seq<u8>>::empty(),
    {
        Self { pid: default_pid(), ecu: Ecu::new() }
    }

    /// Poll and answer `pid`.
    #[must_use]
    pub fn at(self, pid: Pid) -> (end: Self)
        ensures
            end == (ObdTransport { pid, ecu: self.ecu }),
    {
        Self { pid, ecu: self.ecu }
    }

    /// Answer as `ecu` when sending.
    #[must_use]
    pub fn answering_as(self, ecu: Ecu) -> (end: Self)
        ensures
            end == (ObdTransport { pid: self.pid, ecu }),
    {
        Self { pid: self.pid, ecu }
    }

    /// The ECU this end answers as.
    #[must_use]
    pub fn ecu(&self) -> (ecu: &Ecu)
        ensures
            *ecu == self.ecu,
    {
        &self.ecu
    }

    /// What this transport is called.
    #[must_use]
    pub fn name(&self) -> (name: &'static str)
        ensures
            name@ == "obd-ii"@,
    {
        "obd-ii"
    }

    /// Ask the ECU for `pid`: the poll to take the link through.
    #[must_use]
    pub fn poll(&self, pid: Pid) -> (poll: Asking)
        ensures
            poll == (Asking { pid }),
    {
        Asking { pid }
    }

    /// Answer one request as the ECU: what to deliver, given what the link
    /// collected.
    ///
    /// # Errors
    /// A tester that never asks, a link that failed, or data no response
    /// carries.
    pub fn answer_one(&self, collection: Result<Arrived, Error>) -> (result: Result<
        Vec<u8>,
        Error,
    >)
        ensures
            outcome(result) == reply(self.ecu@, outcome(collection)),
    {
        let request = match collection {
            Ok(request) => request,
            Err(error) => return Err(error),
        };
        if request.bytes.len() == 0 {
            return Err(protocol_error("the tester hung up".to_owned()));
        }
        self.ecu.answer(request.bytes.as_slice())
    }

    /// `obd://<bus>/0x<mode>/0x<pid>`: what `target` overrides of this
    /// end's parameter.
    ///
    /// # Errors
    /// A path that is not a mode and a parameter.
    pub fn addressed(&self, target: &str) -> (result: Result<Pid, Error>)
        ensures
            outcome(result) == addressed_pid(self.pid, target@),
    {
        self.overridden(path_of(target))
    }

    /// What the path of a target overrides of this end's parameter: nothing
    /// where there is none or it is empty.
    ///
    /// # Errors
    /// A path that is not a mode and a parameter.
    pub fn overridden(&self, path: Option<&str>) -> (result: Result<Pid, Error>)
        ensures
            outcome(result) == overridden_pid(self.pid, path_text(path)),
    {
        let path = match path {
            Some(path) => path,
            None => return Ok(self.pid),
        };
        if path.is_empty() {
            return Ok(self.pid);
        }
        if let Some((mode, pid)) = cut_once(path, '/') {
            if let (Some(mode), Some(pid)) = (hex(mode), hex(pid)) {
                return Ok(Pid { mode, pid });
            }
        }
        let mut message = path.to_owned();
        message.append(" is not a mode and a parameter");
        Err(protocol_error(message))
    }

    /// Hold `bytes` as the data of the parameter `target` names, for the one
    /// request that this end then answers.
    ///
    /// # Errors
    /// A target that is not a parameter, or data no response carries.
    pub fn send(&mut self, target: &str, bytes: &[u8]) -> (result: Result<(), Error>)
        ensures
            final(self).pid == old(self).pid,
            match set_at(old(self).pid, target_path(target@), bytes@) {
                Ok(pid) => result is Ok && final(self).ecu@ == old(self).ecu@.insert(pid, bytes@),
                Err(message) => outcome(result) == Err::<(), Seq<char>>(message) && *final(self)
                    == *old(self),
            },
    {
        self.send_at(path_of(target), bytes)
    }

    /// Hold `bytes` as the data of the parameter that the path of a target
    /// names, for the one request that this end then answers.
    ///
    /// # Errors
    /// A path that is not a parameter, or data no response carries.
    pub fn send_at(&mut self, path: Option<&str>, bytes: &[u8]) -> (result: Result<(), Error>)
        ensures
            final(self).pid == old(self).pid,
            match set_at(old(self).pid, path_text(path), bytes@) {
                Ok(pid) => result is Ok && final(self).ecu@ == old(self).ecu@.insert(pid, bytes@),
                Err(message) => outcome(result) == Err::<(), Seq<char>>(message) && *final(self)
                    == *old(self),
            },
    {
        let pid = match self.overridden(path) {
            Ok(pid) => pid,
            Err(error) => return Err(error),
        };
        match within(bytes.len(), pid.ceiling(), "one OBD-II response carries") {
            Ok(_) => {},
            Err(error) => return Err(error),
        }
        self.ecu.set(pid, bytes);
        Ok(())
    }
}

/// An origin URI addresses the parameter it names, at every end and for
/// every bus whose name has no slash in it.
pub proof fn law_origin_addresses_its_parameter(own: Pid, pid: Pid, bus: Seq<char>)
    requires
        !bus.contains('/'),
    ensures
        addressed_pid(own, pid.origin_text(bus)) == Ok::<Pid, Seq<char>>(pid),
{
    reveal_strlit("/");
    assert("/"@ =~= seq!['/']);
    let mode = hex_text(pid.mode);
    let number = hex_text(pid.pid);
    let path = mode + seq!['/'] + number;
    let rest = bus + seq!['/'] + path;
    assert(pid.origin_text(bus) =~= "obd://"@ + rest);
    lemma_stripped("obd://"@, rest);
    lemma_split_once(bus, '/', path);
    lemma_digit_worth(pid.mode as int / 16);
    lemma_digit_worth(pid.mode as int % 16);
    lemma_split_once(mode, '/', number);
    lemma_hex_round_trip(pid.mode);
    lemma_hex_round_trip(pid.pid);
}

} // verus!
