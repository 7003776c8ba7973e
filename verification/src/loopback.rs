//! Both ends of one OBD-II exchange on one machine.
//!
//! A tester and an ECU meet in a session, one per round. The far end is the
//! tester, polling the parameter and taking the data as the Stream; the near
//! end is the ECU, answering the one request with the payload. A session
//! stands under its address from the moment the far end is stood up until
//! the data is taken.

use vstd::prelude::*;

#[allow(unused_imports)]
use crate::ceiling::measured;
use crate::error::{protocol_error, Error};
#[allow(unused_imports)]
use crate::error::outcome;
use crate::exchange::Asking;
#[allow(unused_imports)]
use crate::laws::{law_new_session_displaces_none, law_numbers_given_cover_one_more};
use crate::pid::{code, Pid};
#[allow(unused_imports)]
use crate::pid::VEHICLE_INFORMATION;
use crate::text::decimal;
#[allow(unused_imports)]
use crate::text::decimal_text;
use crate::transport::ObdTransport;
#[allow(unused_imports)]
use crate::transport::{law_origin_addresses_its_parameter, ECU_NAME};

verus! {

/// The address of the session with that number.
pub open spec fn session_text(number: nat) -> Seq<char> {
    "obd://loopback/"@ + decimal_text(number)
}

/// `<address> is not a session stood up here`.
pub open spec fn no_session_text(address: Seq<char>) -> Seq<char> {
    address + " is not a session stood up here"@
}

/// The number of the session that `before` others were numbered before: they
/// count from one, and round past zero once every number was given.
pub open spec fn nth_number(before: nat) -> u64 {
    ((before + 1) % 0x1_0000_0000_0000_0000) as u64
}

/// Numbers the sessions, so each address names one.
pub struct Numbering {
    next: u64,
    given: Ghost<Seq<u64>>,
}

impl View for Numbering {
    type V = Seq<u64>;

    /// The numbers given so far, in order.
    closed spec fn view(&self) -> Seq<u64> {
        self.given@
    }
}

impl Numbering {
    /// The numbers given count up from one.
    pub open spec fn wf(&self) -> bool {
        &&& self.in_step()
        &&& forall|i: int| 0 <= i < self@.len() ==> #[trigger] self@[i] == nth_number(i as nat)
    }

    /// The number to come is in step with those given.
    pub closed spec fn in_step(&self) -> bool {
        self.next == nth_number(self@.len())
    }

    /// No session is numbered.
    #[must_use]
    pub fn new() -> (numbering: Self)
        ensures
            numbering.wf(),
            numbering@ == Seq::<u64>::empty(),
    {
        Numbering { next: 1, given: Ghost(Seq::empty()) }
    }

    /// The number of one more session.
    #[must_use]
    pub fn draw(&mut self) -> (number: u64)
        requires
            old(self).wf(),
        ensures
            final(self).wf(),
            number == nth_number(old(self)@.len()),
            final(self)@ == old(self)@.push(number),
    {
        let number = self.next;
        self.next = number.wrapping_add(1);
        self.given = Ghost(self.given@.push(number));
        number
    }
}

/// The sessions stood up and not yet taken, by address.
pub struct Standing<S> {
    sessions: Vec<(String, S)>,
}

/// Which slot it was that is slot `j` once slot `gone` is taken out.
spec fn slot_before(gone: int, j: int) -> int {
    if j < gone {
        j
    } else {
        j + 1
    }
}

impl<S> View for Standing<S> {
    type V = Map<Seq<char>, S>;

    /// The session that stands under each address.
    closed spec fn view(&self) -> Map<Seq<char>, S> {
        Map::new(
            |address: Seq<char>| exists|i: int| self.stands_at(address, i),
            |address: Seq<char>| self.sessions@[choose|i: int| self.stands_at(address, i)].1,
        )
    }
}

impl<S> Standing<S> {
    /// The session in slot `i` stands under `address`.
    spec fn stands_at(&self, address: Seq<char>, i: int) -> bool {
        0 <= i < self.sessions@.len() && self.sessions@[i].0@ == address
    }

    /// Every address names one session.
    pub closed spec fn wf(&self) -> bool {
        forall|address: Seq<char>, i: int, j: int|
            self.stands_at(address, i) && self.stands_at(address, j) ==> i == j
    }

    /// No session stands.
    #[must_use]
    pub fn new() -> (standing: Self)
        ensures
            standing.wf(),
            standing@ == Map::<Seq<char>, S>::empty(),
    {
        let standing = Standing { sessions: Vec::new() };
        assert(standing@ =~= Map::<Seq<char>, S>::empty());
        standing
    }

    /// Whether no session stands.
    #[must_use]
    pub fn is_empty(&self) -> (empty: bool)
        ensures
            empty <==> self@ == Map::<Seq<char>, S>::empty(),
    {
        let empty = self.sessions.len() == 0;
        proof {
            if empty {
                assert(self@ =~= Map::<Seq<char>, S>::empty());
            } else {
                assert(self.stands_at(self.sessions@[0].0@, 0));
                assert(self@.contains_key(self.sessions@[0].0@));
            }
        }
        empty
    }

    /// The slot of the session at `address`.
    fn slot(&self, address: &str) -> (slot: Option<usize>)
        ensures
            slot matches Some(i) ==> self.stands_at(address@, i as int),
            slot is None ==> !self@.contains_key(address@),
    {
        let wanted = address.to_owned();
        let mut i: usize = 0;
        while i < self.sessions.len()
            invariant
                i <= self.sessions@.len(),
                wanted@ == address@,
                forall|j: int| 0 <= j < i ==> !self.stands_at(address@, j),
            decreases self.sessions@.len() - i,
        {
            if self.sessions[i].0 == wanted {
                return Some(i);
            }
            i = i + 1;
        }
        None
    }

    /// The session at `address`.
    #[must_use]
    pub fn get(&self, address: &str) -> (session: Option<&S>)
        requires
            self.wf(),
        ensures
            session is Some <==> self@.contains_key(address@),
            session matches Some(session) ==> *session == self@[address@],
    {
        match self.slot(address) {
            Some(i) => Some(&self.sessions[i].1),
            None => None,
        }
    }

    /// Stand `session` up at `address`, in place of what stood there.
    pub fn insert(&mut self, address: String, session: S)
        requires
            old(self).wf(),
        ensures
            final(self).wf(),
            final(self)@ == old(self)@.insert(address@, session),
    {
        match self.slot(address.as_str()) {
            Some(i) => {
                self.sessions.set(i, (address, session));
                proof {
                    assert(self.stands_at(address@, i as int));
                    assert forall|other: Seq<char>, j: int|
                        self.stands_at(other, j) == old(self).stands_at(other, j) by {}
                    assert(self@ =~= old(self)@.insert(address@, session));
                }
            },
            None => {
                let ghost last = self.sessions@.len() as int;
                self.sessions.push((address, session));
                proof {
                    assert(self.stands_at(address@, last));
                    assert forall|other: Seq<char>, j: int|
                        self.stands_at(other, j) == (old(self).stands_at(other, j) || (j == last
                            && other == address@)) by {}
                    assert(forall|j: int| !old(self).stands_at(address@, j));
                    assert(self@ =~= old(self)@.insert(address@, session));
                }
            },
        }
    }

    /// Forget the session at `address`.
    pub fn remove(&mut self, address: &str)
        requires
            old(self).wf(),
        ensures
            final(self).wf(),
            final(self)@ == old(self)@.remove(address@),
    {
        match self.slot(address) {
            Some(i) => {
                self.sessions.remove(i);
                proof {
                    let before = old(self);
                    assert forall|other: Seq<char>, j: int| self.stands_at(other, j) implies other
                        != address@ && before.stands_at(other, slot_before(i as int, j)) by {
                        assert(before.stands_at(other, slot_before(i as int, j)));
                        assert(before.stands_at(address@, i as int));
                    }
                    assert forall|other: Seq<char>, j: int|
                        before.stands_at(other, j) && other != address@ implies self.stands_at(
                        other,
                        if j < i {
                            j
                        } else {
                            j - 1
                        },
                    ) by {}
                    assert(self@ =~= before@.remove(address@));
                }
            },
            None => {
                assert(self@ =~= old(self)@.remove(address@));
            },
        }
    }
}

/// Every session that stands does so under the address of a number given.
pub open spec fn numbered<S>(given: Seq<u64>, standing: Map<Seq<char>, S>) -> bool {
    forall|address: Seq<char>| #[trigger]
        standing.contains_key(address) ==> exists|i: int|
            0 <= i < given.len() && address == session_text(#[trigger] given[i] as nat)
}

/// A tester waiting to poll its one parameter. It owns the session: the
/// address is forgotten once the data is taken.
pub struct Polling {
    pub pid: Pid,
    pub address: String,
}

impl Polling {
    /// Where the near end finds this one.
    #[must_use]
    pub fn address(&self) -> (address: &str)
        ensures
            address@ == self.address@,
    {
        self.address.as_str()
    }

    /// The poll to take the tester's link through.
    #[must_use]
    pub fn poll(&self) -> (poll: Asking)
        ensures
            poll == (Asking { pid: self.pid }),
    {
        Asking { pid: self.pid }
    }

    /// What the poll came to, data or failure; the session is forgotten
    /// whichever it was.
    pub fn take_one<S, T>(self, standing: &mut Standing<S>, taken: T) -> (result: T)
        requires
            old(standing).wf(),
        ensures
            result == taken,
            final(standing).wf(),
            final(standing)@ == old(standing)@.remove(self.address@),
            forall|given: Seq<u64>|
                numbered(given, old(standing)@) ==> #[trigger] numbered(given, final(standing)@),
    {
        standing.remove(self.address.as_str());
        taken
    }
}

impl ObdTransport {
    /// Both ends on this machine: an ECU whose far end is a tester.
    #[must_use]
    pub fn loopback() -> (end: Self)
        ensures
            end.pid == (Pid { mode: VEHICLE_INFORMATION, pid: ECU_NAME }),
            end.ecu@ == Map::<Pid, Seq<u8>>::empty(),
    {
        Self::new()
    }

    /// The most one round carries: the ISO-TP ceiling less the response
    /// header, the fact ISO 15765-4 states about one message and SAE J1979
    /// about its header.
    #[must_use]
    pub fn ceiling(&self) -> (len: Option<usize>)
        ensures
            len matches Some(len) && len == self.pid.data_ceiling(),
    {
        Some(self.pid.ceiling())
    }

    /// The ECU's end of the session at `address`.
    ///
    /// # Errors
    /// An address where no session stands.
    pub fn ecu_end<'a, S>(&self, standing: &'a Standing<S>, address: &str) -> (result: Result<
        &'a S,
        Error,
    >)
        requires
            standing.wf(),
        ensures
            match result {
                Ok(session) => standing@.contains_key(address@) && *session == standing@[address@],
                Err(error) => !standing@.contains_key(address@) && error@ == no_session_text(
                    address@,
                ),
            },
    {
        match standing.get(address) {
            Some(session) => Ok(session),
            None => {
                let mut message = address.to_owned();
                message.append(" is not a session stood up here");
                Err(protocol_error(message))
            },
        }
    }

    /// Stand `session` up under the address of a number of its own: the
    /// tester that polls this end's parameter there.
    pub fn far_end<S>(
        &self,
        numbering: &mut Numbering,
        standing: &mut Standing<S>,
        session: S,
    ) -> (far: Polling)
        requires
            old(numbering).wf(),
            old(standing).wf(),
        ensures
            final(numbering).wf(),
            final(numbering)@ == old(numbering)@.push(nth_number(old(numbering)@.len())),
            far.pid == self.pid,
            far.address@ == session_text(nth_number(old(numbering)@.len()) as nat),
            final(standing).wf(),
            final(standing)@ == old(standing)@.insert(far.address@, session),
            numbered(old(numbering)@, old(standing)@) ==> numbered(
                final(numbering)@,
                final(standing)@,
            ),
            numbered(old(numbering)@, old(standing)@) && old(numbering)@.len() <= u64::MAX
                ==> !old(standing)@.contains_key(far.address@),
    {
        proof {
            if numbered(numbering@, standing@) {
                law_numbers_given_cover_one_more(numbering@, standing@, session);
                if numbering@.len() <= u64::MAX {
                    law_new_session_displaces_none(*numbering, standing@);
                }
            }
        }
        let mut address = "obd://loopback/".to_owned();
        address.append(decimal(numbering.draw()).as_str());
        standing.insert(address.clone(), session);
        Polling { pid: self.pid, address }
    }

    /// Hold `payload` as the data of this end's parameter, for the one
    /// request that the ECU's end of the session at `address` then answers.
    ///
    /// # Errors
    /// An address where no session stands, or a payload over
    /// [`Self::ceiling`].
    pub fn send_to<'a, S>(
        &mut self,
        standing: &'a Standing<S>,
        address: &str,
        payload: &[u8],
    ) -> (result: Result<&'a S, Error>)
        requires
            standing.wf(),
        ensures
            final(self).pid == old(self).pid,
            !standing@.contains_key(address@) ==> *final(self) == *old(self) && (result matches Err(
                error,
            ) && error@ == no_session_text(address@)),
            standing@.contains_key(address@) ==> match measured(
                payload@.len(),
                old(self).pid.data_ceiling(),
                "one OBD-II response carries"@,
            ) {
                Ok(_) => {
                    &&& result matches Ok(session)
                    &&& *session == standing@[address@]
                    &&& final(self).ecu@ == old(self).ecu@.insert(old(self).pid, payload@)
                },
                Err(message) => {
                    &&& result matches Err(error)
                    &&& error@ == message
                    &&& *final(self) == *old(self)
                },
            },
    {
        let session = match self.ecu_end(standing, address) {
            Ok(session) => session,
            Err(error) => return Err(error),
        };
        let target = self.pid.origin("loopback");
        proof {
            reveal_strlit("loopback");
            law_origin_addresses_its_parameter(self.pid, self.pid, "loopback"@);
        }
        match self.send(target.as_str(), payload) {
            Ok(_) => Ok(session),
            Err(error) => Err(error),
        }
    }

    /// The refusal that a tester whose ECU was refused is answered with, and
    /// the session it goes out in, so that it is judged now rather than at
    /// its deadline; none where no session stands.
    #[must_use]
    pub fn unblock<'a, S>(&self, standing: &'a Standing<S>, address: &str) -> (refusal: Option<
        (&'a S, [u8; 3]),
    >)
        requires
            standing.wf(),
        ensures
            match refusal {
                Some((session, bytes)) => {
                    &&& standing@.contains_key(address@)
                    &&& *session == standing@[address@]
                    &&& bytes@ == self.pid.negative_bytes(code::REQUEST_OUT_OF_RANGE)
                },
                None => !standing@.contains_key(address@),
            },
    {
        match self.ecu_end(standing, address) {
            Ok(session) => Some((session, self.pid.negative(code::REQUEST_OUT_OF_RANGE))),
            Err(_) => None,
        }
    }
}

} // verus!
