//! What holds of the protocol as a whole, across the functions that speak it.

pub mod ends;
pub mod wire;
pub mod words;

use vstd::prelude::*;

#[allow(unused_imports)]
use crate::ceiling::CLASSIC_CEILING;
#[allow(unused_imports)]
use crate::ecu::{answered, bitmap, flags, named_mode, offered};
#[allow(unused_imports)]
use crate::exchange::{bus_text, polled};
#[allow(unused_imports)]
use crate::loopback::{nth_number, numbered, session_text, Numbering};
#[allow(unused_imports)]
use crate::pid::{code, refused_text, Pid, SUPPORTED};
#[allow(unused_imports)]
use crate::text::{lemma_decimal_tells_apart, lemma_split_once, lemma_stripped};
#[allow(unused_imports)]
use crate::transport::{addressed_pid, reply};

verus! {

/// A request reads back as the parameter it asks for, and every request that
/// reads is the one that parameter makes.
pub proof fn law_request_reads_back(pid: Pid, bytes: Seq<u8>)
    ensures
        Pid::requested(pid.request_bytes()) == Ok::<Pid, Seq<char>>(pid),
        Pid::requested(bytes) matches Ok(read) ==> read.request_bytes() == bytes,
{
    if Pid::requested(bytes) is Ok {
        assert((Pid::requested(bytes)->Ok_0).request_bytes() =~= bytes);
    }
}

/// A response echoes the mode with `0x40` added, where the sum is a byte.
pub proof fn law_positive_adds(pid: Pid)
    requires
        pid.mode <= 0xbf,
    ensures
        pid.header_bytes()[0] == pid.mode + 0x40,
        pid.header_bytes()[1] == pid.pid,
{
}

/// A response exists exactly if header and data fit one ISO-TP message, and
/// is then the header and the data.
pub proof fn law_response_fits_one_message(pid: Pid, data: Seq<u8>)
    ensures
        pid.responded(data) is Ok <==> pid.header_bytes().len() + data.len() <= CLASSIC_CEILING,
        pid.responded(data) matches Ok(bytes) ==> bytes.len() == pid.header_bytes().len()
            + data.len(),
{
}

/// What a response carries reads back whole. The one response that does not
/// is a single byte from mode `3f`, whose echo is the negative marker: its
/// three bytes are those of a refusal.
pub proof fn law_response_reads_back(pid: Pid, data: Seq<u8>)
    requires
        data.len() <= pid.data_ceiling(),
        !(data.len() == 1 && pid.mode == 0x3f),
    ensures
        pid.responded(data) matches Ok(bytes) && pid.response_data(bytes) == Ok::<
            Seq<u8>,
            Seq<char>,
        >(data),
{
    let header = pid.header_bytes();
    let bytes = header + data;
    assert(bytes.take(2) =~= header.take(2));
    assert(header =~= bytes.subrange(0, header.len() as int));
    assert(bytes.skip(header.len() as int) =~= data);
}

/// A response that reads is the one that carries the data read from it.
pub proof fn law_read_data_was_responded(pid: Pid, bytes: Seq<u8>)
    requires
        bytes.len() <= CLASSIC_CEILING,
    ensures
        pid.response_data(bytes) matches Ok(data) ==> pid.responded(data) == Ok::<
            Seq<u8>,
            Seq<char>,
        >(bytes),
{
    if pid.response_data(bytes) is Ok {
        let header = pid.header_bytes();
        assert(header + bytes.skip(header.len() as int) =~= bytes);
    }
}

/// A negative response is refused whichever parameter was asked for, with
/// the mode and the code it names.
pub proof fn law_negative_is_refused(asked: Pid, answering: Pid, code: u8)
    ensures
        asked.response_data(answering.negative_bytes(code)) == Err::<Seq<u8>, Seq<char>>(
            refused_text(answering.mode, code),
        ),
{
}

/// The answer to one parameter is never read as the answer to another.
pub proof fn law_another_answer_is_refused(asked: Pid, other: Pid, data: Seq<u8>)
    requires
        asked != other,
    ensures
        other.responded(data) matches Ok(bytes) ==> asked.response_data(bytes) is Err,
{
    if let Ok(bytes) = other.responded(data) {
        assert(bytes.take(2)[0] == other.echo());
        assert(bytes.take(2)[1] == other.pid);
        assert(asked.header_bytes().take(2)[0] == asked.echo());
        assert(asked.header_bytes().take(2)[1] == asked.pid);
    }
}

/// In the bitmap, the bit of each of the thirty-two parameters is set exactly
/// if that parameter is held: the highest bit of the first byte is
/// parameter `01`, the lowest of the last is parameter `20`.
pub proof fn law_bitmap_tells_what_is_held(held: Map<Pid, Seq<u8>>, mode: u8, parameter: u8)
    requires
        1 <= parameter <= 32,
    ensures
        bitmap(held, mode).len() == 4,
        bitmap(held, mode)[(parameter - 1) / 8] & (0x80u8 >> ((parameter - 1) % 8) as u8) != 0
            <==> held.contains_key(Pid { mode, pid: parameter }),
{
    let group = (parameter - 1) / 8;
    let first = 8 * group + 1;
    let bit = |i: int|
        if held.contains_key(Pid { mode, pid: (first + i) as u8 }) {
            1u8
        } else {
            0u8
        };
    let (a, b, c, d) = (bit(0), bit(1), bit(2), bit(3));
    let (e, f, g, h) = (bit(4), bit(5), bit(6), bit(7));
    reveal_with_fuel(flags, 9);
    let byte = bitmap(held, mode)[group];
    assert(flags(held, mode, first, 8) == 128 * a + 64 * b + 32 * c + 16 * d + 8 * e + 4 * f + 2 * g
        + h);
    let at = ((parameter - 1) % 8) as u8;
    assert(byte & (0x80u8 >> at) != 0 <==> (if at == 0 {
        a
    } else if at == 1 {
        b
    } else if at == 2 {
        c
    } else if at == 3 {
        d
    } else if at == 4 {
        e
    } else if at == 5 {
        f
    } else if at == 6 {
        g
    } else {
        h
    }) == 1) by (bit_vector)
        requires
            byte == 128 * a + 64 * b + 32 * c + 16 * d + 8 * e + 4 * f + 2 * g + h,
            a <= 1,
            b <= 1,
            c <= 1,
            d <= 1,
            e <= 1,
            f <= 1,
            g <= 1,
            h <= 1,
            at < 8,
    ;
}

/// Setting a parameter of another mode, or one beyond the thirty-two, leaves
/// the bitmap as it was; parameter `00` itself is among the latter.
pub proof fn law_bitmap_ignores_the_rest(
    held: Map<Pid, Seq<u8>>,
    mode: u8,
    pid: Pid,
    data: Seq<u8>,
)
    requires
        pid.mode != mode || pid.pid < 1 || pid.pid > 32,
    ensures
        bitmap(held.insert(pid, data), mode) == bitmap(held, mode),
{
    let more = held.insert(pid, data);
    assert forall|i: int| 0 <= i < 4 implies bitmap(more, mode)[i] == bitmap(held, mode)[i] by {
        reveal_with_fuel(flags, 9);
    }
    assert(bitmap(more, mode) =~= bitmap(held, mode));
}

/// An ECU fails to answer only where it holds, for the parameter asked for,
/// more data than a response carries; every answer it gives fits one ISO-TP
/// message.
pub proof fn law_ecu_answers_in_one_message(held: Map<Pid, Seq<u8>>, request: Seq<u8>)
    ensures
        answered(held, request) is Err <==> (Pid::requested(request) matches Ok(pid) && offered(
            pid.mode,
        ) && pid.pid != SUPPORTED && held.contains_key(pid) && held[pid].len()
            > pid.data_ceiling()),
        answered(held, request) matches Ok(bytes) ==> bytes.len() <= CLASSIC_CEILING,
{
}

/// A tester that asks an ECU for a parameter reads the data held, or for
/// parameter `00` the bitmap, and is refused a mode that is not offered and a
/// parameter that is not held with the code that says so.
pub proof fn law_poll_reads_what_is_held(held: Map<Pid, Seq<u8>>, pid: Pid)
    requires
        held.contains_key(pid) ==> held[pid].len() <= pid.data_ceiling(),
    ensures
        answered(held, pid.request_bytes()) matches Ok(bytes) && pid.response_data(bytes) == (
        if !offered(pid.mode) {
            Err::<Seq<u8>, Seq<char>>(refused_text(pid.mode, code::SERVICE_NOT_SUPPORTED))
        } else if pid.pid == SUPPORTED {
            Ok(bitmap(held, pid.mode))
        } else if held.contains_key(pid) {
            Ok(held[pid])
        } else {
            Err(refused_text(pid.mode, code::REQUEST_OUT_OF_RANGE))
        }),
{
    law_request_reads_back(pid, pid.request_bytes());
    if offered(pid.mode) {
        if pid.pid == SUPPORTED {
            law_response_reads_back(pid, bitmap(held, pid.mode));
        } else if held.contains_key(pid) {
            law_response_reads_back(pid, held[pid]);
        }
    }
}

/// What is not a request is answered with the refusal that says so, which
/// every tester reads as one.
pub proof fn law_misshapen_request_is_refused(
    held: Map<Pid, Seq<u8>>,
    request: Seq<u8>,
    asked: Pid,
)
    requires
        request.len() != 2,
    ensures
        answered(held, request) matches Ok(bytes) && asked.response_data(bytes) == Err::<
            Seq<u8>,
            Seq<char>,
        >(refused_text(named_mode(request), code::INCORRECT_MESSAGE_LENGTH)),
{
}

/// One round: the ECU's end holds the payload, collects the tester's request
/// and replies; the tester collects the reply and takes the payload whole,
/// under the origin of the parameter on the bus of the reply. Parameter `00`
/// yields the bitmap whatever the payload, and a mode that is not offered is
/// refused.
pub proof fn law_round_returns_the_payload(
    held: Map<Pid, Seq<u8>>,
    pid: Pid,
    payload: Seq<u8>,
    request_uri: Seq<char>,
    reply_uri: Seq<char>,
)
    requires
        payload.len() <= pid.data_ceiling(),
    ensures
        reply(held.insert(pid, payload), Ok((request_uri, pid.request_bytes()))) matches Ok(bytes)
            && polled(pid, Ok((reply_uri, bytes))) == (if !offered(pid.mode) {
            Err::<(Seq<char>, Seq<u8>), Seq<char>>(
                refused_text(pid.mode, code::SERVICE_NOT_SUPPORTED),
            )
        } else if pid.pid == SUPPORTED {
            Ok((pid.origin_text(bus_text(reply_uri)), bitmap(held, pid.mode)))
        } else {
            Ok((pid.origin_text(bus_text(reply_uri)), payload))
        }),
{
    law_poll_reads_what_is_held(held.insert(pid, payload), pid);
    if pid.pid == SUPPORTED {
        law_bitmap_ignores_the_rest(held, pid.mode, pid, payload);
    }
}

/// A tester that is unblocked after a refused send is refused at once.
pub proof fn law_unblocked_tester_is_refused(pid: Pid, uri: Seq<char>)
    ensures
        polled(pid, Ok((uri, pid.negative_bytes(code::REQUEST_OUT_OF_RANGE)))) == Err::<
            (Seq<char>, Seq<u8>),
            Seq<char>,
        >(refused_text(pid.mode, code::REQUEST_OUT_OF_RANGE)),
{
    law_negative_is_refused(pid, pid, code::REQUEST_OUT_OF_RANGE);
}

/// The bus of an ISO-TP origin is what stands before the next slash.
pub proof fn law_bus_is_read_from_its_origin(bus: Seq<char>, rest: Seq<char>)
    requires
        !bus.contains('/'),
    ensures
        bus_text("isotp://"@ + bus) == bus,
        bus_text("isotp://"@ + (bus + seq!['/'] + rest)) == bus,
{
    lemma_stripped("isotp://"@, bus);
    lemma_stripped("isotp://"@, bus + seq!['/'] + rest);
    lemma_split_once(bus, '/', rest);
    bus.index_of_first_ensures('/');
}

/// A target that names a bus and no parameter keeps the end's own.
pub proof fn law_bare_target_keeps_the_parameter(own: Pid, bus: Seq<char>)
    requires
        !bus.contains('/'),
    ensures
        addressed_pid(own, "obd://"@ + bus) == Ok::<Pid, Seq<char>>(own),
        addressed_pid(own, "obd://"@ + (bus + seq!['/'])) == Ok::<Pid, Seq<char>>(own),
{
    lemma_stripped("obd://"@, bus);
    lemma_stripped("obd://"@, bus + seq!['/']);
    lemma_split_once(bus, '/', Seq::empty());
    assert(bus + seq!['/'] + Seq::empty() =~= bus + seq!['/']);
    bus.index_of_first_ensures('/');
}

/// Sessions of different numbers stand under different addresses.
pub proof fn law_addresses_tell_sessions_apart(left: nat, right: nat)
    requires
        left != right,
    ensures
        session_text(left) != session_text(right),
{
    let prefix = "obd://loopback/"@;
    if session_text(left) == session_text(right) {
        let len = prefix.len() as int;
        assert(session_text(left).skip(len) =~= crate::text::decimal_text(left));
        assert(session_text(right).skip(len) =~= crate::text::decimal_text(right));
        lemma_decimal_tells_apart(left, right);
    }
}

/// Of fewer than 2^64 sessions numbered, no two stand under one address, and
/// none stands under the address of number zero.
pub proof fn law_each_address_names_one_session(numbering: Numbering, first: int, second: int)
    requires
        numbering.wf(),
        numbering@.len() <= u64::MAX,
        0 <= first < numbering@.len(),
        0 <= second < numbering@.len(),
        first != second,
    ensures
        numbering@[first] >= 1,
        session_text(numbering@[first] as nat) != session_text(numbering@[second] as nat),
        session_text(numbering@[first] as nat) != session_text(0),
{
    law_addresses_tell_sessions_apart(numbering@[first] as nat, numbering@[second] as nat);
    law_addresses_tell_sessions_apart(numbering@[first] as nat, 0);
}

/// A session stood up and taken leaves what stands as it was, and while it
/// stands every other session stands beside it unchanged.
pub proof fn law_taken_session_is_forgotten<S>(
    standing: Map<Seq<char>, S>,
    number: nat,
    other: nat,
    session: S,
)
    requires
        !standing.contains_key(session_text(number)),
        number != other,
    ensures
        standing.insert(session_text(number), session).remove(session_text(number)) == standing,
        standing.insert(session_text(number), session).contains_key(session_text(other))
            == standing.contains_key(session_text(other)),
        standing.contains_key(session_text(other)) ==> standing.insert(
            session_text(number),
            session,
        )[session_text(other)] == standing[session_text(other)],
{
    law_addresses_tell_sessions_apart(number, other);
    assert(standing.insert(session_text(number), session).remove(session_text(number))
        =~= standing);
}

/// What stands stays numbered while more numbers are given, and with a
/// session stood up under the next of them; nothing stands to begin with.
pub proof fn law_numbers_given_cover_one_more<S>(
    given: Seq<u64>,
    standing: Map<Seq<char>, S>,
    session: S,
)
    requires
        numbered(given, standing),
    ensures
        numbered(Seq::empty(), Map::<Seq<char>, S>::empty()),
        forall|number: u64| numbered(#[trigger] given.push(number), standing),
        numbered(
            given.push(nth_number(given.len())),
            standing.insert(session_text(nth_number(given.len()) as nat), session),
        ),
{
    assert forall|number: u64| numbered(#[trigger] given.push(number), standing) by {
        let more = given.push(number);
        assert forall|address: Seq<char>| #[trigger]
            standing.contains_key(address) implies exists|i: int|
            0 <= i < more.len() && address == session_text(#[trigger] more[i] as nat) by {
            let i = choose|i: int|
                0 <= i < given.len() && address == session_text(#[trigger] given[i] as nat);
            assert(more[i] == given[i]);
        }
    }
    let number = nth_number(given.len());
    let more = given.push(number);
    let grown = standing.insert(session_text(number as nat), session);
    assert forall|address: Seq<char>| #[trigger] grown.contains_key(address) implies exists|i: int|
        0 <= i < more.len() && address == session_text(#[trigger] more[i] as nat) by {
        if address == session_text(number as nat) {
            assert(more[given.len() as int] == number);
        } else {
            assert(standing.contains_key(address));
            assert(numbered(more, standing));
        }
    }
}

/// Where every session that stands was numbered, and fewer than 2^64 numbers
/// were given, no session stands under the address of the next.
pub proof fn law_new_session_displaces_none<S>(numbering: Numbering, standing: Map<Seq<char>, S>)
    requires
        numbering.wf(),
        numbered(numbering@, standing),
        numbering@.len() <= u64::MAX,
    ensures
        !standing.contains_key(session_text(nth_number(numbering@.len()) as nat)),
{
    let number = nth_number(numbering@.len());
    let address = session_text(number as nat);
    if standing.contains_key(address) {
        let i = choose|i: int|
            0 <= i < numbering@.len() && address == session_text(#[trigger] numbering@[i] as nat);
        assert(numbering@[i] == nth_number(i as nat));
        law_addresses_tell_sessions_apart(number as nat, numbering@[i] as nat);
    }
}

/// A numbered session stood up and taken leaves what stands as it was.
pub proof fn law_round_leaves_what_stood<S>(
    numbering: Numbering,
    standing: Map<Seq<char>, S>,
    session: S,
)
    requires
        numbering.wf(),
        numbered(numbering@, standing),
        numbering@.len() <= u64::MAX,
    ensures
        ({
            let address = session_text(nth_number(numbering@.len()) as nat);
            standing.insert(address, session).remove(address) == standing
        }),
{
    law_new_session_displaces_none(numbering, standing);
    let address = session_text(nth_number(numbering@.len()) as nat);
    assert(standing.insert(address, session).remove(address) =~= standing);
}

} // verus!
