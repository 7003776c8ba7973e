//! What each end makes of what the link brings it, and of what it is sent.

use vstd::prelude::*;

#[allow(unused_imports)]
use crate::ceiling::over_text;
#[allow(unused_imports)]
use crate::ecu::answered;
#[allow(unused_imports)]
use crate::exchange::{bus_text, polled};
#[allow(unused_imports)]
use crate::laws::wire::{
    law_data_is_what_follows_the_header, law_ecu_answers_with_what_it_holds,
    law_ecu_answers_zero_with_the_bitmap, law_ecu_offers_two_modes,
    law_ecu_refuses_what_is_no_request, law_setting_leaves_other_answers,
};
#[allow(unused_imports)]
use crate::laws::{law_another_answer_is_refused, law_poll_reads_what_is_held};
#[allow(unused_imports)]
use crate::pid::Pid;
#[allow(unused_imports)]
use crate::transport::{
    addressed_pid, law_origin_addresses_its_parameter, overridden_pid, reply, set_at, target_path,
};

verus! {

/// The ECU's end delivers the ECU's answer to every request that is not
/// empty, whatever is held and wherever the request came from; an empty one
/// is the tester hanging up, and a link that failed is heard of in its words.
pub proof fn law_end_delivers_the_answer(
    held: Map<Pid, Seq<u8>>,
    uri: Seq<char>,
    request: Seq<u8>,
    failure: Seq<char>,
)
    ensures
        request.len() > 0 ==> reply(held, Ok((uri, request))) == answered(held, request),
        request.len() == 0 ==> reply(held, Ok((uri, request))) == Err::<Seq<u8>, Seq<char>>(
            "the tester hung up"@,
        ),
        reply(held, Err(failure)) == Err::<Seq<u8>, Seq<char>>(failure),
{
}

/// Request by request, what the ECU's end delivers: code `13` to what is no
/// request, code `11` to a mode not offered, for parameter `00` the header
/// and the bits of what is held, and for any other the header and the data
/// held, or code `31`.
pub proof fn law_end_answers_each_request(
    held: Map<Pid, Seq<u8>>,
    uri: Seq<char>,
    request: Seq<u8>,
)
    requires
        request.len() > 0,
    ensures
        request.len() != 2 ==> reply(held, Ok((uri, request))) == Ok::<Seq<u8>, Seq<char>>(
            seq![0x7fu8, request[0], 0x13u8],
        ),
        request.len() == 2 && request[0] != 0x01 && request[0] != 0x09 ==> reply(
            held,
            Ok((uri, request)),
        ) == Ok::<Seq<u8>, Seq<char>>(seq![0x7fu8, request[0], 0x11u8]),
        request.len() == 2 && (request[0] == 0x01 || request[0] == 0x09) ==> {
            let pid = Pid { mode: request[0], pid: request[1] };
            let header = pid.header_bytes();
            let head = header.len() as int;
            &&& pid.pid == 0 ==> (reply(held, Ok((uri, request))) matches Ok(bytes) && {
                &&& bytes.len() == head + 4
                &&& forall|i: int| 0 <= i < head ==> #[trigger] bytes[i] == header[i]
                &&& forall|parameter: u8|
                    1 <= parameter <= 32 ==> (bytes[head + (parameter - 1) / 8] & (0x80u8 >> ((
                    parameter - 1) % 8) as u8) != 0 <==> #[trigger] held.contains_key(
                        Pid { mode: request[0], pid: parameter },
                    ))
            })
            &&& pid.pid != 0 && !held.contains_key(pid) ==> reply(held, Ok((uri, request))) == Ok::<
                Seq<u8>,
                Seq<char>,
            >(seq![0x7fu8, request[0], 0x31u8])
            &&& pid.pid != 0 && held.contains_key(pid) && head + held[pid].len() <= 4095 ==> (reply(
                held,
                Ok((uri, request)),
            ) matches Ok(bytes) && {
                &&& bytes.len() == head + held[pid].len()
                &&& forall|i: int| 0 <= i < head ==> #[trigger] bytes[i] == header[i]
                &&& forall|i: int|
                    0 <= i < held[pid].len() ==> bytes[head + i] == #[trigger] held[pid][i]
            })
            &&& pid.pid != 0 && held.contains_key(pid) && head + held[pid].len() > 4095 ==> reply(
                held,
                Ok((uri, request)),
            ) == Err::<Seq<u8>, Seq<char>>(
                over_text(
                    held[pid].len(),
                    (4095 - head) as nat,
                    "one OBD-II response carries"@,
                ),
            )
        },
{
    if request.len() != 2 {
        law_ecu_refuses_what_is_no_request(held, request);
    } else if request[0] != 0x01 && request[0] != 0x09 {
        assert(request =~= seq![request[0], request[1]]);
        law_ecu_offers_two_modes(held, request[0], request[1]);
    } else {
        let pid = Pid { mode: request[0], pid: request[1] };
        assert(request =~= seq![pid.mode, pid.pid]);
        if pid.pid == 0 {
            law_ecu_answers_zero_with_the_bitmap(held, pid.mode);
        } else {
            law_ecu_answers_with_what_it_holds(held, pid);
        }
    }
}

/// A poll takes data exactly from what is no three-byte refusal and begins
/// with the header of the parameter polled. The data is what follows that
/// header, byte for byte, under the parameter's origin on the bus of the
/// answer.
pub proof fn law_poll_takes_what_follows_the_header(pid: Pid, uri: Seq<char>, bytes: Seq<u8>)
    ensures
        polled(pid, Ok((uri, bytes))) is Ok <==> {
            &&& !(bytes.len() == 3 && bytes[0] == 0x7f)
            &&& bytes.len() >= pid.header_bytes().len()
            &&& forall|i: int|
                0 <= i < pid.header_bytes().len() ==> bytes[i] == #[trigger] pid.header_bytes()[i]
        },
        polled(pid, Ok((uri, bytes))) matches Ok((origin, data)) ==> {
            let head = pid.header_bytes().len() as int;
            &&& origin == pid.origin_text(bus_text(uri))
            &&& data.len() == bytes.len() - head
            &&& forall|i: int| 0 <= i < data.len() ==> #[trigger] data[i] == bytes[head + i]
        },
{
    law_data_is_what_follows_the_header(pid, bytes);
}

/// A poll that takes no data ends with what was wrong with the answer, the
/// same words as the answer's own reading, or with the link's.
pub proof fn law_poll_fails_in_the_words_of_its_cause(
    pid: Pid,
    uri: Seq<char>,
    bytes: Seq<u8>,
    failure: Seq<char>,
)
    ensures
        polled(pid, Err(failure)) == Err::<(Seq<char>, Seq<u8>), Seq<char>>(failure),
        pid.response_data(bytes) matches Err(message) ==> polled(pid, Ok((uri, bytes))) == Err::<
            (Seq<char>, Seq<u8>),
            Seq<char>,
        >(message),
{
}

/// A poll of one parameter never takes the answer to another, nor a refusal,
/// whoever sent it.
pub proof fn law_poll_refuses_other_answers(
    asked: Pid,
    other: Pid,
    data: Seq<u8>,
    code: u8,
    uri: Seq<char>,
)
    ensures
        asked != other ==> (other.responded(data) matches Ok(bytes) ==> polled(
            asked,
            Ok((uri, bytes)),
        ) is Err),
        polled(asked, Ok((uri, other.negative_bytes(code)))) is Err,
{
    if asked != other {
        law_another_answer_is_refused(asked, other, data);
    }
}

/// What is sent is set under the parameter that the target addresses, and no
/// other, where one response carries it; a target that addresses none is
/// refused as it is when addressed, and data too long by its length.
pub proof fn law_send_sets_what_is_addressed(own: Pid, target: Seq<char>, data: Seq<u8>)
    ensures
        addressed_pid(own, target) matches Ok(pid) ==> {
            let most = 4095 - pid.header_bytes().len();
            set_at(own, target_path(target), data) == (if data.len() <= most {
                Ok::<Pid, Seq<char>>(pid)
            } else {
                Err(over_text(data.len(), most as nat, "one OBD-II response carries"@))
            })
        },
        addressed_pid(own, target) matches Err(message) ==> set_at(own, target_path(target), data)
            == Err::<Pid, Seq<char>>(message),
{
}

/// The same of the path that a target was cut to.
pub proof fn law_send_sets_what_the_path_names(own: Pid, path: Option<Seq<char>>, data: Seq<u8>)
    ensures
        overridden_pid(own, path) matches Ok(pid) ==> {
            let most = 4095 - pid.header_bytes().len();
            set_at(own, path, data) == (if data.len() <= most {
                Ok::<Pid, Seq<char>>(pid)
            } else {
                Err(over_text(data.len(), most as nat, "one OBD-II response carries"@))
            })
        },
        overridden_pid(own, path) matches Err(message) ==> set_at(own, path, data) == Err::<
            Pid,
            Seq<char>,
        >(message),
{
}

/// Data sent to the origin of a parameter is set under that parameter, at
/// every end, whatever the end's own parameter is.
pub proof fn law_send_to_an_origin_sets_its_parameter(
    own: Pid,
    pid: Pid,
    bus: Seq<char>,
    data: Seq<u8>,
)
    requires
        !bus.contains('/'),
        pid.header_bytes().len() + data.len() <= 4095,
    ensures
        set_at(own, target_path(pid.origin_text(bus)), data) == Ok::<Pid, Seq<char>>(pid),
{
    law_origin_addresses_its_parameter(own, pid, bus);
    law_send_sets_what_is_addressed(own, pid.origin_text(bus), data);
}

/// A tester that polls the parameter just sent takes the data sent, and one
/// that polls any other, parameter `00` apart, gets the answer it would have
/// got before.
pub proof fn law_sent_data_is_polled_back(
    own: Pid,
    target: Seq<char>,
    held: Map<Pid, Seq<u8>>,
    data: Seq<u8>,
    other: Pid,
    uri: Seq<char>,
)
    requires
        set_at(own, target_path(target), data) is Ok,
    ensures
        ({
            let pid = set_at(own, target_path(target), data)->Ok_0;
            let after = held.insert(pid, data);
            &&& (pid.mode == 0x01 || pid.mode == 0x09) && pid.pid != 0 ==> (reply(
                after,
                Ok((uri, seq![pid.mode, pid.pid])),
            ) matches Ok(bytes) && polled(pid, Ok((uri, bytes))) == Ok::<
                (Seq<char>, Seq<u8>),
                Seq<char>,
            >((pid.origin_text(bus_text(uri)), data)))
            &&& other != pid && other.pid != 0 ==> reply(
                after,
                Ok((uri, seq![other.mode, other.pid])),
            ) == reply(held, Ok((uri, seq![other.mode, other.pid])))
        }),
{
    let pid = set_at(own, target_path(target), data)->Ok_0;
    let after = held.insert(pid, data);
    law_poll_reads_what_is_held(after, pid);
    assert(pid.request_bytes() =~= seq![pid.mode, pid.pid]);
    if other != pid && other.pid != 0 {
        let request = seq![other.mode, other.pid];
        assert(request[0] == other.mode && request[1] == other.pid);
        assert(seq![pid.mode, pid.pid][0] == pid.mode && seq![pid.mode, pid.pid][1] == pid.pid);
        assert(seq![pid.mode, 0x00u8][1] == 0);
        law_setting_leaves_other_answers(held, pid, data, request);
    }
}

} // verus!
