//! What goes over the wire, byte by byte: requests, responses, refusals and
//! the answers of an ECU.

use vstd::prelude::*;

#[allow(unused_imports)]
use crate::ceiling::over_text;
#[allow(unused_imports)]
use crate::ecu::{answered, bitmap, offered};
#[allow(unused_imports)]
use crate::laws::{law_bitmap_ignores_the_rest, law_bitmap_tells_what_is_held};
#[allow(unused_imports)]
use crate::pid::{
    code, mismatch_text, refused_text, Pid, CURRENT_DATA, ECU, FUNCTIONAL, NEGATIVE, POSITIVE,
    SUPPORTED, VEHICLE_INFORMATION,
};
#[allow(unused_imports)]
use crate::transport::ECU_NAME;

verus! {

/// The numbers that the two ends have to agree on are those of the standards.
pub proof fn law_numbers_are_the_standards()
    ensures
        CURRENT_DATA == 0x01,
        VEHICLE_INFORMATION == 0x09,
        POSITIVE == 0x40,
        NEGATIVE == 0x7f,
        SUPPORTED == 0x00,
        ECU_NAME == 0x0a,
        FUNCTIONAL == 0x7df,
        ECU == 0x7e8,
        code::SERVICE_NOT_SUPPORTED == 0x11,
        code::INCORRECT_MESSAGE_LENGTH == 0x13,
        code::REQUEST_OUT_OF_RANGE == 0x31,
{
}

/// A request is two bytes, the mode and the parameter, and whatever is two
/// bytes asks for the parameter they name.
pub proof fn law_request_is_mode_and_parameter(pid: Pid, bytes: Seq<u8>)
    ensures
        pid.request_bytes().len() == 2,
        pid.request_bytes()[0] == pid.mode,
        pid.request_bytes()[1] == pid.pid,
        Pid::requested(bytes) is Ok <==> bytes.len() == 2,
        Pid::requested(bytes) matches Ok(asked) ==> asked.mode == bytes[0] && asked.pid == bytes[1],
        Pid::requested(bytes) matches Err(message) ==> message
            == "an OBD-II request is a mode and a parameter"@,
{
}

/// The header of a response is the mode with `0x40` added, the parameter,
/// and for mode `09` alone a third byte, one; what it leaves of an ISO-TP
/// message's 4095 bytes is the most data there is.
pub proof fn law_header_says_what_it_answers(pid: Pid)
    ensures
        pid.header_bytes().len() == (if pid.mode == 0x09 {
            3nat
        } else {
            2nat
        }),
        pid.header_bytes()[0] == (pid.mode + 0x40) % 256,
        pid.header_bytes()[1] == pid.pid,
        pid.mode == 0x09 ==> pid.header_bytes()[2] == 1,
        pid.header_bytes().len() + pid.data_ceiling() == 4095,
{
}

/// A response is the header, and after it the data in its own order, where
/// the two are no more than 4095 bytes; else the message says how long the
/// data is and how much it may be.
pub proof fn law_response_is_header_then_data(pid: Pid, data: Seq<u8>)
    ensures
        pid.responded(data) is Ok <==> pid.header_bytes().len() + data.len() <= 4095,
        pid.responded(data) matches Ok(bytes) ==> {
            let head = pid.header_bytes().len() as int;
            &&& bytes.len() == head + data.len()
            &&& forall|i: int| 0 <= i < head ==> #[trigger] bytes[i] == pid.header_bytes()[i]
            &&& forall|i: int| 0 <= i < data.len() ==> bytes[head + i] == #[trigger] data[i]
        },
        pid.responded(data) matches Err(message) ==> message == over_text(
            data.len(),
            (4095 - pid.header_bytes().len()) as nat,
            "one OBD-II response carries"@,
        ),
{
}

/// A response reads exactly if it is no three-byte refusal and begins with
/// the header of the parameter asked for, and then as the bytes that follow
/// it, in their own order.
pub proof fn law_data_is_what_follows_the_header(pid: Pid, bytes: Seq<u8>)
    ensures
        pid.response_data(bytes) is Ok <==> {
            &&& !(bytes.len() == 3 && bytes[0] == 0x7f)
            &&& bytes.len() >= pid.header_bytes().len()
            &&& forall|i: int|
                0 <= i < pid.header_bytes().len() ==> bytes[i] == #[trigger] pid.header_bytes()[i]
        },
        pid.response_data(bytes) matches Ok(data) ==> {
            let head = pid.header_bytes().len() as int;
            &&& data.len() == bytes.len() - head
            &&& forall|i: int| 0 <= i < data.len() ==> #[trigger] data[i] == bytes[head + i]
        },
{
    let header = pid.header_bytes();
    let head = header.len() as int;
    if bytes.len() >= head {
        if forall|i: int| 0 <= i < head ==> bytes[i] == #[trigger] header[i] {
            assert(header =~= bytes.subrange(0, head));
            assert(bytes.take(2) =~= header.take(2)) by {
                assert(bytes[0] == header[0]);
                assert(bytes[1] == header[1]);
            }
        }
        if header.is_prefix_of(bytes) {
            assert forall|i: int| 0 <= i < head implies bytes[i] == #[trigger] header[i] by {
                assert(bytes.subrange(0, head)[i] == bytes[i]);
            }
        }
    }
}

/// A response that does not read is told by what is wrong with it: the mode
/// and code of a refusal, its being too short, the two bytes it begins with
/// where they are another parameter's, or else the count of its items.
pub proof fn law_unread_response_is_told_by_its_fault(pid: Pid, bytes: Seq<u8>)
    ensures
        bytes.len() == 3 && bytes[0] == 0x7f ==> pid.response_data(bytes) == Err::<
            Seq<u8>,
            Seq<char>,
        >(refused_text(bytes[1], bytes[2])),
        bytes.len() < pid.header_bytes().len() && !(bytes.len() == 3 && bytes[0] == 0x7f)
            ==> pid.response_data(bytes) == Err::<Seq<u8>, Seq<char>>(
            "a response too short for its header"@,
        ),
        bytes.len() >= pid.header_bytes().len() && !(bytes.len() == 3 && bytes[0] == 0x7f) && (
        bytes[0] != (pid.mode + 0x40) % 256 || bytes[1] != pid.pid) ==> pid.response_data(bytes)
            == Err::<Seq<u8>, Seq<char>>(mismatch_text(bytes[0] & 0xbfu8, bytes[1], pid)),
        pid.mode == 0x09 && bytes.len() >= 3 && bytes[0] == 0x49 && bytes[1] == pid.pid && bytes[2]
            != 1 ==> pid.response_data(bytes) == Err::<Seq<u8>, Seq<char>>(
            "a vehicle information item counted other than once"@,
        ),
{
    let header = pid.header_bytes();
    assert(!0x40u8 == 0xbfu8) by (bit_vector);
    if bytes.len() >= header.len() {
        if bytes.take(2) == header.take(2) {
            assert(bytes.take(2)[0] == header.take(2)[0]);
            assert(bytes.take(2)[1] == header.take(2)[1]);
        }
        if bytes[0] == header[0] && bytes[1] == header[1] {
            assert(bytes.take(2) =~= header.take(2));
        }
        if header.is_prefix_of(bytes) {
            assert(forall|i: int|
                0 <= i < header.len() ==> bytes.subrange(0, header.len() as int)[i] == bytes[i]);
            assert(header.len() == 3 ==> header[2] == bytes[2]);
        }
    }
}

/// A refusal is three bytes: `7f`, the mode, the code.
pub proof fn law_refusal_is_three_bytes(pid: Pid, code: u8)
    ensures
        pid.negative_bytes(code).len() == 3,
        pid.negative_bytes(code)[0] == 0x7f,
        pid.negative_bytes(code)[1] == pid.mode,
        pid.negative_bytes(code)[2] == code,
{
}

/// What is not two bytes is refused with code `13` and the mode it begins
/// with, or zero where it is empty.
pub proof fn law_ecu_refuses_what_is_no_request(held: Map<Pid, Seq<u8>>, request: Seq<u8>)
    requires
        request.len() != 2,
    ensures
        answered(held, request) == Ok::<Seq<u8>, Seq<char>>(
            seq![
                0x7fu8,
                if request.len() == 0 {
                    0u8
                } else {
                    request[0]
                },
                0x13u8,
            ],
        ),
{
}

/// The modes offered are `01` and `09`; a request of any other is refused
/// with code `11`, whatever is held.
pub proof fn law_ecu_offers_two_modes(held: Map<Pid, Seq<u8>>, mode: u8, parameter: u8)
    ensures
        offered(mode) <==> mode == 0x01 || mode == 0x09,
        mode != 0x01 && mode != 0x09 ==> answered(held, seq![mode, parameter]) == Ok::<
            Seq<u8>,
            Seq<char>,
        >(seq![0x7fu8, mode, 0x11u8]),
{
}

/// Parameter `00` of an offered mode is answered with the header and four
/// bytes, in which the bit of each parameter from `01` to `20` tells whether
/// that parameter is held; it makes no difference whether `00` itself is.
pub proof fn law_ecu_answers_zero_with_the_bitmap(held: Map<Pid, Seq<u8>>, mode: u8)
    requires
        mode == 0x01 || mode == 0x09,
    ensures
        answered(held, seq![mode, 0x00u8]) matches Ok(bytes) && {
            let header = (Pid { mode, pid: 0 }).header_bytes();
            let head = header.len() as int;
            &&& bytes.len() == head + 4
            &&& forall|i: int| 0 <= i < head ==> #[trigger] bytes[i] == header[i]
            &&& forall|parameter: u8|
                1 <= parameter <= 32 ==> (bytes[head + (parameter - 1) / 8] & (0x80u8 >> ((parameter
                    - 1) % 8) as u8) != 0 <==> #[trigger] held.contains_key(
                    Pid { mode, pid: parameter },
                ))
        },
{
    let pid = Pid { mode, pid: 0 };
    law_response_is_header_then_data(pid, bitmap(held, mode));
    let bytes = answered(held, seq![mode, 0x00u8])->Ok_0;
    let head = pid.header_bytes().len() as int;
    assert forall|parameter: u8| 1 <= parameter <= 32 implies (bytes[head + (parameter - 1) / 8] & (
    0x80u8 >> ((parameter - 1) % 8) as u8) != 0 <==> #[trigger] held.contains_key(
        Pid { mode, pid: parameter },
    )) by {
        law_bitmap_tells_what_is_held(held, mode, parameter);
        assert(bytes[head + (parameter - 1) / 8] == bitmap(held, mode)[(parameter - 1) / 8]);
    }
}

/// Any other parameter of an offered mode is answered with the header and the
/// data held, byte for byte; where nothing is held it is refused with code
/// `31`, and where what is held is too long there is no answer.
pub proof fn law_ecu_answers_with_what_it_holds(held: Map<Pid, Seq<u8>>, pid: Pid)
    requires
        pid.mode == 0x01 || pid.mode == 0x09,
        pid.pid != 0,
    ensures
        !held.contains_key(pid) ==> answered(held, seq![pid.mode, pid.pid]) == Ok::<
            Seq<u8>,
            Seq<char>,
        >(seq![0x7fu8, pid.mode, 0x31u8]),
        held.contains_key(pid) ==> {
            let head = pid.header_bytes().len() as int;
            &&& answered(held, seq![pid.mode, pid.pid]) is Ok <==> head + held[pid].len() <= 4095
            &&& answered(held, seq![pid.mode, pid.pid]) matches Ok(bytes) ==> {
                &&& bytes.len() == head + held[pid].len()
                &&& forall|i: int| 0 <= i < head ==> #[trigger] bytes[i] == pid.header_bytes()[i]
                &&& forall|i: int|
                    0 <= i < held[pid].len() ==> bytes[head + i] == #[trigger] held[pid][i]
            }
            &&& answered(held, seq![pid.mode, pid.pid]) matches Err(message) ==> message
                == over_text(
                held[pid].len(),
                (4095 - head) as nat,
                "one OBD-II response carries"@,
            )
        },
{
    assert(Pid::requested(seq![pid.mode, pid.pid]) == Ok::<Pid, Seq<char>>(pid));
    if held.contains_key(pid) {
        law_response_is_header_then_data(pid, held[pid]);
    }
}

/// Setting one parameter leaves the answer to every other request as it was,
/// but for the bitmap of its mode.
pub proof fn law_setting_leaves_other_answers(
    held: Map<Pid, Seq<u8>>,
    pid: Pid,
    data: Seq<u8>,
    request: Seq<u8>,
)
    requires
        request != seq![pid.mode, pid.pid],
        request != seq![pid.mode, 0x00u8] || pid.pid > 32,
    ensures
        answered(held.insert(pid, data), request) == answered(held, request),
{
    if request.len() == 2 {
        let asked = Pid { mode: request[0], pid: request[1] };
        assert(request =~= seq![asked.mode, asked.pid]);
        if asked.pid == 0 {
            if asked.mode == pid.mode {
                assert(request =~= seq![pid.mode, 0x00u8]);
            }
            law_bitmap_ignores_the_rest(held, asked.mode, pid, data);
        }
    }
}

} // verus!
