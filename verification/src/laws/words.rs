//! What the texts say, sign by sign: numbers, cuts, URIs and messages.

use vstd::prelude::*;

#[allow(unused_imports)]
use crate::ceiling::{measured, over_text};
#[allow(unused_imports)]
use crate::error::{outcome, Error};
#[allow(unused_imports)]
use crate::exchange::{bus_text, Arrived};
#[allow(unused_imports)]
use crate::loopback::{no_session_text, nth_number, session_text};
#[allow(unused_imports)]
use crate::pid::{mismatch_text, refused_text, Pid};
#[allow(unused_imports)]
use crate::text::{
    before, decimal_text, digit_char, digit_value, hex_text, hex_value, is_hex_number,
    lemma_digit_worth, lemma_split_once, lemma_stripped, parsed_hex, split_once, stripped,
    unsigned_text,
};
#[allow(unused_imports)]
use crate::transport::{
    addressed_pid, law_origin_addresses_its_parameter, overridden_pid, path_text, target_path,
};

verus! {

/// The sign of a digit: `0` to `9`, then `a` to `f`, one after the other.
pub open spec fn digit_sign(value: int) -> int {
    if value < 10 {
        48 + value
    } else {
        87 + value
    }
}

/// A byte is written as four signs, `0`, `x` and the two digits that make it
/// up, the one of the sixteens first.
pub proof fn law_hex_is_four_signs(byte: u8)
    ensures
        hex_text(byte).len() == 4,
        hex_text(byte)[0] == '0',
        hex_text(byte)[1] == 'x',
        hex_text(byte)[2] as int == digit_sign(byte as int / 16),
        hex_text(byte)[3] as int == digit_sign(byte as int % 16),
        !hex_text(byte).contains('/'),
{
    reveal_strlit("0123456789abcdef");
    assert forall|value: int| 0 <= value < 16 implies #[trigger] digit_char(value) as int
        == digit_sign(value) by {}
    assert forall|i: int| 0 <= i < 4 implies #[trigger] hex_text(byte)[i] != '/' by {
        lemma_digit_worth(byte as int / 16);
        lemma_digit_worth(byte as int % 16);
    }
}

/// A number's last decimal digit is what it leaves over ten, and the digits
/// before it are those of its tenth; below ten there are none before it.
pub proof fn law_decimal_is_digit_by_digit(number: nat)
    ensures
        decimal_text(number).len() >= 1,
        decimal_text(number).last() as int == 48 + number % 10,
        number < 10 ==> decimal_text(number).len() == 1,
        number >= 10 ==> decimal_text(number).drop_last() == decimal_text(number / 10),
        decimal_text(number)[0] == '0' ==> number == 0,
    decreases number,
{
    reveal_strlit("0123456789abcdef");
    assert forall|value: int| 0 <= value < 10 implies #[trigger] digit_char(value) as int == 48
        + value by {}
    if number >= 10 {
        law_decimal_is_digit_by_digit(number / 10);
        assert(decimal_text(number).drop_last() =~= decimal_text(number / 10));
        assert(decimal_text(number)[0] == decimal_text(number / 10)[0]);
    }
}

/// The digits are worth zero to nine and ten to fifteen, in either case, and
/// no other sign is a digit.
pub proof fn law_digits_are_worth_their_place(digit: char)
    ensures
        48 <= digit as int <= 57 ==> digit_value(digit) == Some((digit as int - 48) as nat),
        97 <= digit as int <= 102 ==> digit_value(digit) == Some((digit as int - 87) as nat),
        65 <= digit as int <= 70 ==> digit_value(digit) == Some((digit as int - 55) as nat),
        digit_value(digit) is Some ==> 48 <= digit as int <= 57 || 97 <= digit as int <= 102 || 65
            <= digit as int <= 70,
{
}

/// How a number is read grows sign by sign. `0x` and one digit is that
/// digit's worth; one digit more makes it sixteen times as much and that
/// digit, or too much for a byte; a sign that is no digit ends it; and
/// nothing shorter, or that begins otherwise, is a number.
pub proof fn law_hex_is_read_sign_by_sign(text: Seq<char>, next: char)
    ensures
        digit_value(next) is Some ==> parsed_hex(seq!['0', 'x', next]) == Some(
            digit_value(next)->0 as u8,
        ),
        digit_value(next) is Some ==> parsed_hex(seq!['0', 'x', '+', next]) == Some(
            digit_value(next)->0 as u8,
        ),
        digit_value(next) is None ==> parsed_hex(text.push(next)) is None,
        digit_value(next) is Some && parsed_hex(text) is Some ==> parsed_hex(text.push(next)) == (
        if 16 * parsed_hex(text)->0 + digit_value(next)->0 <= 255 {
            Some((16 * parsed_hex(text)->0 + digit_value(next)->0) as u8)
        } else {
            None::<u8>
        }),
        parsed_hex(text.push(next)) is Some ==> {
            ||| parsed_hex(text) is Some
            ||| text == seq!['0', 'x']
            ||| text == seq!['0', 'x', '+']
        },
        parsed_hex(text) is Some ==> text.len() >= 3 && text[0] == '0' && text[1] == 'x',
{
    reveal_strlit("0x");
    reveal_with_fuel(hex_value, 2);
    let prefix = "0x"@;
    assert(prefix =~= seq!['0', 'x']);
    let plain = seq!['0', 'x', next];
    assert(prefix =~= plain.subrange(0, 2));
    assert(plain.skip(2) =~= seq![next]);
    let signed = seq!['0', 'x', '+', next];
    assert(prefix =~= signed.subrange(0, 2));
    assert(signed.skip(2) =~= seq!['+', next]);
    assert(signed.skip(2).skip(1) =~= seq![next]);
    assert(seq![next].drop_last() =~= Seq::<char>::empty());
    let more = text.push(next);
    if parsed_hex(text) is Some {
        assert(text.subrange(0, 2)[0] == prefix[0]);
        assert(text.subrange(0, 2)[1] == prefix[1]);
        assert(text[0] == '0' && text[1] == 'x');
        assert(text.skip(2).len() >= 1);
    }
    if text.len() >= 2 && prefix.is_prefix_of(more) {
        assert(more.subrange(0, 2) =~= text.subrange(0, 2));
        let rest = text.skip(2);
        assert(more.skip(2) =~= rest.push(next));
        let digits = unsigned_text(rest);
        let grown = unsigned_text(rest.push(next));
        if rest.len() > 0 {
            assert(rest.push(next)[0] == rest[0]);
            assert(grown =~= digits.push(next));
            assert(grown.last() == next);
            assert(grown.drop_last() =~= digits);
            assert(grown[grown.len() - 1] == next);
            if is_hex_number(grown) {
                assert forall|i: int| 0 <= i < digits.len() implies digit_value(
                    #[trigger] digits[i],
                ) is Some by {
                    assert(grown[i] == digits[i]);
                }
                if digits.len() == 0 {
                    assert(rest =~= seq!['+']);
                    assert(text =~= seq!['0', 'x', '+']);
                }
            }
            if is_hex_number(digits) && digit_value(next) is Some {
                assert forall|i: int| 0 <= i < grown.len() implies digit_value(
                    #[trigger] grown[i],
                ) is Some by {
                    if i < digits.len() {
                        assert(grown[i] == digits[i]);
                    }
                }
            }
        } else {
            assert(text =~= prefix);
            assert(rest.push(next) =~= seq![next]);
            if next == '+' {
                assert(grown.len() == 0);
            } else {
                assert(grown[0] == next);
            }
        }
    } else if prefix.is_prefix_of(text) {
        assert(prefix =~= more.subrange(0, 2)) by {
            assert(text.subrange(0, 2) =~= more.subrange(0, 2));
        }
    } else if prefix.is_prefix_of(more) {
        assert(more.skip(2).len() == 0);
    }
}

/// Text begins with a prefix exactly if it is that prefix and what follows.
pub proof fn law_stripping_takes_the_prefix_alone(text: Seq<char>, prefix: Seq<char>)
    ensures
        stripped(text, prefix) matches Some(rest) ==> text == prefix + rest,
        stripped(text, prefix) is None ==> forall|rest: Seq<char>| text != #[trigger] (prefix
            + rest),
{
    if stripped(text, prefix) is Some {
        assert(text =~= prefix + text.skip(prefix.len() as int));
    } else {
        assert forall|rest: Seq<char>| text != #[trigger] (prefix + rest) by {
            lemma_stripped(prefix, rest);
        }
    }
}

/// A cut falls at the first mark: the halves and the mark make up the text,
/// the first half is free of it, and text without it is not cut.
pub proof fn law_cut_falls_at_the_first_mark(text: Seq<char>, mark: char)
    ensures
        split_once(text, mark) is Some <==> text.contains(mark),
        split_once(text, mark) matches Some((head, tail)) ==> {
            &&& text == head + seq![mark] + tail
            &&& !head.contains(mark)
            &&& before(text, mark) == head
        },
        !text.contains(mark) ==> before(text, mark) == text,
{
    text.index_of_first_ensures(mark);
    if let Some((head, tail)) = split_once(text, mark) {
        assert(text =~= head + seq![mark] + tail);
        if head.contains(mark) {
            let i = choose|i: int| 0 <= i < head.len() && head[i] == mark;
            assert(text[i] == mark);
        }
    }
}

/// An origin is `obd://`, the whole of the bus, and the mode and the
/// parameter in four signs each, with a slash before either.
pub proof fn law_origin_is_bus_mode_and_parameter(pid: Pid, bus: Seq<char>)
    ensures
        ({
            let uri = pid.origin_text(bus);
            let at = 6 + bus.len() as int;
            &&& uri.len() == at + 10
            &&& uri.take(6) == seq!['o', 'b', 'd', ':', '/', '/']
            &&& forall|i: int| 0 <= i < bus.len() ==> #[trigger] uri[6 + i] == bus[i]
            &&& uri[at] == '/'
            &&& uri.subrange(at + 1, at + 5) == hex_text(pid.mode)
            &&& uri[at + 5] == '/'
            &&& uri.subrange(at + 6, at + 10) == hex_text(pid.pid)
        }),
{
    reveal_strlit("obd://");
    reveal_strlit("/");
    let uri = pid.origin_text(bus);
    let at = 6 + bus.len() as int;
    assert(uri.take(6) =~= seq!['o', 'b', 'd', ':', '/', '/']);
    assert(uri.subrange(at + 1, at + 5) =~= hex_text(pid.mode));
    assert(uri.subrange(at + 6, at + 10) =~= hex_text(pid.pid));
}

/// The bus reads back from an origin whose bus has no slash: it is what
/// stands between `obd://` and the next one.
pub proof fn law_origin_names_its_bus(pid: Pid, bus: Seq<char>)
    requires
        !bus.contains('/'),
    ensures
        stripped(pid.origin_text(bus), "obd://"@) matches Some(rest) && before(rest, '/') == bus,
{
    reveal_strlit("/");
    let path = hex_text(pid.mode) + seq!['/'] + hex_text(pid.pid);
    let rest = bus + seq!['/'] + path;
    assert(pid.origin_text(bus) =~= "obd://"@ + rest);
    lemma_stripped("obd://"@, rest);
    lemma_split_once(bus, '/', path);
}

/// Origins of different parameters differ, and so do origins on different
/// buses, where the bus has no slash.
pub proof fn law_origins_tell_apart(
    pid: Pid,
    other: Pid,
    bus: Seq<char>,
    elsewhere: Seq<char>,
)
    requires
        !bus.contains('/'),
        !elsewhere.contains('/'),
        pid != other || bus != elsewhere,
    ensures
        pid.origin_text(bus) != other.origin_text(elsewhere),
{
    law_origin_names_its_bus(pid, bus);
    law_origin_names_its_bus(other, elsewhere);
    law_origin_addresses_its_parameter(pid, pid, bus);
    law_origin_addresses_its_parameter(pid, other, elsewhere);
}

/// An origin of another scheme than `isotp` names the bus `isotp`.
pub proof fn law_other_origins_are_on_isotp(origin: Seq<char>)
    requires
        forall|rest: Seq<char>| origin != #[trigger] ("isotp://"@ + rest),
    ensures
        bus_text(origin) == seq!['i', 's', 'o', 't', 'p'],
{
    reveal_strlit("isotp");
    law_stripping_takes_the_prefix_alone(origin, "isotp://"@);
    if let Some(rest) = stripped(origin, "isotp://"@) {
        assert(origin == "isotp://"@ + rest);
    }
    assert("isotp"@ =~= seq!['i', 's', 'o', 't', 'p']);
}

/// The path of a target is what follows the slash after the bus; a target of
/// another scheme, or without that slash, has none.
pub proof fn law_path_follows_the_bus(target: Seq<char>, bus: Seq<char>, path: Seq<char>)
    requires
        !bus.contains('/'),
    ensures
        target_path("obd://"@ + (bus + seq!['/'] + path)) == Some(path),
        target_path("obd://"@ + bus) is None,
        (forall|rest: Seq<char>| target != #[trigger] ("obd://"@ + rest)) ==> target_path(
            target,
        ) is None,
{
    lemma_stripped("obd://"@, bus + seq!['/'] + path);
    lemma_split_once(bus, '/', path);
    lemma_stripped("obd://"@, bus);
    law_cut_falls_at_the_first_mark(bus, '/');
    law_stripping_takes_the_prefix_alone(target, "obd://"@);
    if let Some(rest) = stripped(target, "obd://"@) {
        assert(target == "obd://"@ + rest);
    }
}

/// A target with a path addresses the parameter whose mode and number stand
/// in it, either side of its first slash; where one of them is no number, or
/// there is no slash, it is refused by what the path says. An empty path, or
/// none, keeps the end's own parameter.
pub proof fn law_path_names_mode_and_parameter(own: Pid, mode: Seq<char>, number: Seq<char>)
    requires
        !mode.contains('/'),
    ensures
        overridden_pid(own, Some(mode + seq!['/'] + number)) == (if parsed_hex(mode) is Some
            && parsed_hex(number) is Some {
            Ok::<Pid, Seq<char>>(Pid { mode: parsed_hex(mode)->0, pid: parsed_hex(number)->0 })
        } else {
            Err(mode + seq!['/'] + number + " is not a mode and a parameter"@)
        }),
        mode.len() > 0 ==> overridden_pid(own, Some(mode)) == Err::<Pid, Seq<char>>(
            mode + " is not a mode and a parameter"@,
        ),
        overridden_pid(own, Some(Seq::empty())) == Ok::<Pid, Seq<char>>(own),
        overridden_pid(own, None) == Ok::<Pid, Seq<char>>(own),
{
    lemma_split_once(mode, '/', number);
    law_cut_falls_at_the_first_mark(mode, '/');
}

/// A target addresses the parameter that its path names.
pub proof fn law_target_addresses_what_its_path_names(
    own: Pid,
    target: Seq<char>,
    bus: Seq<char>,
    path: Seq<char>,
)
    requires
        !bus.contains('/'),
    ensures
        addressed_pid(own, "obd://"@ + (bus + seq!['/'] + path)) == overridden_pid(
            own,
            Some(path),
        ),
        addressed_pid(own, "obd://"@ + bus) == Ok::<Pid, Seq<char>>(own),
        (forall|rest: Seq<char>| target != #[trigger] ("obd://"@ + rest)) ==> addressed_pid(
            own,
            target,
        ) == Ok::<Pid, Seq<char>>(own),
{
    law_path_follows_the_bus(target, bus, path);
}

/// A refusal is told with the mode and the code refused with, each in the
/// four signs of a byte.
pub proof fn law_refusal_tells_mode_and_code(mode: u8, code: u8)
    ensures
        refused_text(mode, code).len() == 32,
        refused_text(mode, code).take(5) == "mode "@,
        refused_text(mode, code).subrange(5, 9) == hex_text(mode),
        refused_text(mode, code).subrange(9, 28) == " refused with code "@,
        refused_text(mode, code).skip(28) == hex_text(code),
{
    reveal_strlit("mode ");
    reveal_strlit(" refused with code ");
    let text = refused_text(mode, code);
    assert(text.take(5) =~= "mode "@);
    assert(text.subrange(5, 9) =~= hex_text(mode));
    assert(text.subrange(9, 28) =~= " refused with code "@);
    assert(text.skip(28) =~= hex_text(code));
}

/// A mismatch is told with the two bytes of the answer and then the mode and
/// the parameter asked for, each in the four signs of a byte.
pub proof fn law_mismatch_tells_answer_and_question(first: u8, second: u8, asked: Pid)
    ensures
        mismatch_text(first, second, asked).len() == 37,
        mismatch_text(first, second, asked).take(13) == "an answer to "@,
        mismatch_text(first, second, asked).subrange(13, 17) == hex_text(first),
        mismatch_text(first, second, asked)[17] == '/',
        mismatch_text(first, second, asked).subrange(18, 22) == hex_text(second),
        mismatch_text(first, second, asked).subrange(22, 28) == ", not "@,
        mismatch_text(first, second, asked).subrange(28, 32) == hex_text(asked.mode),
        mismatch_text(first, second, asked)[32] == '/',
        mismatch_text(first, second, asked).skip(33) == hex_text(asked.pid),
{
    reveal_strlit("an answer to ");
    reveal_strlit("/");
    reveal_strlit(", not ");
    let text = mismatch_text(first, second, asked);
    assert(text.take(13) =~= "an answer to "@);
    assert(text.subrange(13, 17) =~= hex_text(first));
    assert(text.subrange(18, 22) =~= hex_text(second));
    assert(text.subrange(22, 28) =~= ", not "@);
    assert(text.subrange(28, 32) =~= hex_text(asked.mode));
    assert(text.skip(33) =~= hex_text(asked.pid));
}

/// A length is within a ceiling exactly if it is no more; else the message
/// begins with the length, goes on to the ceiling and ends in what it is a
/// ceiling of.
pub proof fn law_ceiling_is_the_most(len: nat, ceiling: nat, what: Seq<char>)
    ensures
        measured(len, ceiling, what) is Ok <==> len <= ceiling,
        measured(len, ceiling, what) matches Err(message) ==> stripped(
            message,
            decimal_text(len) + " bytes is over the "@,
        ) == Some(decimal_text(ceiling) + " "@ + what),
{
    if len > ceiling {
        let head = decimal_text(len) + " bytes is over the "@;
        let tail = decimal_text(ceiling) + " "@ + what;
        assert(over_text(len, ceiling, what) =~= head + tail);
        lemma_stripped(head, tail);
    }
}

/// A session's address is `obd://loopback/` and its number.
pub proof fn law_address_ends_in_the_number(number: nat, address: Seq<char>)
    ensures
        stripped(session_text(number), "obd://loopback/"@) == Some(decimal_text(number)),
        stripped(no_session_text(address), address) == Some(" is not a session stood up here"@),
{
    lemma_stripped("obd://loopback/"@, decimal_text(number));
    lemma_stripped(address, " is not a session stood up here"@);
}

/// Sessions are numbered from one, each one more than the one before, and
/// from the highest number a word holds on to zero.
pub proof fn law_numbers_count_up(before: nat)
    ensures
        nth_number(0) == 1,
        nth_number(before) < u64::MAX ==> nth_number(before + 1) == nth_number(before) + 1,
        nth_number(before) == u64::MAX ==> nth_number(before + 1) == 0,
{
}

/// What a result is seen as is its value's own view, or its message's; a path
/// is seen as its text.
pub proof fn law_results_are_seen_whole(
    bytes: Result<Vec<u8>, Error>,
    arrived: Result<Arrived, Error>,
    pid: Result<Pid, Error>,
    nothing: Result<(), Error>,
    path: Option<&str>,
)
    ensures
        path_text(path) == (match path {
            Some(path) => Some(path@),
            None => None,
        }),
        outcome(bytes) == (match bytes {
            Ok(bytes) => Ok(bytes@),
            Err(error) => Err(error.message@),
        }),
        outcome(arrived) == (match arrived {
            Ok(arrived) => Ok((arrived.origin_uri@, arrived.bytes@)),
            Err(error) => Err(error.message@),
        }),
        outcome(pid) == (match pid {
            Ok(pid) => Ok(pid),
            Err(error) => Err(error.message@),
        }),
        outcome(nothing) == (match nothing {
            Ok(_) => Ok(()),
            Err(error) => Err(error.message@),
        }),
{
}

} // verus!
