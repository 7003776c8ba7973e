//! Numbers as text, text as numbers, and the cuts that take a URI apart.

use vstd::prelude::*;

verus! {

/// The digit that stands for `value`, from zero to fifteen.
pub open spec fn digit_char(value: int) -> char {
    "0123456789abcdef"@[value]
}

/// A byte as `0x` and two lower-case hexadecimal digits.
pub open spec fn hex_text(byte: u8) -> Seq<char> {
    seq!['0', 'x', digit_char(byte as int / 16), digit_char(byte as int % 16)]
}

/// A number in decimal, without leading zeros.
pub open spec fn decimal_text(number: nat) -> Seq<char>
    decreases number,
{
    if number < 10 {
        seq![digit_char(number as int)]
    } else {
        decimal_text(number / 10).push(digit_char(number as int % 10))
    }
}

/// The one digit that stands for `value`.
fn digit(value: u8) -> (text: &'static str)
    requires
        value < 16,
    ensures
        text@ == seq![digit_char(value as int)],
{
    proof {
        reveal_strlit("0123456789abcdef");
    }
    let from: usize = value as usize;
    "0123456789abcdef".substring_char(from, from + 1)
}

/// `byte` as `0x` and two hexadecimal digits.
pub fn hex_of(byte: u8) -> (text: String)
    ensures
        text@ == hex_text(byte),
{
    proof {
        reveal_strlit("0x");
    }
    let mut text = "0x".to_owned();
    text.append(digit(byte / 16));
    text.append(digit(byte % 16));
    text
}

/// `number` in decimal.
pub fn decimal(number: u64) -> (text: String)
    ensures
        text@ == decimal_text(number as nat),
    decreases number,
{
    if number < 10 {
        digit(number as u8).to_owned()
    } else {
        let mut text = decimal(number / 10);
        text.append(digit((number % 10) as u8));
        text
    }
}

/// What a hexadecimal digit of either case is worth.
pub open spec fn digit_value(digit: char) -> Option<nat> {
    if '0' <= digit <= '9' {
        Some((digit as int - '0' as int) as nat)
    } else if 'a' <= digit <= 'f' {
        Some((digit as int - 'a' as int + 10) as nat)
    } else if 'A' <= digit <= 'F' {
        Some((digit as int - 'A' as int + 10) as nat)
    } else {
        None
    }
}

/// Text made of hexadecimal digits, at least one.
pub open spec fn is_hex_number(text: Seq<char>) -> bool {
    &&& text.len() > 0
    &&& forall|i: int| 0 <= i < text.len() ==> digit_value(#[trigger] text[i]) is Some
}

/// What hexadecimal digits are worth together, the first weighing most.
pub open spec fn hex_value(digits: Seq<char>) -> nat
    decreases digits.len(),
{
    if digits.len() == 0 {
        0
    } else {
        16 * hex_value(digits.drop_last()) + digit_value(digits.last())->0
    }
}

/// Text without the one plus sign it may begin with.
pub open spec fn unsigned_text(text: Seq<char>) -> Seq<char> {
    if text.len() > 0 && text[0] == '+' {
        text.skip(1)
    } else {
        text
    }
}

/// The byte that text of the form `0x<digits>` names: `0x`, a plus sign or
/// none, and digits that are worth no more than a byte holds.
pub open spec fn parsed_hex(text: Seq<char>) -> Option<u8> {
    if "0x"@.is_prefix_of(text) {
        let digits = unsigned_text(text.skip("0x"@.len() as int));
        if is_hex_number(digits) && hex_value(digits) <= u8::MAX {
            Some(hex_value(digits) as u8)
        } else {
            None
        }
    } else {
        None
    }
}

/// What follows `prefix` in `text`, where `text` begins with it.
pub open spec fn stripped(text: Seq<char>, prefix: Seq<char>) -> Option<Seq<char>> {
    if prefix.is_prefix_of(text) {
        Some(text.skip(prefix.len() as int))
    } else {
        None
    }
}

/// `text` up to the first `mark`, or all of it.
pub open spec fn before(text: Seq<char>, mark: char) -> Seq<char> {
    match text.index_of_first(mark) {
        Some(at) => text.take(at),
        None => text,
    }
}

/// `text` on either side of its first `mark`.
pub open spec fn split_once(text: Seq<char>, mark: char) -> Option<(Seq<char>, Seq<char>)> {
    match text.index_of_first(mark) {
        Some(at) => Some((text.take(at), text.skip(at + 1))),
        None => None,
    }
}

/// The first place where `mark` stands is the only one with none before it.
pub proof fn lemma_first_place(text: Seq<char>, mark: char, at: int)
    requires
        0 <= at < text.len(),
        text[at] == mark,
        forall|i: int| 0 <= i < at ==> text[i] != mark,
    ensures
        text.index_of_first(mark) == Some(at),
{
    text.index_of_first_ensures(mark);
    assert(text.contains(mark));
    let found = text.index_of_first(mark)->0;
    if found < at {
        assert(text[found] == mark);
    }
}

/// More digits are never worth less.
proof fn lemma_hex_value_grows(digits: Seq<char>, upto: int)
    requires
        0 <= upto <= digits.len(),
    ensures
        hex_value(digits.take(upto)) <= hex_value(digits),
    decreases digits.len(),
{
    if upto == digits.len() {
        assert(digits.take(upto) =~= digits);
    } else {
        lemma_hex_value_grows(digits.drop_last(), upto);
        assert(digits.drop_last().take(upto) =~= digits.take(upto));
    }
}

/// Each digit is worth the value it stands for.
pub proof fn lemma_digit_worth(value: int)
    requires
        0 <= value < 16,
    ensures
        digit_value(digit_char(value)) == Some(value as nat),
        digit_char(value) != '+',
        digit_char(value) != '/',
{
    reveal_strlit("0123456789abcdef");
}

/// A byte written in hexadecimal reads back as that byte.
pub proof fn lemma_hex_round_trip(byte: u8)
    ensures
        parsed_hex(hex_text(byte)) == Some(byte),
{
    reveal_strlit("0x");
    let text = hex_text(byte);
    let high = byte as int / 16;
    let low = byte as int % 16;
    let digits = text.skip("0x"@.len() as int);
    lemma_digit_worth(high);
    lemma_digit_worth(low);
    assert("0x"@ =~= text.subrange(0, 2));
    assert(digits =~= seq![digit_char(high), digit_char(low)]);
    assert(digits.drop_last() =~= seq![digit_char(high)]);
    assert(digits.drop_last().drop_last() =~= Seq::<char>::empty());
    reveal_with_fuel(hex_value, 3);
}

/// Text cut at its first `mark` falls into what stood before and after it.
pub proof fn lemma_split_once(head: Seq<char>, mark: char, tail: Seq<char>)
    requires
        !head.contains(mark),
    ensures
        split_once(head + seq![mark] + tail, mark) == Some((head, tail)),
        before(head + seq![mark] + tail, mark) == head,
{
    let text = head + seq![mark] + tail;
    assert forall|i: int| 0 <= i < head.len() implies text[i] != mark by {
        assert(text[i] == head[i]);
    }
    lemma_first_place(text, mark, head.len() as int);
    assert(text.take(head.len() as int) =~= head);
    assert(text.skip(head.len() as int + 1) =~= tail);
}

/// Text that begins with `prefix` is what follows once that is stripped.
pub proof fn lemma_stripped(prefix: Seq<char>, rest: Seq<char>)
    ensures
        stripped(prefix + rest, prefix) == Some(rest),
{
    let text = prefix + rest;
    assert(prefix =~= text.subrange(0, prefix.len() as int));
    assert(text.skip(prefix.len() as int) =~= rest);
}

/// Numbers that read the same in decimal are the same number.
pub proof fn lemma_decimal_tells_apart(left: nat, right: nat)
    requires
        decimal_text(left) == decimal_text(right),
    ensures
        left == right,
    decreases left,
{
    lemma_digit_worth(left as int % 10);
    lemma_digit_worth(right as int % 10);
    lemma_decimal_length(left);
    lemma_decimal_length(right);
    assert(decimal_text(left).last() == digit_char(left as int % 10));
    assert(decimal_text(right).last() == digit_char(right as int % 10));
    if left >= 10 && right >= 10 {
        assert(decimal_text(left).drop_last() =~= decimal_text(left / 10));
        assert(decimal_text(right).drop_last() =~= decimal_text(right / 10));
        lemma_decimal_tells_apart(left / 10, right / 10);
    }
}

/// A number takes one decimal digit exactly if it is below ten.
proof fn lemma_decimal_length(number: nat)
    ensures
        decimal_text(number).len() >= 1,
        decimal_text(number).len() == 1 <==> number < 10,
    decreases number,
{
    if number >= 10 {
        lemma_decimal_length(number / 10);
    }
}

/// Where `mark` first stands in `text`.
fn find(text: &str, mark: char) -> (found: Option<usize>)
    ensures
        found is Some <==> text@.index_of_first(mark) is Some,
        found matches Some(at) ==> text@.index_of_first(mark) == Some(at as int) && at < text@.len(),
{
    let len: usize = text.unicode_len();
    let mut at: usize = 0;
    while at < len
        invariant
            at <= len,
            len == text@.len(),
            forall|i: int| 0 <= i < at ==> text@[i] != mark,
        decreases len - at,
    {
        if text.get_char(at) == mark {
            proof {
                lemma_first_place(text@, mark, at as int);
            }
            return Some(at);
        }
        at = at + 1;
    }
    proof {
        text@.index_of_first_ensures(mark);
    }
    None
}

/// What follows `prefix` in `text`.
pub fn strip_prefix<'a>(text: &'a str, prefix: &str) -> (rest: Option<&'a str>)
    ensures
        rest is Some <==> stripped(text@, prefix@) is Some,
        rest matches Some(rest) ==> stripped(text@, prefix@) == Some(rest@),
{
    let len: usize = text.unicode_len();
    let head: usize = prefix.unicode_len();
    if len < head {
        return None;
    }
    let mut at: usize = 0;
    while at < head
        invariant
            at <= head <= len,
            len == text@.len(),
            head == prefix@.len(),
            forall|i: int| 0 <= i < at ==> text@[i] == prefix@[i],
        decreases head - at,
    {
        if text.get_char(at) != prefix.get_char(at) {
            return None;
        }
        at = at + 1;
    }
    assert(prefix@ =~= text@.subrange(0, prefix@.len() as int));
    Some(text.substring_char(head, len))
}

/// `text` up to the first `mark`.
pub fn cut_before<'a>(text: &'a str, mark: char) -> (head: &'a str)
    ensures
        head@ == before(text@, mark),
{
    match find(text, mark) {
        Some(at) => text.substring_char(0, at),
        None => text,
    }
}

/// `text` on either side of its first `mark`.
pub fn cut_once<'a>(text: &'a str, mark: char) -> (sides: Option<(&'a str, &'a str)>)
    ensures
        sides is Some <==> split_once(text@, mark) is Some,
        sides matches Some((head, tail)) ==> split_once(text@, mark) == Some((head@, tail@)),
{
    match find(text, mark) {
        Some(at) => {
            let len: usize = text.unicode_len();
            Some((text.substring_char(0, at), text.substring_char(at + 1, len)))
        },
        None => None,
    }
}

/// What one hexadecimal digit is worth.
fn worth(digit: char) -> (value: Option<u16>)
    ensures
        value is Some <==> digit_value(digit) is Some,
        value matches Some(value) ==> digit_value(digit) == Some(value as nat) && value < 16,
{
    if '0' <= digit && digit <= '9' {
        Some((digit as u32 - '0' as u32) as u16)
    } else if 'a' <= digit && digit <= 'f' {
        Some((digit as u32 - 'a' as u32 + 10) as u16)
    } else if 'A' <= digit && digit <= 'F' {
        Some((digit as u32 - 'A' as u32 + 10) as u16)
    } else {
        None
    }
}

/// The byte that `0x<digits>` names.
pub fn hex(text: &str) -> (byte: Option<u8>)
    ensures
        byte == parsed_hex(text@),
{
    let rest = match strip_prefix(text, "0x") {
        Some(rest) => rest,
        None => return None,
    };
    let all: usize = rest.unicode_len();
    if all == 0 {
        return None;
    }
    let from: usize = if rest.get_char(0) == '+' {
        1
    } else {
        0
    };
    let ghost digits = unsigned_text(rest@);
    if from == all {
        return None;
    }
    let mut value: u16 = 0;
    let mut at: usize = from;
    while at < all
        invariant
            from <= at <= all,
            all == rest@.len(),
            digits == rest@.skip(from as int),
            value == hex_value(digits.take(at - from)),
            value <= u8::MAX,
            forall|i: int| 0 <= i < at - from ==> digit_value(#[trigger] digits[i]) is Some,
            stripped(text@, "0x"@) == Some(rest@),
            digits == unsigned_text(rest@),
        decreases all - at,
    {
        let ghost next = digits.take(at - from + 1);
        assert(next.drop_last() =~= digits.take(at - from));
        assert(next.last() == digits[at - from]);
        match worth(rest.get_char(at)) {
            Some(one) => {
                value = 16 * value + one;
            },
            None => {
                return None;
            },
        }
        if value > 255 {
            proof {
                lemma_hex_value_grows(digits, at - from + 1);
            }
            return None;
        }
        at = at + 1;
    }
    assert(digits.take(all - from) =~= digits);
    Some(value as u8)
}

} // verus!
