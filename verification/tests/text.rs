use obd_ii::text::{cut_before, cut_once, decimal, hex_of, strip_prefix};
use obd_ii::{bus_of, hex};

#[test]
fn a_byte_reads_back_from_its_hexadecimal() {
    for byte in 0..=255u8 {
        let text = hex_of(byte);
        assert_eq!(text, format!("{byte:#04x}"));
        assert_eq!(hex(&text), Some(byte));
    }
}

#[test]
fn hexadecimal_is_read_as_u8_from_str_radix_reads_it() {
    let texts = [
        "", "0", "0x", "0x+", "0x-", "0x-1", "0x+f", "0x++f", "0x0", "0xf", "0xFf", "0x100",
        "0x00ff", "0x0000100", "0xg", "0x f", "0x1_0", "0Xff", "ff", "0x\u{e9}", "0xfffffffffff",
        "0xfffffffffffg", "0x+00000000000fe",
    ];
    for text in texts {
        let expected = text
            .strip_prefix("0x")
            .and_then(|digits| u8::from_str_radix(digits, 16).ok());
        assert_eq!(hex(text), expected, "{text}");
    }
}

#[test]
fn numbers_are_written_in_decimal_and_told_apart() {
    let numbers = [0, 1, 9, 10, 99, 100, 4092, 4093, u64::MAX - 1, u64::MAX];
    for left in numbers {
        assert_eq!(decimal(left), left.to_string());
        for right in numbers {
            assert_eq!(decimal(left) == decimal(right), left == right);
        }
    }
}

#[test]
fn text_is_cut_at_the_first_mark() {
    assert_eq!(cut_once("a/b/c", '/'), Some(("a", "b/c")));
    assert_eq!(cut_once("/b", '/'), Some(("", "b")));
    assert_eq!(cut_once("b/", '/'), Some(("b", "")));
    assert_eq!(cut_once("b", '/'), None);
    assert_eq!(cut_before("\u{e9}t\u{e9}/hiver", '/'), "\u{e9}t\u{e9}");
    assert_eq!(cut_before("hiver", '/'), "hiver");
    assert_eq!(strip_prefix("obd://can0", "obd://"), Some("can0"));
    assert_eq!(strip_prefix("obd:/can0", "obd://"), None);
    assert_eq!(strip_prefix("ob", "obd://"), None);
    assert_eq!(strip_prefix("\u{e9}t\u{e9}", "\u{e9}"), Some("t\u{e9}"));
}

#[test]
fn a_bus_is_read_from_its_origin() {
    assert_eq!(bus_of("isotp://can0/0x7e8"), "can0");
    assert_eq!(bus_of("isotp://can0"), "can0");
    assert_eq!(bus_of("isotp://can0/a/b"), "can0");
    assert_eq!(bus_of("isotp://"), "");
    assert_eq!(bus_of("isotp:///x"), "");
    assert_eq!(bus_of("can://can0/x"), "isotp");
}
