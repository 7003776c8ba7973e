use obd_ii::ceiling::{within, CLASSIC_CEILING};
use obd_ii::{code, Pid};

#[test]
fn a_current_data_response_is_mode_and_parameter_then_data() {
    let rpm = Pid::current(0x0c);
    assert_eq!(rpm.request(), [0x01, 0x0c]);
    assert_eq!(Pid::parse_request(&[0x01, 0x0c]).expect("request"), rpm);
    let response = rpm.response(&[0x1a, 0xf8]).expect("response");
    assert_eq!(response, [0x41, 0x0c, 0x1a, 0xf8]);
    assert_eq!(rpm.parse_response(&response).expect("data"), [0x1a, 0xf8]);
    assert_eq!(rpm.ceiling(), 4093);
    assert_eq!(rpm.origin("loopback"), "obd://loopback/0x01/0x0c");
}

#[test]
fn a_vehicle_information_response_counts_its_one_item() {
    let vin = Pid::information(0x02);
    let response = vin.response(b"WVWZZZ1JZXW000001").expect("response");
    assert_eq!(&response[..3], &[0x49, 0x02, 0x01]);
    assert_eq!(
        vin.parse_response(&response).expect("data"),
        b"WVWZZZ1JZXW000001"
    );
    assert_eq!(vin.response(&[]).expect("empty"), [0x49, 0x02, 0x01]);
    assert!(vin
        .parse_response(&[0x49, 0x02, 0x01])
        .expect("empty")
        .is_empty());
    assert_eq!(vin.ceiling(), 4092);
    assert!(vin.response(&[0; 4093]).is_err(), "over the ceiling");
    assert!(
        vin.parse_response(&[0x49, 0x02, 0x02]).is_err(),
        "two items"
    );
}

#[test]
fn a_response_that_does_not_answer_the_question_is_refused() {
    let vin = Pid::information(0x02);
    let error = vin
        .parse_response(&vin.negative(code::REQUEST_OUT_OF_RANGE))
        .expect_err("negative");
    assert!(error.message.contains("0x31"), "{error:?}");
    assert!(
        vin.parse_response(&[0x49, 0x04, 0x01]).is_err(),
        "another parameter"
    );
    assert!(
        vin.parse_response(&[0x41, 0x02, 0x01]).is_err(),
        "another mode"
    );
    assert!(vin.parse_response(&[0x49]).is_err(), "short");
    assert!(Pid::parse_request(&[0x09]).is_err(), "no parameter");
    assert!(Pid::parse_request(&[0x09, 0x02, 0x00]).is_err(), "too long");
}

#[test]
fn each_way_a_response_fails_has_its_own_words() {
    let vin = Pid::information(0x02);
    let said = |bytes: &[u8]| vin.parse_response(bytes).expect_err("refused").message;
    assert_eq!(
        said(&[0x7f, 0x09, 0x31]),
        "mode 0x09 refused with code 0x31"
    );
    assert_eq!(said(&[0x49, 0x02]), "a response too short for its header");
    assert_eq!(said(&[]), "a response too short for its header");
    assert_eq!(
        said(&[0x41, 0xa4, 0x01]),
        "an answer to 0x01/0xa4, not 0x09/0x02"
    );
    assert_eq!(
        said(&[0x49, 0x02, 0x00]),
        "a vehicle information item counted other than once"
    );
    assert_eq!(
        said(&[0x7f, 0x09, 0x31, 0x00]),
        "an answer to 0x3f/0x09, not 0x09/0x02",
        "four bytes are no refusal"
    );
    assert_eq!(
        Pid::parse_request(&[]).expect_err("empty").message,
        "an OBD-II request is a mode and a parameter"
    );
}

#[test]
fn data_at_the_ceiling_is_carried_and_one_byte_more_is_not() {
    for pid in [Pid::current(0x0c), Pid::information(0x0a)] {
        let brim = vec![0x55; pid.ceiling()];
        let response = pid.response(&brim).expect("the brim");
        assert_eq!(response.len(), CLASSIC_CEILING);
        assert_eq!(pid.parse_response(&response).expect("data"), brim);
        let over = vec![0x55; pid.ceiling() + 1];
        assert!(pid.response(&over).is_err());
    }
    assert_eq!(
        Pid::information(0x0a)
            .response(&[0; 4093])
            .expect_err("over")
            .message,
        "4093 bytes is over the 4092 one OBD-II response carries"
    );
    assert!(within(7, 7, "x").is_ok());
    assert_eq!(
        within(10, 7, "a day has").expect_err("over").message,
        "10 bytes is over the 7 a day has"
    );
}

#[test]
fn every_parameter_reads_back_its_request_and_its_response() {
    for mode in 0..=255u8 {
        for number in [0x00, 0x01, 0x20, 0x7f, 0xff] {
            let pid = Pid { mode, pid: number };
            assert_eq!(Pid::parse_request(&pid.request()).expect("request"), pid);
            let response = pid.response(&[1, 2]).expect("response");
            assert_eq!(pid.parse_response(&response).expect("data"), [1, 2]);
            assert_eq!(response.len(), pid.header() + 2);
            let one = pid.response(&[9]).expect("response");
            let read = pid.parse_response(&one);
            if mode == 0x3f {
                assert!(read.is_err(), "three bytes after the negative marker");
            } else {
                assert_eq!(read.expect("one byte"), [9]);
            }
        }
    }
}

#[test]
fn the_answer_to_one_parameter_is_not_read_for_another() {
    let rpm = Pid::current(0x0c);
    let others = [
        Pid::current(0x0d),
        Pid::information(0x0c),
        Pid::information(0x02),
    ];
    for other in others {
        let response = other.response(&[1, 2, 3]).expect("response");
        assert!(rpm.parse_response(&response).is_err());
        assert!(other
            .parse_response(&rpm.response(&[1, 2, 3]).expect("response"))
            .is_err());
    }
}

#[test]
fn a_response_echoes_the_mode_with_0x40_added() {
    for mode in 0..=0xbfu8 {
        let response = Pid { mode, pid: 0x0c }.response(&[]).expect("response");
        assert_eq!(response[..2], [mode + 0x40, 0x0c]);
    }
    let high = Pid {
        mode: 0x41,
        pid: 0x0c,
    };
    assert_eq!(high.response(&[]).expect("response"), [0x81, 0x0c]);
    let round = Pid {
        mode: 0xff,
        pid: 0x0c,
    };
    assert_eq!(round.response(&[]).expect("response"), [0x3f, 0x0c]);
    let rpm = Pid::current(0x0c).response(&[0x1a, 0xf8]).expect("response");
    assert!(high.parse_response(&rpm).is_err(), "mode 01 is not mode 41");
    assert_eq!(
        Pid::current(0x0c)
            .parse_response(&[0x81, 0x0c])
            .expect_err("mode 41")
            .message,
        "an answer to 0x81/0x0c, not 0x01/0x0c"
    );
}
