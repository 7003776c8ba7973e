use obd_ii::{code, Ecu, Pid};

#[test]
fn an_ecu_answers_what_it_holds_and_bitmaps_it() {
    let mut ecu = Ecu::new()
        .answering(Pid::current(0x0c), &[0x1a, 0xf8])
        .answering(Pid::current(0x05), &[0x5a])
        .answering(Pid::information(0x02), b"VIN");
    assert_eq!(
        ecu.answer(&[0x01, 0x0c]).expect("rpm"),
        [0x41, 0x0c, 0x1a, 0xf8]
    );
    assert_eq!(
        ecu.answer(&[0x01, 0x00]).expect("bitmap"),
        [0x41, 0x00, 0x08, 0x10, 0x00, 0x00],
        "parameters 05 and 0c are bits 5 and 12 from the top"
    );
    assert_eq!(
        ecu.answer(&[0x09, 0x00]).expect("bitmap"),
        [0x49, 0x00, 0x01, 0x40, 0x00, 0x00, 0x00]
    );
    assert_eq!(ecu.answer(&[0x09, 0x02]).expect("vin"), b"\x49\x02\x01VIN");
    ecu.set(Pid::information(0x02), b"NEW");
    assert_eq!(ecu.held(Pid::information(0x02)).expect("held"), b"NEW");
}

#[test]
fn an_ecu_refuses_what_it_does_not_have_with_the_code_that_says_so() {
    let ecu = Ecu::default();
    assert_eq!(
        ecu.answer(&[0x01, 0x0c]).expect("unknown"),
        [0x7f, 0x01, 0x31]
    );
    assert_eq!(
        ecu.answer(&[0x22, 0xf1]).expect("no mode 22"),
        [0x7f, 0x22, 0x11]
    );
    assert_eq!(ecu.answer(&[0x09]).expect("short"), [0x7f, 0x09, 0x13]);
    assert_eq!(ecu.answer(&[]).expect("empty"), [0x7f, 0x00, 0x13]);
    let over = Ecu::new().answering(Pid::information(0x0a), &[0; 5000]);
    assert!(
        over.answer(&[0x09, 0x0a]).is_err(),
        "no response carries it"
    );
}

#[test]
fn each_of_the_thirty_two_has_its_own_bit() {
    for parameter in 1..=32u8 {
        let ecu = Ecu::new().answering(Pid::current(parameter), &[]);
        let bits = u32::from_be_bytes(ecu.supported(0x01));
        assert_eq!(bits, 1 << (32 - u32::from(parameter)));
        assert_eq!(ecu.supported(0x09), [0; 4]);
    }
}

#[test]
fn parameters_beyond_the_thirty_two_are_answered_and_not_bitmapped() {
    let ecu = Ecu::new()
        .answering(Pid::current(0x00), b"ignored")
        .answering(Pid::current(0x21), &[1])
        .answering(Pid::current(0xff), &[2]);
    assert_eq!(ecu.supported(0x01), [0; 4]);
    assert_eq!(
        ecu.answer(&[0x01, 0x00]).expect("bitmap"),
        [0x41, 0x00, 0x00, 0x00, 0x00, 0x00]
    );
    assert_eq!(ecu.answer(&[0x01, 0x21]).expect("held"), [0x41, 0x21, 1]);
    assert_eq!(ecu.answer(&[0x01, 0xff]).expect("held"), [0x41, 0xff, 2]);
}

#[test]
fn a_parameter_is_set_over_and_no_other_changes() {
    let mut ecu = Ecu::new().answering(Pid::current(0x0c), &[1]);
    ecu.set(Pid::information(0x0c), &[2]);
    ecu.set(Pid::current(0x0c), &[3, 4]);
    assert_eq!(ecu.held(Pid::current(0x0c)), Some(vec![3, 4]));
    assert_eq!(ecu.held(Pid::information(0x0c)), Some(vec![2]));
    assert_eq!(ecu.held(Pid::current(0x0d)), None);
    assert_eq!(ecu.supported(0x01), [0x00, 0x10, 0x00, 0x00]);
}

#[test]
fn a_tester_reads_from_an_ecu_what_it_holds_or_why_not() {
    let ecu = Ecu::new()
        .answering(Pid::current(0x0c), &[0x1a, 0xf8])
        .answering(Pid { mode: 0x22, pid: 1 }, &[7]);
    let read = |pid: Pid| {
        let answer = ecu.answer(&pid.request()).expect("answer");
        pid.parse_response(&answer)
    };
    assert_eq!(read(Pid::current(0x0c)).expect("held"), [0x1a, 0xf8]);
    assert_eq!(
        read(Pid::current(0x00)).expect("bitmap"),
        [0x00, 0x10, 0x00, 0x00]
    );
    assert_eq!(
        read(Pid::current(0x0d)).expect_err("not held").message,
        "mode 0x01 refused with code 0x31"
    );
    assert_eq!(
        read(Pid { mode: 0x22, pid: 1 })
            .expect_err("not offered")
            .message,
        "mode 0x22 refused with code 0x11"
    );
    let answer = ecu.answer(&[0x01, 0x0c, 0x00]).expect("answer");
    assert_eq!(answer, [0x7f, 0x01, code::INCORRECT_MESSAGE_LENGTH]);
    assert_eq!(
        Pid::current(0x0c)
            .parse_response(&answer)
            .expect_err("misshapen")
            .message,
        "mode 0x01 refused with code 0x13"
    );
}

#[test]
fn the_one_failure_to_answer_is_data_over_the_ceiling() {
    let held = vec![0x55; 4093];
    let ecu = Ecu::new()
        .answering(Pid::current(0x0c), &held)
        .answering(Pid::information(0x02), &held);
    assert_eq!(
        ecu.answer(&[0x01, 0x0c]).expect("the brim").len(),
        4095,
        "one message"
    );
    assert_eq!(
        ecu.answer(&[0x09, 0x02]).expect_err("over").message,
        "4093 bytes is over the 4092 one OBD-II response carries"
    );
}
