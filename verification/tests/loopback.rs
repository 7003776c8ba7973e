use obd_ii::loopback::{Numbering, Polling, Standing};
use obd_ii::{default_pid, Arrived, Ecu, Error, ObdTransport, Pid};

/// What the link brings when `bytes` went out on the loopback bus.
fn carried(bytes: &[u8]) -> Result<Arrived, Error> {
    Ok(Arrived::new(
        "isotp://loopback/0x7e8".to_string(),
        bytes.to_vec(),
    ))
}

/// One round: the far end polls, the near end is sent `payload`, and a
/// refused send unblocks the far end. The tester's result, then the send's.
fn round(
    end: &mut ObdTransport,
    numbering: &mut Numbering,
    standing: &mut Standing<u64>,
    payload: &[u8],
) -> (Result<Arrived, Error>, Result<(), Error>) {
    let mark = payload.len() as u64;
    let far: Polling = end.far_end(numbering, standing, mark);
    let asking = far.poll();
    let request = asking.request();
    let waiting = asking.delivered(Ok(())).expect("asked");
    let address = far.address().to_string();
    let sent = match end.send_to(standing, &address, payload) {
        Ok(session) => {
            assert_eq!(*session, mark);
            Ok(())
        }
        Err(error) => Err(error),
    };
    let answer = match &sent {
        Ok(()) => end.answer_one(carried(&request)).expect("answered"),
        Err(_) => {
            let (session, refusal) = end.unblock(standing, &address).expect("standing");
            assert_eq!(*session, mark);
            refusal.to_vec()
        }
    };
    let taken = waiting.collected(carried(&answer));
    (far.take_one(standing, taken), sent)
}

fn patterned(len: usize) -> Vec<u8> {
    (0..len).map(|i| (i % 251) as u8).collect()
}

#[test]
fn the_loopback_returns_the_edge_payloads_whole_and_refuses_over_the_brim() {
    let mut loopback = ObdTransport::loopback();
    let mut numbering = Numbering::new();
    let mut standing = Standing::new();
    let brim = loopback.pid.ceiling();
    let edges = vec![
        ("empty", vec![]),
        ("one byte", vec![0x00]),
        ("the negative marker", vec![0x7f, 0x09, 0x31]),
        ("every byte", (0..=255u8).collect()),
        ("a long run", patterned(1024)),
        ("the brim", patterned(brim)),
    ];
    for (name, bytes) in edges {
        let (taken, sent) = round(&mut loopback, &mut numbering, &mut standing, &bytes);
        assert!(sent.is_ok(), "{name}");
        let arrived = taken.expect(name);
        assert_eq!(arrived.bytes, bytes, "{name}");
        assert_eq!(arrived.origin_uri, "obd://loopback/0x09/0x0a", "{name}");
    }
    assert_eq!(loopback.ceiling(), Some(4092));
    let (taken, sent) = round(&mut loopback, &mut numbering, &mut standing, &patterned(brim + 1));
    assert!(sent
        .expect_err("one over the brim")
        .message
        .contains("is over the 4092"));
    assert_eq!(
        taken.expect_err("unblocked").message,
        "mode 0x09 refused with code 0x31",
        "a refused send is judged, never waited on"
    );
    assert!(standing.is_empty(), "a taken session is forgotten");
}

#[test]
fn a_current_data_parameter_polls_the_same_way() {
    let rpm = Pid::current(0x0c);
    let mut numbering = Numbering::new();
    let mut standing = Standing::new();
    let mut loopback = ObdTransport::loopback().at(rpm);
    let (taken, _) = round(&mut loopback, &mut numbering, &mut standing, &[0x1a, 0xf8]);
    let arrived = taken.expect("rpm");
    assert_eq!(arrived.bytes, [0x1a, 0xf8]);
    assert_eq!(arrived.origin_uri, "obd://loopback/0x01/0x0c");
    assert_eq!(loopback.ceiling(), Some(4093));
    let mut bitmap = ObdTransport::loopback()
        .at(Pid::current(0x00))
        .answering_as(Ecu::new().answering(rpm, &[0, 0]));
    let (taken, _) = round(&mut bitmap, &mut numbering, &mut standing, b"ignored");
    let arrived = taken.expect("the bitmap is computed");
    assert_eq!(arrived.bytes, [0x00, 0x10, 0x00, 0x00]);
}

#[test]
fn a_session_that_was_not_stood_up_is_refused_at_once() {
    let mut loopback = ObdTransport::loopback();
    let standing: Standing<u64> = Standing::new();
    let error = loopback
        .send_to(&standing, "obd://loopback/0", b"x")
        .expect_err("no session");
    assert!(error.message.contains("not a session"), "{error:?}");
    assert_eq!(
        error.message,
        "obd://loopback/0 is not a session stood up here"
    );
    assert!(loopback.unblock(&standing, "obd://loopback/0").is_none());
    assert_eq!(loopback.ecu().held(default_pid()), None);
}

#[test]
fn a_mode_that_is_not_offered_is_refused_in_a_round() {
    let mut numbering = Numbering::new();
    let mut standing = Standing::new();
    let mut end = ObdTransport::loopback().at(Pid { mode: 0x22, pid: 1 });
    let (taken, sent) = round(&mut end, &mut numbering, &mut standing, &[1]);
    assert!(sent.is_ok());
    assert_eq!(
        taken.expect_err("refused").message,
        "mode 0x22 refused with code 0x11"
    );
    assert!(standing.is_empty());
}

#[test]
fn sessions_stand_beside_each_other_under_their_own_addresses() {
    let mut numbering = Numbering::new();
    let mut standing = Standing::new();
    let end = ObdTransport::loopback();
    let one = end.far_end(&mut numbering, &mut standing, 'a');
    for number in 2..=10 {
        assert_eq!(numbering.draw(), number);
    }
    let eleven = end.far_end(&mut numbering, &mut standing, 'b');
    assert_eq!(one.address(), "obd://loopback/1");
    assert_eq!(eleven.address(), "obd://loopback/11");
    assert_eq!(end.ecu_end(&standing, one.address()).expect("a"), &'a');
    assert_eq!(end.ecu_end(&standing, eleven.address()).expect("b"), &'b');
    assert!(one.take_one(&mut standing, carried(&[1])).is_ok());
    assert!(end.ecu_end(&standing, "obd://loopback/1").is_err());
    assert_eq!(standing.get("obd://loopback/11"), Some(&'b'));
    standing.insert("obd://loopback/11".to_string(), 'c');
    assert_eq!(standing.get("obd://loopback/11"), Some(&'c'));
    standing.remove("obd://loopback/2");
    assert!(!standing.is_empty());
    standing.remove("obd://loopback/11");
    assert!(standing.is_empty());
}

#[test]
fn sessions_are_numbered_from_one_and_never_alike() {
    let mut numbering = Numbering::new();
    let mut standing = Standing::new();
    let end = ObdTransport::loopback();
    let mut seen: Vec<String> = vec!["obd://loopback/0".to_string()];
    for number in 1..=120u64 {
        let far = end.far_end(&mut numbering, &mut standing, number);
        assert_eq!(far.address(), format!("obd://loopback/{number}"));
        assert!(!seen.contains(&far.address().to_string()));
        seen.push(far.address().to_string());
    }
    for number in 1..=120u64 {
        assert_eq!(standing.get(&seen[number as usize]), Some(&number));
    }
}

#[test]
fn a_new_session_displaces_none_that_stands() {
    let mut numbering = Numbering::new();
    let mut standing = Standing::new();
    let mut elsewhere = Standing::new();
    let end = ObdTransport::loopback();
    let first = end.far_end(&mut numbering, &mut standing, 'a');
    let second = end.far_end(&mut numbering, &mut elsewhere, 'b');
    assert!(first.take_one(&mut standing, true));
    let third = end.far_end(&mut numbering, &mut standing, 'c');
    assert_eq!(third.address(), "obd://loopback/3");
    assert_eq!(standing.get(third.address()), Some(&'c'));
    assert_eq!(elsewhere.get(second.address()), Some(&'b'));
    assert_eq!(standing.get("obd://loopback/1"), None);
    assert!(!third.take_one(&mut standing, false));
    assert!(standing.is_empty());
}
