use std::cell::RefCell;
use std::collections::VecDeque;
use std::rc::Rc;

use obd_ii::error::protocol_error;
use obd_ii::transport::path_of;
use obd_ii::{bus_of, default_pid, Arrived, Ecu, Error, ObdTransport, Pid};

type Queue = Rc<RefCell<VecDeque<Vec<u8>>>>;

/// One node of a bus between two: what it delivers waits for the other.
struct Link {
    out: Queue,
    waiting: Queue,
}

impl Link {
    fn deliver(&self, bytes: &[u8]) -> Result<(), Error> {
        self.out.borrow_mut().push_back(bytes.to_vec());
        Ok(())
    }

    fn collect(&self) -> Result<Arrived, Error> {
        match self.waiting.borrow_mut().pop_front() {
            Some(bytes) => Ok(Arrived::new("isotp://loopback/0x7e8".to_string(), bytes)),
            None => Err(protocol_error("nothing came".to_string())),
        }
    }
}

/// An end and the link it speaks over.
struct End {
    link: Link,
    end: ObdTransport,
}

impl End {
    fn poll(&self, pid: Pid) -> Result<Arrived, Error> {
        let asking = self.end.poll(pid);
        let delivery = self.link.deliver(&asking.request());
        asking.delivered(delivery)?.collected(self.link.collect())
    }

    fn answer_one(&self) -> Result<(), Error> {
        let reply = self.end.answer_one(self.link.collect())?;
        self.link.deliver(&reply)
    }

    fn send(&mut self, target: &str, bytes: &[u8]) -> Result<(), Error> {
        self.end.send(target, bytes)?;
        self.answer_one()
    }
}

/// A tester and an ECU on one bus: what the tester asks sits there until the
/// ECU is asked to answer.
fn pair() -> (End, End) {
    let (asked, answered) = (Queue::default(), Queue::default());
    let tester = Link {
        out: Rc::clone(&asked),
        waiting: Rc::clone(&answered),
    };
    let ecu = Link {
        out: answered,
        waiting: asked,
    };
    (
        End {
            link: tester,
            end: ObdTransport::new(),
        },
        End {
            link: ecu,
            end: ObdTransport::new(),
        },
    )
}

#[test]
fn an_ecu_that_does_not_have_the_parameter_says_so() {
    let (tester, ecu) = pair();
    let rpm = Pid::current(0x0c);
    tester.link.deliver(&rpm.request()).expect("asking");
    ecu.answer_one().expect("answering");
    let answer = tester.link.collect().expect("the answer").bytes;
    let error = rpm.parse_response(&answer).expect_err("refused");
    assert!(error.message.contains("0x31"), "{error:?}");
    assert!(tester.poll(rpm).is_err(), "nobody answers");
    ecu.answer_one().expect("the request left waiting");
    tester.link.deliver(&[]).expect("hang up");
    let error = ecu.answer_one().expect_err("the tester hung up");
    assert!(error.message.contains("hung up"), "{error:?}");
}

#[test]
fn a_send_sets_the_answer_and_answers_one_request() {
    let (tester, mut ecu) = pair();
    tester
        .link
        .deliver(&Pid::current(0x0c).request())
        .expect("asking");
    ecu.send("obd://can0/0x01/0x0c", &[0x1a, 0xf8])
        .expect("answering");
    let arrived = tester.poll(Pid::current(0x0c)).expect("rpm");
    assert_eq!(arrived.bytes, [0x1a, 0xf8]);
    assert_eq!(arrived.origin_uri, "obd://loopback/0x01/0x0c");
    assert_eq!(
        ecu.end.ecu().held(Pid::current(0x0c)).expect("held"),
        [0x1a, 0xf8]
    );
    let error = ecu
        .send("obd://can0/0x09/0x0a", &[0; 4093])
        .expect_err("over");
    assert!(error.message.contains("is over the 4092"), "{error:?}");
}

#[test]
fn a_target_names_the_parameter_and_the_ends_name_themselves() {
    let (tester, _) = pair();
    let tester = tester.end;
    assert_eq!(
        tester.addressed("obd://can0/0x09/0x02").expect("vin"),
        Pid::information(0x02)
    );
    assert_eq!(
        tester.addressed("obd://can0/").expect("default"),
        default_pid()
    );
    assert_eq!(
        tester.addressed("elsewhere").expect("default"),
        default_pid()
    );
    assert!(tester.addressed("obd://can0/0x09").is_err());
    assert!(tester.addressed("obd://can0/vin/0x02").is_err());
    assert_eq!(tester.name(), "obd-ii");
    assert_eq!(tester.at(Pid::current(0x05)).pid, Pid::current(0x05));
    assert_eq!(bus_of("elsewhere"), "isotp");
}

#[test]
fn an_origin_addresses_the_parameter_it_names() {
    let end = ObdTransport::new();
    for mode in [0x00, 0x01, 0x09, 0x3f, 0xff] {
        for number in 0..=255u8 {
            let pid = Pid { mode, pid: number };
            for bus in ["can0", "", "a b", "\u{e9}"] {
                assert_eq!(end.addressed(&pid.origin(bus)).expect("addressed"), pid);
            }
        }
    }
    assert!(
        end.addressed(&Pid::current(1).origin("a/b")).is_err(),
        "a slash in the bus ends it"
    );
}

#[test]
fn a_path_that_is_no_parameter_is_told_back() {
    let end = ObdTransport::new().at(Pid::current(0x0c));
    assert_eq!(
        end.addressed("obd://can0/vin/0x02")
            .expect_err("refused")
            .message,
        "vin/0x02 is not a mode and a parameter"
    );
    assert!(end.addressed("obd://can0/0x01/0x02/0x03").is_err());
    assert!(end.addressed("obd://can0/0x01/0x100").is_err());
    assert_eq!(
        end.addressed("obd://can0").expect("own"),
        Pid::current(0x0c)
    );
    assert_eq!(path_of("obd://can0/0x01/0x02"), Some("0x01/0x02"));
    assert_eq!(path_of("can://can0/0x01/0x02"), None);
    assert_eq!(end.overridden(None).expect("own"), Pid::current(0x0c));
    assert_eq!(end.overridden(Some("")).expect("own"), Pid::current(0x0c));
    assert_eq!(
        end.overridden(Some("0x09/0x0A")).expect("named"),
        Pid::information(0x0a)
    );
    assert_eq!(
        end.overridden(Some("/")).expect_err("refused").message,
        "/ is not a mode and a parameter"
    );
}

#[test]
fn a_refused_send_changes_nothing() {
    let mut end = ObdTransport::new().answering_as(Ecu::new().answering(default_pid(), b"name"));
    assert!(end.send("obd://can0/vin/0x02", b"x").is_err());
    assert!(end.send("elsewhere", &[0; 4093]).is_err());
    assert_eq!(end.ecu().held(default_pid()), Some(b"name".to_vec()));
    assert!(end.send_at(Some("vin/0x02"), b"x").is_err());
    assert!(end.send_at(None, &[0; 4093]).is_err());
    assert_eq!(end.ecu().held(default_pid()), Some(b"name".to_vec()));
    end.send_at(Some("0x01/0x0c"), &[0x1a]).expect("rpm");
    assert_eq!(end.ecu().held(Pid::current(0x0c)), Some(vec![0x1a]));
    end.send_at(Some(""), b"own").expect("own");
    assert_eq!(end.ecu().held(default_pid()), Some(b"own".to_vec()));
    end.send("elsewhere", &[0; 4092]).expect("the brim");
    assert_eq!(end.ecu().held(default_pid()), Some(vec![0; 4092]));
    assert_eq!(end.pid, default_pid());
}

#[test]
fn a_link_that_fails_ends_the_exchange_with_its_words() {
    let end = ObdTransport::new();
    let broken = || protocol_error("the bus is off".to_string());
    let asking = end.poll(Pid::current(0x0c));
    assert_eq!(asking.request(), [0x01, 0x0c]);
    let stopped = asking.delivered(Err(broken()));
    assert!(stopped.is_err_and(|error| error.message == "the bus is off"));
    let waiting = end.poll(Pid::current(0x0c)).delivered(Ok(()));
    let error = waiting
        .expect("delivered")
        .collected(Err(broken()))
        .expect_err("not collected");
    assert_eq!(error.message, "the bus is off");
    let error = end.answer_one(Err(broken())).expect_err("not collected");
    assert_eq!(error.message, "the bus is off");
    let empty = Arrived::new("isotp://can0/0x7df".to_string(), vec![]);
    let error = end.answer_one(Ok(empty)).expect_err("hung up");
    assert_eq!(error.message, "the tester hung up");
}

#[test]
fn the_first_parameter_is_the_ecu_name() {
    let end = ObdTransport::new();
    assert_eq!(end.pid, Pid::information(0x0a));
    assert_eq!(default_pid(), Pid::information(0x0a));
    assert_eq!(end.ecu().held(default_pid()), None);
}
