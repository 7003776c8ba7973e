//! Streams polled from an emissions ECU, the way SAE J1979 asks for them.
//!
//! OBD-II is the port under every dashboard since 1996: a tester asks a
//! mode and a parameter at the functional address `0x7df`, and the ECU
//! answers from `0x7e8` with the mode plus `0x40`, the parameter and the
//! data. Mode `01` is current data, mode `09` vehicle information. A
//! Receive Location polls one parameter and its data arrives as a Stream; a
//! Send Location answers one as the ECU would, the Stream it is given
//! being the data. One ISO-TP message carries a response, so a parameter's
//! data is at most the message's ceiling less the response header: the
//! ceiling, and a fact of the protocol.
//!
//! The link that carries the messages is the caller's. This library says
//! what to deliver, reads what was collected, and keeps what an ECU holds and
//! which sessions stand.
//!
//! The origin URI names the parameter that was polled:
//! `obd://<bus>/0x<mode>/0x<pid>`.

pub mod ceiling;
pub mod ecu;
pub mod error;
pub mod exchange;
pub mod laws;
pub mod loopback;
pub mod pid;
pub mod text;
pub mod transport;

pub use ecu::Ecu;
pub use error::Error;
pub use exchange::{bus_of, Arrived};
pub use pid::{code, Pid, CURRENT_DATA, ECU, FUNCTIONAL, VEHICLE_INFORMATION};
pub use text::hex;
pub use transport::{default_pid, ObdTransport};
