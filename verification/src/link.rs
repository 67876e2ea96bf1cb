//! Connection lifecycle and command framing for the serial link.
//!
//! The transport itself (enumeration, opening, reads and writes) lives
//! outside the library; everything here is the decision logic: which device
//! to pick, how the session state moves, and the exact bytes of each
//! request.

use vstd::prelude::*;

use crate::wire::{
    encode_command, spec_command_bytes, spec_config_zero, Command, CommandType, Config,
    COMMAND_SIZE,
};

verus! {

/// The acknowledgement byte the host sends to request the next telemetry
/// batch.
pub const DOWNLOAD_ACK: u8 = 1;

/// The lifecycle of the single process-wide connection.  Any transport
/// failure after connecting tears the link down; there is no automatic
/// reconnect.
#[derive(Clone, Copy, PartialEq, Eq, Structural, Debug)]
pub enum LinkState {
    Disconnected,
    Connected,
}

impl LinkState {
    /// Pure query of the current state; no transport access.
    pub fn is_connected(&self) -> (r: bool)
        ensures
            r == (*self == LinkState::Connected),
    {
        match self {
            LinkState::Connected => true,
            LinkState::Disconnected => false,
        }
    }

    /// A successful open commits the handle; a failed one leaves the state
    /// unchanged, never partially committed.
    pub fn on_connect(&self, success: bool) -> (r: LinkState)
        ensures
            success ==> r == LinkState::Connected,
            !success ==> r == *self,
    {
        if success {
            LinkState::Connected
        } else {
            *self
        }
    }

    /// Releasing the handle; disconnecting twice is a no-op, not an error.
    pub fn on_disconnect(&self) -> (r: LinkState)
        ensures
            r == LinkState::Disconnected,
    {
        LinkState::Disconnected
    }

    /// Any transport read/write failure is fatal to the session: the link is
    /// torn down and the frontend must be notified exactly when a connection
    /// existed.
    pub fn on_io_error(&self) -> (r: (LinkState, bool))
        ensures
            r.0 == LinkState::Disconnected,
            r.1 == (*self == LinkState::Connected),
    {
        (LinkState::Disconnected, self.is_connected())
    }
}

/// What the library reads of one enumerated serial device.
pub struct PortCandidate {
    pub port_name: String,
    pub manufacturer: Option<String>,
    pub is_usb: bool,
}

/// The manufacturer string the device advertises.
pub open spec fn spec_expected_manufacturer() -> Seq<char> {
    "STMicroelectronics"@
}

/// The fixed manufacturer string a candidate must advertise.
pub fn expected_manufacturer() -> (r: String)
    ensures
        r@ == spec_expected_manufacturer(),
{
    String::from_str("STMicroelectronics")
}

/// Whether one candidate is the device this library talks to.
pub open spec fn spec_candidate_matches(c: PortCandidate, expected: Seq<char>) -> bool {
    c.is_usb && match c.manufacturer {
        Some(m) => m@ == expected,
        None => false,
    }
}

/// The first matching candidate at or after index `i`, if any.
pub open spec fn spec_first_match(s: Seq<PortCandidate>, expected: Seq<char>, i: int) -> Option<
    int,
>
    decreases s.len() - i,
{
    if i < 0 || i >= s.len() {
        None
    } else if spec_candidate_matches(s[i], expected) {
        Some(i)
    } else {
        spec_first_match(s, expected, i + 1)
    }
}

/// Selects the first enumerated device whose advertised manufacturer equals
/// `expected`; `None` exactly when no candidate matches.
pub fn select_port(cands: &Vec<PortCandidate>, expected: &String) -> (r: Option<String>)
    ensures
        r is Some <==> spec_first_match(cands@, expected@, 0) is Some,
        r is Some ==> r->0@ == cands@[spec_first_match(cands@, expected@, 0)->0].port_name@,
{
    let n = cands.len();
    let mut i: usize = 0;
    while i < n
        invariant
            i <= n,
            n == cands@.len(),
            spec_first_match(cands@, expected@, 0) == spec_first_match(cands@, expected@, i as int),
        decreases n - i,
    {
        let c = &cands[i];
        if c.is_usb {
            match &c.manufacturer {
                Some(m) => {
                    if *m == *expected {
                        proof {
                            assert(spec_candidate_matches(cands@[i as int], expected@));
                            assert(spec_first_match(cands@, expected@, i as int) == Some(
                                i as int,
                            ));
                        }
                        return Some(c.port_name.clone());
                    }
                },
                None => {},
            }
        }
        proof {
            assert(!spec_candidate_matches(cands@[i as int], expected@));
        }
        i = i + 1;
    }
    None
}

// ---------------------------------------------------------------------------
// Request framing
// ---------------------------------------------------------------------------

/// The status query: a `Status` command with a zeroed payload.
pub fn status_request() -> (r: Vec<u8>)
    ensures
        r@ == spec_command_bytes(
            Command { command_type: CommandType::Status, config: spec_config_zero() },
        ),
        r@.len() == COMMAND_SIZE,
{
    encode_command(&Command { command_type: CommandType::Status, config: Config::default() })
}

/// The configuration write: a `ConfigWrite` command carrying `cfg`.
pub fn config_write_request(cfg: &Config) -> (r: Vec<u8>)
    ensures
        r@ == spec_command_bytes(Command { command_type: CommandType::ConfigWrite, config: *cfg }),
        r@.len() == COMMAND_SIZE,
{
    encode_command(&Command { command_type: CommandType::ConfigWrite, config: *cfg })
}

/// The actuator travel test: `ServoMax` when `max` is set, else `ServoMin`,
/// carrying `cfg`.
pub fn servo_test_request(cfg: &Config, max: bool) -> (r: Vec<u8>)
    ensures
        r@ == spec_command_bytes(
            Command {
                command_type: if max {
                    CommandType::ServoMax
                } else {
                    CommandType::ServoMin
                },
                config: *cfg,
            },
        ),
        r@.len() == COMMAND_SIZE,
{
    let t = if max {
        CommandType::ServoMax
    } else {
        CommandType::ServoMin
    };
    encode_command(&Command { command_type: t, config: *cfg })
}

/// The telemetry download request: a `DataRead` command with a zeroed
/// payload.
pub fn data_read_request() -> (r: Vec<u8>)
    ensures
        r@ == spec_command_bytes(
            Command { command_type: CommandType::DataRead, config: spec_config_zero() },
        ),
        r@.len() == COMMAND_SIZE,
{
    encode_command(&Command { command_type: CommandType::DataRead, config: Config::default() })
}

/// The replay upload request: a `FlightReplay` command with a zeroed
/// payload.
pub fn flight_replay_request() -> (r: Vec<u8>)
    ensures
        r@ == spec_command_bytes(
            Command { command_type: CommandType::FlightReplay, config: spec_config_zero() },
        ),
        r@.len() == COMMAND_SIZE,
{
    encode_command(&Command { command_type: CommandType::FlightReplay, config: Config::default() })
}

} // verus!
