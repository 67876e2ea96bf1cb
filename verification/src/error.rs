use vstd::prelude::*;

verus! {

/// Why a protocol operation failed.
#[derive(Clone, Copy, PartialEq, Eq, Structural, Debug)]
pub enum ProtoError {
    /// No serial device with the expected manufacturer was found at connect time.
    DeviceNotFound,
    /// A matching device was found but the port could not be opened or configured.
    PortOpenFailed,
    /// A read, write or flush failed after the connection was established;
    /// fatal to the session.
    TransportIo,
    /// A byte buffer did not have the exact size of the expected message.
    FormatError,
}

impl ProtoError {
    /// Whether the session must be torn down when this error is seen after
    /// a connection was established.
    pub fn is_fatal_to_session(&self) -> (r: bool)
        ensures
            r == (*self == ProtoError::TransportIo || *self == ProtoError::FormatError),
    {
        match self {
            ProtoError::TransportIo => true,
            ProtoError::FormatError => true,
            _ => false,
        }
    }
}

} // verus!
