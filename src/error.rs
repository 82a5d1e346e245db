use vstd::prelude::*;

verus! {

/// Why a bus transaction failed.
#[derive(Clone, Copy, Debug, PartialEq, Eq, Structural)]
pub enum ProtocolError {
    /// No device pulled the line low after the reset pulse.
    NoPresence,
    /// The line stayed low after a write-1 slot released it.
    BusContention,
    /// The ROM's check byte is not the CRC-8 of its other seven bytes.
    Crc,
    /// The ROM names a device family other than the temperature sensor's.
    UnexpectedFamily,
}

} // verus!
