use vstd::prelude::*;

verus! {

/// Why a transport operation did not complete.
#[derive(Debug, Clone, Copy, PartialEq, Eq, Structural)]
pub enum TransportError {
    /// No matching HID device was attached when the transport was opened.
    DeviceNotFound,
    /// The emulator socket could not be connected when the transport was opened.
    ConnectFailed,
    /// A write of a report or frame failed; `written` counts the payload bytes
    /// that were flushed before it.
    WriteFailed { written: usize },
    /// Fewer bytes arrived than the protocol requires.
    ShortRead,
    /// A bounded wait for a continuation report expired.
    Timeout,
    /// A read failed at the device or socket.
    ReadFailed,
    /// The received data does not agree with its declared length.
    ProtocolViolation,
    /// The payload is too long for the channel's length prefix.
    PayloadTooLong,
}

} // verus!
