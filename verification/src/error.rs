use vstd::prelude::*;

verus! {

/// Everything that can go wrong while a response is framed or decoded.
#[derive(Debug, Clone, Copy, PartialEq, Eq, Structural)]
pub enum Error {
    /// The response has the wrong number of fields or bytes.
    InvalidFormat,
    /// The battery voltage literal is not in the capacity table of the UPS mode.
    InvalidBatteryCapacityParameter,
    /// A decimal field is malformed.
    FloatParse,
    /// An integer field is malformed.
    IntParse,
    /// A binary field has the wrong width.
    InvalidParameterLength,
    /// The report buffer cannot hold what has to be written to it.
    BufferTooSmall { expected: usize, provided: usize },
    /// Reading from or writing to the transport failed or timed out.
    Io,
    /// The serial port reported an error of its own.
    SerialPort,
    /// The HID layer reported an error.
    HidApi,
    /// The query is not available on the transport it was issued on.
    UnsupportedOnTransport,
}

} // verus!
