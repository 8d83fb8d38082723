//! Errors of the transport layer.

use vstd::prelude::*;

verus! {

/// The category of an I/O failure, as `std::io::ErrorKind` names it.
#[derive(Debug, Clone, Copy, PartialEq, Eq, Structural)]
pub enum IoErrorKind {
    /// The data received was not valid.
    InvalidData,
    /// Any other failure of the connection.
    Other,
}

/// What an I/O failure reports.
#[derive(Debug, PartialEq, Eq)]
pub enum IoDetail {
    /// A received message of `len` bytes was shorter than the `min` bytes of a
    /// frame descriptor; reported as "frame too small: {len} < {min}".
    FrameTooSmall { len: usize, min: usize },
    /// A description of the failure.
    Message(String),
}

/// Why a transport operation failed.
#[derive(Debug, PartialEq, Eq)]
pub enum TransportError {
    /// The transport is closed.
    Closed,
    /// The underlying connection failed, or delivered data that is not a frame.
    Io(IoErrorKind, IoDetail),
}

} // verus!
