//! The conditions that end a session between supervisor and device.

use vstd::prelude::*;

verus! {

/// Why a task of the supervisor stops. None of these is retried.
#[derive(Clone, Debug, PartialEq, Eq)]
pub enum Error {
    /// The transport or a queue was closed by its other side.
    Disconnected,
    /// The bytes received are no frame, or a frame is longer than agreed.
    Malformed,
    /// An array holds more elements than its receiver has declared room for.
    Oversized,
    /// The message is of a kind that is not handled.
    Unsupported,
    /// The device reported that it failed.
    Device { code: u8, message: Vec<u8> },
}

/// What an [`Error`] holds.
pub enum ErrorView {
    Disconnected,
    Malformed,
    Oversized,
    Unsupported,
    Device { code: u8, message: Seq<u8> },
}

impl View for Error {
    type V = ErrorView;

    open spec fn view(&self) -> ErrorView {
        match *self {
            Error::Disconnected => ErrorView::Disconnected,
            Error::Malformed => ErrorView::Malformed,
            Error::Oversized => ErrorView::Oversized,
            Error::Unsupported => ErrorView::Unsupported,
            Error::Device { code, message } => ErrorView::Device { code, message: message@ },
        }
    }
}

} // verus!
