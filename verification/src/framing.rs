//! Frames on a byte stream: a reader that collects bytes until a frame is
//! whole, and a writer that lines frames up one after the other.
//!
//! The transport itself is the caller's: it feeds the reader what it
//! received and sends what the writer holds.

use vstd::prelude::*;
use crate::app_msg::{app_decoded_view, decode_app, AppMsg, AppMsgView};
use crate::ioc::{decode_in, in_decoded_view, InMsg, InMsgView, OutMsg};
use crate::mcu_msg::{decode_mcu, mcu_decoded_view, McuMsg, McuMsgView};
use crate::wire::{get_bytes, put_bytes, Decoded, EncodeError};

verus! {

/// Why no message can be read.
#[derive(Clone, Copy, Debug, PartialEq, Eq)]
pub enum ReadError {
    /// The bytes are no frame, or the frame is longer than allowed.
    Malformed,
    /// The transport ended before the frame was whole.
    Disconnected,
}

/// What a [`MsgReader`] holds.
pub struct ReaderView {
    /// Bytes received and not yet read as a frame.
    pub pending: Seq<u8>,
    /// Greatest length of a frame.
    pub max_len: usize,
    /// The transport has ended.
    pub ended: bool,
}

/// What reading comes to, for the outcome `d` of decoding the pending bytes:
/// a message, nothing yet, or the reason why there will be none.
pub open spec fn read_outcome<M>(d: Decoded<M>, ended: bool) -> Result<Option<M>, ReadError> {
    match d {
        Decoded::Frame { msg, len } => Ok(Some(msg)),
        Decoded::Incomplete => if ended {
            Err(ReadError::Disconnected)
        } else {
            Ok(None)
        },
        Decoded::Malformed => Err(ReadError::Malformed),
    }
}

/// The bytes that stay pending after reading: all but the frame that was read.
pub open spec fn unread<M>(pending: Seq<u8>, d: Decoded<M>) -> Seq<u8> {
    match d {
        Decoded::Frame { msg, len } => pending.skip(len as int),
        _ => pending,
    }
}

/// Collects the bytes of a transport and reads them frame by frame.
pub struct MsgReader {
    buffer: Vec<u8>,
    max_len: usize,
    ended: bool,
}

impl View for MsgReader {
    type V = ReaderView;

    closed spec fn view(&self) -> ReaderView {
        ReaderView { pending: self.buffer@, max_len: self.max_len, ended: self.ended }
    }
}

impl MsgReader {
    /// A reader with nothing pending, for frames of up to `max_len` bytes.
    pub fn new(max_len: usize) -> (reader: Self)
        ensures
            reader@ == (ReaderView { pending: Seq::<u8>::empty(), max_len, ended: false }),
    {
        MsgReader { buffer: Vec::new(), max_len, ended: false }
    }

    /// Takes in bytes that the transport delivered.
    pub fn feed(&mut self, bytes: &[u8])
        ensures
            final(self)@ == (ReaderView { pending: old(self)@.pending + bytes@, ..old(self)@ }),
    {
        put_bytes(&mut self.buffer, bytes);
    }

    /// Notes that the transport has ended. What is pending can still be read.
    pub fn end(&mut self)
        ensures
            final(self)@ == (ReaderView { ended: true, ..old(self)@ }),
    {
        self.ended = true;
    }

    /// The number of pending bytes.
    pub fn pending(&self) -> (n: usize)
        ensures
            n == self@.pending.len(),
    {
        self.buffer.len()
    }

    fn consume(&mut self, len: usize)
        requires
            len <= old(self)@.pending.len(),
        ensures
            final(self)@ == (ReaderView { pending: old(self)@.pending.skip(len as int), ..old(self)@ }),
    {
        let rest = get_bytes(self.buffer.as_slice(), len, self.buffer.len() - len);
        assert(rest@ =~= self.buffer@.skip(len as int));
        self.buffer = rest;
    }

    /// Reads the next message of the device, if its frame is whole.
    pub fn read_mcu(&mut self) -> (res: Result<Option<McuMsg>, ReadError>)
        ensures
            mcu_read_view(res) == read_outcome(
                decode_mcu(old(self)@.pending, old(self)@.max_len),
                old(self)@.ended,
            ),
            final(self)@ == (ReaderView {
                pending: unread(
                    old(self)@.pending,
                    decode_mcu(old(self)@.pending, old(self)@.max_len),
                ),
                ..old(self)@
            }),
    {
        match McuMsg::decode(self.buffer.as_slice(), self.max_len) {
            Decoded::Frame { msg, len } => {
                self.consume(len);
                Ok(Some(msg))
            },
            Decoded::Incomplete => {
                if self.ended {
                    Err(ReadError::Disconnected)
                } else {
                    Ok(None)
                }
            },
            Decoded::Malformed => Err(ReadError::Malformed),
        }
    }

    /// Reads the next message of the supervisor, if its frame is whole.
    pub fn read_app(&mut self) -> (res: Result<Option<AppMsg>, ReadError>)
        ensures
            app_read_view(res) == read_outcome(
                decode_app(old(self)@.pending, old(self)@.max_len),
                old(self)@.ended,
            ),
            final(self)@ == (ReaderView {
                pending: unread(
                    old(self)@.pending,
                    decode_app(old(self)@.pending, old(self)@.max_len),
                ),
                ..old(self)@
            }),
    {
        match AppMsg::decode(self.buffer.as_slice(), self.max_len) {
            Decoded::Frame { msg, len } => {
                self.consume(len);
                Ok(Some(msg))
            },
            Decoded::Incomplete => {
                if self.ended {
                    Err(ReadError::Disconnected)
                } else {
                    Ok(None)
                }
            },
            Decoded::Malformed => Err(ReadError::Malformed),
        }
    }

    /// Reads the next input message, if its frame is whole.
    pub fn read_in(&mut self) -> (res: Result<Option<InMsg>, ReadError>)
        ensures
            in_read_view(res) == read_outcome(
                decode_in(old(self)@.pending, old(self)@.max_len),
                old(self)@.ended,
            ),
            final(self)@ == (ReaderView {
                pending: unread(
                    old(self)@.pending,
                    decode_in(old(self)@.pending, old(self)@.max_len),
                ),
                ..old(self)@
            }),
    {
        match InMsg::decode(self.buffer.as_slice(), self.max_len) {
            Decoded::Frame { msg, len } => {
                self.consume(len);
                Ok(Some(msg))
            },
            Decoded::Incomplete => {
                if self.ended {
                    Err(ReadError::Disconnected)
                } else {
                    Ok(None)
                }
            },
            Decoded::Malformed => Err(ReadError::Malformed),
        }
    }
}

/// What a result of reading an input message holds.
pub open spec fn in_read_view(res: Result<Option<InMsg>, ReadError>) -> Result<
    Option<InMsgView>,
    ReadError,
> {
    match res {
        Ok(Some(msg)) => Ok(Some(msg@)),
        Ok(None) => Ok(None),
        Err(e) => Err(e),
    }
}

/// What a result of reading a device message holds.
pub open spec fn mcu_read_view(res: Result<Option<McuMsg>, ReadError>) -> Result<
    Option<McuMsgView>,
    ReadError,
> {
    match res {
        Ok(Some(msg)) => Ok(Some(msg@)),
        Ok(None) => Ok(None),
        Err(e) => Err(e),
    }
}

/// What a result of reading a supervisor message holds.
pub open spec fn app_read_view(res: Result<Option<AppMsg>, ReadError>) -> Result<
    Option<AppMsgView>,
    ReadError,
> {
    match res {
        Ok(Some(msg)) => Ok(Some(msg@)),
        Ok(None) => Ok(None),
        Err(e) => Err(e),
    }
}

/// What a [`MsgWriter`] holds.
pub struct WriterView {
    /// Whole frames that wait to be sent, in the order in which they were
    /// written.
    pub outgoing: Seq<u8>,
    /// Greatest length of a frame.
    pub max_len: usize,
}

/// Lines up frames for a transport. A frame is added whole or not at all, so
/// the frames of several senders never mix.
pub struct MsgWriter {
    buffer: Vec<u8>,
    max_len: usize,
}

impl View for MsgWriter {
    type V = WriterView;

    closed spec fn view(&self) -> WriterView {
        WriterView { outgoing: self.buffer@, max_len: self.max_len }
    }
}

impl MsgWriter {
    /// A writer with nothing to send, for frames of up to `max_len` bytes.
    pub fn new(max_len: usize) -> (writer: Self)
        ensures
            writer@ == (WriterView { outgoing: Seq::<u8>::empty(), max_len }),
    {
        MsgWriter { buffer: Vec::new(), max_len }
    }

    /// Adds the frame of a supervisor message to what waits to be sent. A
    /// message whose frame would be too long is refused, and nothing is added.
    pub fn write_app(&mut self, msg: &AppMsg) -> (res: Result<(), EncodeError>)
        ensures
            res.is_ok() == (msg@.wf() && msg@.encoded_len() <= old(self)@.max_len),
            res.is_ok() ==> final(self)@ == (WriterView {
                outgoing: old(self)@.outgoing + msg@.encode(),
                ..old(self)@
            }),
            res.is_err() ==> res->Err_0 == EncodeError::TooLong && final(self)@ == old(self)@,
    {
        match msg.encode(self.max_len) {
            Ok(frame) => {
                put_bytes(&mut self.buffer, frame.as_slice());
                Ok(())
            },
            Err(e) => Err(e),
        }
    }

    /// Adds the frame of a device message to what waits to be sent. A
    /// message whose frame would be too long is refused, and nothing is added.
    pub fn write_mcu(&mut self, msg: &McuMsg) -> (res: Result<(), EncodeError>)
        ensures
            res.is_ok() == (msg@.wf() && msg@.encoded_len() <= old(self)@.max_len),
            res.is_ok() ==> final(self)@ == (WriterView {
                outgoing: old(self)@.outgoing + msg@.encode(),
                ..old(self)@
            }),
            res.is_err() ==> res->Err_0 == EncodeError::TooLong && final(self)@ == old(self)@,
    {
        match msg.encode(self.max_len) {
            Ok(frame) => {
                put_bytes(&mut self.buffer, frame.as_slice());
                Ok(())
            },
            Err(e) => Err(e),
        }
    }

    /// Adds the frame of an output message to what waits to be sent. A
    /// message whose frame would be too long is refused, and nothing is added.
    pub fn write_out(&mut self, msg: &OutMsg) -> (res: Result<(), EncodeError>)
        ensures
            res.is_ok() == (msg@.wf() && msg@.encoded_len() <= old(self)@.max_len),
            res.is_ok() ==> final(self)@ == (WriterView {
                outgoing: old(self)@.outgoing + msg@.encode(),
                ..old(self)@
            }),
            res.is_err() ==> res->Err_0 == EncodeError::TooLong && final(self)@ == old(self)@,
    {
        match msg.encode(self.max_len) {
            Ok(frame) => {
                put_bytes(&mut self.buffer, frame.as_slice());
                Ok(())
            },
            Err(e) => Err(e),
        }
    }

    /// Hands over everything that waits to be sent, and keeps nothing.
    pub fn take(&mut self) -> (bytes: Vec<u8>)
        ensures
            bytes@ == old(self)@.outgoing,
            final(self)@ == (WriterView { outgoing: Seq::<u8>::empty(), ..old(self)@ }),
    {
        let mut bytes: Vec<u8> = Vec::new();
        std::mem::swap(&mut bytes, &mut self.buffer);
        bytes
    }
}

} // verus!
