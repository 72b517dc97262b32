//! Messages from the supervisor to the device, and their frames.
//!
//! The layout follows the same rules as the frames of the device: one tag
//! byte, little-endian scalars, arrays with a 16-bit element count.

use vstd::prelude::*;
use crate::mcu_msg::MAX_COUNT;
use crate::wire::{
    framed, get_points, get_u16, lemma_bytes_round_trip, lemma_points_bytes_round_trip,
    lemma_points_round_trip, lemma_scalars_round_trip,
    points_from_le, points_le, put_points, put_u16, u16_from_le, u16_le, Decoded, EncodeError,
};

verus! {

pub const APP_CONNECT: u8 = 0;

pub const APP_KEEP_ALIVE: u8 = 1;

pub const APP_DOUT_UPDATE: u8 = 2;

pub const APP_DAC_STATE: u8 = 3;

pub const APP_DAC_DATA: u8 = 4;

pub const APP_STATS_RESET: u8 = 5;

/// A message from the supervisor.
#[derive(Clone, Debug, PartialEq, Eq)]
pub enum AppMsg {
    /// Opens a session. It is the first frame of a session, and is sent once.
    Connect,
    /// Tells the device that the supervisor is alive. No reply is expected.
    KeepAlive,
    /// A new value for the discrete output.
    DoutUpdate { value: u8 },
    /// Switches actuation on or off.
    DacState { enable: bool },
    /// A batch of setpoints, oldest first.
    DacData { points: Vec<i32> },
    /// Asks the device to put its counters back to zero.
    StatsReset,
}

/// What an [`AppMsg`] holds.
pub enum AppMsgView {
    Connect,
    KeepAlive,
    DoutUpdate { value: u8 },
    DacState { enable: bool },
    DacData { points: Seq<i32> },
    StatsReset,
}

impl View for AppMsg {
    type V = AppMsgView;

    open spec fn view(&self) -> AppMsgView {
        match *self {
            AppMsg::Connect => AppMsgView::Connect,
            AppMsg::KeepAlive => AppMsgView::KeepAlive,
            AppMsg::DoutUpdate { value } => AppMsgView::DoutUpdate { value },
            AppMsg::DacState { enable } => AppMsgView::DacState { enable },
            AppMsg::DacData { points } => AppMsgView::DacData { points: points@ },
            AppMsg::StatsReset => AppMsgView::StatsReset,
        }
    }
}

impl AppMsgView {
    /// Whether the message can be put into a frame at all: the count field
    /// can tell the length of its array.
    pub open spec fn wf(self) -> bool {
        match self {
            AppMsgView::DacData { points } => points.len() <= MAX_COUNT,
            _ => true,
        }
    }

    /// The frame of the message.
    pub open spec fn encode(self) -> Seq<u8> {
        match self {
            AppMsgView::Connect => seq![APP_CONNECT],
            AppMsgView::KeepAlive => seq![APP_KEEP_ALIVE],
            AppMsgView::DoutUpdate { value } => seq![APP_DOUT_UPDATE, value],
            AppMsgView::DacState { enable } => seq![
                APP_DAC_STATE,
                if enable {
                    1u8
                } else {
                    0u8
                },
            ],
            AppMsgView::DacData { points } => seq![APP_DAC_DATA] + u16_le(points.len() as u16)
                + points_le(points),
            AppMsgView::StatsReset => seq![APP_STATS_RESET],
        }
    }

    /// The length of the frame of a well-formed message.
    pub open spec fn encoded_len(self) -> nat {
        match self {
            AppMsgView::DoutUpdate { value } => 2,
            AppMsgView::DacState { enable } => 2,
            AppMsgView::DacData { points } => 3 + 4 * points.len(),
            _ => 1,
        }
    }

    /// A frame is as long as `encoded_len` says.
    pub proof fn lemma_encoded_len(self)
        ensures
            self.encode().len() == self.encoded_len(),
    {
    }
}

/// Reads one message of the supervisor from the front of `b`, where no frame
/// may be longer than `max_len`.
pub open spec fn decode_app(b: Seq<u8>, max_len: usize) -> Decoded<AppMsgView> {
    if b.len() == 0 {
        Decoded::Incomplete
    } else if b[0] == APP_CONNECT {
        framed(AppMsgView::Connect, 1, b.len(), max_len)
    } else if b[0] == APP_KEEP_ALIVE {
        framed(AppMsgView::KeepAlive, 1, b.len(), max_len)
    } else if b[0] == APP_STATS_RESET {
        framed(AppMsgView::StatsReset, 1, b.len(), max_len)
    } else if b[0] == APP_DOUT_UPDATE {
        framed(AppMsgView::DoutUpdate { value: b[1] }, 2, b.len(), max_len)
    } else if b[0] == APP_DAC_STATE {
        if 2 > max_len {
            Decoded::Malformed
        } else if b.len() < 2 {
            Decoded::Incomplete
        } else if b[1] > 1 {
            Decoded::Malformed
        } else {
            Decoded::Frame { msg: AppMsgView::DacState { enable: b[1] == 1 }, len: 2 }
        }
    } else if b[0] == APP_DAC_DATA {
        if 3 > max_len {
            Decoded::Malformed
        } else if b.len() < 3 {
            Decoded::Incomplete
        } else {
            let count = u16_from_le(b.subrange(1, 3)) as nat;
            framed(
                AppMsgView::DacData { points: points_from_le(b.skip(3), count) },
                3 + 4 * count,
                b.len(),
                max_len,
            )
        }
    } else {
        Decoded::Malformed
    }
}

/// What a decoding result holds.
pub open spec fn app_decoded_view(res: Decoded<AppMsg>) -> Decoded<AppMsgView> {
    match res {
        Decoded::Incomplete => Decoded::Incomplete,
        Decoded::Malformed => Decoded::Malformed,
        Decoded::Frame { msg, len } => Decoded::Frame { msg: msg@, len },
    }
}

/// Decoding the frame of a message gives the message back, field for field,
/// and the length of its frame, whatever bytes follow the frame.
pub proof fn lemma_app_round_trip(msg: AppMsgView, rest: Seq<u8>, max_len: usize)
    requires
        msg.wf(),
        msg.encode().len() <= max_len,
    ensures
        decode_app(msg.encode() + rest, max_len) == (Decoded::Frame {
            msg,
            len: msg.encode().len() as usize,
        }),
{
    let b = msg.encode() + rest;
    match msg {
        AppMsgView::Connect => {
            assert(b[0] == APP_CONNECT);
        },
        AppMsgView::KeepAlive => {
            assert(b[0] == APP_KEEP_ALIVE);
        },
        AppMsgView::StatsReset => {
            assert(b[0] == APP_STATS_RESET);
        },
        AppMsgView::DoutUpdate { value } => {
            assert(b[0] == APP_DOUT_UPDATE);
            assert(b[1] == value);
        },
        AppMsgView::DacState { enable } => {
            assert(b[0] == APP_DAC_STATE);
            assert(b[1] == if enable { 1u8 } else { 0u8 });
        },
        AppMsgView::DacData { points } => {
            let n = points.len() as u16;
            assert(b[0] == APP_DAC_DATA);
            assert(b.subrange(1, 3) =~= u16_le(n));
            lemma_scalars_round_trip(n, 0, 0);
            lemma_points_round_trip(points, rest);
            assert(b.skip(3) =~= points_le(points) + rest);
        },
    }
}

/// A frame is read only from bytes that are, to the byte, the frame of the
/// message that is read: what decodes as a message is well formed, no longer
/// than allowed, and encodes to the very bytes it was read from.
pub proof fn lemma_app_decode_sound(b: Seq<u8>, max_len: usize)
    ensures
        decode_app(b, max_len) matches Decoded::Frame { msg, len } ==> msg.wf() && len <= max_len
            && len <= b.len() && msg.encode() == b.take(len as int),
{
    if let Decoded::Frame { msg, len } = decode_app(b, max_len) {
        let front = b.take(len as int);
        if b[0] == APP_DAC_DATA {
            let two = b.subrange(1, 3);
            let count = u16_from_le(two) as nat;
            lemma_bytes_round_trip(two);
            lemma_points_bytes_round_trip(b.skip(3), count);
            assert(msg.encode() =~= front);
        } else {
            assert(msg.encode() =~= front);
        }
    }
}

impl AppMsg {
    /// The frame of the message, if the message is well formed and its frame
    /// is no longer than `max_len`.
    pub fn encode(&self, max_len: usize) -> (res: Result<Vec<u8>, EncodeError>)
        ensures
            res.is_ok() == (self@.wf() && self@.encoded_len() <= max_len),
            res.is_ok() ==> res->Ok_0@ == self@.encode(),
            res.is_err() ==> res->Err_0 == EncodeError::TooLong,
    {
        let mut out: Vec<u8> = Vec::new();
        match self {
            AppMsg::Connect => {
                if max_len < 1 {
                    return Err(EncodeError::TooLong);
                }
                out.push(APP_CONNECT);
            },
            AppMsg::KeepAlive => {
                if max_len < 1 {
                    return Err(EncodeError::TooLong);
                }
                out.push(APP_KEEP_ALIVE);
            },
            AppMsg::StatsReset => {
                if max_len < 1 {
                    return Err(EncodeError::TooLong);
                }
                out.push(APP_STATS_RESET);
            },
            AppMsg::DoutUpdate { value } => {
                if max_len < 2 {
                    return Err(EncodeError::TooLong);
                }
                out.push(APP_DOUT_UPDATE);
                out.push(*value);
            },
            AppMsg::DacState { enable } => {
                if max_len < 2 {
                    return Err(EncodeError::TooLong);
                }
                out.push(APP_DAC_STATE);
                out.push(if *enable {
                    1
                } else {
                    0
                });
            },
            AppMsg::DacData { points } => {
                let n = points.len();
                if n > MAX_COUNT || max_len < 3 || (max_len - 3) / 4 < n {
                    return Err(EncodeError::TooLong);
                }
                out.push(APP_DAC_DATA);
                put_u16(&mut out, n as u16);
                put_points(&mut out, points.as_slice());
            },
        }
        assert(out@ =~= self@.encode());
        Ok(out)
    }

    /// Reads one message from the front of `bytes`, where no frame may be
    /// longer than `max_len`.
    pub fn decode(bytes: &[u8], max_len: usize) -> (res: Decoded<AppMsg>)
        ensures
            app_decoded_view(res) == decode_app(bytes@, max_len),
    {
        let have = bytes.len();
        if have == 0 {
            return Decoded::Incomplete;
        }
        let tag = bytes[0];
        if tag == APP_CONNECT || tag == APP_KEEP_ALIVE || tag == APP_STATS_RESET {
            if 1 > max_len {
                return Decoded::Malformed;
            }
            let msg = if tag == APP_CONNECT {
                AppMsg::Connect
            } else if tag == APP_KEEP_ALIVE {
                AppMsg::KeepAlive
            } else {
                AppMsg::StatsReset
            };
            Decoded::Frame { msg, len: 1 }
        } else if tag == APP_DOUT_UPDATE {
            if 2 > max_len {
                return Decoded::Malformed;
            }
            if have < 2 {
                return Decoded::Incomplete;
            }
            Decoded::Frame { msg: AppMsg::DoutUpdate { value: bytes[1] }, len: 2 }
        } else if tag == APP_DAC_STATE {
            if 2 > max_len {
                return Decoded::Malformed;
            }
            if have < 2 {
                return Decoded::Incomplete;
            }
            if bytes[1] > 1 {
                return Decoded::Malformed;
            }
            Decoded::Frame { msg: AppMsg::DacState { enable: bytes[1] == 1 }, len: 2 }
        } else if tag == APP_DAC_DATA {
            if 3 > max_len {
                return Decoded::Malformed;
            }
            if have < 3 {
                return Decoded::Incomplete;
            }
            let count = get_u16(bytes, 1) as usize;
            let len = 3 + 4 * count;
            if len > max_len {
                return Decoded::Malformed;
            }
            if have < len {
                return Decoded::Incomplete;
            }
            let points = get_points(bytes, 3, count);
            Decoded::Frame { msg: AppMsg::DacData { points }, len }
        } else {
            Decoded::Malformed
        }
    }
}

} // verus!
