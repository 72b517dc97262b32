//! Messages from the device to its supervisor, and their frames.
//!
//! A frame is one tag byte followed by the fields of the variant. Scalars are
//! little-endian; an array is a 16-bit element count followed by the elements.

use vstd::prelude::*;
use crate::samples::{
    collect_sets, flat, frames, lemma_flat_of_frames, lemma_flat_push, lemma_frames_of_flat,
    sets_view, whole, AdcPoints,
};
use crate::wire::{
    framed, get_bytes, get_points, get_u16, get_u32, lemma_bytes_round_trip,
    lemma_points_bytes_round_trip, lemma_points_le_concat,
    lemma_points_round_trip, lemma_scalars_round_trip, points_from_le, points_le, put_bytes,
    put_points, put_u16, put_u32, u16_from_le, u16_le, u32_from_le, u32_le, Decoded, EncodeError,
};

verus! {

pub const MCU_EMPTY: u8 = 0;

pub const MCU_DIN_UPDATE: u8 = 1;

pub const MCU_DAC_REQUEST: u8 = 2;

pub const MCU_ADC_DATA: u8 = 3;

pub const MCU_ERROR: u8 = 4;

pub const MCU_DEBUG: u8 = 5;

/// Largest number of elements that the count field of an array can tell.
pub const MAX_COUNT: usize = 0xffff;

/// A message from the device.
#[derive(Clone, Debug, PartialEq, Eq)]
pub enum McuMsg {
    /// Nothing to say.
    Empty,
    /// The discrete input changed.
    DinUpdate { value: u8 },
    /// The device asks for `count` more setpoints.
    DacRequest { count: u32 },
    /// A batch of sample sets, oldest first.
    AdcData { points_arrays: Vec<AdcPoints> },
    /// The device failed.
    Error { code: u8, message: Vec<u8> },
    /// Text for the log.
    Debug { message: Vec<u8> },
}

/// What a [`McuMsg`] holds.
pub enum McuMsgView {
    Empty,
    DinUpdate { value: u8 },
    DacRequest { count: u32 },
    AdcData { points_arrays: Seq<Seq<i32>> },
    Error { code: u8, message: Seq<u8> },
    Debug { message: Seq<u8> },
}

impl View for McuMsg {
    type V = McuMsgView;

    open spec fn view(&self) -> McuMsgView {
        match *self {
            McuMsg::Empty => McuMsgView::Empty,
            McuMsg::DinUpdate { value } => McuMsgView::DinUpdate { value },
            McuMsg::DacRequest { count } => McuMsgView::DacRequest { count },
            McuMsg::AdcData { points_arrays } => McuMsgView::AdcData {
                points_arrays: sets_view(points_arrays@),
            },
            McuMsg::Error { code, message } => McuMsgView::Error { code, message: message@ },
            McuMsg::Debug { message } => McuMsgView::Debug { message: message@ },
        }
    }
}

impl McuMsgView {
    /// Whether the message can be put into a frame at all: every sample set
    /// is whole, and the count field can tell the length of every array.
    pub open spec fn wf(self) -> bool {
        match self {
            McuMsgView::AdcData { points_arrays } => whole(points_arrays) && points_arrays.len()
                <= MAX_COUNT,
            McuMsgView::Error { code, message } => message.len() <= MAX_COUNT,
            McuMsgView::Debug { message } => message.len() <= MAX_COUNT,
            _ => true,
        }
    }

    /// The frame of the message.
    pub open spec fn encode(self) -> Seq<u8> {
        match self {
            McuMsgView::Empty => seq![MCU_EMPTY],
            McuMsgView::DinUpdate { value } => seq![MCU_DIN_UPDATE, value],
            McuMsgView::DacRequest { count } => seq![MCU_DAC_REQUEST] + u32_le(count),
            McuMsgView::AdcData { points_arrays } => seq![MCU_ADC_DATA] + u16_le(
                points_arrays.len() as u16,
            ) + points_le(flat(points_arrays)),
            McuMsgView::Error { code, message } => seq![MCU_ERROR, code] + u16_le(
                message.len() as u16,
            ) + message,
            McuMsgView::Debug { message } => seq![MCU_DEBUG] + u16_le(message.len() as u16)
                + message,
        }
    }

    /// The length of the frame of a well-formed message.
    pub open spec fn encoded_len(self) -> nat {
        match self {
            McuMsgView::Empty => 1,
            McuMsgView::DinUpdate { value } => 2,
            McuMsgView::DacRequest { count } => 5,
            McuMsgView::AdcData { points_arrays } => 3 + 24 * points_arrays.len(),
            McuMsgView::Error { code, message } => 4 + message.len(),
            McuMsgView::Debug { message } => 3 + message.len(),
        }
    }

    /// A frame is as long as `encoded_len` says.
    pub proof fn lemma_encoded_len(self)
        ensures
            self.encode().len() == self.encoded_len(),
    {
    }
}

/// Reads one message of the device from the front of `b`, where no frame may
/// be longer than `max_len`.
pub open spec fn decode_mcu(b: Seq<u8>, max_len: usize) -> Decoded<McuMsgView> {
    if b.len() == 0 {
        Decoded::Incomplete
    } else if b[0] == MCU_EMPTY {
        framed(McuMsgView::Empty, 1, b.len(), max_len)
    } else if b[0] == MCU_DIN_UPDATE {
        framed(McuMsgView::DinUpdate { value: b[1] }, 2, b.len(), max_len)
    } else if b[0] == MCU_DAC_REQUEST {
        framed(
            McuMsgView::DacRequest { count: u32_from_le(b.subrange(1, 5)) },
            5,
            b.len(),
            max_len,
        )
    } else if b[0] == MCU_ADC_DATA {
        if 3 > max_len {
            Decoded::Malformed
        } else if b.len() < 3 {
            Decoded::Incomplete
        } else {
            let count = u16_from_le(b.subrange(1, 3)) as nat;
            framed(
                McuMsgView::AdcData {
                    points_arrays: frames(points_from_le(b.skip(3), 6 * count)),
                },
                3 + 24 * count,
                b.len(),
                max_len,
            )
        }
    } else if b[0] == MCU_ERROR {
        if 4 > max_len {
            Decoded::Malformed
        } else if b.len() < 4 {
            Decoded::Incomplete
        } else {
            let count = u16_from_le(b.subrange(2, 4)) as nat;
            framed(
                McuMsgView::Error { code: b[1], message: b.subrange(4, 4 + count as int) },
                4 + count,
                b.len(),
                max_len,
            )
        }
    } else if b[0] == MCU_DEBUG {
        if 3 > max_len {
            Decoded::Malformed
        } else if b.len() < 3 {
            Decoded::Incomplete
        } else {
            let count = u16_from_le(b.subrange(1, 3)) as nat;
            framed(
                McuMsgView::Debug { message: b.subrange(3, 3 + count as int) },
                3 + count,
                b.len(),
                max_len,
            )
        }
    } else {
        Decoded::Malformed
    }
}

/// What a decoding result holds.
pub open spec fn mcu_decoded_view(res: Decoded<McuMsg>) -> Decoded<McuMsgView> {
    match res {
        Decoded::Incomplete => Decoded::Incomplete,
        Decoded::Malformed => Decoded::Malformed,
        Decoded::Frame { msg, len } => Decoded::Frame { msg: msg@, len },
    }
}

/// Decoding the frame of a message gives the message back, field for field,
/// and the length of its frame, whatever bytes follow the frame.
pub proof fn lemma_mcu_round_trip(msg: McuMsgView, rest: Seq<u8>, max_len: usize)
    requires
        msg.wf(),
        msg.encode().len() <= max_len,
    ensures
        decode_mcu(msg.encode() + rest, max_len) == (Decoded::Frame {
            msg,
            len: msg.encode().len() as usize,
        }),
{
    let b = msg.encode() + rest;
    match msg {
        McuMsgView::Empty => {},
        McuMsgView::DinUpdate { value } => {},
        McuMsgView::DacRequest { count } => {
            assert(b.subrange(1, 5) =~= u32_le(count));
            lemma_scalars_round_trip(0, count, 0);
        },
        McuMsgView::AdcData { points_arrays } => {
            let n = points_arrays.len() as u16;
            assert(b.subrange(1, 3) =~= u16_le(n));
            lemma_scalars_round_trip(n, 0, 0);
            lemma_frames_of_flat(points_arrays);
            lemma_points_round_trip(flat(points_arrays), rest);
            assert(b.skip(3) =~= points_le(flat(points_arrays)) + rest);
        },
        McuMsgView::Error { code, message } => {
            let n = message.len() as u16;
            assert(b.subrange(2, 4) =~= u16_le(n));
            lemma_scalars_round_trip(n, 0, 0);
            assert(b.subrange(4, 4 + n) =~= message);
        },
        McuMsgView::Debug { message } => {
            let n = message.len() as u16;
            assert(b.subrange(1, 3) =~= u16_le(n));
            lemma_scalars_round_trip(n, 0, 0);
            assert(b.subrange(3, 3 + n) =~= message);
        },
    }
}

/// A frame is read only from bytes that are, to the byte, the frame of the
/// message that is read: what decodes as a message is well formed, no longer
/// than allowed, and encodes to the very bytes it was read from.
pub proof fn lemma_mcu_decode_sound(b: Seq<u8>, max_len: usize)
    ensures
        decode_mcu(b, max_len) matches Decoded::Frame { msg, len } ==> msg.wf() && len <= max_len
            && len <= b.len() && msg.encode() == b.take(len as int),
{
    if let Decoded::Frame { msg, len } = decode_mcu(b, max_len) {
        let front = b.take(len as int);
        if b[0] == MCU_EMPTY || b[0] == MCU_DIN_UPDATE {
            assert(msg.encode() =~= front);
        } else if b[0] == MCU_DAC_REQUEST {
            lemma_bytes_round_trip(b.subrange(1, 5));
            assert(msg.encode() =~= front);
        } else if b[0] == MCU_ADC_DATA {
            let two = b.subrange(1, 3);
            let count = u16_from_le(two) as nat;
            let points = points_from_le(b.skip(3), 6 * count);
            lemma_bytes_round_trip(two);
            lemma_flat_of_frames(points);
            lemma_points_bytes_round_trip(b.skip(3), 6 * count);
            assert(frames(points).len() == count);
            assert(msg.encode() =~= front);
        } else if b[0] == MCU_ERROR {
            let two = b.subrange(2, 4);
            lemma_bytes_round_trip(two);
            assert(msg.encode() =~= front);
        } else {
            let two = b.subrange(1, 3);
            lemma_bytes_round_trip(two);
            assert(msg.encode() =~= front);
        }
    }
}

impl McuMsg {
    /// The frame of the message, if the message is well formed and its frame
    /// is no longer than `max_len`.
    pub fn encode(&self, max_len: usize) -> (res: Result<Vec<u8>, EncodeError>)
        ensures
            res.is_ok() == (self@.wf() && self@.encoded_len() <= max_len),
            res.is_ok() ==> res->Ok_0@ == self@.encode(),
            res.is_err() ==> res->Err_0 == EncodeError::TooLong,
    {
        let mut out: Vec<u8> = Vec::new();
        match self {
            McuMsg::Empty => {
                if max_len < 1 {
                    return Err(EncodeError::TooLong);
                }
                out.push(MCU_EMPTY);
                assert(out@ =~= self@.encode());
            },
            McuMsg::DinUpdate { value } => {
                if max_len < 2 {
                    return Err(EncodeError::TooLong);
                }
                out.push(MCU_DIN_UPDATE);
                out.push(*value);
                assert(out@ =~= self@.encode());
            },
            McuMsg::DacRequest { count } => {
                if max_len < 5 {
                    return Err(EncodeError::TooLong);
                }
                out.push(MCU_DAC_REQUEST);
                put_u32(&mut out, *count);
                assert(out@ =~= self@.encode());
            },
            McuMsg::AdcData { points_arrays } => {
                let n = points_arrays.len();
                if n > MAX_COUNT || max_len < 3 || (max_len - 3) / 24 < n {
                    return Err(EncodeError::TooLong);
                }
                out.push(MCU_ADC_DATA);
                put_u16(&mut out, n as u16);
                let ghost head = out@;
                let ghost sets = sets_view(points_arrays@);
                let mut i: usize = 0;
                while i < n
                    invariant
                        0 <= i <= n,
                        n == points_arrays@.len(),
                        sets == sets_view(points_arrays@),
                        whole(sets),
                        out@ == head + points_le(flat(sets.take(i as int))),
                    decreases n - i,
                {
                    put_points(&mut out, points_arrays[i].values.as_slice());
                    proof {
                        let shorter = sets.take(i as int);
                        assert(sets.take(i + 1) =~= shorter.push(sets[i as int]));
                        lemma_flat_push(shorter, sets[i as int]);
                        lemma_points_le_concat(flat(shorter), sets[i as int]);
                        assert(out@ =~= head + points_le(flat(sets.take(i + 1))));
                    }
                    i = i + 1;
                }
                assert(sets.take(n as int) =~= sets);
                assert(out@ =~= self@.encode());
            },
            McuMsg::Error { code, message } => {
                let n = message.len();
                if n > MAX_COUNT || max_len < 4 || max_len - 4 < n {
                    return Err(EncodeError::TooLong);
                }
                out.push(MCU_ERROR);
                out.push(*code);
                put_u16(&mut out, n as u16);
                put_bytes(&mut out, message.as_slice());
                assert(out@ =~= self@.encode());
            },
            McuMsg::Debug { message } => {
                let n = message.len();
                if n > MAX_COUNT || max_len < 3 || max_len - 3 < n {
                    return Err(EncodeError::TooLong);
                }
                out.push(MCU_DEBUG);
                put_u16(&mut out, n as u16);
                put_bytes(&mut out, message.as_slice());
                assert(out@ =~= self@.encode());
            },
        }
        Ok(out)
    }

    /// Reads one message from the front of `bytes`, where no frame may be
    /// longer than `max_len`.
    pub fn decode(bytes: &[u8], max_len: usize) -> (res: Decoded<McuMsg>)
        ensures
            mcu_decoded_view(res) == decode_mcu(bytes@, max_len),
    {
        let have = bytes.len();
        if have == 0 {
            return Decoded::Incomplete;
        }
        let tag = bytes[0];
        if tag == MCU_EMPTY {
            if 1 > max_len {
                return Decoded::Malformed;
            }
            Decoded::Frame { msg: McuMsg::Empty, len: 1 }
        } else if tag == MCU_DIN_UPDATE {
            if 2 > max_len {
                return Decoded::Malformed;
            }
            if have < 2 {
                return Decoded::Incomplete;
            }
            Decoded::Frame { msg: McuMsg::DinUpdate { value: bytes[1] }, len: 2 }
        } else if tag == MCU_DAC_REQUEST {
            if 5 > max_len {
                return Decoded::Malformed;
            }
            if have < 5 {
                return Decoded::Incomplete;
            }
            Decoded::Frame { msg: McuMsg::DacRequest { count: get_u32(bytes, 1) }, len: 5 }
        } else if tag == MCU_ADC_DATA {
            if 3 > max_len {
                return Decoded::Malformed;
            }
            if have < 3 {
                return Decoded::Incomplete;
            }
            let count = get_u16(bytes, 1) as usize;
            let len = 3 + 24 * count;
            if len > max_len {
                return Decoded::Malformed;
            }
            if have < len {
                return Decoded::Incomplete;
            }
            let points = get_points(bytes, 3, 6 * count);
            let points_arrays = collect_sets(points.as_slice());
            Decoded::Frame { msg: McuMsg::AdcData { points_arrays }, len }
        } else if tag == MCU_ERROR {
            if 4 > max_len {
                return Decoded::Malformed;
            }
            if have < 4 {
                return Decoded::Incomplete;
            }
            let count = get_u16(bytes, 2) as usize;
            let len = 4 + count;
            if len > max_len {
                return Decoded::Malformed;
            }
            if have < len {
                return Decoded::Incomplete;
            }
            let message = get_bytes(bytes, 4, count);
            Decoded::Frame { msg: McuMsg::Error { code: bytes[1], message }, len }
        } else if tag == MCU_DEBUG {
            if 3 > max_len {
                return Decoded::Malformed;
            }
            if have < 3 {
                return Decoded::Incomplete;
            }
            let count = get_u16(bytes, 1) as usize;
            let len = 3 + count;
            if len > max_len {
                return Decoded::Malformed;
            }
            if have < len {
                return Decoded::Incomplete;
            }
            let message = get_bytes(bytes, 3, count);
            Decoded::Frame { msg: McuMsg::Debug { message }, len }
        } else {
            Decoded::Malformed
        }
    }
}

} // verus!
