//! Messages that carry the values of single process variables: analog and
//! binary scalars and analog arrays, in both directions.
//!
//! The layout follows the rules of every frame: one tag byte, little-endian
//! scalars, arrays with a 16-bit element count.

use vstd::prelude::*;
use crate::mcu_msg::MAX_COUNT;
use crate::wire::{
    framed, get_i32, get_points, get_u16, get_u32, lemma_bytes_round_trip,
    lemma_points_bytes_round_trip, lemma_points_round_trip, lemma_scalars_round_trip, i32_from_le,
    i32_le, points_from_le, points_le, put_i32, put_points, put_u16, put_u32, u16_from_le, u16_le,
    u32_from_le, u32_le, Decoded, EncodeError,
};

verus! {

pub const IN_AI: u8 = 0;

pub const IN_AAI: u8 = 1;

pub const IN_WAVEFORM: u8 = 2;

pub const IN_BI: u8 = 3;

pub const IN_MBBI_DIRECT: u8 = 4;

pub const OUT_AO: u8 = 0;

pub const OUT_AAO: u8 = 1;

pub const OUT_BO: u8 = 2;

pub const OUT_MBBO_DIRECT: u8 = 3;

/// A value for one of the variables that the supervisor fills.
#[derive(Clone, Debug, PartialEq, Eq)]
pub enum InMsg {
    /// An analog input.
    Ai { value: i32 },
    /// An array of analog inputs.
    Aai { values: Vec<i32> },
    /// A waveform.
    Waveform { values: Vec<i32> },
    /// A binary input.
    Bi { value: u32 },
    /// A multi-bit binary input.
    MbbiDirect { value: u32 },
}

/// What an [`InMsg`] holds.
pub enum InMsgView {
    Ai { value: i32 },
    Aai { values: Seq<i32> },
    Waveform { values: Seq<i32> },
    Bi { value: u32 },
    MbbiDirect { value: u32 },
}

impl View for InMsg {
    type V = InMsgView;

    open spec fn view(&self) -> InMsgView {
        match *self {
            InMsg::Ai { value } => InMsgView::Ai { value },
            InMsg::Aai { values } => InMsgView::Aai { values: values@ },
            InMsg::Waveform { values } => InMsgView::Waveform { values: values@ },
            InMsg::Bi { value } => InMsgView::Bi { value },
            InMsg::MbbiDirect { value } => InMsgView::MbbiDirect { value },
        }
    }
}

/// A value of one of the variables that the control system fills.
#[derive(Clone, Debug, PartialEq, Eq)]
pub enum OutMsg {
    /// An analog output.
    Ao { value: i32 },
    /// An array of analog outputs.
    Aao { values: Vec<i32> },
    /// A binary output.
    Bo { value: u32 },
    /// A multi-bit binary output.
    MbboDirect { value: u32 },
}

/// What an [`OutMsg`] holds.
pub enum OutMsgView {
    Ao { value: i32 },
    Aao { values: Seq<i32> },
    Bo { value: u32 },
    MbboDirect { value: u32 },
}

impl View for OutMsg {
    type V = OutMsgView;

    open spec fn view(&self) -> OutMsgView {
        match *self {
            OutMsg::Ao { value } => OutMsgView::Ao { value },
            OutMsg::Aao { values } => OutMsgView::Aao { values: values@ },
            OutMsg::Bo { value } => OutMsgView::Bo { value },
            OutMsg::MbboDirect { value } => OutMsgView::MbboDirect { value },
        }
    }
}

/// The frame of an array of points under `tag`.
pub open spec fn array_frame(tag: u8, values: Seq<i32>) -> Seq<u8> {
    seq![tag] + u16_le(values.len() as u16) + points_le(values)
}

/// The points of the array frame at the front of `b`, where no frame may be
/// longer than `max_len`.
pub open spec fn array_unframed(b: Seq<u8>, max_len: usize) -> Decoded<Seq<i32>> {
    if 3 > max_len {
        Decoded::Malformed
    } else if b.len() < 3 {
        Decoded::Incomplete
    } else {
        let count = u16_from_le(b.subrange(1, 3)) as nat;
        framed(points_from_le(b.skip(3), count), 3 + 4 * count, b.len(), max_len)
    }
}

impl InMsgView {
    /// Whether the message can be put into a frame at all: the count field
    /// can tell the length of its array.
    pub open spec fn wf(self) -> bool {
        match self {
            InMsgView::Aai { values } => values.len() <= MAX_COUNT,
            InMsgView::Waveform { values } => values.len() <= MAX_COUNT,
            _ => true,
        }
    }

    /// The frame of the message.
    pub open spec fn encode(self) -> Seq<u8> {
        match self {
            InMsgView::Ai { value } => seq![IN_AI] + i32_le(value),
            InMsgView::Aai { values } => array_frame(IN_AAI, values),
            InMsgView::Waveform { values } => array_frame(IN_WAVEFORM, values),
            InMsgView::Bi { value } => seq![IN_BI] + u32_le(value),
            InMsgView::MbbiDirect { value } => seq![IN_MBBI_DIRECT] + u32_le(value),
        }
    }

    /// The length of the frame of a well-formed message.
    pub open spec fn encoded_len(self) -> nat {
        match self {
            InMsgView::Aai { values } => 3 + 4 * values.len(),
            InMsgView::Waveform { values } => 3 + 4 * values.len(),
            _ => 5,
        }
    }

    /// A frame is as long as `encoded_len` says.
    pub proof fn lemma_encoded_len(self)
        ensures
            self.encode().len() == self.encoded_len(),
    {
    }
}

impl OutMsgView {
    /// Whether the message can be put into a frame at all: the count field
    /// can tell the length of its array.
    pub open spec fn wf(self) -> bool {
        match self {
            OutMsgView::Aao { values } => values.len() <= MAX_COUNT,
            _ => true,
        }
    }

    /// The frame of the message.
    pub open spec fn encode(self) -> Seq<u8> {
        match self {
            OutMsgView::Ao { value } => seq![OUT_AO] + i32_le(value),
            OutMsgView::Aao { values } => array_frame(OUT_AAO, values),
            OutMsgView::Bo { value } => seq![OUT_BO] + u32_le(value),
            OutMsgView::MbboDirect { value } => seq![OUT_MBBO_DIRECT] + u32_le(value),
        }
    }

    /// The length of the frame of a well-formed message.
    pub open spec fn encoded_len(self) -> nat {
        match self {
            OutMsgView::Aao { values } => 3 + 4 * values.len(),
            _ => 5,
        }
    }

    /// A frame is as long as `encoded_len` says.
    pub proof fn lemma_encoded_len(self)
        ensures
            self.encode().len() == self.encoded_len(),
    {
    }
}

/// Reads one input message from the front of `b`, where no frame may be
/// longer than `max_len`.
pub open spec fn decode_in(b: Seq<u8>, max_len: usize) -> Decoded<InMsgView> {
    if b.len() == 0 {
        Decoded::Incomplete
    } else if b[0] == IN_AI {
        framed(InMsgView::Ai { value: i32_from_le(b.subrange(1, 5)) }, 5, b.len(), max_len)
    } else if b[0] == IN_BI {
        framed(InMsgView::Bi { value: u32_from_le(b.subrange(1, 5)) }, 5, b.len(), max_len)
    } else if b[0] == IN_MBBI_DIRECT {
        framed(InMsgView::MbbiDirect { value: u32_from_le(b.subrange(1, 5)) }, 5, b.len(), max_len)
    } else if b[0] == IN_AAI {
        match array_unframed(b, max_len) {
            Decoded::Frame { msg, len } => Decoded::Frame { msg: InMsgView::Aai { values: msg }, len },
            Decoded::Incomplete => Decoded::Incomplete,
            Decoded::Malformed => Decoded::Malformed,
        }
    } else if b[0] == IN_WAVEFORM {
        match array_unframed(b, max_len) {
            Decoded::Frame { msg, len } => Decoded::Frame {
                msg: InMsgView::Waveform { values: msg },
                len,
            },
            Decoded::Incomplete => Decoded::Incomplete,
            Decoded::Malformed => Decoded::Malformed,
        }
    } else {
        Decoded::Malformed
    }
}

/// Reads one output message from the front of `b`, where no frame may be
/// longer than `max_len`.
pub open spec fn decode_out(b: Seq<u8>, max_len: usize) -> Decoded<OutMsgView> {
    if b.len() == 0 {
        Decoded::Incomplete
    } else if b[0] == OUT_AO {
        framed(OutMsgView::Ao { value: i32_from_le(b.subrange(1, 5)) }, 5, b.len(), max_len)
    } else if b[0] == OUT_BO {
        framed(OutMsgView::Bo { value: u32_from_le(b.subrange(1, 5)) }, 5, b.len(), max_len)
    } else if b[0] == OUT_MBBO_DIRECT {
        framed(OutMsgView::MbboDirect { value: u32_from_le(b.subrange(1, 5)) }, 5, b.len(), max_len)
    } else if b[0] == OUT_AAO {
        match array_unframed(b, max_len) {
            Decoded::Frame { msg, len } => Decoded::Frame { msg: OutMsgView::Aao { values: msg }, len },
            Decoded::Incomplete => Decoded::Incomplete,
            Decoded::Malformed => Decoded::Malformed,
        }
    } else {
        Decoded::Malformed
    }
}

/// What a decoding result holds.
pub open spec fn in_decoded_view(res: Decoded<InMsg>) -> Decoded<InMsgView> {
    match res {
        Decoded::Incomplete => Decoded::Incomplete,
        Decoded::Malformed => Decoded::Malformed,
        Decoded::Frame { msg, len } => Decoded::Frame { msg: msg@, len },
    }
}

/// What a decoding result holds.
pub open spec fn out_decoded_view(res: Decoded<OutMsg>) -> Decoded<OutMsgView> {
    match res {
        Decoded::Incomplete => Decoded::Incomplete,
        Decoded::Malformed => Decoded::Malformed,
        Decoded::Frame { msg, len } => Decoded::Frame { msg: msg@, len },
    }
}

/// Reading an array frame gives the points that were put into it, and the
/// length of the frame, whatever bytes follow the frame.
pub proof fn lemma_array_round_trip(tag: u8, values: Seq<i32>, rest: Seq<u8>, max_len: usize)
    requires
        values.len() <= MAX_COUNT,
        3 + 4 * values.len() <= max_len,
    ensures
        array_frame(tag, values).len() == 3 + 4 * values.len(),
        (array_frame(tag, values) + rest)[0] == tag,
        array_unframed(array_frame(tag, values) + rest, max_len) == (Decoded::Frame {
            msg: values,
            len: (3 + 4 * values.len()) as usize,
        }),
{
    let b = array_frame(tag, values) + rest;
    let n = values.len() as u16;
    assert(b.subrange(1, 3) =~= u16_le(n));
    lemma_scalars_round_trip(n, 0, 0);
    lemma_points_round_trip(values, rest);
    assert(b.skip(3) =~= points_le(values) + rest);
}

/// An array is read only from bytes that are, but for the tag, the frame of
/// the points that are read.
pub proof fn lemma_array_unframed_sound(b: Seq<u8>, max_len: usize)
    requires
        b.len() > 0,
    ensures
        array_unframed(b, max_len) matches Decoded::Frame { msg, len } ==> msg.len() <= MAX_COUNT
            && len == 3 + 4 * msg.len() && len <= max_len && len <= b.len() && array_frame(
            b[0],
            msg,
        ) == b.take(len as int),
{
    if let Decoded::Frame { msg, len } = array_unframed(b, max_len) {
        let two = b.subrange(1, 3);
        let count = u16_from_le(two) as nat;
        lemma_bytes_round_trip(two);
        lemma_points_bytes_round_trip(b.skip(3), count);
        assert(array_frame(b[0], msg) =~= b.take(len as int));
    }
}

/// Decoding the frame of an input message gives the message back, field for
/// field, and the length of its frame, whatever bytes follow the frame.
pub proof fn lemma_in_round_trip(msg: InMsgView, rest: Seq<u8>, max_len: usize)
    requires
        msg.wf(),
        msg.encode().len() <= max_len,
    ensures
        decode_in(msg.encode() + rest, max_len) == (Decoded::Frame {
            msg,
            len: msg.encode().len() as usize,
        }),
{
    let b = msg.encode() + rest;
    match msg {
        InMsgView::Ai { value } => {
            assert(b[0] == IN_AI);
            assert(b.subrange(1, 5) =~= i32_le(value));
            lemma_scalars_round_trip(0, 0, value);
        },
        InMsgView::Bi { value } => {
            assert(b[0] == IN_BI);
            assert(b.subrange(1, 5) =~= u32_le(value));
            lemma_scalars_round_trip(0, value, 0);
        },
        InMsgView::MbbiDirect { value } => {
            assert(b[0] == IN_MBBI_DIRECT);
            assert(b.subrange(1, 5) =~= u32_le(value));
            lemma_scalars_round_trip(0, value, 0);
        },
        InMsgView::Aai { values } => {
            lemma_array_round_trip(IN_AAI, values, rest, max_len);
        },
        InMsgView::Waveform { values } => {
            lemma_array_round_trip(IN_WAVEFORM, values, rest, max_len);
        },
    }
}

/// Decoding the frame of an output message gives the message back, field for
/// field, and the length of its frame, whatever bytes follow the frame.
pub proof fn lemma_out_round_trip(msg: OutMsgView, rest: Seq<u8>, max_len: usize)
    requires
        msg.wf(),
        msg.encode().len() <= max_len,
    ensures
        decode_out(msg.encode() + rest, max_len) == (Decoded::Frame {
            msg,
            len: msg.encode().len() as usize,
        }),
{
    let b = msg.encode() + rest;
    match msg {
        OutMsgView::Ao { value } => {
            assert(b[0] == OUT_AO);
            assert(b.subrange(1, 5) =~= i32_le(value));
            lemma_scalars_round_trip(0, 0, value);
        },
        OutMsgView::Bo { value } => {
            assert(b[0] == OUT_BO);
            assert(b.subrange(1, 5) =~= u32_le(value));
            lemma_scalars_round_trip(0, value, 0);
        },
        OutMsgView::MbboDirect { value } => {
            assert(b[0] == OUT_MBBO_DIRECT);
            assert(b.subrange(1, 5) =~= u32_le(value));
            lemma_scalars_round_trip(0, value, 0);
        },
        OutMsgView::Aao { values } => {
            lemma_array_round_trip(OUT_AAO, values, rest, max_len);
        },
    }
}

/// An input message is read only from bytes that are, to the byte, its
/// frame: what decodes as a message is well formed, no longer than allowed,
/// and encodes to the very bytes it was read from.
pub proof fn lemma_in_decode_sound(b: Seq<u8>, max_len: usize)
    ensures
        decode_in(b, max_len) matches Decoded::Frame { msg, len } ==> msg.wf() && len <= max_len
            && len <= b.len() && msg.encode() == b.take(len as int),
{
    if let Decoded::Frame { msg, len } = decode_in(b, max_len) {
        if b[0] == IN_AAI || b[0] == IN_WAVEFORM {
            lemma_array_unframed_sound(b, max_len);
        } else {
            lemma_bytes_round_trip(b.subrange(1, 5));
            assert(msg.encode() =~= b.take(len as int));
        }
    }
}

/// An output message is read only from bytes that are, to the byte, its
/// frame: what decodes as a message is well formed, no longer than allowed,
/// and encodes to the very bytes it was read from.
pub proof fn lemma_out_decode_sound(b: Seq<u8>, max_len: usize)
    ensures
        decode_out(b, max_len) matches Decoded::Frame { msg, len } ==> msg.wf() && len <= max_len
            && len <= b.len() && msg.encode() == b.take(len as int),
{
    if let Decoded::Frame { msg, len } = decode_out(b, max_len) {
        if b[0] == OUT_AAO {
            lemma_array_unframed_sound(b, max_len);
        } else {
            lemma_bytes_round_trip(b.subrange(1, 5));
            assert(msg.encode() =~= b.take(len as int));
        }
    }
}

/// Writes the frame of an array of points under `tag`, if it is no longer
/// than `max_len` and the count field can tell the length of the array.
fn put_array(tag: u8, values: &[i32], max_len: usize) -> (res: Result<Vec<u8>, EncodeError>)
    ensures
        res.is_ok() == (values@.len() <= MAX_COUNT && 3 + 4 * values@.len() <= max_len),
        res.is_ok() ==> res->Ok_0@ == array_frame(tag, values@),
        res.is_err() ==> res->Err_0 == EncodeError::TooLong,
{
    let n = values.len();
    if n > MAX_COUNT || max_len < 3 || (max_len - 3) / 4 < n {
        return Err(EncodeError::TooLong);
    }
    let mut out: Vec<u8> = Vec::new();
    out.push(tag);
    put_u16(&mut out, n as u16);
    put_points(&mut out, values);
    assert(out@ =~= array_frame(tag, values@));
    Ok(out)
}

/// Writes the frame of a 32-bit word under `tag`, if five bytes are allowed.
fn put_word(tag: u8, word: u32, max_len: usize) -> (res: Result<Vec<u8>, EncodeError>)
    ensures
        res.is_ok() == (5 <= max_len),
        res.is_ok() ==> res->Ok_0@ == seq![tag] + u32_le(word),
        res.is_err() ==> res->Err_0 == EncodeError::TooLong,
{
    if max_len < 5 {
        return Err(EncodeError::TooLong);
    }
    let mut out: Vec<u8> = Vec::new();
    out.push(tag);
    put_u32(&mut out, word);
    assert(out@ =~= seq![tag] + u32_le(word));
    Ok(out)
}

/// Writes the frame of a signed 32-bit value under `tag`, if five bytes are
/// allowed.
fn put_value(tag: u8, value: i32, max_len: usize) -> (res: Result<Vec<u8>, EncodeError>)
    ensures
        res.is_ok() == (5 <= max_len),
        res.is_ok() ==> res->Ok_0@ == seq![tag] + i32_le(value),
        res.is_err() ==> res->Err_0 == EncodeError::TooLong,
{
    if max_len < 5 {
        return Err(EncodeError::TooLong);
    }
    let mut out: Vec<u8> = Vec::new();
    out.push(tag);
    put_i32(&mut out, value);
    assert(out@ =~= seq![tag] + i32_le(value));
    Ok(out)
}

/// Reads the array frame at the front of `bytes`, whose tag was seen.
fn get_array(bytes: &[u8], max_len: usize) -> (res: Decoded<Vec<i32>>)
    requires
        bytes@.len() > 0,
    ensures
        res matches Decoded::Frame { msg, len } ==> array_unframed(bytes@, max_len) == (
        Decoded::Frame { msg: msg@, len }),
        res is Incomplete ==> array_unframed(bytes@, max_len) is Incomplete,
        res is Malformed ==> array_unframed(bytes@, max_len) is Malformed,
{
    let have = bytes.len();
    if 3 > max_len {
        return Decoded::Malformed;
    }
    if have < 3 {
        return Decoded::Incomplete;
    }
    let count = get_u16(bytes, 1) as usize;
    let len = 3 + 4 * count;
    if len > max_len {
        return Decoded::Malformed;
    }
    if have < len {
        return Decoded::Incomplete;
    }
    let points = get_points(bytes, 3, count);
    Decoded::Frame { msg: points, len }
}

impl InMsg {
    /// The frame of the message, if the message is well formed and its frame
    /// is no longer than `max_len`.
    pub fn encode(&self, max_len: usize) -> (res: Result<Vec<u8>, EncodeError>)
        ensures
            res.is_ok() == (self@.wf() && self@.encoded_len() <= max_len),
            res.is_ok() ==> res->Ok_0@ == self@.encode(),
            res.is_err() ==> res->Err_0 == EncodeError::TooLong,
    {
        match self {
            InMsg::Ai { value } => put_value(IN_AI, *value, max_len),
            InMsg::Aai { values } => put_array(IN_AAI, values.as_slice(), max_len),
            InMsg::Waveform { values } => put_array(IN_WAVEFORM, values.as_slice(), max_len),
            InMsg::Bi { value } => put_word(IN_BI, *value, max_len),
            InMsg::MbbiDirect { value } => put_word(IN_MBBI_DIRECT, *value, max_len),
        }
    }

    /// Reads one message from the front of `bytes`, where no frame may be
    /// longer than `max_len`.
    pub fn decode(bytes: &[u8], max_len: usize) -> (res: Decoded<InMsg>)
        ensures
            in_decoded_view(res) == decode_in(bytes@, max_len),
    {
        let have = bytes.len();
        if have == 0 {
            return Decoded::Incomplete;
        }
        let tag = bytes[0];
        if tag == IN_AI || tag == IN_BI || tag == IN_MBBI_DIRECT {
            if 5 > max_len {
                return Decoded::Malformed;
            }
            if have < 5 {
                return Decoded::Incomplete;
            }
            let msg = if tag == IN_AI {
                InMsg::Ai { value: get_i32(bytes, 1) }
            } else if tag == IN_BI {
                InMsg::Bi { value: get_u32(bytes, 1) }
            } else {
                InMsg::MbbiDirect { value: get_u32(bytes, 1) }
            };
            Decoded::Frame { msg, len: 5 }
        } else if tag == IN_AAI {
            match get_array(bytes, max_len) {
                Decoded::Frame { msg, len } => Decoded::Frame { msg: InMsg::Aai { values: msg }, len },
                Decoded::Incomplete => Decoded::Incomplete,
                Decoded::Malformed => Decoded::Malformed,
            }
        } else if tag == IN_WAVEFORM {
            match get_array(bytes, max_len) {
                Decoded::Frame { msg, len } => Decoded::Frame {
                    msg: InMsg::Waveform { values: msg },
                    len,
                },
                Decoded::Incomplete => Decoded::Incomplete,
                Decoded::Malformed => Decoded::Malformed,
            }
        } else {
            Decoded::Malformed
        }
    }
}

impl OutMsg {
    /// The frame of the message, if the message is well formed and its frame
    /// is no longer than `max_len`.
    pub fn encode(&self, max_len: usize) -> (res: Result<Vec<u8>, EncodeError>)
        ensures
            res.is_ok() == (self@.wf() && self@.encoded_len() <= max_len),
            res.is_ok() ==> res->Ok_0@ == self@.encode(),
            res.is_err() ==> res->Err_0 == EncodeError::TooLong,
    {
        match self {
            OutMsg::Ao { value } => put_value(OUT_AO, *value, max_len),
            OutMsg::Aao { values } => put_array(OUT_AAO, values.as_slice(), max_len),
            OutMsg::Bo { value } => put_word(OUT_BO, *value, max_len),
            OutMsg::MbboDirect { value } => put_word(OUT_MBBO_DIRECT, *value, max_len),
        }
    }

    /// Reads one message from the front of `bytes`, where no frame may be
    /// longer than `max_len`.
    pub fn decode(bytes: &[u8], max_len: usize) -> (res: Decoded<OutMsg>)
        ensures
            out_decoded_view(res) == decode_out(bytes@, max_len),
    {
        let have = bytes.len();
        if have == 0 {
            return Decoded::Incomplete;
        }
        let tag = bytes[0];
        if tag == OUT_AO || tag == OUT_BO || tag == OUT_MBBO_DIRECT {
            if 5 > max_len {
                return Decoded::Malformed;
            }
            if have < 5 {
                return Decoded::Incomplete;
            }
            let msg = if tag == OUT_AO {
                OutMsg::Ao { value: get_i32(bytes, 1) }
            } else if tag == OUT_BO {
                OutMsg::Bo { value: get_u32(bytes, 1) }
            } else {
                OutMsg::MbboDirect { value: get_u32(bytes, 1) }
            };
            Decoded::Frame { msg, len: 5 }
        } else if tag == OUT_AAO {
            match get_array(bytes, max_len) {
                Decoded::Frame { msg, len } => Decoded::Frame { msg: OutMsg::Aao { values: msg }, len },
                Decoded::Incomplete => Decoded::Incomplete,
                Decoded::Malformed => Decoded::Malformed,
            }
        } else {
            Decoded::Malformed
        }
    }
}

} // verus!
