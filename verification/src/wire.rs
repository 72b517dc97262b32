//! Fixed-width little-endian fields, the building blocks of every frame.

use vstd::prelude::*;

verus! {

/// The two bytes of a `u16`, low byte first.
pub open spec fn u16_le(v: u16) -> Seq<u8> {
    seq![(v % 256) as u8, (v / 256) as u8]
}

/// The `u16` that two bytes spell, low byte first.
pub open spec fn u16_from_le(b: Seq<u8>) -> u16
    recommends
        b.len() == 2,
{
    (b[0] + 256 * b[1]) as u16
}

/// The four bytes of a `u32`, lowest byte first.
pub open spec fn u32_le(v: u32) -> Seq<u8> {
    seq![
        (v % 256) as u8,
        (v / 256 % 256) as u8,
        (v / 65536 % 256) as u8,
        (v / 16777216) as u8,
    ]
}

/// The `u32` that four bytes spell, lowest byte first.
pub open spec fn u32_from_le(b: Seq<u8>) -> u32
    recommends
        b.len() == 4,
{
    (b[0] + 256 * b[1] + 65536 * b[2] + 16777216 * b[3]) as u32
}

/// The two's complement bit pattern of an `i32`.
pub open spec fn i32_bits(v: i32) -> u32 {
    if v >= 0 {
        v as u32
    } else {
        (v + 0x1_0000_0000) as u32
    }
}

/// The `i32` with the given two's complement bit pattern.
pub open spec fn i32_from_bits(u: u32) -> i32 {
    if u < 0x8000_0000 {
        u as i32
    } else {
        (u - 0x1_0000_0000) as i32
    }
}

/// The four bytes of an `i32` in two's complement, lowest byte first.
pub open spec fn i32_le(v: i32) -> Seq<u8> {
    u32_le(i32_bits(v))
}

/// The `i32` that four bytes spell in two's complement, lowest byte first.
pub open spec fn i32_from_le(b: Seq<u8>) -> i32
    recommends
        b.len() == 4,
{
    i32_from_bits(u32_from_le(b))
}

/// The bytes of a run of points, four for each, in order.
pub open spec fn points_le(points: Seq<i32>) -> Seq<u8> {
    Seq::new(4 * points.len(), |i: int| i32_le(points[i / 4])[i % 4])
}

/// The `count` points that the first `4 * count` bytes spell.
pub open spec fn points_from_le(b: Seq<u8>, count: nat) -> Seq<i32>
    recommends
        b.len() >= 4 * count,
{
    Seq::new(count, |k: int| i32_from_le(b.subrange(4 * k, 4 * k + 4)))
}

/// Reading back what was written gives the value that was written.
pub proof fn lemma_scalars_round_trip(a: u16, b: u32, c: i32)
    ensures
        u16_le(a).len() == 2,
        u32_le(b).len() == 4,
        i32_le(c).len() == 4,
        u16_from_le(u16_le(a)) == a,
        u32_from_le(u32_le(b)) == b,
        i32_from_bits(i32_bits(c)) == c,
        i32_from_le(i32_le(c)) == c,
{
}

/// Writing what was read gives the bytes that were read.
pub proof fn lemma_bytes_round_trip(b: Seq<u8>)
    ensures
        b.len() == 2 ==> u16_le(u16_from_le(b)) == b,
        b.len() == 4 ==> u32_le(u32_from_le(b)) == b,
        b.len() == 4 ==> i32_le(i32_from_le(b)) == b,
{
    if b.len() == 2 {
        let v = b[0] + 256 * b[1];
        assert(v % 256 == b[0]);
        assert(v / 256 == b[1]);
        assert(u16_le(u16_from_le(b)) =~= b);
    }
    if b.len() == 4 {
        let v3 = b[3] as int;
        let v2 = b[2] + 256 * v3;
        let v1 = b[1] + 256 * v2;
        let v0 = b[0] + 256 * v1;
        assert(v0 == b[0] + 256 * b[1] + 65536 * b[2] + 16777216 * b[3]);
        assert(v0 % 256 == b[0]);
        assert(v0 / 256 == v1);
        assert(v1 % 256 == b[1]);
        assert(v1 / 256 == v2);
        assert(v2 % 256 == b[2]);
        assert(v2 / 256 == v3);
        assert(v0 / 65536 == v2);
        assert(v0 / 16777216 == v3);
        let u = u32_from_le(b);
        assert(u == v0);
        assert(u32_le(u) =~= b);
        assert(i32_bits(i32_from_bits(u)) == u);
    }
}

/// Writing the points that were read gives the bytes they were read from.
pub proof fn lemma_points_bytes_round_trip(b: Seq<u8>, count: nat)
    requires
        b.len() >= 4 * count,
    ensures
        points_le(points_from_le(b, count)) == b.take(4 * count as int),
{
    let points = points_from_le(b, count);
    assert forall|i: int| 0 <= i < 4 * count implies points_le(points)[i] == b[i] by {
        let k = i / 4;
        let four = b.subrange(4 * k, 4 * k + 4);
        lemma_bytes_round_trip(four);
        assert(i32_le(points[k]) == four);
        assert(four[i % 4] == b[4 * k + i % 4]);
    }
    assert(points_le(points) =~= b.take(4 * count as int));
}

/// Reading back a run of points gives the points that were written, whatever
/// follows them.
pub proof fn lemma_points_round_trip(points: Seq<i32>, rest: Seq<u8>)
    ensures
        points_le(points).len() == 4 * points.len(),
        points_from_le(points_le(points) + rest, points.len()) == points,
{
    let b = points_le(points) + rest;
    assert forall|k: int| 0 <= k < points.len() implies points_from_le(b, points.len())[k]
        == points[k] by {
        let four = b.subrange(4 * k, 4 * k + 4);
        assert forall|j: int| 0 <= j < 4 implies four[j] == i32_le(points[k])[j] by {
            assert(four[j] == b[4 * k + j]);
            assert((4 * k + j) / 4 == k);
            assert((4 * k + j) % 4 == j);
        }
        assert(four =~= i32_le(points[k]));
        lemma_scalars_round_trip(0, 0, points[k]);
    }
    assert(points_from_le(b, points.len()) =~= points);
}

/// The bytes of two runs of points, one after the other, are the bytes of
/// the first followed by the bytes of the second.
pub proof fn lemma_points_le_concat(a: Seq<i32>, b: Seq<i32>)
    ensures
        points_le(a + b) == points_le(a) + points_le(b),
{
    assert forall|i: int| 0 <= i < 4 * (a.len() + b.len()) implies points_le(a + b)[i] == (
    points_le(a) + points_le(b))[i] by {
        if i < 4 * a.len() {
            assert(i / 4 < a.len());
        } else {
            assert((i - 4 * a.len()) / 4 == i / 4 - a.len());
            assert((i - 4 * a.len()) % 4 == i % 4);
        }
    }
    assert(points_le(a + b) =~= points_le(a) + points_le(b));
}

/// What reading a frame from the front of some bytes can come to.
#[derive(Clone, Debug, PartialEq, Eq)]
pub enum Decoded<M> {
    /// The bytes are the beginning of a frame, and more are needed.
    Incomplete,
    /// No frame begins with these bytes, or the frame is longer than allowed.
    Malformed,
    /// The first `len` bytes are the frame of `msg`.
    Frame { msg: M, len: usize },
}

/// The outcome for a frame of `len` bytes, when `have` bytes are at hand and
/// no frame may be longer than `max_len`.
pub open spec fn framed<M>(msg: M, len: nat, have: nat, max_len: usize) -> Decoded<M> {
    if len > max_len {
        Decoded::Malformed
    } else if have < len {
        Decoded::Incomplete
    } else {
        Decoded::Frame { msg, len: len as usize }
    }
}

/// Why a message cannot be written.
#[derive(Clone, Copy, Debug, PartialEq, Eq)]
pub enum EncodeError {
    /// The frame would be longer than allowed, or an array has more
    /// elements than its count field can tell.
    TooLong,
}

/// Appends the two bytes of `v`.
pub fn put_u16(out: &mut Vec<u8>, v: u16)
    ensures
        final(out)@ == old(out)@ + u16_le(v),
{
    out.push((v % 256) as u8);
    out.push((v / 256) as u8);
    assert(out@ =~= old(out)@ + u16_le(v));
}

/// Appends the four bytes of `v`.
pub fn put_u32(out: &mut Vec<u8>, v: u32)
    ensures
        final(out)@ == old(out)@ + u32_le(v),
{
    out.push((v % 256) as u8);
    out.push((v / 256 % 256) as u8);
    out.push((v / 65536 % 256) as u8);
    out.push((v / 16777216) as u8);
    assert(out@ =~= old(out)@ + u32_le(v));
}

/// Appends the four bytes of `v`.
pub fn put_i32(out: &mut Vec<u8>, v: i32)
    ensures
        final(out)@ == old(out)@ + i32_le(v),
{
    let bits: u32 = if v >= 0 {
        v as u32
    } else {
        (v as i64 + 0x1_0000_0000) as u32
    };
    put_u32(out, bits);
}

/// Appends the bytes of every point, in order.
pub fn put_points(out: &mut Vec<u8>, points: &[i32])
    ensures
        final(out)@ == old(out)@ + points_le(points@),
{
    let mut i: usize = 0;
    while i < points.len()
        invariant
            0 <= i <= points@.len(),
            out@ == old(out)@ + points_le(points@.take(i as int)),
        decreases points@.len() - i,
    {
        let ghost before = out@;
        put_i32(out, points[i]);
        proof {
            let shorter = points@.take(i as int);
            let longer = points@.take(i + 1);
            assert forall|j: int| 0 <= j < 4 * (i + 1) implies (points_le(shorter) + i32_le(
                points@[i as int],
            ))[j] == points_le(longer)[j] by {
                if j < 4 * i {
                    assert(j / 4 < i);
                } else {
                    assert(j / 4 == i);
                    assert(j % 4 == j - 4 * i);
                }
            }
            assert(points_le(shorter) + i32_le(points@[i as int]) =~= points_le(longer));
            assert(out@ =~= old(out)@ + points_le(longer));
        }
        i = i + 1;
    }
    assert(points@.take(i as int) =~= points@);
}

/// Appends the bytes as they are.
pub fn put_bytes(out: &mut Vec<u8>, bytes: &[u8])
    ensures
        final(out)@ == old(out)@ + bytes@,
{
    let mut i: usize = 0;
    while i < bytes.len()
        invariant
            0 <= i <= bytes@.len(),
            out@ == old(out)@ + bytes@.take(i as int),
        decreases bytes@.len() - i,
    {
        out.push(bytes[i]);
        assert(out@ =~= old(out)@ + bytes@.take(i + 1));
        i = i + 1;
    }
    assert(bytes@.take(i as int) =~= bytes@);
}

/// Reads the `u16` at `at`.
pub fn get_u16(bytes: &[u8], at: usize) -> (v: u16)
    requires
        at + 2 <= bytes@.len(),
    ensures
        v == u16_from_le(bytes@.subrange(at as int, at + 2)),
{
    bytes[at] as u16 + 256 * (bytes[at + 1] as u16)
}

/// Reads the `u32` at `at`.
pub fn get_u32(bytes: &[u8], at: usize) -> (v: u32)
    requires
        at + 4 <= bytes@.len(),
    ensures
        v == u32_from_le(bytes@.subrange(at as int, at + 4)),
{
    bytes[at] as u32 + 256 * (bytes[at + 1] as u32) + 65536 * (bytes[at + 2] as u32) + 16777216 * (
    bytes[at + 3] as u32)
}

/// Reads the `i32` at `at`.
pub fn get_i32(bytes: &[u8], at: usize) -> (v: i32)
    requires
        at + 4 <= bytes@.len(),
    ensures
        v == i32_from_le(bytes@.subrange(at as int, at + 4)),
{
    let bits = get_u32(bytes, at);
    if bits < 0x8000_0000 {
        bits as i32
    } else {
        (bits as i64 - 0x1_0000_0000) as i32
    }
}

/// Reads `count` points, starting at `at`.
pub fn get_points(bytes: &[u8], at: usize, count: usize) -> (points: Vec<i32>)
    requires
        at + 4 * count <= bytes@.len(),
    ensures
        points@ == points_from_le(bytes@.skip(at as int), count as nat),
{
    let mut points: Vec<i32> = Vec::new();
    let mut k: usize = 0;
    let len = bytes.len();
    while k < count
        invariant
            0 <= k <= count,
            len == bytes@.len(),
            at + 4 * count <= bytes@.len(),
            points@ == points_from_le(bytes@.skip(at as int), k as nat),
        decreases count - k,
    {
        let v = get_i32(bytes, at + 4 * k);
        points.push(v);
        proof {
            let tail = bytes@.skip(at as int);
            assert(tail.subrange(4 * k, 4 * k + 4) =~= bytes@.subrange(at + 4 * k, at + 4 * k + 4));
            assert(points@ =~= points_from_le(tail, (k + 1) as nat));
        }
        k = k + 1;
    }
    points
}

/// Copies `count` bytes, starting at `at`.
pub fn get_bytes(bytes: &[u8], at: usize, count: usize) -> (copy: Vec<u8>)
    requires
        at + count <= bytes@.len(),
    ensures
        copy@ == bytes@.subrange(at as int, at + count),
{
    let mut copy: Vec<u8> = Vec::new();
    let mut k: usize = 0;
    let len = bytes.len();
    while k < count
        invariant
            0 <= k <= count,
            len == bytes@.len(),
            at + count <= bytes@.len(),
            copy@ == bytes@.subrange(at as int, at + k),
        decreases count - k,
    {
        copy.push(bytes[at + k]);
        assert(copy@ =~= bytes@.subrange(at as int, at + k + 1));
        k = k + 1;
    }
    copy
}

/// Copies the first `count` points.
pub fn take_points(points: &[i32], count: usize) -> (copy: Vec<i32>)
    requires
        count <= points@.len(),
    ensures
        copy@ == points@.take(count as int),
{
    let mut copy: Vec<i32> = Vec::new();
    let mut k: usize = 0;
    while k < count
        invariant
            0 <= k <= count <= points@.len(),
            copy@ == points@.take(k as int),
        decreases count - k,
    {
        copy.push(points[k]);
        assert(copy@ =~= points@.take(k + 1));
        k = k + 1;
    }
    copy
}

} // verus!
