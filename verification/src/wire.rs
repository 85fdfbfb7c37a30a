use vstd::prelude::*;
use byteorder::ByteOrder;

verus! {

/// The two bytes of `n`, most significant first.
pub open spec fn be_u16(n: u16) -> Seq<u8> {
    seq![(n >> 8) as u8, n as u8]
}

/// The four bytes of `n`, most significant first.
pub open spec fn be_u32(n: u32) -> Seq<u8> {
    seq![(n >> 24) as u8, (n >> 16) as u8, (n >> 8) as u8, n as u8]
}

/// The eight bytes of `n`, most significant first.
pub open spec fn be_u64(n: u64) -> Seq<u8> {
    seq![
        (n >> 56) as u8,
        (n >> 48) as u8,
        (n >> 40) as u8,
        (n >> 32) as u8,
        (n >> 24) as u8,
        (n >> 16) as u8,
        (n >> 8) as u8,
        n as u8,
    ]
}

/// The number that eight bytes stand for, most significant first.
pub open spec fn u64_of_be(bytes: Seq<u8>) -> u64
    recommends
        bytes.len() == 8,
{
    (bytes[0] as u64) << 56 | (bytes[1] as u64) << 48 | (bytes[2] as u64) << 40 | (bytes[3] as u64)
        << 32 | (bytes[4] as u64) << 24 | (bytes[5] as u64) << 16 | (bytes[6] as u64) << 8 | (
    bytes[7] as u64)
}

/// Reading back what was written gives the number.
pub proof fn be_u64_round_trip(n: u64)
    ensures
        be_u64(n).len() == 8,
        u64_of_be(be_u64(n)) == n,
{
    assert(((n >> 56) as u8 as u64) << 56 | ((n >> 48) as u8 as u64) << 48 | ((n >> 40) as u8 as u64)
        << 40 | ((n >> 32) as u8 as u64) << 32 | ((n >> 24) as u8 as u64) << 24 | ((n >> 16) as u8
        as u64) << 16 | ((n >> 8) as u8 as u64) << 8 | (n as u8 as u64) == n) by (bit_vector);
}

/// Eight bytes are the encoding of the number that they stand for.
pub proof fn be_u64_is_onto(bytes: Seq<u8>)
    requires
        bytes.len() == 8,
    ensures
        be_u64(u64_of_be(bytes)) == bytes,
{
    let b0 = bytes[0];
    let b1 = bytes[1];
    let b2 = bytes[2];
    let b3 = bytes[3];
    let b4 = bytes[4];
    let b5 = bytes[5];
    let b6 = bytes[6];
    let b7 = bytes[7];
    let n = u64_of_be(bytes);
    assert((n >> 56) as u8 == b0 && (n >> 48) as u8 == b1 && (n >> 40) as u8 == b2 && (n >> 32) as u8
        == b3 && (n >> 24) as u8 == b4 && (n >> 16) as u8 == b5 && (n >> 8) as u8 == b6 && n as u8
        == b7) by (bit_vector)
        requires
            n == (b0 as u64) << 56 | (b1 as u64) << 48 | (b2 as u64) << 40 | (b3 as u64) << 32 | (
            b4 as u64) << 24 | (b5 as u64) << 16 | (b6 as u64) << 8 | (b7 as u64),
    ;
    assert(be_u64(n) =~= bytes);
}

/// `byteorder::BigEndian::write_u16` on a buffer of two bytes: the buffer
/// then holds the number's big-endian encoding.
#[verifier::external_body]
fn u16_to_be(n: u16) -> (bytes: [u8; 2])
    ensures
        bytes@ == be_u16(n),
{
    let mut bytes = [0u8; 2];
    byteorder::BigEndian::write_u16(&mut bytes, n);
    bytes
}

/// `byteorder::BigEndian::write_u32` on a buffer of four bytes: the buffer
/// then holds the number's big-endian encoding.
#[verifier::external_body]
fn u32_to_be(n: u32) -> (bytes: [u8; 4])
    ensures
        bytes@ == be_u32(n),
{
    let mut bytes = [0u8; 4];
    byteorder::BigEndian::write_u32(&mut bytes, n);
    bytes
}

/// `byteorder::BigEndian::write_u64` on a buffer of eight bytes: the buffer
/// then holds the number's big-endian encoding.
#[verifier::external_body]
fn u64_to_be(n: u64) -> (bytes: [u8; 8])
    ensures
        bytes@ == be_u64(n),
{
    let mut bytes = [0u8; 8];
    byteorder::BigEndian::write_u64(&mut bytes, n);
    bytes
}

/// `byteorder::BigEndian::read_u64`: the number that the first eight bytes
/// of the buffer stand for, read big-endian. It panics on a shorter buffer.
#[verifier::external_body]
fn u64_from_be(bytes: &[u8]) -> (n: u64)
    requires
        bytes@.len() >= 8,
    ensures
        n == u64_of_be(bytes@.subrange(0, 8)),
{
    byteorder::BigEndian::read_u64(bytes)
}

/// Appends the big-endian encoding of `n`.
pub fn write_u16(buf: &mut Vec<u8>, n: u16)
    ensures
        final(buf)@ == old(buf)@ + be_u16(n),
{
    let bytes = u16_to_be(n);
    buf.push(bytes[0]);
    buf.push(bytes[1]);
    assert(buf@ =~= old(buf)@ + be_u16(n));
}

/// Appends the big-endian encoding of `n`.
pub fn write_u32(buf: &mut Vec<u8>, n: u32)
    ensures
        final(buf)@ == old(buf)@ + be_u32(n),
{
    let bytes = u32_to_be(n);
    buf.push(bytes[0]);
    buf.push(bytes[1]);
    buf.push(bytes[2]);
    buf.push(bytes[3]);
    assert(buf@ =~= old(buf)@ + be_u32(n));
}

/// Appends the big-endian encoding of `n`.
pub fn write_u64(buf: &mut Vec<u8>, n: u64)
    ensures
        final(buf)@ == old(buf)@ + be_u64(n),
{
    let bytes = u64_to_be(n);
    let mut i: usize = 0;
    while i < 8
        invariant
            i <= 8,
            bytes@ == be_u64(n),
            buf@ == old(buf)@ + be_u64(n).subrange(0, i as int),
        decreases 8 - i,
    {
        buf.push(bytes[i]);
        i = i + 1;
        assert(buf@ =~= old(buf)@ + be_u64(n).subrange(0, i as int));
    }
    assert(be_u64(n).subrange(0, 8) =~= be_u64(n));
}

/// The number that the first eight bytes stand for, or `None` where there
/// are fewer.
pub fn read_u64(bytes: &[u8]) -> (n: Option<u64>)
    ensures
        bytes@.len() < 8 ==> n is None,
        bytes@.len() >= 8 ==> n == Some(u64_of_be(bytes@.subrange(0, 8))),
{
    if bytes.len() < 8 {
        None
    } else {
        Some(u64_from_be(bytes))
    }
}

/// The greeting that a socket of protocol `proto_id` sends first.
pub open spec fn greeting(proto_id: u16) -> Seq<u8> {
    seq![0u8, 83u8, 80u8, 0u8] + be_u16(proto_id) + be_u16(0)
}

/// A message on the wire: the payload's length in eight bytes, then the payload.
pub open spec fn frame(payload: Seq<u8>) -> Seq<u8> {
    be_u64(payload.len() as u64) + payload
}

/// The payload that a frame carries, if the bytes are one whole frame.
pub open spec fn unframe(bytes: Seq<u8>) -> Option<Seq<u8>> {
    if bytes.len() >= 8 && u64_of_be(bytes.subrange(0, 8)) == bytes.len() - 8 {
        Some(bytes.skip(8))
    } else {
        None
    }
}

/// What is framed comes out of the frame unchanged.
pub proof fn frame_round_trip(payload: Seq<u8>)
    requires
        payload.len() <= u64::MAX,
    ensures
        unframe(frame(payload)) == Some(payload),
{
    let n = payload.len() as u64;
    be_u64_round_trip(n);
    assert(frame(payload).subrange(0, 8) =~= be_u64(n));
    assert(frame(payload).skip(8) =~= payload);
}

/// Two payloads with one frame are one payload: what a peer reads out of
/// the frame that was written is what was written.
pub proof fn frame_is_injective(sent: Seq<u8>, received: Seq<u8>)
    requires
        sent.len() <= u64::MAX,
        received.len() <= u64::MAX,
        frame(sent) == frame(received),
    ensures
        sent == received,
{
    frame_round_trip(sent);
    frame_round_trip(received);
}

/// The bytes of a frame that is read off a stream determine it: of two
/// frames, one of which starts the other, both are the same.
pub proof fn frame_is_prefix_free(a: Seq<u8>, b: Seq<u8>)
    requires
        a.len() <= u64::MAX,
        b.len() <= u64::MAX,
        frame(a).len() <= frame(b).len(),
        frame(b).subrange(0, frame(a).len() as int) == frame(a),
    ensures
        a == b,
{
    let fa = frame(a);
    let fb = frame(b);
    be_u64_round_trip(a.len() as u64);
    be_u64_round_trip(b.len() as u64);
    assert(fa.subrange(0, 8) =~= be_u64(a.len() as u64));
    assert(fb.subrange(0, 8) =~= be_u64(b.len() as u64));
    assert(fb.subrange(0, fa.len() as int).subrange(0, 8) =~= fb.subrange(0, 8));
    assert(a.len() == b.len());
    assert(fb.subrange(0, fa.len() as int) =~= fb);
    assert(fa.skip(8) =~= a);
    assert(fb.skip(8) =~= b);
}

/// Whether two buffers hold the same bytes.
pub fn same_bytes(a: &[u8], b: &[u8]) -> (same: bool)
    ensures
        same == (a@ == b@),
{
    if a.len() != b.len() {
        return false;
    }
    let mut i: usize = 0;
    while i < a.len()
        invariant
            i <= a@.len(),
            a@.len() == b@.len(),
            a@.subrange(0, i as int) == b@.subrange(0, i as int),
        decreases a@.len() - i,
    {
        if a[i] != b[i] {
            assert(a@[i as int] != b@[i as int]);
            return false;
        }
        i = i + 1;
        assert(a@.subrange(0, i as int) =~= a@.subrange(0, i - 1).push(a@[i - 1]));
        assert(b@.subrange(0, i as int) =~= b@.subrange(0, i - 1).push(b@[i - 1]));
    }
    assert(a@.subrange(0, i as int) =~= a@);
    assert(b@.subrange(0, i as int) =~= b@);
    true
}

/// The greeting of protocol `proto_id`.
pub fn make_greeting(proto_id: u16) -> (g: Vec<u8>)
    ensures
        g@ == greeting(proto_id),
{
    let mut g: Vec<u8> = Vec::new();
    g.push(0u8);
    g.push(83u8);
    g.push(80u8);
    g.push(0u8);
    assert(g@ =~= seq![0u8, 83u8, 80u8, 0u8]);
    write_u16(&mut g, proto_id);
    write_u16(&mut g, 0);
    g
}

} // verus!
