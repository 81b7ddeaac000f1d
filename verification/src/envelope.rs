//! The envelope of a Connect stream message: one byte of flags, the size of the payload as four
//! bytes, most significant first, and the payload.

use vstd::prelude::*;

verus! {

/// `n` as four bytes, most significant first.
pub open spec fn size_bytes(n: nat) -> Seq<u8> {
    seq![
        ((n / 16777216) % 256) as u8,
        ((n / 65536) % 256) as u8,
        ((n / 256) % 256) as u8,
        (n % 256) as u8,
    ]
}

/// The number that the bytes at index 1 to 4 of an envelope write, most significant first.
pub open spec fn size_in(buffer: Seq<u8>) -> int {
    buffer[1] * 16777216 + buffer[2] * 65536 + buffer[3] * 256 + buffer[4]
}

/// The envelope of `data` without flags. Of a length that does not fit into four bytes, the low
/// four are written.
pub open spec fn envelope(data: Seq<u8>) -> Seq<u8> {
    seq![0u8] + size_bytes(data.len()) + data
}

/// A message at the start of a buffer, and what comes after it.
pub struct FrameView {
    pub flags: u8,
    pub payload: Seq<u8>,
    pub rest: Seq<u8>,
}

/// The message at the start of a buffer, where all of it is there.
pub open spec fn first_frame(buffer: Seq<u8>) -> Option<FrameView> {
    if buffer.len() < 5 || buffer.len() < 5 + size_in(buffer) {
        None
    } else {
        Some(
            FrameView {
                flags: buffer[0],
                payload: buffer.subrange(5, 5 + size_in(buffer)),
                rest: buffer.skip(5 + size_in(buffer)),
            },
        )
    }
}

/// A message taken off the start of a buffer.
pub struct Frame {
    pub flags: u8,
    pub payload: Vec<u8>,
    pub rest: Vec<u8>,
}

impl View for Frame {
    type V = FrameView;

    open spec fn view(&self) -> FrameView {
        FrameView { flags: self.flags, payload: self.payload@, rest: self.rest@ }
    }
}

/// A stretch of a buffer.
fn stretch(buffer: &Vec<u8>, from: usize, to: usize) -> (bytes: Vec<u8>)
    requires
        from <= to <= buffer@.len(),
    ensures
        bytes@ == buffer@.subrange(from as int, to as int),
{
    let mut bytes: Vec<u8> = Vec::new();
    for i in from..to
        invariant
            to <= buffer@.len(),
            bytes@ == buffer@.subrange(from as int, i as int),
    {
        bytes.push(buffer[i]);
        assert(bytes@ =~= buffer@.subrange(from as int, i + 1));
    }
    bytes
}

/// Takes the message at the start of a buffer, where all of it is there.
pub fn take_frame(buffer: &Vec<u8>) -> (frame: Option<Frame>)
    ensures
        match frame {
            Some(f) => first_frame(buffer@) == Some(f@),
            None => first_frame(buffer@) is None,
        },
{
    if buffer.len() < 5 {
        return None;
    }
    let size: u32 = (buffer[1] as u32) * 16777216 + (buffer[2] as u32) * 65536 + (buffer[3] as u32)
        * 256 + (buffer[4] as u32);
    if ((buffer.len() - 5) as u64) < size as u64 {
        return None;
    }
    let end: usize = 5 + size as usize;
    let payload = stretch(buffer, 5, end);
    let rest = stretch(buffer, end, buffer.len());
    assert(rest@ =~= buffer@.skip(end as int));
    Some(Frame { flags: buffer[0], payload, rest })
}

/// Puts `data` into an envelope without flags.
pub fn wrap(data: &[u8]) -> (result: Vec<u8>)
    ensures
        result@ == envelope(data@),
{
    let n: usize = data.len();
    let mut result: Vec<u8> = Vec::new();
    result.push(0);
    result.push(((n / 16777216) % 256) as u8);
    result.push(((n / 65536) % 256) as u8);
    result.push(((n / 256) % 256) as u8);
    result.push((n % 256) as u8);
    assert(result@ =~= seq![0u8] + size_bytes(n as nat));
    for i in 0..data.len()
        invariant
            n == data@.len(),
            result@ == seq![0u8] + size_bytes(n as nat) + data@.take(i as int),
    {
        result.push(data[i]);
        assert(result@ =~= seq![0u8] + size_bytes(n as nat) + data@.take(i + 1));
    }
    assert(data@.take(n as int) =~= data@);
    result
}

/// Four bytes write back the number that they were made of.
proof fn lemma_size_round_trip(n: nat, data: Seq<u8>)
    requires
        n <= u32::MAX,
    ensures
        size_in(seq![0u8] + size_bytes(n) + data) == n,
{
    let b = seq![0u8] + size_bytes(n) + data;
    assert(b[1] == size_bytes(n)[0] && b[2] == size_bytes(n)[1] && b[3] == size_bytes(n)[2] && b[4]
        == size_bytes(n)[3]);
}

/// What goes into an envelope comes out of it: the first message of a buffer that begins with
/// the envelope of `data` has no flags and the payload `data`, and what follows stays.
pub proof fn law_envelope_round_trip(data: Seq<u8>, following: Seq<u8>)
    requires
        data.len() <= u32::MAX,
    ensures
        first_frame(envelope(data) + following) == Some(
            FrameView { flags: 0, payload: data, rest: following },
        ),
{
    let buffer = envelope(data) + following;
    assert(buffer =~= seq![0u8] + size_bytes(data.len()) + (data + following));
    lemma_size_round_trip(data.len(), data + following);
    assert(buffer.subrange(5, 5 + data.len() as int) =~= data);
    assert(buffer.skip(5 + data.len() as int) =~= following);
}

} // verus!
