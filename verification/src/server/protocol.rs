//! The messages between a session server and its clients, and their framing
//! on the socket: a 4-byte big-endian length, then the encoded message.

use vstd::prelude::*;

verus! {

/// Messages sent from client to server.
#[derive(Debug, Clone, PartialEq)]
pub enum ClientMessage {
    Attach,
    Input { data: Vec<u8> },
    Resize { cols: u16, rows: u16 },
    Detach,
}

/// Messages sent from server to client.
#[derive(Debug, Clone, PartialEq)]
pub enum ServerMessage {
    Output { data: Vec<u8> },
    History { data: Vec<u8> },
    SessionDead,
}

/// The largest payload a reader accepts: 16 MiB.
pub const MAX_MESSAGE_LEN: usize = 16777216;

/// Length of the frame header.
pub const LENGTH_PREFIX_LEN: usize = 4;

/// `n` as four big-endian bytes.
pub open spec fn be_bytes(n: u32) -> Seq<u8> {
    seq![(n >> 24) as u8, ((n >> 16) & 0xff) as u8, ((n >> 8) & 0xff) as u8, (n & 0xff) as u8]
}

/// The number that four big-endian bytes spell.
pub open spec fn be_value(b0: u8, b1: u8, b2: u8, b3: u8) -> u32 {
    ((b0 as u32) << 24) | ((b1 as u32) << 16) | ((b2 as u32) << 8) | (b3 as u32)
}

/// Law: reading back the big-endian bytes of `n` gives `n`.
pub proof fn lemma_be_roundtrip(n: u32)
    ensures
        be_value(be_bytes(n)[0], be_bytes(n)[1], be_bytes(n)[2], be_bytes(n)[3]) == n,
{
    let b0 = (n >> 24) as u8;
    let b1 = ((n >> 16) & 0xff) as u8;
    let b2 = ((n >> 8) & 0xff) as u8;
    let b3 = (n & 0xff) as u8;
    assert(((b0 as u32) << 24) | ((b1 as u32) << 16) | ((b2 as u32) << 8) | (b3 as u32) == n)
        by (bit_vector)
        requires
            b0 == (n >> 24) as u8,
            b1 == ((n >> 16) & 0xff) as u8,
            b2 == ((n >> 8) & 0xff) as u8,
            b3 == (n & 0xff) as u8,
    ;
}

/// The frame of a payload: its length, truncated to 32 bits as the wire
/// format does, in big-endian order, then the payload.
pub open spec fn frame_of(payload: Seq<u8>) -> Seq<u8> {
    be_bytes(payload.len() as u32) + payload
}

/// Frame an encoded message for the socket.
pub fn frame(payload: &[u8]) -> (r: Vec<u8>)
    ensures
        r@ == frame_of(payload@),
{
    let len = payload.len() as u32;
    let mut buf: Vec<u8> = Vec::new();
    buf.push((len >> 24) as u8);
    buf.push(((len >> 16) & 0xff) as u8);
    buf.push(((len >> 8) & 0xff) as u8);
    buf.push((len & 0xff) as u8);
    let mut i: usize = 0;
    while i < payload.len()
        invariant
            0 <= i <= payload@.len(),
            buf@ == be_bytes(payload@.len() as u32) + payload@.take(i as int),
        decreases payload@.len() - i,
    {
        buf.push(payload[i]);
        i = i + 1;
        assert(buf@ =~= be_bytes(payload@.len() as u32) + payload@.take(i as int));
    }
    assert(payload@.take(i as int) =~= payload@);
    buf
}

/// Why a frame header was refused.
#[derive(Debug, Clone, Copy, PartialEq, Eq, Structural)]
pub enum FrameError {
    /// The announced payload is over `MAX_MESSAGE_LEN`.
    TooLarge { len: usize },
}

/// The payload length that a frame header announces, if a reader accepts
/// it: at most `MAX_MESSAGE_LEN`.
pub fn payload_len(header: [u8; 4]) -> (r: Result<usize, FrameError>)
    ensures
        match r {
            Ok(n) => n == be_value(header[0], header[1], header[2], header[3]) && n
                <= MAX_MESSAGE_LEN,
            Err(FrameError::TooLarge { len }) => len == be_value(
                header[0],
                header[1],
                header[2],
                header[3],
            ) && len > MAX_MESSAGE_LEN,
        },
{
    let value: u32 = ((header[0] as u32) << 24) | ((header[1] as u32) << 16) | ((header[2] as u32)
        << 8) | (header[3] as u32);
    let len = value as usize;
    if len > MAX_MESSAGE_LEN {
        Err(FrameError::TooLarge { len })
    } else {
        Ok(len)
    }
}

/// Law: a reader takes back from a frame exactly the payload that was
/// framed, when it is at most `MAX_MESSAGE_LEN` long.
pub proof fn lemma_frame_roundtrip(payload: Seq<u8>)
    requires
        payload.len() <= MAX_MESSAGE_LEN,
    ensures
        frame_of(payload).len() == LENGTH_PREFIX_LEN + payload.len(),
        be_value(frame_of(payload)[0], frame_of(payload)[1], frame_of(payload)[2], frame_of(payload)[3])
            == payload.len(),
        frame_of(payload).subrange(LENGTH_PREFIX_LEN as int, frame_of(payload).len() as int)
            == payload,
{
    let f = frame_of(payload);
    lemma_be_roundtrip(payload.len() as u32);
    assert(f[0] == be_bytes(payload.len() as u32)[0]);
    assert(f[1] == be_bytes(payload.len() as u32)[1]);
    assert(f[2] == be_bytes(payload.len() as u32)[2]);
    assert(f[3] == be_bytes(payload.len() as u32)[3]);
    assert(f.subrange(4, f.len() as int) =~= payload);
}

} // verus!
