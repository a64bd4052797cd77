//! A fixed-capacity scrollback buffer that keeps the most recent bytes
//! written to a session, and its on-disk image.

use vstd::prelude::*;
use vstd::bytes::{
    spec_u32_from_le_bytes,
    spec_u32_to_le_bytes,
    spec_u64_from_le_bytes,
    spec_u64_to_le_bytes,
    u32_from_le_bytes,
    u32_to_le_bytes,
    u64_from_le_bytes,
    u64_to_le_bytes,
    lemma_auto_spec_u32_to_from_le_bytes,
    lemma_auto_spec_u64_to_from_le_bytes,
};
use vstd::slice::{slice_subrange, slice_to_vec};
use vstd::arithmetic::div_mod::{
    lemma_fundamental_div_mod,
    lemma_fundamental_div_mod_converse,
    lemma_mod_equivalence,
    lemma_small_mod,
};

verus! {

/// Size of the image header: magic, version, write position and capacity.
pub const HEADER_SIZE: usize = 24;

/// Image format version.
pub const VERSION: u32 = 1;

/// Capacity of a session's history: one mebibyte.
pub const DEFAULT_CAPACITY: u64 = 1048576;

/// The four magic bytes that open an image: `LTCH`.
pub const MAGIC: [u8; 4] = [76u8, 84u8, 67u8, 72u8];

/// The last `n` elements of `s` (all of `s` when it is shorter).
pub open spec fn keep_last(s: Seq<u8>, n: int) -> Seq<u8> {
    if s.len() <= n {
        s
    } else {
        s.subrange(s.len() - n, s.len() as int)
    }
}

/// How many bytes of history a buffer of `capacity` slots holds after
/// `write_pos` bytes have been written to it.
pub open spec fn history_len(write_pos: u64, capacity: u64) -> nat {
    if write_pos <= capacity {
        write_pos as nat
    } else {
        capacity as nat
    }
}

/// The history held by `slots` after `write_pos` bytes were written: the byte
/// written at logical position `p` lives in slot `p % capacity`, and the
/// history is the bytes at positions `write_pos - history_len .. write_pos`,
/// oldest first.
pub open spec fn history_of(slots: Seq<u8>, write_pos: u64, capacity: u64) -> Seq<u8> {
    let n = history_len(write_pos, capacity);
    Seq::new(n, |i: int| slots[(write_pos - n + i) % (capacity as int)])
}

/// The slots after writing `data` from logical position `write_pos` on:
/// byte `k` goes to slot `(write_pos + k) % capacity`, in order, so a later
/// byte overwrites an earlier one in the same slot; other slots keep their
/// contents.
pub open spec fn written_slots(slots: Seq<u8>, write_pos: int, capacity: int, data: Seq<u8>) -> Seq<
    u8,
>
    decreases data.len(),
{
    if data.len() == 0 {
        slots
    } else {
        written_slots(slots, write_pos, capacity, data.drop_last()).update(
            (write_pos + data.len() - 1) % capacity,
            data.last(),
        )
    }
}

/// The history after appending each of `chunks` in turn to the history `h`
/// of a buffer of `n` slots.
pub open spec fn pushed(h: Seq<u8>, chunks: Seq<Seq<u8>>, n: int) -> Seq<u8>
    decreases chunks.len(),
{
    if chunks.len() == 0 {
        h
    } else {
        keep_last(pushed(h, chunks.drop_last(), n) + chunks.last(), n)
    }
}

/// The chunks one after the other.
pub open spec fn concat_chunks(chunks: Seq<Seq<u8>>) -> Seq<u8>
    decreases chunks.len(),
{
    if chunks.len() == 0 {
        Seq::empty()
    } else {
        concat_chunks(chunks.drop_last()) + chunks.last()
    }
}

/// Law: what is kept is the newest part: the last `min(len, n)` bytes of
/// `s`, in order, so that `s` is some older bytes followed by them.
pub proof fn lemma_keep_last_is_newest(s: Seq<u8>, n: int)
    requires
        n >= 0,
    ensures
        keep_last(s, n).len() == if s.len() <= n {
            s.len() as int
        } else {
            n
        },
        s == s.subrange(0, s.len() - keep_last(s, n).len()) + keep_last(s, n),
{
    assert(s =~= s.subrange(0, s.len() - keep_last(s, n).len()) + keep_last(s, n));
}

/// Law: keeping the last `n` bytes, appending, and keeping the last `n`
/// bytes again is keeping the last `n` bytes of everything.
pub proof fn lemma_keep_last_append(a: Seq<u8>, b: Seq<u8>, n: int)
    requires
        n >= 0,
    ensures
        keep_last(keep_last(a, n) + b, n) == keep_last(a + b, n),
{
    if a.len() > n {
        let a1 = keep_last(a, n);
        let left = keep_last(a1 + b, n);
        let right = keep_last(a + b, n);
        assert(left.len() == right.len());
        assert forall|i: int| 0 <= i < left.len() implies left[i] == right[i] by {
            let k = a.len() + b.len() - n + i;
            if k < a.len() {
                assert(right[i] == a[k]);
                assert(left[i] == a1[k - (a.len() - n)]);
            } else {
                assert(right[i] == b[k - a.len()]);
            }
        }
        assert(left =~= right);
    }
}

/// Law over a sequence of pushes: from a history that fits in `n` slots,
/// appending chunk after chunk leaves the last `n` bytes of the history
/// followed by all the chunks, oldest first.
pub proof fn lemma_pushes_keep_newest(h: Seq<u8>, chunks: Seq<Seq<u8>>, n: int)
    requires
        n >= 0,
        h.len() <= n,
    ensures
        pushed(h, chunks, n) == keep_last(h + concat_chunks(chunks), n),
    decreases chunks.len(),
{
    if chunks.len() == 0 {
        assert(h + concat_chunks(chunks) =~= h);
    } else {
        let init = chunks.drop_last();
        lemma_pushes_keep_newest(h, init, n);
        lemma_keep_last_append(h + concat_chunks(init), chunks.last(), n);
        assert(h + concat_chunks(init) + chunks.last() =~= h + concat_chunks(chunks));
    }
}

/// A persistent ring buffer: bytes wrap around once capacity is reached, so
/// that the buffer always holds the most recent `capacity` bytes.
pub struct RingBuffer {
    capacity: u64,
    write_pos: u64,
    data: Vec<u8>,
}

impl RingBuffer {
    /// The buffer's slots are exactly `capacity` long.
    pub closed spec fn wf(&self) -> bool {
        self.data@.len() == self.capacity
    }

    /// A well-formed buffer has exactly one slot per byte of capacity.
    pub proof fn lemma_slots_len(&self)
        requires
            self.wf(),
        ensures
            self.slots().len() == self.spec_capacity(),
    {
    }

    pub closed spec fn spec_capacity(&self) -> u64 {
        self.capacity
    }

    pub closed spec fn spec_write_pos(&self) -> u64 {
        self.write_pos
    }

    /// The raw storage slots, in storage order.
    pub closed spec fn slots(&self) -> Seq<u8> {
        self.data@
    }
}

impl View for RingBuffer {
    type V = Seq<u8>;

    /// The history in chronological order.
    closed spec fn view(&self) -> Seq<u8> {
        history_of(self.data@, self.write_pos, self.capacity)
    }
}

impl RingBuffer {
    /// The view of a buffer is its history over its slots.
    pub proof fn lemma_view_is_history(&self)
        ensures
            self@ == history_of(self.slots(), self.spec_write_pos(), self.spec_capacity()),
    {
    }

    /// Create a new empty ring buffer with the given capacity.
    pub fn new(capacity: u64) -> (r: Self)
        requires
            capacity <= usize::MAX,
        ensures
            r.wf(),
            r.spec_capacity() == capacity,
            r.spec_write_pos() == 0,
            r.slots() == Seq::new(capacity as nat, |i: int| 0u8),
            r@ == Seq::<u8>::empty(),
    {
        let data = vec![0u8; capacity as usize];
        let r = RingBuffer { capacity, write_pos: 0, data };
        assert(r@ =~= Seq::<u8>::empty());
        r
    }

    /// Get the capacity.
    pub fn capacity(&self) -> (r: u64)
        ensures
            r == self.spec_capacity(),
    {
        self.capacity
    }

    /// Get the total bytes written (may exceed capacity if wrapped).
    pub fn write_pos(&self) -> (r: u64)
        ensures
            r == self.spec_write_pos(),
    {
        self.write_pos
    }
}


/// Two positions less than `cap` apart fall in different slots.
proof fn lemma_distinct_slots(x: int, d: int, cap: int)
    requires
        0 < d < cap,
    ensures
        (x + d) % cap != x % cap,
{
    lemma_mod_equivalence(x + d, x, cap);
    lemma_small_mod(d as nat, cap as nat);
}

/// The slot of position `x - cap + i`, for `x >= cap` and `i < cap`.
proof fn lemma_wrapped_slot(x: int, i: int, cap: int)
    requires
        cap > 0,
        x >= cap,
        0 <= i < cap,
    ensures
        (x - cap + i) % cap == (if x % cap + i < cap {
            x % cap + i
        } else {
            x % cap + i - cap
        }),
{
    lemma_fundamental_div_mod(x, cap);
    let q = x / cap;
    let r = x % cap;
    assert(0 <= r < cap);
    assert(cap * q == q * cap) by (nonlinear_arith);
    if r + i < cap {
        assert((q - 1) * cap == q * cap - cap) by (nonlinear_arith);
        lemma_fundamental_div_mod_converse(x - cap + i, cap, q - 1, r + i);
    } else {
        lemma_fundamental_div_mod_converse(x - cap + i, cap, q, r + i - cap);
    }
}

/// Writing one byte at slot `write_pos % cap` extends the history by that
/// byte, dropping the oldest byte once the history is full.
proof fn lemma_push_byte(slots: Seq<u8>, write_pos: u64, cap: u64, b: u8)
    requires
        cap > 0,
        slots.len() == cap,
        write_pos < u64::MAX,
    ensures
        history_of(slots.update((write_pos as int) % (cap as int), b), (write_pos + 1) as u64, cap)
            == keep_last(history_of(slots, write_pos, cap).push(b), cap as int),
{
    let h = history_of(slots, write_pos, cap);
    let s2 = slots.update((write_pos as int) % (cap as int), b);
    let wp2 = (write_pos + 1) as u64;
    let h2 = history_of(s2, wp2, cap);
    let k = keep_last(h.push(b), cap as int);
    if write_pos < cap {
        lemma_small_mod(write_pos as nat, cap as nat);
        assert forall|i: int| 0 <= i < h2.len() implies h2[i] == k[i] by {
            lemma_small_mod(i as nat, cap as nat);
            if i < write_pos {
                assert(h[i] == slots[i % (cap as int)]);
            }
        }
        assert(h2 =~= k);
    } else {
        assert forall|i: int| 0 <= i < h2.len() implies h2[i] == k[i] by {
            let p = wp2 - cap + i;
            if i < cap - 1 {
                lemma_distinct_slots(p, cap - 1 - i, cap as int);
                assert(p + (cap - 1 - i) == write_pos);
                assert(k[i] == h[i + 1]);
                assert(h[i + 1] == slots[(write_pos - cap + (i + 1)) % (cap as int)]);
            } else {
                assert(p == write_pos);
            }
        }
        assert(h2 =~= k);
    }
}

/// Keeping the last `n` bytes before or after appending one more byte gives
/// the same result.
proof fn lemma_keep_last_push(s: Seq<u8>, b: u8, n: int)
    requires
        n > 0,
    ensures
        keep_last(keep_last(s, n).push(b), n) == keep_last(s.push(b), n),
{
    if s.len() > n {
        assert(keep_last(keep_last(s, n).push(b), n) =~= keep_last(s.push(b), n));
    } else {
        assert(keep_last(s, n) == s);
    }
}

impl RingBuffer {
    /// Write data into the ring buffer (wraps around).
    pub fn push(&mut self, data: &[u8])
        requires
            old(self).wf(),
            old(self).spec_capacity() > 0 || data@.len() == 0,
            old(self).spec_write_pos() + data@.len() <= u64::MAX,
        ensures
            final(self).wf(),
            final(self).spec_capacity() == old(self).spec_capacity(),
            final(self).spec_write_pos() == old(self).spec_write_pos() + data@.len(),
            final(self)@ == keep_last(old(self)@ + data@, old(self).spec_capacity() as int),
            final(self).slots() == written_slots(
                old(self).slots(),
                old(self).spec_write_pos() as int,
                old(self).spec_capacity() as int,
                data@,
            ),
    {
        let ghost old_view = self@;
        let ghost old_slots = self.data@;
        let ghost cap = self.capacity as int;
        assert(data@.take(0) =~= Seq::<u8>::empty());
        if self.capacity > 0 {
            assert(keep_last(old_view + data@.take(0), cap) == old_view) by {
                assert(old_view + data@.take(0) =~= old_view);
            }
        } else {
            assert(old_view + data@ =~= old_view);
            assert(old_view.len() == 0);
        }
        let mut i: usize = 0;
        while i < data.len()
            invariant
                0 <= i <= data@.len(),
                self.wf(),
                self.capacity == cap,
                cap > 0 || data@.len() == 0,
                self.write_pos == old(self).spec_write_pos() + i,
                old(self).spec_write_pos() + data@.len() <= u64::MAX,
                cap > 0 ==> self@ == keep_last(old_view + data@.take(i as int), cap),
                self.data@ == written_slots(
                    old_slots,
                    old(self).spec_write_pos() as int,
                    cap,
                    data@.take(i as int),
                ),
            decreases data@.len() - i,
        {
            let byte = data[i];
            let pos_u64 = self.write_pos % self.capacity;
            let slot_count = self.data.len();
            assert(pos_u64 < slot_count);
            let pos = pos_u64 as usize;
            proof {
                lemma_push_byte(self.data@, self.write_pos, self.capacity, byte);
                lemma_keep_last_push(old_view + data@.take(i as int), byte, cap);
                assert((old_view + data@.take(i as int)).push(byte) =~= old_view + data@.take(
                    i + 1,
                ));
                assert(data@.take(i + 1).drop_last() =~= data@.take(i as int));
            }
            self.data.set(pos, byte);
            self.write_pos = self.write_pos + 1;
            i = i + 1;
        }
        proof {
            assert(data@.take(data@.len() as int) =~= data@);
        }
    }

    /// Read all data in chronological order.
    pub fn read_all(&self) -> (r: Vec<u8>)
        requires
            self.wf(),
            self.spec_capacity() > 0 || self.spec_write_pos() == 0,
        ensures
            r@ == self@,
    {
        let n: u64 = if self.write_pos <= self.capacity { self.write_pos } else { self.capacity };
        let start: u64 = if self.write_pos <= self.capacity {
            0
        } else {
            self.write_pos % self.capacity
        };
        let mut out: Vec<u8> = Vec::new();
        let mut i: u64 = 0;
        while i < n
            invariant
                self.wf(),
                n == history_len(self.write_pos, self.capacity),
                self.write_pos <= self.capacity ==> start == 0,
                self.write_pos > self.capacity ==> start == self.write_pos % self.capacity,
                0 <= i <= n,
                out@ =~= self@.take(i as int),
            decreases n - i,
        {
            let idx: u64 = if i < self.capacity - start {
                start + i
            } else {
                i - (self.capacity - start)
            };
            let slot_count = self.data.len();
            assert(idx < slot_count) by {
                if self.write_pos > self.capacity {
                    assert(start < self.capacity);
                }
            }
            proof {
                let cap = self.capacity as int;
                if self.write_pos <= self.capacity {
                    lemma_small_mod(i as nat, cap as nat);
                } else {
                    lemma_wrapped_slot(self.write_pos as int, i as int, cap);
                }
                assert(self@[i as int] == self.data@[idx as int]);
            }
            out.push(self.data[idx as usize]);
            i = i + 1;
        }
        out
    }
}


/// The magic bytes as a sequence.
pub open spec fn magic_bytes() -> Seq<u8> {
    seq![76u8, 84u8, 67u8, 72u8]
}

/// The on-disk image of a buffer: magic, version (u32 little-endian), write
/// position and capacity (u64 little-endian), then the raw slots.
pub open spec fn image_of(capacity: u64, write_pos: u64, slots: Seq<u8>) -> Seq<u8> {
    magic_bytes() + spec_u32_to_le_bytes(VERSION) + spec_u64_to_le_bytes(write_pos)
        + spec_u64_to_le_bytes(capacity) + slots
}

/// Why an image was refused.
#[derive(Debug, Clone, Copy, PartialEq, Eq, Structural)]
pub enum RingBufferError {
    /// Shorter than the header.
    TooSmall { len: usize },
    /// The first four bytes are not the magic.
    BadMagic,
    /// A version other than `VERSION`.
    UnsupportedVersion { version: u32 },
    /// The data after the header is not `capacity` bytes long.
    SizeMismatch { expected: u64, got: usize },
}

/// What an image decodes to: `(capacity, write_pos, slots)`, or the reason it
/// is refused, checked in the order length, magic, version, data size.
pub open spec fn parse_image(bytes: Seq<u8>) -> Result<(u64, u64, Seq<u8>), RingBufferError> {
    if bytes.len() < HEADER_SIZE {
        Err(RingBufferError::TooSmall { len: bytes.len() as usize })
    } else if bytes.subrange(0, 4) != magic_bytes() {
        Err(RingBufferError::BadMagic)
    } else if spec_u32_from_le_bytes(bytes.subrange(4, 8)) != VERSION {
        Err(RingBufferError::UnsupportedVersion { version: spec_u32_from_le_bytes(bytes.subrange(4, 8)) })
    } else {
        let write_pos = spec_u64_from_le_bytes(bytes.subrange(8, 16));
        let capacity = spec_u64_from_le_bytes(bytes.subrange(16, 24));
        let slots = bytes.subrange(HEADER_SIZE as int, bytes.len() as int);
        if slots.len() != capacity {
            Err(RingBufferError::SizeMismatch { expected: capacity, got: slots.len() as usize })
        } else {
            Ok((capacity, write_pos, slots))
        }
    }
}

/// Law: decoding the image of a buffer gives back its capacity, write
/// position and slots, and the image is exactly the header plus the slots.
pub proof fn lemma_image_roundtrip(capacity: u64, write_pos: u64, slots: Seq<u8>)
    requires
        slots.len() == capacity,
    ensures
        parse_image(image_of(capacity, write_pos, slots)) == Ok::<(u64, u64, Seq<u8>), RingBufferError>((capacity, write_pos, slots)),
        image_of(capacity, write_pos, slots).len() == HEADER_SIZE + capacity,
{
    lemma_auto_spec_u32_to_from_le_bytes();
    lemma_auto_spec_u64_to_from_le_bytes();
    let img = image_of(capacity, write_pos, slots);
    let v = spec_u32_to_le_bytes(VERSION);
    let w = spec_u64_to_le_bytes(write_pos);
    let c = spec_u64_to_le_bytes(capacity);
    assert(img.subrange(0, 4) =~= magic_bytes());
    assert(img.subrange(4, 8) =~= v);
    assert(img.subrange(8, 16) =~= w);
    assert(img.subrange(16, 24) =~= c);
    assert(img.subrange(HEADER_SIZE as int, img.len() as int) =~= slots);
}

impl RingBuffer {
    /// Law: a buffer rebuilt from another's image holds the same history,
    /// capacity and write position: what was saved is what is read back.
    pub proof fn lemma_reopen_same_history(saved: &RingBuffer, reopened: &RingBuffer)
        requires
            saved.wf(),
            parse_image(image_of(saved.spec_capacity(), saved.spec_write_pos(), saved.slots()))
                == Ok::<(u64, u64, Seq<u8>), RingBufferError>(
                (reopened.spec_capacity(), reopened.spec_write_pos(), reopened.slots()),
            ),
        ensures
            reopened@ == saved@,
            reopened.spec_capacity() == saved.spec_capacity(),
            reopened.spec_write_pos() == saved.spec_write_pos(),
    {
        lemma_image_roundtrip(saved.capacity, saved.write_pos, saved.data@);
    }

    /// Law: the history never holds more than `capacity` bytes.
    pub proof fn lemma_history_bounded(&self)
        ensures
            self@.len() == history_len(self.spec_write_pos(), self.spec_capacity()),
            self@.len() <= self.spec_capacity(),
            self@.len() <= self.spec_write_pos(),
    {
    }

    /// Serialize the ring buffer to bytes (header + data).
    pub fn to_bytes(&self) -> (r: Vec<u8>)
        requires
            self.wf(),
        ensures
            r@ == image_of(self.spec_capacity(), self.spec_write_pos(), self.slots()),
            r@.len() == HEADER_SIZE + self.spec_capacity(),
    {
        let mut buf: Vec<u8> = Vec::new();
        buf.push(MAGIC[0]);
        buf.push(MAGIC[1]);
        buf.push(MAGIC[2]);
        buf.push(MAGIC[3]);
        assert(buf@ =~= magic_bytes());
        let mut version = u32_to_le_bytes(VERSION);
        buf.append(&mut version);
        let mut pos = u64_to_le_bytes(self.write_pos);
        buf.append(&mut pos);
        let mut cap = u64_to_le_bytes(self.capacity);
        buf.append(&mut cap);
        let mut slots = slice_to_vec(self.data.as_slice());
        buf.append(&mut slots);
        proof {
            lemma_image_roundtrip(self.capacity, self.write_pos, self.data@);
        }
        buf
    }

    /// Rebuild a buffer from its image; the parsing half of opening a
    /// history file.
    pub fn from_bytes(bytes: &[u8]) -> (r: Result<Self, RingBufferError>)
        ensures
            match r {
                Ok(rb) => rb.wf() && parse_image(bytes@) == Ok::<(u64, u64, Seq<u8>), RingBufferError>(
                    (rb.spec_capacity(), rb.spec_write_pos(), rb.slots()),
                ),
                Err(e) => parse_image(bytes@) == Err::<(u64, u64, Seq<u8>), RingBufferError>(e),
            },
    {
        let len = bytes.len();
        if len < HEADER_SIZE {
            return Err(RingBufferError::TooSmall { len });
        }
        if bytes[0] != MAGIC[0] || bytes[1] != MAGIC[1] || bytes[2] != MAGIC[2] || bytes[3] != MAGIC[3] {
            proof {
                if bytes@.subrange(0, 4) == magic_bytes() {
                    assert(bytes@.subrange(0, 4)[0] == bytes@[0]);
                    assert(bytes@.subrange(0, 4)[1] == bytes@[1]);
                    assert(bytes@.subrange(0, 4)[2] == bytes@[2]);
                    assert(bytes@.subrange(0, 4)[3] == bytes@[3]);
                }
            }
            return Err(RingBufferError::BadMagic);
        }
        assert(bytes@.subrange(0, 4) =~= magic_bytes());
        let version = u32_from_le_bytes(slice_subrange(bytes, 4, 8));
        if version != VERSION {
            return Err(RingBufferError::UnsupportedVersion { version });
        }
        let write_pos = u64_from_le_bytes(slice_subrange(bytes, 8, 16));
        let capacity = u64_from_le_bytes(slice_subrange(bytes, 16, 24));
        let data = slice_to_vec(slice_subrange(bytes, HEADER_SIZE, len));
        let got = data.len();
        if got as u64 != capacity {
            return Err(RingBufferError::SizeMismatch { expected: capacity, got });
        }
        Ok(RingBuffer { capacity, write_pos, data })
    }
}

} // verus!
