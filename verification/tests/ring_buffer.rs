use latch::session::ring_buffer::{
    RingBuffer, RingBufferError, DEFAULT_CAPACITY, HEADER_SIZE, MAGIC, VERSION,
};

#[test]
fn new_buffer_has_correct_capacity() {
    let buf = RingBuffer::new(1024);
    assert_eq!(buf.capacity(), 1024);
    assert_eq!(buf.write_pos(), 0);
}

#[test]
fn new_buffer_read_all_returns_empty() {
    let buf = RingBuffer::new(1024);
    assert!(buf.read_all().is_empty());
}

#[test]
fn push_and_read_small_data() {
    let mut buf = RingBuffer::new(1024);
    buf.push(b"hello world");
    let data = buf.read_all();
    assert_eq!(data, b"hello world");
}

#[test]
fn push_preserves_chronological_order() {
    let mut buf = RingBuffer::new(1024);
    buf.push(b"line1\n");
    buf.push(b"line2\n");
    buf.push(b"line3\n");
    let data = buf.read_all();
    assert_eq!(data, b"line1\nline2\nline3\n");
}

#[test]
fn ring_buffer_wraps_on_overflow() {
    let mut buf = RingBuffer::new(10);
    // Write 15 bytes into a 10-byte buffer
    buf.push(b"0123456789ABCDE");
    let data = buf.read_all();
    // Should contain the last 10 bytes
    assert_eq!(data, b"56789ABCDE");
    assert_eq!(data.len(), 10);
}

#[test]
fn ring_buffer_file_size_stays_bounded() {
    let mut buf = RingBuffer::new(100);
    // Write more than capacity
    buf.push(&vec![b'X'; 200]);
    let image = buf.to_bytes();
    // Image = header (24) + capacity (100) = 124 bytes
    assert_eq!(image.len() as u64, HEADER_SIZE as u64 + 100);
}

#[test]
fn save_and_open_roundtrip() {
    let mut buf = RingBuffer::new(256);
    buf.push(b"persistent data");
    let image = buf.to_bytes();

    let loaded = RingBuffer::from_bytes(&image).unwrap();
    assert_eq!(loaded.read_all(), b"persistent data");
    assert_eq!(loaded.capacity(), 256);
    assert_eq!(loaded.write_pos(), 15);
}

#[test]
fn open_validates_magic() {
    let result = RingBuffer::from_bytes(b"BADHEADERxxxxxxxxxxxxxxxx");
    assert!(result.is_err());
    assert_eq!(result.err(), Some(RingBufferError::BadMagic));
}

#[test]
fn open_validates_version() {
    let mut bytes = Vec::new();
    bytes.extend_from_slice(&MAGIC);
    bytes.extend_from_slice(&99u32.to_le_bytes()); // bad version
    bytes.extend_from_slice(&0u64.to_le_bytes());
    bytes.extend_from_slice(&0u64.to_le_bytes());
    let result = RingBuffer::from_bytes(&bytes);
    assert!(result.is_err());
    assert_eq!(
        result.err(),
        Some(RingBufferError::UnsupportedVersion { version: 99 })
    );
}

#[test]
fn header_contains_correct_magic_and_version() {
    let buf = RingBuffer::new(64);
    let bytes = buf.to_bytes();
    assert_eq!(&bytes[0..4], &MAGIC[..]);
    assert_eq!(u32::from_le_bytes(bytes[4..8].try_into().unwrap()), VERSION);
}

#[test]
fn default_capacity_is_one_mb() {
    assert_eq!(DEFAULT_CAPACITY, 1_048_576);
}

#[test]
fn wrapped_buffer_roundtrip_through_file() {
    let mut buf = RingBuffer::new(10);
    buf.push(b"0123456789ABCDE"); // 15 bytes into 10
    let image = buf.to_bytes();

    let loaded = RingBuffer::from_bytes(&image).unwrap();
    assert_eq!(loaded.read_all(), b"56789ABCDE");
}

#[test]
fn us002_ring_buffer_persists_after_disconnect() {
    let mut rb = RingBuffer::new(256);
    rb.push(b"persistent data after disconnect");
    let image = rb.to_bytes();

    // Simulate "disconnect" — drop the in-memory buffer
    drop(rb);

    let loaded = RingBuffer::from_bytes(&image).unwrap();
    assert_eq!(loaded.read_all(), b"persistent data after disconnect");
}

#[test]
fn us002_ring_buffer_overflow_stays_bounded() {
    let capacity = 64u64;
    let mut rb = RingBuffer::new(capacity);

    // Write more than capacity
    let big_data = vec![b'X'; 200];
    rb.push(&big_data);

    let contents = rb.read_all();
    assert!(
        contents.len() as u64 <= capacity,
        "Ring buffer contents ({}) should not exceed capacity ({})",
        contents.len(),
        capacity
    );
}

// --- further cases ---

#[test]
fn image_too_small_is_refused_with_its_length() {
    assert_eq!(
        RingBuffer::from_bytes(b"LTCH").err(),
        Some(RingBufferError::TooSmall { len: 4 })
    );
}

#[test]
fn image_with_wrong_data_size_is_refused() {
    let buf = RingBuffer::new(8);
    let mut image = buf.to_bytes();
    image.pop();
    assert_eq!(
        RingBuffer::from_bytes(&image).err(),
        Some(RingBufferError::SizeMismatch { expected: 8, got: 7 })
    );
}

#[test]
fn image_layout_is_magic_version_position_capacity_data() {
    let mut buf = RingBuffer::new(4);
    buf.push(b"abcdef");
    let image = buf.to_bytes();
    assert_eq!(&image[0..4], b"LTCH");
    assert_eq!(&image[4..8], &[1, 0, 0, 0]);
    assert_eq!(&image[8..16], &6u64.to_le_bytes());
    assert_eq!(&image[16..24], &4u64.to_le_bytes());
    // positions 4 and 5 ("ef") wrapped onto slots 0 and 1
    assert_eq!(&image[24..], b"efcd");
}

#[test]
fn history_keeps_last_capacity_bytes_across_pushes() {
    let mut buf = RingBuffer::new(5);
    buf.push(b"abc");
    buf.push(b"defg");
    assert_eq!(buf.read_all(), b"cdefg");
    assert_eq!(buf.write_pos(), 7);
    buf.push(b"");
    assert_eq!(buf.read_all(), b"cdefg");
}

#[test]
fn exactly_full_buffer_reads_in_order() {
    let mut buf = RingBuffer::new(4);
    buf.push(b"wxyz");
    assert_eq!(buf.read_all(), b"wxyz");
}

#[test]
fn zero_capacity_buffer_holds_nothing() {
    let mut buf = RingBuffer::new(0);
    buf.push(b"");
    assert!(buf.read_all().is_empty());
    assert_eq!(buf.to_bytes().len(), HEADER_SIZE);
}

#[test]
fn unwritten_slots_stay_zero_in_the_image() {
    let mut buf = RingBuffer::new(8);
    buf.push(b"ab");
    buf.push(b"c");
    let image = buf.to_bytes();
    assert_eq!(&image[24..], b"abc\0\0\0\0\0");
}
