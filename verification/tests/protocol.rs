use latch::commands::attach::{history_replay, server_step, ClientStep};
use latch::server::protocol::{frame, payload_len, ClientMessage, FrameError, ServerMessage, MAX_MESSAGE_LEN};
use latch::server::{accepts_first_message, client_step, detached_after_leave, ServerStep};

#[test]
fn frame_prefixes_big_endian_length() {
    let framed = frame(b"hello");
    assert_eq!(&framed[..4], &[0, 0, 0, 5]);
    assert_eq!(&framed[4..], b"hello");
    let len = u32::from_be_bytes(framed[..4].try_into().unwrap());
    assert_eq!(len as usize + 4, framed.len());
}

#[test]
fn frame_of_large_payload() {
    let payload = vec![7u8; 70000];
    let framed = frame(&payload);
    assert_eq!(&framed[..4], &70000u32.to_be_bytes());
    assert_eq!(payload_len(framed[..4].try_into().unwrap()), Ok(70000));
}

#[test]
fn header_roundtrip_and_limit() {
    assert_eq!(payload_len([0, 0, 0, 0]), Ok(0));
    assert_eq!(payload_len([0x01, 0x00, 0x00, 0x00]), Ok(MAX_MESSAGE_LEN));
    assert_eq!(
        payload_len([0x01, 0x00, 0x00, 0x01]),
        Err(FrameError::TooLarge { len: MAX_MESSAGE_LEN + 1 })
    );
}

#[test]
fn server_serves_only_after_attach() {
    assert!(accepts_first_message(&ClientMessage::Attach));
    assert!(!accepts_first_message(&ClientMessage::Detach));
    assert!(!accepts_first_message(&ClientMessage::Input { data: vec![1] }));
}

#[test]
fn server_steps_for_client_messages() {
    assert_eq!(
        client_step(Some(ClientMessage::Input { data: b"ls\n".to_vec() })),
        ServerStep::WriteInput { data: b"ls\n".to_vec() }
    );
    assert_eq!(
        client_step(Some(ClientMessage::Resize { cols: 120, rows: 40 })),
        ServerStep::Resize { cols: 120, rows: 40 }
    );
    assert_eq!(client_step(Some(ClientMessage::Attach)), ServerStep::Ignore);
    assert_eq!(client_step(Some(ClientMessage::Detach)), ServerStep::Disconnect);
    assert_eq!(client_step(None), ServerStep::Disconnect);
}

#[test]
fn detached_when_only_server_listens() {
    assert!(detached_after_leave(0));
    assert!(detached_after_leave(1));
    assert!(!detached_after_leave(2));
}

#[test]
fn client_steps_for_server_messages() {
    assert_eq!(
        server_step(Some(ServerMessage::Output { data: b"out".to_vec() })),
        ClientStep::Print { data: b"out".to_vec() }
    );
    assert_eq!(
        server_step(Some(ServerMessage::History { data: vec![1] })),
        ClientStep::Ignore
    );
    assert_eq!(server_step(Some(ServerMessage::SessionDead)), ClientStep::Finish);
    assert_eq!(server_step(None), ClientStep::Finish);
    assert_eq!(
        history_replay(ServerMessage::History { data: vec![1, 2, 3] }),
        Some(vec![1, 2, 3])
    );
    assert_eq!(history_replay(ServerMessage::SessionDead), None);
}

#[test]
fn length_prefix_is_big_endian() {
    // the encoded `Attach` message is the single variant-index byte 0
    let encoded = frame(&[0u8]);
    let len_bytes = &encoded[..4];
    let len = u32::from_be_bytes(len_bytes.try_into().unwrap());
    assert!(len > 0);
    assert_eq!(len as usize + 4, encoded.len());
}
