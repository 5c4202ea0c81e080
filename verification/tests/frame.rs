use ws_tunnel::frame::{
    frame_fits, write_to_websocket, write_to_websocket_step, MessageType, WriterStep, TUNNEL_BUF_LEN,
    WEBSOCKET_BUF_LEN,
};
use ws_tunnel::{TunnelCommand, CLOSE_STREAM_COMMAND, OPEN_STREAM_COMMAND};

fn frame(message_type: MessageType, payload: &[u8], room: usize) -> Vec<u8> {
    let mut to_buf = vec![0_u8; room];
    let len = write_to_websocket(message_type, payload, &mut to_buf);
    assert!(to_buf[len..].iter().all(|b| *b == 0));
    to_buf.truncate(len);
    to_buf
}

#[test]
fn short_frames() {
    assert_eq!(frame(MessageType::Text, b"hello", 7), [129, 5, 104, 101, 108, 108, 111]);
    assert_eq!(frame(MessageType::Binary, &[], 100), [130, 0]);
    assert_eq!(frame(MessageType::Ping, &[7], 100), [137, 1, 7]);
    assert_eq!(frame(MessageType::Binary, &[1; 125], 200)[..2], [130, 125]);
}

#[test]
fn medium_frames() {
    let bytes = frame(MessageType::Binary, &[9; 126], 130);
    assert_eq!(bytes[..5], [130, 126, 0, 126, 9]);
    assert_eq!(bytes.len(), 130);
    let bytes = frame(MessageType::Binary, &[9; 65534], 70000);
    assert_eq!(bytes[..5], [130, 126, 0xff, 0xfe, 9]);
    assert_eq!(bytes.len(), 65538);
}

#[test]
fn long_frames() {
    let bytes = frame(MessageType::Text, &[65; 65535], 70000);
    assert_eq!(bytes[..11], [129, 127, 0, 0, 0, 0, 0, 0, 0xff, 0xff, 65]);
    assert_eq!(bytes.len(), 65545);
    let bytes = frame(MessageType::Text, &[65; 0x12345], 100000);
    assert_eq!(bytes[..10], [129, 127, 0, 0, 0, 0, 0, 1, 0x23, 0x45]);
}

#[test]
fn rest_of_the_buffer_stays() {
    let mut to_buf = [5_u8; 6];
    assert_eq!(write_to_websocket(MessageType::Binary, &[1, 2], &mut to_buf), 4);
    assert_eq!(to_buf, [130, 2, 1, 2, 5, 5]);
}

#[test]
fn commands_become_messages() {
    assert_eq!(OPEN_STREAM_COMMAND, "open");
    assert_eq!(CLOSE_STREAM_COMMAND, "close");
    let mut to_buf = vec![0_u8; 64];
    assert_eq!(write_to_websocket_step(Some(TunnelCommand::Open), &mut to_buf), WriterStep::Send(6));
    assert_eq!(to_buf[..6], *b"\x81\x04open");
    assert_eq!(write_to_websocket_step(Some(TunnelCommand::Close), &mut to_buf), WriterStep::Send(7));
    assert_eq!(to_buf[..7], *b"\x81\x05close");
    let bytes = TunnelCommand::Tx(vec![1, 2, 3]);
    assert_eq!(write_to_websocket_step(Some(bytes), &mut to_buf), WriterStep::Send(5));
    assert_eq!(to_buf[..5], [130, 3, 1, 2, 3]);
}

#[test]
fn writer_ends() {
    let mut to_buf = vec![3_u8; 2];
    assert_eq!(
        write_to_websocket_step(Some(TunnelCommand::ClientDisconnected), &mut to_buf),
        WriterStep::Stop
    );
    assert_eq!(write_to_websocket_step(None, &mut to_buf), WriterStep::Stop);
    assert_eq!(to_buf, [3, 3]);
}

#[test]
fn everything_that_is_read_fits() {
    let mut to_buf = vec![0_u8; WEBSOCKET_BUF_LEN];
    let bytes = TunnelCommand::Tx(vec![1; TUNNEL_BUF_LEN]);
    assert_eq!(write_to_websocket_step(Some(bytes), &mut to_buf), WriterStep::Send(4004));
}

#[test]
fn wire_is_unambiguous() {
    let one: Vec<u8> = [frame(MessageType::Binary, &[1, 2], 10), frame(MessageType::Binary, &[3], 10)].concat();
    let other = frame(MessageType::Binary, &[1, 2, 3], 10);
    assert_ne!(one, other);
    assert_ne!(frame(MessageType::Text, &[1], 10), frame(MessageType::Binary, &[1], 10));
}

#[test]
fn room_for_a_frame() {
    for (len, needed) in [(0, 2), (125, 127), (126, 130), (65534, 65538), (65535, 65545)] {
        let payload = vec![1; len];
        assert!(frame_fits(MessageType::Binary, &payload, needed));
        assert!(!frame_fits(MessageType::Text, &payload, needed - 1));
        assert_eq!(frame(MessageType::Ping, &payload, needed).len(), needed);
    }
}

#[test]
fn writer_sends_the_frames_of_its_messages() {
    let received = vec![
        Some(TunnelCommand::Open),
        Some(TunnelCommand::Tx(vec![7; 200])),
        Some(TunnelCommand::Tx(vec![])),
        Some(TunnelCommand::Close),
        Some(TunnelCommand::ClientDisconnected),
        Some(TunnelCommand::Open),
    ];
    let mut to_buf = vec![0_u8; 300];
    let mut sent = Vec::new();
    for command in received {
        match write_to_websocket_step(command, &mut to_buf) {
            WriterStep::Send(len) => sent.extend_from_slice(&to_buf[..len]),
            WriterStep::Stop => break,
        }
    }
    let expected = [
        frame(MessageType::Text, b"open", 300),
        frame(MessageType::Binary, &[7; 200], 300),
        frame(MessageType::Binary, &[], 300),
        frame(MessageType::Text, b"close", 300),
    ]
    .concat();
    assert_eq!(sent, expected);
}
