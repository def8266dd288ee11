use bytes::BytesMut;
use minecraft_server::connection::{Connection, ConnectionState, ServerData};
use minecraft_server::error::{ErrorKind, MinecraftError, VarIntError};
use minecraft_server::packet::frame::{frame_packet, next_frame};
use minecraft_server::registry::manager::RegistryManager;
use minecraft_server::registry::RegistryData;
use minecraft_server::tag::TagData;

fn server() -> ServerData {
    ServerData {
        registry: RegistryManager::new(RegistryData::default()),
        tags: TagData::default(),
    }
}

fn handshake_frame(next_state: u8) -> Vec<u8> {
    let mut body = vec![0x00, 0xff, 0x05, 9];
    body.extend_from_slice(b"localhost");
    body.extend_from_slice(&[0x63, 0xdd, next_state]);
    let mut frame = vec![body.len() as u8];
    frame.extend_from_slice(&body);
    frame
}

#[test]
fn whole_frame_is_found() {
    let data = [3, 0x05, 0xaa, 0xbb, 0x77];
    let frame = next_frame(&data).unwrap().unwrap();
    assert_eq!(frame.packet_id, 5);
    assert_eq!(frame.payload, &[0xaa, 0xbb]);
    assert_eq!(frame.total_size, 4);
}

#[test]
fn frame_with_an_empty_payload_is_found() {
    let data = [1, 0x03];
    let frame = next_frame(&data).unwrap().unwrap();
    assert_eq!(frame.packet_id, 3);
    assert!(frame.payload.is_empty());
    assert_eq!(frame.total_size, 2);
}

#[test]
fn empty_input_is_no_frame_yet() {
    assert!(next_frame(&[]).unwrap().is_none());
}

#[test]
fn cut_length_is_no_frame_yet() {
    assert!(next_frame(&[0x80]).unwrap().is_none());
    assert!(next_frame(&[0x80, 0x80, 0x80, 0x80]).unwrap().is_none());
}

#[test]
fn cut_body_is_no_frame_yet() {
    assert!(next_frame(&[3, 0x05, 0xaa]).unwrap().is_none());
    assert!(next_frame(&[3]).unwrap().is_none());
}

#[test]
fn oversized_length_is_refused() {
    let err = next_frame(&[0xff, 0xff, 0xff, 0xff, 0xff, 0x01]).err().unwrap();
    assert!(matches!(
        err,
        MinecraftError::VarInt(VarIntError::Oversized)
    ));
}

#[test]
fn negative_length_is_refused() {
    let err = next_frame(&[0xff, 0xff, 0xff, 0xff, 0x0f, 0x00]).err().unwrap();
    assert_eq!(err.kind(), ErrorKind::Protocol);
}

#[test]
fn frame_of_length_zero_has_no_packet_id() {
    let err = next_frame(&[0, 5, 5]).err().unwrap();
    assert!(matches!(
        err,
        MinecraftError::VarInt(VarIntError::Incomplete)
    ));
}

#[test]
fn frame_with_a_cut_packet_id_is_refused() {
    let err = next_frame(&[1, 0x80, 0x01]).err().unwrap();
    assert_eq!(err.kind(), ErrorKind::VarIntIncomplete);
}

#[test]
fn body_starts_after_the_shortest_length() {
    // The length 2 written in two bytes: the body is taken to start after one.
    let data = [0x82, 0x00, 0x07, 0x09];
    let frame = next_frame(&data).unwrap().unwrap();
    assert_eq!(frame.packet_id, 0);
    assert_eq!(frame.payload, &[0x07]);
    assert_eq!(frame.total_size, 3);
}

#[test]
fn frame_packet_puts_the_length_in_front() {
    let mut content = BytesMut::new();
    content.extend_from_slice(&[1, 2, 3]);
    let packet = frame_packet(&content);
    assert_eq!(&packet[..], &[3, 1, 2, 3]);
    let empty = BytesMut::new();
    assert_eq!(&frame_packet(&empty)[..], &[0]);
}

#[test]
fn frame_packet_of_a_long_body() {
    let mut content = BytesMut::new();
    content.extend_from_slice(&[7u8; 300]);
    let packet = frame_packet(&content);
    assert_eq!(&packet[..2], &[0xac, 0x02]);
    assert_eq!(packet.len(), 302);
    let frame = next_frame(&packet).unwrap().unwrap();
    assert_eq!(frame.packet_id, 7);
    assert_eq!(frame.payload.len(), 299);
    assert_eq!(frame.total_size, 302);
}

#[test]
fn frame_cut_at_every_offset_is_handled_as_one() {
    let server = server();
    let mut whole_connection = Connection::new();
    let mut whole_buffer = BytesMut::new();
    let mut whole_out = BytesMut::new();
    let frame = handshake_frame(2);
    let result = whole_connection
        .handle_read(&mut whole_buffer, &frame, &server, &mut whole_out)
        .unwrap();
    assert!(result);
    assert_eq!(whole_connection.state(), ConnectionState::Login);

    for cut in 0..frame.len() {
        let mut connection = Connection::new();
        let mut buffer = BytesMut::new();
        let mut out = BytesMut::new();
        let first = connection
            .handle_read(&mut buffer, &frame[..cut], &server, &mut out)
            .unwrap();
        assert!(first);
        assert_eq!(connection.state(), ConnectionState::Handshake);
        assert_eq!(&buffer[..], &frame[..cut]);
        assert!(out.is_empty());

        let second = connection
            .handle_read(&mut buffer, &frame[cut..], &server, &mut out)
            .unwrap();
        assert_eq!(second, result);
        assert_eq!(connection.state(), whole_connection.state());
        assert_eq!(&buffer[..], &whole_buffer[..]);
        assert_eq!(&out[..], &whole_out[..]);
    }
}

#[test]
fn answered_frame_cut_at_every_offset_is_answered_as_one() {
    let server = server();
    let mut input = handshake_frame(2);
    input.extend_from_slice(&[6, 0x00, 4, b'A', b'l', b'i', b'c']);
    // The second frame is a login start for "Alic".
    let mut whole_connection = Connection::new();
    let mut whole_buffer = BytesMut::new();
    let mut whole_out = BytesMut::new();
    whole_connection
        .handle_read(&mut whole_buffer, &input, &server, &mut whole_out)
        .unwrap();
    assert!(!whole_out.is_empty());

    for cut in 0..=input.len() {
        let mut connection = Connection::new();
        let mut buffer = BytesMut::new();
        let mut out = BytesMut::new();
        connection
            .handle_read(&mut buffer, &input[..cut], &server, &mut out)
            .unwrap();
        connection
            .handle_read(&mut buffer, &input[cut..], &server, &mut out)
            .unwrap();
        assert_eq!(connection.state(), whole_connection.state());
        assert_eq!(&buffer[..], &whole_buffer[..]);
        assert_eq!(&out[..], &whole_out[..]);
    }
}

#[test]
fn truncated_frame_keeps_its_bytes() {
    let server = server();
    let frame = handshake_frame(1);
    let mut connection = Connection::new();
    let mut buffer = BytesMut::new();
    let mut out = BytesMut::new();
    buffer.extend_from_slice(&frame[..5]);
    assert!(connection
        .handle_packet(&mut buffer, &server, &mut out)
        .unwrap());
    assert_eq!(&buffer[..], &frame[..5]);
    assert_eq!(connection.state(), ConnectionState::Handshake);
    buffer.extend_from_slice(&frame[5..]);
    assert!(connection
        .handle_packet(&mut buffer, &server, &mut out)
        .unwrap());
    assert!(buffer.is_empty());
    assert_eq!(connection.state(), ConnectionState::Status);
}

#[test]
fn several_frames_of_one_read_are_all_handled() {
    let server = server();
    let mut input = handshake_frame(1);
    input.extend_from_slice(&[1, 0x00]);
    input.extend_from_slice(&[9, 0x01, 0, 0, 0, 0, 0, 0, 0x12, 0x34]);
    input.extend_from_slice(&[1, 0x00]);
    let mut connection = Connection::new();
    let mut buffer = BytesMut::new();
    let mut out = BytesMut::new();
    let keep_open = connection
        .handle_read(&mut buffer, &input, &server, &mut out)
        .unwrap();
    assert!(!keep_open);
    // What follows the ping stays in the buffer.
    assert_eq!(&buffer[..], &[1, 0x00]);
    assert_eq!(&out[out.len() - 10..], &[9, 0x01, 0, 0, 0, 0, 0, 0, 0x12, 0x34]);
}

#[test]
fn frame_is_taken_and_the_rest_stays() {
    let server = server();
    let mut connection = Connection::new();
    let mut buffer = BytesMut::new();
    let mut out = BytesMut::new();
    buffer.extend_from_slice(&handshake_frame(1));
    buffer.extend_from_slice(&[1, 0x00, 0x55]);
    assert!(connection
        .handle_packet(&mut buffer, &server, &mut out)
        .unwrap());
    assert_eq!(&buffer[..], &[1, 0x00, 0x55]);
}

#[test]
fn refused_bytes_fail_the_read_and_keep_earlier_answers() {
    let server = server();
    let mut input = handshake_frame(1);
    input.extend_from_slice(&[1, 0x00]);
    input.extend_from_slice(&[0xff, 0xff, 0xff, 0xff, 0xff]);
    let mut connection = Connection::new();
    let mut buffer = BytesMut::new();
    let mut out = BytesMut::new();
    let err = connection
        .handle_read(&mut buffer, &input, &server, &mut out)
        .unwrap_err();
    assert_eq!(err.kind(), ErrorKind::VarIntOversized);
    assert!(!out.is_empty());
    assert_eq!(&buffer[..], &[0xff, 0xff, 0xff, 0xff, 0xff]);
    assert_eq!(connection.state(), ConnectionState::Status);
}
