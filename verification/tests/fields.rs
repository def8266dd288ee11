use bytes::BytesMut;
use minecraft_server::error::{ErrorKind, MinecraftError};
use minecraft_server::packet::reader::PacketReader;

#[test]
fn string_is_read() {
    let data = [5, b'h', b'e', b'l', b'l', b'o', 7];
    let mut cursor = &data[..];
    assert_eq!(PacketReader::read_string(&mut cursor).unwrap(), "hello");
    assert_eq!(cursor, &[7]);
}

#[test]
fn empty_string_is_read() {
    let data = [0, 7];
    let mut cursor = &data[..];
    assert_eq!(PacketReader::read_string(&mut cursor).unwrap(), "");
    assert_eq!(cursor, &[7]);
}

#[test]
fn string_of_several_bytes_a_character_is_read() {
    let text = "gr\u{fc}\u{df}e \u{4e16}\u{754c}";
    let mut data = vec![text.len() as u8];
    data.extend_from_slice(text.as_bytes());
    let mut cursor = &data[..];
    assert_eq!(PacketReader::read_string(&mut cursor).unwrap(), text);
    assert!(cursor.is_empty());
}

#[test]
fn string_longer_than_the_input_is_an_underrun() {
    let data = [10, b'a', b'b', b'c'];
    let mut cursor = &data[..];
    let err = PacketReader::read_string(&mut cursor).unwrap_err();
    assert!(matches!(err, MinecraftError::BufferUnderrun(_)));
    assert_eq!(err.kind(), ErrorKind::BufferUnderrun);
    assert_eq!(cursor, &data[..]);
}

#[test]
fn string_of_negative_length_is_refused() {
    let data = [0xff, 0xff, 0xff, 0xff, 0x0f, b'a'];
    let mut cursor = &data[..];
    let err = PacketReader::read_string(&mut cursor).unwrap_err();
    assert!(matches!(err, MinecraftError::Protocol(_)));
    assert_eq!(err.kind(), ErrorKind::Protocol);
    assert_eq!(cursor, &data[..]);
}

#[test]
fn string_that_is_not_utf8_is_refused() {
    let data = [2, 0xc3, 0x28, 1];
    let mut cursor = &data[..];
    let err = PacketReader::read_string(&mut cursor).unwrap_err();
    assert!(matches!(err, MinecraftError::Utf8(_)));
    assert_eq!(err.kind(), ErrorKind::Utf8Decode);
    assert_eq!(cursor, &data[..]);
}

#[test]
fn string_with_a_cut_length_is_incomplete() {
    let data = [0x80];
    let mut cursor = &data[..];
    let err = PacketReader::read_string(&mut cursor).unwrap_err();
    assert_eq!(err.kind(), ErrorKind::VarIntIncomplete);
    assert_eq!(cursor, &data[..]);
}

#[test]
fn signed_byte_is_read() {
    let data = [0x7f, 0x80, 0xff, 0x00];
    let mut cursor = &data[..];
    assert_eq!(PacketReader::read_byte(&mut cursor).unwrap(), 127);
    assert_eq!(PacketReader::read_byte(&mut cursor).unwrap(), -128);
    assert_eq!(PacketReader::read_byte(&mut cursor).unwrap(), -1);
    assert_eq!(PacketReader::read_byte(&mut cursor).unwrap(), 0);
    let err = PacketReader::read_byte(&mut cursor).unwrap_err();
    assert!(matches!(err, MinecraftError::BufferUnderrun(_)));
}

#[test]
fn unsigned_byte_is_read() {
    let data = [0xfe, 3];
    let mut cursor = &data[..];
    assert_eq!(PacketReader::read_unsigned_byte(&mut cursor).unwrap(), 254);
    assert_eq!(cursor, &[3]);
    assert_eq!(PacketReader::read_unsigned_byte(&mut cursor).unwrap(), 3);
    let err = PacketReader::read_unsigned_byte(&mut cursor).unwrap_err();
    assert!(matches!(err, MinecraftError::BufferUnderrun(_)));
}

#[test]
fn boolean_is_read() {
    let data = [0, 1, 2, 0xff];
    let mut cursor = &data[..];
    assert!(!PacketReader::read_boolean(&mut cursor).unwrap());
    assert!(PacketReader::read_boolean(&mut cursor).unwrap());
    assert!(PacketReader::read_boolean(&mut cursor).unwrap());
    assert!(PacketReader::read_boolean(&mut cursor).unwrap());
    let err = PacketReader::read_boolean(&mut cursor).unwrap_err();
    assert!(matches!(err, MinecraftError::BufferUnderrun(_)));
}

#[test]
fn unsigned_short_is_read_high_byte_first() {
    let data = [0x63, 0xdd, 0xff, 0xff, 0x01];
    let mut cursor = &data[..];
    assert_eq!(PacketReader::read_unsigned_short(&mut cursor).unwrap(), 25565);
    assert_eq!(PacketReader::read_unsigned_short(&mut cursor).unwrap(), 65535);
    let err = PacketReader::read_unsigned_short(&mut cursor).unwrap_err();
    assert!(matches!(err, MinecraftError::BufferUnderrun(_)));
    assert_eq!(cursor, &[0x01]);
}

#[test]
fn long_is_read_high_byte_first() {
    let data = [0x01, 0x02, 0x03, 0x04, 0x05, 0x06, 0x07, 0x08, 0x09];
    let mut cursor = &data[..];
    assert_eq!(
        PacketReader::read_long(&mut cursor).unwrap(),
        0x0102030405060708
    );
    assert_eq!(cursor, &[0x09]);
}

#[test]
fn long_may_be_negative() {
    let data = [0xff; 8];
    let mut cursor = &data[..];
    assert_eq!(PacketReader::read_long(&mut cursor).unwrap(), -1);
    let data = [0x80, 0, 0, 0, 0, 0, 0, 0];
    let mut cursor = &data[..];
    assert_eq!(PacketReader::read_long(&mut cursor).unwrap(), i64::MIN);
}

#[test]
fn long_of_seven_bytes_is_an_underrun() {
    let data = [1u8; 7];
    let mut cursor = &data[..];
    let err = PacketReader::read_long(&mut cursor).unwrap_err();
    assert!(matches!(err, MinecraftError::BufferUnderrun(_)));
    assert_eq!(cursor.len(), 7);
}

#[test]
fn plugin_message_takes_all_that_is_left() {
    let mut data = vec![15];
    data.extend_from_slice(b"minecraft:brand");
    data.extend_from_slice(&[7, b'v', b'a', b'n', b'i', b'l', b'l', b'a']);
    let mut cursor = &data[..];
    let (channel, payload) = PacketReader::read_plugin_message(&mut cursor).unwrap();
    assert_eq!(channel, "minecraft:brand");
    assert_eq!(payload, vec![7, b'v', b'a', b'n', b'i', b'l', b'l', b'a']);
    assert!(cursor.is_empty());
}

#[test]
fn plugin_message_without_a_channel_fails() {
    let data = [9, b'a'];
    let mut cursor = &data[..];
    let err = PacketReader::read_plugin_message(&mut cursor).unwrap_err();
    assert!(matches!(err, MinecraftError::BufferUnderrun(_)));
    assert_eq!(cursor, &data[..]);
}

#[test]
fn identifier_is_cut_at_its_colon() {
    let mut data = vec![19];
    data.extend_from_slice(b"minecraft:overworld");
    data.push(1);
    let mut cursor = &data[..];
    let (namespace, path) = PacketReader::read_identifier(&mut cursor).unwrap();
    assert_eq!(namespace, "minecraft");
    assert_eq!(path, "overworld");
    assert_eq!(cursor, &[1]);
}

#[test]
fn identifier_is_cut_once() {
    let mut data = vec![5];
    data.extend_from_slice(b"a:b:c");
    let mut cursor = &data[..];
    let (namespace, path) = PacketReader::read_identifier(&mut cursor).unwrap();
    assert_eq!(namespace, "a");
    assert_eq!(path, "b:c");
}

#[test]
fn identifier_without_a_colon_is_refused() {
    let mut data = vec![9];
    data.extend_from_slice(b"overworld");
    let mut cursor = &data[..];
    let err = PacketReader::read_identifier(&mut cursor).unwrap_err();
    assert!(matches!(err, MinecraftError::Protocol(_)));
    assert_eq!(cursor, &data[..]);
}

#[test]
fn string_is_written_with_its_length() {
    let mut buf = BytesMut::new();
    PacketReader::write_string(&mut buf, "hello");
    assert_eq!(&buf[..], b"\x05hello");
    PacketReader::write_string(&mut buf, "");
    assert_eq!(&buf[..], b"\x05hello\x00");
}

#[test]
fn string_length_counts_bytes() {
    let mut buf = BytesMut::new();
    PacketReader::write_string(&mut buf, "\u{fc}");
    assert_eq!(&buf[..], &[2, 0xc3, 0xbc]);
}

#[test]
fn long_string_gets_a_two_byte_length() {
    let text = "x".repeat(200);
    let mut buf = BytesMut::new();
    PacketReader::write_string(&mut buf, &text);
    assert_eq!(&buf[..2], &[0xc8, 0x01]);
    assert_eq!(buf.len(), 202);
    let mut cursor = &buf[..];
    assert_eq!(PacketReader::read_string(&mut cursor).unwrap(), text);
}

#[test]
fn identifier_is_written_with_a_colon() {
    let mut buf = BytesMut::new();
    PacketReader::write_identifier(&mut buf, "minecraft", "the_end");
    assert_eq!(&buf[..], b"\x11minecraft:the_end");
}

#[test]
fn written_identifier_is_read_back() {
    let mut buf = BytesMut::new();
    PacketReader::write_identifier(&mut buf, "minecraft", "worldgen/biome");
    let mut cursor = &buf[..];
    let (namespace, path) = PacketReader::read_identifier(&mut cursor).unwrap();
    assert_eq!(namespace, "minecraft");
    assert_eq!(path, "worldgen/biome");
    assert!(cursor.is_empty());
}
