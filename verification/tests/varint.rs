use bytes::BytesMut;
use minecraft_server::error::{ErrorKind, MinecraftError, VarIntError};
use minecraft_server::packet::reader::PacketReader;

fn encode(value: i32) -> Vec<u8> {
    let mut buf = BytesMut::new();
    PacketReader::write_varint(&mut buf, value);
    buf[..].to_vec()
}

fn decode(bytes: &[u8]) -> Result<(i32, usize), MinecraftError> {
    let mut cursor = bytes;
    let value = PacketReader::read_varint(&mut cursor)?;
    Ok((value, bytes.len() - cursor.len()))
}

#[test]
fn varint_round_trip_at_boundaries() {
    let values = [
        0,
        127,
        128,
        16383,
        16384,
        2097151,
        2097152,
        268435455,
        268435456,
        i32::MAX,
    ];
    for v in values {
        let bytes = encode(v);
        assert_eq!(decode(&bytes).unwrap(), (v, bytes.len()));
        assert_eq!(PacketReader::get_varint_size(v), bytes.len());
    }
}

#[test]
fn varint_round_trip_of_negative_values() {
    for v in [-1, -2, -128, -129, i32::MIN, i32::MIN + 1] {
        let bytes = encode(v);
        assert_eq!(bytes.len(), 5);
        assert_eq!(decode(&bytes).unwrap(), (v, 5));
        assert_eq!(PacketReader::get_varint_size(v), 5);
    }
}

#[test]
fn varint_exact_encodings() {
    assert_eq!(encode(0), vec![0x00]);
    assert_eq!(encode(1), vec![0x01]);
    assert_eq!(encode(127), vec![0x7f]);
    assert_eq!(encode(128), vec![0x80, 0x01]);
    assert_eq!(encode(255), vec![0xff, 0x01]);
    assert_eq!(encode(300), vec![0xac, 0x02]);
    assert_eq!(encode(25565), vec![0xdd, 0xc7, 0x01]);
    assert_eq!(encode(2097151), vec![0xff, 0xff, 0x7f]);
    assert_eq!(encode(i32::MAX), vec![0xff, 0xff, 0xff, 0xff, 0x07]);
    assert_eq!(encode(-1), vec![0xff, 0xff, 0xff, 0xff, 0x0f]);
    assert_eq!(encode(i32::MIN), vec![0x80, 0x80, 0x80, 0x80, 0x08]);
}

#[test]
fn varint_sizes() {
    assert_eq!(PacketReader::get_varint_size(0), 1);
    assert_eq!(PacketReader::get_varint_size(127), 1);
    assert_eq!(PacketReader::get_varint_size(128), 2);
    assert_eq!(PacketReader::get_varint_size(16383), 2);
    assert_eq!(PacketReader::get_varint_size(16384), 3);
    assert_eq!(PacketReader::get_varint_size(2097151), 3);
    assert_eq!(PacketReader::get_varint_size(2097152), 4);
    assert_eq!(PacketReader::get_varint_size(268435455), 4);
    assert_eq!(PacketReader::get_varint_size(268435456), 5);
    assert_eq!(PacketReader::get_varint_size(-1), 5);
}

#[test]
fn varint_write_appends() {
    let mut buf = BytesMut::new();
    buf.extend_from_slice(&[9, 9]);
    PacketReader::write_varint(&mut buf, 300);
    assert_eq!(&buf[..], &[9, 9, 0xac, 0x02]);
}

#[test]
fn varint_six_continuation_bytes_are_oversized() {
    let data = [0xffu8; 6];
    let mut cursor = &data[..];
    let err = PacketReader::read_varint(&mut cursor).unwrap_err();
    assert!(matches!(
        err,
        MinecraftError::VarInt(VarIntError::Oversized)
    ));
    assert_eq!(err.kind(), ErrorKind::VarIntOversized);
    assert_eq!(cursor.len(), 6);
}

#[test]
fn varint_five_continuation_bytes_are_oversized() {
    let data = [0x80u8; 5];
    let mut cursor = &data[..];
    let err = PacketReader::read_varint(&mut cursor).unwrap_err();
    assert!(matches!(
        err,
        MinecraftError::VarInt(VarIntError::Oversized)
    ));
    assert_eq!(cursor, &data[..]);
}

#[test]
fn varint_truncated_encoding_is_incomplete() {
    for v in [128, 16384, 2097152, 268435456, i32::MAX, -1] {
        let mut bytes = encode(v);
        bytes.pop();
        let mut cursor = &bytes[..];
        let err = PacketReader::read_varint(&mut cursor).unwrap_err();
        assert!(matches!(
            err,
            MinecraftError::VarInt(VarIntError::Incomplete)
        ));
        assert_eq!(err.kind(), ErrorKind::VarIntIncomplete);
        assert_eq!(cursor, &bytes[..]);
    }
}

#[test]
fn varint_empty_input_is_incomplete() {
    let mut cursor: &[u8] = &[];
    let err = PacketReader::read_varint(&mut cursor).unwrap_err();
    assert!(matches!(
        err,
        MinecraftError::VarInt(VarIntError::Incomplete)
    ));
}

#[test]
fn varint_read_takes_only_its_bytes() {
    let data = [0xac, 0x02, 0x55, 0x66];
    let mut cursor = &data[..];
    assert_eq!(PacketReader::read_varint(&mut cursor).unwrap(), 300);
    assert_eq!(cursor, &[0x55, 0x66]);
}

#[test]
fn varint_longer_than_needed_is_read() {
    let data = [0x80, 0x80, 0x00, 0x01];
    let mut cursor = &data[..];
    assert_eq!(PacketReader::read_varint(&mut cursor).unwrap(), 0);
    assert_eq!(cursor, &[0x01]);
}

#[test]
fn varint_fifth_byte_is_cut_to_32_bits() {
    let data = [0xff, 0xff, 0xff, 0xff, 0x7f];
    let mut cursor = &data[..];
    assert_eq!(PacketReader::read_varint(&mut cursor).unwrap(), -1);
    assert!(cursor.is_empty());
}

#[test]
fn varint_encoding_is_the_shortest() {
    for v in [0, 1, 127, 128, 300, 16384, 2097152, 268435456, i32::MAX, -1, i32::MIN] {
        let bytes = encode(v);
        let last = bytes.len() - 1;
        assert!(bytes[last] < 128);
        assert!(bytes[..last].iter().all(|b| *b >= 128));
        assert!(bytes.len() == 1 || bytes[last] != 0);
        // The same value with a needless digit is read, and is longer.
        if bytes.len() < 5 {
            let mut padded = bytes.clone();
            padded[last] |= 0x80;
            padded.push(0);
            assert_eq!(decode(&padded).unwrap(), (v, bytes.len() + 1));
        }
    }
}
