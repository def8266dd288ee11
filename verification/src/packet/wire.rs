//! The wire form of the fields that packets are made of.

use crate::error::ErrorKind;
use crate::packet::varint::{lemma_varint_round_trip, varint_bytes, varint_decode, varint_size};
use crate::text::split_first;
use vstd::prelude::*;
use vstd::utf8::{
    decode_utf8, encode_utf8, encode_utf8_decode_utf8, encode_utf8_valid_utf8, valid_utf8,
};

verus! {

/// What a spec-level read gives: what was read, or the kind of failure.
pub type Decoded<T> = Result<T, ErrorKind>;

/// The number that `bytes` spell in base 256, highest digit first.
pub open spec fn be_value(bytes: Seq<u8>) -> nat
    decreases bytes.len(),
{
    if bytes.len() == 0 {
        0
    } else {
        256 * be_value(bytes.drop_last()) + bytes.last() as nat
    }
}

/// The `count` lowest base-256 digits of `value`, highest first.
pub open spec fn be_bytes(value: nat, count: nat) -> Seq<u8>
    decreases count,
{
    if count == 0 {
        Seq::empty()
    } else {
        be_bytes(value / 256, (count - 1) as nat).push((value % 256) as u8)
    }
}

/// The signed byte with the bits of `byte`.
pub open spec fn signed_byte(byte: u8) -> i8 {
    if byte < 0x80 {
        byte as i8
    } else {
        (byte - 0x100) as i8
    }
}

/// The signed 64-bit value whose bits are the low 64 bits of `word`.
pub open spec fn long_of(word: nat) -> i64 {
    let low = word % 0x1_0000_0000_0000_0000;
    if low < 0x8000_0000_0000_0000 {
        low as i64
    } else {
        (low - 0x1_0000_0000_0000_0000) as i64
    }
}

/// The unsigned 64-bit word with the bits of `value`.
pub open spec fn word_of_long(value: i64) -> nat {
    if value >= 0 {
        value as nat
    } else {
        (value + 0x1_0000_0000_0000_0000) as nat
    }
}

/// The eight bytes of a signed 64-bit value, highest first.
pub open spec fn long_bytes(value: i64) -> Seq<u8> {
    be_bytes(word_of_long(value), 8)
}

/// The length prefix that a field of `len` bytes gets: `len` as a signed
/// 32-bit value, cut to 32 bits where it is larger.
pub open spec fn length_prefix(len: nat) -> Seq<u8> {
    varint_bytes(len as i32)
}

/// A string on the wire: the number of its UTF-8 bytes, then the bytes.
pub open spec fn string_bytes(text: Seq<char>) -> Seq<u8> {
    length_prefix(encode_utf8(text).len()) + encode_utf8(text)
}

/// An identifier on the wire: `namespace:path` as a string.
pub open spec fn identifier_bytes(namespace: Seq<char>, path: Seq<char>) -> Seq<u8> {
    string_bytes(namespace.push(':') + path)
}

/// Reads a variable-length integer from the head of `bytes`: the value and
/// the number of bytes that it occupies.
pub open spec fn varint_field(bytes: Seq<u8>) -> Decoded<(i32, nat)> {
    match varint_decode(bytes) {
        Ok(found) => Ok(found),
        Err(e) => Err(e.kind()),
    }
}

/// Reads `count` bytes from the head of `bytes`.
pub open spec fn fixed_field(bytes: Seq<u8>, count: nat) -> Decoded<(Seq<u8>, nat)> {
    if bytes.len() < count {
        Err(ErrorKind::BufferUnderrun)
    } else {
        Ok((bytes.subrange(0, count as int), count))
    }
}

/// Reads a string from the head of `bytes`: the text and the number of bytes
/// that the field occupies.
pub open spec fn string_decode(bytes: Seq<u8>) -> Decoded<(Seq<char>, nat)> {
    match varint_decode(bytes) {
        Err(e) => Err(e.kind()),
        Ok((length, used)) => {
            if length < 0 {
                Err(ErrorKind::Protocol)
            } else if bytes.len() - used < length {
                Err(ErrorKind::BufferUnderrun)
            } else {
                let raw = bytes.subrange(used as int, used + length);
                if valid_utf8(raw) {
                    Ok((decode_utf8(raw), (used + length) as nat))
                } else {
                    Err(ErrorKind::Utf8Decode)
                }
            }
        },
    }
}

/// Reads an identifier from the head of `bytes`: a string, cut at its first
/// colon into namespace and path. A string without a colon is no identifier.
pub open spec fn identifier_decode(bytes: Seq<u8>) -> Decoded<((Seq<char>, Seq<char>), nat)> {
    match string_decode(bytes) {
        Err(kind) => Err(kind),
        Ok((text, used)) => match split_first(text, ':') {
            Some(parts) => Ok((parts, used)),
            None => Err(ErrorKind::Protocol),
        },
    }
}

/// Bytes appended in two steps are the bytes appended in one.
pub proof fn lemma_concat_assoc(a: Seq<u8>, b: Seq<u8>, c: Seq<u8>)
    ensures
        a + b + c == a + (b + c),
{
    assert(a + b + c =~= a + (b + c));
}

/// The base-256 value of `bytes` is below 256 to the power of their number.
pub proof fn lemma_be_value_bound(bytes: Seq<u8>)
    ensures
        bytes.len() == 1 ==> be_value(bytes) == bytes[0],
        bytes.len() == 2 ==> be_value(bytes) == 256 * bytes[0] + bytes[1],
        bytes.len() == 8 ==> be_value(bytes) < 0x1_0000_0000_0000_0000,
{
    reveal_with_fuel(be_value, 9);
    if bytes.len() == 2 {
        assert(bytes.drop_last()[0] == bytes[0]);
    }
    if bytes.len() == 8 {
        let b7 = bytes.drop_last();
        let b6 = b7.drop_last();
        let b5 = b6.drop_last();
        let b4 = b5.drop_last();
        let b3 = b4.drop_last();
        let b2 = b3.drop_last();
        let b1 = b2.drop_last();
        assert(be_value(b1) < 0x100);
        assert(be_value(b2) < 0x1_0000);
        assert(be_value(b3) < 0x100_0000);
        assert(be_value(b4) < 0x1_0000_0000);
        assert(be_value(b5) < 0x100_0000_0000);
        assert(be_value(b6) < 0x1_0000_0000_0000);
        assert(be_value(b7) < 0x100_0000_0000_0000);
    }
}

/// Writing the digits of the value that `bytes` spell gives `bytes` back.
pub proof fn lemma_be_bytes_of_value(bytes: Seq<u8>)
    ensures
        be_bytes(be_value(bytes), bytes.len()) == bytes,
    decreases bytes.len(),
{
    if bytes.len() > 0 {
        let front = bytes.drop_last();
        lemma_be_bytes_of_value(front);
        let v = be_value(bytes);
        assert(v / 256 == be_value(front));
        assert(v % 256 == bytes.last());
        assert(be_bytes(v, bytes.len()) =~= bytes);
    } else {
        assert(be_bytes(be_value(bytes), bytes.len()) =~= bytes);
    }
}

/// A signed 64-bit value is written as eight bytes.
pub proof fn lemma_long_bytes_len(value: i64)
    ensures
        long_bytes(value).len() == 8,
{
    reveal_with_fuel(be_bytes, 9);
}

/// A signed 64-bit value read from eight bytes is written as the same bytes.
pub proof fn lemma_long_round_trip(bytes: Seq<u8>)
    requires
        bytes.len() == 8,
    ensures
        long_bytes(long_of(be_value(bytes))) == bytes,
{
    lemma_be_value_bound(bytes);
    lemma_be_bytes_of_value(bytes);
}

/// A string round-trips: reading what was written gives the text and the
/// number of bytes written, whatever follows. The text must be short enough
/// for its length to be a signed 32-bit value.
pub proof fn lemma_string_round_trip(text: Seq<char>, rest: Seq<u8>)
    requires
        encode_utf8(text).len() <= i32::MAX,
    ensures
        string_decode(string_bytes(text) + rest) == Ok::<(Seq<char>, nat), ErrorKind>(
            (text, string_bytes(text).len()),
        ),
{
    let raw = encode_utf8(text);
    let length = raw.len() as i32;
    let bytes = string_bytes(text) + rest;
    assert(bytes =~= varint_bytes(length) + (raw + rest));
    lemma_varint_round_trip(length, raw + rest);
    let used = varint_size(length);
    assert(bytes.subrange(used as int, used + length) =~= raw);
    encode_utf8_valid_utf8(text);
    encode_utf8_decode_utf8(text);
}

/// A string that announces more bytes than follow is refused as an underrun.
pub proof fn lemma_string_underrun(length: i32, rest: Seq<u8>)
    requires
        0 <= rest.len() < length,
    ensures
        string_decode(varint_bytes(length) + rest) == Err::<(Seq<char>, nat), ErrorKind>(
            ErrorKind::BufferUnderrun,
        ),
{
    lemma_varint_round_trip(length, rest);
}

/// Two bytes spell the 16-bit value that was written as them.
pub proof fn lemma_short_round_trip(value: u16)
    ensures
        be_bytes(value as nat, 2).len() == 2,
        be_value(be_bytes(value as nat, 2)) == value,
{
    reveal_with_fuel(be_bytes, 3);
    reveal_with_fuel(be_value, 3);
    let bytes = be_bytes(value as nat, 2);
    assert(bytes.drop_last() =~= be_bytes(value as nat / 256, 1));
    assert(bytes.drop_last().drop_last() =~= Seq::<u8>::empty());
}

} // verus!
