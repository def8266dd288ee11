use crate::buffer::{buffer_bytes, put_u8};
use crate::error::{MinecraftError, Result, VarIntError};
use crate::packet::varint::{
    decode_word, encode_word, lemma_encode_word_len, lemma_varint_decode_used, varint_bytes,
    varint_decode, varint_size, MAX_VARINT_BYTES,
};
use crate::packet::wire::{
    be_value, fixed_field, identifier_bytes, identifier_decode, lemma_be_value_bound, long_of,
    signed_byte, string_bytes, string_decode,
};
use crate::text::{split_once, str_from_utf8};
use bytes::BytesMut;
use vstd::prelude::*;
use vstd::slice::{slice_subrange, slice_to_vec};
use vstd::string::StringExecFns;

verus! {

const SEGMENT_BITS: u8 = 0x7F;

const CONTINUE_BIT: u8 = 0x80;

/// Reads the fields of packets from byte slices and writes them to buffers.
///
/// A read takes a field off the head of a slice. A read that fails leaves the
/// slice as it was.
pub struct PacketReader;

/// 128 to the power `n`: the weight of the digit at place `n`.
spec fn pow128(n: nat) -> nat
    decreases n,
{
    if n == 0 {
        1
    } else {
        128 * pow128((n - 1) as nat)
    }
}

/// What a decoding that has read `place` digits worth `low` comes to, once
/// the remaining digits are decoded as `tail`.
spec fn resume_decode(
    tail: std::result::Result<(nat, nat), VarIntError>,
    low: nat,
    place: nat,
) -> std::result::Result<(nat, nat), VarIntError> {
    match tail {
        Ok((high, used)) => Ok((low + pow128(place) * high, used + place)),
        Err(e) => Err(e),
    }
}

/// Setting the seven bits of a digit above the digits read so far adds the
/// digit at its place; at the fifth place the sum is cut to 32 bits.
proof fn lemma_add_group(low: u32, byte: u8, place: nat)
    requires
        place < 5,
        low < pow128(place),
    ensures
        ({
            let sum = low | (((byte & 0x7F) as u32) << ((7 * place) as u32));
            &&& sum as int == (low + pow128(place) * (byte % 128)) % 0x1_0000_0000
            &&& place < 4 ==> sum == low + pow128(place) * (byte % 128) && sum < pow128(place + 1)
        }),
        (byte & 0x80 == 0) <==> byte < 128,
{
    reveal_with_fuel(pow128, 6);
    assert((byte & 0x80 == 0) <==> byte < 128) by (bit_vector);
    if place == 0 {
        assert((low | (((byte & 0x7F) as u32) << 0u32)) == byte % 128) by (bit_vector)
            requires
                low < 1,
        ;
    } else if place == 1 {
        assert({
            let sum = low | (((byte & 0x7F) as u32) << 7u32);
            sum == low + 0x80 * (byte % 128) && sum < 0x4000
        }) by (bit_vector)
            requires
                low < 0x80,
        ;
    } else if place == 2 {
        assert({
            let sum = low | (((byte & 0x7F) as u32) << 14u32);
            sum == low + 0x4000 * (byte % 128) && sum < 0x20_0000
        }) by (bit_vector)
            requires
                low < 0x4000,
        ;
    } else if place == 3 {
        assert({
            let sum = low | (((byte & 0x7F) as u32) << 21u32);
            sum == low + 0x20_0000 * (byte % 128) && sum < 0x1000_0000
        }) by (bit_vector)
            requires
                low < 0x20_0000,
        ;
    } else {
        assert((low | (((byte & 0x7F) as u32) << 28u32)) as int == (low + 0x1000_0000 * (byte % 128))
            % 0x1_0000_0000) by (bit_vector)
            requires
                low < 0x1000_0000,
        ;
    }
}

proof fn lemma_signed_cast(word: u32)
    by (bit_vector)
    ensures
        word < 0x8000_0000u32 ==> (word as i32) == word,
        word >= 0x8000_0000u32 ==> (word as i32) == word - 0x1_0000_0000,
{
}

proof fn lemma_unsigned_cast(value: i32)
    by (bit_vector)
    ensures
        value >= 0 ==> (value as u32) == value,
        value < 0 ==> (value as u32) == value + 0x1_0000_0000,
{
}

proof fn lemma_low_group(rest: u32)
    by (bit_vector)
    ensures
        ((rest & 0x7F) as u8) == rest % 128,
        (rest >> 7u32) == rest / 128,
        (((rest & 0x7F) as u8) | 0x80u8) == rest % 128 + 128,
{
}

proof fn lemma_signed_byte_cast(byte: u8)
    by (bit_vector)
    ensures
        byte < 0x80u8 ==> (byte as i8) == byte,
        byte >= 0x80u8 ==> (byte as i8) == byte - 0x100,
{
}

proof fn lemma_join_short(high: u8, low: u8)
    by (bit_vector)
    ensures
        (((high as u16) << 8u16) | (low as u16)) == 256 * high + low,
{
}

/// 256 to the power `n`.
spec fn pow256(n: nat) -> nat
    decreases n,
{
    if n == 0 {
        1
    } else {
        256 * pow256((n - 1) as nat)
    }
}

proof fn lemma_shift_in_byte(acc: u64, byte: u8)
    by (bit_vector)
    ensures
        ((acc << 8u64) | (byte as u64)) as int == (256 * acc + byte) % 0x1_0000_0000_0000_0000,
{
}

proof fn lemma_signed_cast_long(word: u64)
    by (bit_vector)
    ensures
        word < 0x8000_0000_0000_0000u64 ==> (word as i64) == word,
        word >= 0x8000_0000_0000_0000u64 ==> (word as i64) == word - 0x1_0000_0000_0000_0000,
{
}

impl PacketReader {
    /// Reads one variable-length integer from the head of `buffer`.
    ///
    /// On success the bytes of the value are taken off `buffer`. On failure
    /// `buffer` stays as it was, so that the same read can be made again when
    /// more input has come.
    pub fn read_varint(buffer: &mut &[u8]) -> (r: Result<i32>)
        ensures
            match varint_decode(old(buffer)@) {
                Ok((value, used)) => {
                    &&& r == Ok::<i32, MinecraftError>(value)
                    &&& final(buffer)@ == old(buffer)@.skip(used as int)
                },
                Err(e) => {
                    &&& r == Err::<i32, MinecraftError>(MinecraftError::VarInt(e))
                    &&& final(buffer)@ == old(buffer)@
                },
            },
    {
        let bytes: &[u8] = *buffer;
        let mut result: u32 = 0;
        let mut shift: u32 = 0;
        let mut index: usize = 0;
        proof {
            assert(bytes@.skip(0) =~= bytes@);
            assert(SEGMENT_BITS == 0x7F && CONTINUE_BIT == 0x80);
        }
        loop
            invariant
                bytes@ == old(buffer)@,
                *buffer == *old(buffer),
                index < MAX_VARINT_BYTES,
                index <= bytes@.len(),
                shift == 7 * index,
                result < pow128(index as nat),
                decode_word(bytes@, MAX_VARINT_BYTES as nat) == resume_decode(
                    decode_word(bytes@.skip(index as int), (MAX_VARINT_BYTES - index) as nat),
                    result as nat,
                    index as nat,
                ),
            decreases MAX_VARINT_BYTES - index,
        {
            if index >= bytes.len() {
                return Err(MinecraftError::VarInt(VarIntError::Incomplete));
            }
            let byte = bytes[index];
            let ghost low = result;
            let ghost place = index as nat;
            index += 1;
            result |= ((byte & SEGMENT_BITS) as u32) << shift;
            proof {
                let here = bytes@.skip(place as int);
                assert(here[0] == byte);
                assert(here.skip(1) =~= bytes@.skip(index as int));
                lemma_add_group(low, byte, place);
            }
            if byte & CONTINUE_BIT == 0 {
                proof {
                    lemma_signed_cast(result);
                    let word = low as nat + pow128(place) * (byte as nat);
                    assert(decode_word(bytes@, MAX_VARINT_BYTES as nat) == Ok::<
                        (nat, nat),
                        VarIntError,
                    >((word, index as nat)));
                }
                *buffer = slice_subrange(bytes, index, bytes.len());
                return Ok(#[verifier::truncate] (result as i32));
            }
            shift += 7;
            if shift >= 32 {
                return Err(MinecraftError::VarInt(VarIntError::Oversized));
            }
            proof {
                reveal_with_fuel(pow128, 2);
                let tail = decode_word(
                    bytes@.skip(index as int),
                    (MAX_VARINT_BYTES - index) as nat,
                );
                match tail {
                    Ok((high, used)) => {
                        assert(low as nat + pow128(place) * ((byte - 128 + 128 * high) as nat)
                            == result as nat + pow128(index as nat) * high) by (nonlinear_arith)
                            requires
                                low + pow128(place) * (byte % 128) == result,
                                byte % 128 == byte - 128,
                                pow128(index as nat) == 128 * pow128(place),
                                place + 1 == index,
                                byte >= 128,
                        ;
                    },
                    Err(_) => {},
                }
            }
        }
    }

    /// Reads a string: its length in bytes as a variable-length integer, then
    /// that many bytes of UTF-8.
    pub fn read_string(buf: &mut &[u8]) -> (r: Result<String>)
        ensures
            match string_decode(old(buf)@) {
                Ok((text, used)) => {
                    &&& r matches Ok(s) && s@ == text
                    &&& final(buf)@ == old(buf)@.skip(used as int)
                },
                Err(kind) => {
                    &&& r matches Err(e) && e.kind() == kind
                    &&& final(buf)@ == old(buf)@
                },
            },
    {
        let mut cursor: &[u8] = *buf;
        let length = match Self::read_varint(&mut cursor) {
            Ok(length) => length,
            Err(e) => {
                return Err(e);
            },
        };

        if length < 0 {
            return Err(MinecraftError::Protocol("String length cannot be negative".to_string()));
        }
        if cursor.len() < length as usize {
            return Err(
                MinecraftError::BufferUnderrun("String length exceeds buffer size".to_string()),
            );
        }
        let raw = slice_subrange(cursor, 0, length as usize);
        proof {
            lemma_varint_decode_used(old(buf)@);
            let used = varint_decode(old(buf)@).unwrap().1;
            assert(raw@ =~= old(buf)@.subrange(used as int, used + length));
            assert(cursor@.skip(length as int) =~= old(buf)@.skip(used + length));
        }
        let string = match str_from_utf8(raw) {
            Ok(text) => text.to_owned(),
            Err(e) => {
                return Err(MinecraftError::from(e));
            },
        };
        *buf = slice_subrange(cursor, length as usize, cursor.len());

        Ok(string)
    }

    /// Reads one signed byte.
    pub fn read_byte(buf: &mut &[u8]) -> (r: Result<i8>)
        ensures
            match fixed_field(old(buf)@, 1) {
                Ok((bytes, used)) => {
                    &&& r == Ok::<i8, MinecraftError>(signed_byte(bytes[0]))
                    &&& final(buf)@ == old(buf)@.skip(used as int)
                },
                Err(kind) => {
                    &&& r matches Err(e) && e.kind() == kind
                    &&& final(buf)@ == old(buf)@
                },
            },
    {
        if buf.len() == 0 {
            return Err(MinecraftError::BufferUnderrun("Not enough bytes for byte".to_string()));
        }
        let byte: u8 = buf[0];
        proof {
            lemma_signed_byte_cast(byte);
        }
        let value = #[verifier::truncate] (byte as i8);
        *buf = slice_subrange(*buf, 1, buf.len());
        Ok(value)
    }

    /// Reads one unsigned byte.
    pub fn read_unsigned_byte(buf: &mut &[u8]) -> (r: Result<u8>)
        ensures
            match fixed_field(old(buf)@, 1) {
                Ok((bytes, used)) => {
                    &&& r == Ok::<u8, MinecraftError>(bytes[0])
                    &&& final(buf)@ == old(buf)@.skip(used as int)
                },
                Err(kind) => {
                    &&& r matches Err(e) && e.kind() == kind
                    &&& final(buf)@ == old(buf)@
                },
            },
    {
        if buf.len() == 0 {
            return Err(
                MinecraftError::BufferUnderrun("Not enough bytes for unsigned byte".to_string()),
            );
        }
        let value: u8 = buf[0];
        *buf = slice_subrange(*buf, 1, buf.len());
        Ok(value)
    }

    /// Reads one byte as a truth value: zero is false, anything else is true.
    pub fn read_boolean(buf: &mut &[u8]) -> (r: Result<bool>)
        ensures
            match fixed_field(old(buf)@, 1) {
                Ok((bytes, used)) => {
                    &&& r == Ok::<bool, MinecraftError>(bytes[0] != 0)
                    &&& final(buf)@ == old(buf)@.skip(used as int)
                },
                Err(kind) => {
                    &&& r matches Err(e) && e.kind() == kind
                    &&& final(buf)@ == old(buf)@
                },
            },
    {
        if buf.len() == 0 {
            return Err(MinecraftError::BufferUnderrun("Not enough bytes for boolean".to_string()));
        }
        let value: u8 = buf[0];
        *buf = slice_subrange(*buf, 1, buf.len());
        Ok(value != 0)
    }

    /// Reads an unsigned 16-bit value, high byte first.
    pub fn read_unsigned_short(buf: &mut &[u8]) -> (r: Result<u16>)
        ensures
            match fixed_field(old(buf)@, 2) {
                Ok((bytes, used)) => {
                    &&& r == Ok::<u16, MinecraftError>(be_value(bytes) as u16)
                    &&& final(buf)@ == old(buf)@.skip(used as int)
                },
                Err(kind) => {
                    &&& r matches Err(e) && e.kind() == kind
                    &&& final(buf)@ == old(buf)@
                },
            },
    {
        if buf.len() < 2 {
            return Err(
                MinecraftError::BufferUnderrun("Not enough bytes for unsigned short".to_string()),
            );
        }
        let high: u8 = buf[0];
        let low: u8 = buf[1];
        proof {
            lemma_join_short(high, low);
            lemma_be_value_bound(buf@.subrange(0, 2));
        }
        let result = ((high as u16) << 8) | (low as u16);
        *buf = slice_subrange(*buf, 2, buf.len());

        Ok(result)
    }

    /// Reads a signed 64-bit value, highest byte first.
    pub fn read_long(buf: &mut &[u8]) -> (r: Result<i64>)
        ensures
            match fixed_field(old(buf)@, 8) {
                Ok((bytes, used)) => {
                    &&& r == Ok::<i64, MinecraftError>(long_of(be_value(bytes)))
                    &&& final(buf)@ == old(buf)@.skip(used as int)
                },
                Err(kind) => {
                    &&& r matches Err(e) && e.kind() == kind
                    &&& final(buf)@ == old(buf)@
                },
            },
    {
        if buf.len() < 8 {
            return Err(MinecraftError::BufferUnderrun("Not enough bytes for long".to_string()));
        }
        let bytes: &[u8] = *buf;
        let mut result: u64 = 0;
        let mut i: usize = 0;
        while i < 8
            invariant
                bytes@ == old(buf)@,
                *buf == *old(buf),
                bytes@.len() >= 8,
                i <= 8,
                result == be_value(bytes@.subrange(0, i as int)),
                result < pow256(i as nat),
            decreases 8 - i,
        {
            let byte: u8 = bytes[i];
            proof {
                reveal_with_fuel(pow256, 9);
                lemma_shift_in_byte(result, byte);
                let next = bytes@.subrange(0, i + 1);
                assert(next.drop_last() =~= bytes@.subrange(0, i as int));
                assert(next.last() == byte);
            }
            result = (result << 8) | (byte as u64);
            i += 1;
        }
        proof {
            lemma_signed_cast_long(result);
        }
        *buf = slice_subrange(bytes, 8, bytes.len());
        Ok(#[verifier::truncate] (result as i64))
    }

    /// Reads a plugin message: the channel as a string, then all the bytes
    /// that are left.
    pub fn read_plugin_message(buf: &mut &[u8]) -> (r: Result<(String, Vec<u8>)>)
        ensures
            match string_decode(old(buf)@) {
                Ok((channel, used)) => {
                    &&& r matches Ok(message) && message.0@ == channel && message.1@ == old(buf)@.skip(
                        used as int,
                    )
                    &&& final(buf)@ == Seq::<u8>::empty()
                },
                Err(kind) => {
                    &&& r matches Err(e) && e.kind() == kind
                    &&& final(buf)@ == old(buf)@
                },
            },
    {
        let channel_id = match Self::read_string(buf) {
            Ok(channel_id) => channel_id,
            Err(e) => {
                return Err(e);
            },
        };

        let data = slice_to_vec(*buf);
        *buf = slice_subrange(*buf, buf.len(), buf.len());

        Ok((channel_id, data))
    }

    /// Reads an identifier: a string of the form `namespace:path`, cut at its
    /// first colon.
    pub fn read_identifier(buf: &mut &[u8]) -> (r: Result<(String, String)>)
        ensures
            match identifier_decode(old(buf)@) {
                Ok(((namespace, path), used)) => {
                    &&& r matches Ok(id) && id.0@ == namespace && id.1@ == path
                    &&& final(buf)@ == old(buf)@.skip(used as int)
                },
                Err(kind) => {
                    &&& r matches Err(e) && e.kind() == kind
                    &&& final(buf)@ == old(buf)@
                },
            },
    {
        let mut cursor: &[u8] = *buf;
        let full_id = match Self::read_string(&mut cursor) {
            Ok(full_id) => full_id,
            Err(e) => {
                return Err(e);
            },
        };
        match split_once(full_id.as_str(), ':') {
            Some((namespace, path)) => {
                *buf = cursor;
                Ok((namespace.to_owned(), path.to_owned()))
            },
            None => Err(MinecraftError::Protocol("Invalid identifier format".to_string())),
        }
    }

    /// The number of bytes that `write_varint` writes for `value`.
    pub fn get_varint_size(value: i32) -> (size: usize)
        ensures
            size == varint_size(value),
            1 <= size <= MAX_VARINT_BYTES,
    {
        let mut size: usize = 0;
        let mut val = #[verifier::truncate] (value as u32);
        proof {
            lemma_unsigned_cast(value);
            lemma_encode_word_len(val as nat);
        }
        loop
            invariant_except_break
                size + encode_word(val as nat).len() == varint_size(value),
            invariant
                varint_size(value) <= MAX_VARINT_BYTES,
            ensures
                size == varint_size(value),
            decreases val,
        {
            proof {
                lemma_low_group(val);
                lemma_encode_word_len(val as nat);
            }
            size += 1;
            val >>= 7;

            if val == 0 {
                break ;
            }
        }

        size
    }

    /// Appends the encoding of `value` to `buf`.
    pub fn write_varint(buf: &mut BytesMut, value: i32)
        ensures
            buffer_bytes(final(buf)) == buffer_bytes(old(buf)) + varint_bytes(value),
    {
        let ghost start = buffer_bytes(buf);
        let mut rest = #[verifier::truncate] (value as u32);
        proof {
            lemma_unsigned_cast(value);
        }
        loop
            invariant_except_break
                buffer_bytes(buf) + encode_word(rest as nat) == start + varint_bytes(value),
            ensures
                buffer_bytes(buf) == start + varint_bytes(value),
            decreases rest,
        {
            let ghost before = buffer_bytes(buf);
            let ghost word = rest;
            proof {
                lemma_low_group(rest);
            }
            let mut byte = #[verifier::truncate] ((rest & 0x7F) as u8);

            rest >>= 7;

            if rest != 0 {
                byte |= CONTINUE_BIT;
            }
            put_u8(buf, byte);

            if rest == 0 {
                proof {
                    assert(before.push(byte) =~= before + encode_word(word as nat));
                }
                break ;
            }
            proof {
                assert(before.push(byte) + encode_word(rest as nat) =~= before + encode_word(
                    word as nat,
                ));
            }
        }
    }

    /// Appends `namespace:path` to `buf` as a string.
    pub fn write_identifier(buf: &mut BytesMut, namespace: &str, path: &str)
        ensures
            buffer_bytes(final(buf)) == buffer_bytes(old(buf)) + identifier_bytes(namespace@, path@),
    {
        let mut identifier = String::from_str(namespace);
        identifier.append(":");
        identifier.append(path);
        proof {
            reveal_strlit(":");
            assert(":"@ =~= seq![':']);
            assert(identifier@ =~= namespace@.push(':') + path@);
        }
        Self::write_string(buf, identifier.as_str());
    }

    /// Appends a string to `buf`: the number of its UTF-8 bytes as a
    /// variable-length integer, then the bytes.
    pub fn write_string(buf: &mut BytesMut, value: &str)
        ensures
            buffer_bytes(final(buf)) == buffer_bytes(old(buf)) + string_bytes(value@),
    {
        let ghost start = buffer_bytes(buf);
        let bytes = value.as_bytes();
        Self::write_varint(buf, #[verifier::truncate] (bytes.len() as i32));
        buf.extend_from_slice(bytes);
        proof {
            assert(buffer_bytes(buf) =~= start + string_bytes(value@));
        }
    }
}

} // verus!
