//! The wire form of a variable-length integer, as a mathematical model.
//!
//! A value is cut into groups of seven bits, lowest group first. Each group
//! travels in one byte; the high bit of a byte says that another byte follows.

use crate::error::VarIntError;
use vstd::prelude::*;

verus! {

/// The most bytes that one value may occupy.
pub const MAX_VARINT_BYTES: usize = 5;

/// The unsigned 32-bit word with the same bits as `value` (two's complement).
pub open spec fn word_of(value: i32) -> nat {
    if value >= 0 {
        value as nat
    } else {
        (value + 0x1_0000_0000) as nat
    }
}

/// The signed value whose bits are the low 32 bits of `word`.
pub open spec fn value_of(word: nat) -> i32 {
    let low = word % 0x1_0000_0000;
    if low < 0x8000_0000 {
        low as i32
    } else {
        (low - 0x1_0000_0000) as i32
    }
}

/// The bytes that carry `word`: base-128 digits, lowest first, each but the
/// last raised by 128.
pub open spec fn encode_word(word: nat) -> Seq<u8>
    decreases word,
{
    if word < 128 {
        seq![word as u8]
    } else {
        seq![(word % 128 + 128) as u8] + encode_word(word / 128)
    }
}

/// The encoding of a signed 32-bit value.
pub open spec fn varint_bytes(value: i32) -> Seq<u8> {
    encode_word(word_of(value))
}

/// The number of bytes in the encoding of `value`.
pub open spec fn varint_size(value: i32) -> nat {
    varint_bytes(value).len()
}

/// Reads base-128 digits from the head of `bytes`, giving the number they
/// spell and how many bytes they took. At most `limit` bytes are looked at.
pub open spec fn decode_word(bytes: Seq<u8>, limit: nat) -> std::result::Result<(nat, nat), VarIntError>
    decreases limit,
{
    if limit == 0 {
        Err(VarIntError::Oversized)
    } else if bytes.len() == 0 {
        Err(VarIntError::Incomplete)
    } else if bytes[0] < 128 {
        Ok((bytes[0] as nat, 1))
    } else {
        match decode_word(bytes.skip(1), (limit - 1) as nat) {
            Ok((high, used)) => Ok(((bytes[0] - 128 + 128 * high) as nat, used + 1)),
            Err(e) => Err(e),
        }
    }
}

/// Decodes the value at the head of `bytes`: the value and the number of
/// bytes it occupies, or the reason why there is none.
pub open spec fn varint_decode(bytes: Seq<u8>) -> std::result::Result<(i32, nat), VarIntError> {
    match decode_word(bytes, MAX_VARINT_BYTES as nat) {
        Ok((word, used)) => Ok((value_of(word), used)),
        Err(e) => Err(e),
    }
}

/// A decoded value occupies between one and five bytes, all of them present.
pub proof fn lemma_decode_word_used(bytes: Seq<u8>, limit: nat)
    ensures
        decode_word(bytes, limit) matches Ok((_, used)) ==> 1 <= used <= limit && used
            <= bytes.len(),
    decreases limit,
{
    if limit > 0 && bytes.len() > 0 && bytes[0] >= 128 {
        lemma_decode_word_used(bytes.skip(1), (limit - 1) as nat);
    }
}

/// A decoded value occupies between one and five bytes, all of them present.
pub proof fn lemma_varint_decode_used(bytes: Seq<u8>)
    ensures
        varint_decode(bytes) matches Ok((_, used)) ==> 1 <= used <= MAX_VARINT_BYTES && used
            <= bytes.len(),
{
    lemma_decode_word_used(bytes, MAX_VARINT_BYTES as nat);
}

pub proof fn lemma_word_of_bounds(value: i32)
    ensures
        word_of(value) < 0x1_0000_0000,
        value_of(word_of(value)) == value,
{
}

/// An encoding has between one and five bytes when the word fits in 32 bits.
pub proof fn lemma_encode_word_len(word: nat)
    ensures
        1 <= encode_word(word).len(),
        word < 0x80 ==> encode_word(word).len() == 1,
        0x80 <= word < 0x4000 ==> encode_word(word).len() == 2,
        0x4000 <= word < 0x20_0000 ==> encode_word(word).len() == 3,
        0x20_0000 <= word < 0x1000_0000 ==> encode_word(word).len() == 4,
        0x1000_0000 <= word < 0x8_0000_0000 ==> encode_word(word).len() == 5,
    decreases word,
{
    if word >= 128 {
        lemma_encode_word_len(word / 128);
    }
}

/// Decoding undoes encoding, whatever follows the encoded bytes.
pub proof fn lemma_decode_encode_word(word: nat, rest: Seq<u8>, limit: nat)
    requires
        encode_word(word).len() <= limit,
    ensures
        decode_word(encode_word(word) + rest, limit) == Ok::<(nat, nat), VarIntError>(
            (word, encode_word(word).len()),
        ),
    decreases word,
{
    let bytes = encode_word(word) + rest;
    if word < 128 {
        assert(bytes[0] == word as u8);
    } else {
        let tail = encode_word(word / 128);
        assert(bytes[0] == (word % 128 + 128) as u8);
        assert(bytes.skip(1) =~= tail + rest);
        lemma_decode_encode_word(word / 128, rest, (limit - 1) as nat);
    }
}

/// Every value round-trips: decoding its encoding gives the value and the
/// length of the encoding, whatever bytes follow.
pub proof fn lemma_varint_round_trip(value: i32, rest: Seq<u8>)
    ensures
        varint_decode(varint_bytes(value) + rest) == Ok::<(i32, nat), VarIntError>(
            (value, varint_size(value)),
        ),
        1 <= varint_size(value) <= MAX_VARINT_BYTES,
{
    lemma_word_of_bounds(value);
    lemma_encode_word_len(word_of(value));
    lemma_decode_encode_word(word_of(value), rest, MAX_VARINT_BYTES as nat);
}

/// An encoding that lost bytes at its end is incomplete, never a shorter value.
pub proof fn lemma_decode_word_cut(word: nat, cut: int, limit: nat)
    requires
        0 <= cut < encode_word(word).len() <= limit,
    ensures
        decode_word(encode_word(word).subrange(0, cut), limit) == Err::<(nat, nat), VarIntError>(
            VarIntError::Incomplete,
        ),
    decreases word,
{
    let whole = encode_word(word);
    let head = whole.subrange(0, cut);
    if cut > 0 {
        let tail = encode_word(word / 128);
        assert(head[0] == whole[0]);
        assert(head.skip(1) =~= tail.subrange(0, cut - 1));
        lemma_decode_word_cut(word / 128, cut - 1, (limit - 1) as nat);
    }
}

/// An encoding of a value that lost bytes at its end is incomplete.
pub proof fn lemma_varint_cut(value: i32, cut: int)
    requires
        0 <= cut < varint_size(value),
    ensures
        varint_decode(varint_bytes(value).subrange(0, cut)) == Err::<(i32, nat), VarIntError>(
            VarIntError::Incomplete,
        ),
{
    lemma_word_of_bounds(value);
    lemma_encode_word_len(word_of(value));
    lemma_decode_word_cut(word_of(value), cut, MAX_VARINT_BYTES as nat);
}

/// What was decoded stays decoded when more bytes arrive; so does a refusal.
/// Only an incomplete value can still change.
pub proof fn lemma_decode_word_extend(bytes: Seq<u8>, more: Seq<u8>, limit: nat)
    ensures
        decode_word(bytes, limit) != Err::<(nat, nat), VarIntError>(VarIntError::Incomplete)
            ==> decode_word(bytes + more, limit) == decode_word(bytes, limit),
    decreases limit,
{
    if limit > 0 && bytes.len() > 0 {
        assert((bytes + more)[0] == bytes[0]);
        if bytes[0] >= 128 {
            assert((bytes + more).skip(1) =~= bytes.skip(1) + more);
            lemma_decode_word_extend(bytes.skip(1), more, (limit - 1) as nat);
        }
    }
}

/// What was decoded stays decoded when more bytes arrive; so does a refusal.
pub proof fn lemma_varint_decode_extend(bytes: Seq<u8>, more: Seq<u8>)
    ensures
        varint_decode(bytes) != Err::<(i32, nat), VarIntError>(VarIntError::Incomplete)
            ==> varint_decode(bytes + more) == varint_decode(bytes),
{
    lemma_decode_word_extend(bytes, more, MAX_VARINT_BYTES as nat);
}

/// Five bytes that all carry the continuation bit are refused, whatever follows.
pub proof fn lemma_varint_oversized(bytes: Seq<u8>)
    requires
        bytes.len() >= MAX_VARINT_BYTES,
        forall|i: int| 0 <= i < MAX_VARINT_BYTES ==> bytes[i] >= 128,
    ensures
        varint_decode(bytes) == Err::<(i32, nat), VarIntError>(VarIntError::Oversized),
{
    reveal_with_fuel(decode_word, 6);
    assert(bytes.skip(1)[0] == bytes[1]);
    assert(bytes.skip(1).skip(1)[0] == bytes[2]);
    assert(bytes.skip(1).skip(1).skip(1)[0] == bytes[3]);
    assert(bytes.skip(1).skip(1).skip(1).skip(1)[0] == bytes[4]);
}

/// In an encoding every byte but the last carries the continuation bit, and
/// the last does not.
pub proof fn lemma_encode_word_shape(word: nat, i: int)
    requires
        0 <= i < encode_word(word).len(),
    ensures
        i < encode_word(word).len() - 1 ==> encode_word(word)[i] >= 128,
        i == encode_word(word).len() - 1 ==> encode_word(word)[i] < 128,
    decreases word,
{
    if word >= 128 {
        if i > 0 {
            lemma_encode_word_shape(word / 128, i - 1);
        } else {
            lemma_encode_word_len(word / 128);
        }
    }
}

/// The digits that were read spell a number below 128 to the power of their
/// count, and no shorter run of digits spells it.
pub proof fn lemma_decode_word_minimal(bytes: Seq<u8>, limit: nat)
    requires
        limit <= MAX_VARINT_BYTES,
    ensures
        decode_word(bytes, limit) matches Ok((word, used)) ==> encode_word(word).len() <= used
            && word < 0x8_0000_0000,
    decreases limit,
{
    if limit > 0 && bytes.len() > 0 && bytes[0] >= 128 {
        lemma_decode_word_minimal(bytes.skip(1), (limit - 1) as nat);
        lemma_decode_word_used(bytes.skip(1), (limit - 1) as nat);
        match decode_word(bytes.skip(1), (limit - 1) as nat) {
            Ok((high, used)) => {
                let word = (bytes[0] - 128 + 128 * high) as nat;
                lemma_encode_word_len(high);
                lemma_encode_word_len(word);
                if word >= 128 {
                    assert(word / 128 == high);
                }
            },
            Err(_) => {},
        }
    }
}

/// The encoding is the shortest: whatever bytes decode to a value, they are
/// at least as many as its encoding has.
pub proof fn lemma_varint_minimal(bytes: Seq<u8>)
    ensures
        varint_decode(bytes) matches Ok((value, used)) ==> varint_size(value) <= used,
{
    lemma_decode_word_minimal(bytes, MAX_VARINT_BYTES as nat);
    match decode_word(bytes, MAX_VARINT_BYTES as nat) {
        Ok((word, used)) => {
            let value = value_of(word);
            let low = word % 0x1_0000_0000;
            assert(word_of(value) == low);
            lemma_encode_word_len(word);
            lemma_encode_word_len(low);
        },
        Err(_) => {},
    }
}

} // verus!
