//! Frames: one packet on the wire, with its length in front.
//!
//! A frame is the length of its body as a variable-length integer, then the
//! body: the packet's id as a variable-length integer, then the payload.

use crate::buffer::{as_slice, buffer_bytes};
use crate::error::{ErrorKind, MinecraftError, Result, VarIntError};
use crate::packet::reader::PacketReader;
use crate::packet::varint::{
    lemma_varint_cut, lemma_varint_decode_extend, lemma_varint_round_trip, varint_bytes,
    varint_decode, varint_size,
};
use crate::packet::wire::length_prefix;
use bytes::BytesMut;
use vstd::prelude::*;
use vstd::slice::slice_subrange;

verus! {

/// What stands at the head of the bytes received so far.
pub enum Framing {
    /// Less than a whole frame. Nothing is to be taken; more input is awaited.
    Partial,
    /// A whole frame, which occupies the first `total_size` bytes.
    Whole { packet_id: i32, payload: Seq<u8>, total_size: nat },
    /// Bytes that no further input can turn into a frame.
    Malformed(ErrorKind),
}

/// Looks for a frame at the head of `buffer`.
///
/// The declared length is decoded first. Where it is cut short, the frame is
/// partial; so it is while fewer bytes are there than the length announces.
/// The body starts after as many bytes as the length takes in its shortest
/// encoding.
pub open spec fn frame_at(buffer: Seq<u8>) -> Framing {
    match varint_decode(buffer) {
        Err(VarIntError::Incomplete) => Framing::Partial,
        Err(VarIntError::Oversized) => Framing::Malformed(ErrorKind::VarIntOversized),
        Ok((length, _)) => {
            if length < 0 {
                Framing::Malformed(ErrorKind::Protocol)
            } else {
                let start = varint_size(length);
                let total_size = start + length as nat;
                if buffer.len() < total_size {
                    Framing::Partial
                } else {
                    let body = buffer.subrange(start as int, total_size as int);
                    match varint_decode(body) {
                        Err(e) => Framing::Malformed(e.kind()),
                        Ok((packet_id, used)) => Framing::Whole {
                            packet_id,
                            payload: body.skip(used as int),
                            total_size,
                        },
                    }
                }
            }
        },
    }
}

/// A body with its length in front.
pub open spec fn frame_bytes(body: Seq<u8>) -> Seq<u8> {
    length_prefix(body.len()) + body
}

/// The frame of one packet.
pub open spec fn packet_bytes(packet_id: i32, payload: Seq<u8>) -> Seq<u8> {
    frame_bytes(varint_bytes(packet_id) + payload)
}

/// A whole frame as found in a receive buffer.
pub struct Frame<'a> {
    pub packet_id: i32,
    pub payload: &'a [u8],
    /// The number of bytes that the frame occupies, its length prefix included.
    pub total_size: usize,
}

/// Looks for a frame at the head of `buffer`, without taking anything.
///
/// `Ok(None)` says that more input is needed.
pub fn next_frame<'a>(buffer: &'a [u8]) -> (r: Result<Option<Frame<'a>>>)
    ensures
        match frame_at(buffer@) {
            Framing::Partial => r matches Ok(None),
            Framing::Whole { packet_id, payload, total_size } => {
                &&& r matches Ok(Some(frame))
                &&& frame.packet_id == packet_id
                &&& frame.payload@ == payload
                &&& frame.total_size == total_size
                &&& 1 <= total_size <= buffer@.len()
            },
            Framing::Malformed(kind) => r matches Err(e) && e.kind() == kind,
        },
{
    let mut cursor: &[u8] = buffer;
    let length = match PacketReader::read_varint(&mut cursor) {
        Ok(length) => length,
        Err(MinecraftError::VarInt(VarIntError::Incomplete)) => {
            return Ok(None);
        },
        Err(e) => {
            return Err(e);
        },
    };
    if length < 0 {
        return Err(MinecraftError::Protocol("Packet length cannot be negative".to_string()));
    }
    let packet_length = length as usize;
    let length_size = PacketReader::get_varint_size(length);
    let total_size = length_size + packet_length;

    if buffer.len() < total_size {
        return Ok(None);
    }
    let mut packet_data = slice_subrange(buffer, length_size, total_size);
    let packet_id = match PacketReader::read_varint(&mut packet_data) {
        Ok(packet_id) => packet_id,
        Err(e) => {
            return Err(e);
        },
    };
    Ok(Some(Frame { packet_id, payload: packet_data, total_size }))
}

/// Puts the length of `content` in front of it.
pub fn frame_packet(content: &BytesMut) -> (packet: BytesMut)
    ensures
        buffer_bytes(&packet) == frame_bytes(buffer_bytes(content)),
{
    let mut packet = BytesMut::new();
    PacketReader::write_varint(&mut packet, #[verifier::truncate] (content.len() as i32));
    packet.extend_from_slice(as_slice(content));
    proof {
        assert(buffer_bytes(&packet) =~= frame_bytes(buffer_bytes(content)));
    }
    packet
}

/// A frame that is whole stays the same frame when more bytes arrive, and
/// bytes that are refused stay refused.
pub proof fn lemma_frame_at_extend(buffer: Seq<u8>, more: Seq<u8>)
    ensures
        !(frame_at(buffer) is Partial) ==> frame_at(buffer + more) == frame_at(buffer),
        frame_at(buffer) matches Framing::Whole { total_size, .. } ==> 1 <= total_size
            <= buffer.len(),
{
    lemma_varint_decode_extend(buffer, more);
    match varint_decode(buffer) {
        Ok((length, _)) => {
            if length >= 0 {
                lemma_varint_round_trip(length, Seq::empty());
                let start = varint_size(length);
                let total_size = start + length as nat;
                if buffer.len() >= total_size {
                    assert((buffer + more).subrange(start as int, total_size as int)
                        =~= buffer.subrange(start as int, total_size as int));
                }
            }
        },
        Err(_) => {},
    }
}

/// A valid frame is found again at the head of any bytes that start with it.
pub proof fn lemma_frame_found(packet_id: i32, payload: Seq<u8>, rest: Seq<u8>)
    requires
        varint_size(packet_id) + payload.len() <= i32::MAX,
    ensures
        frame_at(packet_bytes(packet_id, payload) + rest) == (Framing::Whole {
            packet_id,
            payload,
            total_size: packet_bytes(packet_id, payload).len(),
        }),
{
    let body = varint_bytes(packet_id) + payload;
    let length = body.len() as i32;
    let frame = packet_bytes(packet_id, payload);
    let buffer = frame + rest;
    assert(buffer =~= varint_bytes(length) + (body + rest));
    lemma_varint_round_trip(length, body + rest);
    lemma_varint_round_trip(packet_id, payload);
    let start = varint_size(length);
    assert(buffer.subrange(start as int, start + length) =~= body);
    assert(body.skip(varint_size(packet_id) as int) =~= payload);
}

/// While a valid frame has not arrived whole, it is partial: nothing is
/// dispatched and nothing is refused.
pub proof fn lemma_frame_partial(packet_id: i32, payload: Seq<u8>, cut: int)
    requires
        varint_size(packet_id) + payload.len() <= i32::MAX,
        0 <= cut < packet_bytes(packet_id, payload).len(),
    ensures
        frame_at(packet_bytes(packet_id, payload).subrange(0, cut)) == Framing::Partial,
{
    let body = varint_bytes(packet_id) + payload;
    let length = body.len() as i32;
    let frame = packet_bytes(packet_id, payload);
    let head = frame.subrange(0, cut);
    let start = varint_size(length);
    lemma_varint_round_trip(length, Seq::empty());
    if cut < start {
        assert(head =~= varint_bytes(length).subrange(0, cut));
        lemma_varint_cut(length, cut);
    } else {
        assert(head =~= varint_bytes(length) + body.subrange(0, cut - start));
        lemma_varint_round_trip(length, body.subrange(0, cut - start));
    }
}

} // verus!
