//! What a connection makes of the bytes it reads, read after read.
//!
//! The bytes of a read are added to the bytes that are still pending. Then
//! frame after frame is taken off and answered, until less than a whole frame
//! is left, the connection ends, or something is refused.

use crate::buffer::buffer_bytes;
use crate::connection::{react, step, Connection, ConnectionState, ServerData, Step};
use crate::error::{ErrorKind, Result};
use crate::packet::frame::{
    frame_at, lemma_frame_at_extend, lemma_frame_found, lemma_frame_partial, packet_bytes,
    Framing,
};
use crate::packet::varint::{decode_word, varint_size};
use crate::packet::wire::lemma_concat_assoc;
use bytes::BytesMut;
use vstd::prelude::*;

verus! {

/// Why no further frame is taken off the pending bytes.
pub enum Ending {
    /// Less than a whole frame is pending: the next read is awaited.
    Waiting,
    /// A packet ended the connection.
    Closed,
    /// The pending bytes or a packet were refused.
    Failed(ErrorKind),
}

/// Where a connection stands when no further frame is taken.
pub struct Progress {
    pub state: ConnectionState,
    /// The bytes that were received and not taken.
    pub pending: Seq<u8>,
    /// The frames to send, one after the other.
    pub replies: Seq<u8>,
    pub ending: Ending,
}

/// Takes frame after frame off `pending` and reacts to each.
pub open spec fn drain(state: ConnectionState, pending: Seq<u8>, server: &ServerData) -> Progress
    decreases pending.len(),
    via drain_decreases
{
    match step(state, pending, server) {
        Step::Wait => Progress { state, pending, replies: Seq::empty(), ending: Ending::Waiting },
        Step::Fail(kind) => Progress {
            state,
            pending,
            replies: Seq::empty(),
            ending: Ending::Failed(kind),
        },
        Step::Taken { consumed, reaction } => {
            if reaction.keep_open {
                after(reaction.replies, drain(reaction.state, pending.skip(consumed as int), server))
            } else {
                Progress {
                    state: reaction.state,
                    pending: pending.skip(consumed as int),
                    replies: reaction.replies,
                    ending: Ending::Closed,
                }
            }
        },
    }
}

#[via_fn]
proof fn drain_decreases(state: ConnectionState, pending: Seq<u8>, server: &ServerData) {
    lemma_step_consumes(state, pending, server);
}

/// A frame that is taken has at least one byte, and all its bytes were pending.
pub proof fn lemma_step_consumes(state: ConnectionState, pending: Seq<u8>, server: &ServerData)
    ensures
        step(state, pending, server) matches Step::Taken { consumed, .. } ==> 1 <= consumed
            <= pending.len(),
        pending.len() == 0 ==> step(state, pending, server) is Wait,
{
    reveal(step);
    lemma_frame_at_extend(pending, Seq::empty());
    if pending.len() == 0 {
        reveal_with_fuel(decode_word, 2);
    }
}

/// The progress `later`, with `replies` sent before it.
pub open spec fn after(replies: Seq<u8>, later: Progress) -> Progress {
    Progress {
        state: later.state,
        pending: later.pending,
        replies: replies + later.replies,
        ending: later.ending,
    }
}

impl Connection {
    /// Takes in the bytes of one read: adds them to `buffer` and handles the
    /// frames that are whole by now.
    ///
    /// The answers are appended to `out`; they are to be sent whatever is
    /// returned. `Ok(true)` says that the next read is awaited, `Ok(false)`
    /// that the connection ends; an error says why it is given up.
    pub fn handle_read(
        &mut self,
        buffer: &mut BytesMut,
        received: &[u8],
        server: &ServerData,
        out: &mut BytesMut,
    ) -> (r: Result<bool>)
        ensures
            ({
                let progress = drain(old(self)@, buffer_bytes(old(buffer)) + received@, server);
                &&& final(self)@ == progress.state
                &&& buffer_bytes(final(buffer)) == progress.pending
                &&& buffer_bytes(final(out)) == buffer_bytes(old(out)) + progress.replies
                &&& match progress.ending {
                    Ending::Waiting => r matches Ok(true),
                    Ending::Closed => r matches Ok(false),
                    Ending::Failed(kind) => r matches Err(e) && e.kind() == kind,
                }
            }),
    {
        let ghost start = buffer_bytes(out);
        let ghost whole = drain(self@, buffer_bytes(buffer) + received@, server);
        let ghost mut sent = Seq::<u8>::empty();
        buffer.extend_from_slice(received);
        proof {
            assert(start + sent =~= start);
            assert(sent + whole.replies =~= whole.replies);
        }

        while !buffer.is_empty()
            invariant
                whole == drain(old(self)@, buffer_bytes(old(buffer)) + received@, server),
                start == buffer_bytes(old(out)),
                whole == after(sent, drain(self@, buffer_bytes(buffer), server)),
                buffer_bytes(out) == start + sent,
            decreases buffer_bytes(buffer).len(),
        {
            let before = buffer.len();
            let ghost replies = match step(self@, buffer_bytes(buffer), server) {
                Step::Taken { reaction, .. } => reaction.replies,
                _ => Seq::empty(),
            };
            proof {
                assert(sent + Seq::<u8>::empty() =~= sent);
                lemma_concat_assoc(start, sent, replies);
            }
            let result = self.handle_packet(buffer, server, out);
            proof {
                let later = drain(self@, buffer_bytes(buffer), server);
                lemma_concat_assoc(sent, replies, later.replies);
            }
            match result {
                Ok(should_continue) => {
                    if !should_continue {
                        return Ok(false);
                    }
                    if buffer.len() == before {
                        return Ok(true);
                    }
                    proof {
                        sent = sent + replies;
                    }
                },
                Err(e) => {
                    return Err(e);
                },
            }
        }
        proof {
            lemma_step_consumes(self@, buffer_bytes(buffer), server);
            assert(sent + Seq::<u8>::empty() =~= sent);
        }
        Ok(true)
    }
}

/// Bytes that hold less than a whole frame are kept as they are: no state
/// changes, nothing is answered, the next read is awaited.
pub proof fn lemma_partial_is_kept(state: ConnectionState, pending: Seq<u8>, server: &ServerData)
    requires
        frame_at(pending) is Partial,
    ensures
        drain(state, pending, server) == (Progress {
            state,
            pending,
            replies: Seq::empty(),
            ending: Ending::Waiting,
        }),
{
    reveal(step);
}

/// Input may arrive in any number of reads. Where the bytes `first` leave the
/// connection waiting, taking in `second` after them comes to the same as
/// taking in both at once: the same state, the same pending bytes, the same
/// answers in the same order, the same ending.
pub proof fn lemma_reads_compose(
    state: ConnectionState,
    first: Seq<u8>,
    second: Seq<u8>,
    server: &ServerData,
)
    requires
        drain(state, first, server).ending is Waiting,
    ensures
        ({
            let middle = drain(state, first, server);
            drain(state, first + second, server) == after(
                middle.replies,
                drain(middle.state, middle.pending + second, server),
            )
        }),
    decreases first.len(),
{
    let middle = drain(state, first, server);
    let whole = drain(state, first + second, server);
    lemma_step_consumes(state, first, server);
    match step(state, first, server) {
        Step::Wait => {
            let later = drain(state, first + second, server);
            assert(middle.replies + later.replies =~= later.replies);
        },
        Step::Fail(_) => {},
        Step::Taken { consumed, reaction } => {
            assert(step(state, first + second, server) == step(state, first, server)) by {
                reveal(step);
                lemma_frame_at_extend(first, second);
            }
            let rest = first.skip(consumed as int);
            assert((first + second).skip(consumed as int) =~= rest + second);
            lemma_reads_compose(reaction.state, rest, second, server);
            let inner = drain(reaction.state, rest, server);
            let later = drain(inner.state, inner.pending + second, server);
            lemma_concat_assoc(reaction.replies, inner.replies, later.replies);
        },
    }
}

/// A whole frame is taken, and its packet decides what happens.
pub proof fn lemma_step_of_whole(state: ConnectionState, pending: Seq<u8>, server: &ServerData)
    requires
        frame_at(pending) is Whole,
    ensures
        step(state, pending, server) == match react(
            state,
            frame_at(pending)->packet_id,
            frame_at(pending)->payload,
            server,
        ) {
            Ok(reaction) => Step::Taken { consumed: frame_at(pending)->total_size, reaction },
            Err(kind) => Step::Fail(kind),
        },
{
    reveal(step);
}

/// A frame may be cut at any place into two reads. The first read changes
/// nothing and keeps its bytes; with the second the frame is whole and its
/// packet is handled as if the frame had arrived in one read.
pub proof fn lemma_fragmented_frame(
    state: ConnectionState,
    packet_id: i32,
    payload: Seq<u8>,
    cut: int,
    server: &ServerData,
)
    requires
        varint_size(packet_id) + payload.len() <= i32::MAX,
        0 <= cut < packet_bytes(packet_id, payload).len(),
    ensures
        ({
            let frame = packet_bytes(packet_id, payload);
            let first = frame.subrange(0, cut);
            let second = frame.subrange(cut, frame.len() as int);
            let middle = drain(state, first, server);
            &&& middle == (Progress {
                state,
                pending: first,
                replies: Seq::empty(),
                ending: Ending::Waiting,
            })
            &&& drain(middle.state, middle.pending + second, server) == drain(state, frame, server)
            &&& step(state, frame, server) == match react(state, packet_id, payload, server) {
                Ok(reaction) => Step::Taken { consumed: frame.len(), reaction },
                Err(kind) => Step::Fail(kind),
            }
        }),
{
    let frame = packet_bytes(packet_id, payload);
    let first = frame.subrange(0, cut);
    let second = frame.subrange(cut, frame.len() as int);
    assert(frame_at(first) is Partial) by {
        lemma_frame_partial(packet_id, payload, cut);
    }
    lemma_partial_is_kept(state, first, server);
    assert(first + second == frame) by {
        assert(first + second =~= frame);
    }
    assert(frame_at(frame) == (Framing::Whole { packet_id, payload, total_size: frame.len() })) by {
        lemma_frame_found(packet_id, payload, Seq::empty());
        assert(frame + Seq::<u8>::empty() =~= frame);
    }
    lemma_step_of_whole(state, frame, server);
}

} // verus!
