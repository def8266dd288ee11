//! The state machine of one connection.
//!
//! A connection starts in the handshake, which leads to the status exchange
//! or to the login. The login leads to the configuration, the configuration
//! to play. What the server answers to a packet depends on the state that the
//! connection is in.

use crate::buffer::{advance, as_slice, buffer_bytes, put_i64, put_u8};
use crate::error::{ErrorKind, MinecraftError, Result};
use crate::json::{
    documents, json_text, member_documents, push_item, push_member, JsonDocument, JsonValue,
};
use crate::packet::frame::{frame_at, frame_bytes, frame_packet, next_frame, Framing};
use crate::packet::reader::PacketReader;
use crate::packet::serverbound::{
    client_information_decode, handshake_bytes, handshake_decode, known_packs_decode,
    lemma_handshake_round_trip, read_client_information, read_handshake, read_known_packs,
    HandshakeFields,
};
use crate::packet::varint::{lemma_encode_word_len, varint_bytes};
use crate::packet::wire::{
    fixed_field, lemma_concat_assoc, lemma_long_bytes_len, lemma_long_round_trip,
    lemma_string_round_trip, long_bytes, string_bytes, string_decode, Decoded,
};
use crate::registry::manager::{registry_data_bytes, update_tags_bytes, RegistryManager};
use crate::tag::TagData;
use bytes::BytesMut;
use uuid::Uuid;
use vstd::prelude::*;
use vstd::utf8::encode_utf8;

verus! {

/// The version of the protocol that the server speaks.
pub const PROTOCOL_VERSION: i32 = 767;

// The ids of the packets, state by state. An id means one thing when the
// client sends it and another when the server does.
pub const HANDSHAKE_PACKET_ID: i32 = 0x00;

pub const STATUS_REQUEST_PACKET_ID: i32 = 0x00;

pub const STATUS_RESPONSE_PACKET_ID: i32 = 0x00;

pub const PING_REQUEST_PACKET_ID: i32 = 0x01;

pub const PONG_RESPONSE_PACKET_ID: i32 = 0x01;

pub const LOGIN_START_PACKET_ID: i32 = 0x00;

pub const LOGIN_SUCCESS_PACKET_ID: i32 = 0x02;

pub const LOGIN_ACKNOWLEDGED_PACKET_ID: i32 = 0x03;

pub const CLIENT_INFORMATION_PACKET_ID: i32 = 0x00;

pub const PLUGIN_MESSAGE_PACKET_ID: i32 = 0x02;

pub const FINISH_CONFIGURATION_PACKET_ID: i32 = 0x03;

pub const KNOWN_PACKS_PACKET_ID: i32 = 0x07;

pub const SELECT_KNOWN_PACKS_PACKET_ID: i32 = 0x0E;

pub const KEEP_ALIVE_PACKET_ID: i32 = 0x21;

/// The number that a keep-alive carries. Any number would do.
pub const KEEP_ALIVE_PAYLOAD: i64 = 12345;

/// The UUID that stands for every player: no player has one of their own.
pub const PLACEHOLDER_UUID: &'static str = "00000000-0000-0000-0000-000000000001";

/// The sixteen bytes of the UUID that `text` spells, if it spells one.
pub uninterp spec fn uuid_of(text: Seq<char>) -> Option<Seq<u8>>;

/// `Uuid::parse_str`, then `Uuid::as_bytes`: the bytes of the UUID that a
/// text of hexadecimal digits spells. Text that spells none gives `None` in
/// place of the crate's error.
#[verifier::external_body]
fn parse_uuid(text: &str) -> (r: Option<[u8; 16]>)
    ensures
        match r {
            Some(bytes) => uuid_of(text@) == Some(bytes@),
            None => uuid_of(text@) is None,
        },
{
    match Uuid::parse_str(text) {
        Ok(uuid) => Some(*uuid.as_bytes()),
        Err(_) => None,
    }
}

/// The stage of the login pipeline that a connection has reached.
#[derive(Debug, PartialEq, Eq, Structural, Clone, Copy)]
pub enum ConnectionState {
    Handshake,
    Status,
    Login,
    Configuration,
    Play,
}

/// What the server holds for all its connections and never changes: the
/// catalog of registries and tags.
pub struct ServerData {
    pub registry: RegistryManager,
    pub tags: TagData,
}

/// One connection: the state it is in.
pub struct Connection {
    state: ConnectionState,
}

impl View for Connection {
    type V = ConnectionState;

    closed spec fn view(&self) -> ConnectionState {
        self.state
    }
}

/// What a packet makes of a connection.
pub struct Reaction {
    /// The state after the packet.
    pub state: ConnectionState,
    /// The frames to send, one after the other.
    pub replies: Seq<u8>,
    /// Whether the connection stays open once the frames are sent.
    pub keep_open: bool,
}

/// What the server says of itself when it is asked for its status: its
/// version by name and by protocol number, how many players it takes and how
/// many are there, a sample of them, and a description.
pub open spec fn status_document() -> JsonDocument {
    JsonDocument::Object(
        seq![
            (
                "version"@,
                JsonDocument::Object(
                    seq![
                        ("name"@, JsonDocument::Text("1.21.1"@)),
                        ("protocol"@, JsonDocument::Integer(PROTOCOL_VERSION as int)),
                    ],
                ),
            ),
            (
                "players"@,
                JsonDocument::Object(
                    seq![
                        ("max"@, JsonDocument::Integer(100)),
                        ("online"@, JsonDocument::Integer(4)),
                        (
                            "sample"@,
                            JsonDocument::Array(
                                seq![
                                    JsonDocument::Object(
                                        seq![
                                            ("name"@, JsonDocument::Text("Player"@)),
                                            ("id"@, JsonDocument::Text(PLACEHOLDER_UUID@)),
                                        ],
                                    ),
                                ],
                            ),
                        ),
                    ],
                ),
            ),
            ("description"@, JsonDocument::Object(seq![("text"@, JsonDocument::Text("Hello world!"@))])),
        ],
    )
}

/// The frame that answers a status request with the document `json`.
pub open spec fn status_response_bytes(json: Seq<char>) -> Seq<u8> {
    frame_bytes(varint_bytes(STATUS_RESPONSE_PACKET_ID) + string_bytes(json))
}

/// The frame that answers a ping with the bytes `echo`.
pub open spec fn pong_response_bytes(echo: Seq<u8>) -> Seq<u8> {
    frame_bytes(varint_bytes(PONG_RESPONSE_PACKET_ID) + echo)
}

/// The frame that tells a player that the login succeeded: the player's
/// UUID, the name, the number of properties, which is zero, and a zero byte
/// that switches strict error handling off.
pub open spec fn login_success_bytes(uuid: Seq<u8>, username: Seq<char>) -> Seq<u8> {
    frame_bytes(
        varint_bytes(LOGIN_SUCCESS_PACKET_ID) + uuid + string_bytes(username) + varint_bytes(0)
            + seq![0u8],
    )
}

/// The frame that names the one data pack that the server knows.
pub open spec fn known_packs_bytes() -> Seq<u8> {
    frame_bytes(
        varint_bytes(SELECT_KNOWN_PACKS_PACKET_ID) + varint_bytes(1) + string_bytes("minecraft"@)
            + string_bytes("core"@) + string_bytes("1.21.1"@),
    )
}

/// A keep-alive: the packet id and the number it carries, without a length
/// in front.
pub open spec fn keep_alive_bytes() -> Seq<u8> {
    varint_bytes(KEEP_ALIVE_PACKET_ID) + long_bytes(KEEP_ALIVE_PAYLOAD)
}

/// The frame that ends the configuration.
pub open spec fn finish_configuration_bytes() -> Seq<u8> {
    frame_bytes(varint_bytes(FINISH_CONFIGURATION_PACKET_ID))
}

/// All that answers the client's list of known packs: the registries, the
/// tags, and the end of the configuration.
pub open spec fn configuration_bytes(server: &ServerData) -> Seq<u8> {
    registry_data_bytes(server.registry@) + update_tags_bytes(server.tags)
        + finish_configuration_bytes()
}

/// A packet that changes nothing and is not answered.
pub open spec fn quiet(state: ConnectionState) -> Decoded<Reaction> {
    Ok(Reaction { state, replies: Seq::empty(), keep_open: true })
}

/// The handshake names the next state: 1 for the status exchange, 2 for the
/// login. Any other number is refused.
pub open spec fn react_in_handshake(packet_id: i32, payload: Seq<u8>) -> Decoded<Reaction> {
    if packet_id == HANDSHAKE_PACKET_ID {
        match handshake_decode(payload) {
            Err(kind) => Err(kind),
            Ok(handshake) => if handshake.next_state == 1 {
                quiet(ConnectionState::Status)
            } else if handshake.next_state == 2 {
                quiet(ConnectionState::Login)
            } else {
                Err(ErrorKind::Protocol)
            },
        }
    } else {
        quiet(ConnectionState::Handshake)
    }
}

/// A status request is answered with the status document. A ping is answered
/// with its own eight bytes, and the connection ends.
pub open spec fn react_in_status(packet_id: i32, payload: Seq<u8>) -> Decoded<Reaction> {
    if packet_id == STATUS_REQUEST_PACKET_ID {
        Ok(
            Reaction {
                state: ConnectionState::Status,
                replies: status_response_bytes(json_text(status_document())),
                keep_open: true,
            },
        )
    } else if packet_id == PING_REQUEST_PACKET_ID {
        match fixed_field(payload, 8) {
            Err(kind) => Err(kind),
            Ok((echo, _)) => Ok(
                Reaction {
                    state: ConnectionState::Status,
                    replies: pong_response_bytes(echo),
                    keep_open: false,
                },
            ),
        }
    } else {
        quiet(ConnectionState::Status)
    }
}

/// The frame that answers a login start for `username`, or a protocol error
/// where `uuid` does not spell a UUID.
pub open spec fn login_success_reply(uuid: Seq<char>, username: Seq<char>) -> Decoded<Seq<u8>> {
    match uuid_of(uuid) {
        Some(id) => Ok(login_success_bytes(id, username)),
        None => Err(ErrorKind::Protocol),
    }
}

/// A login start is answered with the login's success; the state stays. The
/// client's acknowledgement leads to the configuration and is answered with
/// the known packs.
pub open spec fn react_in_login(packet_id: i32, payload: Seq<u8>) -> Decoded<Reaction> {
    if packet_id == LOGIN_START_PACKET_ID {
        match string_decode(payload) {
            Err(kind) => Err(kind),
            Ok((username, _)) => match login_success_reply(PLACEHOLDER_UUID@, username) {
                Err(kind) => Err(kind),
                Ok(replies) => Ok(
                    Reaction { state: ConnectionState::Login, replies, keep_open: true },
                ),
            },
        }
    } else if packet_id == LOGIN_ACKNOWLEDGED_PACKET_ID {
        Ok(
            Reaction {
                state: ConnectionState::Configuration,
                replies: known_packs_bytes(),
                keep_open: true,
            },
        )
    } else {
        quiet(ConnectionState::Login)
    }
}

/// The client's settings and its plugin messages are read and not answered.
/// Its list of known packs is answered with the registries, the tags and the
/// end of the configuration. Its acknowledgement of that end leads to play.
pub open spec fn react_in_configuration(
    packet_id: i32,
    payload: Seq<u8>,
    server: &ServerData,
) -> Decoded<Reaction> {
    if packet_id == CLIENT_INFORMATION_PACKET_ID {
        match client_information_decode(payload) {
            Err(kind) => Err(kind),
            Ok(_) => quiet(ConnectionState::Configuration),
        }
    } else if packet_id == PLUGIN_MESSAGE_PACKET_ID {
        match string_decode(payload) {
            Err(kind) => Err(kind),
            Ok(_) => quiet(ConnectionState::Configuration),
        }
    } else if packet_id == FINISH_CONFIGURATION_PACKET_ID {
        quiet(ConnectionState::Play)
    } else if packet_id == KNOWN_PACKS_PACKET_ID {
        match known_packs_decode(payload) {
            Err(kind) => Err(kind),
            Ok(_) => Ok(
                Reaction {
                    state: ConnectionState::Configuration,
                    replies: configuration_bytes(server),
                    keep_open: true,
                },
            ),
        }
    } else {
        quiet(ConnectionState::Configuration)
    }
}

/// What the packet `packet_id` with `payload` makes of a connection in
/// `state`. A packet id that has no meaning in the state changes nothing.
#[verifier::opaque]
pub open spec fn react(
    state: ConnectionState,
    packet_id: i32,
    payload: Seq<u8>,
    server: &ServerData,
) -> Decoded<Reaction> {
    match state {
        ConnectionState::Handshake => react_in_handshake(packet_id, payload),
        ConnectionState::Status => react_in_status(packet_id, payload),
        ConnectionState::Login => react_in_login(packet_id, payload),
        ConnectionState::Configuration => react_in_configuration(packet_id, payload, server),
        ConnectionState::Play => quiet(ConnectionState::Play),
    }
}

/// What the bytes received so far make of a connection, as far as the first
/// frame goes.
pub enum Step {
    /// No whole frame is there: nothing changes until more input comes.
    Wait,
    /// The bytes or the packet are refused: nothing changes, the connection
    /// is to be given up.
    Fail(ErrorKind),
    /// One frame is taken off the buffer and answered.
    Taken { consumed: nat, reaction: Reaction },
}

/// Takes the first frame, if it is there, and reacts to it.
#[verifier::opaque]
pub open spec fn step(state: ConnectionState, buffer: Seq<u8>, server: &ServerData) -> Step {
    match frame_at(buffer) {
        Framing::Partial => Step::Wait,
        Framing::Malformed(kind) => Step::Fail(kind),
        Framing::Whole { packet_id, payload, total_size } => match react(
            state,
            packet_id,
            payload,
            server,
        ) {
            Err(kind) => Step::Fail(kind),
            Ok(reaction) => Step::Taken { consumed: total_size, reaction },
        },
    }
}

impl Connection {
    /// A connection that awaits the handshake.
    pub fn new() -> (connection: Self)
        ensures
            connection@ == ConnectionState::Handshake,
    {
        Self { state: ConnectionState::Handshake }
    }

    /// The state that the connection is in.
    pub fn state(&self) -> (state: ConnectionState)
        ensures
            state == self@,
    {
        self.state
    }

    /// Takes one frame off `buffer`, if a whole frame is there, and reacts to
    /// it: the state changes and the answer is appended to `out`.
    ///
    /// `Ok(true)` says that the connection goes on, `Ok(false)` that it ends
    /// once `out` is sent. While the frame has not arrived whole, and when an
    /// error is returned, nothing changes.
    pub fn handle_packet(
        &mut self,
        buffer: &mut BytesMut,
        server: &ServerData,
        out: &mut BytesMut,
    ) -> (r: Result<bool>)
        ensures
            match step(old(self)@, buffer_bytes(old(buffer)), server) {
                Step::Wait => {
                    &&& r matches Ok(true)
                    &&& final(self)@ == old(self)@
                    &&& buffer_bytes(final(buffer)) == buffer_bytes(old(buffer))
                    &&& buffer_bytes(final(out)) == buffer_bytes(old(out))
                },
                Step::Fail(kind) => {
                    &&& r matches Err(e) && e.kind() == kind
                    &&& final(self)@ == old(self)@
                    &&& buffer_bytes(final(buffer)) == buffer_bytes(old(buffer))
                    &&& buffer_bytes(final(out)) == buffer_bytes(old(out))
                },
                Step::Taken { consumed, reaction } => {
                    &&& r == Ok::<bool, MinecraftError>(reaction.keep_open)
                    &&& final(self)@ == reaction.state
                    &&& 1 <= consumed <= buffer_bytes(old(buffer)).len()
                    &&& buffer_bytes(final(buffer)) == buffer_bytes(old(buffer)).skip(
                        consumed as int,
                    )
                    &&& buffer_bytes(final(out)) == buffer_bytes(old(out)) + reaction.replies
                },
            },
    {
        proof {
            reveal(step);
        }
        let frame = match next_frame(as_slice(buffer)) {
            Ok(Some(frame)) => frame,
            Ok(None) => {
                return Ok(true);
            },
            Err(e) => {
                return Err(e);
            },
        };
        let total_size = frame.total_size;
        let should_continue = match self.dispatch(frame.packet_id, frame.payload, server, out) {
            Ok(should_continue) => should_continue,
            Err(e) => {
                return Err(e);
            },
        };
        advance(buffer, total_size);

        Ok(should_continue)
    }

    /// Reacts to one packet.
    fn dispatch(
        &mut self,
        packet_id: i32,
        payload: &[u8],
        server: &ServerData,
        out: &mut BytesMut,
    ) -> (r: Result<bool>)
        ensures
            match react(old(self)@, packet_id, payload@, server) {
                Ok(reaction) => {
                    &&& r == Ok::<bool, MinecraftError>(reaction.keep_open)
                    &&& final(self)@ == reaction.state
                    &&& buffer_bytes(final(out)) == buffer_bytes(old(out)) + reaction.replies
                },
                Err(kind) => {
                    &&& r matches Err(e) && e.kind() == kind
                    &&& final(self)@ == old(self)@
                    &&& buffer_bytes(final(out)) == buffer_bytes(old(out))
                },
            },
    {
        proof {
            reveal(react);
            assert(buffer_bytes(out) + Seq::<u8>::empty() =~= buffer_bytes(out));
        }
        match self.state {
            ConnectionState::Handshake => self.handle_handshake(packet_id, payload),
            ConnectionState::Status => Self::handle_status(packet_id, payload, out),
            ConnectionState::Login => self.handle_login(packet_id, payload, out),
            ConnectionState::Configuration => self.handle_configuration(
                packet_id,
                payload,
                server,
                out,
            ),
            ConnectionState::Play => Ok(true),
        }
    }

    fn handle_handshake(&mut self, packet_id: i32, payload: &[u8]) -> (r: Result<bool>)
        requires
            old(self)@ == ConnectionState::Handshake,
        ensures
            match react_in_handshake(packet_id, payload@) {
                Ok(reaction) => {
                    &&& r == Ok::<bool, MinecraftError>(reaction.keep_open)
                    &&& final(self)@ == reaction.state
                    &&& reaction.replies == Seq::<u8>::empty()
                },
                Err(kind) => {
                    &&& r matches Err(e) && e.kind() == kind
                    &&& final(self)@ == old(self)@
                },
            },
    {
        if packet_id == HANDSHAKE_PACKET_ID {
            let handshake = match read_handshake(payload) {
                Ok(handshake) => handshake,
                Err(e) => {
                    return Err(e);
                },
            };
            if handshake.next_state == 1 {
                self.state = ConnectionState::Status;
            } else if handshake.next_state == 2 {
                self.state = ConnectionState::Login;
            } else {
                return Err(MinecraftError::Protocol("Unexpected next state".to_string()));
            }
        }
        Ok(true)
    }

    fn handle_status(packet_id: i32, payload: &[u8], out: &mut BytesMut) -> (r: Result<bool>)
        ensures
            match react_in_status(packet_id, payload@) {
                Ok(reaction) => {
                    &&& r == Ok::<bool, MinecraftError>(reaction.keep_open)
                    &&& reaction.state == ConnectionState::Status
                    &&& buffer_bytes(final(out)) == buffer_bytes(old(out)) + reaction.replies
                },
                Err(kind) => {
                    &&& r matches Err(e) && e.kind() == kind
                    &&& buffer_bytes(final(out)) == buffer_bytes(old(out))
                },
            },
    {
        proof {
            assert(buffer_bytes(out) + Seq::<u8>::empty() =~= buffer_bytes(out));
        }
        if packet_id == STATUS_REQUEST_PACKET_ID {
            let response = Self::status_response().render();
            Self::send_status_response(out, response.as_str());
            Ok(true)
        } else if packet_id == PING_REQUEST_PACKET_ID {
            let mut packet_data: &[u8] = payload;
            let ping = match PacketReader::read_long(&mut packet_data) {
                Ok(ping) => ping,
                Err(e) => {
                    return Err(e);
                },
            };
            proof {
                lemma_long_round_trip(payload@.subrange(0, 8));
            }
            Self::send_pong_response(out, ping);
            Ok(false)
        } else {
            Ok(true)
        }
    }

    fn handle_login(&mut self, packet_id: i32, payload: &[u8], out: &mut BytesMut) -> (r: Result<
        bool,
    >)
        requires
            old(self)@ == ConnectionState::Login,
        ensures
            match react_in_login(packet_id, payload@) {
                Ok(reaction) => {
                    &&& r == Ok::<bool, MinecraftError>(reaction.keep_open)
                    &&& final(self)@ == reaction.state
                    &&& buffer_bytes(final(out)) == buffer_bytes(old(out)) + reaction.replies
                },
                Err(kind) => {
                    &&& r matches Err(e) && e.kind() == kind
                    &&& final(self)@ == old(self)@
                    &&& buffer_bytes(final(out)) == buffer_bytes(old(out))
                },
            },
    {
        proof {
            assert(buffer_bytes(out) + Seq::<u8>::empty() =~= buffer_bytes(out));
        }
        if packet_id == LOGIN_START_PACKET_ID {
            let mut packet_data: &[u8] = payload;
            let username = match PacketReader::read_string(&mut packet_data) {
                Ok(username) => username,
                Err(e) => {
                    return Err(e);
                },
            };
            match Self::send_login_success(out, PLACEHOLDER_UUID, username.as_str()) {
                Ok(()) => Ok(true),
                Err(e) => Err(e),
            }
        } else if packet_id == LOGIN_ACKNOWLEDGED_PACKET_ID {
            self.state = ConnectionState::Configuration;
            Self::send_known_packs(out);
            Ok(true)
        } else {
            Ok(true)
        }
    }

    fn handle_configuration(
        &mut self,
        packet_id: i32,
        payload: &[u8],
        server: &ServerData,
        out: &mut BytesMut,
    ) -> (r: Result<bool>)
        requires
            old(self)@ == ConnectionState::Configuration,
        ensures
            match react_in_configuration(packet_id, payload@, server) {
                Ok(reaction) => {
                    &&& r == Ok::<bool, MinecraftError>(reaction.keep_open)
                    &&& final(self)@ == reaction.state
                    &&& buffer_bytes(final(out)) == buffer_bytes(old(out)) + reaction.replies
                },
                Err(kind) => {
                    &&& r matches Err(e) && e.kind() == kind
                    &&& final(self)@ == old(self)@
                    &&& buffer_bytes(final(out)) == buffer_bytes(old(out))
                },
            },
    {
        let ghost start = buffer_bytes(out);
        proof {
            assert(start + Seq::<u8>::empty() =~= start);
        }
        if packet_id == CLIENT_INFORMATION_PACKET_ID {
            match read_client_information(payload) {
                Ok(_) => Ok(true),
                Err(e) => Err(e),
            }
        } else if packet_id == PLUGIN_MESSAGE_PACKET_ID {
            let mut packet_data: &[u8] = payload;
            match PacketReader::read_plugin_message(&mut packet_data) {
                Ok(_) => Ok(true),
                Err(e) => Err(e),
            }
        } else if packet_id == FINISH_CONFIGURATION_PACKET_ID {
            self.state = ConnectionState::Play;
            Ok(true)
        } else if packet_id == KNOWN_PACKS_PACKET_ID {
            match read_known_packs(payload) {
                Ok(_) => {
                    Self::send_configuration(out, server);
                    Ok(true)
                },
                Err(e) => Err(e),
            }
        } else {
            Ok(true)
        }
    }

    /// Builds the document that answers a status request.
    pub fn status_response() -> (response: JsonValue)
        ensures
            response@ == status_document(),
    {
        let mut version: Vec<(String, JsonValue)> = Vec::new();
        proof {
            assert(member_documents(version@) =~= Seq::empty());
        }
        push_member(&mut version, "name", JsonValue::text("1.21.1"));
        push_member(&mut version, "protocol", JsonValue::integer(PROTOCOL_VERSION as i64));
        proof {
            assert(member_documents(version@) =~= seq![
                ("name"@, JsonDocument::Text("1.21.1"@)),
                ("protocol"@, JsonDocument::Integer(PROTOCOL_VERSION as int)),
            ]);
        }
        let version = JsonValue::object(version);

        let mut player: Vec<(String, JsonValue)> = Vec::new();
        proof {
            assert(member_documents(player@) =~= Seq::empty());
        }
        push_member(&mut player, "name", JsonValue::text("Player"));
        push_member(&mut player, "id", JsonValue::text(PLACEHOLDER_UUID));
        proof {
            assert(member_documents(player@) =~= seq![
                ("name"@, JsonDocument::Text("Player"@)),
                ("id"@, JsonDocument::Text(PLACEHOLDER_UUID@)),
            ]);
        }
        let player = JsonValue::object(player);
        let ghost player_document = player@;

        let mut sample: Vec<JsonValue> = Vec::new();
        proof {
            assert(documents(sample@) =~= Seq::empty());
        }
        push_item(&mut sample, player);
        proof {
            assert(documents(sample@) =~= seq![player_document]);
        }
        let sample = JsonValue::array(sample);
        let ghost sample_document = sample@;

        let mut players: Vec<(String, JsonValue)> = Vec::new();
        proof {
            assert(member_documents(players@) =~= Seq::empty());
        }
        push_member(&mut players, "max", JsonValue::integer(100));
        push_member(&mut players, "online", JsonValue::integer(4));
        push_member(&mut players, "sample", sample);
        proof {
            assert(member_documents(players@) =~= seq![
                ("max"@, JsonDocument::Integer(100)),
                ("online"@, JsonDocument::Integer(4)),
                ("sample"@, sample_document),
            ]);
        }
        let players = JsonValue::object(players);
        let ghost players_document = players@;

        let mut description: Vec<(String, JsonValue)> = Vec::new();
        proof {
            assert(member_documents(description@) =~= Seq::empty());
        }
        push_member(&mut description, "text", JsonValue::text("Hello world!"));
        proof {
            assert(member_documents(description@) =~= seq![
                ("text"@, JsonDocument::Text("Hello world!"@)),
            ]);
        }
        let description = JsonValue::object(description);
        let ghost version_document = version@;
        let ghost description_document = description@;

        let mut response: Vec<(String, JsonValue)> = Vec::new();
        proof {
            assert(member_documents(response@) =~= Seq::empty());
        }
        push_member(&mut response, "version", version);
        push_member(&mut response, "players", players);
        push_member(&mut response, "description", description);
        proof {
            assert(member_documents(response@) =~= seq![
                ("version"@, version_document),
                ("players"@, players_document),
                ("description"@, description_document),
            ]);
        }
        let response = JsonValue::object(response);
        response
    }

    /// Appends to `out` the frame that answers a status request with the
    /// document `response`.
    pub fn send_status_response(out: &mut BytesMut, response: &str)
        ensures
            buffer_bytes(final(out)) == buffer_bytes(old(out)) + status_response_bytes(response@),
    {
        let mut content = BytesMut::new();
        PacketReader::write_varint(&mut content, STATUS_RESPONSE_PACKET_ID);
        proof {
            assert(buffer_bytes(&content) =~= varint_bytes(STATUS_RESPONSE_PACKET_ID));
        }
        PacketReader::write_string(&mut content, response);

        let packet = frame_packet(&content);
        out.extend_from_slice(as_slice(&packet));
    }

    /// Appends to `out` the frame that answers a ping: nine bytes, of which
    /// the first is the packet id and the others are `payload`.
    pub fn send_pong_response(out: &mut BytesMut, payload: i64)
        ensures
            buffer_bytes(final(out)) == buffer_bytes(old(out)) + pong_response_bytes(
                long_bytes(payload),
            ),
    {
        let ghost start = buffer_bytes(out);
        let mut packet = BytesMut::new();

        PacketReader::write_varint(&mut packet, 9);
        PacketReader::write_varint(&mut packet, PONG_RESPONSE_PACKET_ID);

        put_i64(&mut packet, payload);
        proof {
            lemma_long_bytes_len(payload);
            lemma_encode_word_len(1);
            let body = varint_bytes(PONG_RESPONSE_PACKET_ID) + long_bytes(payload);
            assert(body.len() == 9);
            assert(buffer_bytes(&packet) =~= frame_bytes(body));
        }

        out.extend_from_slice(as_slice(&packet));
    }

    /// Builds the frame that tells a player that the login succeeded.
    pub fn login_success_packet(uuid: &[u8; 16], username: &str) -> (packet: BytesMut)
        ensures
            buffer_bytes(&packet) == login_success_bytes(uuid@, username@),
    {
        let mut content = BytesMut::new();

        PacketReader::write_varint(&mut content, LOGIN_SUCCESS_PACKET_ID);
        proof {
            assert(buffer_bytes(&content) =~= varint_bytes(LOGIN_SUCCESS_PACKET_ID));
        }

        content.extend_from_slice(uuid.as_slice());

        PacketReader::write_string(&mut content, username);

        PacketReader::write_varint(&mut content, 0);

        put_u8(&mut content, 0);
        proof {
            assert(buffer_bytes(&content) =~= varint_bytes(LOGIN_SUCCESS_PACKET_ID) + uuid@
                + string_bytes(username@) + varint_bytes(0) + seq![0u8]);
        }

        frame_packet(&content)
    }

    /// Appends to `out` the frame that tells the player `username` with the
    /// UUID `uuid_str` that the login succeeded. Where `uuid_str` spells no
    /// UUID, nothing is appended.
    pub fn send_login_success(out: &mut BytesMut, uuid_str: &str, username: &str) -> (r: Result<()>)
        ensures
            r is Ok ==> (uuid_of(uuid_str@) matches Some(uuid) && uuid.len() == 16),
            match login_success_reply(uuid_str@, username@) {
                Ok(reply) => r is Ok && buffer_bytes(final(out)) == buffer_bytes(old(out)) + reply,
                Err(kind) => {
                    &&& r matches Err(e) && e.kind() == kind
                    &&& buffer_bytes(final(out)) == buffer_bytes(old(out))
                },
            },
    {
        let uuid = match parse_uuid(uuid_str) {
            Some(uuid) => uuid,
            None => {
                return Err(MinecraftError::Protocol("Invalid UUID".to_string()));
            },
        };
        let packet = Self::login_success_packet(&uuid, username);
        out.extend_from_slice(as_slice(&packet));
        Ok(())
    }

    /// Appends a keep-alive to `out`.
    pub fn send_keep_alive(out: &mut BytesMut)
        ensures
            buffer_bytes(final(out)) == buffer_bytes(old(out)) + keep_alive_bytes(),
    {
        let ghost start = buffer_bytes(out);
        PacketReader::write_varint(out, KEEP_ALIVE_PACKET_ID);
        put_i64(out, KEEP_ALIVE_PAYLOAD);
        proof {
            lemma_concat_assoc(
                start,
                varint_bytes(KEEP_ALIVE_PACKET_ID),
                long_bytes(KEEP_ALIVE_PAYLOAD),
            );
        }
    }

    /// Appends to `out` the frame that names the one data pack that the
    /// server knows: `core` of `minecraft`, in version 1.21.1.
    pub fn send_known_packs(out: &mut BytesMut)
        ensures
            buffer_bytes(final(out)) == buffer_bytes(old(out)) + known_packs_bytes(),
    {
        let mut content = BytesMut::new();

        PacketReader::write_varint(&mut content, SELECT_KNOWN_PACKS_PACKET_ID);
        proof {
            assert(buffer_bytes(&content) =~= varint_bytes(SELECT_KNOWN_PACKS_PACKET_ID));
        }

        PacketReader::write_varint(&mut content, 1);

        PacketReader::write_string(&mut content, "minecraft");
        PacketReader::write_string(&mut content, "core");
        PacketReader::write_string(&mut content, "1.21.1");

        let packet = frame_packet(&content);
        out.extend_from_slice(as_slice(&packet));
    }

    /// Appends to `out` the frames that announce the registries and the frame
    /// that carries the tags.
    pub fn send_registry_data(out: &mut BytesMut, server: &ServerData)
        ensures
            buffer_bytes(final(out)) == buffer_bytes(old(out)) + registry_data_bytes(
                server.registry@,
            ) + update_tags_bytes(server.tags),
    {
        server.registry.write_registry_data(out);
        server.registry.write_update_tags(&server.tags, out);
    }

    /// Appends to `out` all that answers the client's list of known packs.
    fn send_configuration(out: &mut BytesMut, server: &ServerData)
        ensures
            buffer_bytes(final(out)) == buffer_bytes(old(out)) + configuration_bytes(server),
    {
        let ghost start = buffer_bytes(out);
        Self::send_registry_data(out, server);
        Self::send_finish_configuration(out);
        proof {
            let registries = registry_data_bytes(server.registry@);
            let tags = update_tags_bytes(server.tags);
            lemma_concat_assoc(start, registries, tags);
            lemma_concat_assoc(start, registries + tags, finish_configuration_bytes());
        }
    }

    /// Appends to `out` the frame that ends the configuration.
    pub fn send_finish_configuration(out: &mut BytesMut)
        ensures
            buffer_bytes(final(out)) == buffer_bytes(old(out)) + finish_configuration_bytes(),
    {
        let mut packet = BytesMut::new();
        PacketReader::write_varint(&mut packet, FINISH_CONFIGURATION_PACKET_ID);
        proof {
            assert(buffer_bytes(&packet) =~= varint_bytes(FINISH_CONFIGURATION_PACKET_ID));
        }

        let final_packet = frame_packet(&packet);
        out.extend_from_slice(as_slice(&final_packet));
    }
}

/// A handshake that asks for state 1 leads to the status exchange, one that
/// asks for state 2 to the login. One that asks for anything else is refused
/// as a protocol error, and the state stays as it is. No handshake is
/// answered.
pub proof fn lemma_handshake_transition(fields: HandshakeFields, server: &ServerData)
    requires
        encode_utf8(fields.server_address).len() <= i32::MAX,
    ensures
        react(ConnectionState::Handshake, HANDSHAKE_PACKET_ID, handshake_bytes(fields), server)
            == if fields.next_state == 1 {
            quiet(ConnectionState::Status)
        } else if fields.next_state == 2 {
            quiet(ConnectionState::Login)
        } else {
            Err(ErrorKind::Protocol)
        },
{
    reveal(react);
    lemma_handshake_round_trip(fields, Seq::empty());
    assert(handshake_bytes(fields) + Seq::<u8>::empty() =~= handshake_bytes(fields));
}

/// A login start is answered with the login's success for the name it gives,
/// and the state stays the login. Only the client's acknowledgement leads to
/// the configuration; it is answered with the known packs.
pub proof fn lemma_login_flow(username: Seq<char>, acknowledgement: Seq<u8>, server: &ServerData)
    requires
        encode_utf8(username).len() <= i32::MAX,
    ensures
        react(ConnectionState::Login, LOGIN_START_PACKET_ID, string_bytes(username), server)
            == match uuid_of(PLACEHOLDER_UUID@) {
            Some(uuid) => Ok(
                Reaction {
                    state: ConnectionState::Login,
                    replies: login_success_bytes(uuid, username),
                    keep_open: true,
                },
            ),
            None => Err(ErrorKind::Protocol),
        },
        react(ConnectionState::Login, LOGIN_ACKNOWLEDGED_PACKET_ID, acknowledgement, server) == Ok::<
            Reaction,
            ErrorKind,
        >(
            Reaction {
                state: ConnectionState::Configuration,
                replies: known_packs_bytes(),
                keep_open: true,
            },
        ),
{
    reveal(react);
    lemma_string_round_trip(username, Seq::empty());
    assert(string_bytes(username) + Seq::<u8>::empty() =~= string_bytes(username));
}

/// A ping is answered with its own eight bytes, and the connection ends.
pub proof fn lemma_ping_is_echoed(echo: Seq<u8>, server: &ServerData)
    requires
        echo.len() == 8,
    ensures
        react(ConnectionState::Status, PING_REQUEST_PACKET_ID, echo, server) == Ok::<
            Reaction,
            ErrorKind,
        >(
            Reaction {
                state: ConnectionState::Status,
                replies: pong_response_bytes(echo),
                keep_open: false,
            },
        ),
{
    reveal(react);
    assert(echo.subrange(0, 8) =~= echo);
}

} // verus!
