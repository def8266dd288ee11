//! The payloads of the packets that a client sends.

use crate::error::{ErrorKind, Result};
use crate::packet::reader::PacketReader;
use crate::packet::varint::{lemma_varint_decode_used, lemma_varint_round_trip, varint_bytes};
use crate::packet::wire::{
    be_bytes, be_value, fixed_field, lemma_short_round_trip, lemma_string_round_trip, signed_byte,
    string_bytes, string_decode, varint_field, Decoded,
};
use vstd::prelude::*;
use vstd::utf8::encode_utf8;

verus! {

/// The first packet of a connection: what the client speaks and what it asks for.
#[derive(Debug)]
pub struct Handshake {
    pub protocol_version: i32,
    pub server_address: String,
    pub server_port: u16,
    pub next_state: i32,
}

/// The fields of a handshake, the text as characters.
pub struct HandshakeFields {
    pub protocol_version: i32,
    pub server_address: Seq<char>,
    pub server_port: u16,
    pub next_state: i32,
}

impl View for Handshake {
    type V = HandshakeFields;

    open spec fn view(&self) -> HandshakeFields {
        HandshakeFields {
            protocol_version: self.protocol_version,
            server_address: self.server_address@,
            server_port: self.server_port,
            next_state: self.next_state,
        }
    }
}

/// The settings that a client reports while it is configured.
#[derive(Debug)]
pub struct ClientInformation {
    pub locale: String,
    pub view_distance: i8,
    pub chat_mode: i32,
    pub chat_colors: bool,
    pub displayed_skin_parts: u8,
    pub main_hand: i32,
    pub enable_text_filtering: bool,
    pub allow_server_listings: bool,
}

/// The fields of a client's settings, the text as characters.
pub struct ClientInformationFields {
    pub locale: Seq<char>,
    pub view_distance: i8,
    pub chat_mode: i32,
    pub chat_colors: bool,
    pub displayed_skin_parts: u8,
    pub main_hand: i32,
    pub enable_text_filtering: bool,
    pub allow_server_listings: bool,
}

impl View for ClientInformation {
    type V = ClientInformationFields;

    open spec fn view(&self) -> ClientInformationFields {
        ClientInformationFields {
            locale: self.locale@,
            view_distance: self.view_distance,
            chat_mode: self.chat_mode,
            chat_colors: self.chat_colors,
            displayed_skin_parts: self.displayed_skin_parts,
            main_hand: self.main_hand,
            enable_text_filtering: self.enable_text_filtering,
            allow_server_listings: self.allow_server_listings,
        }
    }
}

/// A data pack that the client knows.
#[derive(Debug)]
pub struct KnownPack {
    pub namespace: String,
    pub id: String,
    pub version: String,
}

/// The fields of a known pack, as characters.
pub struct KnownPackFields {
    pub namespace: Seq<char>,
    pub id: Seq<char>,
    pub version: Seq<char>,
}

impl View for KnownPack {
    type V = KnownPackFields;

    open spec fn view(&self) -> KnownPackFields {
        KnownPackFields { namespace: self.namespace@, id: self.id@, version: self.version@ }
    }
}

/// The handshake that `payload` holds: protocol version, server address,
/// server port, requested next state. Bytes behind the last field are not
/// looked at.
pub open spec fn handshake_decode(payload: Seq<u8>) -> Decoded<HandshakeFields> {
    match varint_field(payload) {
        Err(kind) => Err(kind),
        Ok((protocol_version, a)) => match string_decode(payload.skip(a as int)) {
            Err(kind) => Err(kind),
            Ok((server_address, b)) => match fixed_field(
                payload.skip(a as int).skip(b as int),
                2,
            ) {
                Err(kind) => Err(kind),
                Ok((port, c)) => match varint_field(
                    payload.skip(a as int).skip(b as int).skip(c as int),
                ) {
                    Err(kind) => Err(kind),
                    Ok((next_state, _)) => Ok(
                        HandshakeFields {
                            protocol_version,
                            server_address,
                            server_port: be_value(port) as u16,
                            next_state,
                        },
                    ),
                },
            },
        },
    }
}

/// The three fields behind the locale and the view distance: chat mode, chat
/// colors, displayed skin parts.
pub open spec fn chat_settings_decode(bytes: Seq<u8>) -> Decoded<((i32, bool, u8), nat)> {
    match varint_field(bytes) {
        Err(kind) => Err(kind),
        Ok((chat_mode, a)) => match fixed_field(bytes.skip(a as int), 1) {
            Err(kind) => Err(kind),
            Ok((colors, b)) => match fixed_field(bytes.skip(a as int).skip(b as int), 1) {
                Err(kind) => Err(kind),
                Ok((parts, c)) => Ok(((chat_mode, colors[0] != 0, parts[0]), a + b + c)),
            },
        },
    }
}

/// The last three fields of a client's settings: main hand, text filtering,
/// server listing.
pub open spec fn hand_settings_decode(bytes: Seq<u8>) -> Decoded<(i32, bool, bool)> {
    match varint_field(bytes) {
        Err(kind) => Err(kind),
        Ok((main_hand, a)) => match fixed_field(bytes.skip(a as int), 1) {
            Err(kind) => Err(kind),
            Ok((filtering, b)) => match fixed_field(bytes.skip(a as int).skip(b as int), 1) {
                Err(kind) => Err(kind),
                Ok((listings, _)) => Ok((main_hand, filtering[0] != 0, listings[0] != 0)),
            },
        },
    }
}

/// The client's settings that `payload` holds: locale, view distance, chat
/// mode, chat colors, displayed skin parts, main hand, text filtering, server
/// listing.
pub open spec fn client_information_decode(payload: Seq<u8>) -> Decoded<ClientInformationFields> {
    match string_decode(payload) {
        Err(kind) => Err(kind),
        Ok((locale, a)) => match fixed_field(payload.skip(a as int), 1) {
            Err(kind) => Err(kind),
            Ok((distance, b)) => match chat_settings_decode(payload.skip(a as int).skip(b as int)) {
                Err(kind) => Err(kind),
                Ok(((chat_mode, chat_colors, displayed_skin_parts), c)) => match hand_settings_decode(
                    payload.skip(a as int).skip(b as int).skip(c as int),
                ) {
                    Err(kind) => Err(kind),
                    Ok((main_hand, enable_text_filtering, allow_server_listings)) => Ok(
                        ClientInformationFields {
                            locale,
                            view_distance: signed_byte(distance[0]),
                            chat_mode,
                            chat_colors,
                            displayed_skin_parts,
                            main_hand,
                            enable_text_filtering,
                            allow_server_listings,
                        },
                    ),
                },
            },
        },
    }
}

/// One known pack at the head of `bytes`: namespace, id, version; and the
/// number of bytes that the three take.
pub open spec fn known_pack_decode(bytes: Seq<u8>) -> Decoded<(KnownPackFields, nat)> {
    match string_decode(bytes) {
        Err(kind) => Err(kind),
        Ok((namespace, a)) => match string_decode(bytes.skip(a as int)) {
            Err(kind) => Err(kind),
            Ok((id, b)) => match string_decode(bytes.skip(a as int).skip(b as int)) {
                Err(kind) => Err(kind),
                Ok((version, c)) => Ok((KnownPackFields { namespace, id, version }, a + b + c)),
            },
        },
    }
}

/// `count` known packs, one after the other. A count below one gives none.
pub open spec fn known_pack_list_decode(bytes: Seq<u8>, count: int) -> Decoded<Seq<KnownPackFields>>
    decreases count,
{
    if count <= 0 {
        Ok(Seq::empty())
    } else {
        match known_pack_decode(bytes) {
            Err(kind) => Err(kind),
            Ok((pack, used)) => match known_pack_list_decode(bytes.skip(used as int), count - 1) {
                Err(kind) => Err(kind),
                Ok(rest) => Ok(seq![pack] + rest),
            },
        }
    }
}

/// The known packs that `payload` holds: their number, then the packs.
pub open spec fn known_packs_decode(payload: Seq<u8>) -> Decoded<Seq<KnownPackFields>> {
    match varint_field(payload) {
        Err(kind) => Err(kind),
        Ok((count, used)) => known_pack_list_decode(payload.skip(used as int), count as int),
    }
}

/// The views of a list of known packs.
pub open spec fn known_pack_views(packs: Seq<KnownPack>) -> Seq<KnownPackFields> {
    packs.map_values(|pack: KnownPack| pack@)
}

/// What a list of known packs comes to when `done` have been read and the
/// rest decodes as `tail`.
spec fn known_packs_after(
    done: Seq<KnownPackFields>,
    tail: Decoded<Seq<KnownPackFields>>,
) -> Decoded<Seq<KnownPackFields>> {
    match tail {
        Ok(rest) => Ok(done + rest),
        Err(kind) => Err(kind),
    }
}

/// Reads the payload of a handshake.
pub fn read_handshake(payload: &[u8]) -> (r: Result<Handshake>)
    ensures
        match handshake_decode(payload@) {
            Ok(fields) => r matches Ok(handshake) && handshake@ == fields,
            Err(kind) => r matches Err(e) && e.kind() == kind,
        },
{
    let mut packet_data: &[u8] = payload;
    let protocol_version = match PacketReader::read_varint(&mut packet_data) {
        Ok(v) => v,
        Err(e) => {
            return Err(e);
        },
    };
    let server_address = match PacketReader::read_string(&mut packet_data) {
        Ok(v) => v,
        Err(e) => {
            return Err(e);
        },
    };
    let server_port = match PacketReader::read_unsigned_short(&mut packet_data) {
        Ok(v) => v,
        Err(e) => {
            return Err(e);
        },
    };
    let next_state = match PacketReader::read_varint(&mut packet_data) {
        Ok(v) => v,
        Err(e) => {
            return Err(e);
        },
    };
    Ok(Handshake { protocol_version, server_address, server_port, next_state })
}

/// Reads the payload of a client's settings.
pub fn read_client_information(payload: &[u8]) -> (r: Result<ClientInformation>)
    ensures
        match client_information_decode(payload@) {
            Ok(fields) => r matches Ok(information) && information@ == fields,
            Err(kind) => r matches Err(e) && e.kind() == kind,
        },
{
    let mut packet_data: &[u8] = payload;
    let locale = match PacketReader::read_string(&mut packet_data) {
        Ok(v) => v,
        Err(e) => {
            return Err(e);
        },
    };
    let view_distance = match PacketReader::read_byte(&mut packet_data) {
        Ok(v) => v,
        Err(e) => {
            return Err(e);
        },
    };
    let ghost settings = packet_data@;
    let chat_mode = match PacketReader::read_varint(&mut packet_data) {
        Ok(v) => v,
        Err(e) => {
            return Err(e);
        },
    };
    let chat_colors = match PacketReader::read_boolean(&mut packet_data) {
        Ok(v) => v,
        Err(e) => {
            return Err(e);
        },
    };
    let displayed_skin_parts = match PacketReader::read_unsigned_byte(&mut packet_data) {
        Ok(v) => v,
        Err(e) => {
            return Err(e);
        },
    };
    proof {
        let used = chat_settings_decode(settings).unwrap().1;
        lemma_varint_decode_used(settings);
        assert(packet_data@ =~= settings.skip(used as int));
    }
    let main_hand = match PacketReader::read_varint(&mut packet_data) {
        Ok(v) => v,
        Err(e) => {
            return Err(e);
        },
    };
    let enable_text_filtering = match PacketReader::read_boolean(&mut packet_data) {
        Ok(v) => v,
        Err(e) => {
            return Err(e);
        },
    };
    let allow_server_listings = match PacketReader::read_boolean(&mut packet_data) {
        Ok(v) => v,
        Err(e) => {
            return Err(e);
        },
    };
    Ok(
        ClientInformation {
            locale,
            view_distance,
            chat_mode,
            chat_colors,
            displayed_skin_parts,
            main_hand,
            enable_text_filtering,
            allow_server_listings,
        },
    )
}

/// Reads one known pack from the head of `buf`.
pub fn read_known_pack(buf: &mut &[u8]) -> (r: Result<KnownPack>)
    ensures
        match known_pack_decode(old(buf)@) {
            Ok((fields, used)) => {
                &&& r matches Ok(pack) && pack@ == fields
                &&& final(buf)@ == old(buf)@.skip(used as int)
            },
            Err(kind) => {
                &&& r matches Err(e) && e.kind() == kind
                &&& final(buf)@ == old(buf)@
            },
        },
{
    let mut cursor: &[u8] = *buf;
    let namespace = match PacketReader::read_string(&mut cursor) {
        Ok(v) => v,
        Err(e) => {
            return Err(e);
        },
    };
    let id = match PacketReader::read_string(&mut cursor) {
        Ok(v) => v,
        Err(e) => {
            return Err(e);
        },
    };
    let version = match PacketReader::read_string(&mut cursor) {
        Ok(v) => v,
        Err(e) => {
            return Err(e);
        },
    };
    proof {
        let here = old(buf)@;
        lemma_string_decode_used(here);
        let a = string_decode(here).unwrap().1;
        lemma_string_decode_used(here.skip(a as int));
        let b = string_decode(here.skip(a as int)).unwrap().1;
        lemma_string_decode_used(here.skip(a as int).skip(b as int));
        let c = string_decode(here.skip(a as int).skip(b as int)).unwrap().1;
        assert(cursor@ =~= here.skip((a + b + c) as int));
    }
    *buf = cursor;
    Ok(KnownPack { namespace, id, version })
}

/// Reads the payload of the client's list of known packs.
pub fn read_known_packs(payload: &[u8]) -> (r: Result<Vec<KnownPack>>)
    ensures
        match known_packs_decode(payload@) {
            Ok(packs) => r matches Ok(list) && known_pack_views(list@) == packs,
            Err(kind) => r matches Err(e) && e.kind() == kind,
        },
{
    let mut packet_data: &[u8] = payload;
    let pack_count = match PacketReader::read_varint(&mut packet_data) {
        Ok(v) => v,
        Err(e) => {
            return Err(e);
        },
    };
    let ghost list = packet_data@;
    let mut known_packs: Vec<KnownPack> = Vec::new();
    let mut read: i32 = 0;
    proof {
        assert(known_pack_views(known_packs@) + Seq::<KnownPackFields>::empty()
            =~= known_pack_views(known_packs@));
        match known_pack_list_decode(list, pack_count as int) {
            Ok(rest) => {
                assert(known_pack_views(known_packs@) + rest =~= rest);
            },
            Err(_) => {},
        }
    }
    while read < pack_count
        invariant
            0 <= read,
            read <= pack_count || pack_count < 0,
            known_packs_decode(payload@) == known_pack_list_decode(list, pack_count as int),
            known_pack_list_decode(list, pack_count as int) == known_packs_after(
                known_pack_views(known_packs@),
                known_pack_list_decode(packet_data@, pack_count - read),
            ),
        decreases pack_count - read,
    {
        let ghost done = known_pack_views(known_packs@);
        let pack = match read_known_pack(&mut packet_data) {
            Ok(v) => v,
            Err(e) => {
                return Err(e);
            },
        };
        let ghost fields = pack@;
        known_packs.push(pack);
        read += 1;
        proof {
            assert(known_pack_views(known_packs@) =~= done.push(fields));
            match known_pack_list_decode(packet_data@, pack_count - read) {
                Ok(rest) => {
                    assert(done + (seq![fields] + rest) =~= done.push(fields) + rest);
                },
                Err(_) => {},
            }
        }
    }
    proof {
        assert(known_pack_views(known_packs@) + Seq::<KnownPackFields>::empty()
            =~= known_pack_views(known_packs@));
    }
    Ok(known_packs)
}

/// A string field lies within the bytes it is read from.
pub proof fn lemma_string_decode_used(bytes: Seq<u8>)
    ensures
        string_decode(bytes) matches Ok((_, used)) ==> 1 <= used <= bytes.len(),
{
    lemma_varint_decode_used(bytes);
}

/// The payload of a handshake with the given fields.
pub open spec fn handshake_bytes(fields: HandshakeFields) -> Seq<u8> {
    varint_bytes(fields.protocol_version) + string_bytes(fields.server_address) + be_bytes(
        fields.server_port as nat,
        2,
    ) + varint_bytes(fields.next_state)
}

/// A handshake round-trips: reading the payload that holds `fields` gives
/// `fields`, whatever follows. The address must be short enough for its
/// length to be a signed 32-bit value.
pub proof fn lemma_handshake_round_trip(fields: HandshakeFields, rest: Seq<u8>)
    requires
        encode_utf8(fields.server_address).len() <= i32::MAX,
    ensures
        handshake_decode(handshake_bytes(fields) + rest) == Ok::<HandshakeFields, ErrorKind>(
            fields,
        ),
{
    let version = varint_bytes(fields.protocol_version);
    let address = string_bytes(fields.server_address);
    let port = be_bytes(fields.server_port as nat, 2);
    let next = varint_bytes(fields.next_state);
    let payload = handshake_bytes(fields) + rest;
    assert(payload =~= version + (address + (port + (next + rest))));
    lemma_varint_round_trip(fields.protocol_version, address + (port + (next + rest)));
    let a = version.len();
    assert(payload.skip(a as int) =~= address + (port + (next + rest)));
    lemma_string_round_trip(fields.server_address, port + (next + rest));
    let b = address.len();
    assert(payload.skip(a as int).skip(b as int) =~= port + (next + rest));
    lemma_short_round_trip(fields.server_port);
    assert((port + (next + rest)).subrange(0, 2) =~= port);
    assert(payload.skip(a as int).skip(b as int).skip(2) =~= next + rest);
    lemma_varint_round_trip(fields.next_state, rest);
}

} // verus!
