use crate::buffer::{buffer_bytes, put_u8};
use crate::packet::frame::{frame_bytes, frame_packet};
use crate::packet::varint::varint_bytes;
use crate::packet::reader::PacketReader;
use crate::packet::wire::{identifier_bytes, length_prefix};
use crate::text::{split_first, split_once};
use bytes::BytesMut;
use vstd::prelude::*;

verus! {

/// The id of the packet that announces one registry.
pub const REGISTRY_DATA_PACKET_ID: i32 = 0x07;

/// The name of a registry entry, as namespace and path.
#[derive(Debug)]
pub struct RegistryEntry {
    pub namespace: String,
    pub name: String,
}

/// The namespace and the path that an entry's name stands for: the parts
/// before and after its first colon. A name without a colon lies in the
/// namespace `minecraft`.
pub open spec fn entry_parts(name: Seq<char>) -> (Seq<char>, Seq<char>) {
    match split_first(name, ':') {
        Some(parts) => parts,
        None => ("minecraft"@, name),
    }
}

/// One entry of a registry packet: the entry's identifier, then a zero byte
/// which says that no data follows.
pub open spec fn entry_bytes(name: Seq<char>) -> Seq<u8> {
    identifier_bytes(entry_parts(name).0, entry_parts(name).1).push(0u8)
}

/// The entries of a registry packet, one after the other.
pub open spec fn entries_bytes(names: Seq<Seq<char>>) -> Seq<u8>
    decreases names.len(),
{
    if names.len() == 0 {
        Seq::empty()
    } else {
        entries_bytes(names.drop_last()) + entry_bytes(names.last())
    }
}

/// The frame that announces the registry `registry_name` with the entries
/// `names`, in their order: the packet id, the registry's identifier, the
/// number of entries, the entries.
pub open spec fn registry_packet_bytes(registry_name: Seq<char>, names: Seq<Seq<char>>) -> Seq<u8> {
    frame_bytes(
        varint_bytes(REGISTRY_DATA_PACKET_ID) + identifier_bytes("minecraft"@, registry_name)
            + length_prefix(names.len()) + entries_bytes(names),
    )
}

/// The names that a slice of string slices holds.
pub open spec fn names_of(entries: Seq<&str>) -> Seq<Seq<char>> {
    entries.map_values(|entry: &str| entry@)
}

impl RegistryEntry {
    /// The entry that `name` stands for: `name` is cut at its first colon
    /// into namespace and path; without a colon it is a path in the
    /// namespace `minecraft`.
    pub fn new(name: &str) -> (entry: Self)
        ensures
            (entry.namespace@, entry.name@) == entry_parts(name@),
    {
        if let Some((namespace, name)) = split_once(name, ':') {
            Self { namespace: namespace.to_owned(), name: name.to_owned() }
        } else {
            Self { namespace: "minecraft".to_owned(), name: name.to_owned() }
        }
    }

    /// Appends the entry to `buf` as an identifier.
    pub fn write_to(&self, buf: &mut BytesMut)
        ensures
            buffer_bytes(final(buf)) == buffer_bytes(old(buf)) + identifier_bytes(
                self.namespace@,
                self.name@,
            ),
    {
        PacketReader::write_identifier(buf, self.namespace.as_str(), self.name.as_str());
    }
}

/// Builds the frame that announces one registry.
///
/// The body is the packet id, the registry's name in the namespace
/// `minecraft`, the number of entries, and for each entry its identifier and
/// a zero byte.
pub fn write_registry_packet(registry_name: &str, entries: &[&str]) -> (packet: BytesMut)
    ensures
        buffer_bytes(&packet) == registry_packet_bytes(registry_name@, names_of(entries@)),
{
    let mut packet = BytesMut::new();

    PacketReader::write_varint(&mut packet, REGISTRY_DATA_PACKET_ID);
    proof {
        assert(buffer_bytes(&packet) =~= varint_bytes(REGISTRY_DATA_PACKET_ID));
    }

    PacketReader::write_identifier(&mut packet, "minecraft", registry_name);

    PacketReader::write_varint(&mut packet, #[verifier::truncate] (entries.len() as i32));

    let ghost head = buffer_bytes(&packet);
    let ghost names = names_of(entries@);
    let mut i: usize = 0;
    while i < entries.len()
        invariant
            i <= entries@.len(),
            names == names_of(entries@),
            buffer_bytes(&packet) == head + entries_bytes(names.subrange(0, i as int)),
        decreases entries@.len() - i,
    {
        let registry_entry = RegistryEntry::new(entries[i]);
        registry_entry.write_to(&mut packet);
        put_u8(&mut packet, 0);
        proof {
            let done = names.subrange(0, i + 1);
            assert(done.drop_last() =~= names.subrange(0, i as int));
            assert(done.last() == entries@[i as int]@);
            assert(buffer_bytes(&packet) =~= head + entries_bytes(done));
        }
        i += 1;
    }
    proof {
        assert(names.subrange(0, i as int) =~= names);
    }

    frame_packet(&packet)
}

} // verus!
