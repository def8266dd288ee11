use crate::buffer::{as_slice, buffer_bytes};
use crate::packet::frame::{frame_bytes, frame_packet};
use crate::packet::reader::PacketReader;
use crate::packet::varint::varint_bytes;
use crate::packet::wire::{identifier_bytes, lemma_concat_assoc, length_prefix};
use crate::registry::entry::{registry_packet_bytes, write_registry_packet};
use crate::registry::{Registry, RegistryData};
use crate::tag::{TagData, TagGroup};
use bytes::BytesMut;
use vstd::prelude::*;

verus! {

/// The id of the packet that carries the tags of all registries.
pub const UPDATE_TAGS_PACKET_ID: i32 = 0x0D;

/// Encodes the catalog of registries and tags for the wire.
pub struct RegistryManager {
    registry_data: RegistryData,
}

impl View for RegistryManager {
    type V = RegistryData;

    closed spec fn view(&self) -> RegistryData {
        self.registry_data
    }
}

/// The frames that announce the registries, one frame for each registry type.
pub open spec fn registry_data_bytes(data: RegistryData) -> Seq<u8> {
    registry_packet_bytes("worldgen/biome"@, data.biomes.names())
        + registry_packet_bytes("chat_type"@, data.chat_types.names())
        + registry_packet_bytes("trim_pattern"@, data.trim_patterns.names())
        + registry_packet_bytes("trim_material"@, data.trim_materials.names())
        + registry_packet_bytes("wolf_variant"@, data.wolf_variants.names())
        + registry_packet_bytes("painting_variant"@, data.painting_variants.names())
        + registry_packet_bytes("dimension_type"@, data.dimension_types.names())
        + registry_packet_bytes("damage_type"@, data.damage_types.names())
        + registry_packet_bytes("banner_pattern"@, data.banner_patterns.names())
        + registry_packet_bytes("enchantment"@, data.enchantments.names())
        + registry_packet_bytes("jukebox_song"@, data.jukebox_songs.names())
}

/// The entry ids of one tag, one after the other.
pub open spec fn tag_entries_bytes(ids: Seq<i32>) -> Seq<u8>
    decreases ids.len(),
{
    if ids.len() == 0 {
        Seq::empty()
    } else {
        tag_entries_bytes(ids.drop_last()) + varint_bytes(ids.last())
    }
}

/// One tag: its identifier, the number of its entries, the entries.
pub open spec fn tag_group_bytes(group: TagGroup) -> Seq<u8> {
    identifier_bytes(group.tag_name.namespace@, group.tag_name.name@) + length_prefix(
        group.entries@.len(),
    ) + tag_entries_bytes(group.entries@)
}

/// Tags, one after the other.
pub open spec fn tag_groups_bytes(groups: Seq<TagGroup>) -> Seq<u8>
    decreases groups.len(),
{
    if groups.len() == 0 {
        Seq::empty()
    } else {
        tag_groups_bytes(groups.drop_last()) + tag_group_bytes(groups.last())
    }
}

/// The tags of one registry type: its identifier in the namespace
/// `minecraft`, the number of tags, the tags. A registry type without tags
/// gives no bytes at all.
pub open spec fn registry_tags_bytes(registry_name: Seq<char>, groups: Seq<TagGroup>) -> Seq<u8> {
    if groups.len() == 0 {
        Seq::empty()
    } else {
        identifier_bytes("minecraft"@, registry_name) + length_prefix(groups.len())
            + tag_groups_bytes(groups)
    }
}

/// One for a registry type that has tags, zero for one that has none.
pub open spec fn tagged(groups: Seq<TagGroup>) -> int {
    if groups.len() == 0 {
        0
    } else {
        1
    }
}

/// The number of registry types that have tags.
pub open spec fn tagged_registries(tags: TagData) -> int {
    tagged(tags.banner_patterns@) + tagged(tags.blocks@) + tagged(tags.cat_variants@) + tagged(
        tags.damage_types@,
    ) + tagged(tags.enchantments@) + tagged(tags.entity_types@) + tagged(tags.fluids@) + tagged(
        tags.game_events@,
    ) + tagged(tags.instruments@) + tagged(tags.items@) + tagged(tags.painting_variants@) + tagged(
        tags.point_of_interest_types@,
    ) + tagged(tags.worldgen_biomes@)
}

/// The frame that carries all tags: the packet id, the number of registry
/// types that have tags, then the tags of each of them.
pub open spec fn update_tags_bytes(tags: TagData) -> Seq<u8> {
    frame_bytes(
        varint_bytes(UPDATE_TAGS_PACKET_ID) + varint_bytes(tagged_registries(tags) as i32)
            + registry_tags_bytes("banner_pattern"@, tags.banner_patterns@)
            + registry_tags_bytes("block"@, tags.blocks@)
            + registry_tags_bytes("cat_variant"@, tags.cat_variants@)
            + registry_tags_bytes("damage_type"@, tags.damage_types@)
            + registry_tags_bytes("enchantment"@, tags.enchantments@)
            + registry_tags_bytes("entity_type"@, tags.entity_types@)
            + registry_tags_bytes("fluid"@, tags.fluids@)
            + registry_tags_bytes("game_event"@, tags.game_events@)
            + registry_tags_bytes("instrument"@, tags.instruments@)
            + registry_tags_bytes("item"@, tags.items@)
            + registry_tags_bytes("painting_variant"@, tags.painting_variants@)
            + registry_tags_bytes("point_of_interest_type"@, tags.point_of_interest_types@)
            + registry_tags_bytes("worldgen/biome"@, tags.worldgen_biomes@),
    )
}

impl RegistryManager {
    /// A manager of the given catalog.
    pub fn new(registry_data: RegistryData) -> (manager: Self)
        ensures
            manager@ == registry_data,
    {
        Self { registry_data }
    }

    /// Appends to `out` the frames that announce the registries.
    pub fn write_registry_data(&self, out: &mut BytesMut)
        ensures
            buffer_bytes(final(out)) == buffer_bytes(old(out)) + registry_data_bytes(self@),
    {
        let ghost start = buffer_bytes(out);
        Self::send_registry_packet(out, "worldgen/biome", &self.registry_data.biomes);
        let ghost mut sent = registry_packet_bytes("worldgen/biome"@, self@.biomes.names());
        Self::send_registry_packet(out, "chat_type", &self.registry_data.chat_types);
        proof {
            let frame = registry_packet_bytes("chat_type"@, self@.chat_types.names());
            lemma_concat_assoc(start, sent, frame);
            sent = sent + frame;
        }
        Self::send_registry_packet(out, "trim_pattern", &self.registry_data.trim_patterns);
        proof {
            let frame = registry_packet_bytes("trim_pattern"@, self@.trim_patterns.names());
            lemma_concat_assoc(start, sent, frame);
            sent = sent + frame;
        }
        Self::send_registry_packet(out, "trim_material", &self.registry_data.trim_materials);
        proof {
            let frame = registry_packet_bytes("trim_material"@, self@.trim_materials.names());
            lemma_concat_assoc(start, sent, frame);
            sent = sent + frame;
        }
        Self::send_registry_packet(out, "wolf_variant", &self.registry_data.wolf_variants);
        proof {
            let frame = registry_packet_bytes("wolf_variant"@, self@.wolf_variants.names());
            lemma_concat_assoc(start, sent, frame);
            sent = sent + frame;
        }
        Self::send_registry_packet(out, "painting_variant", &self.registry_data.painting_variants);
        proof {
            let frame = registry_packet_bytes("painting_variant"@, self@.painting_variants.names());
            lemma_concat_assoc(start, sent, frame);
            sent = sent + frame;
        }
        Self::send_registry_packet(out, "dimension_type", &self.registry_data.dimension_types);
        proof {
            let frame = registry_packet_bytes("dimension_type"@, self@.dimension_types.names());
            lemma_concat_assoc(start, sent, frame);
            sent = sent + frame;
        }
        Self::send_registry_packet(out, "damage_type", &self.registry_data.damage_types);
        proof {
            let frame = registry_packet_bytes("damage_type"@, self@.damage_types.names());
            lemma_concat_assoc(start, sent, frame);
            sent = sent + frame;
        }
        Self::send_registry_packet(out, "banner_pattern", &self.registry_data.banner_patterns);
        proof {
            let frame = registry_packet_bytes("banner_pattern"@, self@.banner_patterns.names());
            lemma_concat_assoc(start, sent, frame);
            sent = sent + frame;
        }
        Self::send_registry_packet(out, "enchantment", &self.registry_data.enchantments);
        proof {
            let frame = registry_packet_bytes("enchantment"@, self@.enchantments.names());
            lemma_concat_assoc(start, sent, frame);
            sent = sent + frame;
        }
        Self::send_registry_packet(out, "jukebox_song", &self.registry_data.jukebox_songs);
        proof {
            let frame = registry_packet_bytes("jukebox_song"@, self@.jukebox_songs.names());
            lemma_concat_assoc(start, sent, frame);
            sent = sent + frame;
        }
    }

    /// Appends to `out` the frame that announces one registry.
    fn send_registry_packet<T>(out: &mut BytesMut, registry_name: &str, entries: &Registry<T>)
        ensures
            buffer_bytes(final(out)) == buffer_bytes(old(out)) + registry_packet_bytes(
                registry_name@,
                entries.names(),
            ),
    {
        let entries: Vec<&str> = entries.keys();
        let packet = write_registry_packet(registry_name, entries.as_slice());

        out.extend_from_slice(as_slice(&packet));
    }

    /// Appends to `out` the frame that carries the tags of all registries.
    pub fn write_update_tags(&self, tag_data: &TagData, out: &mut BytesMut)
        ensures
            buffer_bytes(final(out)) == buffer_bytes(old(out)) + update_tags_bytes(*tag_data),
    {
        let mut packet = BytesMut::new();

        PacketReader::write_varint(&mut packet, UPDATE_TAGS_PACKET_ID);
        proof {
            assert(buffer_bytes(&packet) =~= varint_bytes(UPDATE_TAGS_PACKET_ID));
        }

        let registry_count: i32 = Self::has_tags(&tag_data.banner_patterns) + Self::has_tags(
            &tag_data.blocks,
        ) + Self::has_tags(&tag_data.cat_variants) + Self::has_tags(&tag_data.damage_types)
            + Self::has_tags(&tag_data.enchantments) + Self::has_tags(&tag_data.entity_types)
            + Self::has_tags(&tag_data.fluids) + Self::has_tags(&tag_data.game_events)
            + Self::has_tags(&tag_data.instruments) + Self::has_tags(&tag_data.items)
            + Self::has_tags(&tag_data.painting_variants) + Self::has_tags(
            &tag_data.point_of_interest_types,
        ) + Self::has_tags(&tag_data.worldgen_biomes);

        PacketReader::write_varint(&mut packet, registry_count);

        Self::write_tag_groups(&mut packet, "banner_pattern", tag_data.banner_patterns.as_slice());
        Self::write_tag_groups(&mut packet, "block", tag_data.blocks.as_slice());
        Self::write_tag_groups(&mut packet, "cat_variant", tag_data.cat_variants.as_slice());
        Self::write_tag_groups(&mut packet, "damage_type", tag_data.damage_types.as_slice());
        Self::write_tag_groups(&mut packet, "enchantment", tag_data.enchantments.as_slice());
        Self::write_tag_groups(&mut packet, "entity_type", tag_data.entity_types.as_slice());
        Self::write_tag_groups(&mut packet, "fluid", tag_data.fluids.as_slice());
        Self::write_tag_groups(&mut packet, "game_event", tag_data.game_events.as_slice());
        Self::write_tag_groups(&mut packet, "instrument", tag_data.instruments.as_slice());
        Self::write_tag_groups(&mut packet, "item", tag_data.items.as_slice());
        Self::write_tag_groups(
            &mut packet,
            "painting_variant",
            tag_data.painting_variants.as_slice(),
        );
        Self::write_tag_groups(
            &mut packet,
            "point_of_interest_type",
            tag_data.point_of_interest_types.as_slice(),
        );
        Self::write_tag_groups(&mut packet, "worldgen/biome", tag_data.worldgen_biomes.as_slice());

        let final_packet = frame_packet(&packet);

        out.extend_from_slice(as_slice(&final_packet));
    }

    /// One where there are tags, zero where there are none.
    fn has_tags(tags: &Vec<TagGroup>) -> (count: i32)
        ensures
            count == tagged(tags@),
    {
        if tags.is_empty() {
            0
        } else {
            1
        }
    }

    /// Appends to `packet` the tags of one registry type, or nothing where
    /// the type has no tags.
    fn write_tag_groups(packet: &mut BytesMut, registry_name: &str, tags: &[TagGroup])
        ensures
            buffer_bytes(final(packet)) == buffer_bytes(old(packet)) + registry_tags_bytes(
                registry_name@,
                tags@,
            ),
    {
        let ghost start = buffer_bytes(packet);
        if tags.len() == 0 {
            proof {
                assert(buffer_bytes(packet) =~= start + registry_tags_bytes(registry_name@, tags@));
            }
            return ;
        }
        PacketReader::write_identifier(packet, "minecraft", registry_name);

        PacketReader::write_varint(packet, #[verifier::truncate] (tags.len() as i32));

        let ghost head = buffer_bytes(packet);
        let mut i: usize = 0;
        while i < tags.len()
            invariant
                i <= tags@.len(),
                buffer_bytes(packet) == head + tag_groups_bytes(tags@.subrange(0, i as int)),
            decreases tags@.len() - i,
        {
            let tag = &tags[i];
            let tag_name = &tag.tag_name;
            PacketReader::write_identifier(
                packet,
                tag_name.namespace.as_str(),
                tag_name.name.as_str(),
            );

            let entries = &tag.entries;
            PacketReader::write_varint(packet, #[verifier::truncate] (entries.len() as i32));
            let ghost group_head = buffer_bytes(packet);
            let mut j: usize = 0;
            while j < entries.len()
                invariant
                    j <= entries@.len(),
                    buffer_bytes(packet) == group_head + tag_entries_bytes(
                        entries@.subrange(0, j as int),
                    ),
                decreases entries@.len() - j,
            {
                let entry_id = entries[j];
                PacketReader::write_varint(packet, entry_id);
                proof {
                    let done = entries@.subrange(0, j + 1);
                    assert(done.drop_last() =~= entries@.subrange(0, j as int));
                    assert(buffer_bytes(packet) =~= group_head + tag_entries_bytes(done));
                }
                j += 1;
            }
            proof {
                assert(entries@.subrange(0, j as int) =~= entries@);
                let done = tags@.subrange(0, i + 1);
                assert(done.drop_last() =~= tags@.subrange(0, i as int));
                assert(done.last() == tags@[i as int]);
                assert(buffer_bytes(packet) =~= head + tag_groups_bytes(done));
            }
            i += 1;
        }
        proof {
            assert(tags@.subrange(0, i as int) =~= tags@);
            assert(buffer_bytes(packet) =~= start + registry_tags_bytes(registry_name@, tags@));
        }
    }
}

} // verus!
