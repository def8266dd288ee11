use bytes::BytesMut;
use minecraft_server::registry::entry::{write_registry_packet, RegistryEntry};
use minecraft_server::registry::manager::RegistryManager;
use minecraft_server::registry::{
    BannerPattern, Biome, DimensionType, Registry, RegistryData, WolfVariant,
};
use minecraft_server::tag::{TagData, TagGroup, TagName};

#[test]
fn test_registry_packet() {
    let expected = b"\x74\x07\x18minecraft:dimension_type\x04\x13minecraft:overworld\0\x19minecraft:overworld_caves\0\x14minecraft:the_nether\0\x11minecraft:the_end\0";

    let entries = &["overworld", "overworld_caves", "the_nether", "the_end"];
    let packet = write_registry_packet("dimension_type", entries);

    assert!(!packet.is_empty());
    assert_eq!(&packet[..], expected);
}

#[test]
fn registry_packet_without_entries() {
    let packet = write_registry_packet("enchantment", &[]);
    assert_eq!(&packet[..], b"\x18\x07\x15minecraft:enchantment\x00");
}

#[test]
fn registry_packet_keeps_a_given_namespace() {
    let packet = write_registry_packet("item", &["mod:gem", "stick"]);
    assert_eq!(
        &packet[..],
        b"\x2b\x07\x0eminecraft:item\x02\x07mod:gem\0\x0fminecraft:stick\0"
    );
}

#[test]
fn entry_without_a_colon_lies_in_minecraft() {
    let entry = RegistryEntry::new("overworld");
    assert_eq!(entry.namespace, "minecraft");
    assert_eq!(entry.name, "overworld");
}

#[test]
fn entry_is_cut_at_its_first_colon() {
    let entry = RegistryEntry::new("mod:thing");
    assert_eq!(entry.namespace, "mod");
    assert_eq!(entry.name, "thing");
    let entry = RegistryEntry::new("a:b:c");
    assert_eq!(entry.namespace, "a");
    assert_eq!(entry.name, "b:c");
    let entry = RegistryEntry::new(":x");
    assert_eq!(entry.namespace, "");
    assert_eq!(entry.name, "x");
}

#[test]
fn entry_is_written_as_an_identifier() {
    let entry = RegistryEntry::new("the_end");
    let mut buf = BytesMut::new();
    entry.write_to(&mut buf);
    assert_eq!(&buf[..], b"\x11minecraft:the_end");
}

#[test]
fn registry_keeps_the_order_of_definition() {
    let mut registry: Registry<WolfVariant> = Registry::new();
    assert_eq!(registry.len(), 0);
    assert!(registry.keys().is_empty());
    assert!(registry
        .insert("minecraft:pale".to_string(), WolfVariant::default())
        .is_none());
    assert!(registry
        .insert("minecraft:ashen".to_string(), WolfVariant::default())
        .is_none());
    assert!(registry
        .insert("minecraft:woods".to_string(), WolfVariant::default())
        .is_none());
    assert_eq!(registry.len(), 3);
    assert_eq!(
        registry.keys(),
        vec!["minecraft:pale", "minecraft:ashen", "minecraft:woods"]
    );
}

#[test]
fn registry_replaces_a_name_in_place() {
    let mut registry: Registry<BannerPattern> = Registry::new();
    let first = BannerPattern {
        asset_id: "one".to_string(),
        translation_key: "k1".to_string(),
    };
    let second = BannerPattern {
        asset_id: "two".to_string(),
        translation_key: "k2".to_string(),
    };
    let third = BannerPattern {
        asset_id: "three".to_string(),
        translation_key: "k3".to_string(),
    };
    registry.insert("a".to_string(), first.clone());
    registry.insert("b".to_string(), second);
    let replaced = registry.insert("a".to_string(), third);
    assert_eq!(replaced, Some(first));
    assert_eq!(registry.len(), 2);
    assert_eq!(registry.keys(), vec!["a", "b"]);
}

#[test]
fn registry_data_is_written_type_by_type() {
    let mut data = RegistryData::default();
    data.biomes
        .insert("minecraft:plains".to_string(), Biome::default());
    data.biomes
        .insert("minecraft:desert".to_string(), Biome::default());
    data.dimension_types
        .insert("overworld".to_string(), DimensionType::default());
    let manager = RegistryManager::new(data);
    let mut out = BytesMut::new();
    manager.write_registry_data(&mut out);

    let mut expected = Vec::new();
    expected.extend_from_slice(&write_registry_packet(
        "worldgen/biome",
        &["minecraft:plains", "minecraft:desert"],
    ));
    for name in [
        "chat_type",
        "trim_pattern",
        "trim_material",
        "wolf_variant",
        "painting_variant",
    ] {
        expected.extend_from_slice(&write_registry_packet(name, &[]));
    }
    expected.extend_from_slice(&write_registry_packet("dimension_type", &["overworld"]));
    for name in ["damage_type", "banner_pattern", "enchantment", "jukebox_song"] {
        expected.extend_from_slice(&write_registry_packet(name, &[]));
    }
    assert_eq!(&out[..], &expected[..]);
}

#[test]
fn registry_data_is_appended() {
    let manager = RegistryManager::new(RegistryData::default());
    let mut out = BytesMut::new();
    out.extend_from_slice(&[0xaa]);
    manager.write_registry_data(&mut out);
    assert_eq!(out[0], 0xaa);
    assert_eq!(
        &out[1..29],
        b"\x1b\x07\x18minecraft:worldgen/biome\x00"
    );
}

fn group(namespace: &str, name: &str, entries: &[i32]) -> TagGroup {
    TagGroup {
        entries: entries.to_vec(),
        tag_name: TagName {
            name: name.to_string(),
            namespace: namespace.to_string(),
        },
    }
}

#[test]
fn tags_without_groups_hold_only_a_count() {
    let manager = RegistryManager::new(RegistryData::default());
    let mut out = BytesMut::new();
    manager.write_update_tags(&TagData::default(), &mut out);
    assert_eq!(&out[..], &[2, 0x0d, 0]);
}

#[test]
fn tags_leave_out_types_without_groups() {
    let manager = RegistryManager::new(RegistryData::default());
    let mut tags = TagData::default();
    tags.blocks.push(group("minecraft", "logs", &[1, 300]));
    tags.blocks.push(group("minecraft", "air", &[]));
    tags.worldgen_biomes.push(group("mod", "hot", &[-1]));
    let mut out = BytesMut::new();
    manager.write_update_tags(&tags, &mut out);

    let mut body = vec![0x0d, 2];
    body.extend_from_slice(b"\x0fminecraft:block");
    body.push(2);
    body.extend_from_slice(b"\x0eminecraft:logs");
    body.extend_from_slice(&[2, 1, 0xac, 0x02]);
    body.extend_from_slice(b"\x0dminecraft:air");
    body.push(0);
    body.extend_from_slice(b"\x18minecraft:worldgen/biome");
    body.push(1);
    body.extend_from_slice(b"\x07mod:hot");
    body.extend_from_slice(&[1, 0xff, 0xff, 0xff, 0xff, 0x0f]);
    let mut expected = vec![body.len() as u8];
    expected.extend_from_slice(&body);
    assert_eq!(&out[..], &expected[..]);
}

#[test]
fn tags_come_in_a_fixed_order_of_types() {
    let manager = RegistryManager::new(RegistryData::default());
    let mut tags = TagData::default();
    tags.worldgen_biomes.push(group("minecraft", "z", &[]));
    tags.banner_patterns.push(group("minecraft", "a", &[]));
    tags.items.push(group("minecraft", "m", &[]));
    let mut out = BytesMut::new();
    manager.write_update_tags(&tags, &mut out);

    let mut body = vec![0x0d, 3];
    body.extend_from_slice(b"\x18minecraft:banner_pattern\x01\x0bminecraft:a\x00");
    body.extend_from_slice(b"\x0eminecraft:item\x01\x0bminecraft:m\x00");
    body.extend_from_slice(b"\x18minecraft:worldgen/biome\x01\x0bminecraft:z\x00");
    let mut expected = vec![body.len() as u8];
    expected.extend_from_slice(&body);
    assert_eq!(&out[..], &expected[..]);
}
