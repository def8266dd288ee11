use vstd::prelude::*;

verus! {

/// The tag groups of every registry type that has tags.
#[derive(Default, Debug, Clone, PartialEq)]
pub struct TagData {
    pub banner_patterns: Vec<TagGroup>,
    pub blocks: Vec<TagGroup>,
    pub cat_variants: Vec<TagGroup>,
    pub damage_types: Vec<TagGroup>,
    pub enchantments: Vec<TagGroup>,
    pub entity_types: Vec<TagGroup>,
    pub fluids: Vec<TagGroup>,
    pub game_events: Vec<TagGroup>,
    pub instruments: Vec<TagGroup>,
    pub items: Vec<TagGroup>,
    pub painting_variants: Vec<TagGroup>,
    pub point_of_interest_types: Vec<TagGroup>,
    pub worldgen_biomes: Vec<TagGroup>,
}

/// The name of a tag.
#[derive(Default, Debug, Clone, PartialEq)]
pub struct TagName {
    pub name: String,
    pub namespace: String,
}

/// One tag: its name and the entries it groups, each given by its place in
/// the registry it belongs to.
#[derive(Default, Debug, Clone, PartialEq)]
pub struct TagGroup {
    pub entries: Vec<i32>,
    pub tag_name: TagName,
}

} // verus!
