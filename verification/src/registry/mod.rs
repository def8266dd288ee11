//! The catalog of game data that the server announces to a client.
//!
//! Numbers that the data documents give as fractions are held by their
//! IEEE 754 bit pattern, which keeps every value as it was read.

pub mod entry;
pub mod manager;

use vstd::prelude::*;

verus! {

/// The bit pattern of a single-precision number.
pub type FloatBits = u32;

/// The bit pattern of a double-precision number.
pub type DoubleBits = u64;

/// The entries of one registry type: each a name and a record, in the order
/// in which they were defined. No name occurs twice.
pub struct Registry<T> {
    entries: Vec<(String, T)>,
}

impl<T> View for Registry<T> {
    type V = Seq<(Seq<char>, T)>;

    closed spec fn view(&self) -> Seq<(Seq<char>, T)> {
        self.entries@.map_values(|entry: (String, T)| (entry.0@, entry.1))
    }
}

/// The names in a sequence of named records, in order.
pub open spec fn entry_names<T>(entries: Seq<(Seq<char>, T)>) -> Seq<Seq<char>> {
    entries.map_values(|entry: (Seq<char>, T)| entry.0)
}

impl<T> Registry<T> {
    /// The names of the entries, in the order of their definition.
    pub open spec fn names(&self) -> Seq<Seq<char>> {
        entry_names(self@)
    }

    /// No name occurs twice. A registry made by `new` and `insert` is so.
    pub open spec fn well_formed(&self) -> bool {
        self.names().no_duplicates()
    }

    /// The place of the entry called `name`, if there is one.
    pub open spec fn position(&self, name: Seq<char>) -> Option<int> {
        self.names().index_of_first(name)
    }

    /// A registry without entries.
    pub fn new() -> (registry: Self)
        ensures
            registry@ == Seq::<(Seq<char>, T)>::empty(),
            registry.well_formed(),
    {
        let registry = Registry { entries: Vec::new() };
        proof {
            assert(registry@ =~= Seq::<(Seq<char>, T)>::empty());
        }
        registry
    }

    /// The number of entries.
    pub fn len(&self) -> (n: usize)
        ensures
            n == self@.len(),
    {
        self.entries.len()
    }

    /// Defines the entry `name`.
    ///
    /// A new name is added behind the entries that are there. A name that is
    /// in use keeps its place and gets the new record; the record it had is
    /// returned.
    pub fn insert(&mut self, name: String, record: T) -> (replaced: Option<T>)
        ensures
            old(self).well_formed() ==> final(self).well_formed(),
            match old(self).position(name@) {
                Some(at) => {
                    &&& replaced == Some(old(self)@[at].1)
                    &&& final(self)@ == old(self)@.update(at, (name@, record))
                },
                None => {
                    &&& replaced is None
                    &&& final(self)@ == old(self)@.push((name@, record))
                },
            },
    {
        proof {
            self.names().index_of_first_ensures(name@);
        }
        let mut i: usize = 0;
        while i < self.entries.len()
            invariant
                *self == *old(self),
                i <= self.entries@.len(),
                forall|j: int| 0 <= j < i ==> self.names()[j] != name@,
            decreases self.entries@.len() - i,
        {
            if self.entries[i].0 == name {
                let ghost before = self@;
                let ghost names_before = self.names();
                proof {
                    assert(names_before[i as int] == name@);
                    names_before.index_of_first_ensures(name@);
                    assert(old(self).position(name@) == Some(i as int));
                }
                let mut entry = (name, record);
                std::mem::swap(&mut self.entries[i], &mut entry);
                proof {
                    assert(self@ =~= before.update(i as int, (name@, record)));
                    assert(self.names() =~= names_before);
                    assert(entry.1 == before[i as int].1);
                }
                return Some(entry.1);
            }
            i += 1;
        }
        let ghost before = self@;
        let ghost names_before = self.names();
        self.entries.push((name, record));
        proof {
            assert(self@ =~= before.push((name@, record)));
            assert(self.names() =~= names_before.push(name@));
            assert(!names_before.contains(name@));
        }
        None
    }

    /// The names of the entries, in the order of their definition.
    pub fn keys(&self) -> (keys: Vec<&str>)
        ensures
            keys@.map_values(|key: &str| key@) == self.names(),
    {
        let mut keys: Vec<&str> = Vec::new();
        let mut i: usize = 0;
        while i < self.entries.len()
            invariant
                i <= self.entries@.len(),
                keys@.map_values(|key: &str| key@) == self.names().subrange(0, i as int),
            decreases self.entries@.len() - i,
        {
            let ghost before = keys@.map_values(|key: &str| key@);
            let key = self.entries[i].0.as_str();
            keys.push(key);
            proof {
                assert(key@ == self.names()[i as int]);
                assert(keys@.map_values(|key: &str| key@) =~= before.push(key@));
                assert(before.push(key@) =~= self.names().subrange(0, i + 1));
            }
            i += 1;
        }
        proof {
            assert(self.names().subrange(0, i as int) =~= self.names());
        }
        keys
    }
}

impl<T> Default for Registry<T> {
    fn default() -> (registry: Self)
        ensures
            registry@ == Seq::<(Seq<char>, T)>::empty(),
            registry.well_formed(),
    {
        Registry::new()
    }
}

impl Default for RegistryData {
    /// The catalog in which no registry type has an entry.
    fn default() -> (data: Self)
        ensures
            data.banner_patterns@.len() == 0,
            data.chat_types@.len() == 0,
            data.damage_types@.len() == 0,
            data.dimension_types@.len() == 0,
            data.trim_materials@.len() == 0,
            data.trim_patterns@.len() == 0,
            data.wolf_variants@.len() == 0,
            data.biomes@.len() == 0,
            data.painting_variants@.len() == 0,
            data.enchantments@.len() == 0,
            data.jukebox_songs@.len() == 0,
    {
        RegistryData {
            banner_patterns: Registry::new(),
            chat_types: Registry::new(),
            damage_types: Registry::new(),
            dimension_types: Registry::new(),
            trim_materials: Registry::new(),
            trim_patterns: Registry::new(),
            wolf_variants: Registry::new(),
            biomes: Registry::new(),
            painting_variants: Registry::new(),
            enchantments: Registry::new(),
            jukebox_songs: Registry::new(),
        }
    }
}

/// Every registry type with its entries.
pub struct RegistryData {
    pub banner_patterns: Registry<BannerPattern>,
    pub chat_types: Registry<ChatType>,
    pub damage_types: Registry<DamageType>,
    pub dimension_types: Registry<DimensionType>,
    pub trim_materials: Registry<TrimMaterial>,
    pub trim_patterns: Registry<TrimPattern>,
    pub wolf_variants: Registry<WolfVariant>,
    pub biomes: Registry<Biome>,
    pub painting_variants: Registry<PaintingVariant>,
    pub enchantments: Registry<Enchantment>,
    pub jukebox_songs: Registry<JukeboxSong>,
}

#[derive(Default, Debug, Clone, PartialEq)]
pub struct BannerPattern {
    pub asset_id: String,
    pub translation_key: String,
}

#[derive(Default, Debug, Clone, PartialEq)]
pub struct ChatType {
    pub chat: ChatParameters,
    pub narration: ChatParameters,
}

#[derive(Default, Debug, Clone, PartialEq)]
pub struct ChatParameters {
    pub parameters: Vec<String>,
    pub translation_key: String,
}

#[derive(Default, Debug, Clone, PartialEq)]
pub struct DamageType {
    pub message_id: String,
    pub exhaustion: FloatBits,
    pub scaling: String,
}

#[derive(Default, Debug, Clone, PartialEq)]
pub struct DimensionType {
    pub ambient_light: FloatBits,
    pub bed_works: i8,
    pub coordinate_scale: DoubleBits,
    pub effects: String,
    pub has_ceiling: i8,
    pub has_raids: i8,
    pub has_skylight: i8,
    pub height: i32,
    pub infiniburn: String,
    pub logical_height: i32,
    pub min_y: i32,
    pub monster_spawn_block_light_limit: i32,
    pub monster_spawn_light_level: MonsterSpawnLightLevel,
    pub natural: i8,
    pub piglin_safe: i8,
    pub respawn_anchor_works: i8,
    pub ultrawarm: i8,
}

#[derive(Default, Debug, Clone, PartialEq)]
pub struct MonsterSpawnLightLevel {
    pub max_inclusive: i32,
    pub min_inclusive: i32,
    /// The kind of distribution, which the data documents call `type`.
    pub kind: String,
}

#[derive(Default, Debug, Clone, PartialEq)]
pub struct PaintingVariant {
    pub asset_id: String,
    pub height: i32,
    pub width: i32,
}

#[derive(Default, Debug, Clone, PartialEq)]
pub struct TrimMaterial {
    pub asset_name: String,
    pub description: TrimMaterialDescription,
    pub ingredient: String,
    pub item_model_index: FloatBits,
}

#[derive(Default, Debug, Clone, PartialEq)]
pub struct TrimMaterialDescription {
    pub color: String,
    pub translate: String,
}

#[derive(Default, Debug, Clone, PartialEq)]
pub struct TrimPattern {
    pub asset_id: String,
    pub description: TrimPatternDescription,
    pub template_item: String,
}

#[derive(Default, Debug, Clone, PartialEq)]
pub struct TrimPatternDescription {
    pub translate: String,
}

#[derive(Default, Debug, Clone, PartialEq)]
pub struct WolfVariant {
    pub angry_texture: String,
    pub biomes: String,
    pub tame_texture: String,
    pub wild_texture: String,
}

#[derive(Default, Debug, Clone, PartialEq)]
pub struct Biome {
    pub downfall: FloatBits,
    pub effects: BiomeEffects,
    pub has_precipitation: bool,
    pub temperature: FloatBits,
}

#[derive(Default, Debug, Clone, PartialEq)]
pub struct BiomeEffects {
    pub fog_color: i32,
    pub foliage_color: Option<i32>,
    pub grass_color: Option<i32>,
    pub mood_sound: MoodSound,
    pub music: Option<Music>,
    pub sky_color: i32,
    pub water_color: i32,
    pub water_fog_color: i32,
    pub particle: Option<Particle>,
    pub ambient_sound: Option<String>,
}

#[derive(Default, Debug, Clone, PartialEq)]
pub struct MoodSound {
    pub block_search_extent: i32,
    pub offset: DoubleBits,
    pub sound: String,
    pub tick_delay: i32,
}

#[derive(Default, Debug, Clone, PartialEq)]
pub struct Music {
    pub max_delay: i32,
    pub min_delay: i32,
    pub replace_current_music: bool,
    pub sound: String,
}

#[derive(Default, Debug, Clone, PartialEq)]
pub struct Particle {
    pub options: ParticleOptions,
    pub probability: FloatBits,
}

#[derive(Default, Debug, Clone, PartialEq)]
pub struct ParticleOptions {
    /// The kind of particle, which the data documents call `type`.
    pub kind: String,
}

#[derive(Default, Debug, Clone, PartialEq)]
pub struct Enchantment {}

#[derive(Default, Debug, Clone, PartialEq)]
pub struct JukeboxSong {}

} // verus!
