//! The sheets that the game itself refers to by name.

use vstd::prelude::*;
use crate::sprite::SpriteStore;
use crate::sprite::SpriteStoreError;

verus! {

/// The number of frames of a crop's sheet: four stages of growth, dry and
/// watered.
pub const CROP_FRAMES: usize = 8;

/// The positions in the store of the sheets that the simulation spawns
/// sprites of or compares sprites with.
#[derive(Clone, Copy, Debug)]
pub struct Catalog {
    pub particle_dirt: usize,
    pub particle_water: usize,
    pub particle_heart: usize,
    pub crop_empty: usize,
    pub crop_leaf: usize,
    pub crop_flower: usize,
    pub grass: usize,
    pub tool_packet2: usize,
    pub character_01: usize,
}

/// The store holds a sheet of the given name with at least `frames` frames,
/// and `index` is the position of the first of that name.
pub open spec fn names(store: &SpriteStore, name: Seq<char>, index: usize, frames: int) -> bool {
    &&& store.position_of(name) == Some(index as int)
    &&& index < store.0@.len()
    &&& store.0@[index as int].frame_count() >= frames
}

/// The store has a sheet of the given name with at least `frames` frames.
pub open spec fn offers(store: &SpriteStore, name: Seq<char>, frames: int) -> bool {
    match store.position_of(name) {
        Some(k) => 0 <= k < store.0@.len() && store.0@[k].frame_count() >= frames,
        None => false,
    }
}

/// One mark for each sheet of the catalog: which of them a store offers,
/// or which of them a tick refers to.
#[derive(Clone, Copy, Debug)]
pub struct Stock {
    pub particle_dirt: bool,
    pub particle_water: bool,
    pub particle_heart: bool,
    pub crop_empty: bool,
    pub crop_leaf: bool,
    pub crop_flower: bool,
    pub grass: bool,
    pub tool_packet2: bool,
    pub character_01: bool,
}

/// The position of the sheet of the given name, where the store offers it
/// with at least `frames` frames, and zero where it does not.
pub open spec fn place_of(store: &SpriteStore, name: Seq<char>, frames: int) -> usize {
    if offers(store, name, frames) {
        store.position_of(name)->0 as usize
    } else {
        0
    }
}

/// The sheets that the simulation refers to, as the store has them: the
/// position of each, and zero for one that the store lacks.
pub open spec fn catalog_of(store: &SpriteStore) -> Catalog {
    Catalog {
        particle_dirt: place_of(store, "particle-dirt"@, 0),
        particle_water: place_of(store, "particle-water"@, 0),
        particle_heart: place_of(store, "particle-heart"@, 0),
        crop_empty: place_of(store, "crop-empty"@, 0),
        crop_leaf: place_of(store, "crop-leaf"@, 0),
        crop_flower: place_of(store, "crop-flower"@, 0),
        grass: place_of(store, "grass"@, 0),
        tool_packet2: place_of(store, "tool-packet2"@, 0),
        character_01: place_of(store, "character-01"@, 0),
    }
}

/// Which sheets of the catalog the store holds.
pub open spec fn stock_of(store: &SpriteStore) -> Stock {
    Stock {
        particle_dirt: offers(store, "particle-dirt"@, 0),
        particle_water: offers(store, "particle-water"@, 0),
        particle_heart: offers(store, "particle-heart"@, 0),
        crop_empty: offers(store, "crop-empty"@, 0),
        crop_leaf: offers(store, "crop-leaf"@, 0),
        crop_flower: offers(store, "crop-flower"@, 0),
        grass: offers(store, "grass"@, 0),
        tool_packet2: offers(store, "tool-packet2"@, 0),
        character_01: offers(store, "character-01"@, 0),
    }
}

/// A sheet that the store holds has the frames that its use asks for.
pub open spec fn long_enough(store: &SpriteStore, name: Seq<char>, frames: int) -> bool {
    offers(store, name, 0) ==> offers(store, name, frames)
}

/// The sheets that are needed have the frames that their use asks for: a
/// crop is watered and grows through the eight frames of a crop, and so
/// does the grass; the second character stands on its second frame while
/// it is held.
pub open spec fn fit(store: &SpriteStore, needs: Stock) -> bool {
    &&& needs.crop_empty ==> long_enough(store, "crop-empty"@, CROP_FRAMES as int)
    &&& needs.crop_leaf ==> long_enough(store, "crop-leaf"@, CROP_FRAMES as int)
    &&& needs.crop_flower ==> long_enough(store, "crop-flower"@, CROP_FRAMES as int)
    &&& needs.grass ==> long_enough(store, "grass"@, CROP_FRAMES as int)
    &&& needs.character_01 ==> long_enough(store, "character-01"@, 2)
}

/// Tells whether a sheet, if the store holds it, has the frames that its
/// use asks for.
pub fn is_long_enough(store: &SpriteStore, name: &str, frames: usize) -> (yes: bool)
    requires
        store.wf(),
    ensures
        yes == long_enough(store, name@, frames as int),
{
    !place(store, name, 0).1 || place(store, name, frames).1
}

/// Tells whether the sheets that are needed have the frames that their use
/// asks for.
pub fn fits(store: &SpriteStore, needs: Stock) -> (yes: bool)
    requires
        store.wf(),
    ensures
        yes == fit(store, needs),
{
    (!needs.crop_empty || is_long_enough(store, "crop-empty", CROP_FRAMES)) && (!needs.crop_leaf
        || is_long_enough(store, "crop-leaf", CROP_FRAMES)) && (!needs.crop_flower
        || is_long_enough(store, "crop-flower", CROP_FRAMES)) && (!needs.grass || is_long_enough(
        store,
        "grass",
        CROP_FRAMES,
    )) && (!needs.character_01 || is_long_enough(store, "character-01", 2))
}

/// A store that holds the sheets that are needed, each with the frames
/// that its use asks for, serves those needs.
pub proof fn lemma_fit_serves(store: &SpriteStore, needs: Stock)
    requires
        store.wf(),
        covers(stock_of(store), needs),
        fit(store, needs),
    ensures
        catalog_of(store).serves(store, needs),
{
    lemma_held_sheet(store, "particle-dirt"@);
    lemma_held_sheet(store, "particle-water"@);
    lemma_held_sheet(store, "particle-heart"@);
    lemma_held_sheet(store, "crop-empty"@);
    lemma_held_sheet(store, "crop-leaf"@);
    lemma_held_sheet(store, "crop-flower"@);
    lemma_held_sheet(store, "grass"@);
    lemma_held_sheet(store, "tool-packet2"@);
    lemma_held_sheet(store, "character-01"@);
}

/// A sheet that a sound store holds has a frame, and its place is its
/// position.
proof fn lemma_held_sheet(store: &SpriteStore, name: Seq<char>)
    requires
        store.wf(),
    ensures
        offers(store, name, 0) ==> names(store, name, place_of(store, name, 0), 1),
        forall|frames: int|
            offers(store, name, frames) ==> #[trigger] names(
                store,
                name,
                place_of(store, name, 0),
                frames,
            ),
{
    if offers(store, name, 0) {
        let k = store.position_of(name)->0;
        assert(store.0@[k].wf());
    }
}

/// Every sheet that is needed is in stock.
pub open spec fn covers(stock: Stock, needs: Stock) -> bool {
    &&& needs.particle_dirt ==> stock.particle_dirt
    &&& needs.particle_water ==> stock.particle_water
    &&& needs.particle_heart ==> stock.particle_heart
    &&& needs.crop_empty ==> stock.crop_empty
    &&& needs.crop_leaf ==> stock.crop_leaf
    &&& needs.crop_flower ==> stock.crop_flower
    &&& needs.grass ==> stock.grass
    &&& needs.tool_packet2 ==> stock.tool_packet2
    &&& needs.character_01 ==> stock.character_01
}

impl Stock {
    /// Tells whether every sheet that is needed is in stock.
    pub fn has(&self, needs: Stock) -> (yes: bool)
        ensures
            yes == covers(*self, needs),
    {
        (!needs.particle_dirt || self.particle_dirt) && (!needs.particle_water
            || self.particle_water) && (!needs.particle_heart || self.particle_heart) && (
        !needs.crop_empty || self.crop_empty) && (!needs.crop_leaf || self.crop_leaf) && (
        !needs.crop_flower || self.crop_flower) && (!needs.grass || self.grass) && (
        !needs.tool_packet2 || self.tool_packet2) && (!needs.character_01 || self.character_01)
    }
}

impl Catalog {
    /// Each entry that is needed is the position of the sheet it is named
    /// after, and that sheet has the frames that its use asks for.
    pub open spec fn serves(&self, store: &SpriteStore, needs: Stock) -> bool {
        &&& needs.particle_dirt ==> names(store, "particle-dirt"@, self.particle_dirt, 1)
        &&& needs.particle_water ==> names(store, "particle-water"@, self.particle_water, 1)
        &&& needs.particle_heart ==> names(store, "particle-heart"@, self.particle_heart, 1)
        &&& needs.crop_empty ==> names(store, "crop-empty"@, self.crop_empty, CROP_FRAMES as int)
        &&& needs.crop_leaf ==> names(store, "crop-leaf"@, self.crop_leaf, CROP_FRAMES as int)
        &&& needs.crop_flower ==> names(store, "crop-flower"@, self.crop_flower, CROP_FRAMES as int)
        &&& needs.grass ==> names(store, "grass"@, self.grass, CROP_FRAMES as int)
        &&& needs.tool_packet2 ==> names(store, "tool-packet2"@, self.tool_packet2, 1)
        &&& needs.character_01 ==> names(store, "character-01"@, self.character_01, 2)
    }

    /// Looks up every sheet of the catalog, and notes which of them the
    /// store holds.
    pub fn resolve(store: &SpriteStore) -> (found: (Catalog, Stock))
        requires
            store.wf(),
        ensures
            found.0 == catalog_of(store),
            found.1 == stock_of(store),
    {
        let particle_dirt: (usize, bool) = place(store, "particle-dirt", 0);
        let particle_water: (usize, bool) = place(store, "particle-water", 0);
        let particle_heart: (usize, bool) = place(store, "particle-heart", 0);
        let crop_empty: (usize, bool) = place(store, "crop-empty", 0);
        let crop_leaf: (usize, bool) = place(store, "crop-leaf", 0);
        let crop_flower: (usize, bool) = place(store, "crop-flower", 0);
        let grass: (usize, bool) = place(store, "grass", 0);
        let tool_packet2: (usize, bool) = place(store, "tool-packet2", 0);
        let character_01: (usize, bool) = place(store, "character-01", 0);
        (
            Catalog {
                particle_dirt: particle_dirt.0,
                particle_water: particle_water.0,
                particle_heart: particle_heart.0,
                crop_empty: crop_empty.0,
                crop_leaf: crop_leaf.0,
                crop_flower: crop_flower.0,
                grass: grass.0,
                tool_packet2: tool_packet2.0,
                character_01: character_01.0,
            },
            Stock {
                particle_dirt: particle_dirt.1,
                particle_water: particle_water.1,
                particle_heart: particle_heart.1,
                crop_empty: crop_empty.1,
                crop_leaf: crop_leaf.1,
                crop_flower: crop_flower.1,
                grass: grass.1,
                tool_packet2: tool_packet2.1,
                character_01: character_01.1,
            },
        )
    }
}

/// The position of the sheet of the given name and whether the store
/// offers it with at least `frames` frames; zero where it does not.
pub fn place(store: &SpriteStore, name: &str, frames: usize) -> (found: (usize, bool))
    requires
        store.wf(),
    ensures
        found.1 == offers(store, name@, frames as int),
        found.0 == place_of(store, name@, frames as int),
        found.1 ==> names(store, name@, found.0, frames as int),
{
    match lookup(store, name, frames) {
        Ok(index) => (index, true),
        Err(_) => (0, false),
    }
}

/// The position of the sheet of the given name, if the store has one with
/// at least `frames` frames.
pub fn lookup(store: &SpriteStore, name: &str, frames: usize) -> (found: Result<usize, SpriteStoreError>)
    requires
        store.wf(),
    ensures
        found is Ok <==> offers(store, name@, frames as int),
        match found {
            Ok(index) => names(store, name@, index, frames as int),
            Err(_) => true,
        },
{
    match store.index_by_name(name) {
        Ok(index) => {
            proof {
                let k = store.position_of(name@)->0;
                assert(store.first_named(name@, k));
                assert(store.0@[k].wf());
            }
            if store.0[index].data.frames.len() >= frames {
                Ok(index)
            } else {
                Err(SpriteStoreError)
            }
        },
        Err(_) => Err(SpriteStoreError),
    }
}

} // verus!
