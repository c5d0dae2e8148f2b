//! The world as the game begins: the ground with its grass, the pod and the
//! terminal, the player and the first tools.

use vstd::prelude::*;
use crate::catalog::place_of;
use crate::catalog::place;
use crate::catalog::long_enough;
use rand::rngs::StdRng;
use crate::catalog::CROP_FRAMES;
use crate::catalog::lookup;
use crate::catalog::names;
use crate::catalog::offers;
use crate::chance::pick_below;
use crate::sprite::SpriteStore;
use crate::sprite::SpriteStoreError;
use crate::state::DEPTH_GRASS;
use crate::state::DEPTH_GROUND;
use crate::state::DEPTH_OVERLAY;
use crate::state::DEPTH_PLAYER;
use crate::state::DEPTH_TOOLS;
use crate::state::FINAL_STAGE;
use crate::state::Game;
use crate::state::Interactible;
use crate::state::ItemType;
use crate::state::Position;
use crate::state::Sprite;
use crate::state::SpriteIndexer;
use crate::state::SpriteType;
use crate::world::Entity;
use crate::world::World;
use crate::world::all_ok;
use crate::world::id_limit;
use crate::world::ids_unique;
use crate::world::ids_within;

verus! {

/// The width of a tile of the ground, in cells.
pub const TILE_WIDTH: u32 = 8;

/// The height of a tile of the ground, in cells.
pub const TILE_HEIGHT: u32 = 4;

/// The positions in the store of the sheets that the world begins with.
#[derive(Clone, Copy, Debug)]
pub struct Scenery {
    pub tile_dirt: usize,
    pub transition: usize,
    pub grass: usize,
    pub cryopod: usize,
    pub terminal: usize,
    pub character_00: usize,
    pub tool_shovel: usize,
    pub tool_packet: usize,
    pub tool_watercan: usize,
}

/// The store holds every sheet that the world begins with. The overlay of
/// the transition is among them only if the terminal has room for a tile.
pub open spec fn supports_scenery(store: &SpriteStore, size: (u16, u16)) -> bool {
    &&& offers(store, "tile-dirt"@, 0)
    &&& has_tiles(size) ==> offers(store, "transition"@, 0)
    &&& offers(store, "grass"@, 0)
    &&& offers(store, "cryopod"@, 0)
    &&& offers(store, "terminal"@, 0)
    &&& offers(store, "character-00"@, 0)
    &&& offers(store, "tool-shovel"@, 0)
    &&& offers(store, "tool-packet"@, 0)
    &&& offers(store, "tool-watercan"@, 0)
}

/// A terminal of this size has room for a tile of the ground.
pub open spec fn has_tiles(size: (u16, u16)) -> bool {
    size.0 > 0 && size.1 > 0
}

impl Scenery {
    /// Each entry is the position of the sheet it is named after.
    pub open spec fn matches(&self, store: &SpriteStore) -> bool {
        &&& self.serves(store)
        &&& names(store, "transition"@, self.transition, 1)
    }

    /// Each entry but that of the transition is the position of the sheet
    /// it is named after.
    pub open spec fn serves(&self, store: &SpriteStore) -> bool {
        &&& names(store, "tile-dirt"@, self.tile_dirt, 1)
        &&& names(store, "grass"@, self.grass, CROP_FRAMES as int)
        &&& names(store, "cryopod"@, self.cryopod, 1)
        &&& names(store, "terminal"@, self.terminal, 1)
        &&& names(store, "character-00"@, self.character_00, 1)
        &&& names(store, "tool-shovel"@, self.tool_shovel, 1)
        &&& names(store, "tool-packet"@, self.tool_packet, 1)
        &&& names(store, "tool-watercan"@, self.tool_watercan, 1)
    }

    /// Looks up every sheet that the world begins with. Fails if one is
    /// missing.
    pub fn resolve(store: &SpriteStore, size: (u16, u16)) -> (found: Result<
        Scenery,
        SpriteStoreError,
    >)
        requires
            store.wf(),
            long_enough(store, "grass"@, CROP_FRAMES as int),
        ensures
            found is Ok <==> supports_scenery(store, size),
            match found {
                Ok(scenery) => scenery == scenery_of(store) && scenery.serves(store) && (has_tiles(
                    size,
                ) ==> scenery.matches(store)),
                Err(_) => true,
            },
    {
        let tile_dirt: usize = held(store, "tile-dirt")?;
        let transition: (usize, bool) = place(store, "transition", 0);
        if size.0 > 0 && size.1 > 0 && !transition.1 {
            return Err(SpriteStoreError);
        }
        let grass: usize = held(store, "grass")?;
        let cryopod: usize = held(store, "cryopod")?;
        let terminal: usize = held(store, "terminal")?;
        let character_00: usize = held(store, "character-00")?;
        let tool_shovel: usize = held(store, "tool-shovel")?;
        let tool_packet: usize = held(store, "tool-packet")?;
        let tool_watercan: usize = held(store, "tool-watercan")?;
        proof {
            if transition.1 {
                let k = store.position_of("transition"@)->0;
                assert(store.0@[k].wf());
            }
        }
        Ok(
            Scenery {
                tile_dirt,
                transition: transition.0,
                grass,
                cryopod,
                terminal,
                character_00,
                tool_shovel,
                tool_packet,
                tool_watercan,
            },
        )
    }
}

/// The position of the sheet of the given name, if the store holds one. A
/// sheet of a sound store has a frame.
pub fn held(store: &SpriteStore, name: &str) -> (found: Result<usize, SpriteStoreError>)
    requires
        store.wf(),
    ensures
        found is Ok <==> offers(store, name@, 0),
        match found {
            Ok(index) => names(store, name@, index, 1) && index == place_of(store, name@, 0)
                && forall|frames: int|
                offers(store, name@, frames) ==> #[trigger] names(store, name@, index, frames),
            Err(_) => true,
        },
{
    match lookup(store, name, 0) {
        Ok(index) => {
            proof {
                let k = store.position_of(name@)->0;
                assert(store.0@[k].wf());
            }
            Ok(index)
        },
        Err(e) => Err(e),
    }
}

/// What chance decides for one tile of the ground: the frame and the
/// facing of the dirt, whether grass grows on it, and the frame and the
/// facing of that grass.
pub struct TileDice {
    pub dirt_frame: usize,
    pub dirt_flip: bool,
    pub grass: bool,
    pub grass_frame: usize,
    pub grass_flip: bool,
}

/// An entity with a sprite and a position, and an item if it is one.
pub open spec fn prop(sprite: Sprite, x: int, y: int, z: int, item: Option<Interactible>) -> Entity {
    Entity {
        position: Some(Position { x: x as i64, y: y as i64, z: z as i64 }),
        sprite: Some(sprite),
        interactible: item,
        npc: None,
    }
}

/// A thing that the player can pick up or use.
pub open spec fn thing(item_type: ItemType, hold_to_use: bool) -> Option<Interactible> {
    Some(Interactible { item_type, hold_to_use })
}

/// The number of entities that carry an id.
pub open spec fn ids_in(entities: Seq<Entity>) -> int
    decreases entities.len(),
{
    if entities.len() == 0 {
        0
    } else {
        ids_in(entities.drop_last()) + if entities.last().id() != 0 {
            1int
        } else {
            0int
        }
    }
}

/// Grass is sown only where a whole tile lies between it and the right and
/// the lower edge.
pub open spec fn grass_may_grow(size: (u16, u16), x: int, y: int) -> bool {
    x < size.0 - TILE_WIDTH && y < size.1 - TILE_HEIGHT
}

/// The entities of the tile whose corner is at column `x` of row `y`: the
/// dirt; on every second tile of every second row, an overlay for the
/// transition; and grass, where it may grow and chance lets it. The grass
/// is the only one with an id, `id`.
pub open spec fn tile_entities(
    scenery: Scenery,
    size: (u16, u16),
    x: int,
    y: int,
    id: int,
    dice: TileDice,
) -> Seq<Entity> {
    let dirt = prop(
        Sprite {
            store_index: scenery.tile_dirt,
            frame: dice.dirt_frame,
            flip: dice.dirt_flip,
            ..Sprite::blank()
        },
        x,
        y,
        DEPTH_GROUND as int,
        None,
    );
    let overlay = prop(
        Sprite {
            store_index: scenery.transition,
            sprite_type: SpriteType::Overlay,
            animating: true,
            ..Sprite::blank()
        },
        x,
        y,
        DEPTH_OVERLAY as int,
        None,
    );
    let grass = prop(
        Sprite {
            id: id as usize,
            store_index: scenery.grass,
            frame: dice.grass_frame,
            flip: dice.grass_flip,
            animating: true,
            sprite_type: SpriteType::Crop,
            ..Sprite::blank()
        },
        x,
        y,
        DEPTH_GRASS + id,
        thing(ItemType::Grass, false),
    );
    let base = if x % 16 == 0 && y % 8 == 0 {
        seq![dirt, overlay]
    } else {
        seq![dirt]
    };
    if grass_may_grow(size, x, y) && dice.grass {
        base.push(grass)
    } else {
        base
    }
}

/// The entities of the first `cols` tiles of the row of tiles at row `y`,
/// from left to right, after the entities `before`. Ids go on from those
/// of the entities before.
pub open spec fn ground_row(
    before: Seq<Entity>,
    scenery: Scenery,
    size: (u16, u16),
    y: int,
    cols: nat,
    dice: Seq<TileDice>,
) -> Seq<Entity>
    decreases cols,
{
    if cols == 0 {
        before
    } else {
        let left = ground_row(before, scenery, size, y, (cols - 1) as nat, dice.drop_last());
        left + tile_entities(
            scenery,
            size,
            TILE_WIDTH * (cols - 1),
            y,
            ids_in(left) + 1,
            dice.last(),
        )
    }
}

/// The number of tiles that it takes to cover `cells` cells with tiles of
/// the given side.
pub open spec fn tiles_across(cells: u16, side: u32) -> nat {
    ((cells + side - 1) / (side as int)) as nat
}

/// The entities of the first `rows` rows of tiles, from the top.
pub open spec fn ground(scenery: Scenery, size: (u16, u16), rows: nat, dice: Seq<Seq<TileDice>>) -> Seq<
    Entity,
>
    decreases rows,
{
    if rows == 0 {
        seq![]
    } else {
        ground_row(
            ground(scenery, size, (rows - 1) as nat, dice.drop_last()),
            scenery,
            size,
            TILE_HEIGHT * (rows - 1),
            tiles_across(size.0, TILE_WIDTH),
            dice.last(),
        )
    }
}

/// A sprite of a sheet, of a kind, with an id.
pub open spec fn plain_sprite(id: int, asset: usize, kind: SpriteType) -> Sprite {
    Sprite { id: id as usize, store_index: asset, sprite_type: kind, ..Sprite::blank() }
}

/// What stands on the ground as the game begins, with the ids after
/// `last`: the pod and the terminal in the upper left corner, the player
/// at the left edge halfway down, and the shovel, the seed packet and the
/// watering can near the lower left corner.
pub open spec fn fixtures(scenery: Scenery, size: (u16, u16), last: int) -> Seq<Entity> {
    let h = size.1 as int;
    seq![
        prop(
            Sprite { animating: true, ..plain_sprite(last + 1, scenery.cryopod, SpriteType::Tool) },
            1,
            0,
            DEPTH_PLAYER - (last + 1),
            thing(ItemType::Pod, false),
        ),
        prop(
            Sprite {
                animating: true,
                flip: true,
                ..plain_sprite(last + 2, scenery.terminal, SpriteType::Tool)
            },
            11,
            2,
            DEPTH_PLAYER - (last + 2),
            thing(ItemType::Terminal, false),
        ),
        prop(
            plain_sprite(last + 3, scenery.character_00, SpriteType::Player),
            5,
            h / 2 - 2,
            DEPTH_PLAYER + (last + 3),
            None,
        ),
        prop(
            plain_sprite(last + 4, scenery.tool_shovel, SpriteType::Tool),
            2,
            h - 7,
            DEPTH_TOOLS + (last + 4),
            thing(ItemType::Shovel, true),
        ),
        prop(
            plain_sprite(last + 5, scenery.tool_packet, SpriteType::Tool),
            8,
            h - 4,
            DEPTH_TOOLS + (last + 5),
            thing(ItemType::Packet, true),
        ),
        prop(
            plain_sprite(last + 6, scenery.tool_watercan, SpriteType::Tool),
            8,
            h - 8,
            DEPTH_TOOLS + (last + 6),
            thing(ItemType::Watercan, true),
        ),
    ]
}

/// The choices are ones that chance can make: one for each tile, and every
/// frame a frame of its sheet.
pub open spec fn tiles_fit(dice: Seq<Seq<TileDice>>, scenery: Scenery, size: (u16, u16), store: &SpriteStore) -> bool {
    &&& dice.len() == tiles_across(size.1, TILE_HEIGHT)
    &&& forall|r: int|
        0 <= r < dice.len() ==> row_fits(#[trigger] dice[r], scenery, tiles_across(size.0, TILE_WIDTH), store)
}

/// The choices for a row of tiles are ones that chance can make.
pub open spec fn row_fits(dice: Seq<TileDice>, scenery: Scenery, cols: nat, store: &SpriteStore) -> bool {
    &&& dice.len() == cols
    &&& forall|c: int| 0 <= c < dice.len() ==> tile_fits(#[trigger] dice[c], scenery, store)
}

/// The frames chosen for a tile are frames of the dirt and of the grass.
pub open spec fn tile_fits(dice: TileDice, scenery: Scenery, store: &SpriteStore) -> bool {
    &&& dice.dirt_frame < store.0@[scenery.tile_dirt as int].frame_count()
    &&& dice.grass_frame < store.0@[scenery.grass as int].frame_count()
}

/// The table as the game begins, for the choices that chance makes.
pub open spec fn first_table(scenery: Scenery, size: (u16, u16), dice: Seq<Seq<TileDice>>) -> Seq<
    Entity,
> {
    let soil = ground(scenery, size, tiles_across(size.1, TILE_HEIGHT), dice);
    soil + fixtures(scenery, size, ids_in(soil))
}

/// A table built up to here: in order, with ids apart, each id at most the
/// number of ids handed out, which is small.
pub open spec fn built(entities: Seq<Entity>, store: &SpriteStore, budget: int) -> bool {
    &&& all_ok(entities, store)
    &&& ids_unique(entities)
    &&& ids_within(entities, ids_in(entities))
    &&& 0 <= ids_in(entities) <= budget
}

/// A table stays built when an entity in order is added that has no id or
/// the next one.
pub(crate) proof fn lemma_built_grows(entities: Seq<Entity>, e: Entity, store: &SpriteStore, budget: int)
    requires
        built(entities, store, budget),
        e.ok(store),
        e.id() == 0 || e.id() == ids_in(entities) + 1,
    ensures
        built(entities.push(e), store, budget + 1),
        ids_in(entities.push(e)) == ids_in(entities) + if e.id() != 0 {
            1int
        } else {
            0int
        },
{
    let more = entities.push(e);
    assert(more.drop_last() =~= entities);
    assert(more.last() == e);
    assert forall|i: int| 0 <= i < more.len() implies (#[trigger] more[i]).ok(store) by {
        if i < entities.len() {
            assert(more[i] == entities[i]);
        }
    }
    assert forall|i: int| 0 <= i < more.len() implies (#[trigger] more[i]).id() <= ids_in(more) by {
        if i < entities.len() {
            assert(more[i] == entities[i]);
        }
    }
    assert forall|i: int, j: int|
        0 <= i < more.len() && 0 <= j < more.len() && i != j && (#[trigger] more[i]).id() == (
        #[trigger] more[j]).id() implies more[i].id() == 0 by {
        if i < entities.len() {
            assert(more[i] == entities[i]);
        }
        if j < entities.len() {
            assert(more[j] == entities[j]);
        }
    }
}

fn sprite_of(id: usize, asset: usize, kind: SpriteType) -> (sprite: Sprite)
    ensures
        sprite == plain_sprite(id as int, asset, kind),
{
    Sprite {
        id,
        store_index: asset,
        flip: false,
        frame: 0,
        animating: false,
        last_animate: 0,
        last_move: 0,
        sprite_type: kind,
        highlight: false,
        hidden: false,
        delete: false,
    }
}

fn put(sprite: Sprite, x: i64, y: i64, z: i64, item: Option<Interactible>) -> (e: Entity)
    ensures
        e == prop(sprite, x as int, y as int, z as int, item),
{
    Entity { position: Some(Position { x, y, z }), sprite: Some(sprite), interactible: item, npc: None }
}

/// Lays one tile of the ground. Gives what chance chose for it.
fn lay_tile(
    entities: &mut Vec<Entity>,
    store: &SpriteStore,
    scenery: Scenery,
    size: (u16, u16),
    x: u32,
    y: u32,
    last: &mut usize,
    rng: &mut StdRng,
) -> (dice: Ghost<TileDice>)
    requires
        scenery.matches(store),
        x <= u16::MAX,
        y <= u16::MAX,
        *old(last) == ids_in(old(entities)@),
        built(old(entities)@, store, 0x7fff_0000),
    ensures
        tile_fits(dice@, scenery, store),
        final(entities)@ == old(entities)@ + tile_entities(
            scenery,
            size,
            x as int,
            y as int,
            ids_in(old(entities)@) + 1,
            dice@,
        ),
        *final(last) == ids_in(final(entities)@),
        built(final(entities)@, store, ids_in(old(entities)@) + 1),
        final(entities)@.len() <= old(entities)@.len() + 3,
{
    let ghost start = entities@;
    let dirt_count: usize = store.0[scenery.tile_dirt].data.frames.len();
    let grass_count: usize = store.0[scenery.grass].data.frames.len();
    let dirt_frame: usize = pick_below(rng, 0, dirt_count as u64) as usize;
    let dirt_flip: bool = pick_below(rng, 0, 2) == 0;
    let mut dirt: Sprite = sprite_of(0, scenery.tile_dirt, SpriteType::Background);
    dirt.frame = dirt_frame;
    dirt.flip = dirt_flip;
    let dirt_tile: Entity = put(dirt, x as i64, y as i64, DEPTH_GROUND, None);
    proof {
        lemma_built_grows(entities@, dirt_tile, store, 0x7fff_0000);
    }
    entities.push(dirt_tile);
    if x % 16 == 0 && y % 8 == 0 {
        let mut overlay: Sprite = sprite_of(0, scenery.transition, SpriteType::Overlay);
        overlay.animating = true;
        let overlay_tile: Entity = put(overlay, x as i64, y as i64, DEPTH_OVERLAY, None);
        proof {
            lemma_built_grows(entities@, overlay_tile, store, 0x7fff_0001);
        }
        entities.push(overlay_tile);
    }
    let mut grows: bool = false;
    let mut grass_frame: usize = 0;
    let mut grass_flip: bool = false;
    if (x as i64) < size.0 as i64 - TILE_WIDTH as i64 && (y as i64) < size.1 as i64
        - TILE_HEIGHT as i64 {
        grows = pick_below(rng, 0, 4) == 0;
        if grows {
            let id: usize = *last + 1;
            grass_frame = pick_below(rng, 0, grass_count as u64) as usize;
            grass_flip = pick_below(rng, 0, 2) == 0;
            let mut grass: Sprite = sprite_of(id, scenery.grass, SpriteType::Crop);
            grass.frame = grass_frame;
            grass.flip = grass_flip;
            grass.animating = true;
            let grass_tile: Entity = put(
                grass,
                x as i64,
                y as i64,
                DEPTH_GRASS + id as i64,
                Some(Interactible { item_type: ItemType::Grass, hold_to_use: false }),
            );
            proof {
                lemma_built_grows(entities@, grass_tile, store, 0x7fff_0002);
            }
            entities.push(grass_tile);
            *last = id;
        }
    }
    let ghost dice = TileDice { dirt_frame, dirt_flip, grass: grows, grass_frame, grass_flip };
    assert(entities@ =~= start + tile_entities(
        scenery,
        size,
        x as int,
        y as int,
        ids_in(start) + 1,
        dice,
    ));
    Ghost(dice)
}

/// The sheets that the world begins with, as the store has them.
pub open spec fn scenery_of(store: &SpriteStore) -> Scenery {
    Scenery {
        tile_dirt: place_of(store, "tile-dirt"@, 0),
        transition: place_of(store, "transition"@, 0),
        grass: place_of(store, "grass"@, 0),
        cryopod: place_of(store, "cryopod"@, 0),
        terminal: place_of(store, "terminal"@, 0),
        character_00: place_of(store, "character-00"@, 0),
        tool_shovel: place_of(store, "tool-shovel"@, 0),
        tool_packet: place_of(store, "tool-packet"@, 0),
        tool_watercan: place_of(store, "tool-watercan"@, 0),
    }
}

/// The world is the one that the game begins with, for the choices that
/// chance made.
pub open spec fn begun(
    world: World,
    store: &SpriteStore,
    size: (u16, u16),
    messages: Vec<String>,
    dice: Seq<Seq<TileDice>>,
) -> bool {
    &&& world.entities@ == first_table(scenery_of(store), size, dice)
    &&& world.indexer.0 == ids_in(world.entities@)
    &&& world.queue@.len() == 0
    &&& world.game.holding == ItemType::Nothing
    &&& world.game.show_help
    &&& world.game.show_transition
    &&& world.game.terminal_messages == messages
    &&& !world.game.show_terminal
    &&& world.game.terminal_message_index == 0
    &&& !world.game.terminal_read
    &&& !world.game.clear_screen
}

/// Lays the ground, tile by tile and row by row. Gives the number of ids
/// handed out and what chance chose.
fn lay_ground(
    entities: &mut Vec<Entity>,
    store: &SpriteStore,
    scenery: Scenery,
    size: (u16, u16),
    rng: &mut StdRng,
) -> (laid: (usize, Ghost<Seq<Seq<TileDice>>>))
    requires
        scenery.serves(store),
        has_tiles(size) ==> scenery.matches(store),
        old(entities)@.len() == 0,
    ensures
        tiles_fit(laid.1@, scenery, size, store),
        final(entities)@ == ground(scenery, size, tiles_across(size.1, TILE_HEIGHT), laid.1@),
        laid.0 == ids_in(final(entities)@),
        built(final(entities)@, store, 0x0800_0000),
        final(entities)@.len() <= 0x1800_0000,
{
    let rows: u32 = (size.1 as u32 + TILE_HEIGHT - 1) / TILE_HEIGHT;
    let cols: u32 = (size.0 as u32 + TILE_WIDTH - 1) / TILE_WIDTH;
    let mut last: usize = 0;
    let ghost mut dice: Seq<Seq<TileDice>> = Seq::empty();
    let mut r: u32 = 0;
    assert(entities@ =~= ground(scenery, size, 0, dice));
    while r < rows
        invariant
            r <= rows,
            rows == tiles_across(size.1, TILE_HEIGHT),
            cols == tiles_across(size.0, TILE_WIDTH),
            rows <= 16384,
            cols <= 8192,
            scenery.serves(store),
            has_tiles(size) ==> scenery.matches(store),
            dice.len() == r,
            forall|k: int| 0 <= k < dice.len() ==> row_fits(#[trigger] dice[k], scenery, cols as nat, store),
            entities@ == ground(scenery, size, r as nat, dice),
            last == ids_in(entities@),
            built(entities@, store, 8192 * r),
            entities@.len() <= 24576 * r,
        decreases rows - r,
    {
        let ghost above = entities@;
        let ghost mut row: Seq<TileDice> = Seq::empty();
        let mut c: u32 = 0;
        while c < cols
            invariant
                c <= cols,
                r < rows,
                rows == tiles_across(size.1, TILE_HEIGHT),
                cols == tiles_across(size.0, TILE_WIDTH),
                rows <= 16384,
                cols <= 8192,
                scenery.serves(store),
                has_tiles(size) ==> scenery.matches(store),
                row.len() == c,
                forall|k: int| 0 <= k < row.len() ==> tile_fits(#[trigger] row[k], scenery, store),
                entities@ == ground_row(above, scenery, size, TILE_HEIGHT * r, c as nat, row),
                last == ids_in(entities@),
                built(entities@, store, 8192 * r + c),
                entities@.len() <= 24576 * r + 3 * c,
            decreases cols - c,
        {
            let ghost left = entities@;
            let ghost was = row;
            let tile = lay_tile(
                entities,
                store,
                scenery,
                size,
                TILE_WIDTH * c,
                TILE_HEIGHT * r,
                &mut last,
                rng,
            );
            proof {
                row = row.push(tile@);
                assert(row.drop_last() =~= was);
                assert(row.last() == tile@);
                assert forall|k: int| 0 <= k < row.len() implies tile_fits(
                    #[trigger] row[k],
                    scenery,
                    store,
                ) by {
                    if k < was.len() {
                        assert(row[k] == was[k]);
                    }
                }
            }
            c = c + 1;
        }
        proof {
            let was = dice;
            dice = dice.push(row);
            assert(dice.drop_last() =~= was);
            assert(dice.last() == row);
            assert forall|k: int| 0 <= k < dice.len() implies row_fits(
                #[trigger] dice[k],
                scenery,
                cols as nat,
                store,
            ) by {
                if k < was.len() {
                    assert(dice[k] == was[k]);
                }
            }
        }
        r = r + 1;
    }
    (last, Ghost(dice))
}

impl World {
    /// Makes the world that the game begins with, for a terminal of the
    /// given size. Fails if the store lacks a sheet that the world begins
    /// with. The grass can be watered, so its sheet must have the frames of
    /// a crop.
    pub fn populate(
        store: &SpriteStore,
        size: (u16, u16),
        messages: Vec<String>,
        rng: &mut StdRng,
    ) -> (made: Result<World, SpriteStoreError>)
        requires
            store.wf(),
            long_enough(store, "grass"@, CROP_FRAMES as int),
            messages@.len() > FINAL_STAGE,
        ensures
            made is Ok <==> supports_scenery(store, size),
            match made {
                Ok(world) => {
                    &&& world.wf(store)
                    &&& world.indexer.0 + world.entities@.len() + 3 <= id_limit()
                    &&& exists|dice: Seq<Seq<TileDice>>|
                        tiles_fit(dice, scenery_of(store), size, store) && #[trigger] begun(
                            world,
                            store,
                            size,
                            messages,
                            dice,
                        )
                },
                Err(_) => true,
            },
    {
        let scenery: Scenery = match Scenery::resolve(store, size) {
            Ok(scenery) => scenery,
            Err(e) => {
                return Err(e);
            },
        };
        assert(scenery == scenery_of(store));
        let mut entities: Vec<Entity> = Vec::new();
        let laid = lay_ground(&mut entities, store, scenery, size, rng);
        let last: usize = laid.0;
        let ghost soil = entities@;
        let h: i64 = size.1 as i64;
        let mut pod: Sprite = sprite_of(last + 1, scenery.cryopod, SpriteType::Tool);
        pod.animating = true;
        let mut terminal: Sprite = sprite_of(last + 2, scenery.terminal, SpriteType::Tool);
        terminal.animating = true;
        terminal.flip = true;
        let e1: Entity = put(
            pod,
            1,
            0,
            DEPTH_PLAYER - (last + 1) as i64,
            Some(Interactible { item_type: ItemType::Pod, hold_to_use: false }),
        );
        let e2: Entity = put(
            terminal,
            11,
            2,
            DEPTH_PLAYER - (last + 2) as i64,
            Some(Interactible { item_type: ItemType::Terminal, hold_to_use: false }),
        );
        let e3: Entity = put(
            sprite_of(last + 3, scenery.character_00, SpriteType::Player),
            5,
            h / 2 - 2,
            DEPTH_PLAYER + (last + 3) as i64,
            None,
        );
        let e4: Entity = put(
            sprite_of(last + 4, scenery.tool_shovel, SpriteType::Tool),
            2,
            h - 7,
            DEPTH_TOOLS + (last + 4) as i64,
            Some(Interactible { item_type: ItemType::Shovel, hold_to_use: true }),
        );
        let e5: Entity = put(
            sprite_of(last + 5, scenery.tool_packet, SpriteType::Tool),
            8,
            h - 4,
            DEPTH_TOOLS + (last + 5) as i64,
            Some(Interactible { item_type: ItemType::Packet, hold_to_use: true }),
        );
        let e6: Entity = put(
            sprite_of(last + 6, scenery.tool_watercan, SpriteType::Tool),
            8,
            h - 8,
            DEPTH_TOOLS + (last + 6) as i64,
            Some(Interactible { item_type: ItemType::Watercan, hold_to_use: true }),
        );
        proof {
            lemma_built_grows(entities@, e1, store, 0x0800_0000);
        }
        entities.push(e1);
        proof {
            lemma_built_grows(entities@, e2, store, 0x0800_0001);
        }
        entities.push(e2);
        proof {
            lemma_built_grows(entities@, e3, store, 0x0800_0002);
        }
        entities.push(e3);
        proof {
            lemma_built_grows(entities@, e4, store, 0x0800_0003);
        }
        entities.push(e4);
        proof {
            lemma_built_grows(entities@, e5, store, 0x0800_0004);
        }
        entities.push(e5);
        proof {
            lemma_built_grows(entities@, e6, store, 0x0800_0005);
        }
        entities.push(e6);
        assert(entities@ =~= soil + fixtures(scenery, size, ids_in(soil)));
        let world = World {
            entities,
            game: Game::new(messages),
            indexer: SpriteIndexer(last + 6),
            queue: Vec::new(),
        };
        assert(begun(world, store, size, messages, laid.1@));
        Ok(world)
    }
}

} // verus!
