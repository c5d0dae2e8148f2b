//! What the player's command does in one tick: moving, picking up and
//! putting down, and using what is held on what is near.

use vstd::prelude::*;
use rand::rngs::StdRng;
use crate::catalog::Catalog;
use crate::catalog::Stock;
use crate::chance::pick_below;
use crate::held::CROP_DISTANCE;
use crate::held::PICKUP_DISTANCE;
use crate::input::InputState;
use crate::input::impulse;
use crate::input::impulse_of;
use crate::measure::clamp;
use crate::measure::clip;
use crate::measure::due;
use crate::measure::is_due;
use crate::measure::shift;
use crate::search::Found;
use crate::search::find_player;
use crate::search::first_player;
use crate::search::nearest_among;
use crate::search::nearest_of_type;
use crate::sprite::SpriteStore;
use crate::state::DEPTH_CROPS;
use crate::state::DEPTH_OVERLAY;
use crate::state::Game;
use crate::state::Interactible;
use crate::state::ItemType;
use crate::state::Position;
use crate::state::Sprite;
use crate::state::SpriteType;
use crate::world::Command;
use crate::world::Entity;
use crate::world::World;
use crate::world::all_ok;
use crate::world::id_limit;
use crate::world::spawned;

verus! {

/// A player who has not moved for longer than this stands still.
pub const IDLE_AFTER: u64 = 400;

/// What is to be done to a sprite once the player's command is resolved.
#[derive(Clone, Copy, Debug, PartialEq, Eq, PartialOrd, Structural)]
pub enum SpriteActionCommand {
    Delete,
    Water,
    Seed,
    Seed2,
    Grow,
    Idle,
}

/// A command and the id of the sprite it is meant for. `Grow` is meant for
/// every crop, and carries no id.
#[derive(Clone, Copy, Debug)]
pub struct SpriteAction {
    pub id: usize,
    pub action: SpriteActionCommand,
}

/// What a tick finds before anything moves: where the player stands and
/// faces, and the nearest tool and the nearest crop.
#[derive(Clone, Copy, Debug)]
pub struct Scene {
    pub player_pos: (i64, i64),
    pub player_flip: bool,
    pub tool: Found,
    pub crop: Found,
}

/// The middle of a player who stands at `pos`.
pub open spec fn centre_of(pos: (i64, i64)) -> (i64, i64) {
    (clip(pos.0 + 4), clip(pos.1 + 2))
}

/// The cell on which the player works: the middle of the player, or nine
/// cells to the left of it when the player faces left.
pub open spec fn work_point_of(pos: (i64, i64), flip: bool) -> (i64, i64) {
    let centre = centre_of(pos);
    (
        clip(
            centre.0 + if flip {
                -9int
            } else {
                0int
            },
        ),
        centre.1,
    )
}

/// The point from which crops are searched: the middle of a crop planted
/// on the work point.
pub open spec fn probe_of(pos: (i64, i64), flip: bool) -> (i64, i64) {
    let work = work_point_of(pos, flip);
    (clip(work.0 + 4), clip(work.1 + 2))
}

/// The scene that a table of entities shows. Where there is no player, the
/// scene is that of a player at the origin that faces right.
pub open spec fn scene_of(entities: Seq<Entity>, store: &SpriteStore) -> Scene {
    let pos = match first_player(entities) {
        Some(k) => (entities[k].position->0.x, entities[k].position->0.y),
        None => (0i64, 0i64),
    };
    let flip = match first_player(entities) {
        Some(k) => entities[k].sprite->0.flip,
        None => false,
    };
    Scene {
        player_pos: pos,
        player_flip: flip,
        tool: nearest_among(entities, centre_of(pos), SpriteType::Tool, store),
        crop: nearest_among(entities, probe_of(pos, flip), SpriteType::Crop, store),
    }
}

impl Scene {
    /// The middle of the player.
    pub open spec fn centre(&self) -> (i64, i64) {
        centre_of(self.player_pos)
    }

    /// The cell on which the player works.
    pub open spec fn work_point(&self) -> (i64, i64) {
        work_point_of(self.player_pos, self.player_flip)
    }
}

/// Looks at the table before anything moves.
pub fn survey(entities: &Vec<Entity>, store: &SpriteStore) -> (scene: Scene)
    requires
        store.wf(),
        all_ok(entities@, store),
    ensures
        scene == scene_of(entities@, store),
{
    let mut pos: (i64, i64) = (0, 0);
    let mut flip: bool = false;
    match find_player(entities) {
        Some(k) => {
            let e: Entity = entities[k];
            match (e.position, e.sprite) {
                (Some(p), Some(s)) => {
                    pos = (p.x, p.y);
                    flip = s.flip;
                },
                _ => {},
            }
        },
        None => {},
    }
    let centre: (i64, i64) = (shift(pos.0, 4), shift(pos.1, 2));
    let tool: Found = nearest_of_type(centre, SpriteType::Tool, store, entities);
    let side: i64 = if flip {
        -9
    } else {
        0
    };
    let work: (i64, i64) = (shift(centre.0, side), centre.1);
    let probe: (i64, i64) = (shift(work.0, 4), shift(work.1, 2));
    let crop: Found = nearest_of_type(probe, SpriteType::Crop, store, entities);
    Scene { player_pos: pos, player_flip: flip, tool, crop }
}

/// Nothing is to be done.
pub open spec fn no_action() -> SpriteAction {
    SpriteAction { id: 0, action: SpriteActionCommand::Idle }
}

/// What the player holds after the pickup command: the nearest tool, if
/// nothing was held and a tool is within reach; nothing, if something was
/// held.
pub open spec fn held_after_pickup(holding: ItemType, tool: Found) -> ItemType {
    if holding == ItemType::Nothing {
        if tool.item_type != ItemType::Nothing && tool.dist < PICKUP_DISTANCE {
            tool.item_type
        } else {
            ItemType::Nothing
        }
    } else {
        ItemType::Nothing
    }
}

/// The game's flags after the player's command.
#[verifier::opaque]
pub open spec fn game_after_input(game: Game, command: InputState, scene: Scene) -> Game {
    match command {
        InputState::Pickup => Game { holding: held_after_pickup(game.holding, scene.tool), ..game },
        InputState::Action => if game.holding == ItemType::Nothing && scene.tool.item_type
            == ItemType::Terminal {
            if game.show_terminal {
                Game { show_terminal: false, terminal_read: true, ..game }
            } else if scene.tool.dist <= PICKUP_DISTANCE {
                Game { show_terminal: true, ..game }
            } else {
                game
            }
        } else {
            game
        },
        InputState::ToggleHelp => Game { show_help: !game.show_help, ..game },
        InputState::Quit => game,
        InputState::Clear => Game { clear_screen: true, ..game },
        InputState::Idle => Game { clear_screen: false, ..game },
        _ => Game { show_terminal: false, ..game },
    }
}

/// What the action command asks for, by what is held and what is near.
/// With empty hands at the pod, every crop grows. The shovel deletes, the
/// watering can waters and the seed packets sow the nearest crop, if one is
/// within the distance for crops.
#[verifier::opaque]
pub open spec fn action_of(holding: ItemType, command: InputState, scene: Scene) -> SpriteAction {
    if command != InputState::Action {
        no_action()
    } else if holding == ItemType::Nothing && scene.tool.item_type == ItemType::Pod {
        SpriteAction { id: 0, action: SpriteActionCommand::Grow }
    } else if holding == ItemType::Nothing && scene.tool.item_type == ItemType::Terminal {
        no_action()
    } else if scene.crop.dist >= CROP_DISTANCE {
        no_action()
    } else if holding == ItemType::Shovel {
        SpriteAction { id: scene.crop.id, action: SpriteActionCommand::Delete }
    } else if holding == ItemType::Watercan {
        SpriteAction { id: scene.crop.id, action: SpriteActionCommand::Water }
    } else if holding == ItemType::Packet {
        SpriteAction { id: scene.crop.id, action: SpriteActionCommand::Seed }
    } else if holding == ItemType::Packet2 {
        SpriteAction { id: scene.crop.id, action: SpriteActionCommand::Seed2 }
    } else {
        no_action()
    }
}

/// A sprite that is shown until its animation has run once.
pub open spec fn particle_sprite(asset: usize) -> Sprite {
    Sprite {
        store_index: asset,
        sprite_type: SpriteType::Particle,
        animating: true,
        ..Sprite::blank()
    }
}

/// The sprite of a crop in which nothing is sown yet.
pub open spec fn empty_crop_sprite(catalog: Catalog, flip: bool) -> Sprite {
    Sprite { store_index: catalog.crop_empty, flip, sprite_type: SpriteType::Crop, ..Sprite::blank() }
}

/// What makes an entity a crop.
pub open spec fn crop_item() -> Interactible {
    Interactible { item_type: ItemType::Crop, hold_to_use: false }
}

/// The entities that the action command spawns, the first with the id
/// `first`. The shovel throws up dirt, and plants an empty crop where it
/// finds none to dig up; the watering can spills water; empty hands, or
/// hands that hold the other character, send a heart to that character.
#[verifier::opaque]
pub open spec fn spawns_of(
    holding: ItemType,
    command: InputState,
    scene: Scene,
    catalog: Catalog,
    first: usize,
    flip: bool,
) -> Seq<Entity> {
    if command != InputState::Action {
        seq![]
    } else if holding == ItemType::Nothing && (scene.tool.item_type == ItemType::Pod
        || scene.tool.item_type == ItemType::Terminal) {
        seq![]
    } else if holding == ItemType::Shovel {
        let dirt = spawned(
            particle_sprite(catalog.particle_dirt),
            first,
            scene.work_point(),
            DEPTH_OVERLAY,
            None,
            None,
        );
        if scene.crop.dist < CROP_DISTANCE {
            seq![dirt]
        } else {
            seq![
                dirt,
                spawned(
                    empty_crop_sprite(catalog, flip),
                    (first + 1) as usize,
                    scene.work_point(),
                    DEPTH_CROPS,
                    Some(crop_item()),
                    None,
                ),
            ]
        }
    } else if holding == ItemType::Watercan {
        seq![
            spawned(
                particle_sprite(catalog.particle_water),
                first,
                scene.work_point(),
                DEPTH_OVERLAY,
                None,
                None,
            ),
        ]
    } else if holding == ItemType::Packet || holding == ItemType::Packet2 {
        seq![]
    } else if (holding == ItemType::Nothing || holding == ItemType::Npc) && scene.tool.item_type
        == ItemType::Npc {
        seq![
            spawned(
                particle_sprite(catalog.particle_heart),
                first,
                (scene.centre().0, clip(scene.centre().1 - 2)),
                DEPTH_OVERLAY,
                None,
                None,
            ),
        ]
    } else {
        seq![]
    }
}

/// The player after the command. A direction turns the player and starts
/// the animation; the step itself is taken only when more than half the
/// duration of the frame has passed since the last one, and ends inside the
/// field: not left of column 0 nor right of the tenth column from the right
/// edge, not above row -2 nor below the fifth row from the bottom. Without
/// any command for longer than `IDLE_AFTER`, the player stands still on the
/// first frame. `wait` is the duration of the frame that the player showed
/// when the tick began.
#[verifier::opaque]
pub open spec fn player_after(
    e: Entity,
    command: InputState,
    wait: u64,
    time: u64,
    size: (u16, u16),
) -> Entity {
    let sprite = e.sprite->0;
    let pos = e.position->0;
    let step = impulse_of(command);
    if !e.visible() {
        e
    } else if command == InputState::Idle {
        if due(sprite.last_move, IDLE_AFTER, time) {
            Entity { sprite: Some(Sprite { animating: false, frame: 0, ..sprite }), ..e }
        } else {
            e
        }
    } else if step.0 == 0 && step.1 == 0 {
        e
    } else {
        let flip = if step.0 < 0 {
            true
        } else if step.0 > 0 {
            false
        } else {
            sprite.flip
        };
        if due(sprite.last_move, wait / 2, time) {
            Entity {
                sprite: Some(Sprite { flip, animating: true, last_move: time, ..sprite }),
                position: Some(
                    Position {
                        x: clamp(pos.x + step.0, 0, size.0 - 10) as i64,
                        y: clamp(pos.y + step.1, -2, size.1 - 5) as i64,
                        z: pos.z,
                    },
                ),
                ..e
            }
        } else {
            Entity { sprite: Some(Sprite { flip, animating: true, ..sprite }), ..e }
        }
    }
}

/// Moves the player as the command says.
pub fn steer(e: Entity, command: InputState, wait: u64, time: u64, size: (u16, u16)) -> (after: Entity)
    ensures
        after == player_after(e, command, wait, time, size),
{
    reveal(player_after);
    match (e.sprite, e.position) {
        (Some(sprite), Some(pos)) => {
            let mut sprite: Sprite = sprite;
            let mut pos: Position = pos;
            let step: (i64, i64) = impulse(command);
            if command == InputState::Idle {
                if is_due(sprite.last_move, IDLE_AFTER, time) {
                    sprite.animating = false;
                    sprite.frame = 0;
                }
            } else if step.0 != 0 || step.1 != 0 {
                if step.0 < 0 {
                    sprite.flip = true;
                } else if step.0 > 0 {
                    sprite.flip = false;
                }
                sprite.animating = true;
                if is_due(sprite.last_move, wait / 2, time) {
                    sprite.last_move = time;
                    pos.x = shift(pos.x, step.0);
                    pos.y = shift(pos.y, step.1);
                    if pos.x < 0 {
                        pos.x = 0;
                    } else if pos.x > size.0 as i64 - 10 {
                        pos.x = size.0 as i64 - 10;
                    }
                    if pos.y < -2 {
                        pos.y = -2;
                    } else if pos.y > size.1 as i64 - 5 {
                        pos.y = size.1 as i64 - 5;
                    }
                }
            }
            Entity { sprite: Some(sprite), position: Some(pos), ..e }
        },
        _ => e,
    }
}

/// Changes the game's flags as the command says.
pub fn heed(game: &mut Game, command: InputState, scene: Scene)
    ensures
        *final(game) == game_after_input(*old(game), command, scene),
        final(game).terminal_message_index == old(game).terminal_message_index,
        final(game).terminal_messages == old(game).terminal_messages,
        final(game).show_transition == old(game).show_transition,
{
    reveal(game_after_input);
    match command {
        InputState::Pickup => {
            if game.holding == ItemType::Nothing && scene.tool.item_type != ItemType::Nothing
                && scene.tool.dist < PICKUP_DISTANCE {
                game.holding = scene.tool.item_type;
            } else if game.holding != ItemType::Nothing {
                game.holding = ItemType::Nothing;
            }
        },
        InputState::Action => {
            if game.holding == ItemType::Nothing && scene.tool.item_type == ItemType::Terminal {
                if game.show_terminal {
                    game.show_terminal = false;
                    game.terminal_read = true;
                } else if scene.tool.dist <= PICKUP_DISTANCE {
                    game.show_terminal = true;
                }
            }
        },
        InputState::ToggleHelp => {
            game.show_help = !game.show_help;
        },
        InputState::Quit => {},
        InputState::Clear => {
            game.clear_screen = true;
        },
        InputState::Idle => {
            game.clear_screen = false;
        },
        _ => {
            game.show_terminal = false;
        },
    }
}

/// Tells what the action command asks for.
pub fn resolve_action(holding: ItemType, command: InputState, scene: Scene) -> (action: SpriteAction)
    ensures
        action == action_of(holding, command, scene),
{
    reveal(action_of);
    let idle = SpriteAction { id: 0, action: SpriteActionCommand::Idle };
    if command != InputState::Action {
        idle
    } else if holding == ItemType::Nothing && scene.tool.item_type == ItemType::Pod {
        SpriteAction { id: 0, action: SpriteActionCommand::Grow }
    } else if holding == ItemType::Nothing && scene.tool.item_type == ItemType::Terminal {
        idle
    } else if scene.crop.dist >= CROP_DISTANCE {
        idle
    } else if holding == ItemType::Shovel {
        SpriteAction { id: scene.crop.id, action: SpriteActionCommand::Delete }
    } else if holding == ItemType::Watercan {
        SpriteAction { id: scene.crop.id, action: SpriteActionCommand::Water }
    } else if holding == ItemType::Packet {
        SpriteAction { id: scene.crop.id, action: SpriteActionCommand::Seed }
    } else if holding == ItemType::Packet2 {
        SpriteAction { id: scene.crop.id, action: SpriteActionCommand::Seed2 }
    } else {
        idle
    }
}

/// The sheets that the action command spawns sprites of: the dirt for the
/// shovel, and the empty crop where it plants one; the water for the
/// watering can; the heart for the other character.
pub open spec fn spawn_needs(holding: ItemType, command: InputState, scene: Scene) -> Stock {
    let acts = command == InputState::Action;
    Stock {
        particle_dirt: acts && holding == ItemType::Shovel,
        particle_water: acts && holding == ItemType::Watercan,
        particle_heart: acts && (holding == ItemType::Nothing || holding == ItemType::Npc)
            && scene.tool.item_type == ItemType::Npc,
        crop_empty: plants(holding, command, scene),
        crop_leaf: false,
        crop_flower: false,
        grass: false,
        tool_packet2: false,
        character_01: false,
    }
}

/// Whether the action command plants a crop, whose facing is left to
/// chance.
pub open spec fn plants(holding: ItemType, command: InputState, scene: Scene) -> bool {
    command == InputState::Action && holding == ItemType::Shovel && scene.crop.dist
        >= CROP_DISTANCE
}

fn particle(asset: usize) -> (sprite: Sprite)
    ensures
        sprite == particle_sprite(asset),
{
    Sprite {
        id: 0,
        store_index: asset,
        flip: false,
        frame: 0,
        animating: true,
        last_animate: 0,
        last_move: 0,
        sprite_type: SpriteType::Particle,
        highlight: false,
        hidden: false,
        delete: false,
    }
}

/// Asks for the entities that the action command spawns, with `flip` as
/// the facing of a crop that is planted.
pub fn spawn_for_action(
    world: &mut World,
    holding: ItemType,
    command: InputState,
    scene: Scene,
    catalog: Catalog,
    flip: bool,
)
    requires
        old(world).indexer.0 + 2 <= id_limit(),
    ensures
        final(world).entities == old(world).entities,
        final(world).game == old(world).game,
        final(world).queue@ == old(world).queue@ + spawns_of(
            holding,
            command,
            scene,
            catalog,
            (old(world).indexer.0 + 1) as usize,
            flip,
        ).map_values(|e: Entity| Command::Spawn(e)),
        final(world).indexer.0 == old(world).indexer.0 + spawns_of(
            holding,
            command,
            scene,
            catalog,
            (old(world).indexer.0 + 1) as usize,
            flip,
        ).len(),
        final(world).indexer.0 <= old(world).indexer.0 + 2,
{
    reveal(spawns_of);
    let ghost before = world.queue@;
    let ghost asked = spawns_of(
        holding,
        command,
        scene,
        catalog,
        (world.indexer.0 + 1) as usize,
        flip,
    );
    let centre: (i64, i64) = (shift(scene.player_pos.0, 4), shift(scene.player_pos.1, 2));
    let side: i64 = if scene.player_flip {
        -9
    } else {
        0
    };
    let work: (i64, i64) = (shift(centre.0, side), centre.1);
    if command != InputState::Action {
    } else if holding == ItemType::Nothing && (scene.tool.item_type == ItemType::Pod
        || scene.tool.item_type == ItemType::Terminal) {
    } else if holding == ItemType::Shovel {
        world.spawn(particle(catalog.particle_dirt), work, DEPTH_OVERLAY, None, None);
        if scene.crop.dist >= CROP_DISTANCE {
            let sprite = Sprite {
                id: 0,
                store_index: catalog.crop_empty,
                flip,
                frame: 0,
                animating: false,
                last_animate: 0,
                last_move: 0,
                sprite_type: SpriteType::Crop,
                highlight: false,
                hidden: false,
                delete: false,
            };
            world.spawn(
                sprite,
                work,
                DEPTH_CROPS,
                Some(Interactible { item_type: ItemType::Crop, hold_to_use: false }),
                None,
            );
        }
    } else if holding == ItemType::Watercan {
        world.spawn(particle(catalog.particle_water), work, DEPTH_OVERLAY, None, None);
    } else if holding == ItemType::Packet || holding == ItemType::Packet2 {
    } else if (holding == ItemType::Nothing || holding == ItemType::Npc) && scene.tool.item_type
        == ItemType::Npc {
        world.spawn(
            particle(catalog.particle_heart),
            (centre.0, shift(centre.1, -2)),
            DEPTH_OVERLAY,
            None,
            None,
        );
    }
    assert(world.queue@ =~= before + asked.map_values(|e: Entity| Command::Spawn(e)));
}

/// Tells whether the action command plants a crop.
pub fn will_plant(holding: ItemType, command: InputState, scene: Scene) -> (yes: bool)
    ensures
        yes == plants(holding, command, scene),
{
    command == InputState::Action && holding == ItemType::Shovel && scene.crop.dist >= CROP_DISTANCE
}

/// Draws the facing of a crop that is about to be planted. Chance decides
/// it: either facing may come out, so nothing is said of the result.
pub(crate) fn crop_facing(rng: &mut StdRng) -> (flip: bool) {
    facing_for(pick_below(rng, 0, 2))
}

/// The facing that a draw of zero or one stands for: zero faces left.
pub open spec fn faces_left(drawn: u64) -> bool {
    drawn == 0
}

/// Turns a draw of zero or one into a facing.
pub fn facing_for(drawn: u64) -> (flip: bool)
    ensures
        flip == faces_left(drawn),
{
    drawn == 0
}

/// Steering changes neither what the player is nor whether it is in
/// order.
pub(crate) proof fn lemma_player_after_keeps(
    e: Entity,
    command: InputState,
    wait: u64,
    time: u64,
    size: (u16, u16),
    store: &SpriteStore,
)
    ensures
        e.same_shape(player_after(e, command, wait, time, size)),
        e.ok(store) ==> player_after(e, command, wait, time, size).ok(store),
{
    reveal(player_after);
}

} // verus!
