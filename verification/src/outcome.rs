//! What a tick comes to: the table, the game and the ids after it, as a
//! function of what they were before and of what chance chose.

use vstd::prelude::*;
use crate::actions::acted;
use crate::actions::action_commands;
use crate::actions::conversions;
use crate::actions::dice_fit;
use crate::actions::particle_removals;
use crate::actions::spent;
use crate::animate::animate_step;
use crate::animate::frame_wait;
use crate::actions::converts;
use crate::actions::grass_at_hand;
use crate::actions::seed_at_hand;
use crate::actions::sows_into;
use crate::catalog::catalog_of;
use crate::catalog::Catalog;
use crate::catalog::Stock;
use crate::narrative::gift_known;
use crate::narrative::has_crop;
use crate::player::spawn_needs;
use crate::held::Grip;
use crate::held::held_step;
use crate::input::InputState;
use crate::input::TickInput;
use crate::narrative::game_after_sleep;
use crate::narrative::gifts_after_sleep;
use crate::narrative::rewound;
use crate::narrative::sleep;
use crate::npc::aimed_at;
use crate::npc::in_field;
use crate::npc::npc_retargets;
use crate::npc::npc_walk;
use crate::npc::roomy;
use crate::player::Scene;
use crate::player::SpriteAction;
use crate::player::SpriteActionCommand;
use crate::player::action_of;
use crate::player::game_after_input;
use crate::player::no_action;
use crate::player::player_after;
use crate::player::scene_of;
use crate::player::spawns_of;
use crate::search::first_player;
use crate::sprite::SpriteStore;
use crate::state::Game;
use crate::state::ItemType;
use crate::world::Command;
use crate::world::Entity;
use crate::world::World;
use crate::world::apply_all;
use crate::world::id_limit;

verus! {

/// What chance decides in one tick: for each entity, the target that it is
/// given if it is due for one and the facing and frame of the grass that
/// it may give way to; and the facing of a crop that is planted.
pub struct Chance {
    pub targets: Seq<(i64, i64)>,
    pub crop_flip: bool,
    pub grass: Seq<(bool, usize)>,
}

/// The table, the game and the last id after a tick.
pub struct Outcome {
    pub entities: Seq<Entity>,
    pub game: Game,
    pub last_id: int,
}

/// What the tracking of held items is told in a tick.
pub open spec fn grip_of(game: Game, input: TickInput, scene: Scene) -> Grip {
    Grip {
        holding: game.holding,
        player_pos: scene.player_pos,
        player_flip: scene.player_flip,
        action_pressed: input.command == InputState::Action,
        tool: scene.tool,
    }
}

/// A walker after its step, with `target` as its new target if it is due
/// for one.
pub open spec fn walk_with(e: Entity, holding: ItemType, time: u64, target: (i64, i64)) -> Entity {
    if npc_retargets(e, holding, time) {
        aimed_at(npc_walk(e, holding, time), target)
    } else {
        npc_walk(e, holding, time)
    }
}

/// The table after the held items are put in place, the walkers have
/// stepped and the clock has moved every sprite.
pub open spec fn moved_table(
    entities: Seq<Entity>,
    game: Game,
    store: &SpriteStore,
    input: TickInput,
    targets: Seq<(i64, i64)>,
) -> Seq<Entity> {
    let grip = grip_of(game, input, scene_of(entities, store));
    Seq::new(
        entities.len(),
        |i: int|
            animate_step(
                walk_with(held_step(entities[i], grip), game.holding, input.time, targets[i]),
                store,
                game.show_transition,
                input.time,
            ),
    )
}

/// How long the player's frame lasts, taken before the clock moves it.
pub open spec fn player_wait(
    entities: Seq<Entity>,
    game: Game,
    store: &SpriteStore,
    input: TickInput,
    targets: Seq<(i64, i64)>,
    k: int,
) -> u64 {
    let grip = grip_of(game, input, scene_of(entities, store));
    let e = walk_with(held_step(entities[k], grip), game.holding, input.time, targets[k]);
    frame_wait(e.sprite->0, &store.0@[e.sprite->0.store_index as int])
}

/// The table after the player has been steered as well.
pub open spec fn steered_table(
    entities: Seq<Entity>,
    game: Game,
    store: &SpriteStore,
    input: TickInput,
    targets: Seq<(i64, i64)>,
) -> Seq<Entity> {
    let moved = moved_table(entities, game, store, input, targets);
    match first_player(entities) {
        Some(k) => moved.update(
            k,
            player_after(
                moved[k],
                input.command,
                player_wait(entities, game, store, input, targets, k),
                input.time,
                input.size,
            ),
        ),
        None => moved,
    }
}

/// The action of the tick: that of the player's command, none where there
/// is no player.
pub open spec fn tick_action(entities: Seq<Entity>, game: Game, store: &SpriteStore, input: TickInput) -> SpriteAction {
    match first_player(entities) {
        Some(_) => action_of(game.holding, input.command, scene_of(entities, store)),
        None => no_action(),
    }
}

/// The game after the player's command, with the transition switched off.
pub open spec fn heeded_game(entities: Seq<Entity>, game: Game, store: &SpriteStore, input: TickInput) -> Game {
    let heard = match first_player(entities) {
        Some(_) => game_after_input(game, input.command, scene_of(entities, store)),
        None => game,
    };
    Game { show_transition: false, ..heard }
}

/// What the player's command spawns.
pub open spec fn player_spawns(
    entities: Seq<Entity>,
    game: Game,
    store: &SpriteStore,
    catalog: Catalog,
    input: TickInput,
    first: int,
    flip: bool,
) -> Seq<Command> {
    match first_player(entities) {
        Some(_) => spawns_of(
            game.holding,
            input.command,
            scene_of(entities, store),
            catalog,
            first as usize,
            flip,
        ).map_values(|e: Entity| Command::Spawn(e)),
        None => seq![],
    }
}

/// The table, the game, the last id and the queue after the part of a tick
/// that follows the player's command.
pub struct Worked {
    pub entities: Seq<Entity>,
    pub game: Game,
    pub last_id: int,
    pub queue: Seq<Command>,
}

/// The table after a night in the pod, if the action is to sleep.
pub open spec fn rested_table(entities: Seq<Entity>, action: SpriteAction) -> Seq<Entity> {
    if action.action == SpriteActionCommand::Grow {
        Seq::new(entities.len(), |i: int| rewound(entities[i]))
    } else {
        entities
    }
}

/// What follows the player's command. If the action is to sleep, the
/// overlays play again and the story may move on. The spent particles are
/// asked to go, and the action is applied to the items.
#[verifier::opaque]
pub open spec fn worked(
    entities: Seq<Entity>,
    game: Game,
    last_id: int,
    queue: Seq<Command>,
    store: &SpriteStore,
    catalog: Catalog,
    input: TickInput,
    action: SpriteAction,
    dice: Seq<(bool, usize)>,
) -> Worked {
    let sleeps = action.action == SpriteActionCommand::Grow;
    let rested = rested_table(entities, action);
    let told = if sleeps {
        game_after_sleep(game, rested, catalog)
    } else {
        game
    };
    let brought = if sleeps {
        gifts_after_sleep(game, rested, catalog, (last_id + 1) as usize, input)
    } else {
        seq![]
    };
    Worked {
        entities: Seq::new(
            rested.len(),
            |i: int| acted(rested[i], action, told.terminal_read, catalog),
        ),
        game: told,
        last_id: last_id + brought.len() + conversions(rested, action),
        queue: queue + brought + particle_removals(rested, store) + action_commands(
            rested,
            action,
            catalog,
            last_id + brought.len() + 1,
            dice,
        ),
    }
}

/// The outcome of a tick, for the choices that chance makes.
///
/// The held items are put in place and the nearest tool is marked; the
/// walkers step; the clock moves the sprites; the player is steered and
/// the command resolved. If the command is to sleep, the overlays play
/// again and the story may move on. Then the action is applied to the
/// items. What all this asks to spawn and to remove is done at the end, in
/// the order in which it was asked for: first what the command spawns,
/// then what the story brings, then the removal of spent particles, then
/// what the action removes and replaces.
pub open spec fn outcome(
    entities: Seq<Entity>,
    game: Game,
    last_id: int,
    store: &SpriteStore,
    catalog: Catalog,
    input: TickInput,
    chance: Chance,
) -> Outcome {
    let asked = player_spawns(entities, game, store, catalog, input, last_id + 1, chance.crop_flip);
    let end = worked(
        steered_table(entities, game, store, input, chance.targets),
        heeded_game(entities, game, store, input),
        last_id + asked.len(),
        asked,
        store,
        catalog,
        input,
        tick_action(entities, game, store, input),
        chance.grass,
    );
    Outcome { entities: apply_all(end.entities, end.queue), game: end.game, last_id: end.last_id }
}

/// The choices are ones that chance can make: every new target lies in the
/// field, and every frame of new grass is a frame of the grass.
pub open spec fn chance_fits(
    chance: Chance,
    entities: Seq<Entity>,
    game: Game,
    store: &SpriteStore,
    catalog: Catalog,
    input: TickInput,
) -> bool {
    &&& chance.targets.len() == entities.len()
    &&& chance.grass.len() == entities.len()
    &&& targets_fit(chance.targets, entities, game, store, input)
    &&& dice_fit(chance.grass, store, catalog)
}

/// Every target that is given to a walker lies in the field.
pub open spec fn targets_fit(
    targets: Seq<(i64, i64)>,
    entities: Seq<Entity>,
    game: Game,
    store: &SpriteStore,
    input: TickInput,
) -> bool {
    let grip = grip_of(game, input, scene_of(entities, store));
    forall|i: int|
        0 <= i < entities.len() && npc_retargets(
            held_step(#[trigger] entities[i], grip),
            game.holding,
            input.time,
        ) ==> in_field(targets[i], input.size)
}

/// The table has room for the ids that a tick may hand out: one for each
/// entity and three more.
pub open spec fn headroom(world: World) -> bool {
    world.indexer.0 + world.entities@.len() + 3 <= id_limit()
}

/// Where a walker is given a new target in this tick, the terminal has a
/// field to choose it in.
pub open spec fn walkers_have_room(
    entities: Seq<Entity>,
    game: Game,
    store: &SpriteStore,
    input: TickInput,
) -> bool {
    let grip = grip_of(game, input, scene_of(entities, store));
    forall|i: int|
        0 <= i < entities.len() && npc_retargets(
            held_step(#[trigger] entities[i], grip),
            game.holding,
            input.time,
        ) ==> roomy(input.size)
}

/// An entity as a night's action finds it, whatever target chance may
/// have given it on the way: after the tracking of held items, its step,
/// the clock, the steering if it `steers`, and the rewinding of overlays.
pub open spec fn settled(
    e: Entity,
    steers: bool,
    grip: Grip,
    game: Game,
    store: &SpriteStore,
    input: TickInput,
) -> Entity {
    let walked = npc_walk(held_step(e, grip), game.holding, input.time);
    let moved = animate_step(walked, store, game.show_transition, input.time);
    rewound(
        if steers {
            player_after(
                moved,
                input.command,
                frame_wait(walked.sprite->0, &store.0@[walked.sprite->0.store_index as int]),
                input.time,
                input.size,
            )
        } else {
            moved
        },
    )
}

/// In this tick a crop gives way to grass: the action is to sleep, and
/// some crop is full grown when the action finds it.
pub open spec fn grass_due(
    entities: Seq<Entity>,
    game: Game,
    store: &SpriteStore,
    input: TickInput,
) -> bool {
    let action = tick_action(entities, game, store, input);
    let grip = grip_of(game, input, scene_of(entities, store));
    action.action == SpriteActionCommand::Grow && exists|i: int|
        0 <= i < entities.len() && converts(
            settled(#[trigger] entities[i], first_player(entities) == Some(i), grip, game, store, input),
            action,
        )
}

/// The action sows into some empty crop.
pub open spec fn sown(entities: Seq<Entity>, action: SpriteAction, store: &SpriteStore) -> bool {
    exists|i: int|
        0 <= i < entities.len() && sows_into(#[trigger] entities[i], action, catalog_of(store))
}

/// The sheets that a tick refers to.
///
/// The player's action refers to the sheets of what it spawns. Sowing
/// refers to the empty crop, and to what the seed grows into if it falls
/// into an empty crop. A night in
/// the pod refers to the flower, at the stages that ask for one, once the
/// message is read and if there is a crop to look at; to what the stage
/// brings, if it brings something; and to the grass, if a crop gives way
/// to it.
pub open spec fn tick_needs(
    entities: Seq<Entity>,
    game: Game,
    store: &SpriteStore,
    input: TickInput,
) -> Stock {
    let action = tick_action(entities, game, store, input);
    let spawn = spawn_needs(game.holding, input.command, scene_of(entities, store));
    let acts = first_player(entities) is Some;
    let sleeps = action.action == SpriteActionCommand::Grow;
    let stage = game.terminal_message_index;
    Stock {
        particle_dirt: acts && spawn.particle_dirt,
        particle_water: acts && spawn.particle_water,
        particle_heart: acts && spawn.particle_heart,
        crop_empty: (acts && spawn.crop_empty) || action.action == SpriteActionCommand::Seed
            || action.action == SpriteActionCommand::Seed2,
        crop_leaf: action.action == SpriteActionCommand::Seed && sown(entities, action, store),
        crop_flower: (action.action == SpriteActionCommand::Seed2 && sown(entities, action, store))
            || (sleeps && game.terminal_read
            && (stage == 3 || stage == 4 || stage == 6) && has_crop(entities)),
        grass: grass_due(entities, game, store, input),
        tool_packet2: sleeps && game.terminal_read && stage == 2,
        character_01: sleeps && game.terminal_read && stage == 7,
    }
}

/// The catalog knows every sheet that the part of a tick after the
/// player's command refers to.
pub open spec fn worked_served(
    entities: Seq<Entity>,
    game: Game,
    store: &SpriteStore,
    catalog: Catalog,
    action: SpriteAction,
) -> bool {
    &&& seed_at_hand(rested_table(entities, action), action, store, catalog)
    &&& action.action == SpriteActionCommand::Grow ==> gift_known(
        game,
        rested_table(entities, action),
        catalog,
        store,
    )
    &&& grass_at_hand(rested_table(entities, action), action, store, catalog)
}

/// The world holds the outcome, with nothing left waiting.
pub open spec fn came_out(world: World, outcome: Outcome) -> bool {
    &&& world.entities@ == outcome.entities
    &&& world.game == outcome.game
    &&& world.indexer.0 == outcome.last_id
    &&& world.queue@.len() == 0
}

} // verus!
