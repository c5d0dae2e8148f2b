//! What a whole tick does to a single entity: the clock and the walk, as
//! they come out at the end of the tick.

use vstd::prelude::*;
use crate::held::CROP_DISTANCE;
use crate::world::spawned;
use crate::state::DEPTH_CROPS;
use crate::state::DEPTH_OVERLAY;
use crate::player::crop_item;
use crate::player::empty_crop_sprite;
use crate::player::particle_sprite;
use crate::player::Scene;
use crate::input::InputState;
use crate::player::held_after_pickup;
use crate::player::no_action;
use crate::player::spawns_of;
use crate::player::game_after_input;
use crate::narrative::stage_passed;
use crate::state::FINAL_STAGE;
use crate::world::ids_unique;
use crate::world::all_ok;
use crate::search::SEARCH_RANGE;
use crate::search::found_at;
use crate::search::nearest_among;
use crate::search::lemma_nearest;
use crate::player::probe_of;
use crate::player::action_of;
use crate::order::lemma_sheet_kept;
use crate::actions::conversions;
use crate::actions::grass_for;
use crate::held::lemma_held_step_keeps;
use crate::held::lemma_held_item_follows;
use crate::held::held_at;
use crate::animate::animate_step;
use crate::player::scene_of;
use crate::outcome::walk_with;
use crate::outcome::grip_of;
use crate::held::Grip;
use crate::actions::acted;
use crate::actions::action_commands;
use crate::actions::converts;
use crate::actions::particle_removals;
use crate::actions::spent;
use crate::actions::uprooted;
use crate::animate::animate_sprite;
use crate::animate::frame_wait;
use crate::catalog::Catalog;
use crate::held::held_step;
use crate::input::TickInput;
use crate::measure::due;
use crate::narrative::gifts_after_sleep;
use crate::npc::npc_walk;
use crate::npc::toward;
use crate::outcome::Chance;
use crate::outcome::heeded_game;
use crate::outcome::moved_table;
use crate::outcome::outcome;
use crate::outcome::player_spawns;
use crate::outcome::rested_table;
use crate::outcome::steered_table;
use crate::outcome::tick_action;
use crate::outcome::worked;
use crate::player::SpriteAction;
use crate::player::SpriteActionCommand;
use crate::search::first_player;
use crate::search::is_first_player;
use crate::sprite::SpriteStore;
use crate::state::Game;
use crate::state::ItemType;
use crate::state::SpriteType;
use crate::world::Command;
use crate::world::Entity;
use crate::world::apply_all;

verus! {

/// No change of the queue takes anything from row `i`.
pub open spec fn spares_row(queue: Seq<Command>, i: int) -> bool {
    forall|k: int|
        0 <= k < queue.len() ==> match #[trigger] queue[k] {
            Command::Spawn(_) => true,
            Command::RemoveSprite(row) => row != i,
            Command::RemoveItem(row) => row != i,
        }
}

proof fn lemma_flush_keeps_row(table: Seq<Entity>, queue: Seq<Command>, i: int)
    requires
        0 <= i < table.len(),
        spares_row(queue, i),
    ensures
        i < apply_all(table, queue).len(),
        apply_all(table, queue)[i] == table[i],
    decreases queue.len(),
{
    if queue.len() > 0 {
        let front = queue.drop_last();
        assert forall|k: int| 0 <= k < front.len() implies front[k] == queue[k] by {}
        assert(spares_row(front, i));
        lemma_flush_keeps_row(table, front, i);
        assert(queue[queue.len() - 1] == queue.last());
    }
}

proof fn lemma_spares_row_joins(a: Seq<Command>, b: Seq<Command>, i: int)
    requires
        spares_row(a, i),
        spares_row(b, i),
    ensures
        spares_row(a + b, i),
{
    let joined = a + b;
    assert forall|k: int| 0 <= k < joined.len() implies match #[trigger] joined[k] {
        Command::Spawn(_) => true,
        Command::RemoveSprite(row) => row != i,
        Command::RemoveItem(row) => row != i,
    } by {
        if k < a.len() {
            assert(joined[k] == a[k]);
        } else {
            assert(joined[k] == b[k - a.len()]);
        }
    }
}

proof fn lemma_sweep_spares_row(entities: Seq<Entity>, store: &SpriteStore, i: int)
    requires
        entities.len() <= usize::MAX,
        0 <= i,
        i < entities.len() ==> !spent(entities[i], store),
    ensures
        spares_row(particle_removals(entities, store), i),
    decreases entities.len(),
{
    if entities.len() > 0 {
        let front = entities.drop_last();
        if i < front.len() {
            assert(front[i] == entities[i]);
        }
        lemma_sweep_spares_row(front, store, i);
        let before = particle_removals(front, store);
        let all = particle_removals(entities, store);
        assert forall|k: int| 0 <= k < all.len() implies match #[trigger] all[k] {
            Command::Spawn(_) => true,
            Command::RemoveSprite(row) => row != i,
            Command::RemoveItem(row) => row != i,
        } by {
            if k < before.len() {
                assert(all[k] == before[k]);
            } else {
                assert(entities[entities.len() - 1] == entities.last());
            }
        }
    }
}

proof fn lemma_replaced_spares_row(
    entities: Seq<Entity>,
    action: SpriteAction,
    catalog: Catalog,
    first: int,
    dice: Seq<(bool, usize)>,
    i: int,
)
    requires
        entities.len() <= usize::MAX,
        dice.len() == entities.len(),
        0 <= i,
        i < entities.len() ==> !converts(entities[i], action) && !uprooted(entities[i], action),
    ensures
        spares_row(action_commands(entities, action, catalog, first, dice), i),
    decreases entities.len(),
{
    if entities.len() > 0 {
        let front = entities.drop_last();
        if i < front.len() {
            assert(front[i] == entities[i]);
        }
        lemma_replaced_spares_row(front, action, catalog, first, dice.drop_last(), i);
        let before = action_commands(front, action, catalog, first, dice.drop_last());
        let all = action_commands(entities, action, catalog, first, dice);
        let e = entities.last();
        assert(entities[entities.len() - 1] == e);
        assert forall|k: int| 0 <= k < all.len() implies match #[trigger] all[k] {
            Command::Spawn(_) => true,
            Command::RemoveSprite(row) => row != i,
            Command::RemoveItem(row) => row != i,
        } by {
            if k < before.len() {
                assert(all[k] == before[k]);
            } else if k == before.len() {
                assert(all[k] is RemoveItem);
            } else {
                assert(converts(e, action));
                assert(all[k] is Spawn);
            }
        }
    }
}

/// The entity of row `i` as the end of the tick leaves it, where the tick
/// removes nothing from that row: as the action left it.
pub open spec fn worked_row(
    entities: Seq<Entity>,
    game: Game,
    store: &SpriteStore,
    catalog: Catalog,
    input: TickInput,
    chance: Chance,
    i: int,
) -> Entity {
    let action = tick_action(entities, game, store, input);
    let rested = rested_table(steered_table(entities, game, store, input, chance.targets), action);
    let read = worked(
        steered_table(entities, game, store, input, chance.targets),
        heeded_game(entities, game, store, input),
        0,
        seq![],
        store,
        catalog,
        input,
        action,
        chance.grass,
    ).game.terminal_read;
    acted(rested[i], action, read, catalog)
}

/// A row from which the tick removes nothing holds at the end of the tick
/// the entity that the action left in it.
pub proof fn lemma_row_kept(
    entities: Seq<Entity>,
    game: Game,
    last_id: int,
    store: &SpriteStore,
    catalog: Catalog,
    input: TickInput,
    chance: Chance,
    i: int,
)
    requires
        0 <= i < entities.len() <= usize::MAX,
        chance.grass.len() == entities.len(),
        ({
            let action = tick_action(entities, game, store, input);
            let rested = rested_table(
                steered_table(entities, game, store, input, chance.targets),
                action,
            );
            !spent(rested[i], store) && !converts(rested[i], action) && !uprooted(rested[i], action)
        }),
    ensures
        i < outcome(entities, game, last_id, store, catalog, input, chance).entities.len(),
        outcome(entities, game, last_id, store, catalog, input, chance).entities[i] == worked_row(
            entities,
            game,
            store,
            catalog,
            input,
            chance,
            i,
        ),
{
    reveal(worked);
    let action = tick_action(entities, game, store, input);
    let steered = steered_table(entities, game, store, input, chance.targets);
    let heeded = heeded_game(entities, game, store, input);
    let rested = rested_table(steered, action);
    let asked = player_spawns(entities, game, store, catalog, input, last_id + 1, chance.crop_flip);
    let end = worked(
        steered,
        heeded,
        last_id + asked.len(),
        asked,
        store,
        catalog,
        input,
        action,
        chance.grass,
    );
    let sleeps = action.action == SpriteActionCommand::Grow;
    let brought = if sleeps {
        gifts_after_sleep(heeded, rested, catalog, (last_id + asked.len() + 1) as usize, input)
    } else {
        seq![]
    };
    let swept = particle_removals(rested, store);
    let replaced = action_commands(
        rested,
        action,
        catalog,
        last_id + asked.len() + brought.len() + 1,
        chance.grass,
    );
    assert(spares_row(asked, i));
    assert(spares_row(brought, i));
    lemma_sweep_spares_row(rested, store, i);
    lemma_replaced_spares_row(
        rested,
        action,
        catalog,
        last_id + asked.len() + brought.len() + 1,
        chance.grass,
        i,
    );
    lemma_spares_row_joins(asked, brought, i);
    lemma_spares_row_joins(asked + brought, swept, i);
    lemma_spares_row_joins(asked + brought + swept, replaced, i);
    lemma_flush_keeps_row(end.entities, end.queue, i);
}

/// The clock, seen over a whole tick. A sprite that is drawn, that is no
/// item, no walker, no overlay and no player, and that is animated, shows
/// after the tick the next frame of its sheet, the first after the last,
/// and bears the time of the tick, if its frame had been shown for longer
/// than its duration. If not, or if it is not animated, frame and time are
/// as they were. Nothing else of the entity changes. A particle that ends
/// its animation in this tick is left out: the tick takes its sprite away.
pub proof fn lemma_tick_moves_frames(
    entities: Seq<Entity>,
    game: Game,
    last_id: int,
    store: &SpriteStore,
    catalog: Catalog,
    input: TickInput,
    chance: Chance,
    i: int,
)
    requires
        0 <= i < entities.len() <= usize::MAX,
        chance.grass.len() == entities.len(),
        entities[i].visible(),
        entities[i].interactible is None,
        entities[i].npc is None,
        entities[i].sprite->0.sprite_type != SpriteType::Overlay,
        entities[i].sprite->0.sprite_type != SpriteType::Player,
        !spent(
            animate_step(entities[i], store, game.show_transition, input.time),
            store,
        ),
    ensures
        ({
            let before = entities[i];
            let sprite = before.sprite->0;
            let info = &store.0@[sprite.store_index as int];
            let after = outcome(entities, game, last_id, store, catalog, input, chance).entities[i];
            &&& i < outcome(entities, game, last_id, store, catalog, input, chance).entities.len()
            &&& after.sprite is Some
            &&& after.position == before.position
            &&& after.interactible is None
            &&& after.npc is None
            &&& if sprite.animating && due(sprite.last_animate, frame_wait(sprite, info), input.time) {
                after.sprite->0 == (crate::state::Sprite {
                    frame: ((sprite.frame + 1) % (info.frame_count() as int)) as usize,
                    last_animate: input.time,
                    ..sprite
                })
            } else {
                after.sprite->0 == sprite
            }
        }),
{
    reveal(held_step);
    reveal(npc_walk);
    reveal(animate_sprite);
    reveal(acted);
    let action = tick_action(entities, game, store, input);
    let moved = moved_table(entities, game, store, input, chance.targets);
    let steered = steered_table(entities, game, store, input, chance.targets);
    let rested = rested_table(steered, action);
    if first_player(entities) is Some {
        assert(is_first_player(entities, first_player(entities)->0));
    }
    assert(steered[i] == moved[i]);
    assert(rested[i] == steered[i]);
    lemma_row_kept(entities, game, last_id, store, catalog, input, chance, i);
}

/// `after` stands where `before` stands and walks as it does.
pub open spec fn same_walk(before: Entity, after: Entity) -> bool {
    &&& after.position == before.position
    &&& after.npc == before.npc
    &&& after.interactible == before.interactible
    &&& (after.sprite is Some) == (before.sprite is Some)
    &&& before.sprite is Some ==> after.sprite->0.sprite_type == before.sprite->0.sprite_type
        && after.sprite->0.id == before.sprite->0.id
}

/// `after` is the walker `before` after the step of a tick at `time`: one
/// cell nearer to its target on each axis, if it acts, and with the time
/// noted if it moved; with its old target unless it stood at the target
/// with its pause over.
pub open spec fn stepped(before: Entity, after: Entity, time: u64) -> bool {
    let npc = before.npc->0;
    let was = before.position->0;
    let target = npc.move_target;
    let acts = due(npc.last_move, npc.move_wait, time);
    &&& after.position is Some
    &&& after.npc is Some
    &&& after.position->0.z == was.z
    &&& acts ==> after.position->0.x == toward(was.x, target.0) && after.position->0.y == toward(
        was.y,
        target.1,
    )
    &&& !acts ==> after.position->0 == was
    &&& after.npc->0.last_move == if acts && (was.x != target.0 || was.y != target.1) {
        time
    } else {
        npc.last_move
    }
    &&& after.npc->0.move_wait == npc.move_wait
    &&& after.npc->0.move_stop == npc.move_stop
    &&& !due(npc.last_move, npc.move_stop, time) || !acts || was.x != target.0 || was.y != target.1
        ==> after.npc->0.move_target == target
}

/// `after` rests on its first frame if `before` acts at its target.
pub open spec fn rests(before: Entity, after: Entity, time: u64) -> bool {
    let npc = before.npc->0;
    let was = before.position->0;
    due(npc.last_move, npc.move_wait, time) && was.x == npc.move_target.0 && was.y
        == npc.move_target.1 ==> after.sprite is Some && after.sprite->0.frame == 0
        && !after.sprite->0.animating
}

/// The action names the entity: it is the item whose id the command is
/// meant for.
pub open spec fn named(e: Entity, action: SpriteAction) -> bool {
    &&& e.item()
    &&& action.id == e.sprite->0.id
    &&& action.action == SpriteActionCommand::Delete || action.action == SpriteActionCommand::Water
        || action.action == SpriteActionCommand::Seed || action.action
        == SpriteActionCommand::Seed2
}

/// The end of the tick takes the entity of row `i` from the table: it is a
/// particle that has played to its end, a crop that is full grown in a
/// night in which crops grow, or what the shovel digs up.
pub open spec fn leaves(
    entities: Seq<Entity>,
    game: Game,
    store: &SpriteStore,
    input: TickInput,
    targets: Seq<(i64, i64)>,
    i: int,
) -> bool {
    let action = tick_action(entities, game, store, input);
    let found = rested_table(steered_table(entities, game, store, input, targets), action)[i];
    spent(found, store) || converts(found, action) || uprooted(found, action)
}

/// Both entities face the same way and bear the same mark.
pub open spec fn same_face(before: Entity, after: Entity) -> bool {
    before.sprite is Some ==> after.sprite is Some && after.sprite->0.flip == before.sprite->0.flip
        && after.sprite->0.highlight == before.sprite->0.highlight
}

/// What is no particle, no crop and not named by the action stays in the
/// table.
pub proof fn lemma_stays(
    entities: Seq<Entity>,
    game: Game,
    store: &SpriteStore,
    input: TickInput,
    targets: Seq<(i64, i64)>,
    i: int,
)
    requires
        0 <= i < entities.len(),
        entities[i].sprite is Some ==> entities[i].sprite->0.sprite_type != SpriteType::Particle,
        entities[i].interactible is Some ==> entities[i].interactible->0.item_type != ItemType::Crop,
        !named(entities[i], tick_action(entities, game, store, input)),
    ensures
        !leaves(entities, game, store, input, targets, i),
{
    lemma_sheet_kept(entities, game, store, input, targets, i);
}

/// The action names a crop and nothing else: in a table in order, the item
/// that the action names has a sprite of the kind of a crop.
pub proof fn lemma_named_is_crop(
    entities: Seq<Entity>,
    game: Game,
    store: &SpriteStore,
    input: TickInput,
    i: int,
)
    requires
        all_ok(entities, store),
        ids_unique(entities),
        0 <= i < entities.len(),
        named(entities[i], tick_action(entities, game, store, input)),
    ensures
        entities[i].sprite->0.sprite_type == SpriteType::Crop,
{
    reveal(action_of);
    let scene = scene_of(entities, store);
    let probe = probe_of(scene.player_pos, scene.player_flip);
    lemma_nearest(entities, probe, SpriteType::Crop, store);
    let found = nearest_among(entities, probe, SpriteType::Crop, store);
    assert(found == scene.crop);
    assert(found.dist < SEARCH_RANGE);
    let k = choose|k: int| found_at(found, entities, probe, SpriteType::Crop, store, k);
    assert(entities[k].ok(store));
    assert(entities[i].id() == entities[k].id());
}

proof fn lemma_held_same_walk(e: Entity, grip: Grip)
    requires
        e.interactible is Some ==> e.interactible->0.item_type != grip.holding,
    ensures
        same_walk(e, held_step(e, grip)),
        e.interactible is None ==> held_step(e, grip) == e,
        e.sprite is Some ==> held_step(e, grip).sprite->0.frame == e.sprite->0.frame && held_step(
            e,
            grip,
        ).sprite->0.animating == e.sprite->0.animating,
{
    reveal(held_step);
}

proof fn lemma_held_face(e: Entity, grip: Grip)
    requires
        e.item(),
        e.interactible->0.item_type == grip.holding,
    ensures
        held_step(e, grip).sprite is Some,
        held_step(e, grip).sprite->0.flip == grip.player_flip,
        !held_step(e, grip).sprite->0.highlight,
{
    reveal(held_step);
}

proof fn lemma_walk_stepped(e: Entity, holding: ItemType, time: u64, target: (i64, i64))
    requires
        e.walker(),
        holding != ItemType::Npc,
    ensures
        stepped(e, walk_with(e, holding, time, target), time),
        rests(e, walk_with(e, holding, time, target), time),
        walk_with(e, holding, time, target).interactible == e.interactible,
        walk_with(e, holding, time, target).sprite is Some,
        walk_with(e, holding, time, target).sprite->0.sprite_type == e.sprite->0.sprite_type,
        walk_with(e, holding, time, target).sprite->0.id == e.sprite->0.id,
{
    reveal(npc_walk);
}

proof fn lemma_clock_same_walk(e: Entity, store: &SpriteStore, show_transition: bool, time: u64)
    ensures
        same_walk(e, animate_step(e, store, show_transition, time)),
        same_face(e, animate_step(e, store, show_transition, time)),
        e.sprite is Some && !e.sprite->0.animating && e.sprite->0.sprite_type != SpriteType::Overlay
            ==> animate_step(e, store, show_transition, time) == e,
{
    reveal(animate_sprite);
}

proof fn lemma_acted_same_walk(e: Entity, action: SpriteAction, read: bool, catalog: Catalog)
    ensures
        same_walk(e, acted(e, action, read, catalog)),
        same_face(e, acted(e, action, read, catalog)),
        e.interactible is None ==> acted(e, action, read, catalog) == e,
        e.item() && e.interactible->0.item_type != ItemType::Terminal && !named(e, action)
            && e.sprite->0.frame == 0 ==> acted(e, action, read, catalog) == e,
{
    reveal(acted);
}

/// The walk, seen over a whole tick. A walker that is not held, that is no
/// player, and that the tick does not take from the table, comes one cell
/// nearer to its target on each axis on which it is away from it, in a
/// tick in which it acts, and notes the time; it never overshoots, and on
/// an axis on which it is at its target it stays. In a tick in which it
/// does not act it keeps its place. It keeps its target until its pause at
/// the target is over. When it acts at its target it rests on its first
/// frame, unless it is an overlay, the terminal, or the item that the
/// action names.
pub proof fn lemma_tick_walks(
    entities: Seq<Entity>,
    game: Game,
    last_id: int,
    store: &SpriteStore,
    catalog: Catalog,
    input: TickInput,
    chance: Chance,
    i: int,
)
    requires
        0 <= i < entities.len() <= usize::MAX,
        chance.grass.len() == entities.len(),
        chance.targets.len() == entities.len(),
        entities[i].walker(),
        game.holding != ItemType::Npc,
        entities[i].sprite->0.sprite_type != SpriteType::Player,
        entities[i].interactible is Some ==> entities[i].interactible->0.item_type != game.holding,
        !leaves(entities, game, store, input, chance.targets, i),
    ensures
        ({
            let before = entities[i];
            let action = tick_action(entities, game, store, input);
            let after = outcome(entities, game, last_id, store, catalog, input, chance).entities[i];
            &&& i < outcome(entities, game, last_id, store, catalog, input, chance).entities.len()
            &&& stepped(before, after, input.time)
            &&& before.sprite->0.sprite_type != SpriteType::Overlay && (before.interactible is Some
                ==> before.interactible->0.item_type != ItemType::Terminal && !named(before, action))
                ==> rests(before, after, input.time)
        }),
{
    let action = tick_action(entities, game, store, input);
    let grip = grip_of(game, input, scene_of(entities, store));
    let before = entities[i];
    let e1 = held_step(before, grip);
    let e2 = walk_with(e1, game.holding, input.time, chance.targets[i]);
    let e3 = animate_step(e2, store, game.show_transition, input.time);
    let moved = moved_table(entities, game, store, input, chance.targets);
    let steered = steered_table(entities, game, store, input, chance.targets);
    let rested = rested_table(steered, action);
    lemma_held_same_walk(before, grip);
    lemma_walk_stepped(e1, game.holding, input.time, chance.targets[i]);
    lemma_clock_same_walk(e2, store, game.show_transition, input.time);
    assert(moved[i] == e3);
    if first_player(entities) is Some {
        assert(is_first_player(entities, first_player(entities)->0));
    }
    assert(steered[i] == e3);
    assert(same_walk(e3, rested[i]));
    lemma_row_kept(entities, game, last_id, store, catalog, input, chance, i);
    let read = worked(
        steered,
        heeded_game(entities, game, store, input),
        0,
        seq![],
        store,
        catalog,
        input,
        action,
        chance.grass,
    ).game.terminal_read;
    lemma_acted_same_walk(rested[i], action, read, catalog);
}

proof fn lemma_stands_same_walk(e: Entity, holding: ItemType, time: u64, target: (i64, i64))
    requires
        e.npc is None,
    ensures
        walk_with(e, holding, time, target) == e,
{
    reveal(npc_walk);
}

/// The carrying, seen over a whole tick. An item that does not walk, that
/// is no player, and that the tick does not take from the table, is after
/// the tick where the player stood when the tick began, moved by the
/// offset of its type and kept right of column 0 and under the ceiling, if
/// its type is the type that is held; it then faces as the player did and
/// bears no mark. If its type is not held, it is where it was: what is
/// released keeps its place.
pub proof fn lemma_tick_carries(
    entities: Seq<Entity>,
    game: Game,
    last_id: int,
    store: &SpriteStore,
    catalog: Catalog,
    input: TickInput,
    chance: Chance,
    i: int,
)
    requires
        0 <= i < entities.len() <= usize::MAX,
        chance.grass.len() == entities.len(),
        chance.targets.len() == entities.len(),
        entities[i].item(),
        entities[i].npc is None,
        entities[i].sprite->0.sprite_type != SpriteType::Player,
        !leaves(entities, game, store, input, chance.targets, i),
    ensures
        ({
            let before = entities[i];
            let grip = grip_of(game, input, scene_of(entities, store));
            let after = outcome(entities, game, last_id, store, catalog, input, chance).entities[i];
            &&& i < outcome(entities, game, last_id, store, catalog, input, chance).entities.len()
            &&& after.interactible == before.interactible
            &&& after.sprite is Some
            &&& if before.interactible->0.item_type == game.holding {
                &&& after.position == Some(held_at(grip, game.holding, before.position->0.z))
                &&& after.sprite->0.flip == grip.player_flip
                &&& !after.sprite->0.highlight
            } else {
                after.position == before.position
            }
        }),
{
    let action = tick_action(entities, game, store, input);
    let grip = grip_of(game, input, scene_of(entities, store));
    let before = entities[i];
    let e1 = held_step(before, grip);
    let e2 = walk_with(e1, game.holding, input.time, chance.targets[i]);
    let e3 = animate_step(e2, store, game.show_transition, input.time);
    let moved = moved_table(entities, game, store, input, chance.targets);
    let steered = steered_table(entities, game, store, input, chance.targets);
    let rested = rested_table(steered, action);
    lemma_held_item_follows(before, grip);
    lemma_held_step_keeps(before, grip, store);
    if before.interactible->0.item_type == game.holding {
        lemma_held_face(before, grip);
    }
    lemma_stands_same_walk(e1, game.holding, input.time, chance.targets[i]);
    lemma_clock_same_walk(e2, store, game.show_transition, input.time);
    assert(moved[i] == e3);
    if first_player(entities) is Some {
        assert(is_first_player(entities, first_player(entities)->0));
    }
    assert(steered[i] == e3);
    assert(same_walk(e3, rested[i]));
    assert(same_face(e3, rested[i]));
    lemma_row_kept(entities, game, last_id, store, catalog, input, chance, i);
    let read = worked(
        steered,
        heeded_game(entities, game, store, input),
        0,
        seq![],
        store,
        catalog,
        input,
        action,
        chance.grass,
    ).game.terminal_read;
    lemma_acted_same_walk(rested[i], action, read, catalog);
}

/// Every row that the queue removes from lies below `rows`.
pub open spec fn rows_below(queue: Seq<Command>, rows: int) -> bool {
    forall|k: int|
        0 <= k < queue.len() ==> match #[trigger] queue[k] {
            Command::Spawn(_) => true,
            Command::RemoveSprite(row) => row < rows,
            Command::RemoveItem(row) => row < rows,
        }
}

proof fn lemma_rows_below_joins(a: Seq<Command>, b: Seq<Command>, rows: int)
    requires
        rows_below(a, rows),
        rows_below(b, rows),
    ensures
        rows_below(a + b, rows),
{
    let joined = a + b;
    assert forall|k: int| 0 <= k < joined.len() implies match #[trigger] joined[k] {
        Command::Spawn(_) => true,
        Command::RemoveSprite(row) => row < rows,
        Command::RemoveItem(row) => row < rows,
    } by {
        if k < a.len() {
            assert(joined[k] == a[k]);
        } else {
            assert(joined[k] == b[k - a.len()]);
        }
    }
}

proof fn lemma_sweep_rows_below(entities: Seq<Entity>, store: &SpriteStore)
    requires
        entities.len() <= usize::MAX,
    ensures
        rows_below(particle_removals(entities, store), entities.len() as int),
    decreases entities.len(),
{
    if entities.len() > 0 {
        let front = entities.drop_last();
        lemma_sweep_rows_below(front, store);
        let before = particle_removals(front, store);
        let all = particle_removals(entities, store);
        assert forall|k: int| 0 <= k < all.len() implies match #[trigger] all[k] {
            Command::Spawn(_) => true,
            Command::RemoveSprite(row) => row < entities.len(),
            Command::RemoveItem(row) => row < entities.len(),
        } by {
            if k < before.len() {
                assert(all[k] == before[k]);
            }
        }
    }
}

/// Where a crop gives way to grass, the queue holds its removal and, right
/// after it, the grass.
proof fn lemma_replaced_holds(
    entities: Seq<Entity>,
    action: SpriteAction,
    catalog: Catalog,
    first: int,
    dice: Seq<(bool, usize)>,
    i: int,
)
    requires
        entities.len() <= usize::MAX,
        dice.len() == entities.len(),
    ensures
        rows_below(action_commands(entities, action, catalog, first, dice), entities.len() as int),
        0 <= i < entities.len() && converts(entities[i], action) ==> exists|k: int, id: usize|
            0 <= k && k + 1 < action_commands(entities, action, catalog, first, dice).len()
                && #[trigger] replaces_at(
                action_commands(entities, action, catalog, first, dice),
                k,
                i,
                grass_for(entities[i], catalog, id, dice[i].0, dice[i].1),
            ),
    decreases entities.len(),
{
    if entities.len() > 0 {
        let front = entities.drop_last();
        let front_dice = dice.drop_last();
        lemma_replaced_holds(front, action, catalog, first, front_dice, i);
        let before = action_commands(front, action, catalog, first, front_dice);
        let all = action_commands(entities, action, catalog, first, dice);
        let e = entities.last();
        assert(entities[entities.len() - 1] == e);
        assert forall|k: int| 0 <= k < all.len() implies match #[trigger] all[k] {
            Command::Spawn(_) => true,
            Command::RemoveSprite(row) => row < entities.len(),
            Command::RemoveItem(row) => row < entities.len(),
        } by {
            if k < before.len() {
                assert(all[k] == before[k]);
            } else if k == before.len() {
                assert(all[k] is RemoveItem);
            } else {
                assert(all[k] is Spawn);
            }
        }
        if 0 <= i < entities.len() && converts(entities[i], action) {
            if i < front.len() {
                assert(front[i] == entities[i]);
                assert(front_dice[i] == dice[i]);
                let (k, id) = choose|k: int, id: usize|
                    0 <= k && k + 1 < before.len() && #[trigger] replaces_at(
                        before,
                        k,
                        i,
                        grass_for(front[i], catalog, id, front_dice[i].0, front_dice[i].1),
                    );
                assert(all[k] == before[k]);
                assert(all[k + 1] == before[k + 1]);
                assert(replaces_at(
                    all,
                    k,
                    i,
                    grass_for(entities[i], catalog, id, dice[i].0, dice[i].1),
                ));
            } else {
                let id = (first + conversions(front, action)) as usize;
                assert(dice.last() == dice[i]);
                assert(replaces_at(
                    all,
                    before.len() as int,
                    i,
                    grass_for(entities[i], catalog, id, dice[i].0, dice[i].1),
                ));
            }
        }
    }
}

/// At `k` the queue removes the item of row `i`, and right after it spawns
/// `grass`.
pub open spec fn replaces_at(queue: Seq<Command>, k: int, i: int, grass: Entity) -> bool {
    queue[k] == Command::RemoveItem(i as usize) && queue[k + 1] == Command::Spawn(grass)
}

proof fn lemma_flush_grows(table: Seq<Entity>, queue: Seq<Command>)
    ensures
        apply_all(table, queue).len() >= table.len(),
    decreases queue.len(),
{
    if queue.len() > 0 {
        lemma_flush_grows(table, queue.drop_last());
    }
}

proof fn lemma_flush_removes(table: Seq<Entity>, queue: Seq<Command>, i: int, k: int)
    requires
        0 <= i < table.len(),
        i <= usize::MAX,
        0 <= k < queue.len(),
        queue[k] == Command::RemoveItem(i as usize),
    ensures
        i < apply_all(table, queue).len(),
        apply_all(table, queue)[i].sprite is None,
        apply_all(table, queue)[i].position is None,
        apply_all(table, queue)[i].interactible is None,
    decreases queue.len(),
{
    let front = queue.drop_last();
    lemma_flush_grows(table, front);
    assert(queue[queue.len() - 1] == queue.last());
    if k < front.len() {
        assert(front[k] == queue[k]);
        lemma_flush_removes(table, front, i, k);
    }
}

proof fn lemma_flush_spawns(table: Seq<Entity>, queue: Seq<Command>, k: int, e: Entity)
    requires
        0 <= k < queue.len(),
        queue[k] == Command::Spawn(e),
        rows_below(queue, table.len() as int),
    ensures
        exists|j: int|
            table.len() <= j < apply_all(table, queue).len() && #[trigger] apply_all(table, queue)[j]
                == e,
    decreases queue.len(),
{
    let front = queue.drop_last();
    let mid = apply_all(table, front);
    let end = apply_all(table, queue);
    lemma_flush_grows(table, front);
    assert(queue[queue.len() - 1] == queue.last());
    if k < front.len() {
        assert(front[k] == queue[k]);
        assert forall|m: int| 0 <= m < front.len() implies front[m] == queue[m] by {}
        assert(rows_below(front, table.len() as int));
        lemma_flush_spawns(table, front, k, e);
        let j = choose|j: int| table.len() <= j < mid.len() && #[trigger] mid[j] == e;
        assert(end[j] == e);
    } else {
        assert(end[mid.len() as int] == e);
    }
}

/// The end of a watered crop, seen over a whole tick. A crop that is full
/// grown when a night's action finds it loses sprite, position and item at
/// the end of the tick, and among the entities that the tick adds there is
/// grass where it stood: on the sheet of the grass, animated, facing and
/// on a frame that chance chose.
pub proof fn lemma_tick_turns_crop_to_grass(
    entities: Seq<Entity>,
    game: Game,
    last_id: int,
    store: &SpriteStore,
    catalog: Catalog,
    input: TickInput,
    chance: Chance,
    i: int,
)
    requires
        0 <= i < entities.len() <= usize::MAX,
        chance.grass.len() == entities.len(),
        converts(
            rested_table(
                steered_table(entities, game, store, input, chance.targets),
                tick_action(entities, game, store, input),
            )[i],
            tick_action(entities, game, store, input),
        ),
    ensures
        ({
            let crop = rested_table(
                steered_table(entities, game, store, input, chance.targets),
                tick_action(entities, game, store, input),
            )[i];
            let end = outcome(entities, game, last_id, store, catalog, input, chance).entities;
            &&& i < end.len()
            &&& end[i].sprite is None
            &&& end[i].position is None
            &&& end[i].interactible is None
            &&& exists|j: int, id: usize|
                entities.len() <= j < end.len() && #[trigger] is_grass_for(
                    end[j],
                    crop,
                    catalog,
                    id,
                    chance.grass[i],
                )
        }),
{
    reveal(worked);
    let action = tick_action(entities, game, store, input);
    let steered = steered_table(entities, game, store, input, chance.targets);
    let heeded = heeded_game(entities, game, store, input);
    let rested = rested_table(steered, action);
    let asked = player_spawns(entities, game, store, catalog, input, last_id + 1, chance.crop_flip);
    let end = worked(
        steered,
        heeded,
        last_id + asked.len(),
        asked,
        store,
        catalog,
        input,
        action,
        chance.grass,
    );
    let brought = gifts_after_sleep(
        heeded,
        rested,
        catalog,
        (last_id + asked.len() + 1) as usize,
        input,
    );
    let swept = particle_removals(rested, store);
    let first = last_id + asked.len() + brought.len() + 1;
    let replaced = action_commands(rested, action, catalog, first, chance.grass);
    let rows = entities.len() as int;
    lemma_replaced_holds(rested, action, catalog, first, chance.grass, i);
    lemma_sweep_rows_below(rested, store);
    assert(rows_below(asked, rows));
    assert(rows_below(brought, rows));
    lemma_rows_below_joins(asked, brought, rows);
    lemma_rows_below_joins(asked + brought, swept, rows);
    lemma_rows_below_joins(asked + brought + swept, replaced, rows);
    let (k, id) = choose|k: int, id: usize|
        0 <= k && k + 1 < replaced.len() && #[trigger] replaces_at(
            replaced,
            k,
            i,
            grass_for(rested[i], catalog, id, chance.grass[i].0, chance.grass[i].1),
        );
    let grass = grass_for(rested[i], catalog, id, chance.grass[i].0, chance.grass[i].1);
    let front = asked + brought + swept;
    assert(end.queue == front + replaced);
    assert(end.queue[front.len() + k] == replaced[k]);
    assert(end.queue[front.len() + k + 1] == replaced[k + 1]);
    lemma_flush_removes(end.entities, end.queue, i, front.len() + k);
    lemma_flush_spawns(end.entities, end.queue, front.len() + k + 1, grass);
    let last = apply_all(end.entities, end.queue);
    let j = choose|j: int| end.entities.len() <= j < last.len() && #[trigger] last[j] == grass;
    assert(is_grass_for(last[j], rested[i], catalog, id, chance.grass[i]));
}

/// `e` is the grass that takes the place of `crop`: where the crop stood,
/// with the id `id`, on the sheet of the grass, animated, with the facing
/// and the frame that chance chose.
pub open spec fn is_grass_for(
    e: Entity,
    crop: Entity,
    catalog: Catalog,
    id: usize,
    dice: (bool, usize),
) -> bool {
    &&& e == grass_for(crop, catalog, id, dice.0, dice.1)
    &&& e.position->0.x == crop.position->0.x
    &&& e.position->0.y == crop.position->0.y
    &&& e.sprite->0.store_index == catalog.grass
    &&& e.sprite->0.frame == dice.1
    &&& e.sprite->0.flip == dice.0
    &&& e.sprite->0.animating
    &&& e.sprite->0.sprite_type == SpriteType::Crop
    &&& e.interactible->0.item_type == ItemType::Grass
}

/// The story, seen over a whole tick. The stage stays or goes on by one
/// and never beyond the last; it goes on only in a tick whose action is to
/// sleep, and then exactly when what the present stage asks for has been
/// done; and the message of a new stage is unread. The messages themselves
/// do not change.
pub proof fn lemma_tick_tells(
    entities: Seq<Entity>,
    game: Game,
    last_id: int,
    store: &SpriteStore,
    catalog: Catalog,
    input: TickInput,
    chance: Chance,
)
    requires
        game.terminal_message_index <= FINAL_STAGE,
    ensures
        ({
            let action = tick_action(entities, game, store, input);
            let found = rested_table(
                steered_table(entities, game, store, input, chance.targets),
                action,
            );
            let end = outcome(entities, game, last_id, store, catalog, input, chance).game;
            let sleeps = action.action == SpriteActionCommand::Grow;
            &&& game.terminal_message_index <= end.terminal_message_index
                <= game.terminal_message_index + 1
            &&& end.terminal_message_index <= FINAL_STAGE
            &&& end.terminal_messages == game.terminal_messages
            &&& end.terminal_message_index == game.terminal_message_index + 1 <==> sleeps
                && stage_passed(game.terminal_message_index, game.terminal_read, found, catalog)
            &&& end.terminal_message_index == game.terminal_message_index + 1
                ==> !end.terminal_read
            &&& sleeps && end.terminal_message_index == game.terminal_message_index
                ==> end.terminal_read == game.terminal_read
            &&& sleeps ==> first_player(entities) is Some && input.command == InputState::Action
                && game.holding == ItemType::Nothing && scene_of(entities, store).tool.item_type
                == ItemType::Pod
        }),
{
    reveal(worked);
    reveal(game_after_input);
    reveal(action_of);
}

/// A queue that spawns nothing leaves the table as long as it was.
proof fn lemma_flush_without_spawns(table: Seq<Entity>, queue: Seq<Command>)
    requires
        forall|k: int| 0 <= k < queue.len() ==> !(#[trigger] queue[k] is Spawn),
    ensures
        apply_all(table, queue).len() == table.len(),
    decreases queue.len(),
{
    if queue.len() > 0 {
        let front = queue.drop_last();
        assert forall|k: int| 0 <= k < front.len() implies !(#[trigger] front[k] is Spawn) by {
            assert(front[k] == queue[k]);
        }
        lemma_flush_without_spawns(table, front);
        assert(queue[queue.len() - 1] == queue.last());
    }
}

proof fn lemma_sweep_spawns_nothing(entities: Seq<Entity>, store: &SpriteStore)
    ensures
        forall|k: int|
            0 <= k < particle_removals(entities, store).len() ==> !(#[trigger] particle_removals(
                entities,
                store,
            )[k] is Spawn),
    decreases entities.len(),
{
    if entities.len() > 0 {
        lemma_sweep_spawns_nothing(entities.drop_last(), store);
        let before = particle_removals(entities.drop_last(), store);
        let all = particle_removals(entities, store);
        assert forall|k: int| 0 <= k < all.len() implies !(#[trigger] all[k] is Spawn) by {
            if k < before.len() {
                assert(all[k] == before[k]);
            }
        }
    }
}

proof fn lemma_idle_replaces_nothing(
    entities: Seq<Entity>,
    catalog: Catalog,
    first: int,
    dice: Seq<(bool, usize)>,
)
    requires
        dice.len() == entities.len(),
    ensures
        action_commands(entities, no_action(), catalog, first, dice).len() == 0,
    decreases entities.len(),
{
    if entities.len() > 0 {
        lemma_idle_replaces_nothing(entities.drop_last(), catalog, first, dice.drop_last());
    }
}

/// A tick whose command is not the action adds nothing to the table, and
/// changes what is held only on the pickup command: with empty hands the
/// nearest tool is taken, if one is within reach, and what is held is put
/// down.
pub proof fn lemma_tick_without_action(
    entities: Seq<Entity>,
    game: Game,
    last_id: int,
    store: &SpriteStore,
    catalog: Catalog,
    input: TickInput,
    chance: Chance,
)
    requires
        input.command != InputState::Action,
        chance.grass.len() == entities.len(),
    ensures
        ({
            let end = outcome(entities, game, last_id, store, catalog, input, chance);
            &&& end.entities.len() == entities.len()
            &&& end.last_id == last_id
            &&& end.game.holding == if input.command == InputState::Pickup && first_player(entities)
                is Some {
                held_after_pickup(game.holding, scene_of(entities, store).tool)
            } else {
                game.holding
            }
        }),
{
    reveal(worked);
    reveal(game_after_input);
    reveal(action_of);
    reveal(spawns_of);
    let action = tick_action(entities, game, store, input);
    assert(action == no_action());
    let steered = steered_table(entities, game, store, input, chance.targets);
    let heeded = heeded_game(entities, game, store, input);
    let asked = player_spawns(entities, game, store, catalog, input, last_id + 1, chance.crop_flip);
    assert(asked.len() == 0);
    let end = worked(steered, heeded, last_id, asked, store, catalog, input, action, chance.grass);
    lemma_sweep_spawns_nothing(steered, store);
    lemma_idle_replaces_nothing(steered, catalog, last_id + 1, chance.grass);
    assert(conversions(steered, action) == 0) by {
        lemma_idle_converts_nothing(steered);
    }
    assert(end.queue =~= particle_removals(steered, store));
    lemma_flush_without_spawns(end.entities, end.queue);
}

proof fn lemma_idle_converts_nothing(entities: Seq<Entity>)
    ensures
        conversions(entities, no_action()) == 0,
    decreases entities.len(),
{
    if entities.len() > 0 {
        lemma_idle_converts_nothing(entities.drop_last());
    }
}

/// Where the shovel digs an entity up, the queue holds its removal.
proof fn lemma_replaced_digs(
    entities: Seq<Entity>,
    action: SpriteAction,
    catalog: Catalog,
    first: int,
    dice: Seq<(bool, usize)>,
    i: int,
)
    requires
        entities.len() <= usize::MAX,
        dice.len() == entities.len(),
        0 <= i < entities.len(),
        uprooted(entities[i], action),
    ensures
        exists|k: int|
            0 <= k < action_commands(entities, action, catalog, first, dice).len()
                && #[trigger] action_commands(entities, action, catalog, first, dice)[k]
                == Command::RemoveItem(i as usize),
    decreases entities.len(),
{
    let front = entities.drop_last();
    let before = action_commands(front, action, catalog, first, dice.drop_last());
    let all = action_commands(entities, action, catalog, first, dice);
    assert(entities[entities.len() - 1] == entities.last());
    if i < front.len() {
        assert(front[i] == entities[i]);
        lemma_replaced_digs(front, action, catalog, first, dice.drop_last(), i);
        let k = choose|k: int|
            0 <= k < before.len() && #[trigger] before[k] == Command::RemoveItem(i as usize);
        assert(all[k] == before[k]);
    } else {
        assert(all[before.len() as int] == Command::RemoveItem(i as usize));
    }
}

/// The dirt that the shovel throws up.
pub open spec fn dirt_of(scene: Scene, catalog: Catalog, id: int) -> Entity {
    spawned(
        particle_sprite(catalog.particle_dirt),
        id as usize,
        scene.work_point(),
        DEPTH_OVERLAY,
        None,
        None,
    )
}

/// The empty crop that the shovel plants.
pub open spec fn planted(scene: Scene, catalog: Catalog, id: int, flip: bool) -> Entity {
    spawned(
        empty_crop_sprite(catalog, flip),
        id as usize,
        scene.work_point(),
        DEPTH_CROPS,
        Some(crop_item()),
        None,
    )
}

/// The shovel, seen over a whole tick. Used by a player, it throws up dirt
/// on the cell on which the player works: the tick adds a particle there,
/// with the next id. Where no crop is within the distance for crops, it
/// plants an empty crop on that cell, with the id after that, facing as
/// chance chose. Where one is, the crop that the search found is dug up:
/// the item with its id loses sprite, position and item.
pub proof fn lemma_tick_shovels(
    entities: Seq<Entity>,
    game: Game,
    last_id: int,
    store: &SpriteStore,
    catalog: Catalog,
    input: TickInput,
    chance: Chance,
    i: int,
)
    requires
        entities.len() <= usize::MAX,
        chance.grass.len() == entities.len(),
        0 <= last_id,
        last_id + 2 <= usize::MAX,
        first_player(entities) is Some,
        input.command == InputState::Action,
        game.holding == ItemType::Shovel,
    ensures
        ({
            let scene = scene_of(entities, store);
            let end = outcome(entities, game, last_id, store, catalog, input, chance).entities;
            let digs = scene.crop.dist < CROP_DISTANCE;
            &&& exists|j: int|
                entities.len() <= j < end.len() && #[trigger] end[j] == dirt_of(
                    scene,
                    catalog,
                    last_id + 1,
                )
            &&& !digs ==> exists|j: int|
                entities.len() <= j < end.len() && #[trigger] end[j] == planted(
                    scene,
                    catalog,
                    last_id + 2,
                    chance.crop_flip,
                )
            &&& digs && 0 <= i < entities.len() && entities[i].item()
                && entities[i].interactible->0.item_type != ItemType::Terminal
                && entities[i].sprite->0.id == scene.crop.id ==> i < end.len() && end[i].sprite
                is None && end[i].position is None && end[i].interactible is None
        }),
{
    reveal(worked);
    reveal(action_of);
    reveal(spawns_of);
    let scene = scene_of(entities, store);
    let action = tick_action(entities, game, store, input);
    let steered = steered_table(entities, game, store, input, chance.targets);
    let heeded = heeded_game(entities, game, store, input);
    let rested = rested_table(steered, action);
    let spawns = spawns_of(
        game.holding,
        input.command,
        scene,
        catalog,
        (last_id + 1) as usize,
        chance.crop_flip,
    );
    let asked = player_spawns(entities, game, store, catalog, input, last_id + 1, chance.crop_flip);
    let end = worked(
        steered,
        heeded,
        last_id + asked.len(),
        asked,
        store,
        catalog,
        input,
        action,
        chance.grass,
    );
    let swept = particle_removals(rested, store);
    let first = last_id + asked.len() + 1;
    let replaced = action_commands(rested, action, catalog, first, chance.grass);
    let rows = entities.len() as int;
    assert(rested == steered);
    lemma_replaced_holds(rested, action, catalog, first, chance.grass, 0);
    lemma_sweep_rows_below(rested, store);
    assert(rows_below(asked, rows));
    lemma_rows_below_joins(asked, swept, rows);
    lemma_rows_below_joins(asked + swept, replaced, rows);
    assert(end.queue =~= asked + swept + replaced);
    assert(asked[0] == Command::Spawn(spawns[0]));
    assert(end.queue[0] == asked[0]);
    lemma_flush_spawns(end.entities, end.queue, 0, dirt_of(scene, catalog, last_id + 1));
    if scene.crop.dist >= CROP_DISTANCE {
        assert(asked[1] == Command::Spawn(spawns[1]));
        assert(end.queue[1] == asked[1]);
        lemma_flush_spawns(
            end.entities,
            end.queue,
            1,
            planted(scene, catalog, last_id + 2, chance.crop_flip),
        );
    } else if 0 <= i < entities.len() && entities[i].item()
        && entities[i].interactible->0.item_type != ItemType::Terminal
        && entities[i].sprite->0.id == scene.crop.id {
        lemma_sheet_kept(entities, game, store, input, chance.targets, i);
        assert(uprooted(rested[i], action));
        lemma_replaced_digs(rested, action, catalog, first, chance.grass, i);
        let k = choose|k: int|
            0 <= k < replaced.len() && #[trigger] replaced[k] == Command::RemoveItem(i as usize);
        let front = asked + swept;
        assert(end.queue[front.len() + k] == replaced[k]);
        lemma_flush_removes(end.entities, end.queue, i, front.len() + k);
    }
}

} // verus!
