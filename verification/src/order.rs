//! A tick keeps the world in order: the proof, step by step.

use vstd::prelude::*;
use crate::held::Grip;
use crate::animate::animate_sprite;
use crate::catalog::catalog_of;
use crate::outcome::sown;
use crate::actions::seed_known;
use crate::actions::sows_into;
use crate::narrative::rewound;
use crate::player::player_after;
use crate::player::spawn_needs;
use crate::outcome::worked_served;
use crate::outcome::tick_needs;
use crate::outcome::settled;
use crate::outcome::grass_due;
use crate::narrative::gift_known;
use crate::actions::grass_known;
use crate::actions::grass_at_hand;
use crate::world::apply_all;
use crate::actions::action_commands;
use crate::actions::conversions;
use crate::actions::converts;
use crate::actions::dice_fit;
use crate::actions::grass_for;
use crate::actions::lemma_acted_keeps;
use crate::actions::particle_removals;
use crate::actions::spent;
use crate::actions::uprooted;
use crate::animate::animate_step;
use crate::animate::lemma_animate_step_keeps;
use crate::catalog::Catalog;
use crate::held::held_step;
use crate::held::lemma_held_step_keeps;
use crate::input::InputState;
use crate::input::TickInput;
use crate::narrative::gifts_after_sleep;
use crate::narrative::lemma_rewound_keeps;
use crate::npc::npc_walk;
use crate::outcome::Chance;
use crate::outcome::grip_of;
use crate::outcome::heeded_game;
use crate::outcome::moved_table;
use crate::outcome::outcome;
use crate::outcome::player_spawns;
use crate::outcome::player_wait;
use crate::outcome::rested_table;
use crate::outcome::steered_table;
use crate::outcome::tick_action;
use crate::outcome::walk_with;
use crate::outcome::worked;
use crate::player::Scene;
use crate::player::SpriteAction;
use crate::player::SpriteActionCommand;
use crate::player::action_of;
use crate::player::game_after_input;
use crate::player::lemma_player_after_keeps;
use crate::player::probe_of;
use crate::player::scene_of;
use crate::player::spawns_of;
use crate::search::SEARCH_RANGE;
use crate::search::found_at;
use crate::search::first_player;
use crate::search::is_first_player;
use crate::search::is_player;
use crate::search::lemma_nearest;
use crate::search::nearest_among;
use crate::sprite::SpriteStore;
use crate::state::FINAL_STAGE;
use crate::state::Game;
use crate::state::ItemType;
use crate::state::SpriteType;
use crate::world::Command;
use crate::world::Entity;
use crate::world::all_ok;
use crate::world::id_limit;
use crate::world::ids_unique;
use crate::world::ids_within;
use crate::world::lemma_flush_keeps_order;
use crate::world::lemma_queue_grows;
use crate::world::lemma_shapes_chain;
use crate::world::lemma_shapes_keep_ids;
use crate::world::queue_ok;
use crate::world::same_shapes;

verus! {

/// A step that leaves every entity what it was and in order leaves the
/// table in order.
pub(crate) proof fn lemma_table_kept(before: Seq<Entity>, after: Seq<Entity>, store: &SpriteStore, top: int)
    requires
        before.len() == after.len(),
        forall|i: int| 0 <= i < before.len() ==> (#[trigger] before[i]).same_shape(after[i]),
        forall|i: int| 0 <= i < before.len() ==> ((#[trigger] before[i]).ok(store) ==> after[i].ok(store)),
        all_ok(before, store),
        ids_unique(before),
        ids_within(before, top),
    ensures
        same_shapes(before, after),
        all_ok(after, store),
        ids_unique(after),
        ids_within(after, top),
{
    assert forall|i: int| 0 <= i < after.len() implies (#[trigger] after[i]).ok(store) by {
        assert(before[i].ok(store));
    }
    lemma_shapes_keep_ids(before, after, top);
}

/// Entities that keep their shape keep the player among them in its row.
pub(crate) proof fn lemma_player_kept(before: Seq<Entity>, after: Seq<Entity>)
    requires
        same_shapes(before, after),
    ensures
        first_player(before) == first_player(after),
{
    assert forall|k: int| is_first_player(before, k) == is_first_player(after, k) by {
        if 0 <= k < before.len() {
            assert(before[k].same_shape(after[k]));
            assert forall|j: int| 0 <= j < k implies is_player(#[trigger] before[j]) == is_player(
                after[j],
            ) by {
                assert(before[j].same_shape(after[j]));
            }
            if is_first_player(before, k) {
                assert forall|j: int| 0 <= j < k implies !is_player(#[trigger] after[j]) by {
                    assert(!is_player(before[j]));
                }
            }
            if is_first_player(after, k) {
                assert forall|j: int| 0 <= j < k implies !is_player(#[trigger] before[j]) by {
                    assert(!is_player(after[j]));
                }
            }
        }
    }
}

/// Two sound queues, the second with ids above those of the first, make a
/// sound queue.
pub(crate) proof fn lemma_queue_joins(
    a: Seq<Command>,
    b: Seq<Command>,
    rows: int,
    base: int,
    mid: int,
    top: int,
    store: &SpriteStore,
)
    requires
        queue_ok(a, rows, base, mid, store),
        queue_ok(b, rows, mid, top, store),
        base <= mid <= top,
    ensures
        queue_ok(a + b, rows, base, top, store),
{
    let joined = a + b;
    assert forall|k: int| 0 <= k < joined.len() implies match #[trigger] joined[k] {
        Command::Spawn(e) => e.sprite is Some && e.ok(store) && base < e.id() <= top,
        Command::RemoveSprite(i) => i < rows,
        Command::RemoveItem(i) => i < rows,
    } by {
        if k < a.len() {
            assert(joined[k] == a[k]);
        } else {
            assert(joined[k] == b[k - a.len()]);
        }
    }
    assert forall|k: int, m: int| 0 <= k < m < joined.len() implies match (
        #[trigger] joined[k],
        #[trigger] joined[m],
    ) {
        (Command::Spawn(x), Command::Spawn(y)) => x.id() < y.id(),
        _ => true,
    } by {
        if m < a.len() {
            assert(joined[k] == a[k]);
            assert(joined[m] == a[m]);
        } else if k < a.len() {
            assert(joined[k] == a[k]);
            assert(joined[m] == b[m - a.len()]);
        } else {
            assert(joined[k] == b[k - a.len()]);
            assert(joined[m] == b[m - a.len()]);
        }
    }
}

/// What the player's command spawns is a sound queue.
pub(crate) proof fn lemma_player_spawns_sound(
    holding: ItemType,
    command: InputState,
    scene: Scene,
    catalog: Catalog,
    top: int,
    flip: bool,
    rows: int,
    store: &SpriteStore,
)
    requires
        catalog.serves(store, spawn_needs(holding, command, scene)),
        0 <= top,
        top + 2 <= id_limit(),
    ensures
        queue_ok(
            spawns_of(holding, command, scene, catalog, (top + 1) as usize, flip).map_values(
                |e: Entity| Command::Spawn(e),
            ),
            rows,
            top,
            top + spawns_of(holding, command, scene, catalog, (top + 1) as usize, flip).len(),
            store,
        ),
        spawns_of(holding, command, scene, catalog, (top + 1) as usize, flip).len() <= 2,
{
    reveal(spawns_of);
}

/// What the story brings is a sound queue.
pub(crate) proof fn lemma_gifts_sound(
    game: Game,
    entities: Seq<Entity>,
    catalog: Catalog,
    top: int,
    input: TickInput,
    rows: int,
    store: &SpriteStore,
)
    requires
        gift_known(game, entities, catalog, store),
        0 <= top,
        top + 1 <= id_limit(),
    ensures
        queue_ok(
            gifts_after_sleep(game, entities, catalog, (top + 1) as usize, input),
            rows,
            top,
            top + gifts_after_sleep(game, entities, catalog, (top + 1) as usize, input).len(),
            store,
        ),
{
}

/// The removals of spent particles are a sound queue.
pub(crate) proof fn lemma_sweep_sound(entities: Seq<Entity>, rows: int, top: int, store: &SpriteStore)
    requires
        entities.len() <= rows,
    ensures
        queue_ok(particle_removals(entities, store), rows, top, top, store),
    decreases entities.len(),
{
    if entities.len() > 0 {
        lemma_sweep_sound(entities.drop_last(), rows, top, store);
        if spent(entities.last(), store) {
            lemma_queue_grows(
                particle_removals(entities.drop_last(), store),
                Command::RemoveSprite((entities.len() - 1) as usize),
                rows,
                top,
                top,
                store,
            );
            lemma_queue_shrinks(particle_removals(entities, store), rows, top, top + 1, top, store);
        }
    }
}

/// A sound queue that spawns nothing above `low` is sound for `low` as its
/// top.
pub(crate) proof fn lemma_queue_shrinks(
    queue: Seq<Command>,
    rows: int,
    base: int,
    top: int,
    low: int,
    store: &SpriteStore,
)
    requires
        queue_ok(queue, rows, base, top, store),
        forall|k: int|
            0 <= k < queue.len() ==> match #[trigger] queue[k] {
                Command::Spawn(e) => e.id() <= low,
                _ => true,
            },
    ensures
        queue_ok(queue, rows, base, low, store),
{
}

/// What the action removes and replaces is a sound queue.
pub(crate) proof fn lemma_replaced_sound(
    entities: Seq<Entity>,
    action: SpriteAction,
    catalog: Catalog,
    top: int,
    dice: Seq<(bool, usize)>,
    rows: int,
    store: &SpriteStore,
)
    requires
        grass_at_hand(entities, action, store, catalog),
        dice.len() == entities.len(),
        dice_fit(dice, store, catalog),
        entities.len() <= rows,
        0 <= top,
        top + entities.len() <= id_limit(),
    ensures
        conversions(entities, action) <= entities.len(),
        queue_ok(
            action_commands(entities, action, catalog, top + 1, dice),
            rows,
            top,
            top + conversions(entities, action),
            store,
        ),
    decreases entities.len(),
{
    if entities.len() > 0 {
        let front_entities = entities.drop_last();
        let front_dice = dice.drop_last();
        if grass_known(store, catalog) {
            assert forall|i: int| 0 <= i < front_dice.len() implies (#[trigger] front_dice[i]).1
                < store.0@[catalog.grass as int].frame_count() by {
                assert(front_dice[i] == dice[i]);
            }
        }
        assert forall|i: int|
            0 <= i < front_entities.len() && converts(
                #[trigger] front_entities[i],
                action,
            ) implies grass_known(store, catalog) by {
            assert(front_entities[i] == entities[i]);
        }
        lemma_replaced_sound(front_entities, action, catalog, top, front_dice, rows, store);
        let front = action_commands(front_entities, action, catalog, top + 1, front_dice);
        let count = conversions(front_entities, action) as int;
        let e = entities.last();
        let row = (entities.len() - 1) as usize;
        if converts(e, action) {
            let grass = grass_for(e, catalog, (top + 1 + count) as usize, dice.last().0, dice.last().1);
            assert(converts(entities[entities.len() - 1], action));
            assert(grass_known(store, catalog));
            assert(dice[dice.len() - 1].1 < store.0@[catalog.grass as int].frame_count());
            lemma_queue_grows(front, Command::RemoveItem(row), rows, top, top + count, store);
            lemma_queue_shrinks(
                front.push(Command::RemoveItem(row)),
                rows,
                top,
                top + count + 1,
                top + count,
                store,
            );
            lemma_queue_grows(
                front.push(Command::RemoveItem(row)),
                Command::Spawn(grass),
                rows,
                top,
                top + count,
                store,
            );
        } else if uprooted(e, action) {
            lemma_queue_grows(front, Command::RemoveItem(row), rows, top, top + count, store);
            lemma_queue_shrinks(
                front.push(Command::RemoveItem(row)),
                rows,
                top,
                top + count + 1,
                top + count,
                store,
            );
        }
    }
}

/// What is watered is a crop: the id that the watering can is used on is
/// the id of the crop that the search found, and no other entity has it.
pub(crate) proof fn lemma_watered_is_crop(
    entities: Seq<Entity>,
    later: Seq<Entity>,
    game: Game,
    store: &SpriteStore,
    input: TickInput,
    i: int,
)
    requires
        all_ok(entities, store),
        ids_unique(entities),
        same_shapes(entities, later),
        tick_action(entities, game, store, input).action == SpriteActionCommand::Water,
        0 <= i < later.len(),
        later[i].item(),
        later[i].id() == tick_action(entities, game, store, input).id,
    ensures
        later[i].sprite->0.sprite_type == SpriteType::Crop,
{
    reveal(action_of);
    let scene = scene_of(entities, store);
    let probe = probe_of(scene.player_pos, scene.player_flip);
    lemma_nearest(entities, probe, SpriteType::Crop, store);
    let found = nearest_among(entities, probe, SpriteType::Crop, store);
    assert(found == scene.crop);
    assert(found.dist < SEARCH_RANGE);
    let k = choose|k: int| found_at(found, entities, probe, SpriteType::Crop, store, k);
    assert(entities[k].ok(store));
    assert(entities[i].same_shape(later[i]));
    assert(entities[i].id() == entities[k].id());
}

/// A step with a target changes neither what an entity is nor whether it
/// is in order.
pub(crate) proof fn lemma_walk_with_keeps(
    e: Entity,
    holding: ItemType,
    time: u64,
    target: (i64, i64),
    store: &SpriteStore,
)
    ensures
        e.same_shape(walk_with(e, holding, time, target)),
        e.ok(store) ==> walk_with(e, holding, time, target).ok(store),
{
    reveal(npc_walk);
}

/// The table after the player is steered holds the same entities as
/// before the tick, all in order.
pub(crate) proof fn lemma_steered_sound(
    entities: Seq<Entity>,
    game: Game,
    store: &SpriteStore,
    input: TickInput,
    targets: Seq<(i64, i64)>,
    top: int,
)
    requires
        all_ok(entities, store),
        ids_unique(entities),
        ids_within(entities, top),
    ensures
        same_shapes(entities, steered_table(entities, game, store, input, targets)),
        all_ok(steered_table(entities, game, store, input, targets), store),
        ids_unique(steered_table(entities, game, store, input, targets)),
        ids_within(steered_table(entities, game, store, input, targets), top),
{
    let grip = grip_of(game, input, scene_of(entities, store));
    let moved = moved_table(entities, game, store, input, targets);
    let steered = steered_table(entities, game, store, input, targets);
    assert forall|i: int| 0 <= i < entities.len() implies (#[trigger] entities[i]).same_shape(
        steered[i],
    ) && (entities[i].ok(store) ==> steered[i].ok(store)) by {
        let e1 = held_step(entities[i], grip);
        let e2 = walk_with(e1, game.holding, input.time, targets[i]);
        let e3 = animate_step(e2, store, game.show_transition, input.time);
        lemma_held_step_keeps(entities[i], grip, store);
        lemma_walk_with_keeps(e1, game.holding, input.time, targets[i], store);
        if e2.ok(store) {
            lemma_animate_step_keeps(e2, store, game.show_transition, input.time);
        }
        assert(moved[i] == e3);
        lemma_player_after_keeps(
            e3,
            input.command,
            player_wait(entities, game, store, input, targets, i),
            input.time,
            input.size,
            store,
        );
        assert(entities[i].ok(store) ==> e3.ok(store));
        assert(e3.same_shape(steered[i]));
        assert(e3.ok(store) ==> steered[i].ok(store));
        assert(entities[i].same_shape(e1) && e1.same_shape(e2) && e2.same_shape(e3));
    }
    lemma_table_kept(entities, steered, store, top);
}

/// What follows the player's command leaves the table and the queue
/// sound, provided that what is watered is a crop.
pub(crate) proof fn lemma_worked_sound(
    entities: Seq<Entity>,
    game: Game,
    last_id: int,
    queue: Seq<Command>,
    store: &SpriteStore,
    catalog: Catalog,
    input: TickInput,
    action: SpriteAction,
    dice: Seq<(bool, usize)>,
    base: int,
)
    requires
        worked_served(entities, game, store, catalog, action),
        all_ok(entities, store),
        ids_unique(entities),
        ids_within(entities, base),
        0 <= base <= last_id,
        queue_ok(queue, entities.len() as int, base, last_id, store),
        last_id + entities.len() + 1 <= id_limit(),
        dice.len() == entities.len(),
        dice_fit(dice, store, catalog),
        forall|i: int|
            0 <= i < entities.len() && action.action == SpriteActionCommand::Water && (
            #[trigger] entities[i]).item() && entities[i].id() == action.id
                ==> entities[i].sprite->0.sprite_type == SpriteType::Crop,
    ensures
        ({
            let end = worked(entities, game, last_id, queue, store, catalog, input, action, dice);
            &&& end.entities.len() == entities.len()
            &&& all_ok(end.entities, store)
            &&& ids_unique(end.entities)
            &&& ids_within(end.entities, base)
            &&& base <= end.last_id
            &&& queue_ok(end.queue, entities.len() as int, base, end.last_id, store)
            &&& same_shapes(entities, end.entities)
            &&& end.game.terminal_messages == game.terminal_messages
            &&& game.terminal_message_index <= end.game.terminal_message_index
                <= game.terminal_message_index + 1
            &&& game.terminal_message_index <= FINAL_STAGE ==> end.game.terminal_message_index
                <= FINAL_STAGE
        }),
{
    reveal(worked);
    let end = worked(entities, game, last_id, queue, store, catalog, input, action, dice);
    let sleeps = action.action == SpriteActionCommand::Grow;
    let rested = rested_table(entities, action);
    let brought = if sleeps {
        gifts_after_sleep(game, rested, catalog, (last_id + 1) as usize, input)
    } else {
        seq![]
    };
    let swept = particle_removals(rested, store);
    let replaced = action_commands(rested, action, catalog, last_id + brought.len() + 1, dice);
    let rows = entities.len() as int;
    assert forall|i: int| 0 <= i < entities.len() implies (#[trigger] entities[i]).same_shape(
        rested[i],
    ) && (entities[i].ok(store) ==> rested[i].ok(store)) by {
        lemma_rewound_keeps(entities[i], store);
    }
    lemma_table_kept(entities, rested, store, base);
    if sleeps {
        lemma_gifts_sound(game, rested, catalog, last_id, input, rows, store);
    }
    lemma_sweep_sound(rested, rows, last_id + brought.len(), store);
    lemma_replaced_sound(rested, action, catalog, last_id + brought.len(), dice, rows, store);
    lemma_queue_joins(queue, brought, rows, base, last_id, last_id + brought.len(), store);
    lemma_queue_joins(
        queue + brought,
        swept,
        rows,
        base,
        last_id + brought.len(),
        last_id + brought.len(),
        store,
    );
    lemma_queue_joins(
        queue + brought + swept,
        replaced,
        rows,
        base,
        last_id + brought.len(),
        end.last_id,
        store,
    );
    assert forall|i: int| 0 <= i < rested.len() implies (#[trigger] rested[i]).same_shape(
        end.entities[i],
    ) && (rested[i].ok(store) ==> end.entities[i].ok(store)) by {
        assert(entities[i].same_shape(rested[i]));
        lemma_acted_keeps(rested[i], action, end.game.terminal_read, catalog, store);
    }
    lemma_table_kept(rested, end.entities, store, base);
    lemma_shapes_chain(entities, rested, end.entities);
}

/// What the player's command spawns is a sound queue, where the catalog
/// knows the sheets that the tick refers to.
pub(crate) proof fn lemma_asked_sound(
    entities: Seq<Entity>,
    game: Game,
    store: &SpriteStore,
    catalog: Catalog,
    input: TickInput,
    last_id: int,
    flip: bool,
)
    requires
        catalog.serves(store, tick_needs(entities, game, store, input)),
        0 <= last_id,
        last_id + 2 <= id_limit(),
    ensures
        queue_ok(
            player_spawns(entities, game, store, catalog, input, last_id + 1, flip),
            entities.len() as int,
            last_id,
            last_id + player_spawns(entities, game, store, catalog, input, last_id + 1, flip).len(),
            store,
        ),
        player_spawns(entities, game, store, catalog, input, last_id + 1, flip).len() <= 2,
{
    if first_player(entities) is Some {
        lemma_player_spawns_sound(
            game.holding,
            input.command,
            scene_of(entities, store),
            catalog,
            last_id,
            flip,
            entities.len() as int,
            store,
        );
    }
}

/// Whatever target chance gives a walker, a crop gives way to grass just
/// when it would without one.
pub(crate) proof fn lemma_settled(
    entities: Seq<Entity>,
    game: Game,
    store: &SpriteStore,
    input: TickInput,
    targets: Seq<(i64, i64)>,
    i: int,
)
    requires
        0 <= i < entities.len(),
        tick_action(entities, game, store, input).action == SpriteActionCommand::Grow,
    ensures
        ({
            let action = tick_action(entities, game, store, input);
            let grip = grip_of(game, input, scene_of(entities, store));
            converts(
                rested_table(steered_table(entities, game, store, input, targets), action)[i],
                action,
            ) == converts(
                settled(entities[i], first_player(entities) == Some(i), grip, game, store, input),
                action,
            )
        }),
{
    reveal(player_after);
    let action = tick_action(entities, game, store, input);
    let grip = grip_of(game, input, scene_of(entities, store));
    let e1 = held_step(entities[i], grip);
    let calm = npc_walk(e1, game.holding, input.time);
    let with = walk_with(e1, game.holding, input.time, targets[i]);
    assert(with.sprite == calm.sprite && with.position == calm.position && with.interactible
        == calm.interactible);
    let moved = moved_table(entities, game, store, input, targets);
    assert(moved[i] == animate_step(with, store, game.show_transition, input.time));
    let steered = steered_table(entities, game, store, input, targets);
    let rested = rested_table(steered, action);
    assert(rested[i] == rewound(steered[i]));
    if first_player(entities) is Some {
        lemma_first_player_is(entities);
    }
}

/// A step without a new target changes neither what an entity is nor
/// whether it is in order.
pub(crate) proof fn lemma_walk_keeps(e: Entity, holding: ItemType, time: u64, store: &SpriteStore)
    ensures
        e.same_shape(npc_walk(e, holding, time)),
        e.ok(store) ==> npc_walk(e, holding, time).ok(store),
{
    reveal(npc_walk);
}

/// The row that `first_player` gives is the row of a player.
pub(crate) proof fn lemma_first_player_is(entities: Seq<Entity>)
    requires
        first_player(entities) is Some,
    ensures
        is_first_player(entities, first_player(entities)->0),
{
}

/// A catalog that knows the sheets that a tick refers to knows those that
/// each of its parts refers to.
pub(crate) proof fn lemma_needs_serve(
    entities: Seq<Entity>,
    game: Game,
    store: &SpriteStore,
    catalog: Catalog,
    input: TickInput,
    targets: Seq<(i64, i64)>,
)
    requires
        catalog.serves(store, tick_needs(entities, game, store, input)),
    ensures
        worked_served(
            steered_table(entities, game, store, input, targets),
            heeded_game(entities, game, store, input),
            store,
            catalog,
            tick_action(entities, game, store, input),
        ),
{
    reveal(game_after_input);
    reveal(action_of);
    let action = tick_action(entities, game, store, input);
    let steered = steered_table(entities, game, store, input, targets);
    let heeded = heeded_game(entities, game, store, input);
    let rested = rested_table(steered, action);
    let grip = grip_of(game, input, scene_of(entities, store));
    assert forall|i: int| 0 <= i < rested.len() && converts(
        #[trigger] rested[i],
        action,
    ) implies grass_known(store, catalog) by {
        lemma_settled(entities, game, store, input, targets, i);
        assert(converts(
            settled(entities[i], first_player(entities) == Some(i), grip, game, store, input),
            action,
        ));
        assert(grass_due(entities, game, store, input));
    }
    if action.action == SpriteActionCommand::Grow {
        assert(heeded.terminal_read == game.terminal_read);
        assert(heeded.terminal_message_index == game.terminal_message_index);
    }
    assert forall|i: int| 0 <= i < rested.len() && sows_into(
        #[trigger] rested[i],
        action,
        catalog,
    ) implies seed_known(store, catalog, action) by {
        lemma_sheet_kept(entities, game, store, input, targets, i);
        assert(catalog.crop_empty == catalog_of(store).crop_empty);
        assert(sows_into(entities[i], action, catalog_of(store)));
        assert(sown(entities, action, store));
    }
}

/// `after` is the entity `before` on the same sheet.
pub open spec fn same_sheet(before: Entity, after: Entity) -> bool {
    &&& before.same_shape(after)
    &&& before.sprite is Some ==> after.sprite->0.store_index == before.sprite->0.store_index
}

proof fn lemma_held_same_sheet(e: Entity, grip: Grip)
    ensures
        same_sheet(e, held_step(e, grip)),
{
    reveal(held_step);
}

proof fn lemma_walk_same_sheet(e: Entity, holding: ItemType, time: u64, target: (i64, i64))
    ensures
        same_sheet(e, walk_with(e, holding, time, target)),
{
    reveal(npc_walk);
}

proof fn lemma_clock_same_sheet(e: Entity, store: &SpriteStore, show_transition: bool, time: u64)
    ensures
        same_sheet(e, animate_step(e, store, show_transition, time)),
{
    reveal(animate_sprite);
}

proof fn lemma_steer_same_sheet(e: Entity, command: InputState, wait: u64, time: u64, size: (u16, u16))
    ensures
        same_sheet(e, player_after(e, command, wait, time, size)),
{
    reveal(player_after);
}

/// A tick leaves the sheet, the id and the item of an entity as they were
/// until the action is applied.
pub(crate) proof fn lemma_sheet_kept(
    entities: Seq<Entity>,
    game: Game,
    store: &SpriteStore,
    input: TickInput,
    targets: Seq<(i64, i64)>,
    i: int,
)
    requires
        0 <= i < entities.len(),
    ensures
        same_sheet(
            entities[i],
            rested_table(
                steered_table(entities, game, store, input, targets),
                tick_action(entities, game, store, input),
            )[i],
        ),
{
    let action = tick_action(entities, game, store, input);
    let grip = grip_of(game, input, scene_of(entities, store));
    let e1 = held_step(entities[i], grip);
    let e2 = walk_with(e1, game.holding, input.time, targets[i]);
    let e3 = animate_step(e2, store, game.show_transition, input.time);
    let moved = moved_table(entities, game, store, input, targets);
    assert(moved[i] == e3);
    lemma_held_same_sheet(entities[i], grip);
    lemma_walk_same_sheet(e1, game.holding, input.time, targets[i]);
    lemma_clock_same_sheet(e2, store, game.show_transition, input.time);
    let steered = steered_table(entities, game, store, input, targets);
    lemma_steer_same_sheet(
        e3,
        input.command,
        player_wait(entities, game, store, input, targets, i),
        input.time,
        input.size,
    );
    assert(same_sheet(e3, steered[i]));
    assert(same_sheet(steered[i], rewound(steered[i])));
}

/// A tick keeps the world in order: whatever chance chooses, the outcome
/// of a tick on a table in order is a table in order.
pub proof fn lemma_tick_keeps_order(
    entities: Seq<Entity>,
    game: Game,
    last_id: int,
    store: &SpriteStore,
    catalog: Catalog,
    input: TickInput,
    chance: Chance,
)
    requires
        catalog.serves(store, tick_needs(entities, game, store, input)),
        all_ok(entities, store),
        ids_unique(entities),
        ids_within(entities, last_id),
        0 <= last_id,
        last_id + entities.len() + 3 <= id_limit(),
        game.wf(),
        chance.grass.len() == entities.len(),
        dice_fit(chance.grass, store, catalog),
    ensures
        ({
            let end = outcome(entities, game, last_id, store, catalog, input, chance);
            &&& all_ok(end.entities, store)
            &&& ids_unique(end.entities)
            &&& ids_within(end.entities, end.last_id)
            &&& last_id <= end.last_id
            &&& end.game.wf()
            &&& game.terminal_message_index <= end.game.terminal_message_index
                <= game.terminal_message_index + 1
        }),
{
    reveal(game_after_input);
    let steered = steered_table(entities, game, store, input, chance.targets);
    let heeded = heeded_game(entities, game, store, input);
    let asked = player_spawns(entities, game, store, catalog, input, last_id + 1, chance.crop_flip);
    let action = tick_action(entities, game, store, input);
    lemma_steered_sound(entities, game, store, input, chance.targets, last_id);
    lemma_asked_sound(entities, game, store, catalog, input, last_id, chance.crop_flip);
    lemma_needs_serve(entities, game, store, catalog, input, chance.targets);
    assert(queue_ok(asked, entities.len() as int, last_id, last_id + asked.len(), store));
    assert(asked.len() <= 2);
    assert forall|i: int|
        0 <= i < steered.len() && action.action == SpriteActionCommand::Water && (
        #[trigger] steered[i]).item() && steered[i].id() == action.id implies steered[i].sprite->0.sprite_type
        == SpriteType::Crop by {
        lemma_watered_is_crop(entities, steered, game, store, input, i);
    }
    lemma_worked_sound(
        steered,
        heeded,
        last_id + asked.len(),
        asked,
        store,
        catalog,
        input,
        action,
        chance.grass,
        last_id,
    );
    let end = worked(
        steered,
        heeded,
        last_id + asked.len(),
        asked,
        store,
        catalog,
        input,
        action,
        chance.grass,
    );
    lemma_flush_keeps_order(end.entities, end.queue, last_id, end.last_id, store);
}

/// The changes leave the players alone: what is spawned is no player, and
/// no row that is removed from holds one.
pub open spec fn spares_players(queue: Seq<Command>, table: Seq<Entity>) -> bool {
    forall|k: int|
        0 <= k < queue.len() ==> match #[trigger] queue[k] {
            Command::Spawn(e) => !is_player(e),
            Command::RemoveSprite(i) => i < table.len() ==> !is_player(table[i as int]),
            Command::RemoveItem(i) => i < table.len() ==> !is_player(table[i as int]),
        }
}

/// The players of `after` are those of `before`, in the same rows.
pub open spec fn same_players(before: Seq<Entity>, after: Seq<Entity>) -> bool {
    &&& before.len() <= after.len()
    &&& forall|i: int|
        0 <= i < after.len() ==> is_player(#[trigger] after[i]) == (i < before.len() && is_player(
            before[i],
        ))
}

/// Changes that leave the players alone leave them in their rows.
proof fn lemma_flush_keeps_players(table: Seq<Entity>, queue: Seq<Command>)
    requires
        spares_players(queue, table),
    ensures
        same_players(table, apply_all(table, queue)),
    decreases queue.len(),
{
    if queue.len() > 0 {
        let front = queue.drop_last();
        assert forall|k: int| 0 <= k < front.len() implies front[k] == queue[k] by {}
        assert(spares_players(front, table));
        lemma_flush_keeps_players(table, front);
        let mid = apply_all(table, front);
        let end = apply_all(table, queue);
        assert(queue[queue.len() - 1] == queue.last());
        assert forall|i: int| 0 <= i < end.len() implies is_player(#[trigger] end[i]) == (i
            < table.len() && is_player(table[i])) by {
            if i < mid.len() {
                assert(is_player(mid[i]) == (i < table.len() && is_player(table[i])));
            }
        }
    }
}

proof fn lemma_spares_joins(a: Seq<Command>, b: Seq<Command>, table: Seq<Entity>)
    requires
        spares_players(a, table),
        spares_players(b, table),
    ensures
        spares_players(a + b, table),
{
    let joined = a + b;
    assert forall|k: int| 0 <= k < joined.len() implies match #[trigger] joined[k] {
        Command::Spawn(e) => !is_player(e),
        Command::RemoveSprite(i) => i < table.len() ==> !is_player(table[i as int]),
        Command::RemoveItem(i) => i < table.len() ==> !is_player(table[i as int]),
    } by {
        if k < a.len() {
            assert(joined[k] == a[k]);
        } else {
            assert(joined[k] == b[k - a.len()]);
        }
    }
}

proof fn lemma_sweep_spares(entities: Seq<Entity>, table: Seq<Entity>, store: &SpriteStore)
    requires
        entities.len() <= table.len() <= usize::MAX,
        forall|i: int| 0 <= i < entities.len() ==> (#[trigger] entities[i]).same_shape(table[i]),
    ensures
        spares_players(particle_removals(entities, store), table),
    decreases entities.len(),
{
    if entities.len() > 0 {
        let front = entities.drop_last();
        assert forall|i: int| 0 <= i < front.len() implies (#[trigger] front[i]).same_shape(
            table[i],
        ) by {
            assert(front[i] == entities[i]);
        }
        lemma_sweep_spares(front, table, store);
        let row = entities.len() - 1;
        assert(entities[row].same_shape(table[row]));
        let before = particle_removals(front, store);
        let all = particle_removals(entities, store);
        assert forall|k: int| 0 <= k < all.len() implies match #[trigger] all[k] {
            Command::Spawn(e) => !is_player(e),
            Command::RemoveSprite(i) => i < table.len() ==> !is_player(table[i as int]),
            Command::RemoveItem(i) => i < table.len() ==> !is_player(table[i as int]),
        } by {
            if k < before.len() {
                assert(all[k] == before[k]);
            }
        }
    }
}

proof fn lemma_replaced_spares(
    entities: Seq<Entity>,
    action: SpriteAction,
    catalog: Catalog,
    first: int,
    dice: Seq<(bool, usize)>,
    table: Seq<Entity>,
)
    requires
        entities.len() <= table.len() <= usize::MAX,
        dice.len() == entities.len(),
        forall|i: int| 0 <= i < entities.len() ==> (#[trigger] entities[i]).same_shape(table[i]),
        forall|i: int|
            0 <= i < table.len() && is_player(#[trigger] table[i]) ==> table[i].interactible is None,
    ensures
        spares_players(action_commands(entities, action, catalog, first, dice), table),
    decreases entities.len(),
{
    if entities.len() > 0 {
        let front = entities.drop_last();
        assert forall|i: int| 0 <= i < front.len() implies (#[trigger] front[i]).same_shape(
            table[i],
        ) by {
            assert(front[i] == entities[i]);
        }
        lemma_replaced_spares(front, action, catalog, first, dice.drop_last(), table);
        let row = entities.len() - 1;
        assert(entities[row].same_shape(table[row]));
        let before = action_commands(front, action, catalog, first, dice.drop_last());
        let all = action_commands(entities, action, catalog, first, dice);
        let e = entities.last();
        assert(e == entities[row]);
        if converts(e, action) || uprooted(e, action) {
            assert(table[row].interactible is Some);
            assert(!is_player(table[row]));
        }
        assert forall|k: int| 0 <= k < all.len() implies match #[trigger] all[k] {
            Command::Spawn(e) => !is_player(e),
            Command::RemoveSprite(i) => i < table.len() ==> !is_player(table[i as int]),
            Command::RemoveItem(i) => i < table.len() ==> !is_player(table[i as int]),
        } by {
            if k < before.len() {
                assert(all[k] == before[k]);
            } else if k == before.len() {
                assert(all[k] is RemoveItem);
            } else {
                assert(converts(e, action));
                assert(all[k] is Spawn);
            }
        }
    }
}

/// A tick neither makes nor loses a player. Where no player is an item,
/// the players after a tick are those before it, in the same rows; so a
/// world with one player keeps that one.
pub proof fn lemma_tick_keeps_players(
    entities: Seq<Entity>,
    game: Game,
    last_id: int,
    store: &SpriteStore,
    catalog: Catalog,
    input: TickInput,
    chance: Chance,
)
    requires
        catalog.serves(store, tick_needs(entities, game, store, input)),
        all_ok(entities, store),
        ids_unique(entities),
        ids_within(entities, last_id),
        0 <= last_id,
        last_id + entities.len() + 3 <= id_limit(),
        chance.grass.len() == entities.len(),
        dice_fit(chance.grass, store, catalog),
        forall|i: int|
            0 <= i < entities.len() && is_player(#[trigger] entities[i])
                ==> entities[i].interactible is None,
    ensures
        same_players(
            entities,
            outcome(entities, game, last_id, store, catalog, input, chance).entities,
        ),
{
    reveal(worked);
    reveal(spawns_of);
    let steered = steered_table(entities, game, store, input, chance.targets);
    let heeded = heeded_game(entities, game, store, input);
    let asked = player_spawns(entities, game, store, catalog, input, last_id + 1, chance.crop_flip);
    let action = tick_action(entities, game, store, input);
    lemma_steered_sound(entities, game, store, input, chance.targets, last_id);
    lemma_asked_sound(entities, game, store, catalog, input, last_id, chance.crop_flip);
    lemma_needs_serve(entities, game, store, catalog, input, chance.targets);
    assert forall|i: int|
        0 <= i < steered.len() && action.action == SpriteActionCommand::Water && (
        #[trigger] steered[i]).item() && steered[i].id() == action.id implies steered[i].sprite->0.sprite_type
        == SpriteType::Crop by {
        lemma_watered_is_crop(entities, steered, game, store, input, i);
    }
    lemma_worked_sound(
        steered,
        heeded,
        last_id + asked.len(),
        asked,
        store,
        catalog,
        input,
        action,
        chance.grass,
        last_id,
    );
    let end = worked(
        steered,
        heeded,
        last_id + asked.len(),
        asked,
        store,
        catalog,
        input,
        action,
        chance.grass,
    );
    let table = end.entities;
    let rested = rested_table(steered, action);
    let sleeps = action.action == SpriteActionCommand::Grow;
    let brought = if sleeps {
        gifts_after_sleep(heeded, rested, catalog, (last_id + asked.len() + 1) as usize, input)
    } else {
        seq![]
    };
    let swept = particle_removals(rested, store);
    let replaced = action_commands(
        rested,
        action,
        catalog,
        last_id + asked.len() + brought.len() + 1,
        chance.grass,
    );
    lemma_shapes_chain(entities, steered, table);
    assert forall|i: int| 0 <= i < rested.len() implies (#[trigger] rested[i]).same_shape(
        table[i],
    ) by {
        lemma_rewound_keeps(steered[i], store);
        assert(steered[i].same_shape(table[i]));
    }
    assert forall|i: int| 0 <= i < table.len() && is_player(#[trigger] table[i]) implies table[i].interactible is None by {
        assert(entities[i].same_shape(table[i]));
    }
    assert(spares_players(asked, table));
    assert(spares_players(brought, table));
    lemma_sweep_spares(rested, table, store);
    lemma_replaced_spares(
        rested,
        action,
        catalog,
        last_id + asked.len() + brought.len() + 1,
        chance.grass,
        table,
    );
    lemma_spares_joins(asked, brought, table);
    lemma_spares_joins(asked + brought, swept, table);
    lemma_spares_joins(asked + brought + swept, replaced, table);
    lemma_flush_keeps_players(table, end.queue);
    let last = apply_all(table, end.queue);
    assert forall|i: int| 0 <= i < last.len() implies is_player(#[trigger] last[i]) == (i
        < entities.len() && is_player(entities[i])) by {
        if i < table.len() {
            assert(entities[i].same_shape(table[i]));
        }
    }
}

} // verus!
