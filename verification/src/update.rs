//! One tick of the simulation, from the table as the last tick left it to
//! the table that the next drawing shows.

use vstd::prelude::*;
use crate::catalog::lemma_fit_serves;
use crate::catalog::fits;
use crate::catalog::fit;
use crate::actions::is_sown;
use crate::actions::sows_into;
use crate::outcome::sown;
use crate::search::is_player;
use crate::search::is_first_player;
use crate::animate::animate;
use crate::npc::wants_target;
use crate::npc::walk_one;
use crate::held::track_one;
use crate::actions::is_converting;
use crate::actions::converts;
use crate::narrative::rewind_one;
use crate::narrative::any_crop;
use crate::outcome::grip_of;
use crate::outcome::settled;
use crate::outcome::worked_served;
use crate::outcome::tick_needs;
use crate::order::lemma_walk_keeps;
use crate::order::lemma_needs_serve;
use rand::rngs::StdRng;
use crate::actions::acted;
use crate::actions::action_applied;
use crate::actions::apply_action;
use crate::actions::dice_fit;
use crate::actions::spent;
use crate::actions::sweep_particles;
use crate::animate::animate_all;
use crate::animate::lemma_animate_step_keeps;
use crate::catalog::Catalog;
use crate::catalog::Stock;
use crate::catalog::catalog_of;
use crate::catalog::covers;
use crate::catalog::stock_of;
use crate::held::Grip;
use crate::held::held_step;
use crate::held::lemma_held_step_keeps;
use crate::held::track_held_items;
use crate::input::InputState;
use crate::input::TickInput;
use crate::narrative::lemma_rewound_keeps;
use crate::narrative::sleep;
use crate::npc::in_field;
use crate::npc::lemma_walked_keeps;
use crate::npc::npc_retargets;
use crate::npc::roomy;
use crate::npc::walk_npcs;
use crate::npc::walked;
use crate::order::lemma_player_kept;
use crate::order::lemma_steered_sound;
use crate::order::lemma_table_kept;
use crate::order::lemma_tick_keeps_order;
use crate::outcome::Chance;
use crate::outcome::came_out;
use crate::outcome::chance_fits;
use crate::outcome::headroom;
use crate::outcome::heeded_game;
use crate::outcome::moved_table;
use crate::outcome::outcome;
use crate::outcome::player_spawns;
use crate::outcome::player_wait;
use crate::outcome::rested_table;
use crate::outcome::steered_table;
use crate::outcome::targets_fit;
use crate::outcome::tick_action;
use crate::outcome::walk_with;
use crate::outcome::walkers_have_room;
use crate::outcome::worked;
use crate::player::Scene;
use crate::player::SpriteAction;
use crate::player::SpriteActionCommand;
use crate::player::action_of;
use crate::player::crop_facing;
use crate::player::game_after_input;
use crate::player::heed;
use crate::player::no_action;
use crate::player::player_after;
use crate::player::resolve_action;
use crate::player::scene_of;
use crate::player::spawn_for_action;
use crate::player::spawns_of;
use crate::player::steer;
use crate::player::survey;
use crate::player::will_plant;
use crate::search::find_player;
use crate::search::first_player;
use crate::sprite::SpriteStore;
use crate::sprite::SpriteStoreError;
use crate::state::FINAL_STAGE;
use crate::state::Game;
use crate::state::ItemType;
use crate::world::Command;
use crate::world::Entity;
use crate::world::World;
use crate::world::all_ok;
use crate::world::id_limit;
use crate::world::lemma_shapes_chain;
use crate::world::same_shapes;

verus! {

/// The simulation system. It keeps no state of its own.
pub struct UpdateGameState;

/// Puts the held items in place, lets the walkers step and moves the
/// sprites by the clock. Gives the scene as it was before, the row of the
/// player and the duration of the player's frame, and the targets that
/// chance gave.
fn move_all(world: &mut World, store: &SpriteStore, input: TickInput, rng: &mut StdRng) -> (found: (
    Scene,
    Option<usize>,
    u64,
    Ghost<Seq<(i64, i64)>>,
))
    requires
        store.wf(),
        old(world).wf(store),
        walkers_have_room(old(world).entities@, old(world).game, store, input),
    ensures
        found.0 == scene_of(old(world).entities@, store),
        match found.1 {
            Some(k) => first_player(old(world).entities@) == Some(k as int) && k < old(
                world,
            ).entities@.len() && found.2 == player_wait(
                old(world).entities@,
                old(world).game,
                store,
                input,
                found.3@,
                k as int,
            ),
            None => first_player(old(world).entities@) is None,
        },
        found.3@.len() == old(world).entities@.len(),
        targets_fit(found.3@, old(world).entities@, old(world).game, store, input),
        final(world).entities@ == moved_table(
            old(world).entities@,
            old(world).game,
            store,
            input,
            found.3@,
        ),
        final(world).game == old(world).game,
        final(world).queue == old(world).queue,
        final(world).indexer == old(world).indexer,
        same_shapes(old(world).entities@, final(world).entities@),
        all_ok(final(world).entities@, store),
{
    let ghost t0 = world.entities@;
    let ghost top = world.indexer.0 as int;
    let scene: Scene = survey(&world.entities, store);
    let grip = Grip {
        holding: world.game.holding,
        player_pos: scene.player_pos,
        player_flip: scene.player_flip,
        action_pressed: input.command == InputState::Action,
        tool: scene.tool,
    };
    track_held_items(&mut world.entities, grip);
    let ghost t1 = world.entities@;
    proof {
        assert forall|i: int| 0 <= i < t0.len() implies (#[trigger] t0[i]).same_shape(t1[i]) && (
        t0[i].ok(store) ==> t1[i].ok(store)) by {
            lemma_held_step_keeps(t0[i], grip, store);
        }
        lemma_table_kept(t0, t1, store, top);
        assert forall|i: int|
            0 <= i < t1.len() && npc_retargets(
                #[trigger] t1[i],
                world.game.holding,
                input.time,
            ) implies roomy(input.size) by {
            assert(t1[i] == held_step(t0[i], grip));
        }
    }
    walk_npcs(&mut world.entities, world.game.holding, input.time, input.size, rng);
    let ghost t2 = world.entities@;
    let ghost targets: Seq<(i64, i64)> = Seq::new(
        t2.len(),
        |i: int|
            match t2[i].npc {
                Some(n) => n.move_target,
                None => (0i64, 0i64),
            },
    );
    proof {
        assert forall|i: int| 0 <= i < t1.len() implies (#[trigger] t1[i]).same_shape(t2[i]) && (
        t1[i].ok(store) ==> t2[i].ok(store)) && t2[i] == walk_with(
            t1[i],
            world.game.holding,
            input.time,
            targets[i],
        ) by {
            assert(walked(t1[i], t2[i], world.game.holding, input.time, input.size));
            lemma_walked_keeps(t1[i], t2[i], world.game.holding, input.time, input.size, store);
        }
        lemma_table_kept(t1, t2, store, top);
        lemma_shapes_chain(t0, t1, t2);
        lemma_player_kept(t0, t2);
        assert forall|i: int|
            0 <= i < t0.len() && npc_retargets(
                held_step(#[trigger] t0[i], grip),
                world.game.holding,
                input.time,
            ) implies in_field(targets[i], input.size) by {
            assert(walked(t1[i], t2[i], world.game.holding, input.time, input.size));
        }
    }
    let player: Option<usize> = find_player(&world.entities);
    let mut wait: u64 = 0;
    match player {
        Some(k) => {
            let e: Entity = world.entities[k];
            assert(t2[k as int].ok(store));
            match e.sprite {
                Some(sprite) => {
                    wait = store.0[sprite.store_index].data.frames[sprite.frame].duration as u64;
                },
                None => {},
            }
        },
        None => {},
    }
    animate_all(&mut world.entities, store, world.game.show_transition, input.time);
    let ghost t3 = world.entities@;
    proof {
        assert forall|i: int| 0 <= i < t2.len() implies (#[trigger] t2[i]).same_shape(t3[i]) && (
        t2[i].ok(store) ==> t3[i].ok(store)) by {
            if t2[i].ok(store) {
                lemma_animate_step_keeps(t2[i], store, world.game.show_transition, input.time);
            } else {
                assert(t2[i].ok(store));
            }
        }
        lemma_table_kept(t2, t3, store, top);
        lemma_shapes_chain(t0, t2, t3);
        assert(t3 =~= moved_table(t0, world.game, store, input, targets));
    }
    (scene, player, wait, Ghost(targets))
}

/// Steers the player and resolves the command. Gives the action that the
/// command asks for, and the facing that chance gave a crop that was
/// planted.
fn command_player(
    world: &mut World,
    catalog: Catalog,
    input: TickInput,
    scene: Scene,
    player: Option<usize>,
    wait: u64,
    rng: &mut StdRng,
) -> (found: (SpriteAction, Ghost<bool>))
    requires
        old(world).indexer.0 + 2 <= id_limit(),
        match player {
            Some(k) => k < old(world).entities@.len(),
            None => true,
        },
    ensures
        final(world).entities@ == (match player {
            Some(k) => old(world).entities@.update(
                k as int,
                player_after(old(world).entities@[k as int], input.command, wait, input.time, input.size),
            ),
            None => old(world).entities@,
        }),
        final(world).game == (Game {
            show_transition: false,
            ..match player {
                Some(_) => game_after_input(old(world).game, input.command, scene),
                None => old(world).game,
            }
        }),
        found.0 == (match player {
            Some(_) => action_of(old(world).game.holding, input.command, scene),
            None => no_action(),
        }),
        final(world).queue@ == old(world).queue@ + (match player {
            Some(_) => spawns_of(
                old(world).game.holding,
                input.command,
                scene,
                catalog,
                (old(world).indexer.0 + 1) as usize,
                found.1@,
            ).map_values(|e: Entity| Command::Spawn(e)),
            None => seq![],
        }),
        final(world).indexer.0 == old(world).indexer.0 + (match player {
            Some(_) => spawns_of(
                old(world).game.holding,
                input.command,
                scene,
                catalog,
                (old(world).indexer.0 + 1) as usize,
                found.1@,
            ).len(),
            None => 0,
        }),
        final(world).indexer.0 <= old(world).indexer.0 + 2,
        final(world).game.terminal_message_index == old(world).game.terminal_message_index,
        final(world).game.terminal_messages == old(world).game.terminal_messages,
{
    let mut action = SpriteAction { id: 0, action: SpriteActionCommand::Idle };
    let mut flip: bool = false;
    match player {
        Some(k) => {
            let holding: ItemType = world.game.holding;
            let e: Entity = world.entities[k];
            world.entities.set(k, steer(e, input.command, wait, input.time, input.size));
            heed(&mut world.game, input.command, scene);
            action = resolve_action(holding, input.command, scene);
            if will_plant(holding, input.command, scene) {
                flip = crop_facing(rng);
            }
            spawn_for_action(world, holding, input.command, scene, catalog, flip);
        },
        None => {
            assert(world.queue@ =~= old(world).queue@ + Seq::<Command>::empty());
        },
    }
    world.game.show_transition = false;
    (action, Ghost(flip))
}

/// Lets the night pass if the action is to sleep, asks the spent particles
/// to go and applies the action. Gives what chance chose for new grass.
fn settle(
    world: &mut World,
    store: &SpriteStore,
    catalog: Catalog,
    input: TickInput,
    action: SpriteAction,
    rng: &mut StdRng,
) -> (dice: Ghost<Seq<(bool, usize)>>)
    requires
        store.wf(),
        worked_served(old(world).entities@, old(world).game, store, catalog, action),
        all_ok(old(world).entities@, store),
        old(world).game.terminal_message_index <= FINAL_STAGE,
        old(world).indexer.0 + old(world).entities@.len() + 1 <= id_limit(),
    ensures
        dice@.len() == old(world).entities@.len(),
        dice_fit(dice@, store, catalog),
        ({
            let end = worked(
                old(world).entities@,
                old(world).game,
                old(world).indexer.0 as int,
                old(world).queue@,
                store,
                catalog,
                input,
                action,
                dice@,
            );
            &&& final(world).entities@ == end.entities
            &&& final(world).game == end.game
            &&& final(world).indexer.0 == end.last_id
            &&& final(world).queue@ == end.queue
        }),
        all_ok(rested_table(old(world).entities@, action), store),
        same_shapes(old(world).entities@, rested_table(old(world).entities@, action)),
        final(world).game.terminal_message_index <= FINAL_STAGE,
        final(world).game.terminal_messages == old(world).game.terminal_messages,
{
    reveal(worked);
    let ghost t4 = world.entities@;
    let ghost rested = rested_table(t4, action);
    if action.action == SpriteActionCommand::Grow {
        sleep(world, catalog, input);
        assert(world.entities@ =~= rested);
    }
    proof {
        assert forall|i: int| 0 <= i < t4.len() implies (#[trigger] t4[i]).same_shape(rested[i]) && (
        t4[i].ok(store) ==> rested[i].ok(store)) by {
            lemma_rewound_keeps(t4[i], store);
        }
        assert forall|i: int| 0 <= i < rested.len() implies (#[trigger] rested[i]).ok(store) by {
            assert(t4[i].ok(store));
        }
    }
    let ghost told = world.game;
    let ghost mid_queue = world.queue@;
    sweep_particles(world, store);
    let ghost before = *world;
    apply_action(world, store, catalog, action, rng);
    let ghost dice = choose|dice: Seq<(bool, usize)>|
        dice_fit(dice, store, catalog) && #[trigger] action_applied(
            before,
            *world,
            action,
            catalog,
            dice,
        );
    proof {
        assert(world.entities@ =~= Seq::new(
            rested.len(),
            |i: int| acted(rested[i], action, told.terminal_read, catalog),
        ));
    }
    Ghost(dice)
}

/// Runs the simulation of one tick and leaves what it asks for in the
/// queue. Gives the choices that chance made.
fn simulate(
    world: &mut World,
    store: &SpriteStore,
    catalog: Catalog,
    input: TickInput,
    rng: &mut StdRng,
) -> (chance: Ghost<Chance>)
    requires
        store.wf(),
        catalog.serves(
            store,
            tick_needs(old(world).entities@, old(world).game, store, input),
        ),
        old(world).wf(store),
        headroom(*old(world)),
        walkers_have_room(old(world).entities@, old(world).game, store, input),
    ensures
        chance_fits(chance@, old(world).entities@, old(world).game, store, catalog, input),
        ({
            let asked = player_spawns(
                old(world).entities@,
                old(world).game,
                store,
                catalog,
                input,
                old(world).indexer.0 + 1,
                chance@.crop_flip,
            );
            let end = worked(
                steered_table(old(world).entities@, old(world).game, store, input, chance@.targets),
                heeded_game(old(world).entities@, old(world).game, store, input),
                old(world).indexer.0 + asked.len(),
                asked,
                store,
                catalog,
                input,
                tick_action(old(world).entities@, old(world).game, store, input),
                chance@.grass,
            );
            &&& final(world).entities@ == end.entities
            &&& final(world).game == end.game
            &&& final(world).indexer.0 == end.last_id
            &&& final(world).queue@ == end.queue
        }),
{
    let ghost t0 = world.entities@;
    let ghost g0 = world.game;
    let ghost base = world.indexer.0 as int;
    let found = move_all(world, store, input, rng);
    let ghost targets = found.3@;
    let ghost t3 = world.entities@;
    let turn = command_player(world, catalog, input, found.0, found.1, found.2, rng);
    let ghost flip = turn.1@;
    proof {
        lemma_steered_sound(t0, g0, store, input, targets, base);
        lemma_needs_serve(t0, g0, store, catalog, input, targets);
        lemma_commanded(
            t0,
            g0,
            base,
            store,
            catalog,
            input,
            targets,
            flip,
            found.1,
            found.2,
            t3,
            world.entities@,
            world.queue@,
        );
    }
    let dice = settle(world, store, catalog, input, turn.0, rng);
    Ghost(Chance { targets, crop_flip: flip, grass: dice@ })
}

/// The table and the queue after the player's command are what the
/// outcome of the tick is made from.
proof fn lemma_commanded(
    entities: Seq<Entity>,
    game: Game,
    last_id: int,
    store: &SpriteStore,
    catalog: Catalog,
    input: TickInput,
    targets: Seq<(i64, i64)>,
    flip: bool,
    player: Option<usize>,
    wait: u64,
    moved: Seq<Entity>,
    steered: Seq<Entity>,
    asked: Seq<Command>,
)
    requires
        moved == moved_table(entities, game, store, input, targets),
        match player {
            Some(k) => first_player(entities) == Some(k as int) && k < entities.len() && wait
                == player_wait(entities, game, store, input, targets, k as int),
            None => first_player(entities) is None,
        },
        steered == (match player {
            Some(k) => moved.update(
                k as int,
                player_after(moved[k as int], input.command, wait, input.time, input.size),
            ),
            None => moved,
        }),
        asked == Seq::<Command>::empty() + (match player {
            Some(_) => spawns_of(
                game.holding,
                input.command,
                scene_of(entities, store),
                catalog,
                (last_id + 1) as usize,
                flip,
            ).map_values(|e: Entity| Command::Spawn(e)),
            None => seq![],
        }),
    ensures
        steered == steered_table(entities, game, store, input, targets),
        asked == player_spawns(entities, game, store, catalog, input, last_id + 1, flip),
{
    assert(asked =~= player_spawns(entities, game, store, catalog, input, last_id + 1, flip));
}

impl World {
    /// Tells whether the table has room for the ids that a tick may hand
    /// out.
    pub fn has_headroom(&self) -> (yes: bool)
        ensures
            yes == headroom(*self),
    {
        let limit: u64 = 0x7fff_ffff_0000_0000;
        let sum: u128 = self.indexer.0 as u128 + self.entities.len() as u128 + 3;
        sum <= usize::MAX as u128 && sum <= limit as u128
    }

    /// Tells whether the terminal has a field in which to choose a target
    /// for every walker that the coming tick gives one.
    pub fn has_room_for_walkers(&self, store: &SpriteStore, input: TickInput) -> (yes: bool)
        requires
            store.wf(),
            all_ok(self.entities@, store),
        ensures
            yes == walkers_have_room(self.entities@, self.game, store, input),
    {
        if input.size.0 > 16 && input.size.1 > 8 {
            return true;
        }
        let grip: Grip = self.grip(store, input);
        let mut i: usize = 0;
        while i < self.entities.len()
            invariant
                i <= self.entities@.len(),
                !roomy(input.size),
                grip == grip_of(self.game, input, scene_of(self.entities@, store)),
                forall|j: int|
                    0 <= j < i ==> !npc_retargets(
                        held_step(#[trigger] self.entities@[j], grip),
                        self.game.holding,
                        input.time,
                    ),
            decreases self.entities@.len() - i,
        {
            if wants_target(track_one(self.entities[i], grip), self.game.holding, input.time) {
                assert(npc_retargets(
                    held_step(self.entities@[i as int], grip),
                    self.game.holding,
                    input.time,
                ));
                return false;
            }
            i = i + 1;
        }
        true
    }

    /// What the tracking of held items is told in the coming tick.
    pub fn grip(&self, store: &SpriteStore, input: TickInput) -> (grip: Grip)
        requires
            store.wf(),
            all_ok(self.entities@, store),
        ensures
            grip == grip_of(self.game, input, scene_of(self.entities@, store)),
    {
        let scene: Scene = survey(&self.entities, store);
        Grip {
            holding: self.game.holding,
            player_pos: scene.player_pos,
            player_flip: scene.player_flip,
            action_pressed: input.command == InputState::Action,
            tool: scene.tool,
        }
    }

    /// Tells which sheets the coming tick refers to.
    pub fn needs(&self, store: &SpriteStore, input: TickInput) -> (needs: Stock)
        requires
            store.wf(),
            all_ok(self.entities@, store),
        ensures
            needs == tick_needs(self.entities@, self.game, store, input),
    {
        let scene: Scene = survey(&self.entities, store);
        let player: Option<usize> = find_player(&self.entities);
        let acts: bool = player.is_some();
        let holding: ItemType = self.game.holding;
        let action: SpriteAction = if acts {
            resolve_action(holding, input.command, scene)
        } else {
            SpriteAction { id: 0, action: SpriteActionCommand::Idle }
        };
        let uses: bool = acts && input.command == InputState::Action;
        let sleeps: bool = action.action == SpriteActionCommand::Grow;
        let read: bool = self.game.terminal_read;
        let stage: usize = self.game.terminal_message_index;
        let sows: bool = action.action == SpriteActionCommand::Seed;
        let sows2: bool = action.action == SpriteActionCommand::Seed2;
        Stock {
            particle_dirt: uses && holding == ItemType::Shovel,
            particle_water: uses && holding == ItemType::Watercan,
            particle_heart: uses && (holding == ItemType::Nothing || holding == ItemType::Npc)
                && scene.tool.item_type == ItemType::Npc,
            crop_empty: (acts && will_plant(holding, input.command, scene)) || sows || sows2,
            crop_leaf: sows && self.any_sown(store, action),
            crop_flower: (sows2 && self.any_sown(store, action)) || (sleeps && read && (stage == 3
                || stage == 4 || stage == 6)
                && any_crop(&self.entities)),
            grass: sleeps && self.any_ripe(store, input, player, action),
            tool_packet2: sleeps && read && stage == 2,
            character_01: sleeps && read && stage == 7,
        }
    }

    /// Tells whether the sheets that the coming tick refers to have the
    /// frames that their use asks for.
    pub fn has_sheets_that_fit(&self, store: &SpriteStore, input: TickInput) -> (yes: bool)
        requires
            store.wf(),
            all_ok(self.entities@, store),
        ensures
            yes == fit(store, tick_needs(self.entities@, self.game, store, input)),
    {
        fits(store, self.needs(store, input))
    }

    /// Tells whether the action sows into some empty crop.
    fn any_sown(&self, store: &SpriteStore, action: SpriteAction) -> (yes: bool)
        requires
            store.wf(),
        ensures
            yes == sown(self.entities@, action, store),
    {
        let catalog: Catalog = Catalog::resolve(store).0;
        let mut i: usize = 0;
        while i < self.entities.len()
            invariant
                i <= self.entities@.len(),
                catalog == catalog_of(store),
                forall|j: int| 0 <= j < i ==> !sows_into(#[trigger] self.entities@[j], action, catalog),
            decreases self.entities@.len() - i,
        {
            if is_sown(self.entities[i], action, catalog) {
                assert(sows_into(self.entities@[i as int], action, catalog));
                return true;
            }
            i = i + 1;
        }
        false
    }

    /// Tells whether some crop is full grown when a night's action finds
    /// it.
    fn any_ripe(
        &self,
        store: &SpriteStore,
        input: TickInput,
        player: Option<usize>,
        action: SpriteAction,
    ) -> (yes: bool)
        requires
            store.wf(),
            all_ok(self.entities@, store),
            match player {
                Some(k) => first_player(self.entities@) == Some(k as int) && is_first_player(
                    self.entities@,
                    k as int,
                ),
                None => first_player(self.entities@) is None,
            },
        ensures
            yes == (exists|i: int|
                0 <= i < self.entities@.len() && converts(
                    settled(
                        #[trigger] self.entities@[i],
                        first_player(self.entities@) == Some(i),
                        grip_of(self.game, input, scene_of(self.entities@, store)),
                        self.game,
                        store,
                        input,
                    ),
                    action,
                )),
    {
        let grip: Grip = self.grip(store, input);
        let mut i: usize = 0;
        while i < self.entities.len()
            invariant
                i <= self.entities@.len(),
                store.wf(),
                all_ok(self.entities@, store),
                grip == grip_of(self.game, input, scene_of(self.entities@, store)),
                match player {
                    Some(k) => first_player(self.entities@) == Some(k as int) && is_first_player(
                        self.entities@,
                        k as int,
                    ),
                    None => first_player(self.entities@) is None,
                },
                forall|j: int|
                    0 <= j < i ==> !converts(
                        settled(
                            #[trigger] self.entities@[j],
                            first_player(self.entities@) == Some(j),
                            grip,
                            self.game,
                            store,
                            input,
                        ),
                        action,
                    ),
            decreases self.entities@.len() - i,
        {
            let steers: bool = match player {
                Some(k) => k == i,
                None => false,
            };
            assert(self.entities@[i as int].ok(store));
            let found: Entity = settle_one(self.entities[i], steers, grip, &self.game, store, input);
            if is_converting(found, action) {
                assert(converts(
                    settled(
                        self.entities@[i as int],
                        first_player(self.entities@) == Some(i as int),
                        grip,
                        self.game,
                        store,
                        input,
                    ),
                    action,
                ));
                return true;
            }
            i = i + 1;
        }
        false
    }
}

/// Takes one entity through the tick as far as a night's action, without
/// any target that chance may give it.
fn settle_one(
    e: Entity,
    steers: bool,
    grip: Grip,
    game: &Game,
    store: &SpriteStore,
    input: TickInput,
) -> (after: Entity)
    requires
        store.wf(),
        e.ok(store),
        steers ==> is_player(e),
    ensures
        after == settled(e, steers, grip, *game, store, input),
{
    let held: Entity = track_one(e, grip);
    let walked: Entity = walk_one(held, game.holding, input.time);
    proof {
        lemma_held_step_keeps(e, grip, store);
        lemma_walk_keeps(held, game.holding, input.time, store);
    }
    let mut wait: u64 = 0;
    let moved: Entity = match (walked.sprite, walked.position) {
        (Some(sprite), Some(_)) => {
            wait = store.0[sprite.store_index].data.frames[sprite.frame].duration as u64;
            Entity {
                sprite: Some(
                    animate(sprite, &store.0[sprite.store_index], game.show_transition, input.time),
                ),
                ..walked
            }
        },
        _ => walked,
    };
    let steered: Entity = if steers {
        steer(moved, input.command, wait, input.time, input.size)
    } else {
        moved
    };
    rewind_one(steered)
}

impl UpdateGameState {
    /// Runs one tick: the simulation, and at its end the changes that it
    /// asked for. Fails, and leaves the world as it is, if the store lacks a
    /// sheet that this tick refers to.
    pub fn run(
        &mut self,
        world: &mut World,
        store: &SpriteStore,
        input: TickInput,
        rng: &mut StdRng,
    ) -> (done: Result<(), SpriteStoreError>)
        requires
            store.wf(),
            old(world).wf(store),
            headroom(*old(world)),
            walkers_have_room(old(world).entities@, old(world).game, store, input),
            fit(store, tick_needs(old(world).entities@, old(world).game, store, input)),
        ensures
            done is Ok <==> covers(
                stock_of(store),
                tick_needs(old(world).entities@, old(world).game, store, input),
            ),
            done is Err ==> *final(world) == *old(world),
            done is Ok ==> final(world).wf(store),
            done is Ok ==> exists|chance: Chance|
                chance_fits(
                    chance,
                    old(world).entities@,
                    old(world).game,
                    store,
                    catalog_of(store),
                    input,
                ) && #[trigger] came_out(
                    *final(world),
                    outcome(
                        old(world).entities@,
                        old(world).game,
                        old(world).indexer.0 as int,
                        store,
                        catalog_of(store),
                        input,
                        chance,
                    ),
                ),
            done is Ok ==> old(world).game.terminal_message_index
                <= final(world).game.terminal_message_index <= old(world).game.terminal_message_index
                + 1,
    {
        let found = Catalog::resolve(store);
        let catalog: Catalog = found.0;
        let needs: Stock = world.needs(store, input);
        if !found.1.has(needs) {
            return Err(SpriteStoreError);
        }
        proof {
            lemma_fit_serves(store, needs);
        }
        let chance = simulate(world, store, catalog, input, rng);
        proof {
            lemma_tick_keeps_order(
                old(world).entities@,
                old(world).game,
                old(world).indexer.0 as int,
                store,
                catalog,
                input,
                chance@,
            );
        }
        world.flush();
        proof {
            assert(came_out(
                *world,
                outcome(
                    old(world).entities@,
                    old(world).game,
                    old(world).indexer.0 as int,
                    store,
                    catalog,
                    input,
                    chance@,
                ),
            ));
        }
        Ok(())
    }
}

} // verus!
