use luna_farm::actions::act_on;
use luna_farm::animate::animate;
use luna_farm::catalog::Catalog;
use luna_farm::held::track_one;
use luna_farm::held::Grip;
use luna_farm::input::command_for_key;
use luna_farm::input::impulse;
use luna_farm::input::Input;
use luna_farm::input::InputState;
use luna_farm::input::Key;
use luna_farm::input::Modifiers;
use luna_farm::input::TickInput;
use luna_farm::measure::is_due;
use luna_farm::measure::shift;
use luna_farm::narrative::is_stage_passed;
use luna_farm::npc::walk_npcs;
use luna_farm::npc::walk_one;
use luna_farm::npc::wants_target;
use luna_farm::player::resolve_action;
use luna_farm::player::steer;
use luna_farm::player::survey;
use luna_farm::player::Scene;
use luna_farm::player::SpriteAction;
use luna_farm::player::SpriteActionCommand;
use luna_farm::search::distance;
use luna_farm::search::find_player;
use luna_farm::search::nearest_of_type;
use luna_farm::search::Found;
use luna_farm::sprite::SheetSource;
use luna_farm::sprite::SpriteSheetJSON;
use luna_farm::sprite::SpriteSheetJSONFrame;
use luna_farm::sprite::SpriteSheetJSONMeta;
use luna_farm::sprite::SpriteStore;
use luna_farm::sprite::Xywh;
use luna_farm::sprite::WH;
use luna_farm::state::Game;
use luna_farm::state::Interactible;
use luna_farm::state::ItemType;
use luna_farm::state::Npc;
use luna_farm::state::Position;
use luna_farm::state::Sprite;
use luna_farm::state::SpriteDepths;
use luna_farm::state::SpriteIndexer;
use luna_farm::state::SpriteType;
use luna_farm::state::Time;
use luna_farm::update::UpdateGameState;
use luna_farm::world::Command;
use luna_farm::world::Entity;
use luna_farm::world::World;
use rand::rngs::StdRng;
use rand::SeedableRng;

/// A sheet with frames of `w` by `h` opaque pixels side by side, each shown
/// for the duration given for it.
fn sheet(name: &str, w: u32, h: u32, durations: &[u32]) -> SheetSource {
    let count = durations.len() as u32;
    let mut frames = Vec::new();
    for (i, d) in durations.iter().enumerate() {
        frames.push(SpriteSheetJSONFrame {
            filename: format!("{} {}", name, i),
            frame: Xywh { x: i as u32 * w, y: 0, w, h },
            rotated: false,
            trimmed: false,
            sprite_source_size: Xywh { x: 0, y: 0, w, h },
            source_size: WH { w, h },
            duration: *d,
        });
    }
    let width = w * count;
    SheetSource {
        data: SpriteSheetJSON {
            frames,
            meta: SpriteSheetJSONMeta {
                app: String::new(),
                version: String::new(),
                image: format!("{}.png", name),
                format: String::from("RGBA8888"),
                size: WH { w: width, h },
                scale: String::from("1"),
            },
        },
        width,
        height: h,
        pixels: vec![255u8; (4 * width * h) as usize],
    }
}

/// A store with every sheet that the simulation and the first world refer
/// to. The player's sheet comes first, with frames of 100 and 150 ms.
fn farm_store() -> SpriteStore {
    let eight = [100u32; 8];
    SpriteStore::new(vec![
        sheet("character-00", 8, 8, &[100, 150]),
        sheet("character-01", 8, 8, &[100, 100]),
        sheet("tile-dirt", 8, 8, &[100, 100, 100]),
        sheet("grass", 8, 8, &eight),
        sheet("tool-shovel", 4, 4, &[100]),
        sheet("tool-watercan", 4, 4, &[100]),
        sheet("tool-packet", 4, 4, &[100]),
        sheet("tool-packet2", 4, 4, &[100]),
        sheet("crop-empty", 8, 8, &eight),
        sheet("crop-leaf", 8, 8, &eight),
        sheet("crop-flower", 8, 8, &eight),
        sheet("cryopod", 8, 8, &[100, 100]),
        sheet("terminal", 8, 8, &[100, 100]),
        sheet("transition", 8, 8, &[50, 50, 50]),
        sheet("particle-dirt", 4, 4, &[50, 50]),
        sheet("particle-water", 4, 4, &[50, 50]),
        sheet("particle-heart", 4, 4, &[50, 50]),
    ])
    .unwrap()
}

fn messages() -> Vec<String> {
    (0..10).map(|i| format!("message {}", i)).collect()
}

fn sprite(id: usize, store_index: usize, kind: SpriteType) -> Sprite {
    Sprite { id, store_index, sprite_type: kind, ..Sprite::default() }
}

fn entity(s: Sprite, x: i64, y: i64, item: Option<ItemType>) -> Entity {
    Entity {
        position: Some(Position { x, y, z: 0 }),
        sprite: Some(s),
        interactible: item.map(|item_type| Interactible { item_type, hold_to_use: false }),
        npc: None,
    }
}

fn index_of(store: &SpriteStore, name: &str) -> usize {
    store.index_by_name(name).unwrap()
}

/// A world with the player at (20, 10) and, with id 2, a shovel at the
/// given place.
fn small_world(store: &SpriteStore, shovel_at: (i64, i64)) -> World {
    let mut world = World::new(Game::new(messages()));
    world.entities.push(entity(
        sprite(1, index_of(store, "character-00"), SpriteType::Player),
        20,
        10,
        None,
    ));
    world.entities.push(entity(
        sprite(2, index_of(store, "tool-shovel"), SpriteType::Tool),
        shovel_at.0,
        shovel_at.1,
        Some(ItemType::Shovel),
    ));
    world.indexer = SpriteIndexer(2);
    world
}

fn tick(world: &mut World, store: &SpriteStore, time: u64, command: InputState) {
    let mut rng = StdRng::seed_from_u64(7);
    let input = TickInput { time, command, size: (80, 40) };
    UpdateGameState.run(world, store, input, &mut rng).unwrap();
}

fn count_kind(world: &World, kind: SpriteType) -> usize {
    world
        .entities
        .iter()
        .filter(|e| e.sprite.map_or(false, |s| s.sprite_type == kind))
        .count()
}

#[test]
fn animation_advances_and_wraps() {
    let store = farm_store();
    let info = store.by_name(String::from("character-00")).unwrap();
    let mut s = sprite(1, info.index, SpriteType::Player);
    s.animating = true;
    s.last_animate = 0;
    let s = animate(s, info, false, 120);
    assert_eq!(s.frame, 1);
    assert_eq!(s.last_animate, 120);
    let s = animate(s, info, false, 320);
    assert_eq!(s.frame, 0);
    assert_eq!(s.last_animate, 320);
}

#[test]
fn animation_waits_for_the_whole_duration() {
    let store = farm_store();
    let info = store.by_index(0).unwrap();
    let mut s = sprite(1, 0, SpriteType::Player);
    s.animating = true;
    let kept = animate(s, info, false, 100);
    assert_eq!(kept.frame, 0);
    assert_eq!(kept.last_animate, 0);
    let moved = animate(s, info, false, 101);
    assert_eq!(moved.frame, 1);
    s.animating = false;
    assert_eq!(animate(s, info, false, 5000), s);
}

#[test]
fn overlay_plays_on_transition_and_stops_on_its_last_frame() {
    let store = farm_store();
    let info = store.by_name(String::from("transition")).unwrap();
    let mut s = sprite(0, info.index, SpriteType::Overlay);
    let started = animate(s, info, true, 10);
    assert!(started.animating);
    s.animating = true;
    s.frame = 2;
    let stopped = animate(s, info, false, 10);
    assert!(!stopped.animating);
    assert_eq!(stopped.frame, 2);
}

#[test]
fn animation_runs_in_a_tick() {
    let store = farm_store();
    let mut world = small_world(&store, (60, 30));
    let mut player = world.entities[0];
    player.sprite.as_mut().unwrap().animating = true;
    world.entities[0] = player;
    tick(&mut world, &store, 120, InputState::Quit);
    assert_eq!(world.entities[0].sprite.unwrap().frame, 1);
    tick(&mut world, &store, 320, InputState::Quit);
    assert_eq!(world.entities[0].sprite.unwrap().frame, 0);
}

#[test]
fn distance_is_the_rounded_down_euclidean_distance() {
    let at = Position { x: 0, y: 0, z: 0 };
    let size = WH { w: 0, h: 0 };
    assert_eq!(distance(at, size, (3, 4)), 5);
    assert_eq!(distance(at, size, (1, 1)), 1);
    assert_eq!(distance(at, size, (2, 2)), 2);
    assert_eq!(distance(at, size, (0, 0)), 0);
    assert_eq!(distance(at, size, (99, 0)), 99);
    assert_eq!(distance(at, size, (100, 0)), 100);
    assert_eq!(distance(at, size, (70, 70)), 98);
    assert_eq!(distance(at, size, (71, 71)), 100);
    assert_eq!(distance(at, size, (i64::MAX, i64::MIN)), 100);
}

#[test]
fn distance_is_taken_from_the_centre_of_the_sprite() {
    let at = Position { x: 10, y: 10, z: 0 };
    let size = WH { w: 8, h: 8 };
    assert_eq!(distance(at, size, (14, 12)), 0);
    assert_eq!(distance(at, size, (14, 15)), 3);
    assert_eq!(distance(at, size, (10, 12)), 4);
}

#[test]
fn nearest_search_finds_the_minimum() {
    let store = farm_store();
    let shovel = index_of(&store, "tool-shovel");
    let entities = vec![
        entity(sprite(1, shovel, SpriteType::Tool), 30, 10, Some(ItemType::Shovel)),
        entity(sprite(2, shovel, SpriteType::Tool), 12, 10, Some(ItemType::Watercan)),
        entity(sprite(3, shovel, SpriteType::Tool), 20, 10, Some(ItemType::Packet)),
    ];
    let found = nearest_of_type((10, 11), SpriteType::Tool, &store, &entities);
    assert_eq!(found.id, 2);
    assert_eq!(found.dist, 4);
    assert_eq!(found.item_type, ItemType::Watercan);
}

#[test]
fn nearest_search_takes_the_first_of_two_equally_near() {
    let store = farm_store();
    let shovel = index_of(&store, "tool-shovel");
    let entities = vec![
        entity(sprite(5, shovel, SpriteType::Tool), 13, 10, Some(ItemType::Shovel)),
        entity(sprite(6, shovel, SpriteType::Tool), 3, 10, Some(ItemType::Packet)),
    ];
    let found = nearest_of_type((10, 11), SpriteType::Tool, &store, &entities);
    assert_eq!(found.dist, 5);
    assert_eq!(found.id, 5);
    assert_eq!(found.item_type, ItemType::Shovel);
}

#[test]
fn nearest_search_finds_nothing_out_of_range() {
    let store = farm_store();
    let shovel = index_of(&store, "tool-shovel");
    let entities = vec![
        entity(sprite(1, shovel, SpriteType::Tool), 200, 10, Some(ItemType::Shovel)),
        entity(sprite(2, shovel, SpriteType::Crop), 10, 10, Some(ItemType::Crop)),
        entity(sprite(3, shovel, SpriteType::Tool), 10, 10, None),
    ];
    let found = nearest_of_type((10, 11), SpriteType::Tool, &store, &entities);
    assert_eq!(found.id, 0);
    assert_eq!(found.dist, 100);
    assert_eq!(found.item_type, ItemType::Nothing);
    let none = nearest_of_type((0, 0), SpriteType::Tool, &store, &Vec::new());
    assert_eq!(none.dist, 100);
}

#[test]
fn player_is_the_first_visible_sprite_of_its_kind() {
    let store = farm_store();
    let hero = index_of(&store, "character-00");
    let mut hidden = entity(sprite(1, hero, SpriteType::Player), 0, 0, None);
    hidden.position = None;
    let entities = vec![
        entity(sprite(0, hero, SpriteType::Background), 0, 0, None),
        hidden,
        entity(sprite(2, hero, SpriteType::Player), 3, 4, None),
        entity(sprite(3, hero, SpriteType::Player), 5, 6, None),
    ];
    assert_eq!(find_player(&entities), Some(2));
    assert_eq!(find_player(&Vec::new()), None);
    let scene = survey(&entities, &store);
    assert_eq!(scene.player_pos, (3, 4));
    assert!(!scene.player_flip);
}

#[test]
fn npc_steps_one_cell_on_each_axis() {
    let store = farm_store();
    let mut e = entity(sprite(9, index_of(&store, "character-01"), SpriteType::Tool), 10, 10, None);
    e.npc = Some(Npc { move_target: (12, 9), last_move: 0, move_wait: 200, move_stop: 2000 });
    let early = walk_one(e, ItemType::Nothing, 200);
    assert_eq!(early.position, e.position);
    let one = walk_one(e, ItemType::Nothing, 201);
    assert_eq!(one.position.unwrap().x, 11);
    assert_eq!(one.position.unwrap().y, 9);
    assert!(one.sprite.unwrap().animating);
    assert!(!one.sprite.unwrap().flip);
    assert_eq!(one.npc.unwrap().last_move, 201);
    let two = walk_one(one, ItemType::Nothing, 402);
    assert_eq!(two.position.unwrap().x, 12);
    assert_eq!(two.position.unwrap().y, 9);
    assert!(!two.sprite.unwrap().animating);
    assert_eq!(two.sprite.unwrap().frame, 0);
    let rest = walk_one(two, ItemType::Nothing, 700);
    assert_eq!(rest.position, two.position);
    assert_eq!(rest.npc.unwrap().last_move, 402);
}

#[test]
fn npc_turns_to_face_its_way() {
    let store = farm_store();
    let mut e = entity(sprite(9, index_of(&store, "character-01"), SpriteType::Tool), 10, 10, None);
    e.npc = Some(Npc { move_target: (3, 10), last_move: 0, move_wait: 10, move_stop: 20 });
    let one = walk_one(e, ItemType::Nothing, 50);
    assert_eq!(one.position.unwrap().x, 9);
    assert!(one.sprite.unwrap().flip);
}

#[test]
fn held_npc_stands_still() {
    let store = farm_store();
    let mut e = entity(sprite(9, index_of(&store, "character-01"), SpriteType::Tool), 10, 10, None);
    e.npc = Some(Npc { move_target: (12, 9), last_move: 0, move_wait: 200, move_stop: 2000 });
    e.sprite.as_mut().unwrap().animating = true;
    let held = walk_one(e, ItemType::Npc, 5000);
    assert_eq!(held.position, e.position);
    assert_eq!(held.sprite.unwrap().frame, 1);
    assert!(!held.sprite.unwrap().animating);
    assert!(!wants_target(e, ItemType::Npc, 5000));
}

#[test]
fn npc_gets_a_new_target_in_the_field_after_its_pause() {
    let store = farm_store();
    let mut e = entity(sprite(9, index_of(&store, "character-01"), SpriteType::Tool), 12, 9, None);
    e.npc = Some(Npc { move_target: (12, 9), last_move: 100, move_wait: 200, move_stop: 2000 });
    assert!(!wants_target(e, ItemType::Nothing, 2100));
    assert!(wants_target(e, ItemType::Nothing, 2101));
    for seed in 0..40u64 {
        let mut rng = StdRng::seed_from_u64(seed);
        let mut entities = vec![e];
        walk_npcs(&mut entities, ItemType::Nothing, 2101, (20, 10), &mut rng);
        let target = entities[0].npc.unwrap().move_target;
        assert!(8 <= target.0 && target.0 < 12);
        assert!(4 <= target.1 && target.1 < 6);
        assert_eq!(entities[0].position, e.position);
    }
    let mut rng = StdRng::seed_from_u64(1);
    let mut entities = vec![e];
    walk_npcs(&mut entities, ItemType::Nothing, 2100, (20, 10), &mut rng);
    assert_eq!(entities[0].npc.unwrap().move_target, (12, 9));
}

#[test]
fn npc_targets_vary() {
    let store = farm_store();
    let mut e = entity(sprite(9, index_of(&store, "character-01"), SpriteType::Tool), 12, 9, None);
    e.npc = Some(Npc { move_target: (12, 9), last_move: 0, move_wait: 1, move_stop: 1 });
    let mut seen = Vec::new();
    for seed in 0..40u64 {
        let mut rng = StdRng::seed_from_u64(seed);
        let mut entities = vec![e];
        walk_npcs(&mut entities, ItemType::Nothing, 10, (80, 40), &mut rng);
        let target = entities[0].npc.unwrap().move_target;
        if !seen.contains(&target) {
            seen.push(target);
        }
    }
    assert!(seen.len() > 1);
}

fn grip(holding: ItemType, pos: (i64, i64), flip: bool, action_pressed: bool) -> Grip {
    Grip {
        holding,
        player_pos: pos,
        player_flip: flip,
        action_pressed,
        tool: Found { id: 0, dist: 100, item_type: ItemType::Nothing },
    }
}

#[test]
fn held_item_follows_the_player() {
    let store = farm_store();
    let tool = index_of(&store, "tool-shovel");
    let shovel = entity(sprite(2, tool, SpriteType::Tool), 50, 50, Some(ItemType::Shovel));
    let at = |e: Entity| (e.position.unwrap().x, e.position.unwrap().y);
    let held = track_one(shovel, grip(ItemType::Shovel, (20, 10), false, false));
    assert_eq!(at(held), (25, 10));
    assert_eq!(held.position.unwrap().z, 0);
    let used = track_one(shovel, grip(ItemType::Shovel, (20, 10), false, true));
    assert_eq!(at(used), (25, 11));
    let left = track_one(shovel, grip(ItemType::Shovel, (20, 10), true, false));
    assert_eq!(at(left), (17, 10));
    assert!(left.sprite.unwrap().flip);
    let can = entity(sprite(3, tool, SpriteType::Tool), 0, 0, Some(ItemType::Watercan));
    assert_eq!(at(track_one(can, grip(ItemType::Watercan, (20, 10), false, false))), (25, 11));
    let packet = entity(sprite(4, tool, SpriteType::Tool), 0, 0, Some(ItemType::Packet2));
    assert_eq!(at(track_one(packet, grip(ItemType::Packet2, (20, 10), false, true))), (25, 13));
    let friend = entity(sprite(5, tool, SpriteType::Tool), 0, 0, Some(ItemType::Npc));
    assert_eq!(at(track_one(friend, grip(ItemType::Npc, (20, 10), true, false))), (14, 7));
}

#[test]
fn held_item_stays_right_of_column_zero_and_under_the_ceiling() {
    let store = farm_store();
    let tool = index_of(&store, "tool-shovel");
    let shovel = entity(sprite(2, tool, SpriteType::Tool), 50, 50, Some(ItemType::Shovel));
    let held = track_one(shovel, grip(ItemType::Shovel, (1, -5), true, false));
    assert_eq!(held.position.unwrap().x, 0);
    assert_eq!(held.position.unwrap().y, -2);
    let far = track_one(shovel, grip(ItemType::Shovel, (i64::MAX, i64::MAX), false, true));
    assert_eq!(far.position.unwrap().x, i64::MAX);
    assert_eq!(far.position.unwrap().y, i64::MAX);
}

#[test]
fn released_item_keeps_its_place() {
    let store = farm_store();
    let tool = index_of(&store, "tool-shovel");
    let shovel = entity(sprite(2, tool, SpriteType::Tool), 25, 10, Some(ItemType::Shovel));
    let free = track_one(shovel, grip(ItemType::Nothing, (40, 30), false, false));
    assert_eq!(free.position, shovel.position);
    let other = track_one(shovel, grip(ItemType::Watercan, (40, 30), false, false));
    assert_eq!(other.position, shovel.position);
}

#[test]
fn nearest_tool_within_reach_is_marked() {
    let store = farm_store();
    let tool = index_of(&store, "tool-shovel");
    let shovel = entity(sprite(2, tool, SpriteType::Tool), 25, 10, Some(ItemType::Shovel));
    let mut g = grip(ItemType::Nothing, (20, 10), false, false);
    g.tool = Found { id: 2, dist: 3, item_type: ItemType::Shovel };
    assert!(track_one(shovel, g).sprite.unwrap().highlight);
    g.tool.dist = 4;
    assert!(!track_one(shovel, g).sprite.unwrap().highlight);
    g.tool = Found { id: 3, dist: 1, item_type: ItemType::Shovel };
    let mut marked = shovel;
    marked.sprite.as_mut().unwrap().highlight = true;
    assert!(!track_one(marked, g).sprite.unwrap().highlight);
}

#[test]
fn pickup_takes_and_releases_the_shovel() {
    let store = farm_store();
    let mut world = small_world(&store, (23, 11));
    tick(&mut world, &store, 10, InputState::Pickup);
    assert_eq!(world.game.holding, ItemType::Shovel);
    tick(&mut world, &store, 20, InputState::Idle);
    let shovel = world.entities[1].position.unwrap();
    assert_eq!((shovel.x, shovel.y), (25, 10));
    tick(&mut world, &store, 30, InputState::Pickup);
    assert_eq!(world.game.holding, ItemType::Nothing);
    tick(&mut world, &store, 40, InputState::Right);
    let shovel = world.entities[1].position.unwrap();
    assert_eq!((shovel.x, shovel.y), (25, 10));
}

#[test]
fn pickup_needs_a_tool_within_reach() {
    let store = farm_store();
    let mut world = small_world(&store, (60, 30));
    tick(&mut world, &store, 10, InputState::Pickup);
    assert_eq!(world.game.holding, ItemType::Nothing);
    assert!(!world.entities[1].sprite.unwrap().highlight);
    let mut near = small_world(&store, (23, 11));
    tick(&mut near, &store, 10, InputState::Idle);
    assert!(near.entities[1].sprite.unwrap().highlight);
}

#[test]
fn shovel_plants_then_digs() {
    let store = farm_store();
    let mut world = small_world(&store, (23, 11));
    world.game.holding = ItemType::Shovel;
    tick(&mut world, &store, 10, InputState::Action);
    assert_eq!(world.entities.len(), 4);
    let dirt = world.entities[2];
    assert_eq!(dirt.sprite.unwrap().sprite_type, SpriteType::Particle);
    assert_eq!(dirt.sprite.unwrap().store_index, index_of(&store, "particle-dirt"));
    assert_eq!(dirt.sprite.unwrap().id, 3);
    assert!(dirt.sprite.unwrap().animating);
    assert_eq!(dirt.position.unwrap(), Position { x: 24, y: 12, z: 500_003 });
    let crop = world.entities[3];
    assert_eq!(crop.sprite.unwrap().sprite_type, SpriteType::Crop);
    assert_eq!(crop.sprite.unwrap().store_index, index_of(&store, "crop-empty"));
    assert_eq!(crop.sprite.unwrap().id, 4);
    assert_eq!(crop.sprite.unwrap().frame, 0);
    assert_eq!(crop.position.unwrap(), Position { x: 24, y: 12, z: 100_004 });
    assert_eq!(crop.interactible.unwrap().item_type, ItemType::Crop);
    assert_eq!(world.indexer.0, 4);
    tick(&mut world, &store, 20, InputState::Action);
    assert_eq!(world.entities.len(), 5);
    assert!(world.entities[3].sprite.is_none());
    assert!(world.entities[3].position.is_none());
    assert!(world.entities[3].interactible.is_none());
    let again = world.entities[4];
    assert_eq!(again.sprite.unwrap().store_index, index_of(&store, "particle-dirt"));
    assert_eq!(again.sprite.unwrap().id, 5);
    assert_eq!(count_kind(&world, SpriteType::Crop), 0);
}

#[test]
fn shovel_works_to_the_left_of_a_player_who_faces_left() {
    let store = farm_store();
    let mut world = small_world(&store, (23, 11));
    world.game.holding = ItemType::Shovel;
    world.entities[0].sprite.as_mut().unwrap().flip = true;
    tick(&mut world, &store, 10, InputState::Action);
    assert_eq!(world.entities[3].position.unwrap(), Position { x: 15, y: 12, z: 100_004 });
}

#[test]
fn particles_go_when_their_animation_has_played() {
    let store = farm_store();
    let mut world = small_world(&store, (23, 11));
    world.game.holding = ItemType::Watercan;
    tick(&mut world, &store, 10, InputState::Action);
    assert_eq!(count_kind(&world, SpriteType::Particle), 1);
    assert_eq!(world.entities[2].sprite.unwrap().store_index, index_of(&store, "particle-water"));
    tick(&mut world, &store, 20, InputState::Idle);
    assert_eq!(count_kind(&world, SpriteType::Particle), 1);
    tick(&mut world, &store, 100, InputState::Idle);
    assert_eq!(count_kind(&world, SpriteType::Particle), 0);
    assert!(world.entities[2].sprite.is_none());
    assert!(world.entities[2].position.is_none());
}

fn crop_world(store: &SpriteStore, frame: usize) -> World {
    let mut world = small_world(store, (60, 30));
    let mut crop = sprite(3, index_of(store, "crop-empty"), SpriteType::Crop);
    crop.frame = frame;
    world.entities.push(entity(crop, 24, 12, Some(ItemType::Crop)));
    world.entities.push(entity(
        sprite(4, index_of(store, "cryopod"), SpriteType::Tool),
        21,
        10,
        Some(ItemType::Pod),
    ));
    world.indexer = SpriteIndexer(4);
    world
}

#[test]
fn watered_crop_grows_and_gives_way_to_grass() {
    let store = farm_store();
    let mut world = crop_world(&store, 0);
    world.game.holding = ItemType::Watercan;
    tick(&mut world, &store, 10, InputState::Action);
    assert_eq!(world.entities[2].sprite.unwrap().frame, 4);
    world.game.holding = ItemType::Nothing;
    for (night, frame) in [5usize, 6, 7].iter().enumerate() {
        tick(&mut world, &store, 20 + 10 * night as u64, InputState::Action);
        assert_eq!(world.entities[2].sprite.unwrap().frame, *frame);
        assert!(world.entities[2].position.is_some());
    }
    world.game.holding = ItemType::Nothing;
    let before = world.entities.len();
    let last = world.indexer.0;
    tick(&mut world, &store, 110, InputState::Action);
    assert!(world.entities[2].sprite.is_none());
    assert!(world.entities[2].position.is_none());
    assert!(world.entities[2].interactible.is_none());
    assert_eq!(world.entities.len(), before + 1);
    let grass = world.entities[before];
    assert_eq!(grass.sprite.unwrap().store_index, index_of(&store, "grass"));
    assert_eq!(grass.sprite.unwrap().sprite_type, SpriteType::Crop);
    assert_eq!(grass.sprite.unwrap().id, last + 1);
    assert!(grass.sprite.unwrap().animating);
    assert!(grass.sprite.unwrap().frame < 8);
    assert_eq!(grass.interactible.unwrap().item_type, ItemType::Grass);
    let at = grass.position.unwrap();
    assert_eq!((at.x, at.y, at.z), (24, 12, 100_000 + last as i64 + 1));
}

#[test]
fn water_does_not_reach_a_watered_or_a_distant_crop() {
    let store = farm_store();
    let mut world = crop_world(&store, 5);
    world.game.holding = ItemType::Watercan;
    tick(&mut world, &store, 10, InputState::Action);
    assert_eq!(world.entities[2].sprite.unwrap().frame, 5);
    let mut far = crop_world(&store, 0);
    far.entities[2].position = Some(Position { x: 40, y: 12, z: 0 });
    far.game.holding = ItemType::Watercan;
    tick(&mut far, &store, 10, InputState::Action);
    assert_eq!(far.entities[2].sprite.unwrap().frame, 0);
}

#[test]
fn seeds_turn_an_empty_crop_into_leaf_or_flower() {
    let store = farm_store();
    let mut world = crop_world(&store, 2);
    world.game.holding = ItemType::Packet;
    tick(&mut world, &store, 10, InputState::Action);
    let leaf = world.entities[2].sprite.unwrap();
    assert_eq!(leaf.store_index, index_of(&store, "crop-leaf"));
    assert_eq!(leaf.frame, 0);
    world.game.holding = ItemType::Packet2;
    tick(&mut world, &store, 20, InputState::Action);
    assert_eq!(world.entities[2].sprite.unwrap().store_index, index_of(&store, "crop-leaf"));
    let mut other = crop_world(&store, 1);
    other.game.holding = ItemType::Packet2;
    tick(&mut other, &store, 10, InputState::Action);
    assert_eq!(other.entities[2].sprite.unwrap().store_index, index_of(&store, "crop-flower"));
}

#[test]
fn action_is_resolved_by_what_is_held_and_what_is_near() {
    let near = Found { id: 7, dist: 1, item_type: ItemType::Crop };
    let far = Found { id: 7, dist: 2, item_type: ItemType::Crop };
    let scene = |tool: ItemType, crop: Found| Scene {
        player_pos: (0, 0),
        player_flip: false,
        tool: Found { id: 1, dist: 50, item_type: tool },
        crop,
    };
    let kind = |a: SpriteAction| (a.id, a.action);
    let act = |holding, tool, crop| {
        kind(resolve_action(holding, InputState::Action, scene(tool, crop)))
    };
    assert_eq!(act(ItemType::Nothing, ItemType::Pod, far), (0, SpriteActionCommand::Grow));
    assert_eq!(act(ItemType::Nothing, ItemType::Terminal, near), (0, SpriteActionCommand::Idle));
    assert_eq!(act(ItemType::Shovel, ItemType::Pod, near), (7, SpriteActionCommand::Delete));
    assert_eq!(act(ItemType::Shovel, ItemType::Pod, far), (0, SpriteActionCommand::Idle));
    assert_eq!(act(ItemType::Watercan, ItemType::Nothing, near), (7, SpriteActionCommand::Water));
    assert_eq!(act(ItemType::Packet, ItemType::Nothing, near), (7, SpriteActionCommand::Seed));
    assert_eq!(act(ItemType::Packet2, ItemType::Nothing, near), (7, SpriteActionCommand::Seed2));
    assert_eq!(act(ItemType::Npc, ItemType::Npc, near), (0, SpriteActionCommand::Idle));
    let other = resolve_action(ItemType::Shovel, InputState::Pickup, scene(ItemType::Pod, near));
    assert_eq!(kind(other), (0, SpriteActionCommand::Idle));
}

#[test]
fn heart_rises_over_the_player_near_the_other_character() {
    let store = farm_store();
    let mut world = small_world(&store, (60, 30));
    world.entities.push(entity(
        sprite(3, index_of(&store, "character-01"), SpriteType::Tool),
        22,
        10,
        Some(ItemType::Npc),
    ));
    world.indexer = SpriteIndexer(3);
    tick(&mut world, &store, 10, InputState::Action);
    let heart = world.entities[3];
    assert_eq!(heart.sprite.unwrap().store_index, index_of(&store, "particle-heart"));
    assert_eq!(heart.position.unwrap(), Position { x: 24, y: 10, z: 500_004 });
}

#[test]
fn steering_moves_turns_and_stays_in_the_field() {
    let store = farm_store();
    let hero = entity(sprite(1, index_of(&store, "character-00"), SpriteType::Player), 20, 10, None);
    let at = |e: Entity| (e.position.unwrap().x, e.position.unwrap().y);
    let size = (80u16, 40u16);
    assert_eq!(at(steer(hero, InputState::Right, 100, 51, size)), (21, 10));
    assert_eq!(at(steer(hero, InputState::Right, 100, 50, size)), (20, 10));
    assert!(steer(hero, InputState::Right, 100, 50, size).sprite.unwrap().animating);
    assert!(!steer(hero, InputState::Right, 100, 51, size).sprite.unwrap().flip);
    assert_eq!(at(steer(hero, InputState::Left, 100, 51, size)), (19, 10));
    assert!(steer(hero, InputState::Left, 100, 51, size).sprite.unwrap().flip);
    assert_eq!(at(steer(hero, InputState::ShiftLeft, 100, 51, size)), (18, 10));
    assert_eq!(at(steer(hero, InputState::ShiftRight, 100, 51, size)), (22, 10));
    assert_eq!(at(steer(hero, InputState::Up, 100, 51, size)), (20, 9));
    assert_eq!(at(steer(hero, InputState::Down, 100, 51, size)), (20, 11));
    assert_eq!(at(steer(hero, InputState::ShiftUp, 100, 51, size)), (20, 8));
    assert_eq!(at(steer(hero, InputState::ShiftDown, 100, 51, size)), (20, 12));
    assert_eq!(steer(hero, InputState::Down, 100, 51, size).sprite.unwrap().last_move, 51);
    assert_eq!(steer(hero, InputState::Down, 100, 51, size).position.unwrap().z, 0);
    let corner = entity(sprite(1, 0, SpriteType::Player), 1, -2, None);
    assert_eq!(at(steer(corner, InputState::ShiftLeft, 0, 1, size)), (0, -2));
    assert_eq!(at(steer(corner, InputState::Up, 0, 1, size)), (1, -2));
    let edge = entity(sprite(1, 0, SpriteType::Player), 69, 35, None);
    assert_eq!(at(steer(edge, InputState::ShiftRight, 0, 1, size)), (70, 35));
    assert_eq!(at(steer(edge, InputState::ShiftDown, 0, 1, size)), (69, 35));
    let lost = entity(sprite(1, 0, SpriteType::Player), i64::MAX, i64::MIN, None);
    assert_eq!(at(steer(lost, InputState::Right, 0, 1, size)), (70, -2));
}

#[test]
fn idle_player_stands_still_after_a_while() {
    let mut hero = entity(sprite(1, 0, SpriteType::Player), 20, 10, None);
    {
        let s = hero.sprite.as_mut().unwrap();
        s.animating = true;
        s.frame = 1;
        s.last_move = 100;
    }
    let soon = steer(hero, InputState::Idle, 100, 500, (80, 40));
    assert_eq!(soon.sprite, hero.sprite);
    let late = steer(hero, InputState::Idle, 100, 501, (80, 40));
    assert!(!late.sprite.unwrap().animating);
    assert_eq!(late.sprite.unwrap().frame, 0);
    assert_eq!(steer(hero, InputState::Quit, 100, 501, (80, 40)).sprite, hero.sprite);
}

#[test]
fn terminal_is_switched_on_and_marked_read() {
    let store = farm_store();
    let mut world = small_world(&store, (60, 30));
    world.entities.push(entity(
        sprite(3, index_of(&store, "terminal"), SpriteType::Tool),
        20,
        8,
        Some(ItemType::Terminal),
    ));
    world.indexer = SpriteIndexer(3);
    tick(&mut world, &store, 10, InputState::Action);
    assert!(world.game.show_terminal);
    assert!(!world.game.terminal_read);
    assert!(world.entities[2].sprite.unwrap().animating);
    tick(&mut world, &store, 20, InputState::Action);
    assert!(!world.game.show_terminal);
    assert!(world.game.terminal_read);
    assert!(!world.entities[2].sprite.unwrap().animating);
    tick(&mut world, &store, 30, InputState::Action);
    assert!(world.game.show_terminal);
    tick(&mut world, &store, 40, InputState::Left);
    assert!(!world.game.show_terminal);
}

#[test]
fn help_and_clear_follow_their_commands() {
    let store = farm_store();
    let mut world = small_world(&store, (60, 30));
    assert!(world.game.show_help);
    tick(&mut world, &store, 10, InputState::ToggleHelp);
    assert!(!world.game.show_help);
    tick(&mut world, &store, 20, InputState::ToggleHelp);
    assert!(world.game.show_help);
    tick(&mut world, &store, 30, InputState::Clear);
    assert!(world.game.clear_screen);
    tick(&mut world, &store, 40, InputState::Idle);
    assert!(!world.game.clear_screen);
    assert!(!world.game.show_transition);
}

fn sleep_once(world: &mut World, store: &SpriteStore, time: u64) {
    world.game.holding = ItemType::Nothing;
    tick(world, store, time, InputState::Action);
}

#[test]
fn story_moves_one_stage_at_a_time() {
    let store = farm_store();
    let mut world = crop_world(&store, 0);
    sleep_once(&mut world, &store, 10);
    assert_eq!(world.game.terminal_message_index, 0);
    assert!(world.game.show_transition);
    world.game.terminal_read = true;
    sleep_once(&mut world, &store, 20);
    assert_eq!(world.game.terminal_message_index, 1);
    assert!(!world.game.terminal_read);
    sleep_once(&mut world, &store, 30);
    assert_eq!(world.game.terminal_message_index, 1);
    world.entities[2].sprite.as_mut().unwrap().frame = 1;
    sleep_once(&mut world, &store, 40);
    assert_eq!(world.game.terminal_message_index, 2);
    sleep_once(&mut world, &store, 50);
    assert_eq!(world.game.terminal_message_index, 2);
    world.game.terminal_read = true;
    let before = world.entities.len();
    sleep_once(&mut world, &store, 60);
    assert_eq!(world.game.terminal_message_index, 3);
    assert_eq!(world.entities.len(), before + 1);
    let packet = world.entities[before];
    assert_eq!(packet.sprite.unwrap().store_index, index_of(&store, "tool-packet2"));
    assert_eq!(packet.sprite.unwrap().sprite_type, SpriteType::Tool);
    assert_eq!(packet.interactible.unwrap().item_type, ItemType::Packet2);
    assert!(packet.interactible.unwrap().hold_to_use);
    let id = packet.sprite.unwrap().id as i64;
    assert_eq!(packet.position.unwrap(), Position { x: 40, y: 20, z: 400_000 + id });
}

#[test]
fn story_asks_for_flowers_and_brings_the_other_character() {
    let store = farm_store();
    let mut world = crop_world(&store, 0);
    world.game.terminal_message_index = 3;
    world.game.terminal_read = true;
    sleep_once(&mut world, &store, 10);
    assert_eq!(world.game.terminal_message_index, 3);
    world.entities[2].sprite.as_mut().unwrap().store_index = index_of(&store, "crop-flower");
    sleep_once(&mut world, &store, 20);
    assert_eq!(world.game.terminal_message_index, 4);
    world.game.terminal_read = true;
    world.entities[2].sprite.as_mut().unwrap().frame = 1;
    sleep_once(&mut world, &store, 30);
    assert_eq!(world.game.terminal_message_index, 4);
    world.entities[2].sprite.as_mut().unwrap().frame = 2;
    sleep_once(&mut world, &store, 40);
    assert_eq!(world.game.terminal_message_index, 5);
    world.game.terminal_read = true;
    sleep_once(&mut world, &store, 50);
    assert_eq!(world.game.terminal_message_index, 6);
    world.game.terminal_read = true;
    sleep_once(&mut world, &store, 60);
    assert_eq!(world.game.terminal_message_index, 6);
    world.entities[2].sprite.as_mut().unwrap().frame = 3;
    sleep_once(&mut world, &store, 70);
    assert_eq!(world.game.terminal_message_index, 7);
    world.game.terminal_read = true;
    let before = world.entities.len();
    sleep_once(&mut world, &store, 80);
    assert_eq!(world.game.terminal_message_index, 8);
    let friend = world.entities[before];
    assert_eq!(friend.sprite.unwrap().store_index, index_of(&store, "character-01"));
    assert_eq!(friend.interactible.unwrap().item_type, ItemType::Npc);
    let id = friend.sprite.unwrap().id as i64;
    assert_eq!(friend.position.unwrap(), Position { x: 40, y: 0, z: 300_000 + id });
    assert_eq!(
        friend.npc.unwrap(),
        Npc { move_target: (40, 20), last_move: 80, move_wait: 200, move_stop: 2000 }
    );
    world.game.terminal_read = true;
    sleep_once(&mut world, &store, 90);
    assert_eq!(world.game.terminal_message_index, 9);
    world.game.terminal_read = true;
    sleep_once(&mut world, &store, 100);
    assert_eq!(world.game.terminal_message_index, 9);
}

#[test]
fn passed_stage_does_not_move_the_story_again() {
    let store = farm_store();
    let world = crop_world(&store, 3);
    let catalog = Catalog::resolve(&store).0;
    assert!(is_stage_passed(1, false, &world.entities, catalog));
    assert!(!is_stage_passed(3, false, &world.entities, catalog));
    assert!(!is_stage_passed(3, true, &world.entities, catalog));
    assert!(is_stage_passed(0, true, &world.entities, catalog));
    assert!(!is_stage_passed(0, false, &world.entities, catalog));
    assert!(!is_stage_passed(9, true, &world.entities, catalog));
    let mut at_three = crop_world(&store, 3);
    at_three.game.terminal_message_index = 3;
    sleep_once(&mut at_three, &store, 10);
    assert_eq!(at_three.game.terminal_message_index, 3);
}

#[test]
fn sleeping_rewinds_the_overlays() {
    let store = farm_store();
    let mut world = crop_world(&store, 0);
    let mut overlay = sprite(0, index_of(&store, "transition"), SpriteType::Overlay);
    overlay.frame = 2;
    world.entities.push(entity(overlay, 0, 0, None));
    sleep_once(&mut world, &store, 10);
    let after = world.entities[4].sprite.unwrap();
    assert_eq!(after.frame, 0);
    assert!(world.game.show_transition);
    tick(&mut world, &store, 20, InputState::Idle);
    assert!(!world.game.show_transition);
    assert!(world.entities[4].sprite.unwrap().animating);
}

#[test]
fn tick_fails_without_the_sheets_it_refers_to() {
    let store = SpriteStore::new(vec![sheet("character-00", 8, 8, &[100, 150])]).unwrap();
    let mut world = World::new(Game::new(messages()));
    world.entities.push(entity(sprite(1, 0, SpriteType::Player), 20, 10, None));
    world.indexer = SpriteIndexer(1);
    world.game.holding = ItemType::Shovel;
    let mut rng = StdRng::seed_from_u64(1);
    let dig = TickInput { time: 10, command: InputState::Action, size: (80, 40) };
    assert!(UpdateGameState.run(&mut world, &store, dig, &mut rng).is_err());
    assert_eq!(world.entities.len(), 1);
    assert_eq!(world.indexer.0, 1);
    assert_eq!(world.game.holding, ItemType::Shovel);
    assert!(!world.entities[0].sprite.unwrap().animating);
    let needs = world.needs(&store, dig);
    assert!(needs.particle_dirt && needs.crop_empty);
    assert!(!needs.particle_water && !needs.grass && !needs.crop_leaf);
    let go = TickInput { time: 60, command: InputState::Right, size: (80, 40) };
    assert!(UpdateGameState.run(&mut world, &store, go, &mut rng).is_ok());
    assert_eq!(world.entities[0].position.unwrap().x, 21);
    world.game.holding = ItemType::Nothing;
    assert!(UpdateGameState.run(&mut world, &store, dig, &mut rng).is_ok());
}

#[test]
fn action_is_applied_to_one_entity() {
    let store = farm_store();
    let catalog = Catalog::resolve(&store).0;
    let mut crop = sprite(3, catalog.crop_empty, SpriteType::Crop);
    crop.frame = 5;
    let e = entity(crop, 0, 0, Some(ItemType::Crop));
    let grow = SpriteAction { id: 0, action: SpriteActionCommand::Grow };
    assert_eq!(act_on(e, grow, false, catalog).sprite.unwrap().frame, 6);
    let water = SpriteAction { id: 3, action: SpriteActionCommand::Water };
    assert_eq!(act_on(e, water, false, catalog).sprite.unwrap().frame, 5);
    let other = SpriteAction { id: 4, action: SpriteActionCommand::Seed };
    assert_eq!(act_on(e, other, false, catalog).sprite, e.sprite);
    let delete = SpriteAction { id: 3, action: SpriteActionCommand::Delete };
    assert_eq!(act_on(e, delete, false, catalog).sprite, e.sprite);
}

#[test]
fn keys_give_commands() {
    let key = |k, m| command_for_key(true, k, m);
    assert_eq!(key(Key::Char('q'), Modifiers::Plain), InputState::Quit);
    assert_eq!(key(Key::Char('c'), Modifiers::Control), InputState::Quit);
    assert_eq!(key(Key::Char('c'), Modifiers::Plain), InputState::Idle);
    assert_eq!(key(Key::Left, Modifiers::Plain), InputState::Left);
    assert_eq!(key(Key::Char('h'), Modifiers::Plain), InputState::Left);
    assert_eq!(key(Key::Char('H'), Modifiers::Shift), InputState::ShiftLeft);
    assert_eq!(key(Key::Left, Modifiers::Shift), InputState::ShiftLeft);
    assert_eq!(key(Key::Left, Modifiers::Control), InputState::Left);
    assert_eq!(key(Key::Right, Modifiers::Shift), InputState::ShiftRight);
    assert_eq!(key(Key::Char('l'), Modifiers::Plain), InputState::Right);
    assert_eq!(key(Key::Down, Modifiers::Plain), InputState::Down);
    assert_eq!(key(Key::Char('J'), Modifiers::Shift), InputState::ShiftDown);
    assert_eq!(key(Key::Up, Modifiers::Mixed), InputState::Up);
    assert_eq!(key(Key::Char('k'), Modifiers::Shift), InputState::ShiftUp);
    assert_eq!(key(Key::Char('u'), Modifiers::Plain), InputState::Action);
    assert_eq!(key(Key::Char(' '), Modifiers::Plain), InputState::Pickup);
    assert_eq!(key(Key::Char('?'), Modifiers::Shift), InputState::ToggleHelp);
    assert_eq!(key(Key::Char('x'), Modifiers::Plain), InputState::Idle);
    assert_eq!(key(Key::Other, Modifiers::Plain), InputState::Idle);
    assert_eq!(command_for_key(false, Key::Char('q'), Modifiers::Plain), InputState::Idle);
    assert_eq!(Input::default().0, InputState::Idle);
}

#[test]
fn impulses_are_doubled_for_the_fast_commands() {
    assert_eq!(impulse(InputState::Left), (-1, 0));
    assert_eq!(impulse(InputState::ShiftLeft), (-2, 0));
    assert_eq!(impulse(InputState::Right), (1, 0));
    assert_eq!(impulse(InputState::ShiftRight), (2, 0));
    assert_eq!(impulse(InputState::Up), (0, -1));
    assert_eq!(impulse(InputState::ShiftUp), (0, -2));
    assert_eq!(impulse(InputState::Down), (0, 1));
    assert_eq!(impulse(InputState::ShiftDown), (0, 2));
    assert_eq!(impulse(InputState::Action), (0, 0));
}

#[test]
fn sums_stay_inside_their_types() {
    assert!(is_due(0, 100, 101));
    assert!(!is_due(0, 100, 100));
    assert!(!is_due(u64::MAX, u64::MAX, u64::MAX));
    assert!(!is_due(10, 0, 10));
    assert!(is_due(10, 0, 11));
    assert_eq!(shift(5, -7), -2);
    assert_eq!(shift(i64::MAX, 1), i64::MAX);
    assert_eq!(shift(i64::MIN, -1), i64::MIN);
    assert_eq!((Time(3) + Time(4)).0, 7);
}

#[test]
fn ids_and_depths() {
    let mut indexer = SpriteIndexer(0);
    assert_eq!(indexer.new_index(), 1);
    assert_eq!(indexer.new_index(), 2);
    assert_eq!(indexer.0, 2);
    let depths = SpriteDepths::standard();
    assert_eq!(depths.ground, 0);
    assert_eq!(depths.crops, 100_000);
    assert_eq!(depths.grass, 200_000);
    assert_eq!(depths.player, 300_000);
    assert_eq!(depths.tools, 400_000);
    assert_eq!(depths.overlay, 500_000);
    let s = Sprite::default();
    assert_eq!(s.id, 0);
    assert_eq!(s.sprite_type, SpriteType::Background);
    assert!(!s.animating && !s.flip && !s.highlight && !s.hidden && !s.delete);
}

#[test]
fn game_starts_with_help_and_transition() {
    let mut game = Game::new(messages());
    assert_eq!(game.holding, ItemType::Nothing);
    assert!(game.show_help);
    assert!(game.show_transition);
    assert!(!game.show_terminal);
    assert_eq!(game.terminal_message_index, 0);
    assert_eq!(game.terminal_messages.len(), 10);
    game.terminal_read = true;
    game.advance_terminal();
    assert_eq!(game.terminal_message_index, 1);
    assert!(!game.terminal_read);
}

#[test]
fn queued_changes_are_made_in_order() {
    let mut world = World::new(Game::new(messages()));
    world.entities.push(entity(sprite(1, 0, SpriteType::Particle), 1, 2, Some(ItemType::Crop)));
    world.entities.push(entity(sprite(2, 0, SpriteType::Crop), 3, 4, Some(ItemType::Crop)));
    let id = world.spawn(sprite(0, 5, SpriteType::Tool), (7, 8), 400_000, None, None);
    assert_eq!(id, 1);
    world.queue.push(Command::RemoveSprite(0));
    world.queue.push(Command::RemoveItem(1));
    world.queue.push(Command::RemoveItem(9));
    assert_eq!(world.entities.len(), 2);
    world.flush();
    assert!(world.queue.is_empty());
    assert_eq!(world.entities.len(), 3);
    assert!(world.entities[0].sprite.is_none());
    assert!(world.entities[0].position.is_none());
    assert!(world.entities[0].interactible.is_some());
    assert!(world.entities[1].sprite.is_none());
    assert!(world.entities[1].interactible.is_none());
    let made = world.entities[2];
    assert_eq!(made.sprite.unwrap().id, 1);
    assert_eq!(made.sprite.unwrap().store_index, 5);
    assert_eq!(made.position.unwrap(), Position { x: 7, y: 8, z: 400_001 });
}

#[test]
fn draw_of_zero_faces_left() {
    assert!(luna_farm::player::facing_for(0));
    assert!(!luna_farm::player::facing_for(1));
}

#[test]
fn tick_needs_only_the_sheets_it_uses() {
    let store = SpriteStore::new(vec![sheet("walker", 8, 8, &[100, 150])]).unwrap();
    let mut world = World::new(Game::new(messages()));
    let mut s = sprite(0, 0, SpriteType::Background);
    s.animating = true;
    world.entities.push(entity(s, 3, 3, None));
    let mut rng = StdRng::seed_from_u64(1);
    let mut run = |world: &mut World, time: u64| {
        let input = TickInput { time, command: InputState::Idle, size: (80, 40) };
        UpdateGameState.run(world, &store, input, &mut rng)
    };
    assert!(run(&mut world, 120).is_ok());
    let after = world.entities[0].sprite.unwrap();
    assert_eq!((after.frame, after.last_animate), (1, 120));
    assert!(run(&mut world, 260).is_ok());
    let after = world.entities[0].sprite.unwrap();
    assert_eq!((after.frame, after.last_animate), (1, 120));
    assert!(run(&mut world, 320).is_ok());
    let after = world.entities[0].sprite.unwrap();
    assert_eq!((after.frame, after.last_animate), (0, 320));
    assert!(after.animating);
}

#[test]
fn night_needs_grass_only_for_a_full_grown_crop() {
    let mut sheets = Vec::new();
    for name in ["character-00", "cryopod", "crop-empty"] {
        sheets.push(sheet(name, 8, 8, &[100; 8]));
    }
    let store = SpriteStore::new(sheets).unwrap();
    let mut world = World::new(Game::new(messages()));
    world.entities.push(entity(sprite(1, 0, SpriteType::Player), 20, 10, None));
    world.entities.push(entity(sprite(2, 1, SpriteType::Tool), 21, 10, Some(ItemType::Pod)));
    let mut crop = sprite(3, 2, SpriteType::Crop);
    crop.frame = 6;
    world.entities.push(entity(crop, 40, 20, Some(ItemType::Crop)));
    world.indexer = SpriteIndexer(3);
    let mut rng = StdRng::seed_from_u64(1);
    let night = TickInput { time: 10, command: InputState::Action, size: (80, 40) };
    assert!(!world.needs(&store, night).grass);
    assert!(UpdateGameState.run(&mut world, &store, night, &mut rng).is_ok());
    assert_eq!(world.entities[2].sprite.unwrap().frame, 7);
    assert!(world.needs(&store, night).grass);
    assert!(UpdateGameState.run(&mut world, &store, night, &mut rng).is_err());
    assert_eq!(world.entities[2].sprite.unwrap().frame, 7);
    assert_eq!(world.entities.len(), 3);
    world.game.terminal_message_index = 3;
    world.game.terminal_read = true;
    world.entities[2].sprite.as_mut().unwrap().frame = 0;
    assert!(world.needs(&store, night).crop_flower);
    assert!(UpdateGameState.run(&mut world, &store, night, &mut rng).is_err());
    world.game.terminal_read = false;
    assert!(!world.needs(&store, night).crop_flower);
    assert!(UpdateGameState.run(&mut world, &store, night, &mut rng).is_ok());
}

#[test]
fn walkers_need_room_only_for_a_new_target() {
    let store = farm_store();
    let mut world = small_world(&store, (60, 30));
    let mut e = entity(sprite(9, index_of(&store, "character-01"), SpriteType::Tool), 5, 5, None);
    e.npc = Some(Npc { move_target: (7, 5), last_move: 0, move_wait: 10, move_stop: 20 });
    world.entities.push(e);
    world.indexer = SpriteIndexer(9);
    let small = TickInput { time: 100, command: InputState::Idle, size: (10, 6) };
    assert!(world.has_room_for_walkers(&store, small));
    let mut rng = StdRng::seed_from_u64(1);
    UpdateGameState.run(&mut world, &store, small, &mut rng).unwrap();
    assert_eq!(world.entities[2].position.unwrap().x, 6);
    world.entities[2].npc.as_mut().unwrap().move_target = (6, 5);
    let later = TickInput { time: 200, command: InputState::Idle, size: (10, 6) };
    assert!(!world.has_room_for_walkers(&store, later));
    let roomy = TickInput { time: 200, command: InputState::Idle, size: (17, 9) };
    assert!(world.has_room_for_walkers(&store, roomy));
}

#[test]
fn sowing_needs_the_seeded_sheet_only_for_an_empty_crop() {
    let mut sheets = Vec::new();
    for name in ["character-00", "crop-empty", "crop-flower"] {
        sheets.push(sheet(name, 8, 8, &[100; 8]));
    }
    let store = SpriteStore::new(sheets).unwrap();
    let mut world = World::new(Game::new(messages()));
    world.entities.push(entity(sprite(1, 0, SpriteType::Player), 20, 10, None));
    world.entities.push(entity(sprite(3, 2, SpriteType::Crop), 24, 12, Some(ItemType::Crop)));
    world.indexer = SpriteIndexer(3);
    world.game.holding = ItemType::Packet;
    let mut rng = StdRng::seed_from_u64(1);
    let sow = TickInput { time: 10, command: InputState::Action, size: (80, 40) };
    let needs = world.needs(&store, sow);
    assert!(needs.crop_empty && !needs.crop_leaf && !needs.crop_flower);
    assert!(UpdateGameState.run(&mut world, &store, sow, &mut rng).is_ok());
    assert_eq!(world.entities[1].sprite.unwrap().store_index, 2);
    world.entities[1].sprite.as_mut().unwrap().store_index = 1;
    assert!(world.needs(&store, sow).crop_leaf);
    assert!(UpdateGameState.run(&mut world, &store, sow, &mut rng).is_err());
    assert_eq!(world.entities[1].sprite.unwrap().store_index, 1);
    world.game.holding = ItemType::Packet2;
    assert!(world.needs(&store, sow).crop_flower);
    assert!(UpdateGameState.run(&mut world, &store, sow, &mut rng).is_ok());
    assert_eq!(world.entities[1].sprite.unwrap().store_index, 2);
    assert_eq!(world.entities[1].sprite.unwrap().frame, 0);
}

#[test]
fn short_crop_sheet_does_not_fit_a_tick_that_plants() {
    let store = SpriteStore::new(vec![
        sheet("character-00", 8, 8, &[100, 150]),
        sheet("particle-dirt", 4, 4, &[50]),
        sheet("crop-empty", 8, 8, &[100; 4]),
    ])
    .unwrap();
    let mut world = World::new(Game::new(messages()));
    world.entities.push(entity(sprite(1, 0, SpriteType::Player), 20, 10, None));
    world.indexer = SpriteIndexer(1);
    world.game.holding = ItemType::Shovel;
    let dig = TickInput { time: 10, command: InputState::Action, size: (80, 40) };
    let idle = TickInput { time: 10, command: InputState::Idle, size: (80, 40) };
    assert!(!world.has_sheets_that_fit(&store, dig));
    assert!(world.has_sheets_that_fit(&store, idle));
    assert!(world.has_headroom());
}

#[test]
fn nearest_search_compares_distances_before_rounding() {
    let store = farm_store();
    let shovel = index_of(&store, "tool-shovel");
    let at = |id: usize, dx: i64, dy: i64, item: ItemType| {
        entity(sprite(id, shovel, SpriteType::Tool), 10 + dx - 2, 11 + dy - 1, Some(item))
    };
    let two = vec![at(1, 1, 1, ItemType::Shovel), at(2, 1, 0, ItemType::Watercan)];
    let found = nearest_of_type((10, 11), SpriteType::Tool, &store, &two);
    assert_eq!((found.id, found.dist, found.item_type), (2, 1, ItemType::Watercan));
    let three = vec![
        at(1, 1, 2, ItemType::Shovel),
        at(2, -2, 0, ItemType::Watercan),
        at(3, 0, 2, ItemType::Packet),
    ];
    let found = nearest_of_type((10, 11), SpriteType::Tool, &store, &three);
    assert_eq!((found.id, found.dist, found.item_type), (2, 2, ItemType::Watercan));
    let edge = vec![at(1, 99, 14, ItemType::Shovel), at(2, 99, 13, ItemType::Packet)];
    let found = nearest_of_type((10, 11), SpriteType::Tool, &store, &edge);
    assert_eq!((found.id, found.dist), (2, 99));
    let out = vec![at(1, 99, 15, ItemType::Shovel), at(2, 100, 0, ItemType::Packet)];
    let found = nearest_of_type((10, 11), SpriteType::Tool, &store, &out);
    assert_eq!((found.id, found.dist, found.item_type), (0, 100, ItemType::Nothing));
}
