use luna_farm::catalog::lookup;
use luna_farm::catalog::fits;
use luna_farm::catalog::Catalog;
use luna_farm::catalog::Stock;
use luna_farm::setup::Scenery;
use luna_farm::sprite::frames_inside;
use luna_farm::sprite::load_sprite;
use luna_farm::sprite::pixel_rows;
use luna_farm::sprite::sheet_name;
use luna_farm::sprite::Rgba;
use luna_farm::sprite::SheetSource;
use luna_farm::sprite::SpriteSheetJSON;
use luna_farm::sprite::SpriteSheetJSONFrame;
use luna_farm::sprite::SpriteSheetJSONMeta;
use luna_farm::sprite::SpriteStore;
use luna_farm::sprite::Xywh;
use luna_farm::sprite::WH;
use luna_farm::state::Game;
use luna_farm::state::ItemType;
use luna_farm::state::Position;
use luna_farm::state::SpriteType;
use luna_farm::input::InputState;
use luna_farm::input::TickInput;
use luna_farm::update::UpdateGameState;
use luna_farm::world::World;
use rand::rngs::StdRng;
use rand::SeedableRng;

fn frame(x: u32, y: u32, w: u32, h: u32) -> SpriteSheetJSONFrame {
    SpriteSheetJSONFrame {
        filename: String::new(),
        frame: Xywh { x, y, w, h },
        rotated: false,
        trimmed: false,
        sprite_source_size: Xywh { x: 0, y: 0, w, h },
        source_size: WH { w, h },
        duration: 100,
    }
}

fn source(image: &str, width: u32, height: u32, frames: Vec<SpriteSheetJSONFrame>) -> SheetSource {
    SheetSource {
        data: SpriteSheetJSON {
            frames,
            meta: SpriteSheetJSONMeta {
                app: String::new(),
                version: String::new(),
                image: String::from(image),
                format: String::new(),
                size: WH { w: width, h: height },
                scale: String::new(),
            },
        },
        width,
        height,
        pixels: (0..4 * width * height).map(|i| i as u8).collect(),
    }
}

fn sheet(name: &str, frames: u32) -> SheetSource {
    let list = (0..frames).map(|i| frame(i, 0, 1, 2)).collect();
    source(&format!("{}.png", name), frames, 2, list)
}

fn farm_store() -> SpriteStore {
    SpriteStore::new(vec![
        sheet("character-00", 2),
        sheet("character-01", 2),
        sheet("tile-dirt", 3),
        sheet("grass", 8),
        sheet("tool-shovel", 1),
        sheet("tool-watercan", 1),
        sheet("tool-packet", 1),
        sheet("tool-packet2", 1),
        sheet("crop-empty", 8),
        sheet("crop-leaf", 8),
        sheet("crop-flower", 8),
        sheet("cryopod", 2),
        sheet("terminal", 2),
        sheet("transition", 3),
        sheet("particle-dirt", 2),
        sheet("particle-water", 2),
        sheet("particle-heart", 2),
    ])
    .unwrap()
}

fn messages() -> Vec<String> {
    (0..10).map(|i| format!("message {}", i)).collect()
}

#[test]
fn name_of_a_sheet_is_the_stem_of_its_image() {
    assert_eq!(sheet_name("grass.png"), Some(String::from("grass")));
    assert_eq!(sheet_name("tool.packet.v2.png"), Some(String::from("tool.packet.v2")));
    assert_eq!(sheet_name(".png"), Some(String::new()));
    assert_eq!(sheet_name("png."), Some(String::from("png")));
    assert_eq!(sheet_name("gr\u{e4}s.png"), Some(String::from("gr\u{e4}s")));
    assert_eq!(sheet_name("grass"), None);
    assert_eq!(sheet_name(""), None);
}

#[test]
fn bytes_are_arranged_in_rows_of_pixels() {
    let bytes: Vec<u8> = (0..24).collect();
    let rows = pixel_rows(3, 2, &bytes).unwrap();
    assert_eq!(rows.len(), 2);
    assert_eq!(rows[0].len(), 3);
    assert_eq!(rows[0][0], Rgba { r: 0, g: 1, b: 2, a: 3 });
    assert_eq!(rows[0][2], Rgba { r: 8, g: 9, b: 10, a: 11 });
    assert_eq!(rows[1][0], Rgba { r: 12, g: 13, b: 14, a: 15 });
    assert_eq!(rows[1][2], Rgba { r: 20, g: 21, b: 22, a: 23 });
    assert!(pixel_rows(3, 2, &vec![0; 23]).is_none());
    assert!(pixel_rows(3, 2, &vec![0; 25]).is_none());
    assert!(pixel_rows(u32::MAX, u32::MAX, &bytes).is_none());
    assert_eq!(pixel_rows(0, 0, &Vec::new()).unwrap().len(), 0);
    assert_eq!(pixel_rows(0, 3, &Vec::new()).unwrap().len(), 3);
    assert_eq!(pixel_rows(3, 0, &Vec::new()).unwrap().len(), 0);
}

#[test]
fn frames_must_lie_inside_the_image() {
    assert!(frames_inside(&vec![frame(0, 0, 4, 2), frame(2, 1, 2, 1)], 4, 2));
    assert!(!frames_inside(&vec![frame(0, 0, 4, 2), frame(2, 1, 3, 1)], 4, 2));
    assert!(!frames_inside(&vec![frame(0, 1, 4, 2)], 4, 2));
    assert!(!frames_inside(&vec![frame(u32::MAX, 0, 1, 1)], 4, 2));
    assert!(!frames_inside(&vec![frame(0, u32::MAX, 1, 1)], 4, 2));
    assert!(frames_inside(&vec![frame(9, 2, 9, 0)], 4, 2));
    assert!(frames_inside(&Vec::new(), 0, 0));
}

#[test]
fn sheet_is_loaded_with_its_name_and_pixels() {
    let loaded = load_sprite(source("leaf.v1.png", 2, 2, vec![frame(1, 0, 1, 2)]), 4).unwrap();
    assert_eq!(loaded.name, "leaf.v1");
    assert_eq!(loaded.index, 4);
    assert_eq!(loaded.data.frames.len(), 1);
    assert_eq!(loaded.data.meta.image, "leaf.v1.png");
    assert_eq!(loaded.image.len(), 2);
    assert_eq!(loaded.image[1][1], Rgba { r: 12, g: 13, b: 14, a: 15 });
}

#[test]
fn sheet_that_cannot_be_loaded_is_refused() {
    assert!(load_sprite(source("leaf", 2, 2, vec![frame(0, 0, 1, 2)]), 0).is_err());
    let bare = load_sprite(source("leaf.png", 2, 2, Vec::new()), 0).unwrap();
    assert!(!bare.is_wf());
    let wide = load_sprite(source("leaf.png", 2, 2, vec![frame(0, 0, 3, 2)]), 3).unwrap();
    assert_eq!(wide.name, "leaf");
    assert_eq!(wide.index, 3);
    assert_eq!(wide.data.frames.len(), 1);
    assert!(!wide.is_wf());
    assert!(load_sprite(source("leaf.png", 2, 2, vec![frame(0, 0, 2, 2)]), 0).unwrap().is_wf());
    let mut short = source("leaf.png", 2, 2, vec![frame(0, 0, 1, 2)]);
    short.pixels.pop();
    assert!(load_sprite(short, 0).is_err());
    let bad = vec![sheet("grass", 8), source("leaf", 1, 2, vec![frame(0, 0, 1, 2)])];
    assert!(SpriteStore::new(bad).is_err());
}

#[test]
fn store_finds_sheets_by_position_and_by_name() {
    let store = SpriteStore::new(vec![sheet("a", 1), sheet("b", 2), sheet("a", 3)]).unwrap();
    assert_eq!(store.0.len(), 3);
    assert_eq!(store.by_index(1).unwrap().name, "b");
    assert_eq!(store.by_index(2).unwrap().index, 2);
    assert!(store.by_index(3).is_err());
    assert_eq!(store.by_name(String::from("a")).unwrap().data.frames.len(), 1);
    assert_eq!(store.by_name(String::from("b")).unwrap().index, 1);
    assert!(store.by_name(String::from("c")).is_err());
    assert_eq!(store.index_by_name("a").unwrap(), 0);
    assert_eq!(store.index_by_name("b").unwrap(), 1);
    assert!(store.index_by_name("").is_err());
    assert!(store.index_by_name("A").is_err());
    let empty = SpriteStore::new(Vec::new()).unwrap();
    assert!(empty.is_wf());
    assert!(store.is_wf());
    let odd = SpriteStore::new(vec![sheet("a", 1), source("b.png", 1, 2, Vec::new())]).unwrap();
    assert!(!odd.is_wf());
    assert!(empty.by_index(0).is_err());
    assert!(empty.index_by_name("a").is_err());
}

#[test]
fn lookup_asks_for_enough_frames() {
    let store = farm_store();
    assert_eq!(lookup(&store, "grass", 8).unwrap(), 3);
    assert!(lookup(&store, "grass", 9).is_err());
    assert!(lookup(&store, "moss", 1).is_err());
    let (catalog, stock) = Catalog::resolve(&store);
    assert!(stock.grass && stock.crop_empty && stock.character_01 && stock.particle_heart);
    assert_eq!(catalog.grass, 3);
    assert_eq!(catalog.crop_empty, 8);
    assert_eq!(catalog.crop_leaf, 9);
    assert_eq!(catalog.crop_flower, 10);
    assert_eq!(catalog.tool_packet2, 7);
    assert_eq!(catalog.character_01, 1);
    assert_eq!(catalog.particle_dirt, 14);
    assert_eq!(catalog.particle_water, 15);
    assert_eq!(catalog.particle_heart, 16);
    let scenery = Scenery::resolve(&store, (80, 40)).unwrap();
    assert_eq!(scenery.tile_dirt, 2);
    assert_eq!(scenery.transition, 13);
    assert_eq!(scenery.cryopod, 11);
    assert_eq!(scenery.terminal, 12);
    assert_eq!(scenery.character_00, 0);
    assert_eq!(scenery.tool_shovel, 4);
    assert_eq!(scenery.tool_packet, 6);
    assert_eq!(scenery.tool_watercan, 5);
    let thin = SpriteStore::new(vec![sheet("grass", 7)]).unwrap();
    let (none, short) = Catalog::resolve(&thin);
    assert!(short.grass && !short.crop_leaf && !short.tool_packet2);
    assert_eq!(none.grass, 0);
    assert_eq!(none.crop_leaf, 0);
    let nothing = Catalog::resolve(&SpriteStore::new(Vec::new()).unwrap()).1;
    assert!(!nothing.grass);
    assert!(short.has(nothing));
    assert!(!short.has(stock));
    assert!(stock.has(short));
    assert!(fits(&store, stock));
    assert!(!fits(&thin, short));
    assert!(fits(&thin, nothing));
    let leaf_only = Stock { grass: false, crop_leaf: true, ..short };
    assert!(fits(&thin, leaf_only));
    assert!(Scenery::resolve(&thin, (80, 40)).is_err());
}

#[test]
fn world_begins_with_ground_and_fixtures() {
    let store = farm_store();
    let mut rng = StdRng::seed_from_u64(11);
    let world = World::populate(&store, (80, 40), messages(), &mut rng).unwrap();
    let kind = |k: SpriteType| {
        world.entities.iter().filter(|e| e.sprite.unwrap().sprite_type == k).count()
    };
    assert_eq!(kind(SpriteType::Background), 100);
    assert_eq!(kind(SpriteType::Overlay), 25);
    assert_eq!(kind(SpriteType::Player), 1);
    assert_eq!(kind(SpriteType::Tool), 5);
    let grass = kind(SpriteType::Crop);
    assert!(grass > 0 && grass < 81);
    assert_eq!(world.entities.len(), 131 + grass);
    assert_eq!(world.indexer.0, grass + 6);
    assert!(world.queue.is_empty());
    assert_eq!(world.game.terminal_messages.len(), 10);
    assert_eq!(world.game.holding, ItemType::Nothing);
    let first = world.entities[0];
    assert_eq!(first.position.unwrap(), Position { x: 0, y: 0, z: 0 });
    assert_eq!(first.sprite.unwrap().store_index, 2);
    assert_eq!(first.sprite.unwrap().id, 0);
    let second = world.entities[1];
    assert_eq!(second.position.unwrap(), Position { x: 0, y: 0, z: 500_000 });
    assert_eq!(second.sprite.unwrap().store_index, 13);
    assert!(second.sprite.unwrap().animating);
    let fixed = &world.entities[world.entities.len() - 6..];
    let id = grass as i64;
    assert_eq!(fixed[0].position.unwrap(), Position { x: 1, y: 0, z: 300_000 - (id + 1) });
    assert_eq!(fixed[0].interactible.unwrap().item_type, ItemType::Pod);
    assert!(fixed[0].sprite.unwrap().animating);
    assert_eq!(fixed[1].position.unwrap(), Position { x: 11, y: 2, z: 300_000 - (id + 2) });
    assert_eq!(fixed[1].interactible.unwrap().item_type, ItemType::Terminal);
    assert!(fixed[1].sprite.unwrap().flip);
    assert_eq!(fixed[2].position.unwrap(), Position { x: 5, y: 18, z: 300_000 + id + 3 });
    assert_eq!(fixed[2].sprite.unwrap().sprite_type, SpriteType::Player);
    assert!(fixed[2].interactible.is_none());
    assert_eq!(fixed[3].position.unwrap(), Position { x: 2, y: 33, z: 400_000 + id + 4 });
    assert_eq!(fixed[3].interactible.unwrap().item_type, ItemType::Shovel);
    assert!(fixed[3].interactible.unwrap().hold_to_use);
    assert_eq!(fixed[4].position.unwrap(), Position { x: 8, y: 36, z: 400_000 + id + 5 });
    assert_eq!(fixed[4].interactible.unwrap().item_type, ItemType::Packet);
    assert_eq!(fixed[5].position.unwrap(), Position { x: 8, y: 32, z: 400_000 + id + 6 });
    assert_eq!(fixed[5].interactible.unwrap().item_type, ItemType::Watercan);
    assert_eq!(fixed[5].sprite.unwrap().id, grass + 6);
}

#[test]
fn grass_grows_inside_the_field_with_ids_in_order() {
    let store = farm_store();
    let mut rng = StdRng::seed_from_u64(3);
    let world = World::populate(&store, (83, 41), messages(), &mut rng).unwrap();
    let mut next = 1;
    let mut frames = Vec::new();
    for e in world.entities.iter() {
        let s = e.sprite.unwrap();
        let p = e.position.unwrap();
        if s.sprite_type == SpriteType::Tool {
            break;
        }
        assert_eq!(p.x % 8, 0);
        assert_eq!(p.y % 4, 0);
        match s.sprite_type {
            SpriteType::Crop => {
                assert_eq!(s.id, next);
                next += 1;
                assert_eq!(s.store_index, 3);
                assert!(s.frame < 8);
                assert!(s.animating);
                assert!(p.x < 83 - 8 && p.y < 41 - 4);
                assert_eq!(p.z, 200_000 + s.id as i64);
                assert_eq!(e.interactible.unwrap().item_type, ItemType::Grass);
                if !frames.contains(&s.frame) {
                    frames.push(s.frame);
                }
            }
            SpriteType::Background => {
                assert!(s.frame < 3);
                assert_eq!(s.id, 0);
                assert!(p.x < 83 && p.y < 41);
            }
            SpriteType::Overlay => {
                assert_eq!(p.x % 16, 0);
                assert_eq!(p.y % 8, 0);
            }
            _ => break,
        }
    }
    assert!(frames.len() > 1);
    let dirt = world.entities.iter().filter(|e| e.sprite.unwrap().store_index == 2).count();
    assert_eq!(dirt, 11 * 11);
}

#[test]
fn small_terminal_has_no_grass() {
    let store = farm_store();
    let mut rng = StdRng::seed_from_u64(3);
    let world = World::populate(&store, (8, 4), messages(), &mut rng).unwrap();
    assert_eq!(world.entities.len(), 8);
    assert_eq!(world.indexer.0, 6);
    let none = World::populate(&store, (0, 0), messages(), &mut rng).unwrap();
    assert_eq!(none.entities.len(), 6);
    assert_eq!(none.entities[2].position.unwrap(), Position { x: 5, y: -2, z: 300_003 });
}

#[test]
fn world_needs_its_sheets() {
    let store = SpriteStore::new(vec![sheet("grass", 8)]).unwrap();
    let mut rng = StdRng::seed_from_u64(3);
    assert!(World::populate(&store, (80, 40), messages(), &mut rng).is_err());
}

#[test]
fn first_world_can_be_played() {
    let store = farm_store();
    let mut rng = StdRng::seed_from_u64(5);
    let mut world = World::populate(&store, (80, 40), messages(), &mut rng).unwrap();
    let player = world.entities.len() - 4;
    let mut time = 0;
    for command in [InputState::Down, InputState::Right, InputState::Idle, InputState::Action] {
        for _ in 0..20 {
            time += 70;
            let input = TickInput { time, command, size: (80, 40) };
            UpdateGameState.run(&mut world, &store, input, &mut rng).unwrap();
        }
    }
    let at = world.entities[player].position.unwrap();
    assert_eq!((at.x, at.y), (25, 35));
    let players = world
        .entities
        .iter()
        .filter(|e| e.sprite.map_or(false, |s| s.sprite_type == SpriteType::Player))
        .count();
    assert_eq!(players, 1);
    assert_eq!(Game::new(messages()).terminal_message_index, world.game.terminal_message_index);
}

#[test]
fn world_without_tiles_needs_no_transition() {
    let names = [
        "tile-dirt",
        "grass",
        "cryopod",
        "terminal",
        "character-00",
        "tool-shovel",
        "tool-packet",
        "tool-watercan",
    ];
    let store = SpriteStore::new(names.iter().map(|n| sheet(n, 8)).collect()).unwrap();
    let mut rng = StdRng::seed_from_u64(3);
    let world = World::populate(&store, (0, 7), messages(), &mut rng).unwrap();
    assert_eq!(world.entities.len(), 6);
    assert!(Scenery::resolve(&store, (7, 0)).is_ok());
    assert!(Scenery::resolve(&store, (1, 1)).is_err());
    assert!(World::populate(&store, (80, 40), messages(), &mut rng).is_err());
}
