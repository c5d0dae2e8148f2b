use anathema::display::Color;
use anathema::display::Screen;
use anathema::display::ScreenPos;
use anathema::display::Style;
use luna_farm::render::insert_by_depth;
use luna_farm::render::render_bg_checkerboard;
use luna_farm::render::render_sprite_at_pos;
use luna_farm::render::render_text_at_pos;
use luna_farm::render::sorted_sprites;
use luna_farm::render::RenderBuffer;
use luna_farm::screen::grid_size;
use luna_farm::screen::takes_two_cells;
use luna_farm::sprite::load_sprite;
use luna_farm::sprite::LoadedSprite;
use luna_farm::sprite::SheetSource;
use luna_farm::sprite::SpriteSheetJSON;
use luna_farm::sprite::SpriteSheetJSONFrame;
use luna_farm::sprite::SpriteSheetJSONMeta;
use luna_farm::sprite::SpriteStore;
use luna_farm::sprite::Xywh;
use luna_farm::sprite::WH;
use luna_farm::state::Game;
use luna_farm::state::Position;
use luna_farm::state::Sprite;
use luna_farm::state::SpriteType;
use luna_farm::world::Entity;
use luna_farm::world::World;

const UPPER: char = '\u{2580}';
const LOWER: char = '\u{2584}';
const CLEAR: [u8; 4] = [0, 0, 0, 0];
const RED: [u8; 4] = [200, 0, 0, 255];
const GREEN: [u8; 4] = [0, 200, 0, 255];
const BLUE: [u8; 4] = [0, 0, 200, 255];
const BLACK: [u8; 4] = [0, 0, 0, 255];

fn rgb(p: [u8; 4]) -> Color {
    Color::Rgb { r: p[0], g: p[1], b: p[2] }
}

/// A sheet with one frame that covers its whole image, `w` pixels wide.
fn source(name: &str, w: u32, pixels: &[[u8; 4]]) -> SheetSource {
    let h = pixels.len() as u32 / w;
    SheetSource {
        data: SpriteSheetJSON {
            frames: vec![SpriteSheetJSONFrame {
                filename: String::from(name),
                frame: Xywh { x: 0, y: 0, w, h },
                rotated: false,
                trimmed: false,
                sprite_source_size: Xywh { x: 0, y: 0, w, h },
                source_size: WH { w, h },
                duration: 100,
            }],
            meta: SpriteSheetJSONMeta {
                app: String::new(),
                version: String::new(),
                image: format!("{}.png", name),
                format: String::new(),
                size: WH { w, h },
                scale: String::new(),
            },
        },
        width: w,
        height: h,
        pixels: pixels.iter().flat_map(|p| p.iter().copied()).collect(),
    }
}

fn loaded(w: u32, pixels: &[[u8; 4]]) -> LoadedSprite {
    load_sprite(source("test", w, pixels), 0).unwrap()
}

fn screen(w: u16, h: u16) -> Screen {
    Screen::new(Vec::<u8>::new(), (w, h)).unwrap()
}

fn cell(scr: &Screen, x: u16, y: u16) -> Option<(char, Color, Color)> {
    scr.get(ScreenPos::new(x, y)).map(|(c, style)| (c, style.fg.unwrap(), style.bg.unwrap()))
}

fn plain() -> Sprite {
    Sprite::default()
}

fn at(x: i64, y: i64) -> Position {
    Position { x, y, z: 0 }
}

#[test]
fn two_rows_of_pixels_fill_one_row_of_cells() {
    let info = loaded(2, &[RED, GREEN, BLUE, RED]);
    let mut scr = screen(4, 3);
    render_sprite_at_pos(&mut scr, &info, &plain(), &at(1, 1));
    assert_eq!(cell(&scr, 1, 1), Some((UPPER, rgb(RED), rgb(BLUE))));
    assert_eq!(cell(&scr, 2, 1), Some((UPPER, rgb(GREEN), rgb(RED))));
    assert_eq!(cell(&scr, 0, 1), None);
    assert_eq!(cell(&scr, 3, 1), None);
    assert_eq!(cell(&scr, 1, 0), None);
    assert_eq!(cell(&scr, 1, 2), None);
}

#[test]
fn four_rows_of_pixels_fill_two_rows_of_cells() {
    let info = loaded(1, &[RED, GREEN, BLUE, BLACK]);
    let mut scr = screen(2, 4);
    render_sprite_at_pos(&mut scr, &info, &plain(), &at(0, 1));
    assert_eq!(cell(&scr, 0, 0), None);
    assert_eq!(cell(&scr, 0, 1), Some((UPPER, rgb(RED), rgb(GREEN))));
    assert_eq!(cell(&scr, 0, 2), Some((UPPER, rgb(BLUE), rgb(BLACK))));
    assert_eq!(cell(&scr, 0, 3), None);
    assert_eq!(cell(&scr, 1, 1), None);
}

#[test]
fn flipped_sprite_is_drawn_from_right_to_left() {
    let info = loaded(3, &[RED, GREEN, BLUE, RED, GREEN, BLUE]);
    let mut scr = screen(3, 1);
    let mut sprite = plain();
    sprite.flip = true;
    render_sprite_at_pos(&mut scr, &info, &sprite, &at(0, 0));
    assert_eq!(cell(&scr, 0, 0), Some((UPPER, rgb(BLUE), rgb(BLUE))));
    assert_eq!(cell(&scr, 1, 0), Some((UPPER, rgb(GREEN), rgb(GREEN))));
    assert_eq!(cell(&scr, 2, 0), Some((UPPER, rgb(RED), rgb(RED))));
}

#[test]
fn transparent_pixels_leave_the_cell_as_it_is() {
    let info = loaded(2, &[CLEAR, CLEAR, CLEAR, CLEAR]);
    let mut scr = screen(3, 2);
    let mut style = Style::new();
    style.set_fg(Color::Rgb { r: 1, g: 2, b: 3 });
    style.set_bg(Color::Rgb { r: 4, g: 5, b: 6 });
    scr.put('x', style, ScreenPos::new(0, 0));
    scr.put(UPPER, style, ScreenPos::new(1, 0));
    render_sprite_at_pos(&mut scr, &info, &plain(), &at(0, 0));
    let marked = Sprite { highlight: true, ..plain() };
    render_sprite_at_pos(&mut scr, &info, &marked, &at(0, 0));
    assert_eq!(scr.get(ScreenPos::new(0, 0)), Some(('x', style)));
    assert_eq!(scr.get(ScreenPos::new(1, 0)), Some((UPPER, style)));
    assert_eq!(scr.get(ScreenPos::new(2, 0)), None);
    assert_eq!(scr.get(ScreenPos::new(0, 1)), None);
}

#[test]
fn transparent_half_shows_what_lies_under_it() {
    let under = loaded(1, &[RED, GREEN]);
    let top_only = loaded(1, &[BLUE, CLEAR]);
    let bottom_only = loaded(1, &[CLEAR, BLUE]);
    let mut scr = screen(2, 1);
    render_sprite_at_pos(&mut scr, &under, &plain(), &at(0, 0));
    render_sprite_at_pos(&mut scr, &top_only, &plain(), &at(0, 0));
    assert_eq!(cell(&scr, 0, 0), Some((UPPER, rgb(BLUE), rgb(GREEN))));
    render_sprite_at_pos(&mut scr, &under, &plain(), &at(1, 0));
    render_sprite_at_pos(&mut scr, &bottom_only, &plain(), &at(1, 0));
    assert_eq!(cell(&scr, 1, 0), Some((LOWER, rgb(BLUE), rgb(RED))));
    let bottom_red = loaded(1, &[CLEAR, RED]);
    render_sprite_at_pos(&mut scr, &top_only, &plain(), &at(1, 0));
    assert_eq!(cell(&scr, 1, 0), Some((UPPER, rgb(BLUE), rgb(BLUE))));
    render_sprite_at_pos(&mut scr, &bottom_red, &plain(), &at(1, 0));
    assert_eq!(cell(&scr, 1, 0), Some((LOWER, rgb(RED), rgb(BLUE))));
}

#[test]
fn empty_cell_has_black_under_it() {
    let top_only = loaded(1, &[BLUE, CLEAR]);
    let bottom_only = loaded(1, &[CLEAR, GREEN]);
    let mut scr = screen(2, 1);
    render_sprite_at_pos(&mut scr, &top_only, &plain(), &at(0, 0));
    render_sprite_at_pos(&mut scr, &bottom_only, &plain(), &at(1, 0));
    assert_eq!(cell(&scr, 0, 0), Some((UPPER, rgb(BLUE), rgb(BLACK))));
    assert_eq!(cell(&scr, 1, 0), Some((LOWER, rgb(GREEN), rgb(BLACK))));
}

#[test]
fn letters_have_the_pixels_own_colours_under_them() {
    let top_only = loaded(1, &[[9, 8, 7, 255], [6, 5, 4, 0]]);
    let bottom_only = loaded(1, &[[1, 2, 3, 0], [4, 5, 6, 255]]);
    let mut scr = screen(2, 1);
    scr.put('a', Style::reset(), ScreenPos::new(0, 0));
    scr.put('b', Style::reset(), ScreenPos::new(1, 0));
    render_sprite_at_pos(&mut scr, &top_only, &plain(), &at(0, 0));
    render_sprite_at_pos(&mut scr, &bottom_only, &plain(), &at(1, 0));
    assert_eq!(
        cell(&scr, 0, 0),
        Some((UPPER, Color::Rgb { r: 9, g: 8, b: 7 }, Color::Rgb { r: 6, g: 5, b: 4 }))
    );
    assert_eq!(
        cell(&scr, 1, 0),
        Some((LOWER, Color::Rgb { r: 4, g: 5, b: 6 }, Color::Rgb { r: 1, g: 2, b: 3 }))
    );
}

#[test]
fn colours_of_the_terminal_are_carried_through() {
    let top_only = loaded(1, &[BLUE, CLEAR]);
    let mut scr = screen(1, 1);
    let mut style = Style::new();
    style.set_fg(Color::Red);
    style.set_bg(Color::AnsiValue(17));
    scr.put(LOWER, style, ScreenPos::new(0, 0));
    render_sprite_at_pos(&mut scr, &top_only, &plain(), &at(0, 0));
    assert_eq!(cell(&scr, 0, 0), Some((UPPER, rgb(BLUE), Color::Red)));
}

#[test]
fn outline_of_a_marked_sprite_is_bright() {
    let info = loaded(2, &[BLACK, RED, BLACK, [0, 0, 0, 0]]);
    let cyan = Color::Rgb { r: 127, g: 255, b: 255 };
    let mut scr = screen(2, 1);
    let marked = Sprite { highlight: true, ..plain() };
    render_sprite_at_pos(&mut scr, &info, &marked, &at(0, 0));
    assert_eq!(cell(&scr, 0, 0), Some((UPPER, cyan, cyan)));
    assert_eq!(cell(&scr, 1, 0), Some((UPPER, rgb(RED), rgb(BLACK))));
    let mut dull = screen(2, 1);
    render_sprite_at_pos(&mut dull, &info, &plain(), &at(0, 0));
    assert_eq!(cell(&dull, 0, 0), Some((UPPER, rgb(BLACK), rgb(BLACK))));
}

#[test]
fn sprite_is_clipped_at_the_edges_of_the_screen() {
    let info = loaded(3, &[RED, GREEN, BLUE, RED, GREEN, BLUE, BLACK, RED, GREEN, BLACK, RED, GREEN]);
    let mut scr = screen(2, 2);
    render_sprite_at_pos(&mut scr, &info, &plain(), &at(-1, -1));
    assert_eq!(cell(&scr, 0, 0), Some((UPPER, rgb(RED), rgb(RED))));
    assert_eq!(cell(&scr, 1, 0), Some((UPPER, rgb(GREEN), rgb(GREEN))));
    assert_eq!(cell(&scr, 0, 1), None);
    let mut scr = screen(2, 2);
    render_sprite_at_pos(&mut scr, &info, &plain(), &at(1, 1));
    assert_eq!(cell(&scr, 1, 1), Some((UPPER, rgb(RED), rgb(RED))));
    assert_eq!(cell(&scr, 0, 1), None);
    assert_eq!(cell(&scr, 0, 0), None);
    assert_eq!(cell(&scr, 1, 0), None);
    let mut scr = screen(2, 2);
    for pos in [at(5, 0), at(0, 7), at(-3, 0), at(0, -2), at(i64::MAX, i64::MAX), at(i64::MIN, 0)] {
        render_sprite_at_pos(&mut scr, &info, &plain(), &pos);
    }
    render_sprite_at_pos(&mut scr, &info, &plain(), &at(65536, 0));
    render_sprite_at_pos(&mut scr, &info, &plain(), &at(0, 65536));
    for y in 0..2 {
        for x in 0..2 {
            assert_eq!(cell(&scr, x, y), None);
        }
    }
    let mut none = screen(0, 0);
    render_sprite_at_pos(&mut none, &info, &plain(), &at(0, 0));
}

#[test]
fn last_row_of_an_odd_frame_has_nothing_below_it() {
    let info = loaded(1, &[RED, GREEN, BLUE]);
    let mut scr = screen(1, 3);
    render_sprite_at_pos(&mut scr, &info, &plain(), &at(0, 0));
    assert_eq!(cell(&scr, 0, 0), Some((UPPER, rgb(RED), rgb(GREEN))));
    assert_eq!(cell(&scr, 0, 1), Some((UPPER, rgb(BLUE), rgb(BLACK))));
    assert_eq!(cell(&scr, 0, 2), None);
}

#[test]
fn half_blocks_take_one_cell() {
    let info = loaded(1, &[RED, GREEN]);
    let mut scr = screen(3, 1);
    scr.put('a', Style::reset(), ScreenPos::new(1, 0));
    render_sprite_at_pos(&mut scr, &info, &plain(), &at(0, 0));
    assert_eq!(scr.get(ScreenPos::new(1, 0)), Some(('a', Style::reset())));
    assert!(!takes_two_cells(UPPER));
    assert!(!takes_two_cells(LOWER));
    assert!(!takes_two_cells('a'));
    assert!(!takes_two_cells('\n'));
    assert!(!takes_two_cells('\u{e9}'));
    assert!(takes_two_cells('\u{4e16}'));
}

#[test]
fn size_of_a_screen() {
    assert_eq!(grid_size(&screen(5, 3)), Some((5, 3)));
    assert_eq!(grid_size(&screen(0, 0)), Some((0, 0)));
    assert_eq!(grid_size(&screen(65535, 1)), Some((65535, 1)));
    let wide = Screen::new(Vec::<u8>::new(), (65536usize, 1usize)).unwrap();
    assert_eq!(grid_size(&wide), None);
}

#[test]
fn screen_too_large_to_address_is_left_alone() {
    let info = loaded(1, &[RED, GREEN]);
    let mut wide = Screen::new(Vec::<u8>::new(), (65536usize, 1usize)).unwrap();
    wide.put('a', Style::reset(), ScreenPos::new(0, 0));
    render_sprite_at_pos(&mut wide, &info, &plain(), &at(0, 0));
    render_text_at_pos(&mut wide, "hello", 0, 0);
    render_bg_checkerboard(&mut wide);
    assert_eq!(wide.get(ScreenPos::new(0, 0)), Some(('a', Style::reset())));
    assert_eq!(wide.get(ScreenPos::new(1, 0)), None);
}

fn text_cell(c: char) -> Option<(char, Color, Color)> {
    Some((c, Color::Rgb { r: 255, g: 255, b: 255 }, Color::Rgb { r: 0, g: 0, b: 95 }))
}

#[test]
fn text_is_written_white_on_blue() {
    let mut scr = screen(6, 3);
    render_text_at_pos(&mut scr, "hi", 1, 1);
    assert_eq!(cell(&scr, 0, 1), None);
    assert_eq!(cell(&scr, 1, 1), text_cell('h'));
    assert_eq!(cell(&scr, 2, 1), text_cell('i'));
    assert_eq!(cell(&scr, 3, 1), None);
    assert_eq!(cell(&scr, 1, 0), None);
}

#[test]
fn line_feed_goes_back_to_the_first_column_of_the_text() {
    let mut scr = screen(6, 3);
    render_text_at_pos(&mut scr, "ab\ncd\n\ne", 2, 0);
    assert_eq!(cell(&scr, 2, 0), text_cell('a'));
    assert_eq!(cell(&scr, 3, 0), text_cell('b'));
    assert_eq!(cell(&scr, 2, 1), text_cell('c'));
    assert_eq!(cell(&scr, 3, 1), text_cell('d'));
    assert_eq!(cell(&scr, 0, 1), None);
    assert_eq!(cell(&scr, 2, 2), None);
}

#[test]
fn text_ends_at_the_last_column() {
    let mut scr = screen(4, 2);
    render_text_at_pos(&mut scr, "abcdef\ngh", 1, 0);
    assert_eq!(cell(&scr, 1, 0), text_cell('a'));
    assert_eq!(cell(&scr, 3, 0), text_cell('c'));
    assert_eq!(cell(&scr, 0, 1), None);
    assert_eq!(cell(&scr, 1, 1), None);
    let mut scr = screen(4, 2);
    render_text_at_pos(&mut scr, "ab", 4, 0);
    render_text_at_pos(&mut scr, "\nab", 9, 0);
    render_text_at_pos(&mut scr, "ab", 0, 2);
    render_text_at_pos(&mut scr, "ab", 0, 65535);
    for y in 0..2 {
        for x in 0..4 {
            assert_eq!(cell(&scr, x, y), None);
        }
    }
    let mut none = screen(0, 0);
    render_text_at_pos(&mut none, "ab", 0, 0);
}

#[test]
fn text_below_the_screen_is_not_written() {
    let mut scr = screen(3, 2);
    render_text_at_pos(&mut scr, "a\nb\nc\nd", 0, 0);
    assert_eq!(cell(&scr, 0, 0), text_cell('a'));
    assert_eq!(cell(&scr, 0, 1), text_cell('b'));
    assert_eq!(cell(&scr, 1, 0), None);
}

#[test]
fn wide_letter_takes_two_cells_or_ends_the_text() {
    let mut scr = screen(4, 2);
    render_text_at_pos(&mut scr, "\u{4e16}", 0, 0);
    assert_eq!(cell(&scr, 0, 0), text_cell('\u{4e16}'));
    assert_eq!(cell(&scr, 1, 0), None);
    render_text_at_pos(&mut scr, "a\u{4e16}b", 2, 1);
    assert_eq!(cell(&scr, 2, 1), text_cell('a'));
    assert_eq!(cell(&scr, 3, 1), None);
    assert_eq!(cell(&scr, 0, 1), None);
    let mut last = screen(2, 1);
    render_text_at_pos(&mut last, "a\u{4e16}", 0, 0);
    assert_eq!(cell(&last, 0, 0), text_cell('a'));
    assert_eq!(cell(&last, 1, 0), None);
    let mut over = screen(3, 1);
    render_text_at_pos(&mut over, "\u{4e16}b", 0, 0);
    assert_eq!(cell(&over, 0, 0), text_cell('\u{4e16}'));
    assert_eq!(cell(&over, 1, 0), text_cell('b'));
}

#[test]
fn checkerboard_takes_turns_along_each_row() {
    let mut scr = screen(3, 2);
    let mut style = Style::new();
    style.set_fg(Color::Red);
    style.set_bg(Color::Blue);
    scr.put('x', style, ScreenPos::new(1, 1));
    render_bg_checkerboard(&mut scr);
    let fg = Color::Rgb { r: 10, g: 20, b: 60 };
    assert_eq!(cell(&scr, 0, 0), Some((UPPER, fg, Color::Reset)));
    assert_eq!(cell(&scr, 1, 0), Some((LOWER, fg, Color::Reset)));
    assert_eq!(cell(&scr, 2, 0), Some((UPPER, fg, Color::Reset)));
    assert_eq!(cell(&scr, 0, 1), Some((UPPER, fg, Color::Reset)));
    assert_eq!(cell(&scr, 1, 1), Some((LOWER, fg, Color::Blue)));
    let info = loaded(1, &[RED, CLEAR]);
    render_sprite_at_pos(&mut scr, &info, &plain(), &at(0, 0));
    assert_eq!(cell(&scr, 0, 0), Some((UPPER, rgb(RED), Color::Reset)));
}

fn pair(x: i64, z: i64, id: usize) -> (Position, Sprite) {
    (Position { x, y: 0, z }, Sprite { id, ..Sprite::default() })
}

#[test]
fn sprites_are_sorted_by_depth_and_keep_their_order() {
    let mut list = Vec::new();
    for (z, id) in [(5, 1), (3, 2), (5, 3), (1, 4), (3, 5), (9, 6), (5, 7)] {
        insert_by_depth(&mut list, pair(0, z, id));
    }
    let ids: Vec<usize> = list.iter().map(|p| p.1.id).collect();
    assert_eq!(ids, vec![4, 2, 5, 1, 3, 7, 6]);
    let depths: Vec<i64> = list.iter().map(|p| p.0.z).collect();
    assert_eq!(depths, vec![1, 3, 3, 5, 5, 5, 9]);
}

fn visible(id: usize, store_index: usize, x: i64, y: i64, z: i64) -> Entity {
    Entity {
        position: Some(Position { x, y, z }),
        sprite: Some(Sprite { id, store_index, ..Sprite::default() }),
        interactible: None,
        npc: None,
    }
}

#[test]
fn only_what_has_sprite_and_position_is_drawn() {
    let mut no_sprite = visible(1, 0, 0, 0, 1);
    no_sprite.sprite = None;
    let mut no_position = visible(2, 0, 0, 0, 2);
    no_position.position = None;
    let entities = vec![visible(3, 0, 0, 0, 7), no_sprite, no_position, visible(4, 0, 0, 0, 7), visible(5, 0, 0, 0, -1)];
    let ids: Vec<usize> = sorted_sprites(&entities).iter().map(|p| p.1.id).collect();
    assert_eq!(ids, vec![5, 3, 4]);
}

fn colour_store() -> SpriteStore {
    SpriteStore::new(vec![
        source("red", 1, &[RED, RED]),
        source("green", 1, &[GREEN, GREEN]),
        source("blue", 1, &[BLUE, CLEAR]),
    ])
    .unwrap()
}

fn world_of(entities: Vec<Entity>) -> World {
    let messages = (0..10).map(|i| format!("m{}", i)).collect();
    let mut world = World::new(Game::new(messages));
    world.entities = entities;
    world.game.show_help = false;
    world
}

#[test]
fn deeper_sprites_are_drawn_over_shallower_ones() {
    let store = colour_store();
    let world = world_of(vec![
        visible(1, 0, 0, 0, 9),
        visible(2, 1, 0, 0, 3),
        visible(3, 1, 1, 0, 3),
        visible(4, 0, 1, 0, 3),
        visible(5, 2, 2, 0, 1),
        visible(6, 1, 2, 0, 0),
    ]);
    let mut buffer = RenderBuffer { screen: screen(4, 2) };
    buffer.run(&world, &store);
    assert_eq!(cell(&buffer.screen, 0, 0), Some((UPPER, rgb(RED), rgb(RED))));
    assert_eq!(cell(&buffer.screen, 1, 0), Some((UPPER, rgb(RED), rgb(RED))));
    assert_eq!(cell(&buffer.screen, 2, 0), Some((UPPER, rgb(BLUE), rgb(GREEN))));
    assert_eq!(cell(&buffer.screen, 3, 0), None);
}

#[test]
fn every_frame_starts_from_an_erased_screen() {
    let store = colour_store();
    let mut buffer = RenderBuffer { screen: screen(4, 2) };
    buffer.run(&world_of(vec![visible(1, 0, 0, 0, 0), visible(2, 1, 3, 1, 0)]), &store);
    assert_eq!(cell(&buffer.screen, 0, 0), Some((UPPER, rgb(RED), rgb(RED))));
    assert_eq!(cell(&buffer.screen, 3, 1), Some((UPPER, rgb(GREEN), rgb(GREEN))));
    let moved = world_of(vec![visible(1, 2, 1, 0, 0)]);
    buffer.run(&moved, &store);
    assert_eq!(cell(&buffer.screen, 0, 0), None);
    assert_eq!(cell(&buffer.screen, 3, 1), None);
    assert_eq!(cell(&buffer.screen, 1, 0), Some((UPPER, rgb(BLUE), rgb(BLACK))));
    let mut again = RenderBuffer { screen: screen(4, 2) };
    again.run(&moved, &store);
    for y in 0..2 {
        for x in 0..4 {
            assert_eq!(cell(&buffer.screen, x, y), cell(&again.screen, x, y));
        }
    }
}

#[test]
fn messages_are_written_over_the_sprites() {
    let store = colour_store();
    let mut world = world_of(vec![visible(1, 0, 1, 0, 0), visible(2, 1, 0, 2, 0)]);
    world.game.show_help = true;
    world.game.show_terminal = true;
    world.game.terminal_message_index = 2;
    let mut buffer = RenderBuffer { screen: screen(80, 3) };
    buffer.run(&world, &store);
    assert_eq!(cell(&buffer.screen, 0, 0), None);
    assert_eq!(cell(&buffer.screen, 1, 0), text_cell('m'));
    assert_eq!(cell(&buffer.screen, 2, 0), text_cell('2'));
    assert_eq!(cell(&buffer.screen, 3, 0), None);
    assert_eq!(cell(&buffer.screen, 0, 2), text_cell('a'));
    assert_eq!(cell(&buffer.screen, 1, 2), text_cell('r'));
    assert_eq!(cell(&buffer.screen, 67, 2), text_cell(' '));
    assert_eq!(cell(&buffer.screen, 68, 2), None);
    world.game.terminal_read = true;
    world.game.show_help = false;
    buffer.run(&world, &store);
    assert_eq!(cell(&buffer.screen, 1, 0), text_cell('N'));
    assert_eq!(cell(&buffer.screen, 16, 0), text_cell('.'));
    assert_eq!(cell(&buffer.screen, 17, 0), None);
    assert_eq!(cell(&buffer.screen, 0, 2), Some((UPPER, rgb(GREEN), rgb(GREEN))));
    world.game.show_terminal = false;
    buffer.run(&world, &store);
    assert_eq!(cell(&buffer.screen, 1, 0), Some((UPPER, rgb(RED), rgb(RED))));
    let mut none = RenderBuffer { screen: screen(0, 0) };
    world.game.show_help = true;
    none.run(&world, &store);
}

#[test]
fn sprite_shows_the_frame_it_is_on() {
    let mut two = source("two", 2, &[RED, GREEN, RED, GREEN]);
    two.data.frames[0].frame = Xywh { x: 0, y: 0, w: 1, h: 2 };
    two.data.frames.push(SpriteSheetJSONFrame {
        filename: String::from("second"),
        frame: Xywh { x: 1, y: 0, w: 1, h: 2 },
        rotated: false,
        trimmed: false,
        sprite_source_size: Xywh { x: 0, y: 0, w: 1, h: 2 },
        source_size: WH { w: 1, h: 2 },
        duration: 100,
    });
    let info = load_sprite(two, 0).unwrap();
    let mut scr = screen(2, 1);
    render_sprite_at_pos(&mut scr, &info, &plain(), &at(0, 0));
    let second = Sprite { frame: 1, sprite_type: SpriteType::Tool, ..plain() };
    render_sprite_at_pos(&mut scr, &info, &second, &at(1, 0));
    assert_eq!(cell(&scr, 0, 0), Some((UPPER, rgb(RED), rgb(RED))));
    assert_eq!(cell(&scr, 1, 0), Some((UPPER, rgb(GREEN), rgb(GREEN))));
}
