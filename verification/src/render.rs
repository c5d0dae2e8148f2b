//! The compositor: sprites are drawn onto the screen in the order of their
//! depth, two rows of pixels to a cell, and the messages on top of them.

use vstd::prelude::*;
use anathema::display::Color;
use anathema::display::Screen;
use crate::screen::Cell;
use crate::screen::LOWER_HALF;
use crate::screen::UPPER_HALF;
use crate::screen::addressable;
use crate::screen::blank_cell;
use crate::screen::cells_after_put;
use crate::screen::grid_size;
use crate::screen::is_grid;
use crate::screen::painted;
use crate::screen::screen_cells;
use crate::screen::screen_erase;
use crate::screen::screen_get;
use crate::screen::screen_height;
use crate::screen::screen_put;
use crate::screen::screen_width;
use crate::screen::takes_two_cells;
use crate::screen::two_cells;
use crate::sprite::LoadedSprite;
use crate::sprite::Rgba;
use crate::sprite::SpriteStore;
use crate::sprite::Xywh;
use crate::sprite::frame_fits;
use crate::state::Game;
use crate::state::Position;
use crate::state::Sprite;
use crate::world::Entity;
use crate::world::World;
use crate::world::all_ok;

verus! {

/// The compositor, with the screen that it draws on.
pub struct RenderBuffer {
    pub screen: Screen,
}

/// A pixel through which everything shows.
pub open spec fn clear_pixel() -> Rgba {
    Rgba { r: 0, g: 0, b: 0, a: 0 }
}

/// The colour in which a pixel is drawn. On a sprite that is marked, the
/// black of the outline, where it is not transparent, is a bright cyan.
pub open spec fn ink(p: Rgba, highlight: bool) -> Color {
    if highlight && p.r == 0 && p.g == 0 && p.b == 0 && p.a > 0 {
        Color::Rgb { r: 127, g: 255, b: 255 }
    } else {
        Color::Rgb { r: p.r, g: p.g, b: p.b }
    }
}

/// The colours that lie under the upper and the lower half of a cell. A
/// cell that shows a half block shows them itself. A cell that shows
/// nothing has black under it, and under any other character the pixels'
/// own colours are taken.
pub open spec fn underlay(cell: Cell, top: Rgba, bottom: Rgba) -> (Color, Color) {
    match cell.glyph {
        None => (Color::Rgb { r: 0, g: 0, b: 0 }, Color::Rgb { r: 0, g: 0, b: 0 }),
        Some(c) => if c == UPPER_HALF {
            (cell.fg, cell.bg)
        } else if c == LOWER_HALF {
            (cell.bg, cell.fg)
        } else {
            (
                Color::Rgb { r: top.r, g: top.g, b: top.b },
                Color::Rgb { r: bottom.r, g: bottom.g, b: bottom.b },
            )
        },
    }
}

/// A cell after a pair of pixels is laid over it. A pixel that is not
/// fully transparent covers its half of the cell; under a transparent half
/// the colour that lay there stays. If both are transparent the cell is
/// left as it is.
pub open spec fn blend(cell: Cell, top: Rgba, bottom: Rgba, highlight: bool) -> Cell {
    let under = underlay(cell, top, bottom);
    if top.a > 0 {
        Cell {
            glyph: Some(UPPER_HALF),
            fg: ink(top, highlight),
            bg: if bottom.a > 0 {
                ink(bottom, highlight)
            } else {
                under.1
            },
        }
    } else if bottom.a > 0 {
        Cell { glyph: Some(LOWER_HALF), fg: ink(bottom, highlight), bg: under.0 }
    } else {
        cell
    }
}

/// The column of the image from which column `col` of a frame is taken:
/// counted from the right edge of the frame when the sprite is flipped.
pub open spec fn source_column(f: Xywh, flip: bool, col: int) -> int {
    if flip {
        f.x + f.w - 1 - col
    } else {
        f.x + col
    }
}

/// The pixel at column `col` of row `row` of a frame. Below the last row
/// of the frame everything is transparent.
pub open spec fn frame_pixel(info: &LoadedSprite, f: Xywh, flip: bool, col: int, row: int) -> Rgba {
    if row < f.h {
        info.image@[f.y + row]@[source_column(f, flip, col)]
    } else {
        clear_pixel()
    }
}

/// Whether a sprite drawn at `pos` reaches the cell at column `x` of row
/// `y`: each column of the frame is one column of cells, each pair of rows
/// one row.
pub open spec fn covers(f: Xywh, pos: Position, x: int, y: int) -> bool {
    0 <= x - pos.x < f.w && 0 <= y - pos.y && 2 * (y - pos.y) < f.h
}

/// The frame that a sprite shows.
pub open spec fn frame_of(info: &LoadedSprite, sprite: Sprite) -> Xywh {
    info.data.frames@[sprite.frame as int].frame
}

/// The cell at column `x` of row `y` after a sprite is drawn.
pub open spec fn cell_after_sprite(
    cell: Cell,
    info: &LoadedSprite,
    sprite: Sprite,
    pos: Position,
    x: int,
    y: int,
) -> Cell {
    let f = frame_of(info, sprite);
    if covers(f, pos, x, y) {
        blend(
            cell,
            frame_pixel(info, f, sprite.flip, x - pos.x, 2 * (y - pos.y)),
            frame_pixel(info, f, sprite.flip, x - pos.x, 2 * (y - pos.y) + 1),
            sprite.highlight,
        )
    } else {
        cell
    }
}

/// The cells after a sprite is drawn over them. What lies outside the
/// screen is not drawn.
pub open spec fn cells_after_sprite(
    cells: Map<(int, int), Cell>,
    info: &LoadedSprite,
    sprite: Sprite,
    pos: Position,
) -> Map<(int, int), Cell> {
    Map::new(
        |k: (int, int)| cells.dom().contains(k),
        |k: (int, int)| cell_after_sprite(cells[k], info, sprite, pos, k.0, k.1),
    )
}

/// The cells while a sprite is being drawn: the cells before column `col`
/// of pair `pair` of its rows are drawn, the others not yet.
pub open spec fn cells_while_sprite(
    cells: Map<(int, int), Cell>,
    info: &LoadedSprite,
    sprite: Sprite,
    pos: Position,
    pair: int,
    col: int,
) -> Map<(int, int), Cell> {
    Map::new(
        |k: (int, int)| cells.dom().contains(k),
        |k: (int, int)|
            if k.1 - pos.y < pair || (k.1 - pos.y == pair && k.0 - pos.x < col) {
                cell_after_sprite(cells[k], info, sprite, pos, k.0, k.1)
            } else {
                cells[k]
            },
    )
}

fn ink_of(p: Rgba, highlight: bool) -> (colour: Color)
    ensures
        colour == ink(p, highlight),
{
    if highlight && p.r == 0 && p.g == 0 && p.b == 0 && p.a > 0 {
        Color::Rgb { r: 127, g: 255, b: 255 }
    } else {
        Color::Rgb { r: p.r, g: p.g, b: p.b }
    }
}

/// Lays a pair of pixels over a cell of the screen.
fn blend_cell(scr: &mut Screen, x: u16, y: u16, top: Rgba, bottom: Rgba, highlight: bool)
    requires
        is_grid(*old(scr)),
        x < screen_width(*old(scr)),
        y < screen_height(*old(scr)),
    ensures
        is_grid(*final(scr)),
        screen_width(*final(scr)) == screen_width(*old(scr)),
        screen_height(*final(scr)) == screen_height(*old(scr)),
        screen_cells(*final(scr)) == screen_cells(*old(scr)).insert(
            (x as int, y as int),
            blend(screen_cells(*old(scr))[(x as int, y as int)], top, bottom, highlight),
        ),
        top.a == 0 && bottom.a == 0 ==> screen_cells(*final(scr)) == screen_cells(*old(scr)),
{
    if top.a == 0 && bottom.a == 0 {
        assert(screen_cells(*scr).dom().contains((x as int, y as int)));
        assert(screen_cells(*scr) =~= screen_cells(*scr).insert(
            (x as int, y as int),
            screen_cells(*scr)[(x as int, y as int)],
        ));
        return ;
    }
    let black = Color::Rgb { r: 0, g: 0, b: 0 };
    let mut under: (Color, Color) = (black, black);
    match screen_get(scr, x, y) {
        Some((c, Some(fg), Some(bg))) => {
            if c == UPPER_HALF {
                under = (fg, bg);
            } else if c == LOWER_HALF {
                under = (bg, fg);
            } else {
                under = (
                    Color::Rgb { r: top.r, g: top.g, b: top.b },
                    Color::Rgb { r: bottom.r, g: bottom.g, b: bottom.b },
                );
            }
        },
        _ => {},
    }
    assert(screen_cells(*scr).dom().contains((x as int, y as int)));
    let ghost before = screen_cells(*scr);
    if top.a > 0 {
        let bg: Color = if bottom.a > 0 {
            ink_of(bottom, highlight)
        } else {
            under.1
        };
        screen_put(scr, UPPER_HALF, Some(ink_of(top, highlight)), Some(bg), x, y);
    } else {
        screen_put(scr, LOWER_HALF, Some(ink_of(bottom, highlight)), Some(under.0), x, y);
    }
    assert(screen_cells(*scr).dom() =~= before.dom());
}

/// Draws a sprite onto the screen, with the upper left corner of its
/// frame at `pos`. A screen whose positions cannot all be addressed is left
/// as it is.
pub fn render_sprite_at_pos(scr: &mut Screen, info: &LoadedSprite, sprite: &Sprite, pos: &Position)
    requires
        info.wf(),
        sprite.frame < info.frame_count(),
    ensures
        screen_width(*final(scr)) == screen_width(*old(scr)),
        screen_height(*final(scr)) == screen_height(*old(scr)),
        addressable(*old(scr)) ==> is_grid(*final(scr)) && screen_cells(*final(scr))
            == cells_after_sprite(screen_cells(*old(scr)), info, *sprite, *pos),
        !addressable(*old(scr)) ==> screen_cells(*final(scr)) == screen_cells(*old(scr)),
{
    let size: (u16, u16) = match grid_size(scr) {
        Some(size) => size,
        None => {
            return ;
        },
    };
    let ghost start = screen_cells(*scr);
    let f: Xywh = info.data.frames[sprite.frame].frame;
    assert(frame_fits(f, info.image_width() as int, info.image@.len() as int));
    let pairs: u32 = f.h / 2 + f.h % 2;
    let height: usize = info.image.len();
    let mut pair: u32 = 0;
    assert(screen_cells(*scr) =~= cells_while_sprite(start, info, *sprite, *pos, 0, 0));
    while pair < pairs
        invariant
            pair <= pairs,
            height == info.image@.len(),
            pairs == f.h / 2 + f.h % 2,
            info.wf(),
            f == frame_of(info, *sprite),
            frame_fits(f, info.image_width() as int, info.image@.len() as int),
            is_grid(*scr),
            start.dom() == screen_cells(*scr).dom(),
            size.0 == screen_width(*scr),
            size.1 == screen_height(*scr),
            screen_width(*scr) == screen_width(*old(scr)),
            screen_height(*scr) == screen_height(*old(scr)),
            screen_cells(*scr) == cells_while_sprite(start, info, *sprite, *pos, pair as int, 0),
        decreases pairs - pair,
    {
        let sy: i128 = pos.y as i128 + pair as i128;
        if sy >= 0 && sy < size.1 as i128 {
            let top_row: usize = f.y as usize + 2 * (pair as usize);
            let width: usize = info.image[top_row].len();
            let mut col: u32 = 0;
            while col < f.w
                invariant
                    col <= f.w,
                    height == info.image@.len(),
                    width == info.image_width(),
                    pair < pairs,
                    pairs == f.h / 2 + f.h % 2,
                    0 <= sy < size.1,
                    sy == pos.y + pair,
                    top_row == f.y + 2 * pair,
                    info.wf(),
                    f == frame_of(info, *sprite),
                    frame_fits(f, info.image_width() as int, info.image@.len() as int),
                    is_grid(*scr),
                    start.dom() == screen_cells(*scr).dom(),
                    size.0 == screen_width(*scr),
                    size.1 == screen_height(*scr),
                    screen_width(*scr) == screen_width(*old(scr)),
                    screen_height(*scr) == screen_height(*old(scr)),
                    screen_cells(*scr) == cells_while_sprite(
                        start,
                        info,
                        *sprite,
                        *pos,
                        pair as int,
                        col as int,
                    ),
                decreases f.w - col,
            {
                let sx: i128 = pos.x as i128 + col as i128;
                if sx >= 0 && sx < size.0 as i128 {
                    let from: usize = if sprite.flip {
                        f.x as usize + (f.w - 1 - col) as usize
                    } else {
                        f.x as usize + col as usize
                    };
                    assert(info.image@[top_row as int]@.len() == info.image_width());
                    let top: Rgba = info.image[top_row][from];
                    let bottom: Rgba = if 2 * pair + 1 < f.h {
                        assert(info.image@[top_row + 1]@.len() == info.image_width());
                        info.image[top_row + 1][from]
                    } else {
                        Rgba { r: 0, g: 0, b: 0, a: 0 }
                    };
                    blend_cell(scr, sx as u16, sy as u16, top, bottom, sprite.highlight);
                }
                assert(screen_cells(*scr) =~= cells_while_sprite(
                    start,
                    info,
                    *sprite,
                    *pos,
                    pair as int,
                    col + 1,
                ));
                col = col + 1;
            }
        }
        assert(screen_cells(*scr) =~= cells_while_sprite(start, info, *sprite, *pos, pair + 1, 0));
        pair = pair + 1;
    }
    assert(screen_cells(*scr) =~= cells_after_sprite(start, info, *sprite, *pos));
}

/// Drawing a pair of pixels that are both fully transparent leaves the
/// cell under them as it was, character and colours.
pub proof fn lemma_transparent_pixels_leave_cell(cell: Cell, top: Rgba, bottom: Rgba, highlight: bool)
    requires
        top.a == 0,
        bottom.a == 0,
    ensures
        blend(cell, top, bottom, highlight) == cell,
{
}

/// A sprite changes no cell that it does not reach, and none under which
/// both of its pixels are fully transparent.
pub proof fn lemma_sprite_leaves_rest(
    cells: Map<(int, int), Cell>,
    info: &LoadedSprite,
    sprite: Sprite,
    pos: Position,
    x: int,
    y: int,
)
    requires
        cells.dom().contains((x, y)),
    ensures
        !covers(frame_of(info, sprite), pos, x, y) ==> cells_after_sprite(cells, info, sprite, pos)[(
            x,
            y,
        )] == cells[(x, y)],
        ({
            let f = frame_of(info, sprite);
            frame_pixel(info, f, sprite.flip, x - pos.x, 2 * (y - pos.y)).a == 0 && frame_pixel(
                info,
                f,
                sprite.flip,
                x - pos.x,
                2 * (y - pos.y) + 1,
            ).a == 0 ==> cells_after_sprite(cells, info, sprite, pos)[(x, y)] == cells[(x, y)]
        }),
{
}

/// The colour of the letters of a message.
pub open spec fn text_fg() -> Color {
    Color::Rgb { r: 255, g: 255, b: 255 }
}

/// The colour behind the letters of a message.
pub open spec fn text_bg() -> Color {
    Color::Rgb { r: 0, g: 0, b: 95 }
}

/// The cells after a text is written over them, on a screen `w` columns
/// wide and `h` rows high, with the next character at column `x` of row
/// `y`.
///
/// A line feed moves to column `start_x` of the next row. Every other
/// character is written, if its row is on the screen, and the next one goes
/// one column to the right. The writing ends for good at the first
/// character that would begin, or end, beyond the last column.
pub open spec fn cells_after_text(
    cells: Map<(int, int), Cell>,
    w: int,
    h: int,
    text: Seq<char>,
    x: int,
    y: int,
    start_x: int,
) -> Map<(int, int), Cell>
    decreases text.len(),
{
    if text.len() == 0 || x >= w {
        cells
    } else if text[0] == '\n' {
        cells_after_text(cells, w, h, text.drop_first(), start_x, y + 1, start_x)
    } else if two_cells(text[0]) && x + 1 >= w {
        cells
    } else if y < h {
        cells_after_text(
            cells_after_put(cells, x, y, text[0], Some(text_fg()), Some(text_bg())),
            w,
            h,
            text.drop_first(),
            x + 1,
            y,
            start_x,
        )
    } else {
        cells_after_text(cells, w, h, text.drop_first(), x + 1, y, start_x)
    }
}

/// Below the last row of the screen nothing is written.
proof fn lemma_text_below(
    cells: Map<(int, int), Cell>,
    w: int,
    h: int,
    text: Seq<char>,
    x: int,
    y: int,
    start_x: int,
)
    requires
        y >= h,
    ensures
        cells_after_text(cells, w, h, text, x, y, start_x) == cells,
    decreases text.len(),
{
    if text.len() > 0 && x < w {
        if text[0] == '\n' {
            lemma_text_below(cells, w, h, text.drop_first(), start_x, y + 1, start_x);
        } else if !(two_cells(text[0]) && x + 1 >= w) {
            lemma_text_below(cells, w, h, text.drop_first(), x + 1, y, start_x);
        }
    }
}

/// Writes a text onto the screen, white on blue, from column `start_x` of
/// row `start_y`. A screen whose positions cannot all be addressed is left
/// as it is.
pub fn render_text_at_pos(scr: &mut Screen, text: &str, start_x: u16, start_y: u16)
    ensures
        screen_width(*final(scr)) == screen_width(*old(scr)),
        screen_height(*final(scr)) == screen_height(*old(scr)),
        addressable(*old(scr)) ==> is_grid(*final(scr)) && screen_cells(*final(scr))
            == cells_after_text(
            screen_cells(*old(scr)),
            screen_width(*old(scr)) as int,
            screen_height(*old(scr)) as int,
            text@,
            start_x as int,
            start_y as int,
            start_x as int,
        ),
        !addressable(*old(scr)) ==> screen_cells(*final(scr)) == screen_cells(*old(scr)),
{
    let size: (u16, u16) = match grid_size(scr) {
        Some(size) => size,
        None => {
            return ;
        },
    };
    let ghost start = screen_cells(*scr);
    let ghost w = size.0 as int;
    let ghost h = size.1 as int;
    let ghost goal = cells_after_text(
        start,
        w,
        h,
        text@,
        start_x as int,
        start_y as int,
        start_x as int,
    );
    let white = Color::Rgb { r: 255, g: 255, b: 255 };
    let blue = Color::Rgb { r: 0, g: 0, b: 95 };
    let mut x: u16 = start_x;
    let mut y: u16 = start_y;
    let mut done: bool = false;
    if y >= size.1 {
        proof {
            lemma_text_below(start, w, h, text@, start_x as int, start_y as int, start_x as int);
        }
        done = true;
    }
    assert(text@.skip(0) =~= text@);
    for c in it: text.chars()
        invariant
            it.seq() == text@,
            is_grid(*scr),
            w == size.0 == screen_width(*scr),
            h == size.1 == screen_height(*scr),
            screen_width(*scr) == screen_width(*old(scr)),
            screen_height(*scr) == screen_height(*old(scr)),
            white == text_fg(),
            blue == text_bg(),
            !done ==> y < size.1,
            goal == (if done {
                screen_cells(*scr)
            } else {
                cells_after_text(
                    screen_cells(*scr),
                    w,
                    h,
                    text@.skip(it.index() as int),
                    x as int,
                    y as int,
                    start_x as int,
                )
            }),
    {
        let ghost rest = text@.skip(it.index() as int);
        proof {
            assert(rest.len() > 0);
            assert(rest[0] == c);
            assert(rest.drop_first() =~= text@.skip(it.index() + 1));
        }
        if !done {
            if x >= size.0 {
                done = true;
            } else if c == '\n' {
                x = start_x;
                if y + 1 >= size.1 {
                    proof {
                        lemma_text_below(
                            screen_cells(*scr),
                            w,
                            h,
                            rest.drop_first(),
                            start_x as int,
                            y + 1,
                            start_x as int,
                        );
                    }
                    done = true;
                } else {
                    y = y + 1;
                }
            } else if takes_two_cells(c) && x + 1 >= size.0 {
                done = true;
            } else {
                let ghost before = screen_cells(*scr);
                screen_put(scr, c, Some(white), Some(blue), x, y);
                assert(screen_cells(*scr).dom() =~= before.dom());
                x = x + 1;
            }
        }
    }
    assert(text@.skip(text@.len() as int) =~= Seq::<char>::empty());
}

/// The colour of the checkerboard.
pub open spec fn checker_fg() -> Color {
    Color::Rgb { r: 10, g: 20, b: 60 }
}

/// A cell of the checkerboard: upper and lower half blocks take turns
/// along each row, and the cell keeps its background.
pub open spec fn checker_cell(cell: Cell, x: int) -> Cell {
    painted(
        cell,
        Some(
            if x % 2 == 0 {
                UPPER_HALF
            } else {
                LOWER_HALF
            },
        ),
        Some(checker_fg()),
        None,
    )
}

/// The cells while the checkerboard is drawn: those before column `col` of
/// row `row` are done.
pub open spec fn cells_while_checker(cells: Map<(int, int), Cell>, row: int, col: int) -> Map<
    (int, int),
    Cell,
> {
    Map::new(
        |k: (int, int)| cells.dom().contains(k),
        |k: (int, int)|
            if k.1 < row || (k.1 == row && k.0 < col) {
                checker_cell(cells[k], k.0)
            } else {
                cells[k]
            },
    )
}

/// The cells with a checkerboard of half blocks over all of them.
pub open spec fn checkered(cells: Map<(int, int), Cell>) -> Map<(int, int), Cell> {
    Map::new(|k: (int, int)| cells.dom().contains(k), |k: (int, int)| checker_cell(cells[k], k.0))
}

/// Fills the screen with a checkerboard of half blocks. A screen whose
/// positions cannot all be addressed is left as it is.
pub fn render_bg_checkerboard(scr: &mut Screen)
    ensures
        screen_width(*final(scr)) == screen_width(*old(scr)),
        screen_height(*final(scr)) == screen_height(*old(scr)),
        addressable(*old(scr)) ==> is_grid(*final(scr)) && screen_cells(*final(scr)) == checkered(
            screen_cells(*old(scr)),
        ),
        !addressable(*old(scr)) ==> screen_cells(*final(scr)) == screen_cells(*old(scr)),
{
    let size: (u16, u16) = match grid_size(scr) {
        Some(size) => size,
        None => {
            return ;
        },
    };
    let ghost start = screen_cells(*scr);
    let fg = Color::Rgb { r: 10, g: 20, b: 60 };
    let mut y: u16 = 0;
    assert(screen_cells(*scr) =~= cells_while_checker(start, 0, 0));
    while y < size.1
        invariant
            y <= size.1,
            fg == checker_fg(),
            is_grid(*scr),
            start.dom() == screen_cells(*scr).dom(),
            size.0 == screen_width(*scr),
            size.1 == screen_height(*scr),
            screen_width(*scr) == screen_width(*old(scr)),
            screen_height(*scr) == screen_height(*old(scr)),
            screen_cells(*scr) == cells_while_checker(start, y as int, 0),
        decreases size.1 - y,
    {
        let mut upper: bool = true;
        let mut x: u16 = 0;
        while x < size.0
            invariant
                x <= size.0,
                y < size.1,
                upper == (x % 2 == 0),
                fg == checker_fg(),
                is_grid(*scr),
                start.dom() == screen_cells(*scr).dom(),
                size.0 == screen_width(*scr),
                size.1 == screen_height(*scr),
                screen_width(*scr) == screen_width(*old(scr)),
                screen_height(*scr) == screen_height(*old(scr)),
                screen_cells(*scr) == cells_while_checker(start, y as int, x as int),
            decreases size.0 - x,
        {
            let glyph: char = if upper {
                UPPER_HALF
            } else {
                LOWER_HALF
            };
            let ghost before = screen_cells(*scr);
            screen_put(scr, glyph, Some(fg), None, x, y);
            assert(screen_cells(*scr).dom() =~= before.dom());
            assert(screen_cells(*scr) =~= cells_while_checker(start, y as int, x + 1));
            upper = !upper;
            x = x + 1;
        }
        assert(screen_cells(*scr) =~= cells_while_checker(start, y + 1, 0));
        y = y + 1;
    }
    assert(screen_cells(*scr) =~= checkered(start));
}

/// What is drawn of a table: position and sprite of every entity that has
/// both, in the order of the table.
pub open spec fn drawn(entities: Seq<Entity>) -> Seq<(Position, Sprite)>
    decreases entities.len(),
{
    if entities.len() == 0 {
        seq![]
    } else if entities.last().visible() {
        drawn(entities.drop_last()).push((entities.last().position->0, entities.last().sprite->0))
    } else {
        drawn(entities.drop_last())
    }
}

/// A list in the order of depth with one more sprite in its place: behind
/// every sprite that is not deeper than itself.
pub open spec fn placed(list: Seq<(Position, Sprite)>, item: (Position, Sprite)) -> Seq<
    (Position, Sprite),
>
    decreases list.len(),
{
    if list.len() == 0 {
        seq![item]
    } else if list.last().0.z <= item.0.z {
        list.push(item)
    } else {
        placed(list.drop_last(), item).push(list.last())
    }
}

/// The sprites in the order in which they are drawn: by depth, the
/// shallowest first, and those of one depth in the order of the list.
pub open spec fn draw_order(list: Seq<(Position, Sprite)>) -> Seq<(Position, Sprite)>
    decreases list.len(),
{
    if list.len() == 0 {
        seq![]
    } else {
        placed(draw_order(list.drop_last()), list.last())
    }
}

/// Every sprite of the list can be drawn: it names a sheet of the store
/// and one of its frames.
pub open spec fn drawable(list: Seq<(Position, Sprite)>, store: &SpriteStore) -> bool {
    forall|i: int|
        0 <= i < list.len() ==> (#[trigger] list[i]).1.store_index < store.0@.len() && list[i].1.frame
            < store.0@[list[i].1.store_index as int].frame_count()
}

/// The cells after the sprites of a list are drawn over them, one after
/// the other.
pub open spec fn cells_after_sprites(
    cells: Map<(int, int), Cell>,
    list: Seq<(Position, Sprite)>,
    store: &SpriteStore,
) -> Map<(int, int), Cell>
    decreases list.len(),
{
    if list.len() == 0 {
        cells
    } else {
        cells_after_sprite(
            cells_after_sprites(cells, list.drop_last(), store),
            &store.0@[list.last().1.store_index as int],
            list.last().1,
            list.last().0,
        )
    }
}

proof fn lemma_placed_at(list: Seq<(Position, Sprite)>, item: (Position, Sprite), j: int)
    requires
        0 <= j <= list.len(),
        forall|k: int| j <= k < list.len() ==> (#[trigger] list[k]).0.z > item.0.z,
        j > 0 ==> list[j - 1].0.z <= item.0.z,
    ensures
        placed(list, item) == list.insert(j, item),
    decreases list.len(),
{
    if list.len() == 0 {
        assert(list.insert(j, item) =~= seq![item]);
    } else if j == list.len() {
        assert(list.insert(j, item) =~= list.push(item));
    } else {
        assert(list[list.len() - 1].0.z > item.0.z);
        lemma_placed_at(list.drop_last(), item, j);
        assert(list.insert(j, item) =~= list.drop_last().insert(j, item).push(list.last()));
    }
}

/// Puts a sprite in its place in a list that is in the order of depth.
pub fn insert_by_depth(list: &mut Vec<(Position, Sprite)>, item: (Position, Sprite))
    ensures
        final(list)@ == placed(old(list)@, item),
{
    let mut j: usize = list.len();
    while j > 0 && list[j - 1].0.z > item.0.z
        invariant
            j <= list@.len(),
            list@ == old(list)@,
            forall|k: int| j <= k < list@.len() ==> (#[trigger] list@[k]).0.z > item.0.z,
        decreases j,
    {
        j = j - 1;
    }
    proof {
        lemma_placed_at(list@, item, j as int);
    }
    list.insert(j, item);
}

/// Lists what is drawn of a table, in the order in which it is drawn.
pub fn sorted_sprites(entities: &Vec<Entity>) -> (list: Vec<(Position, Sprite)>)
    ensures
        list@ == draw_order(drawn(entities@)),
{
    let mut list: Vec<(Position, Sprite)> = Vec::new();
    let mut i: usize = 0;
    assert(entities@.subrange(0, 0) =~= Seq::<Entity>::empty());
    while i < entities.len()
        invariant
            i <= entities@.len(),
            list@ == draw_order(drawn(entities@.subrange(0, i as int))),
        decreases entities@.len() - i,
    {
        let e: Entity = entities[i];
        proof {
            let upto = entities@.subrange(0, i + 1);
            assert(upto.drop_last() =~= entities@.subrange(0, i as int));
            assert(upto.last() == e);
            if e.visible() {
                let pairs = drawn(upto);
                assert(pairs.drop_last() =~= drawn(upto.drop_last()));
            }
        }
        match (e.position, e.sprite) {
            (Some(pos), Some(sprite)) => {
                insert_by_depth(&mut list, (pos, sprite));
            },
            _ => {},
        }
        i = i + 1;
    }
    assert(entities@.subrange(0, i as int) =~= entities@);
    list
}

/// The sprites come out in the order of their depth, the shallowest first.
pub proof fn lemma_draw_order_sorted(list: Seq<(Position, Sprite)>)
    ensures
        draw_order(list).len() == list.len(),
        forall|a: int, b: int|
            0 <= a <= b < draw_order(list).len() ==> (#[trigger] draw_order(list)[a]).0.z <= (
            #[trigger] draw_order(list)[b]).0.z,
    decreases list.len(),
{
    if list.len() > 0 {
        lemma_draw_order_sorted(list.drop_last());
        lemma_placed_sorted(draw_order(list.drop_last()), list.last());
    }
}

/// The sprites of a list that lie at one depth, in the order of the list.
pub open spec fn at_depth(list: Seq<(Position, Sprite)>, z: i64) -> Seq<(Position, Sprite)>
    decreases list.len(),
{
    if list.len() == 0 {
        seq![]
    } else if list.last().0.z == z {
        at_depth(list.drop_last(), z).push(list.last())
    } else {
        at_depth(list.drop_last(), z)
    }
}

/// Sprites of one depth are drawn in the order in which the list holds
/// them: sorting moves no sprite past another of its own depth, loses none
/// and adds none.
pub proof fn lemma_draw_order_keeps_ties(list: Seq<(Position, Sprite)>, z: i64)
    ensures
        at_depth(draw_order(list), z) == at_depth(list, z),
    decreases list.len(),
{
    if list.len() > 0 {
        lemma_draw_order_keeps_ties(list.drop_last(), z);
        lemma_placed_keeps_ties(draw_order(list.drop_last()), list.last(), z);
    }
}

proof fn lemma_placed_keeps_ties(list: Seq<(Position, Sprite)>, item: (Position, Sprite), z: i64)
    ensures
        at_depth(placed(list, item), z) == if item.0.z == z {
            at_depth(list, z).push(item)
        } else {
            at_depth(list, z)
        },
    decreases list.len(),
{
    let out = placed(list, item);
    if list.len() == 0 {
        assert(out.drop_last() =~= list);
        assert(out.last() == item);
        assert(at_depth(out.drop_last(), z) == at_depth(list, z));
    } else if list.last().0.z <= item.0.z {
        assert(out.drop_last() =~= list);
        assert(out.last() == item);
        assert(at_depth(out.drop_last(), z) == at_depth(list, z));
    } else {
        let front = list.drop_last();
        let inner = placed(front, item);
        lemma_placed_keeps_ties(front, item, z);
        assert(out.drop_last() =~= inner);
        assert(out.last() == list.last());
        assert(at_depth(out.drop_last(), z) == at_depth(inner, z));
    }
}

proof fn lemma_placed_sorted(list: Seq<(Position, Sprite)>, item: (Position, Sprite))
    requires
        forall|a: int, b: int|
            0 <= a <= b < list.len() ==> (#[trigger] list[a]).0.z <= (#[trigger] list[b]).0.z,
    ensures
        placed(list, item).len() == list.len() + 1,
        forall|a: int, b: int|
            0 <= a <= b < placed(list, item).len() ==> (#[trigger] placed(list, item)[a]).0.z <= (
            #[trigger] placed(list, item)[b]).0.z,
        forall|a: int|
            0 <= a < placed(list, item).len() ==> (#[trigger] placed(list, item)[a]) == item || (
            exists|k: int| 0 <= k < list.len() && list[k] == placed(list, item)[a]),
    decreases list.len(),
{
    if list.len() > 0 && list.last().0.z > item.0.z {
        let front = list.drop_last();
        lemma_placed_sorted(front, item);
        let inner = placed(front, item);
        let out = placed(list, item);
        assert forall|a: int| 0 <= a < out.len() implies (#[trigger] out[a]) == item || (exists|
            k: int,
        |
            0 <= k < list.len() && list[k] == out[a]) by {
            if a < inner.len() {
                if inner[a] != item {
                    let k = choose|k: int| 0 <= k < front.len() && front[k] == inner[a];
                    assert(list[k] == out[a]);
                }
            } else {
                assert(list[list.len() - 1] == out[a]);
            }
        }
        assert forall|a: int, b: int| 0 <= a <= b < out.len() implies (#[trigger] out[a]).0.z <= (
        #[trigger] out[b]).0.z by {
            if b < inner.len() {
            } else if a < inner.len() {
                if inner[a] != item {
                    let k = choose|k: int| 0 <= k < front.len() && front[k] == inner[a];
                    assert(list[k].0.z <= list[list.len() - 1].0.z);
                }
            }
        }
    } else if list.len() > 0 {
        let out = placed(list, item);
        assert forall|a: int| 0 <= a < out.len() implies (#[trigger] out[a]) == item || (exists|
            k: int,
        |
            0 <= k < list.len() && list[k] == out[a]) by {
            if a < list.len() {
                assert(list[a] == out[a]);
            }
        }
        assert forall|a: int, b: int| 0 <= a <= b < out.len() implies (#[trigger] out[a]).0.z <= (
        #[trigger] out[b]).0.z by {
            if b < list.len() {
            } else if a < list.len() {
                assert(list[a].0.z <= list[list.len() - 1].0.z);
            }
        }
    }
}

/// What the terminal shows once its message has been read.
pub const NO_MESSAGES: &'static str = "No new messages.";

/// The line of hints at the bottom of the screen.
pub const HELP_LINE: &'static str = "arrows/hjkl: move | q: quit | space: pickup | u: use | ?: hide help ";

/// The text that the terminal shows: the message of the stage, until it
/// has been read.
pub open spec fn message_of(game: Game) -> Seq<char> {
    if game.terminal_read {
        NO_MESSAGES@
    } else {
        game.terminal_messages@[game.terminal_message_index as int]@
    }
}

/// The cells after the messages are written over them: the text of the
/// terminal from the second column of the first row, if the terminal is
/// shown, and the hints on the last row, if help is shown.
pub open spec fn cells_after_overlays(cells: Map<(int, int), Cell>, w: int, h: int, game: Game) -> Map<
    (int, int),
    Cell,
> {
    let with_message = if game.show_terminal {
        cells_after_text(cells, w, h, message_of(game), 1, 0, 1)
    } else {
        cells
    };
    if game.show_help && h > 0 {
        cells_after_text(with_message, w, h, HELP_LINE@, 0, h - 1, 0)
    } else {
        with_message
    }
}

/// The same cells, erased.
pub open spec fn blanked(cells: Map<(int, int), Cell>) -> Map<(int, int), Cell> {
    Map::new(|k: (int, int)| cells.dom().contains(k), |k: (int, int)| blank_cell())
}

/// The picture of the world on a screen `w` columns wide and `h` rows
/// high: on erased cells, the sprites in the order of their depth, and the
/// messages over them. Nothing of what the cells held before is left.
pub open spec fn picture(
    cells: Map<(int, int), Cell>,
    w: int,
    h: int,
    entities: Seq<Entity>,
    game: Game,
    store: &SpriteStore,
) -> Map<(int, int), Cell> {
    cells_after_overlays(
        cells_after_sprites(blanked(cells), draw_order(drawn(entities)), store),
        w,
        h,
        game,
    )
}

/// The picture is drawn from scratch: it is the same on any two screens of
/// one size, whatever they showed before.
pub proof fn lemma_picture_forgets(
    before: Map<(int, int), Cell>,
    other: Map<(int, int), Cell>,
    w: int,
    h: int,
    entities: Seq<Entity>,
    game: Game,
    store: &SpriteStore,
)
    requires
        before.dom() == other.dom(),
    ensures
        picture(before, w, h, entities, game, store) == picture(other, w, h, entities, game, store),
{
    assert(blanked(before) =~= blanked(other));
}

proof fn lemma_placed_drawable(
    list: Seq<(Position, Sprite)>,
    item: (Position, Sprite),
    store: &SpriteStore,
)
    requires
        drawable(list, store),
        drawable(seq![item], store),
    ensures
        drawable(placed(list, item), store),
    decreases list.len(),
{
    assert(seq![item][0] == item);
    if list.len() > 0 && list.last().0.z > item.0.z {
        let front = list.drop_last();
        assert forall|i: int| 0 <= i < front.len() implies (#[trigger] front[i]).1.store_index
            < store.0@.len() && front[i].1.frame < store.0@[front[i].1.store_index as int].frame_count() by {
            assert(front[i] == list[i]);
        }
        lemma_placed_drawable(front, item, store);
        let inner = placed(front, item);
        let out = placed(list, item);
        assert forall|i: int| 0 <= i < out.len() implies (#[trigger] out[i]).1.store_index
            < store.0@.len() && out[i].1.frame < store.0@[out[i].1.store_index as int].frame_count() by {
            if i < inner.len() {
                assert(out[i] == inner[i]);
            } else {
                assert(out[i] == list[list.len() - 1]);
            }
        }
    } else if list.len() > 0 {
        let out = placed(list, item);
        assert forall|i: int| 0 <= i < out.len() implies (#[trigger] out[i]).1.store_index
            < store.0@.len() && out[i].1.frame < store.0@[out[i].1.store_index as int].frame_count() by {
            if i < list.len() {
                assert(out[i] == list[i]);
            }
        }
    }
}

/// What is drawn of a table in order can be drawn.
pub(crate) proof fn lemma_drawn_drawable(entities: Seq<Entity>, store: &SpriteStore)
    requires
        all_ok(entities, store),
    ensures
        drawable(draw_order(drawn(entities)), store),
    decreases entities.len(),
{
    if entities.len() > 0 {
        let front = entities.drop_last();
        assert forall|i: int| 0 <= i < front.len() implies (#[trigger] front[i]).ok(store) by {
            assert(front[i] == entities[i]);
        }
        lemma_drawn_drawable(front, store);
        let e = entities.last();
        assert(entities[entities.len() - 1].ok(store));
        if e.visible() {
            let item = (e.position->0, e.sprite->0);
            assert(drawn(entities).drop_last() =~= drawn(front));
            assert(seq![item][0] == item);
            lemma_placed_drawable(draw_order(drawn(front)), item, store);
        }
    }
}

impl RenderBuffer {
    /// Draws the world onto the screen: the sprites on an erased screen, in
    /// the order of their depth, and the messages over them. A screen whose
    /// positions cannot all be addressed is left as it is.
    pub fn run(&mut self, world: &World, store: &SpriteStore)
        requires
            store.wf(),
            all_ok(world.entities@, store),
            world.game.wf(),
        ensures
            screen_width(final(self).screen) == screen_width(old(self).screen),
            screen_height(final(self).screen) == screen_height(old(self).screen),
            addressable(old(self).screen) ==> screen_cells(final(self).screen) == picture(
                screen_cells(old(self).screen),
                screen_width(old(self).screen) as int,
                screen_height(old(self).screen) as int,
                world.entities@,
                world.game,
                store,
            ),
            !addressable(old(self).screen) ==> screen_cells(final(self).screen) == screen_cells(
                old(self).screen,
            ),
    {
        let size: (u16, u16) = match grid_size(&self.screen) {
            Some(size) => size,
            None => {
                return ;
            },
        };
        let ghost start = screen_cells(self.screen);
        screen_erase(&mut self.screen);
        assert(screen_cells(self.screen) =~= blanked(start));
        let list: Vec<(Position, Sprite)> = sorted_sprites(&world.entities);
        proof {
            lemma_drawn_drawable(world.entities@, store);
        }
        let mut i: usize = 0;
        assert(list@.subrange(0, 0) =~= Seq::<(Position, Sprite)>::empty());
        while i < list.len()
            invariant
                i <= list@.len(),
                store.wf(),
                drawable(list@, store),
                is_grid(self.screen),
                size.0 == screen_width(self.screen),
                size.1 == screen_height(self.screen),
                screen_width(self.screen) == screen_width(old(self).screen),
                screen_height(self.screen) == screen_height(old(self).screen),
                screen_cells(self.screen) == cells_after_sprites(
                    blanked(start),
                    list@.subrange(0, i as int),
                    store,
                ),
            decreases list@.len() - i,
        {
            let pos: Position = list[i].0;
            let sprite: Sprite = list[i].1;
            proof {
                let upto = list@.subrange(0, i + 1);
                assert(upto.drop_last() =~= list@.subrange(0, i as int));
                assert(upto.last() == list@[i as int]);
                assert(store.0@[sprite.store_index as int].wf());
            }
            render_sprite_at_pos(&mut self.screen, &store.0[sprite.store_index], &sprite, &pos);
            i = i + 1;
        }
        assert(list@.subrange(0, i as int) =~= list@);
        if world.game.show_terminal {
            if world.game.terminal_read {
                render_text_at_pos(&mut self.screen, NO_MESSAGES, 1, 0);
            } else {
                render_text_at_pos(
                    &mut self.screen,
                    world.game.terminal_messages[world.game.terminal_message_index].as_str(),
                    1,
                    0,
                );
            }
        }
        if world.game.show_help && size.1 > 0 {
            render_text_at_pos(&mut self.screen, HELP_LINE, 0, size.1 - 1);
        }
    }
}

} // verus!
