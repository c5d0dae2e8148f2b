//! The grid of terminal cells that the compositor draws into.
//!
//! The grid itself belongs to `anathema`. This module says what the
//! compositor relies on: what a screen holds, and what reading, writing and
//! erasing do to it.

use vstd::prelude::*;
use anathema::display::Color;
use anathema::display::Screen;
use anathema::display::ScreenPos;
use anathema::display::Style;
use unicode_width::UnicodeWidthChar;

verus! {

/// `anathema`'s screen. What it holds is known only through the names and
/// the functions below.
#[verifier::external_type_specification]
#[verifier::external_body]
pub struct ExScreen(Screen);

/// The colours of the terminal, an enum of `crossterm` that `anathema`
/// hands on. It is declared with its variants as they are defined, so that
/// a colour can be made and told apart here; nothing is claimed of it.
#[verifier::external_type_specification]
pub struct ExColor(Color);

/// What one cell of a screen holds: the character it shows, if any, and its
/// two colours. A cell that shows nothing still has colours.
pub struct Cell {
    pub glyph: Option<char>,
    pub fg: Color,
    pub bg: Color,
}

/// The cells of a screen, by column and row.
pub uninterp spec fn screen_cells(screen: Screen) -> Map<(int, int), Cell>;

/// The number of columns that a screen was made with.
pub uninterp spec fn screen_width(screen: Screen) -> nat;

/// The number of rows that a screen was made with.
pub uninterp spec fn screen_height(screen: Screen) -> nat;

/// The number of columns that a character takes on a terminal, as
/// `unicode-width` has it: nothing for a control character.
pub uninterp spec fn glyph_width(c: char) -> Option<usize>;

/// The character that fills the upper half of a cell with the foreground.
pub const UPPER_HALF: char = '\u{2580}';

/// The character that fills the lower half of a cell with the foreground.
pub const LOWER_HALF: char = '\u{2584}';

/// The largest number of columns, and of rows, that positions can address.
pub const MAX_SIDE: usize = 65535;

/// A screen whose positions can all be addressed.
pub open spec fn addressable(screen: Screen) -> bool {
    screen_width(screen) <= MAX_SIDE && screen_height(screen) <= MAX_SIDE
}

/// A screen whose positions can all be addressed and which has a cell at
/// each position inside its size, and nowhere else.
pub open spec fn is_grid(screen: Screen) -> bool {
    &&& addressable(screen)
    &&& forall|x: int, y: int| #[trigger]
        screen_cells(screen).dom().contains((x, y)) <==> 0 <= x < screen_width(screen) && 0 <= y
            < screen_height(screen)
}

/// The cell that is left after erasing.
pub open spec fn blank_cell() -> Cell {
    Cell { glyph: None, fg: Color::Reset, bg: Color::Reset }
}

/// Whether writing the character fills the cell to its right as well. The
/// characters below U+00A0 and the two half blocks never do.
pub open spec fn two_cells(c: char) -> bool {
    &&& c as u32 >= 0xA0
    &&& c != UPPER_HALF
    &&& c != LOWER_HALF
    &&& match glyph_width(c) {
        Some(n) => n >= 2,
        None => false,
    }
}

/// A cell after a write that shows `glyph` in it. A colour that the write
/// leaves out stays as it was.
pub open spec fn painted(old: Cell, glyph: Option<char>, fg: Option<Color>, bg: Option<Color>) -> Cell {
    Cell {
        glyph,
        fg: match fg {
            Some(c) => c,
            None => old.fg,
        },
        bg: match bg {
            Some(c) => c,
            None => old.bg,
        },
    }
}

/// The cells after writing a character at column `x` of row `y`. A
/// character that fills two cells leaves the second one showing nothing, in
/// the colours of the write.
pub open spec fn cells_after_put(
    cells: Map<(int, int), Cell>,
    x: int,
    y: int,
    c: char,
    fg: Option<Color>,
    bg: Option<Color>,
) -> Map<(int, int), Cell> {
    let first = cells.insert((x, y), painted(cells[(x, y)], Some(c), fg, bg));
    if two_cells(c) {
        first.insert((x + 1, y), painted(cells[(x + 1, y)], None, fg, bg))
    } else {
        first
    }
}

/// `Screen::size`: the size that the screen was made with. A screen that is
/// addressable has one cell for each column of each row.
#[verifier::external_body]
pub(crate) fn screen_size(screen: &Screen) -> (size: (usize, usize))
    ensures
        size.0 == screen_width(*screen),
        size.1 == screen_height(*screen),
        addressable(*screen) ==> forall|x: int, y: int| #[trigger]
            screen_cells(*screen).dom().contains((x, y)) <==> 0 <= x < size.0 && 0 <= y < size.1,
{
    let size = screen.size();
    (size.width, size.height)
}

/// `Screen::get`: the character and the colours of a cell that shows a
/// character, nothing for a cell that shows none. Both colours are always
/// there: every cell starts with the terminal's own colours, and no write
/// takes a colour away.
#[verifier::external_body]
pub(crate) fn screen_get(screen: &Screen, x: u16, y: u16) -> (seen: Option<
    (char, Option<Color>, Option<Color>),
>)
    requires
        addressable(*screen),
        x < screen_width(*screen),
        y < screen_height(*screen),
    ensures
        seen == (match screen_cells(*screen)[(x as int, y as int)].glyph {
            Some(c) => Some(
                (
                    c,
                    Some(screen_cells(*screen)[(x as int, y as int)].fg),
                    Some(screen_cells(*screen)[(x as int, y as int)].bg),
                ),
            ),
            None => None,
        }),
{
    match screen.get(ScreenPos::new(x, y)) {
        Some((c, style)) => Some((c, style.fg, style.bg)),
        None => None,
    }
}

/// `Screen::put`: writes a character into a cell of the screen, with the
/// colours given. The cell keeps the colour that is not given. A character
/// two columns wide also takes the cell to the right, which must be there.
#[verifier::external_body]
pub(crate) fn screen_put(
    screen: &mut Screen,
    c: char,
    fg: Option<Color>,
    bg: Option<Color>,
    x: u16,
    y: u16,
)
    requires
        addressable(*old(screen)),
        x < screen_width(*old(screen)),
        y < screen_height(*old(screen)),
        two_cells(c) ==> x + 1 < screen_width(*old(screen)),
    ensures
        screen_width(*final(screen)) == screen_width(*old(screen)),
        screen_height(*final(screen)) == screen_height(*old(screen)),
        screen_cells(*final(screen)) == cells_after_put(
            screen_cells(*old(screen)),
            x as int,
            y as int,
            c,
            fg,
            bg,
        ),
{
    let mut style = Style::new();
    style.fg = fg;
    style.bg = bg;
    screen.put(c, style, ScreenPos::new(x, y));
}

/// `Screen::erase`: every cell shows nothing, in the terminal's own
/// colours.
#[verifier::external_body]
pub(crate) fn screen_erase(screen: &mut Screen)
    requires
        addressable(*old(screen)),
    ensures
        screen_width(*final(screen)) == screen_width(*old(screen)),
        screen_height(*final(screen)) == screen_height(*old(screen)),
        screen_cells(*final(screen)).dom() == screen_cells(*old(screen)).dom(),
        forall|k: (int, int)| #[trigger]
            screen_cells(*final(screen)).dom().contains(k) ==> screen_cells(*final(screen))[k]
                == blank_cell(),
{
    screen.erase();
}

/// `UnicodeWidthChar::width`: the number of columns of a character.
#[verifier::external_body]
pub(crate) fn char_width(c: char) -> (width: Option<usize>)
    ensures
        width == glyph_width(c),
{
    c.width()
}

/// Tells whether writing the character takes two cells.
pub fn takes_two_cells(c: char) -> (wide: bool)
    ensures
        wide == two_cells(c),
{
    if (c as u32) < 0xA0 || c == UPPER_HALF || c == LOWER_HALF {
        false
    } else {
        match char_width(c) {
            Some(n) => n >= 2,
            None => false,
        }
    }
}

/// The size of a screen if its positions can all be addressed.
pub fn grid_size(screen: &Screen) -> (size: Option<(u16, u16)>)
    ensures
        match size {
            Some((w, h)) => addressable(*screen) && w == screen_width(*screen) && h
                == screen_height(*screen),
            None => !addressable(*screen),
        },
        size is Some ==> is_grid(*screen),
{
    let size: (usize, usize) = screen_size(screen);
    if size.0 <= MAX_SIDE && size.1 <= MAX_SIDE {
        Some((size.0 as u16, size.1 as u16))
    } else {
        None
    }
}

} // verus!
