//! The component records that entities carry, and the global game state.

use vstd::prelude::*;

verus! {

/// Milliseconds since the simulation started.
#[derive(Clone, Copy, Debug, Default, PartialEq, PartialOrd)]
pub struct Time(pub u64);

impl core::ops::Add for Time {
    type Output = Time;

    fn add(self, other: Time) -> (sum: Time) {
        Time(self.0 + other.0)
    }
}

impl vstd::std_specs::ops::AddSpecImpl for Time {
    open spec fn obeys_add_spec() -> bool {
        true
    }

    open spec fn add_req(self, other: Time) -> bool {
        self.0 + other.0 <= u64::MAX
    }

    open spec fn add_spec(self, other: Time) -> Time {
        Time((self.0 + other.0) as u64)
    }
}

/// Hands out the `id` values of sprites. Zero is never handed out: it
/// stands for "no id".
#[derive(Clone, Copy, Debug, Default)]
pub struct SpriteIndexer(pub usize);

impl SpriteIndexer {
    /// Reserves the next id and returns it.
    pub fn new_index(&mut self) -> (id: usize)
        requires
            old(self).0 < usize::MAX,
        ensures
            id == old(self).0 + 1,
            final(self).0 == id,
    {
        self.0 += 1;
        self.0
    }
}

/// Where an entity is drawn. `x` and `y` are cell coordinates, `z` is the
/// depth by which sprites are ordered before drawing.
#[derive(Clone, Copy, Debug, PartialEq, Eq, Structural)]
pub struct Position {
    pub x: i64,
    pub y: i64,
    pub z: i64,
}

/// What a sprite is a picture of.
#[derive(Clone, Copy, Debug, Default, PartialEq, Eq, PartialOrd, Structural)]
pub enum SpriteType {
    #[default]
    Background,
    Overlay,
    Player,
    Tool,
    Crop,
    Particle,
}

/// The visual and timing state of an entity.
#[derive(Clone, Copy, Debug, PartialEq, Eq, Structural)]
pub struct Sprite {
    pub id: usize,
    pub store_index: usize,
    pub flip: bool,
    pub frame: usize,
    pub animating: bool,
    pub last_animate: u64,
    pub last_move: u64,
    pub sprite_type: SpriteType,
    pub highlight: bool,
    pub hidden: bool,
    pub delete: bool,
}

impl Default for Sprite {
    fn default() -> (sprite: Sprite)
        ensures
            sprite == Sprite::blank(),
    {
        Sprite {
            id: 0,
            store_index: 0,
            flip: false,
            frame: 0,
            animating: false,
            last_animate: 0,
            last_move: 0,
            sprite_type: SpriteType::Background,
            highlight: false,
            hidden: false,
            delete: false,
        }
    }
}

impl Sprite {
    /// The sprite that every constructor starts from: no id, first asset,
    /// first frame, background, every flag off.
    pub open spec fn blank() -> Sprite {
        Sprite {
            id: 0,
            store_index: 0,
            flip: false,
            frame: 0,
            animating: false,
            last_animate: 0,
            last_move: 0,
            sprite_type: SpriteType::Background,
            highlight: false,
            hidden: false,
            delete: false,
        }
    }
}

/// What an item is to the player. `Nothing` is also what empty hands hold.
#[derive(Clone, Copy, Debug, Default, PartialEq, Eq, PartialOrd, Structural)]
pub enum ItemType {
    #[default]
    Nothing,
    Grass,
    Pod,
    Terminal,
    Shovel,
    Watercan,
    Packet,
    Packet2,
    Crop,
    Npc,
}

/// The base depth of each layer. A sprite's depth is its layer's base plus
/// or minus its id.
pub struct SpriteDepths {
    pub ground: i64,
    pub grass: i64,
    pub crops: i64,
    pub player: i64,
    pub tools: i64,
    pub overlay: i64,
}

pub const DEPTH_GROUND: i64 = 0;

pub const DEPTH_CROPS: i64 = 100_000;

pub const DEPTH_GRASS: i64 = 200_000;

pub const DEPTH_PLAYER: i64 = 300_000;

pub const DEPTH_TOOLS: i64 = 400_000;

pub const DEPTH_OVERLAY: i64 = 500_000;

impl SpriteDepths {
    /// The layers of the game, from the ground up.
    pub fn standard() -> (depths: SpriteDepths)
        ensures
            depths.ground == DEPTH_GROUND,
            depths.crops == DEPTH_CROPS,
            depths.grass == DEPTH_GRASS,
            depths.player == DEPTH_PLAYER,
            depths.tools == DEPTH_TOOLS,
            depths.overlay == DEPTH_OVERLAY,
    {
        SpriteDepths {
            ground: DEPTH_GROUND,
            crops: DEPTH_CROPS,
            grass: DEPTH_GRASS,
            player: DEPTH_PLAYER,
            tools: DEPTH_TOOLS,
            overlay: DEPTH_OVERLAY,
        }
    }
}

/// The wandering state of a character that moves on its own.
#[derive(Clone, Copy, Debug, PartialEq, Eq)]
pub struct Npc {
    pub move_target: (i64, i64),
    pub last_move: u64,
    pub move_wait: u64,
    pub move_stop: u64,
}

/// Marks an entity that the player can pick up or act on.
#[derive(Clone, Copy, Debug, PartialEq, Eq, Structural)]
pub struct Interactible {
    pub item_type: ItemType,
    pub hold_to_use: bool,
}

/// The last stage of the narrative: nothing follows it.
pub const FINAL_STAGE: usize = 9;

/// Global game state.
#[derive(Default)]
pub struct Game {
    pub holding: ItemType,
    pub show_help: bool,
    pub show_transition: bool,
    pub terminal_messages: Vec<String>,
    pub show_terminal: bool,
    pub terminal_message_index: usize,
    pub terminal_read: bool,
    pub clear_screen: bool,
}

impl Game {
    /// The game at its start: nothing held, help and transition shown, the
    /// story at its first stage.
    pub fn new(terminal_messages: Vec<String>) -> (game: Game)
        ensures
            game.holding == ItemType::Nothing,
            game.show_help,
            game.show_transition,
            game.terminal_messages == terminal_messages,
            !game.show_terminal,
            game.terminal_message_index == 0,
            !game.terminal_read,
            !game.clear_screen,
    {
        Game {
            holding: ItemType::Nothing,
            show_help: true,
            show_transition: true,
            terminal_messages,
            show_terminal: false,
            terminal_message_index: 0,
            terminal_read: false,
            clear_screen: false,
        }
    }

    /// Moves the narrative to its next stage, whose message is unread.
    pub fn advance_terminal(&mut self)
        requires
            old(self).terminal_message_index < usize::MAX,
        ensures
            *final(self) == (Game {
                terminal_message_index: (old(self).terminal_message_index + 1) as usize,
                terminal_read: false,
                ..*old(self)
            }),
    {
        self.terminal_message_index += 1;
        self.terminal_read = false;
    }
}

} // verus!
