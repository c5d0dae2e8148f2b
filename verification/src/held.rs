//! Keeping what the player holds at the player's side, and marking what
//! could be picked up.

use vstd::prelude::*;
use crate::measure::clip;
use crate::measure::shift;
use crate::search::Found;
use crate::sprite::SpriteStore;
use crate::state::ItemType;
use crate::state::Position;
use crate::state::Sprite;
use crate::world::Entity;

verus! {

/// A tool can be picked up, and the terminal switched on, from nearer than
/// this.
pub const PICKUP_DISTANCE: i64 = 4;

/// A crop can be worked on from nearer than this.
pub const CROP_DISTANCE: i64 = 2;

/// No held item is drawn above this row.
pub const CEILING: i64 = -2;

/// What the tracking of held items needs to know of the tick.
#[derive(Clone, Copy, Debug)]
pub struct Grip {
    pub holding: ItemType,
    pub player_pos: (i64, i64),
    pub player_flip: bool,
    pub action_pressed: bool,
    pub tool: Found,
}

/// Where a held item is carried, from the player's position: by the side
/// that the player faces, lower while it is used, and the large ones
/// further up and to the left.
pub open spec fn held_offset(item: ItemType, action_pressed: bool, flip: bool) -> (int, int) {
    let wide: int = if item == ItemType::Pod || item == ItemType::Npc {
        -3
    } else {
        0
    };
    let pressed: int = if action_pressed {
        1
    } else {
        0
    };
    let small: int = if item == ItemType::Watercan || item == ItemType::Terminal {
        1
    } else if item == ItemType::Packet || item == ItemType::Packet2 {
        2
    } else {
        0
    };
    let side: int = if flip {
        -3
    } else {
        5
    };
    (side + wide, small + pressed + wide)
}

/// The position of a held item: the player's position and the offset, but
/// not left of column 0 and not above the ceiling.
pub open spec fn held_at(grip: Grip, item: ItemType, z: i64) -> Position {
    let offset = held_offset(item, grip.action_pressed, grip.player_flip);
    let x = clip(grip.player_pos.0 + offset.0);
    let y = clip(grip.player_pos.1 + offset.1);
    Position {
        x: if x < 0 {
            0
        } else {
            x
        },
        y: if y < CEILING {
            CEILING
        } else {
            y
        },
        z,
    }
}

/// The mark on an item that is not held: only the tool that the search
/// found is marked, only while nothing is held and it is within reach.
pub open spec fn marked(grip: Grip, id: usize) -> bool {
    grip.holding == ItemType::Nothing && grip.tool.id == id && grip.tool.dist < PICKUP_DISTANCE
}

/// An entity after the tracking of held items. Only items change. One of
/// the type that is held loses its mark, faces as the player does and is
/// put at the player's side; any other is marked or not, and stays.
#[verifier::opaque]
pub open spec fn held_step(e: Entity, grip: Grip) -> Entity {
    if !e.item() {
        e
    } else if grip.holding == e.interactible->0.item_type {
        Entity {
            sprite: Some(Sprite { highlight: false, flip: grip.player_flip, ..e.sprite->0 }),
            position: Some(held_at(grip, e.interactible->0.item_type, e.position->0.z)),
            ..e
        }
    } else {
        Entity {
            sprite: Some(Sprite { highlight: marked(grip, e.sprite->0.id), ..e.sprite->0 }),
            ..e
        }
    }
}

fn offset_for(item: ItemType, action_pressed: bool, flip: bool) -> (offset: (i64, i64))
    ensures
        offset.0 == held_offset(item, action_pressed, flip).0,
        offset.1 == held_offset(item, action_pressed, flip).1,
        -8 <= offset.0 <= 8,
        -8 <= offset.1 <= 8,
{
    let wide: i64 = if item == ItemType::Pod || item == ItemType::Npc {
        -3
    } else {
        0
    };
    let pressed: i64 = if action_pressed {
        1
    } else {
        0
    };
    let small: i64 = if item == ItemType::Watercan || item == ItemType::Terminal {
        1
    } else if item == ItemType::Packet || item == ItemType::Packet2 {
        2
    } else {
        0
    };
    let side: i64 = if flip {
        -3
    } else {
        5
    };
    (side + wide, small + pressed + wide)
}

/// Tracks one entity.
pub fn track_one(e: Entity, grip: Grip) -> (after: Entity)
    ensures
        after == held_step(e, grip),
{
    reveal(held_step);
    match (e.interactible, e.sprite, e.position) {
        (Some(item), Some(sprite), Some(pos)) => {
            let mut sprite: Sprite = sprite;
            let mut pos: Position = pos;
            sprite.highlight = false;
            if grip.holding == item.item_type {
                sprite.flip = grip.player_flip;
                let offset: (i64, i64) = offset_for(
                    item.item_type,
                    grip.action_pressed,
                    grip.player_flip,
                );
                pos.y = shift(grip.player_pos.1, offset.1);
                if pos.y < CEILING {
                    pos.y = CEILING;
                }
                pos.x = shift(grip.player_pos.0, offset.0);
                if pos.x < 0 {
                    pos.x = 0;
                }
            } else if grip.holding == ItemType::Nothing && grip.tool.id == sprite.id
                && grip.tool.dist < PICKUP_DISTANCE {
                sprite.highlight = true;
            }
            Entity { sprite: Some(sprite), position: Some(pos), ..e }
        },
        _ => e,
    }
}

/// Puts every item of the type that is held at the player's side, and
/// marks the tool that could be picked up.
pub fn track_held_items(entities: &mut Vec<Entity>, grip: Grip)
    ensures
        final(entities)@.len() == old(entities)@.len(),
        forall|i: int|
            0 <= i < old(entities)@.len() ==> #[trigger] final(entities)@[i] == held_step(
                old(entities)@[i],
                grip,
            ),
{
    let mut i: usize = 0;
    while i < entities.len()
        invariant
            i <= entities@.len(),
            entities@.len() == old(entities)@.len(),
            forall|j: int| 0 <= j < i ==> #[trigger] entities@[j] == held_step(old(entities)@[j], grip),
            forall|j: int| i <= j < entities@.len() ==> #[trigger] entities@[j] == old(entities)@[j],
        decreases entities@.len() - i,
    {
        let after: Entity = track_one(entities[i], grip);
        entities.set(i, after);
        i = i + 1;
    }
}

/// Tracking changes neither what an entity is nor whether it is in order.
pub(crate) proof fn lemma_held_step_keeps(e: Entity, grip: Grip, store: &SpriteStore)
    ensures
        e.same_shape(held_step(e, grip)),
        e.ok(store) ==> held_step(e, grip).ok(store),
{
    reveal(held_step);
}

/// While a type of item is held, an item of that type is where the player
/// is, moved by the offset of the type, unless that is left of column 0 or
/// above the ceiling. An item of any other type stays where it was: what is
/// released keeps the place it had.
pub proof fn lemma_held_item_follows(e: Entity, grip: Grip)
    requires
        e.item(),
    ensures
        e.interactible->0.item_type == grip.holding ==> held_step(e, grip).position == Some(
            held_at(grip, grip.holding, e.position->0.z),
        ),
        e.interactible->0.item_type != grip.holding ==> held_step(e, grip).position == e.position,
        ({
            let offset = held_offset(grip.holding, grip.action_pressed, grip.player_flip);
            let x = grip.player_pos.0 + offset.0;
            let y = grip.player_pos.1 + offset.1;
            0 <= x <= i64::MAX && CEILING <= y <= i64::MAX ==> held_at(
                grip,
                grip.holding,
                e.position->0.z,
            ) == (Position { x: x as i64, y: y as i64, z: e.position->0.z })
        }),
{
    reveal(held_step);
}

} // verus!
