//! The characters that walk on their own: a step towards the target, a
//! pause on arrival, a new target after the pause.

use vstd::prelude::*;
use rand::rngs::StdRng;
use crate::chance::pick_below;
use crate::measure::due;
use crate::measure::is_due;
use crate::sprite::SpriteStore;
use crate::state::ItemType;
use crate::state::Npc;
use crate::state::Position;
use crate::state::Sprite;
use crate::world::Entity;

verus! {

/// One step from `p` towards `target`, none where they are equal.
pub open spec fn toward(p: i64, target: i64) -> i64 {
    if p < target {
        (p + 1) as i64
    } else if p > target {
        (p - 1) as i64
    } else {
        p
    }
}

/// A walker after its step, before any new target is chosen.
///
/// One that is held stands still on its second frame. Otherwise it acts
/// only when its wait between steps is over. It then steps one cell along
/// each axis on which it is not at its target, faces the way it goes, and
/// notes the time of the step. When it is at the target after that, it
/// stops on its first frame; until then it is animated.
#[verifier::opaque]
pub open spec fn npc_walk(e: Entity, holding: ItemType, time: u64) -> Entity {
    if !e.walker() {
        e
    } else if holding == ItemType::Npc {
        Entity { sprite: Some(Sprite { animating: false, frame: 1, ..e.sprite->0 }), ..e }
    } else if !due(e.npc->0.last_move, e.npc->0.move_wait, time) {
        e
    } else {
        let target = e.npc->0.move_target;
        let pos = e.position->0;
        let sprite = e.sprite->0;
        let moved = pos.x != target.0 || pos.y != target.1;
        let x = toward(pos.x, target.0);
        let y = toward(pos.y, target.1);
        let arrived = x == target.0 && y == target.1;
        Entity {
            position: Some(Position { x, y, z: pos.z }),
            sprite: Some(
                Sprite {
                    animating: !arrived,
                    flip: if pos.x < target.0 {
                        false
                    } else if pos.x > target.0 {
                        true
                    } else {
                        sprite.flip
                    },
                    frame: if arrived {
                        0
                    } else {
                        sprite.frame
                    },
                    ..sprite
                },
            ),
            npc: Some(
                Npc {
                    last_move: if moved {
                        time
                    } else {
                        e.npc->0.last_move
                    },
                    ..e.npc->0
                },
            ),
            ..e
        }
    }
}

/// Whether a walker is given a new target: it is not held, its wait
/// between steps is over, it stood at its target when the tick began, and
/// its pause there is over.
pub open spec fn npc_retargets(e: Entity, holding: ItemType, time: u64) -> bool {
    &&& e.walker()
    &&& holding != ItemType::Npc
    &&& due(e.npc->0.last_move, e.npc->0.move_wait, time)
    &&& e.position->0.x == e.npc->0.move_target.0
    &&& e.position->0.y == e.npc->0.move_target.1
    &&& due(e.npc->0.last_move, e.npc->0.move_stop, time)
}

/// The part of a terminal of the given size in which targets are chosen:
/// eight columns and four rows in from each edge.
pub open spec fn in_field(target: (i64, i64), size: (u16, u16)) -> bool {
    8 <= target.0 < size.0 - 8 && 4 <= target.1 < size.1 - 4
}

/// A terminal large enough to have a cell in which a target can be chosen.
pub open spec fn roomy(size: (u16, u16)) -> bool {
    size.0 > 16 && size.1 > 8
}

/// The entity with another target.
pub open spec fn aimed_at(e: Entity, target: (i64, i64)) -> Entity {
    Entity { npc: Some(Npc { move_target: target, ..e.npc->0 }), ..e }
}

/// Lets one entity take its step.
pub fn walk_one(e: Entity, holding: ItemType, time: u64) -> (after: Entity)
    ensures
        after == npc_walk(e, holding, time),
{
    reveal(npc_walk);
    match (e.npc, e.position, e.sprite) {
        (Some(npc), Some(pos), Some(sprite)) => {
            let mut npc: Npc = npc;
            let mut pos: Position = pos;
            let mut sprite: Sprite = sprite;
            if holding == ItemType::Npc {
                sprite.animating = false;
                sprite.frame = 1;
            } else if is_due(npc.last_move, npc.move_wait, time) {
                let target: (i64, i64) = npc.move_target;
                if pos.x != target.0 {
                    sprite.animating = true;
                    if pos.x < target.0 {
                        sprite.flip = false;
                        pos.x = pos.x + 1;
                    } else {
                        sprite.flip = true;
                        pos.x = pos.x - 1;
                    }
                    npc.last_move = time;
                }
                if pos.y != target.1 {
                    sprite.animating = true;
                    if pos.y < target.1 {
                        pos.y = pos.y + 1;
                    } else {
                        pos.y = pos.y - 1;
                    }
                    npc.last_move = time;
                }
                if pos.x == target.0 && pos.y == target.1 {
                    sprite.animating = false;
                    sprite.frame = 0;
                }
            }
            Entity { npc: Some(npc), position: Some(pos), sprite: Some(sprite), ..e }
        },
        _ => e,
    }
}

/// Tells whether an entity is due for a new target.
pub fn wants_target(e: Entity, holding: ItemType, time: u64) -> (wanted: bool)
    ensures
        wanted == npc_retargets(e, holding, time),
{
    match (e.npc, e.position, e.sprite) {
        (Some(npc), Some(pos), Some(_)) => {
            holding != ItemType::Npc && is_due(npc.last_move, npc.move_wait, time) && pos.x
                == npc.move_target.0 && pos.y == npc.move_target.1 && is_due(
                npc.last_move,
                npc.move_stop,
                time,
            )
        },
        _ => false,
    }
}

/// Lets every walker take its step, and gives those whose pause is over a
/// new target, chosen at random in the field.
pub fn walk_npcs(
    entities: &mut Vec<Entity>,
    holding: ItemType,
    time: u64,
    size: (u16, u16),
    rng: &mut StdRng,
)
    requires
        forall|i: int|
            0 <= i < old(entities)@.len() && npc_retargets(
                #[trigger] old(entities)@[i],
                holding,
                time,
            ) ==> roomy(size),
    ensures
        final(entities)@.len() == old(entities)@.len(),
        forall|i: int|
            0 <= i < old(entities)@.len() ==> walked(
                old(entities)@[i],
                #[trigger] final(entities)@[i],
                holding,
                time,
                size,
            ),
{
    let mut i: usize = 0;
    while i < entities.len()
        invariant
            i <= entities@.len(),
            entities@.len() == old(entities)@.len(),
            forall|j: int|
                0 <= j < old(entities)@.len() && npc_retargets(
                    #[trigger] old(entities)@[j],
                    holding,
                    time,
                ) ==> roomy(size),
            forall|j: int|
                0 <= j < i ==> walked(old(entities)@[j], #[trigger] entities@[j], holding, time, size),
            forall|j: int| i <= j < entities@.len() ==> #[trigger] entities@[j] == old(entities)@[j],
        decreases entities@.len() - i,
    {
        let e: Entity = entities[i];
        let mut after: Entity = walk_one(e, holding, time);
        proof {
            reveal(npc_walk);
        }
        if wants_target(e, holding, time) {
            assert(npc_retargets(old(entities)@[i as int], holding, time));
            let x: u64 = pick_below(rng, 8, (size.0 - 8) as u64);
            let y: u64 = pick_below(rng, 4, (size.1 - 4) as u64);
            match after.npc {
                Some(npc) => {
                    after.npc = Some(Npc { move_target: (x as i64, y as i64), ..npc });
                },
                None => {},
            }
        }
        entities.set(i, after);
        i = i + 1;
    }
}

/// How the entity `after` comes from `before` in one tick: by the step,
/// and, where a new target is due, with some target of the field.
pub open spec fn walked(
    before: Entity,
    after: Entity,
    holding: ItemType,
    time: u64,
    size: (u16, u16),
) -> bool {
    if npc_retargets(before, holding, time) {
        &&& after.npc is Some
        &&& in_field(after.npc->0.move_target, size)
        &&& after == aimed_at(npc_walk(before, holding, time), after.npc->0.move_target)
    } else {
        after == npc_walk(before, holding, time)
    }
}

/// A step changes neither what an entity is nor whether it is in order.
pub(crate) proof fn lemma_walked_keeps(
    before: Entity,
    after: Entity,
    holding: ItemType,
    time: u64,
    size: (u16, u16),
    store: &SpriteStore,
)
    requires
        walked(before, after, holding, time, size),
    ensures
        before.same_shape(after),
        before.ok(store) ==> after.ok(store),
{
    reveal(npc_walk);
}

/// The distance between a coordinate and its target.
pub open spec fn gap(p: i64, target: i64) -> int {
    if p < target {
        target - p
    } else {
        p - target
    }
}

/// A walker never overshoots. In a tick in which it acts, it comes one cell
/// nearer to its target on each axis on which it is away from it, and stays
/// on each axis on which it is there. Standing at its target it keeps its
/// place, and it keeps its target until its pause is over.
pub proof fn lemma_npc_never_overshoots(
    before: Entity,
    after: Entity,
    holding: ItemType,
    time: u64,
    size: (u16, u16),
)
    requires
        before.walker(),
        walked(before, after, holding, time, size),
    ensures
        ({
            let target = before.npc->0.move_target;
            let was = before.position->0;
            let is = after.position->0;
            let acts = holding != ItemType::Npc && due(
                before.npc->0.last_move,
                before.npc->0.move_wait,
                time,
            );
            &&& after.position is Some
            &&& acts && was.x != target.0 ==> gap(is.x, target.0) == gap(was.x, target.0) - 1
            &&& acts && was.y != target.1 ==> gap(is.y, target.1) == gap(was.y, target.1) - 1
            &&& was.x == target.0 ==> is.x == was.x
            &&& was.y == target.1 ==> is.y == was.y
            &&& !acts ==> is == was
            &&& !due(before.npc->0.last_move, before.npc->0.move_stop, time) ==> after.npc->0.move_target
                == target
        }),
{
    reveal(npc_walk);
}

} // verus!
