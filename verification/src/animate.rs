//! The animation clock: a sprite shows each frame of its sheet for as long
//! as the sheet says.

use vstd::prelude::*;
use crate::measure::due;
use crate::measure::is_due;
use crate::sprite::LoadedSprite;
use crate::sprite::SpriteStore;
use crate::state::Sprite;
use crate::state::SpriteType;
use crate::world::Entity;
use crate::world::all_ok;

verus! {

/// How long the sprite's present frame is shown, in milliseconds.
pub open spec fn frame_wait(sprite: Sprite, info: &LoadedSprite) -> u64 {
    info.data.frames@[sprite.frame as int].duration as u64
}

/// Whether the sprite is animated in this tick. An overlay is animated
/// whenever a transition is asked for, and stops on its last frame when
/// none is. Every other sprite is animated while its flag says so.
pub open spec fn runs(sprite: Sprite, info: &LoadedSprite, show_transition: bool) -> bool {
    if sprite.sprite_type == SpriteType::Overlay {
        if show_transition {
            true
        } else if sprite.frame == info.frame_count() - 1 {
            false
        } else {
            sprite.animating
        }
    } else {
        sprite.animating
    }
}

/// A sprite after the clock has looked at it. An animated sprite whose
/// frame has been shown for longer than its duration moves to the next
/// frame, the first after the last, and notes the time.
#[verifier::opaque]
pub open spec fn animate_sprite(
    sprite: Sprite,
    info: &LoadedSprite,
    show_transition: bool,
    time: u64,
) -> Sprite {
    let animating = runs(sprite, info, show_transition);
    if animating && due(sprite.last_animate, frame_wait(sprite, info), time) {
        Sprite {
            animating,
            last_animate: time,
            frame: ((sprite.frame + 1) % (info.frame_count() as int)) as usize,
            ..sprite
        }
    } else {
        Sprite { animating, ..sprite }
    }
}

/// An entity after the clock has looked at it: only one that is visible
/// has a sprite that the clock moves.
pub open spec fn animate_step(
    e: Entity,
    store: &SpriteStore,
    show_transition: bool,
    time: u64,
) -> Entity {
    if e.visible() {
        Entity {
            sprite: Some(
                animate_sprite(
                    e.sprite->0,
                    &store.0@[e.sprite->0.store_index as int],
                    show_transition,
                    time,
                ),
            ),
            ..e
        }
    } else {
        e
    }
}

/// Moves a sprite on by the clock.
pub fn animate(sprite: Sprite, info: &LoadedSprite, show_transition: bool, time: u64) -> (after: Sprite)
    requires
        sprite.frame < info.frame_count(),
    ensures
        after == animate_sprite(sprite, info, show_transition, time),
        after.frame < info.frame_count(),
        sprite.animating && sprite.sprite_type != SpriteType::Overlay ==> (if due(
            sprite.last_animate,
            frame_wait(sprite, info),
            time,
        ) {
            after.frame == (sprite.frame + 1) % (info.frame_count() as int) && after.last_animate
                == time
        } else {
            after.frame == sprite.frame && after.last_animate == sprite.last_animate
        }),
{
    reveal(animate_sprite);
    let mut after: Sprite = sprite;
    let count: usize = info.data.frames.len();
    if sprite.sprite_type == SpriteType::Overlay {
        let end_frame: usize = count - 1;
        if show_transition {
            after.animating = true;
        } else if sprite.frame == end_frame {
            after.animating = false;
        }
    }
    let wait: u64 = info.data.frames[sprite.frame].duration as u64;
    if after.animating && is_due(sprite.last_animate, wait, time) {
        after.last_animate = time;
        after.frame = (sprite.frame + 1) % count;
    }
    after
}

/// Moves every visible sprite on by the clock.
pub fn animate_all(entities: &mut Vec<Entity>, store: &SpriteStore, show_transition: bool, time: u64)
    requires
        all_ok(old(entities)@, store),
    ensures
        final(entities)@.len() == old(entities)@.len(),
        forall|i: int|
            0 <= i < old(entities)@.len() ==> #[trigger] final(entities)@[i] == animate_step(
                old(entities)@[i],
                store,
                show_transition,
                time,
            ),
{
    let mut i: usize = 0;
    while i < entities.len()
        invariant
            i <= entities@.len(),
            entities@.len() == old(entities)@.len(),
            all_ok(old(entities)@, store),
            forall|j: int|
                0 <= j < i ==> #[trigger] entities@[j] == animate_step(
                    old(entities)@[j],
                    store,
                    show_transition,
                    time,
                ),
            forall|j: int| i <= j < entities@.len() ==> #[trigger] entities@[j] == old(entities)@[j],
        decreases entities@.len() - i,
    {
        let e: Entity = entities[i];
        assert(old(entities)@[i as int].ok(store));
        match (e.sprite, e.position) {
            (Some(sprite), Some(_)) => {
                let after: Sprite = animate(sprite, &store.0[sprite.store_index], show_transition, time);
                entities.set(i, Entity { sprite: Some(after), ..e });
            },
            _ => {},
        }
        i = i + 1;
    }
}

/// The clock changes neither what an entity is nor whether it is in order.
pub(crate) proof fn lemma_animate_step_keeps(e: Entity, store: &SpriteStore, show_transition: bool, time: u64)
    requires
        e.ok(store),
    ensures
        e.same_shape(animate_step(e, store, show_transition, time)),
        animate_step(e, store, show_transition, time).ok(store),
{
    reveal(animate_sprite);
    if e.visible() {
        let info = &store.0@[e.sprite->0.store_index as int];
        let count = info.frame_count() as int;
        assert(0 <= (e.sprite->0.frame + 1) % count < count);
    }
}

} // verus!
