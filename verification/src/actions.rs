//! What a tick does to the items once the player's command is resolved:
//! crops grow, are watered, sown or dug up, the terminal blinks, and
//! particles that have played are cleared away.

use vstd::prelude::*;
use rand::rngs::StdRng;
use crate::catalog::CROP_FRAMES;
use crate::catalog::Catalog;
use crate::catalog::names;
use crate::chance::pick_below;
use crate::player::SpriteAction;
use crate::player::SpriteActionCommand;
use crate::sprite::SpriteStore;
use crate::state::DEPTH_CROPS;
use crate::state::Interactible;
use crate::state::ItemType;
use crate::state::Sprite;
use crate::state::SpriteType;
use crate::world::Command;
use crate::world::Entity;
use crate::world::World;
use crate::world::all_ok;
use crate::world::id_limit;
use crate::world::spawned;

verus! {

/// The frame from which a crop counts as watered, and the number of dry
/// frames.
pub const WATERED: usize = 4;

/// The frame on which a watered crop is full grown.
pub const FULL_GROWN: usize = 7;

/// The entity is a particle on the last frame of its animation.
pub open spec fn spent(e: Entity, store: &SpriteStore) -> bool {
    &&& e.sprite is Some
    &&& e.sprite->0.sprite_type == SpriteType::Particle
    &&& e.sprite->0.frame == store.0@[e.sprite->0.store_index as int].frame_count() - 1
}

/// The removals of the spent particles, in the order of the table.
pub open spec fn particle_removals(entities: Seq<Entity>, store: &SpriteStore) -> Seq<Command>
    decreases entities.len(),
{
    if entities.len() == 0 {
        seq![]
    } else {
        let front = particle_removals(entities.drop_last(), store);
        if spent(entities.last(), store) {
            front.push(Command::RemoveSprite((entities.len() - 1) as usize))
        } else {
            front
        }
    }
}

/// Asks for the removal of every particle that has played to its end.
pub fn sweep_particles(world: &mut World, store: &SpriteStore)
    requires
        all_ok(old(world).entities@, store),
    ensures
        final(world).entities == old(world).entities,
        final(world).game == old(world).game,
        final(world).indexer == old(world).indexer,
        final(world).queue@ == old(world).queue@ + particle_removals(old(world).entities@, store),
{
    let mut i: usize = 0;
    assert(world.entities@.subrange(0, 0) =~= Seq::<Entity>::empty());
    assert(world.queue@ =~= old(world).queue@ + particle_removals(
        world.entities@.subrange(0, 0),
        store,
    ));
    while i < world.entities.len()
        invariant
            i <= world.entities@.len(),
            world.entities == old(world).entities,
            world.game == old(world).game,
            world.indexer == old(world).indexer,
            all_ok(world.entities@, store),
            world.queue@ == old(world).queue@ + particle_removals(
                world.entities@.subrange(0, i as int),
                store,
            ),
        decreases world.entities@.len() - i,
    {
        let e: Entity = world.entities[i];
        proof {
            let upto = world.entities@.subrange(0, i + 1);
            assert(upto.drop_last() =~= world.entities@.subrange(0, i as int));
            assert(upto.last() == e);
            assert(world.entities@[i as int].ok(store));
        }
        let ghost before = world.queue@;
        match e.sprite {
            Some(sprite) => {
                if sprite.sprite_type == SpriteType::Particle {
                    let end_frame: usize = store.0[sprite.store_index].data.frames.len() - 1;
                    if sprite.frame == end_frame {
                        world.queue.push(Command::RemoveSprite(i));
                    }
                }
            },
            None => {},
        }
        assert(world.queue@ =~= old(world).queue@ + particle_removals(
            world.entities@.subrange(0, i + 1),
            store,
        ));
        i = i + 1;
    }
    assert(world.entities@.subrange(0, i as int) =~= world.entities@);
}

/// The entity is a crop that has grown as far as it can, in a night in
/// which crops grow: it gives way to grass.
pub open spec fn converts(e: Entity, action: SpriteAction) -> bool {
    &&& e.item()
    &&& e.interactible->0.item_type == ItemType::Crop
    &&& action.action == SpriteActionCommand::Grow
    &&& e.sprite->0.frame == FULL_GROWN
}

/// The entity is what the shovel digs up.
pub open spec fn uprooted(e: Entity, action: SpriteAction) -> bool {
    &&& e.item()
    &&& e.interactible->0.item_type != ItemType::Terminal
    &&& action.action == SpriteActionCommand::Delete
    &&& action.id == e.sprite->0.id
}

/// An entity after the action is applied. Only items change.
///
/// The terminal blinks while its message is unread and rests on its first
/// frame once it is read. In a night in which crops grow, a watered crop
/// that is not full grown moves on by one frame. The
/// item that the action names is watered, if it is dry, or sown, if it is
/// an empty crop; what is dug up or gives way to grass stays as it is
/// until the end of the tick.
#[verifier::opaque]
pub open spec fn acted(e: Entity, action: SpriteAction, read: bool, catalog: Catalog) -> Entity {
    if !e.item() {
        e
    } else {
        let sprite = e.sprite->0;
        let item = e.interactible->0.item_type;
        if item == ItemType::Terminal {
            if read {
                Entity { sprite: Some(Sprite { frame: 0, animating: false, ..sprite }), ..e }
            } else {
                Entity { sprite: Some(Sprite { animating: true, ..sprite }), ..e }
            }
        } else if action.action == SpriteActionCommand::Grow {
            if item == ItemType::Crop && WATERED <= sprite.frame < FULL_GROWN {
                Entity {
                    sprite: Some(Sprite { frame: (sprite.frame + 1) as usize, ..sprite }),
                    ..e
                }
            } else {
                e
            }
        } else if action.id != sprite.id {
            e
        } else if action.action == SpriteActionCommand::Water {
            if sprite.frame < WATERED {
                Entity {
                    sprite: Some(Sprite { frame: (sprite.frame + WATERED) as usize, ..sprite }),
                    ..e
                }
            } else {
                e
            }
        } else if action.action == SpriteActionCommand::Seed {
            if sprite.store_index == catalog.crop_empty {
                Entity {
                    sprite: Some(Sprite { frame: 0, store_index: catalog.crop_leaf, ..sprite }),
                    ..e
                }
            } else {
                e
            }
        } else if action.action == SpriteActionCommand::Seed2 {
            if sprite.store_index == catalog.crop_empty {
                Entity {
                    sprite: Some(Sprite { frame: 0, store_index: catalog.crop_flower, ..sprite }),
                    ..e
                }
            } else {
                e
            }
        } else {
            e
        }
    }
}

/// The sprite of grass that has just come up.
pub open spec fn grass_sprite(catalog: Catalog, flip: bool, frame: usize) -> Sprite {
    Sprite {
        store_index: catalog.grass,
        flip,
        frame,
        animating: true,
        sprite_type: SpriteType::Crop,
        ..Sprite::blank()
    }
}

/// The grass that takes the place of a crop: where the crop was, facing
/// and on a frame that chance decides.
pub open spec fn grass_for(e: Entity, catalog: Catalog, id: usize, flip: bool, frame: usize) -> Entity {
    spawned(
        grass_sprite(catalog, flip, frame),
        id,
        (e.position->0.x, e.position->0.y),
        DEPTH_CROPS,
        Some(Interactible { item_type: ItemType::Grass, hold_to_use: false }),
        None,
    )
}

/// The number of crops that give way to grass.
pub open spec fn conversions(entities: Seq<Entity>, action: SpriteAction) -> nat
    decreases entities.len(),
{
    if entities.len() == 0 {
        0
    } else {
        conversions(entities.drop_last(), action) + if converts(entities.last(), action) {
            1nat
        } else {
            0nat
        }
    }
}

/// The changes that applying the action asks for, in the order of the
/// table: a crop that gives way to grass is removed and grass is spawned,
/// with the next id; what is dug up is removed. `dice` holds, for each
/// entity, the facing and the frame that chance gives the grass it may
/// give way to.
pub open spec fn action_commands(
    entities: Seq<Entity>,
    action: SpriteAction,
    catalog: Catalog,
    first: int,
    dice: Seq<(bool, usize)>,
) -> Seq<Command>
    decreases entities.len(),
{
    if entities.len() == 0 {
        seq![]
    } else {
        let front = action_commands(entities.drop_last(), action, catalog, first, dice.drop_last());
        let e = entities.last();
        let row = (entities.len() - 1) as usize;
        if converts(e, action) {
            front.push(Command::RemoveItem(row)).push(
                Command::Spawn(
                    grass_for(
                        e,
                        catalog,
                        (first + conversions(entities.drop_last(), action)) as usize,
                        dice.last().0,
                        dice.last().1,
                    ),
                ),
            )
        } else if uprooted(e, action) {
            front.push(Command::RemoveItem(row))
        } else {
            front
        }
    }
}

/// The catalog knows the sheet of the grass.
pub open spec fn grass_known(store: &SpriteStore, catalog: Catalog) -> bool {
    names(store, "grass"@, catalog.grass, CROP_FRAMES as int)
}

/// The catalog knows the sheet that the action turns an empty crop into.
pub open spec fn seed_known(store: &SpriteStore, catalog: Catalog, action: SpriteAction) -> bool {
    &&& action.action == SpriteActionCommand::Seed ==> names(
        store,
        "crop-leaf"@,
        catalog.crop_leaf,
        CROP_FRAMES as int,
    )
    &&& action.action == SpriteActionCommand::Seed2 ==> names(
        store,
        "crop-flower"@,
        catalog.crop_flower,
        CROP_FRAMES as int,
    )
}

/// The action sows into the entity: it is the item that a seed packet is
/// used on, and it is an empty crop.
pub open spec fn sows_into(e: Entity, action: SpriteAction, catalog: Catalog) -> bool {
    &&& e.item()
    &&& e.interactible->0.item_type != ItemType::Terminal
    &&& action.action == SpriteActionCommand::Seed || action.action == SpriteActionCommand::Seed2
    &&& action.id == e.sprite->0.id
    &&& e.sprite->0.store_index == catalog.crop_empty
}

/// Where the action sows into an empty crop, the catalog knows the sheet
/// that the seed grows into.
pub open spec fn seed_at_hand(
    entities: Seq<Entity>,
    action: SpriteAction,
    store: &SpriteStore,
    catalog: Catalog,
) -> bool {
    forall|i: int|
        0 <= i < entities.len() && sows_into(#[trigger] entities[i], action, catalog)
            ==> seed_known(store, catalog, action)
}

/// Tells whether the action sows into the entity.
pub fn is_sown(e: Entity, action: SpriteAction, catalog: Catalog) -> (yes: bool)
    ensures
        yes == sows_into(e, action, catalog),
{
    match (e.interactible, e.sprite, e.position) {
        (Some(item), Some(sprite), Some(_)) => item.item_type != ItemType::Terminal && (
        action.action == SpriteActionCommand::Seed || action.action == SpriteActionCommand::Seed2)
            && action.id == sprite.id && sprite.store_index == catalog.crop_empty,
        _ => false,
    }
}

/// Where a crop gives way to grass, the catalog knows the sheet of the
/// grass.
pub open spec fn grass_at_hand(
    entities: Seq<Entity>,
    action: SpriteAction,
    store: &SpriteStore,
    catalog: Catalog,
) -> bool {
    forall|i: int|
        0 <= i < entities.len() && converts(#[trigger] entities[i], action) ==> grass_known(
            store,
            catalog,
        )
}

/// Every frame that chance chose is a frame of the grass, where the store
/// has grass.
pub open spec fn dice_fit(dice: Seq<(bool, usize)>, store: &SpriteStore, catalog: Catalog) -> bool {
    grass_known(store, catalog) ==> forall|i: int|
        0 <= i < dice.len() ==> (#[trigger] dice[i]).1 < store.0@[catalog.grass as int].frame_count()
}

/// How the table and the queue come out of applying the action, for the
/// choices that chance made.
pub open spec fn action_applied(
    before: World,
    after: World,
    action: SpriteAction,
    catalog: Catalog,
    dice: Seq<(bool, usize)>,
) -> bool {
    &&& dice.len() == before.entities@.len()
    &&& after.entities@.len() == before.entities@.len()
    &&& forall|i: int|
        0 <= i < before.entities@.len() ==> #[trigger] after.entities@[i] == acted(
            before.entities@[i],
            action,
            before.game.terminal_read,
            catalog,
        )
    &&& after.queue@ == before.queue@ + action_commands(
        before.entities@,
        action,
        catalog,
        before.indexer.0 + 1,
        dice,
    )
    &&& after.indexer.0 == before.indexer.0 + conversions(before.entities@, action)
    &&& after.game == before.game
}

/// Applies the action to one entity.
pub fn act_on(e: Entity, action: SpriteAction, read: bool, catalog: Catalog) -> (after: Entity)
    ensures
        after == acted(e, action, read, catalog),
{
    reveal(acted);
    match (e.interactible, e.sprite, e.position) {
        (Some(item), Some(sprite), Some(_)) => {
            let mut sprite: Sprite = sprite;
            if item.item_type == ItemType::Terminal {
                if read {
                    sprite.frame = 0;
                    sprite.animating = false;
                } else {
                    sprite.animating = true;
                }
            } else if action.action == SpriteActionCommand::Grow {
                if item.item_type == ItemType::Crop && sprite.frame >= WATERED && sprite.frame
                    < FULL_GROWN {
                    sprite.frame = sprite.frame + 1;
                }
            } else if action.id != sprite.id {
            } else if action.action == SpriteActionCommand::Water {
                if sprite.frame < WATERED {
                    sprite.frame = sprite.frame + WATERED;
                }
            } else if action.action == SpriteActionCommand::Seed {
                if sprite.store_index == catalog.crop_empty {
                    sprite.frame = 0;
                    sprite.store_index = catalog.crop_leaf;
                }
            } else if action.action == SpriteActionCommand::Seed2 {
                if sprite.store_index == catalog.crop_empty {
                    sprite.frame = 0;
                    sprite.store_index = catalog.crop_flower;
                }
            }
            Entity { sprite: Some(sprite), ..e }
        },
        _ => e,
    }
}

/// Tells whether a crop gives way to grass.
pub fn is_converting(e: Entity, action: SpriteAction) -> (yes: bool)
    ensures
        yes == converts(e, action),
{
    match (e.interactible, e.sprite, e.position) {
        (Some(item), Some(sprite), Some(_)) => item.item_type == ItemType::Crop && action.action
            == SpriteActionCommand::Grow && sprite.frame == FULL_GROWN,
        _ => false,
    }
}

/// Tells whether an entity is dug up.
pub fn is_uprooted(e: Entity, action: SpriteAction) -> (yes: bool)
    ensures
        yes == uprooted(e, action),
{
    match (e.interactible, e.sprite, e.position) {
        (Some(item), Some(sprite), Some(_)) => item.item_type != ItemType::Terminal && action.action
            == SpriteActionCommand::Delete && action.id == sprite.id,
        _ => false,
    }
}

/// Applies the action to every item, and asks for the removals and the
/// grass that follow from it.
pub fn apply_action(
    world: &mut World,
    store: &SpriteStore,
    catalog: Catalog,
    action: SpriteAction,
    rng: &mut StdRng,
)
    requires
        grass_at_hand(old(world).entities@, action, store, catalog),
        old(world).indexer.0 + old(world).entities@.len() <= id_limit(),
    ensures
        exists|dice: Seq<(bool, usize)>|
            dice_fit(dice, store, catalog) && #[trigger] action_applied(
                *old(world),
                *final(world),
                action,
                catalog,
                dice,
            ),
{
    let ghost mut dice: Seq<(bool, usize)> = Seq::empty();
    let read: bool = world.game.terminal_read;
    let mut i: usize = 0;
    assert(world.entities@.subrange(0, 0) =~= Seq::<Entity>::empty());
    assert(world.queue@ =~= old(world).queue@ + action_commands(
        old(world).entities@.subrange(0, 0),
        action,
        catalog,
        old(world).indexer.0 + 1,
        dice,
    ));
    while i < world.entities.len()
        invariant
            i <= world.entities@.len(),
            world.entities@.len() == old(world).entities@.len(),
            world.game == old(world).game,
            read == old(world).game.terminal_read,
            grass_at_hand(old(world).entities@, action, store, catalog),
            old(world).indexer.0 + old(world).entities@.len() <= id_limit(),
            dice.len() == i,
            dice_fit(dice, store, catalog),
            forall|j: int|
                0 <= j < i ==> #[trigger] world.entities@[j] == acted(
                    old(world).entities@[j],
                    action,
                    read,
                    catalog,
                ),
            forall|j: int|
                i <= j < world.entities@.len() ==> #[trigger] world.entities@[j] == old(
                    world,
                ).entities@[j],
            world.queue@ == old(world).queue@ + action_commands(
                old(world).entities@.subrange(0, i as int),
                action,
                catalog,
                old(world).indexer.0 + 1,
                dice,
            ),
            world.indexer.0 == old(world).indexer.0 + conversions(
                old(world).entities@.subrange(0, i as int),
                action,
            ),
            conversions(old(world).entities@.subrange(0, i as int), action) <= i,
        decreases world.entities@.len() - i,
    {
        let e: Entity = world.entities[i];
        let ghost upto = old(world).entities@.subrange(0, i + 1);
        let ghost was = dice;
        proof {
            assert(upto.drop_last() =~= old(world).entities@.subrange(0, i as int));
            assert(upto.last() == e);
        }
        let after: Entity = act_on(e, action, read, catalog);
        world.entities.set(i, after);
        if is_converting(e, action) {
            assert(converts(old(world).entities@[i as int], action));
            let count: usize = store.0[catalog.grass].data.frames.len();
            let flip: bool = pick_below(rng, 0, 2) == 0;
            let frame: usize = pick_below(rng, 0, count as u64) as usize;
            proof {
                dice = dice.push((flip, frame));
                assert(dice.drop_last() =~= was);
            }
            match e.position {
                Some(pos) => {
                    world.queue.push(Command::RemoveItem(i));
                    let sprite = Sprite {
                        id: 0,
                        store_index: catalog.grass,
                        flip,
                        frame,
                        animating: true,
                        last_animate: 0,
                        last_move: 0,
                        sprite_type: SpriteType::Crop,
                        highlight: false,
                        hidden: false,
                        delete: false,
                    };
                    world.spawn(
                        sprite,
                        (pos.x, pos.y),
                        DEPTH_CROPS,
                        Some(Interactible { item_type: ItemType::Grass, hold_to_use: false }),
                        None,
                    );
                },
                None => {},
            }
        } else {
            proof {
                dice = dice.push((false, 0));
                assert(dice.drop_last() =~= was);
            }
            if is_uprooted(e, action) {
                world.queue.push(Command::RemoveItem(i));
            }
        }
        assert(world.queue@ =~= old(world).queue@ + action_commands(
            upto,
            action,
            catalog,
            old(world).indexer.0 + 1,
            dice,
        ));
        i = i + 1;
    }
    assert(old(world).entities@.subrange(0, i as int) =~= old(world).entities@);
    assert(action_applied(*old(world), *world, action, catalog, dice));
}

/// Applying the action leaves an entity what it was, and in order too,
/// provided that what is watered is a crop.
pub(crate) proof fn lemma_acted_keeps(
    e: Entity,
    action: SpriteAction,
    read: bool,
    catalog: Catalog,
    store: &SpriteStore,
)
    requires
        sows_into(e, action, catalog) ==> seed_known(store, catalog, action),
    ensures
        e.same_shape(acted(e, action, read, catalog)),
        e.ok(store) && (action.action == SpriteActionCommand::Water && e.item() && e.id() == action.id
            ==> e.sprite->0.sprite_type == SpriteType::Crop) ==> acted(
            e,
            action,
            read,
            catalog,
        ).ok(store),
{
    reveal(acted);
}

} // verus!
