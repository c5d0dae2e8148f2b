//! The story: nine stages, each passed by sleeping in the pod once what the
//! stage asks for has been done.

use vstd::prelude::*;
use crate::catalog::Catalog;
use crate::catalog::names;
use crate::input::TickInput;
use crate::sprite::SpriteStore;
use crate::state::DEPTH_PLAYER;
use crate::state::DEPTH_TOOLS;
use crate::state::FINAL_STAGE;
use crate::state::Game;
use crate::state::Interactible;
use crate::state::ItemType;
use crate::state::Npc;
use crate::state::Sprite;
use crate::state::SpriteType;
use crate::world::Command;
use crate::world::Entity;
use crate::world::World;
use crate::world::id_limit;
use crate::world::spawned;

verus! {

/// The stage asks that its message has been read. Only the second stage
/// does not.
pub open spec fn asks_read(stage: usize) -> bool {
    stage != 1
}

/// The stage asks for a crop in some state.
pub open spec fn asks_crop(stage: usize) -> bool {
    stage == 1 || stage == 3 || stage == 4 || stage == 6
}

/// The entity is a crop in the state that the stage asks for: watered or
/// grown past its first frame at the second stage; a flower at the fourth;
/// a flower on its third frame, dry or watered, at the fifth; and on its
/// fourth at the seventh.
pub open spec fn crop_ready(e: Entity, stage: usize, catalog: Catalog) -> bool {
    &&& e.interactible is Some
    &&& e.sprite is Some
    &&& e.interactible->0.item_type == ItemType::Crop
    &&& if stage == 1 {
        e.sprite->0.frame > 0
    } else if stage == 3 {
        e.sprite->0.store_index == catalog.crop_flower
    } else if stage == 4 {
        e.sprite->0.store_index == catalog.crop_flower && (e.sprite->0.frame == 2
            || e.sprite->0.frame == 5)
    } else if stage == 6 {
        e.sprite->0.store_index == catalog.crop_flower && (e.sprite->0.frame == 3
            || e.sprite->0.frame == 6)
    } else {
        false
    }
}

/// Some entity is a crop in the state that the stage asks for.
pub open spec fn some_crop_ready(entities: Seq<Entity>, stage: usize, catalog: Catalog) -> bool {
    exists|i: int| 0 <= i < entities.len() && crop_ready(#[trigger] entities[i], stage, catalog)
}

/// What the stage asks for has been done. Nothing follows the last stage.
pub open spec fn stage_passed(stage: usize, read: bool, entities: Seq<Entity>, catalog: Catalog) -> bool {
    &&& stage < FINAL_STAGE
    &&& asks_read(stage) ==> read
    &&& asks_crop(stage) ==> some_crop_ready(entities, stage, catalog)
}

/// The game after a night in the pod: the transition is shown, and if the
/// stage is passed, the story is at the next stage with an unread message.
pub open spec fn game_after_sleep(game: Game, entities: Seq<Entity>, catalog: Catalog) -> Game {
    if stage_passed(game.terminal_message_index, game.terminal_read, entities, catalog) {
        Game {
            show_transition: true,
            terminal_message_index: (game.terminal_message_index + 1) as usize,
            terminal_read: false,
            ..game
        }
    } else {
        Game { show_transition: true, ..game }
    }
}

/// An overlay starts its animation again.
pub open spec fn rewound(e: Entity) -> Entity {
    if e.visible() && e.sprite->0.sprite_type == SpriteType::Overlay {
        Entity { sprite: Some(Sprite { frame: 0, ..e.sprite->0 }), ..e }
    } else {
        e
    }
}

/// The sprite of the second seed packet.
pub open spec fn packet2_sprite(catalog: Catalog) -> Sprite {
    Sprite { store_index: catalog.tool_packet2, sprite_type: SpriteType::Tool, ..Sprite::blank() }
}

/// The sprite of the other character.
pub open spec fn visitor_sprite(catalog: Catalog) -> Sprite {
    Sprite { store_index: catalog.character_01, sprite_type: SpriteType::Tool, ..Sprite::blank() }
}

/// The middle of a terminal of the given size.
pub open spec fn middle(size: (u16, u16)) -> (i64, i64) {
    ((size.0 / 2) as i64, (size.1 / 2) as i64)
}

/// What passing a stage brings: the second seed packet, in the middle of
/// the field, after the third stage; the other character, who walks in from
/// the top towards the middle, after the eighth.
pub open spec fn gift_of(stage: usize, catalog: Catalog, id: usize, input: TickInput) -> Option<Entity> {
    if stage == 2 {
        Some(
            spawned(
                packet2_sprite(catalog),
                id,
                middle(input.size),
                DEPTH_TOOLS,
                Some(Interactible { item_type: ItemType::Packet2, hold_to_use: true }),
                None,
            ),
        )
    } else if stage == 7 {
        Some(
            spawned(
                visitor_sprite(catalog),
                id,
                (middle(input.size).0, 0),
                DEPTH_PLAYER,
                Some(Interactible { item_type: ItemType::Npc, hold_to_use: false }),
                Some(
                    Npc {
                        move_target: middle(input.size),
                        last_move: input.time,
                        move_wait: 200,
                        move_stop: 2000,
                    },
                ),
            ),
        )
    } else {
        None
    }
}

/// Where the night brings something, the catalog knows its sheet.
pub open spec fn gift_known(
    game: Game,
    entities: Seq<Entity>,
    catalog: Catalog,
    store: &SpriteStore,
) -> bool {
    stage_passed(game.terminal_message_index, game.terminal_read, entities, catalog) ==> {
        &&& game.terminal_message_index == 2 ==> names(
            store,
            "tool-packet2"@,
            catalog.tool_packet2,
            1,
        )
        &&& game.terminal_message_index == 7 ==> names(
            store,
            "character-01"@,
            catalog.character_01,
            2,
        )
    }
}

/// The entity is a crop, sown or not.
pub open spec fn is_crop(e: Entity) -> bool {
    e.interactible is Some && e.sprite is Some && e.interactible->0.item_type == ItemType::Crop
}

/// Some entity is a crop.
pub open spec fn has_crop(entities: Seq<Entity>) -> bool {
    exists|i: int| 0 <= i < entities.len() && is_crop(#[trigger] entities[i])
}

/// Tells whether some entity is a crop.
pub fn any_crop(entities: &Vec<Entity>) -> (yes: bool)
    ensures
        yes == has_crop(entities@),
{
    let mut i: usize = 0;
    while i < entities.len()
        invariant
            i <= entities@.len(),
            forall|j: int| 0 <= j < i ==> !is_crop(#[trigger] entities@[j]),
        decreases entities@.len() - i,
    {
        let e: Entity = entities[i];
        let crop: bool = match (e.interactible, e.sprite) {
            (Some(item), Some(_)) => item.item_type == ItemType::Crop,
            _ => false,
        };
        if crop {
            assert(is_crop(entities@[i as int]));
            return true;
        }
        i = i + 1;
    }
    false
}

/// Starts the animation of an overlay again.
pub fn rewind_one(e: Entity) -> (after: Entity)
    ensures
        after == rewound(e),
{
    match (e.sprite, e.position) {
        (Some(sprite), Some(_)) => {
            if sprite.sprite_type == SpriteType::Overlay {
                Entity { sprite: Some(Sprite { frame: 0, ..sprite }), ..e }
            } else {
                e
            }
        },
        _ => e,
    }
}

/// The changes that a night in the pod asks for.
pub open spec fn gifts_after_sleep(
    game: Game,
    entities: Seq<Entity>,
    catalog: Catalog,
    id: usize,
    input: TickInput,
) -> Seq<Command> {
    if stage_passed(game.terminal_message_index, game.terminal_read, entities, catalog) {
        match gift_of(game.terminal_message_index, catalog, id, input) {
            Some(e) => seq![Command::Spawn(e)],
            None => seq![],
        }
    } else {
        seq![]
    }
}

/// Starts the animation of every overlay again.
pub fn rewind_overlays(entities: &mut Vec<Entity>)
    ensures
        final(entities)@.len() == old(entities)@.len(),
        forall|i: int|
            0 <= i < old(entities)@.len() ==> #[trigger] final(entities)@[i] == rewound(
                old(entities)@[i],
            ),
{
    let mut i: usize = 0;
    while i < entities.len()
        invariant
            i <= entities@.len(),
            entities@.len() == old(entities)@.len(),
            forall|j: int| 0 <= j < i ==> #[trigger] entities@[j] == rewound(old(entities)@[j]),
            forall|j: int| i <= j < entities@.len() ==> #[trigger] entities@[j] == old(entities)@[j],
        decreases entities@.len() - i,
    {
        let e: Entity = entities[i];
        match (e.sprite, e.position) {
            (Some(sprite), Some(_)) => {
                if sprite.sprite_type == SpriteType::Overlay {
                    entities.set(i, Entity { sprite: Some(Sprite { frame: 0, ..sprite }), ..e });
                }
            },
            _ => {},
        }
        i = i + 1;
    }
}

/// Tells whether an entity is a crop in the state that the stage asks for.
pub fn is_crop_ready(e: Entity, stage: usize, catalog: Catalog) -> (ready: bool)
    ensures
        ready == crop_ready(e, stage, catalog),
{
    match (e.interactible, e.sprite) {
        (Some(item), Some(sprite)) => {
            item.item_type == ItemType::Crop && if stage == 1 {
                sprite.frame > 0
            } else if stage == 3 {
                sprite.store_index == catalog.crop_flower
            } else if stage == 4 {
                sprite.store_index == catalog.crop_flower && (sprite.frame == 2 || sprite.frame
                    == 5)
            } else if stage == 6 {
                sprite.store_index == catalog.crop_flower && (sprite.frame == 3 || sprite.frame
                    == 6)
            } else {
                false
            }
        },
        _ => false,
    }
}

/// Tells whether what the stage asks for has been done.
pub fn is_stage_passed(stage: usize, read: bool, entities: &Vec<Entity>, catalog: Catalog) -> (passed: bool)
    ensures
        passed == stage_passed(stage, read, entities@, catalog),
{
    if stage >= FINAL_STAGE {
        return false;
    }
    if stage != 1 && !read {
        return false;
    }
    if !(stage == 1 || stage == 3 || stage == 4 || stage == 6) {
        return true;
    }
    let mut i: usize = 0;
    while i < entities.len()
        invariant
            i <= entities@.len(),
            stage < FINAL_STAGE,
            asks_read(stage) ==> read,
            asks_crop(stage),
            forall|j: int| 0 <= j < i ==> !crop_ready(#[trigger] entities@[j], stage, catalog),
        decreases entities@.len() - i,
    {
        if is_crop_ready(entities[i], stage, catalog) {
            assert(crop_ready(entities@[i as int], stage, catalog));
            return true;
        }
        i = i + 1;
    }
    false
}

/// Lets a night in the pod pass: the overlays play again, and where the
/// stage is passed the story moves on and brings what the stage brings.
pub fn sleep(world: &mut World, catalog: Catalog, input: TickInput)
    requires
        old(world).indexer.0 < id_limit(),
        old(world).game.terminal_message_index <= FINAL_STAGE,
    ensures
        final(world).entities@.len() == old(world).entities@.len(),
        forall|i: int|
            0 <= i < old(world).entities@.len() ==> #[trigger] final(world).entities@[i] == rewound(
                old(world).entities@[i],
            ),
        final(world).game == game_after_sleep(old(world).game, final(world).entities@, catalog),
        final(world).queue@ == old(world).queue@ + gifts_after_sleep(
            old(world).game,
            final(world).entities@,
            catalog,
            (old(world).indexer.0 + 1) as usize,
            input,
        ),
        final(world).indexer.0 == old(world).indexer.0 + gifts_after_sleep(
            old(world).game,
            final(world).entities@,
            catalog,
            (old(world).indexer.0 + 1) as usize,
            input,
        ).len(),
        old(world).game.terminal_message_index <= final(world).game.terminal_message_index
            <= old(world).game.terminal_message_index + 1,
        final(world).game.terminal_message_index <= FINAL_STAGE,
{
    let ghost before = world.queue@;
    world.game.show_transition = true;
    rewind_overlays(&mut world.entities);
    let stage: usize = world.game.terminal_message_index;
    if is_stage_passed(stage, world.game.terminal_read, &world.entities, catalog) {
        world.game.advance_terminal();
        let mid: (i64, i64) = ((input.size.0 / 2) as i64, (input.size.1 / 2) as i64);
        if stage == 2 {
            let sprite = Sprite {
                id: 0,
                store_index: catalog.tool_packet2,
                flip: false,
                frame: 0,
                animating: false,
                last_animate: 0,
                last_move: 0,
                sprite_type: SpriteType::Tool,
                highlight: false,
                hidden: false,
                delete: false,
            };
            world.spawn(
                sprite,
                mid,
                DEPTH_TOOLS,
                Some(Interactible { item_type: ItemType::Packet2, hold_to_use: true }),
                None,
            );
        } else if stage == 7 {
            let sprite = Sprite {
                id: 0,
                store_index: catalog.character_01,
                flip: false,
                frame: 0,
                animating: false,
                last_animate: 0,
                last_move: 0,
                sprite_type: SpriteType::Tool,
                highlight: false,
                hidden: false,
                delete: false,
            };
            world.spawn(
                sprite,
                (mid.0, 0),
                DEPTH_PLAYER,
                Some(Interactible { item_type: ItemType::Npc, hold_to_use: false }),
                Some(
                    Npc { move_target: mid, last_move: input.time, move_wait: 200, move_stop: 2000 },
                ),
            );
        }
    }
    assert(world.queue@ =~= before + gifts_after_sleep(
        old(world).game,
        world.entities@,
        catalog,
        (old(world).indexer.0 + 1) as usize,
        input,
    ));
}

/// The story never goes back and never skips, and it moves on exactly when
/// what its present stage asks for has been done. That what an earlier
/// stage asked for has been done, or is done again, does not move it: with
/// it as without it, the night ends one stage on if the present stage is
/// passed, and at the same stage if it is not.
pub proof fn lemma_story_moves_forward(
    game: Game,
    entities: Seq<Entity>,
    catalog: Catalog,
    earlier: usize,
)
    requires
        earlier < game.terminal_message_index,
    ensures
        game.terminal_message_index <= game_after_sleep(game, entities, catalog).terminal_message_index
            <= game.terminal_message_index + 1,
        game_after_sleep(game, entities, catalog).terminal_message_index
            == game.terminal_message_index + 1 <==> stage_passed(
            game.terminal_message_index,
            game.terminal_read,
            entities,
            catalog,
        ),
        stage_passed(earlier, game.terminal_read, entities, catalog) ==> (game_after_sleep(
            game,
            entities,
            catalog,
        ).terminal_message_index == game.terminal_message_index <==> !stage_passed(
            game.terminal_message_index,
            game.terminal_read,
            entities,
            catalog,
        )),
{
}

/// Rewinding changes neither what an entity is nor whether it is in order.
pub(crate) proof fn lemma_rewound_keeps(e: Entity, store: &SpriteStore)
    ensures
        e.same_shape(rewound(e)),
        e.ok(store) ==> rewound(e).ok(store),
{
}

} // verus!
