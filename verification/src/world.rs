//! The table of entities, the changes that wait for the end of the tick, and
//! what it means for both to be in order.

use vstd::prelude::*;
use crate::sprite::SpriteStore;
use crate::state::FINAL_STAGE;
use crate::state::Game;
use crate::state::Interactible;
use crate::state::ItemType;
use crate::state::Npc;
use crate::state::Position;
use crate::state::Sprite;
use crate::state::SpriteIndexer;
use crate::state::SpriteType;

verus! {

/// One row of the table: the components that an entity has. Rows are never
/// taken out of the table, so a row number names an entity for good.
#[derive(Clone, Copy, Debug)]
pub struct Entity {
    pub position: Option<Position>,
    pub sprite: Option<Sprite>,
    pub interactible: Option<Interactible>,
    pub npc: Option<Npc>,
}

/// A change to the table that waits until the simulation has read it.
#[derive(Clone, Copy, Debug)]
pub enum Command {
    /// Adds a row.
    Spawn(Entity),
    /// Takes sprite and position from a row.
    RemoveSprite(usize),
    /// Takes sprite, position and interactible from a row.
    RemoveItem(usize),
}

/// Everything that a tick reads and changes.
pub struct World {
    pub entities: Vec<Entity>,
    pub game: Game,
    pub indexer: SpriteIndexer,
    pub queue: Vec<Command>,
}

/// The largest id for which every depth can still be computed.
pub open spec fn id_limit() -> int {
    if usize::MAX < 0x7fff_ffff_0000_0000 {
        usize::MAX as int
    } else {
        0x7fff_ffff_0000_0000
    }
}

impl Entity {
    /// The entity can be drawn: it has a sprite and a position.
    pub open spec fn visible(&self) -> bool {
        self.sprite is Some && self.position is Some
    }

    /// The entity takes part in the search for what is near the player.
    pub open spec fn item(&self) -> bool {
        self.interactible is Some && self.sprite is Some && self.position is Some
    }

    /// The entity moves on its own.
    pub open spec fn walker(&self) -> bool {
        self.npc is Some && self.sprite is Some && self.position is Some
    }

    /// The id of the entity's sprite, zero where it has none.
    pub open spec fn id(&self) -> usize {
        match self.sprite {
            Some(s) => s.id,
            None => 0,
        }
    }

    /// The sprite names an asset of the store and one of its frames. A crop
    /// can be watered and grows, so its asset has the eight frames of a crop;
    /// one that
    /// walks can be held, so its asset has a second frame. What can be
    /// searched for has an id.
    pub open spec fn ok(&self, store: &SpriteStore) -> bool {
        match self.sprite {
            Some(s) => {
                &&& s.store_index < store.0@.len()
                &&& s.frame < store.0@[s.store_index as int].frame_count()
                &&& s.sprite_type == SpriteType::Crop ==> store.0@[s.store_index as int].frame_count()
                    >= 8
                &&& self.interactible is Some && self.interactible->0.item_type == ItemType::Crop
                    ==> store.0@[s.store_index as int].frame_count() >= 8
                &&& self.npc is Some ==> store.0@[s.store_index as int].frame_count() >= 2
                &&& self.interactible is Some ==> s.id != 0
            },
            None => true,
        }
    }

    /// `after` is the same entity as `self`, at another moment of one tick:
    /// it has the same components, the same id and the same kind.
    pub open spec fn same_shape(&self, after: Entity) -> bool {
        &&& (self.position is Some) == (after.position is Some)
        &&& (self.npc is Some) == (after.npc is Some)
        &&& self.interactible == after.interactible
        &&& match self.sprite {
            Some(s) => after.sprite is Some && after.sprite->0.id == s.id
                && after.sprite->0.sprite_type == s.sprite_type,
            None => after.sprite is None,
        }
    }
}

/// The entity that is spawned for the given components and id.
pub open spec fn spawned(
    sprite: Sprite,
    id: usize,
    at: (i64, i64),
    layer: i64,
    interactible: Option<Interactible>,
    npc: Option<Npc>,
) -> Entity {
    Entity {
        position: Some(Position { x: at.0, y: at.1, z: (layer + id) as i64 }),
        sprite: Some(Sprite { id, ..sprite }),
        interactible,
        npc,
    }
}

/// Every entity is in order.
pub open spec fn all_ok(entities: Seq<Entity>, store: &SpriteStore) -> bool {
    forall|i: int| 0 <= i < entities.len() ==> (#[trigger] entities[i]).ok(store)
}

/// No id but zero is carried by two entities.
pub open spec fn ids_unique(entities: Seq<Entity>) -> bool {
    forall|i: int, j: int|
        0 <= i < entities.len() && 0 <= j < entities.len() && i != j && (#[trigger] entities[i]).id()
            == (#[trigger] entities[j]).id() ==> entities[i].id() == 0
}

/// No entity carries an id above `top`.
pub open spec fn ids_within(entities: Seq<Entity>, top: int) -> bool {
    forall|i: int| 0 <= i < entities.len() ==> (#[trigger] entities[i]).id() <= top
}

/// Row by row, `after` holds the same entities as `before`.
pub open spec fn same_shapes(before: Seq<Entity>, after: Seq<Entity>) -> bool {
    &&& before.len() == after.len()
    &&& forall|i: int| 0 <= i < before.len() ==> (#[trigger] before[i]).same_shape(after[i])
}

/// The table after one change.
pub open spec fn apply(entities: Seq<Entity>, command: Command) -> Seq<Entity> {
    match command {
        Command::Spawn(e) => entities.push(e),
        Command::RemoveSprite(i) => if i < entities.len() {
            entities.update(i as int, Entity { sprite: None, position: None, ..entities[i as int] })
        } else {
            entities
        },
        Command::RemoveItem(i) => if i < entities.len() {
            entities.update(
                i as int,
                Entity { sprite: None, position: None, interactible: None, ..entities[i as int] },
            )
        } else {
            entities
        },
    }
}

/// The table after a list of changes, made in order.
pub open spec fn apply_all(entities: Seq<Entity>, commands: Seq<Command>) -> Seq<Entity>
    decreases commands.len(),
{
    if commands.len() == 0 {
        entities
    } else {
        apply(apply_all(entities, commands.drop_last()), commands.last())
    }
}

/// The waiting changes are in order: what is spawned is a sound entity with
/// a sprite, the ids of the spawned grow along the queue and lie above
/// `base` and not above `top`, and what is removed is a row of the table.
pub open spec fn queue_ok(queue: Seq<Command>, rows: int, base: int, top: int, store: &SpriteStore) -> bool {
    &&& forall|k: int|
        0 <= k < queue.len() ==> match #[trigger] queue[k] {
            Command::Spawn(e) => e.sprite is Some && e.ok(store) && base < e.id() <= top,
            Command::RemoveSprite(i) => i < rows,
            Command::RemoveItem(i) => i < rows,
        }
    &&& forall|k: int, m: int|
        0 <= k < m < queue.len() ==> match (#[trigger] queue[k], #[trigger] queue[m]) {
            (Command::Spawn(a), Command::Spawn(b)) => a.id() < b.id(),
            _ => true,
        }
}

impl Game {
    /// The narrative is at one of its stages, and each stage has a message.
    pub open spec fn wf(&self) -> bool {
        self.terminal_message_index <= FINAL_STAGE < self.terminal_messages@.len()
    }
}

impl World {
    /// The state of the table between ticks: every entity in order, ids
    /// apart and not above the last one handed out, and nothing waiting.
    pub open spec fn wf(&self, store: &SpriteStore) -> bool {
        &&& all_ok(self.entities@, store)
        &&& ids_unique(self.entities@)
        &&& ids_within(self.entities@, self.indexer.0 as int)
        &&& self.queue@.len() == 0
        &&& self.game.wf()
    }

    /// A table without entities, with the game at its start.
    pub fn new(game: Game) -> (world: World)
        ensures
            world.entities@.len() == 0,
            world.queue@.len() == 0,
            world.indexer.0 == 0,
            world.game == game,
    {
        World { entities: Vec::new(), game, indexer: SpriteIndexer(0), queue: Vec::new() }
    }

    /// Asks for a new entity with the given components. Its sprite gets the
    /// next id, and its depth is that id above `layer`.
    pub fn spawn(
        &mut self,
        sprite: Sprite,
        at: (i64, i64),
        layer: i64,
        interactible: Option<Interactible>,
        npc: Option<Npc>,
    ) -> (id: usize)
        requires
            old(self).indexer.0 < id_limit(),
            0 <= layer <= 0x7fff_ffff,
        ensures
            id == old(self).indexer.0 + 1,
            final(self).indexer.0 == id,
            final(self).queue@ == old(self).queue@.push(
                Command::Spawn(spawned(sprite, id, at, layer, interactible, npc)),
            ),
            final(self).entities == old(self).entities,
            final(self).game == old(self).game,
    {
        let id: usize = self.indexer.new_index();
        let e = Entity {
            position: Some(Position { x: at.0, y: at.1, z: layer + id as i64 }),
            sprite: Some(Sprite { id, ..sprite }),
            interactible,
            npc,
        };
        self.queue.push(Command::Spawn(e));
        id
    }

    /// Makes the waiting changes, in the order in which they were asked for.
    pub fn flush(&mut self)
        ensures
            final(self).entities@ == apply_all(old(self).entities@, old(self).queue@),
            final(self).queue@.len() == 0,
            final(self).game == old(self).game,
            final(self).indexer == old(self).indexer,
    {
        let mut i: usize = 0;
        assert(self.queue@.subrange(0, 0) =~= Seq::<Command>::empty());
        while i < self.queue.len()
            invariant
                i <= self.queue@.len(),
                self.queue@ == old(self).queue@,
                self.game == old(self).game,
                self.indexer == old(self).indexer,
                self.entities@ == apply_all(old(self).entities@, self.queue@.subrange(0, i as int)),
            decreases self.queue@.len() - i,
        {
            let command: Command = self.queue[i];
            proof {
                let upto = self.queue@.subrange(0, i + 1);
                assert(upto.drop_last() =~= self.queue@.subrange(0, i as int));
                assert(upto.last() == command);
            }
            match command {
                Command::Spawn(e) => {
                    self.entities.push(e);
                },
                Command::RemoveSprite(at) => {
                    if at < self.entities.len() {
                        let mut e: Entity = self.entities[at];
                        e.sprite = None;
                        e.position = None;
                        self.entities.set(at, e);
                    }
                },
                Command::RemoveItem(at) => {
                    if at < self.entities.len() {
                        let mut e: Entity = self.entities[at];
                        e.sprite = None;
                        e.position = None;
                        e.interactible = None;
                        self.entities.set(at, e);
                    }
                },
            }
            i = i + 1;
        }
        assert(self.queue@.subrange(0, i as int) =~= self.queue@);
        self.queue.clear();
    }
}

/// A sound queue stays sound when it is asked to spawn a sound entity with
/// the next id, or to remove from a row of the table.
pub(crate) proof fn lemma_queue_grows(
    queue: Seq<Command>,
    command: Command,
    rows: int,
    base: int,
    top: int,
    store: &SpriteStore,
)
    requires
        queue_ok(queue, rows, base, top, store),
        base <= top,
        match command {
            Command::Spawn(e) => e.sprite is Some && e.ok(store) && e.id() == top + 1,
            Command::RemoveSprite(i) => i < rows,
            Command::RemoveItem(i) => i < rows,
        },
    ensures
        queue_ok(queue.push(command), rows, base, top + 1, store),
        queue_ok(queue, rows, base, top + 1, store),
{
    let longer = queue.push(command);
    assert forall|k: int| 0 <= k < longer.len() implies match #[trigger] longer[k] {
        Command::Spawn(e) => e.sprite is Some && e.ok(store) && base < e.id() <= top + 1,
        Command::RemoveSprite(i) => i < rows,
        Command::RemoveItem(i) => i < rows,
    } by {
        if k < queue.len() {
            assert(longer[k] == queue[k]);
        }
    }
    assert forall|k: int, m: int| 0 <= k < m < longer.len() implies match (
        #[trigger] longer[k],
        #[trigger] longer[m],
    ) {
        (Command::Spawn(a), Command::Spawn(b)) => a.id() < b.id(),
        _ => true,
    } by {
        assert(longer[k] == queue[k]);
        if m < queue.len() {
            assert(longer[m] == queue[m]);
        }
    }
}

/// Entities that keep their shape keep their ids apart, and keep them under
/// the same bound.
pub(crate) proof fn lemma_shapes_keep_ids(before: Seq<Entity>, after: Seq<Entity>, top: int)
    requires
        same_shapes(before, after),
        ids_unique(before),
        ids_within(before, top),
    ensures
        ids_unique(after),
        ids_within(after, top),
{
    assert forall|i: int| 0 <= i < after.len() implies (#[trigger] after[i]).id() <= top by {
        assert(before[i].same_shape(after[i]));
        assert(before[i].id() <= top);
    }
    assert forall|i: int, j: int|
        0 <= i < after.len() && 0 <= j < after.len() && i != j && (#[trigger] after[i]).id() == (
        #[trigger] after[j]).id() implies after[i].id() == 0 by {
        assert(before[i].same_shape(after[i]));
        assert(before[j].same_shape(after[j]));
        assert(before[i].id() == before[j].id());
    }
}

/// Keeping one's shape carries over from step to step.
pub(crate) proof fn lemma_shapes_chain(a: Seq<Entity>, b: Seq<Entity>, c: Seq<Entity>)
    requires
        same_shapes(a, b),
        same_shapes(b, c),
    ensures
        same_shapes(a, c),
{
    assert forall|i: int| 0 <= i < a.len() implies (#[trigger] a[i]).same_shape(c[i]) by {
        assert(a[i].same_shape(b[i]));
        assert(b[i].same_shape(c[i]));
    }
}

/// Whether the queue spawns an entity with the given id.
pub open spec fn spawns_id(queue: Seq<Command>, id: int) -> bool {
    exists|k: int| 0 <= k < queue.len() && spawn_id(#[trigger] queue[k]) == Some(id)
}

/// The id of the entity that a change spawns, if it spawns one.
pub open spec fn spawn_id(command: Command) -> Option<int> {
    match command {
        Command::Spawn(e) => Some(e.id() as int),
        _ => None,
    }
}

/// Making the changes of a sound queue on a sound table leaves a sound
/// table: every entity in order, ids apart and not above `top`.
pub proof fn lemma_flush_keeps_order(
    entities: Seq<Entity>,
    queue: Seq<Command>,
    base: int,
    top: int,
    store: &SpriteStore,
)
    requires
        all_ok(entities, store),
        ids_unique(entities),
        ids_within(entities, base),
        0 <= base <= top,
        queue_ok(queue, entities.len() as int, base, top, store),
    ensures
        all_ok(apply_all(entities, queue), store),
        ids_unique(apply_all(entities, queue)),
        ids_within(apply_all(entities, queue), top),
    decreases queue.len(),
{
    if queue.len() > 0 {
        let front = queue.drop_last();
        let last = queue.last();
        assert forall|k: int| 0 <= k < front.len() implies front[k] == queue[k] by {}
        assert(queue_ok(front, entities.len() as int, base, top, store));
        lemma_flush_keeps_order(entities, front, base, top, store);
        let mid = apply_all(entities, front);
        let end = apply(mid, last);
        assert(end == apply_all(entities, queue));
        assert(queue[queue.len() - 1] == last);
        match last {
            Command::Spawn(e) => {
                assert(e.sprite is Some && e.ok(store) && base < e.id() <= top);
                assert forall|j: int| 0 <= j < mid.len() implies (#[trigger] mid[j]).id() < e.id() by {
                    lemma_flush_ids_from(entities, front, base, j);
                    if mid[j].id() > base {
                        let k = choose|k: int|
                            0 <= k < front.len() && spawn_id(#[trigger] front[k]) == Some(
                                mid[j].id() as int,
                            );
                        assert(queue[k] == front[k]);
                    }
                }
                assert forall|i: int| 0 <= i < end.len() implies (#[trigger] end[i]).ok(store) by {
                    if i < mid.len() {
                        assert(end[i] == mid[i]);
                    }
                }
                assert forall|i: int, j: int|
                    0 <= i < end.len() && 0 <= j < end.len() && i != j && (#[trigger] end[i]).id() == (
                    #[trigger] end[j]).id() implies end[i].id() == 0 by {
                    if i < mid.len() {
                        assert(end[i] == mid[i]);
                    }
                    if j < mid.len() {
                        assert(end[j] == mid[j]);
                    }
                }
                assert forall|i: int| 0 <= i < end.len() implies (#[trigger] end[i]).id() <= top by {
                    if i < mid.len() {
                        assert(end[i] == mid[i]);
                    }
                }
            },
            Command::RemoveSprite(at) => {
                lemma_strip_keeps_order(mid, end, top, store);
            },
            Command::RemoveItem(at) => {
                lemma_strip_keeps_order(mid, end, top, store);
            },
        }
    }
}

/// Taking components from entities leaves them in order.
proof fn lemma_strip_keeps_order(mid: Seq<Entity>, end: Seq<Entity>, top: int, store: &SpriteStore)
    requires
        all_ok(mid, store),
        ids_unique(mid),
        ids_within(mid, top),
        mid.len() == end.len(),
        forall|i: int|
            0 <= i < mid.len() ==> (#[trigger] end[i]) == mid[i] || (end[i].sprite is None),
    ensures
        all_ok(end, store),
        ids_unique(end),
        ids_within(end, top),
{
    assert forall|i: int| 0 <= i < end.len() implies (#[trigger] end[i]).ok(store) by {
        assert(mid[i].ok(store));
    }
    assert forall|i: int| 0 <= i < end.len() implies (#[trigger] end[i]).id() <= top by {
        assert(mid[i].id() <= top);
    }
    assert forall|i: int, j: int|
        0 <= i < end.len() && 0 <= j < end.len() && i != j && (#[trigger] end[i]).id() == (
        #[trigger] end[j]).id() implies end[i].id() == 0 by {
        if end[i].sprite is Some && end[j].sprite is Some {
            assert(mid[i].id() == mid[j].id());
        }
    }
}

/// After the changes of a queue, an id above `base` is the id of something
/// that the queue spawned.
proof fn lemma_flush_ids_from(entities: Seq<Entity>, queue: Seq<Command>, base: int, j: int)
    requires
        ids_within(entities, base),
        0 <= base,
        0 <= j < apply_all(entities, queue).len(),
    ensures
        apply_all(entities, queue)[j].id() <= base || spawns_id(
            queue,
            apply_all(entities, queue)[j].id() as int,
        ),
    decreases queue.len(),
{
    if queue.len() == 0 {
        assert(entities[j].id() <= base);
    } else {
        let front = queue.drop_last();
        let last = queue.last();
        let mid = apply_all(entities, front);
        let end = apply(mid, last);
        assert(end == apply_all(entities, queue));
        assert(queue[queue.len() - 1] == last);
        if j < mid.len() && mid[j].id() == end[j].id() {
            lemma_flush_ids_from(entities, front, base, j);
            if mid[j].id() > base {
                let k = choose|k: int|
                    0 <= k < front.len() && spawn_id(#[trigger] front[k]) == Some(
                        mid[j].id() as int,
                    );
                assert(queue[k] == front[k]);
                assert(spawn_id(queue[k]) == Some(end[j].id() as int));
            }
        } else {
            match last {
                Command::Spawn(e) => {
                    assert(j == mid.len());
                    assert(spawn_id(queue[queue.len() - 1]) == Some(end[j].id() as int));
                },
                Command::RemoveSprite(at) => {
                    assert(end[j].id() == 0 || end[j] == mid[j]);
                },
                Command::RemoveItem(at) => {
                    assert(end[j].id() == 0 || end[j] == mid[j]);
                },
            }
        }
    }
}

} // verus!
