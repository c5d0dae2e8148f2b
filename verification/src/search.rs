//! Finding the player, and finding what lies nearest to a point.

use vstd::prelude::*;
use crate::sprite::SpriteStore;
use crate::sprite::WH;
use crate::state::ItemType;
use crate::state::Position;
use crate::state::SpriteType;
use crate::world::Entity;
use crate::world::all_ok;

verus! {

/// The distance at which the search gives up: what is found is nearer.
pub const SEARCH_RANGE: i64 = 100;

/// The square of `SEARCH_RANGE`.
pub const SEARCH_RANGE_SQ: i64 = 10_000;

/// The result of a search: the id and the item type of what was found and
/// its distance, rounded down to whole cells, or id zero, `SEARCH_RANGE` and
/// no item type where nothing was found.
#[derive(Clone, Copy, Debug)]
pub struct Found {
    pub id: usize,
    pub dist: i64,
    pub item_type: ItemType,
}

/// The largest whole number up to `cap` whose square is not above `n`: the
/// square root of `n`, rounded down, or `cap` if that is less.
pub open spec fn capped_root(n: int, cap: int) -> int
    decreases cap,
{
    if cap <= 0 {
        0
    } else if cap * cap <= n {
        cap
    } else {
        capped_root(n, cap - 1)
    }
}

/// The visual centre of a sprite of the given size at a position. A row of
/// cells holds two rows of pixels, so a quarter of the height is half the
/// sprite.
pub open spec fn centre(pos: Position, size: WH) -> (int, int) {
    (pos.x + size.w as int / 2, pos.y + size.h as int / 4)
}

/// The square of the distance between two points.
pub open spec fn dist_sq(a: (int, int), b: (int, int)) -> int {
    (a.0 - b.0) * (a.0 - b.0) + (a.1 - b.1) * (a.1 - b.1)
}

/// The size that the search takes an entity's sprite to have: that of the
/// first frame of its asset.
pub open spec fn size_of(e: Entity, store: &SpriteStore) -> WH {
    store.0@[e.sprite->0.store_index as int].data.frames@[0].source_size
}

/// The distance from a point to the centre of an entity, in whole cells and
/// not above `SEARCH_RANGE`.
pub open spec fn reach(e: Entity, from: (i64, i64), store: &SpriteStore) -> int {
    capped_root(
        dist_sq(centre(e.position->0, size_of(e, store)), (from.0 as int, from.1 as int)),
        SEARCH_RANGE as int,
    )
}

/// The entity is searched: it is an item whose sprite is of the kind asked
/// for.
pub open spec fn candidate(e: Entity, kind: SpriteType) -> bool {
    e.item() && e.sprite->0.sprite_type == kind
}

/// What a search gives that finds nothing.
pub open spec fn nothing_found() -> Found {
    Found { id: 0, dist: SEARCH_RANGE, item_type: ItemType::Nothing }
}

/// The square of the distance from a point to the centre of an entity.
pub open spec fn span_sq(e: Entity, from: (i64, i64), store: &SpriteStore) -> int {
    dist_sq(centre(e.position->0, size_of(e, store)), (from.0 as int, from.1 as int))
}

/// The entity is searched and lies nearer than `SEARCH_RANGE`.
pub open spec fn in_range(e: Entity, from: (i64, i64), kind: SpriteType, store: &SpriteStore) -> bool {
    candidate(e, kind) && span_sq(e, from, store) < SEARCH_RANGE_SQ
}

/// The least squared distance of a candidate among the entities, or the
/// square of `SEARCH_RANGE` if that is less.
pub open spec fn least_sq_among(
    entities: Seq<Entity>,
    from: (i64, i64),
    kind: SpriteType,
    store: &SpriteStore,
) -> int
    decreases entities.len(),
{
    if entities.len() == 0 {
        SEARCH_RANGE_SQ as int
    } else {
        let before = least_sq_among(entities.drop_last(), from, kind, store);
        let e = entities.last();
        if candidate(e, kind) && span_sq(e, from, store) < before {
            span_sq(e, from, store)
        } else {
            before
        }
    }
}

/// What the search finds among the entities, taken in order: each
/// candidate that is strictly nearer than every candidate before it, and
/// nearer than `SEARCH_RANGE`, takes the place of what was found. Distances
/// are compared exactly, by their squares; only the distance that is
/// handed out is rounded.
pub open spec fn nearest_among(
    entities: Seq<Entity>,
    from: (i64, i64),
    kind: SpriteType,
    store: &SpriteStore,
) -> Found
    decreases entities.len(),
{
    if entities.len() == 0 {
        nothing_found()
    } else {
        let before = nearest_among(entities.drop_last(), from, kind, store);
        let e = entities.last();
        if candidate(e, kind) && span_sq(e, from, store) < least_sq_among(
            entities.drop_last(),
            from,
            kind,
            store,
        ) {
            Found {
                id: e.sprite->0.id,
                dist: reach(e, from, store) as i64,
                item_type: e.interactible->0.item_type,
            }
        } else {
            before
        }
    }
}

proof fn lemma_capped_root_bounds(n: int, cap: int)
    requires
        0 <= cap,
        0 <= n,
    ensures
        0 <= capped_root(n, cap) <= cap,
        capped_root(n, cap) * capped_root(n, cap) <= n,
    decreases cap,
{
    if cap > 0 && cap * cap > n {
        lemma_capped_root_bounds(n, cap - 1);
    }
}

proof fn lemma_dist_sq_positive(a: (int, int), b: (int, int))
    ensures
        dist_sq(a, b) >= 0,
{
    assert((a.0 - b.0) * (a.0 - b.0) >= 0) by (nonlinear_arith);
    assert((a.1 - b.1) * (a.1 - b.1) >= 0) by (nonlinear_arith);
}

proof fn lemma_capped_root_is(n: int, cap: int, d: int)
    requires
        0 <= d <= cap,
        d * d <= n,
        d == cap || (d + 1) * (d + 1) > n,
    ensures
        capped_root(n, cap) == d,
    decreases cap,
{
    if cap > 0 {
        if cap * cap <= n {
            if d < cap {
                assert((d + 1) * (d + 1) <= cap * cap) by (nonlinear_arith)
                    requires
                        0 <= d + 1 <= cap,
                ;
            }
        } else {
            lemma_capped_root_is(n, cap - 1, d);
        }
    }
}

/// The square of a distance, or the square of `SEARCH_RANGE` if that is
/// less.
pub open spec fn capped_sq(n: int) -> int {
    if n < SEARCH_RANGE_SQ {
        n
    } else {
        SEARCH_RANGE_SQ as int
    }
}

/// The square of the distance from a point to the centre of a sprite, or
/// the square of `SEARCH_RANGE` if that is less.
pub fn square_span(pos: Position, size: WH, from: (i64, i64)) -> (sq: i64)
    ensures
        sq == capped_sq(dist_sq(centre(pos, size), (from.0 as int, from.1 as int))),
        0 <= sq <= SEARCH_RANGE_SQ,
{
    let dx: i128 = pos.x as i128 + (size.w / 2) as i128 - from.0 as i128;
    let dy: i128 = pos.y as i128 + (size.h / 4) as i128 - from.1 as i128;
    let ghost n: int = dist_sq(centre(pos, size), (from.0 as int, from.1 as int));
    assert(n == dx * dx + dy * dy);
    if dx >= 100 || dx <= -100 || dy >= 100 || dy <= -100 {
        proof {
            assert(dx * dx + dy * dy >= 100 * 100) by (nonlinear_arith)
                requires
                    dx >= 100 || dx <= -100 || dy >= 100 || dy <= -100,
            ;
        }
        return SEARCH_RANGE_SQ;
    }
    assert(0 <= dx * dx <= 99 * 99 && 0 <= dy * dy <= 99 * 99) by (nonlinear_arith)
        requires
            -100 < dx < 100,
            -100 < dy < 100,
    ;
    let total: i128 = dx * dx + dy * dy;
    if total < SEARCH_RANGE_SQ as i128 {
        total as i64
    } else {
        SEARCH_RANGE_SQ
    }
}

/// The square root of a squared distance, rounded down.
pub fn root_of(sq: i64) -> (d: i64)
    requires
        0 <= sq <= SEARCH_RANGE_SQ,
    ensures
        d == capped_root(sq as int, SEARCH_RANGE as int),
        0 <= d <= SEARCH_RANGE,
        d * d <= sq,
        d < SEARCH_RANGE ==> sq < (d + 1) * (d + 1),
        sq < SEARCH_RANGE_SQ ==> d < SEARCH_RANGE,
{
    let mut d: i64 = 0;
    let mut next: i64 = 1;
    while d < 100 && next <= sq
        invariant
            0 <= d <= 100,
            d * d <= sq,
            next == (d + 1) * (d + 1),
            0 <= sq <= SEARCH_RANGE_SQ,
        decreases 100 - d,
    {
        d = d + 1;
        assert((d + 1) * (d + 1) == d * d + 2 * d + 1) by (nonlinear_arith);
        assert(d * d <= 100 * 100) by (nonlinear_arith)
            requires
                0 <= d <= 100,
        ;
        next = next + 2 * d + 1;
    }
    proof {
        lemma_capped_root_is(sq as int, 100, d as int);
        if d == 100 {
            assert(100 * 100 <= sq);
        }
    }
    d
}

/// The distance from a point to the centre of a sprite, rounded down to
/// whole cells and not above `SEARCH_RANGE`.
pub fn distance(pos: Position, size: WH, from: (i64, i64)) -> (d: i64)
    ensures
        d == capped_root(dist_sq(centre(pos, size), (from.0 as int, from.1 as int)), SEARCH_RANGE as int),
        0 <= d <= SEARCH_RANGE,
        d * d <= dist_sq(centre(pos, size), (from.0 as int, from.1 as int)),
        d < SEARCH_RANGE ==> dist_sq(centre(pos, size), (from.0 as int, from.1 as int)) < (d + 1) * (d
            + 1),
{
    let sq: i64 = square_span(pos, size, from);
    let d: i64 = root_of(sq);
    proof {
        let n = dist_sq(centre(pos, size), (from.0 as int, from.1 as int));
        if n >= SEARCH_RANGE_SQ {
            assert(capped_root(n, 100) == 100);
            assert(capped_root(10000, 100) == 100);
        }
    }
    d
}

/// Finds the first entity that has a sprite of the player's kind and a
/// position.
pub fn find_player(entities: &Vec<Entity>) -> (found: Option<usize>)
    ensures
        match found {
            Some(k) => first_player(entities@) == Some(k as int) && is_first_player(
                entities@,
                k as int,
            ),
            None => first_player(entities@) is None,
        },
{
    let mut i: usize = 0;
    while i < entities.len()
        invariant
            i <= entities@.len(),
            forall|j: int| 0 <= j < i ==> !is_player(#[trigger] entities@[j]),
        decreases entities@.len() - i,
    {
        let e: Entity = entities[i];
        let hit: bool = match (e.sprite, e.position) {
            (Some(s), Some(_)) => s.sprite_type == SpriteType::Player,
            _ => false,
        };
        if hit {
            proof {
                lemma_first_player(entities@, i as int);
            }
            return Some(i);
        }
        i = i + 1;
    }
    proof {
        if exists|k: int| is_first_player(entities@, k) {
            let k = choose|k: int| is_first_player(entities@, k);
            assert(!is_player(entities@[k]));
        }
    }
    None
}

/// The entity can be steered: it is visible and its sprite is of the
/// player's kind.
pub open spec fn is_player(e: Entity) -> bool {
    e.visible() && e.sprite->0.sprite_type == SpriteType::Player
}

/// `k` is the row of the first entity that can be steered.
pub open spec fn is_first_player(entities: Seq<Entity>, k: int) -> bool {
    &&& 0 <= k < entities.len()
    &&& is_player(entities[k])
    &&& forall|j: int| 0 <= j < k ==> !is_player(#[trigger] entities[j])
}

/// The row of the player: the first entity that can be steered.
pub open spec fn first_player(entities: Seq<Entity>) -> Option<int> {
    if exists|k: int| is_first_player(entities, k) {
        Some(choose|k: int| is_first_player(entities, k))
    } else {
        None
    }
}

pub(crate) proof fn lemma_first_player(entities: Seq<Entity>, k: int)
    requires
        is_first_player(entities, k),
    ensures
        first_player(entities) == Some(k),
{
    let other = choose|j: int| is_first_player(entities, j);
    if other < k {
        assert(!is_player(entities[other]));
    }
    if k < other {
        assert(!is_player(entities[k]));
    }
}

/// Searches the entities for the item of the given kind whose centre is
/// nearest to a point and nearer than `SEARCH_RANGE`. Of two that are
/// exactly equally near, the one that comes first in the table is found.
pub fn nearest_of_type(
    from: (i64, i64),
    search_type: SpriteType,
    store: &SpriteStore,
    entities: &Vec<Entity>,
) -> (found: Found)
    requires
        store.wf(),
        all_ok(entities@, store),
    ensures
        found == nearest_among(entities@, from, search_type, store),
        is_nearest(found, entities@, from, search_type, store),
{
    let mut best: Found = Found { id: 0, dist: SEARCH_RANGE, item_type: ItemType::Nothing };
    let mut best_sq: i64 = SEARCH_RANGE_SQ;
    let mut i: usize = 0;
    assert(entities@.subrange(0, 0) =~= Seq::<Entity>::empty());
    while i < entities.len()
        invariant
            i <= entities@.len(),
            store.wf(),
            all_ok(entities@, store),
            best == nearest_among(entities@.subrange(0, i as int), from, search_type, store),
            best_sq == least_sq_among(entities@.subrange(0, i as int), from, search_type, store),
            0 <= best_sq <= SEARCH_RANGE_SQ,
        decreases entities@.len() - i,
    {
        let e: Entity = entities[i];
        proof {
            let upto = entities@.subrange(0, i + 1);
            assert(upto.drop_last() =~= entities@.subrange(0, i as int));
            assert(upto.last() == e);
            assert(entities@[i as int].ok(store));
        }
        match (e.interactible, e.sprite, e.position) {
            (Some(item), Some(sprite), Some(pos)) => {
                if sprite.sprite_type == search_type {
                    assert(store.0@[sprite.store_index as int].wf());
                    let size: WH = store.0[sprite.store_index].data.frames[0].source_size;
                    let sq: i64 = square_span(pos, size, from);
                    if sq < best_sq {
                        best = Found { id: sprite.id, dist: root_of(sq), item_type: item.item_type };
                        best_sq = sq;
                    }
                }
            },
            _ => {},
        }
        i = i + 1;
    }
    assert(entities@.subrange(0, i as int) =~= entities@);
    proof {
        lemma_nearest(entities@, from, search_type, store);
    }
    best
}

/// `k` is the row of what was found: a candidate nearer than
/// `SEARCH_RANGE`, with the id and the item type found, at the distance
/// found before rounding. No candidate is nearer than it, and every
/// candidate before it in the table is farther.
pub open spec fn found_at(
    found: Found,
    entities: Seq<Entity>,
    from: (i64, i64),
    kind: SpriteType,
    store: &SpriteStore,
    k: int,
) -> bool {
    &&& 0 <= k < entities.len()
    &&& in_range(entities[k], from, kind, store)
    &&& found.dist == reach(entities[k], from, store)
    &&& found.id == entities[k].sprite->0.id
    &&& found.item_type == entities[k].interactible->0.item_type
    &&& forall|j: int|
        0 <= j < entities.len() && candidate(#[trigger] entities[j], kind) ==> span_sq(
            entities[k],
            from,
            store,
        ) <= span_sq(entities[j], from, store)
    &&& forall|j: int|
        0 <= j < k && candidate(#[trigger] entities[j], kind) ==> span_sq(entities[k], from, store)
            < span_sq(entities[j], from, store)
}

/// `found` is the nearest of the candidates: the first in the table of
/// those at the least distance, if that is less than `SEARCH_RANGE`. Its
/// distance is that least distance, rounded down. Nothing is found if and
/// only if no candidate is nearer than `SEARCH_RANGE`.
pub open spec fn is_nearest(
    found: Found,
    entities: Seq<Entity>,
    from: (i64, i64),
    kind: SpriteType,
    store: &SpriteStore,
) -> bool {
    &&& 0 <= found.dist <= SEARCH_RANGE
    &&& found.dist < SEARCH_RANGE ==> exists|k: int| #[trigger]
        found_at(found, entities, from, kind, store, k)
    &&& found.dist == SEARCH_RANGE ==> found == nothing_found() && forall|j: int|
        0 <= j < entities.len() ==> !in_range(#[trigger] entities[j], from, kind, store)
}

/// What the fold finds is at the least squared distance: `k` is its row,
/// if any candidate is in range.
proof fn lemma_least(entities: Seq<Entity>, from: (i64, i64), kind: SpriteType, store: &SpriteStore)
    ensures
        ({
            let found = nearest_among(entities, from, kind, store);
            let least = least_sq_among(entities, from, kind, store);
            &&& 0 <= least <= SEARCH_RANGE_SQ
            &&& forall|j: int|
                0 <= j < entities.len() && candidate(#[trigger] entities[j], kind) ==> least
                    <= span_sq(entities[j], from, store)
            &&& least == SEARCH_RANGE_SQ ==> found == nothing_found()
            &&& least < SEARCH_RANGE_SQ ==> 0 <= found.dist < SEARCH_RANGE && exists|k: int|
                #[trigger] found_at(found, entities, from, kind, store, k) && span_sq(
                    entities[k],
                    from,
                    store,
                ) == least
        }),
    decreases entities.len(),
{
    if entities.len() > 0 {
        let front = entities.drop_last();
        let e = entities.last();
        lemma_least(front, from, kind, store);
        let before = nearest_among(front, from, kind, store);
        let least_before = least_sq_among(front, from, kind, store);
        let found = nearest_among(entities, from, kind, store);
        let least = least_sq_among(entities, from, kind, store);
        if candidate(e, kind) {
            let c = centre(e.position->0, size_of(e, store));
            lemma_dist_sq_positive(c, (from.0 as int, from.1 as int));
            lemma_capped_root_bounds(dist_sq(c, (from.0 as int, from.1 as int)), SEARCH_RANGE as int);
        }
        assert forall|j: int| 0 <= j < entities.len() && candidate(#[trigger] entities[j], kind) implies least
            <= span_sq(entities[j], from, store) by {
            if j < front.len() {
                assert(front[j] == entities[j]);
            }
        }
        if least < SEARCH_RANGE_SQ {
            if candidate(e, kind) && span_sq(e, from, store) < least_before {
                let k = entities.len() - 1;
                assert forall|j: int| 0 <= j < k && candidate(#[trigger] entities[j], kind) implies span_sq(
                    entities[k],
                    from,
                    store,
                ) < span_sq(entities[j], from, store) by {
                    assert(front[j] == entities[j]);
                }
                let d = reach(e, from, store);
                if d == SEARCH_RANGE {
                    assert(100 * 100 <= span_sq(e, from, store)) by (nonlinear_arith)
                        requires
                            d * d <= span_sq(e, from, store),
                            d == 100,
                    ;
                }
                assert(found_at(found, entities, from, kind, store, k));
            } else {
                let k = choose|k: int|
                    #[trigger] found_at(before, front, from, kind, store, k) && span_sq(
                        front[k],
                        from,
                        store,
                    ) == least_before;
                assert(front[k] == entities[k]);
                assert forall|j: int| 0 <= j < k && candidate(#[trigger] entities[j], kind) implies span_sq(
                    entities[k],
                    from,
                    store,
                ) < span_sq(entities[j], from, store) by {
                    assert(front[j] == entities[j]);
                }
                assert(found_at(found, entities, from, kind, store, k));
            }
        }
    }
}

/// What the search finds is the nearest of the candidates.
pub proof fn lemma_nearest(entities: Seq<Entity>, from: (i64, i64), kind: SpriteType, store: &SpriteStore)
    ensures
        is_nearest(nearest_among(entities, from, kind, store), entities, from, kind, store),
{
    lemma_least(entities, from, kind, store);
    let found = nearest_among(entities, from, kind, store);
    let least = least_sq_among(entities, from, kind, store);
    if least == SEARCH_RANGE_SQ {
        assert forall|j: int| 0 <= j < entities.len() implies !in_range(
            #[trigger] entities[j],
            from,
            kind,
            store,
        ) by {}
    }
}

} // verus!
