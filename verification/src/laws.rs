//! The library-wide guarantees, stated and proved once.
//!
//! Each lemma here states a guarantee of the store as a whole, over the
//! spec functions the public contracts use; the per-operation facts they
//! build on are the `ensures` clauses of the operations themselves.

use vstd::prelude::*;

use crate::entity::EntityId;
use crate::world::id_pairs_from;
use crate::world::id_row_pairs;
use crate::world::spec_id_pairs;
use crate::world::Col1;
use crate::world::Col2;
use crate::world::World;
use crate::shape::Shape;
use crate::filter::AnyEntity;

verus! {

/// Identifier freshness: an identifier just issued by `create` differs
/// from every identifier the world had issued before, in particular from
/// a destroyed identifier whose slot it reuses.
pub proof fn lemma_fresh_identifier_distinct(
    issued: Set<EntityId>,
    fresh: EntityId,
    older: EntityId,
)
    requires
        !issued.contains(fresh),
        issued.contains(older),
    ensures
        fresh != older,
{
}

/// At any time a storage slot hosts at most one live entity: two live
/// identifiers with the same slot are the same identifier.
pub proof fn lemma_one_live_per_slot<C1, C2, C3, C4>(
    w: World<C1, C2, C3, C4>,
    a: EntityId,
    b: EntityId,
)
    requires
        w.spec_is_alive(a),
        w.spec_is_alive(b),
        a.spec_slot() == b.spec_slot(),
    ensures
        a == b,
{
}

/// Liveness is never resurrected: a retired identifier fails the
/// liveness check, and every world operation's contract preserves
/// retirement.
pub proof fn lemma_retired_never_alive<C1, C2, C3, C4>(w: World<C1, C2, C3, C4>, id: EntityId)
    requires
        w.retired(id),
    ensures
        !w.spec_is_alive(id),
{
}

/// A built entity holding a row in the first column satisfies the
/// single-column shape, and fetching it returns exactly the stored
/// value; writes are therefore visible to any later fetch.
pub proof fn lemma_entry_reads_stored_value<C1: Copy, C2, C3, C4>(
    w: World<C1, C2, C3, C4>,
    id: EntityId,
)
    requires
        w.cmap1().contains_key(id),
    ensures
        Col1.spec_matches(w, id),
        Col1.spec_value(w, id) == w.cmap1()[id],
{
}

/// Builder atomicity, the committed half: an entity holding rows in the
/// first and second columns satisfies the pair shape, and the fetched
/// pair is exactly the two stored values.
pub proof fn lemma_built_pair_entry<C1: Copy, C2: Copy, C3, C4>(
    w: World<C1, C2, C3, C4>,
    id: EntityId,
)
    requires
        w.cmap1().contains_key(id),
        w.cmap2().contains_key(id),
    ensures
        (Col1, Col2).spec_matches(w, id),
        (Col1, Col2).spec_value(w, id) === (w.cmap1()[id], w.cmap2()[id]),
{
}

/// Destroy purges storage: a dead identifier is yielded by no bulk
/// query and owns no row in any column.
pub proof fn lemma_destroyed_unreachable<C1, C2, C3, C4, S: Shape<C1, C2, C3, C4>>(
    w: World<C1, C2, C3, C4>,
    shape: S,
    id: EntityId,
)
    requires
        !w.spec_is_alive(id),
        w.n_slots() >= 0,
    ensures
        !w.spec_matching(shape).contains(id),
        !w.cmap1().contains_key(id),
        !w.cmap2().contains_key(id),
        !w.cmap3().contains_key(id),
        !w.cmap4().contains_key(id),
{
    w.lemma_matching_contains(shape, w.n_slots(), id);
}

/// The length of one row of pairs: pairing `q[i]` with each later
/// element gives one pair per later position.
pub proof fn lemma_id_row_pairs_len(q: Seq<EntityId>, i: int, j: int)
    requires
        0 <= i < q.len(),
        i < j,
    ensures
        id_row_pairs(q, i, j).len() == if j <= q.len() {
            q.len() - j
        } else {
            0
        },
        forall|k: int|
            0 <= k < id_row_pairs(q, i, j).len() ==> #[trigger] id_row_pairs(q, i, j)[k] === (
                q[i],
                q[j + k],
            ),
    decreases q.len() - j,
{
    if 0 <= j < q.len() {
        lemma_id_row_pairs_len(q, i, j + 1);
        let rest = id_row_pairs(q, i, j + 1);
        assert(id_row_pairs(q, i, j) === seq![(q[i], q[j])] + rest);
        assert forall|k: int| 0 <= k < id_row_pairs(q, i, j).len() implies #[trigger] id_row_pairs(
            q,
            i,
            j,
        )[k] === (q[i], q[j + k]) by {
            if k > 0 {
                assert(id_row_pairs(q, i, j)[k] === rest[k - 1]);
            }
        }
    }
}

/// The number of unordered pairs among the elements from position `i`
/// on: `m * (m - 1) / 2` where `m` counts those elements.
pub proof fn lemma_id_pairs_from_len(q: Seq<EntityId>, i: int)
    requires
        0 <= i <= q.len(),
    ensures
        id_pairs_from(q, i).len() == (q.len() - i) * (q.len() - i - 1) / 2,
    decreases q.len() - i,
{
    if i < q.len() {
        lemma_id_pairs_from_len(q, i + 1);
        lemma_id_row_pairs_len(q, i, i + 1);
        let m = q.len() - i;
        assert(id_pairs_from(q, i) === id_row_pairs(q, i, i + 1) + id_pairs_from(q, i + 1));
        assert(id_row_pairs(q, i, i + 1).len() == m - 1);
        assert(id_pairs_from(q, i + 1).len() == (m - 1) * (m - 2) / 2);
        assert((m - 1) + (m - 1) * (m - 2) / 2 == m * (m - 1) / 2) by (nonlinear_arith);
    } else {
        assert(id_pairs_from(q, i).len() == 0);
        assert(q.len() - i == 0);
        assert((0int) * (0int - 1) / 2 == 0);
    }
}

/// Combinations are complete: every ordered-by-position pair of distinct
/// elements appears among the pairs.
pub proof fn lemma_id_pairs_complete(q: Seq<EntityId>, i: int, a: int, b: int)
    requires
        0 <= i <= a < b < q.len(),
    ensures
        id_pairs_from(q, i).contains(((q[a], q[b]))),
    decreases q.len() - i,
{
    let row = id_row_pairs(q, i, i + 1);
    let rest = id_pairs_from(q, i + 1);
    assert(id_pairs_from(q, i) === row + rest);
    if a == i {
        lemma_id_row_pairs_len(q, i, i + 1);
        assert(row[b - i - 1] === (q[a], q[b]));
        assert(id_pairs_from(q, i)[b - i - 1] === (q[a], q[b]));
    } else {
        lemma_id_pairs_complete(q, i + 1, a, b);
        let k = choose|k: int| 0 <= k < rest.len() && rest[k] === (q[a], q[b]);
        assert(id_pairs_from(q, i)[row.len() + k] === (q[a], q[b]));
    }
}

/// Combinations are sound: every pair consists of two elements taken
/// from distinct positions, the first from an earlier one, so with
/// distinct elements no entity is ever paired with itself.
pub proof fn lemma_id_pairs_sound(q: Seq<EntityId>, i: int)
    requires
        0 <= i <= q.len(),
    ensures
        forall|k: int|
            0 <= k < id_pairs_from(q, i).len() ==> exists|a: int, b: int|
                i <= a < b < q.len() && #[trigger] id_pairs_from(q, i)[k] === ((q[a], q[b])),
    decreases q.len() - i,
{
    if i < q.len() {
        lemma_id_pairs_sound(q, i + 1);
        lemma_id_row_pairs_len(q, i, i + 1);
        let row = id_row_pairs(q, i, i + 1);
        let rest = id_pairs_from(q, i + 1);
        assert(id_pairs_from(q, i) === row + rest);
        assert forall|k: int| 0 <= k < id_pairs_from(q, i).len() implies exists|a: int, b: int|
            i <= a < b < q.len() && #[trigger] id_pairs_from(q, i)[k] === ((q[a], q[b])) by {
            if k < row.len() {
                assert(id_pairs_from(q, i)[k] === row[k]);
                assert(row[k] === (q[i], q[i + 1 + k]));
                assert(i <= i < i + 1 + k < q.len() && id_pairs_from(q, i)[k] === ((q[i], q[i + 1
                    + k])));
            } else {
                assert(id_pairs_from(q, i)[k] === rest[k - row.len()]);
                let (a, b) = choose|a: int, b: int|
                    i + 1 <= a < b < q.len() && rest[k - row.len()] === ((q[a], q[b]));
                assert(i <= a < b < q.len() && id_pairs_from(q, i)[k] === ((q[a], q[b])));
            }
        }
    }
}

/// No self-pairs: over a sequence of pairwise distinct identifiers, the
/// two members of every pair differ.
pub proof fn lemma_id_pairs_no_self(q: Seq<EntityId>)
    requires
        forall|a: int, b: int| 0 <= a < b < q.len() ==> #[trigger] q[a] != #[trigger] q[b],
    ensures
        forall|k: int|
            0 <= k < spec_id_pairs(q).len() ==> (#[trigger] spec_id_pairs(q)[k]).0 != spec_id_pairs(
                q,
            )[k].1,
{
    lemma_id_pairs_sound(q, 0);
    assert forall|k: int| 0 <= k < spec_id_pairs(q).len() implies (#[trigger] spec_id_pairs(q)[k]).0
        != spec_id_pairs(q)[k].1 by {
        let (a, b) = choose|a: int, b: int|
            0 <= a < b < q.len() && id_pairs_from(q, 0)[k] === ((q[a], q[b]));
        assert(q[a] != q[b]);
    }
}


/// Combination soundness at the world level: over the matching entities
/// of any shape, no pair ever pairs an entity with itself, and the pair
/// count is exactly "matching choose two".
pub proof fn lemma_combinations_distinct_pairs<C1, C2, C3, C4, S: Shape<C1, C2, C3, C4>>(
    w: World<C1, C2, C3, C4>,
    shape: S,
)
    requires
        w.n_slots() >= 0,
    ensures
        forall|k: int|
            0 <= k < spec_id_pairs(w.spec_matching(shape)).len() ==> (#[trigger] spec_id_pairs(
                w.spec_matching(shape),
            )[k]).0 != spec_id_pairs(w.spec_matching(shape))[k].1,
        spec_id_pairs(w.spec_matching(shape)).len() == w.spec_matching(shape).len() * (
        w.spec_matching(shape).len() - 1) / 2,
{
    let q = w.spec_matching(shape);
    w.lemma_matching_props(shape, w.n_slots());
    assert forall|a: int, b: int| 0 <= a < b < q.len() implies #[trigger] q[a] != #[trigger] q[b] by {
        assert(q[a].spec_slot() < q[b].spec_slot());
    }
    lemma_id_pairs_no_self(q);
    lemma_id_pairs_from_len(q, 0);
}

/// Query completeness at the world level: `components` yields exactly
/// one value per live matching entity, in slot order, and an entity is
/// matching exactly when it is alive and satisfies the shape.
pub proof fn lemma_components_complete<C1, C2, C3, C4, S: Shape<C1, C2, C3, C4>>(
    w: World<C1, C2, C3, C4>,
    shape: S,
    id: EntityId,
)
    requires
        w.n_slots() >= 0,
        id.spec_slot() < w.n_slots(),
    ensures
        w.spec_matching(shape).contains(id) <==> (w.spec_is_alive(id) && shape.spec_matches(
            w,
            id,
        )),
        w.spec_components(shape).len() == w.spec_matching(shape).len(),
        forall|k: int|
            0 <= k < w.spec_matching(shape).len() ==> #[trigger] w.spec_components(shape)[k]
                === shape.spec_value(w, w.spec_matching(shape)[k]),
{
    w.lemma_matching_contains(shape, w.n_slots(), id);
    w.lemma_components_pointwise(shape, w.n_slots());
    assert(w.spec_components(shape) === w.spec_query_upto(shape, AnyEntity, w.n_slots()));
}

} // verus!
