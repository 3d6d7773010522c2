//! Collision detection: per tick, recompute for every live entity the set
//! of entities overlapping it.
//!
//! Two entities collide exactly when the Euclidean distance between their
//! positions is below the sum of their collider radii; the implementation
//! compares squared distances, which is exact in integers.  The pass is
//! O(n^2) over all unordered pairs — an accepted limitation for the small
//! entity counts this core is built for.

use vstd::prelude::*;
use crate::entity::Entity;
use crate::registry::Registry;
use crate::vec3::{dist_sq, dist_sq_exec, lemma_dist_sq_symmetric};

verus! {

/// `a` and `b` overlap: their distance is strictly below the sum of their
/// radii (stated on squares, which is equivalent for non-negative values).
pub open spec fn collides(a: Entity, b: Entity) -> bool {
    dist_sq(a.transform.position, b.transform.position)
        < (a.radius + b.radius) * (a.radius + b.radius)
}

/// The ids collected for `entities[i]` after scanning partners with index
/// below `upto`, in index order.
pub open spec fn partners(entities: Seq<Entity>, i: int, upto: int) -> Seq<u64>
    decreases upto,
{
    if upto <= 0 {
        Seq::empty()
    } else if upto - 1 != i && collides(entities[i], entities[upto - 1]) {
        partners(entities, i, upto - 1).push(entities[upto - 1].id)
    } else {
        partners(entities, i, upto - 1)
    }
}

/// The collision table holds, for every entity, exactly the partner ids of
/// a full detection pass over the current entity list.
pub open spec fn detection_fresh(reg: Registry) -> bool {
    &&& reg.collisions@.len() == reg.entities@.len()
    &&& forall|i: int|
        0 <= i < reg.entities@.len()
            ==> #[trigger] reg.collisions@[i]@ == partners(
                reg.entities@,
                i,
                reg.entities@.len() as int,
            )
}

/// Membership in a partner list means exactly: some other entity with that
/// id, at index below `upto`, collides with entity `i`.
pub proof fn lemma_partners_contains(entities: Seq<Entity>, i: int, upto: int, id: u64)
    requires
        0 <= i < entities.len(),
        0 <= upto <= entities.len(),
    ensures
        partners(entities, i, upto).contains(id) <==> exists|j: int|
            0 <= j < upto && j != i && #[trigger] entities[j].id == id && collides(
                entities[i],
                entities[j],
            ),
    decreases upto,
{
    if upto > 0 {
        lemma_partners_contains(entities, i, upto - 1, id);
        let pre = partners(entities, i, upto - 1);
        if upto - 1 != i && collides(entities[i], entities[upto - 1]) {
            assert(partners(entities, i, upto) == pre.push(entities[upto - 1].id));
            if partners(entities, i, upto).contains(id) {
                let full = pre.push(entities[upto - 1].id);
                let k = choose|k: int| 0 <= k < full.len() && #[trigger] full[k] == id;
                if k < pre.len() {
                    assert(pre[k] == id);
                    assert(pre.contains(id));
                } else {
                    assert(entities[upto - 1].id == id);
                }
            }
            if exists|j: int|
                0 <= j < upto && j != i && #[trigger] entities[j].id == id && collides(
                    entities[i],
                    entities[j],
                ) {
                let j = choose|j: int|
                    0 <= j < upto && j != i && #[trigger] entities[j].id == id && collides(
                        entities[i],
                        entities[j],
                    );
                if j == upto - 1 {
                    assert(pre.push(id)[pre.len() as int] == id);
                    assert(partners(entities, i, upto).contains(id));
                } else {
                    assert(pre.contains(id));
                    let k = choose|k: int| 0 <= k < pre.len() && pre[k] == id;
                    assert(pre.push(entities[upto - 1].id)[k] == id);
                }
            }
        } else {
            if pre.contains(id) {
                assert(partners(entities, i, upto).contains(id));
            }
        }
    }
}

/// Collision is symmetric, and holds exactly when the squared distance is
/// below the squared radius sum.
pub proof fn lemma_collides_symmetric(a: Entity, b: Entity)
    ensures
        collides(a, b) == collides(b, a),
        collides(a, b) == (dist_sq(a.transform.position, b.transform.position) < (a.radius
            + b.radius) * (a.radius + b.radius)),
{
    lemma_dist_sq_symmetric(a.transform.position, b.transform.position);
    assert((a.radius + b.radius) * (a.radius + b.radius) == (b.radius + a.radius) * (b.radius
        + a.radius)) by (nonlinear_arith);
}

/// Decides `collides` for two well-formed entities.
pub fn collides_exec(a: &Entity, b: &Entity) -> (r: bool)
    requires
        a.wf(),
        b.wf(),
    ensures
        r == collides(*a, *b),
{
    let d: i128 = dist_sq_exec(&a.transform.position, &b.transform.position);
    let s: i64 = a.radius + b.radius;
    proof {
        assert(0 <= (s as int) * (s as int) <= i128::MAX as int) by (nonlinear_arith)
            requires
                0 <= s as int <= 0x4_0000_0000_0000,
        ;
    }
    let s2: i128 = (s as i128) * (s as i128);
    d < s2
}

/// Recomputes the whole collision table from the current entity list.
///
/// Every entity's previous set is discarded — no pair lingers from an
/// earlier tick — and afterwards entity `j`'s id sits in entity `i`'s set
/// exactly when the two distinct live entities overlap.  An entity never
/// lists itself.
pub fn detect(reg: &mut Registry)
    requires
        old(reg).wf(),
    ensures
        final(reg).wf(),
        final(reg).entities == old(reg).entities,
        final(reg).next_id == old(reg).next_id,
        detection_fresh(*final(reg)),
        forall|i: int, j: int|
            0 <= i < final(reg).entities@.len() && 0 <= j < final(reg).entities@.len() && i != j
                ==> (#[trigger] final(reg).collisions@[i]@.contains(final(reg).entities@[j].id)
                <==> collides(final(reg).entities@[i], final(reg).entities@[j])),
        forall|i: int|
            0 <= i < final(reg).entities@.len()
                ==> !final(reg).collisions@[i]@.contains(
                #[trigger] final(reg).entities@[i].id,
            ),
{
    let n = reg.entities.len();
    let mut lists: Vec<Vec<u64>> = Vec::new();
    let mut i: usize = 0;
    while i < n
        invariant
            reg.wf(),
            *reg == *old(reg),
            n == reg.entities@.len(),
            0 <= i <= n,
            lists@.len() == i,
            forall|k: int|
                0 <= k < i ==> #[trigger] lists@[k]@ == partners(reg.entities@, k, n as int),
        decreases n - i,
    {
        let mut cur: Vec<u64> = Vec::new();
        let mut j: usize = 0;
        while j < n
            invariant
                reg.wf(),
                *reg == *old(reg),
                n == reg.entities@.len(),
                0 <= i < n,
                0 <= j <= n,
                cur@ == partners(reg.entities@, i as int, j as int),
            decreases n - j,
        {
            if j != i {
                let hit = collides_exec(&reg.entities[i], &reg.entities[j]);
                if hit {
                    cur.push(reg.entities[j].id);
                }
            }
            j += 1;
        }
        lists.push(cur);
        i += 1;
    }
    reg.collisions = lists;
    proof {
        let r = *reg;
        let m = r.entities@.len() as int;
        assert forall|a: int, b: int|
            0 <= a < m && 0 <= b < m && a != b implies (#[trigger] r.collisions@[a]@.contains(
            r.entities@[b].id,
        ) <==> collides(r.entities@[a], r.entities@[b])) by {
            lemma_partners_contains(r.entities@, a, m, r.entities@[b].id);
            if r.collisions@[a]@.contains(r.entities@[b].id) {
                let j = choose|j: int|
                    0 <= j < m && j != a && #[trigger] r.entities@[j].id == r.entities@[b].id
                        && collides(r.entities@[a], r.entities@[j]);
                if j < b {
                    assert(r.entities@[j].id != r.entities@[b].id);
                } else if b < j {
                    assert(r.entities@[b].id != r.entities@[j].id);
                }
            }
        }
        assert forall|a: int| 0 <= a < m implies !r.collisions@[a]@.contains(
            #[trigger] r.entities@[a].id,
        ) by {
            lemma_partners_contains(r.entities@, a, m, r.entities@[a].id);
            if r.collisions@[a]@.contains(r.entities@[a].id) {
                let j = choose|j: int|
                    0 <= j < m && j != a && #[trigger] r.entities@[j].id == r.entities@[a].id
                        && collides(r.entities@[a], r.entities@[j]);
                if j < a {
                    assert(r.entities@[j].id != r.entities@[a].id);
                } else {
                    assert(r.entities@[a].id != r.entities@[j].id);
                }
            }
        }
    }
}

/// The recorded sets are symmetric: after a detection pass, entity `b` is
/// in entity `a`'s set exactly when `a` is in `b`'s.
pub proof fn lemma_collision_sets_symmetric(reg: Registry, i: int, j: int)
    requires
        reg.wf(),
        detection_fresh(reg),
        0 <= i < reg.entities@.len(),
        0 <= j < reg.entities@.len(),
        i != j,
    ensures
        reg.collisions@[i]@.contains(reg.entities@[j].id) <==> reg.collisions@[j]@.contains(
            reg.entities@[i].id,
        ),
{
    let m = reg.entities@.len() as int;
    lemma_partners_contains(reg.entities@, i, m, reg.entities@[j].id);
    lemma_partners_contains(reg.entities@, j, m, reg.entities@[i].id);
    lemma_collides_symmetric(reg.entities@[i], reg.entities@[j]);
    if reg.collisions@[i]@.contains(reg.entities@[j].id) {
        let k = choose|k: int|
            0 <= k < m && k != i && #[trigger] reg.entities@[k].id == reg.entities@[j].id
                && collides(reg.entities@[i], reg.entities@[k]);
        if k < j {
            assert(reg.entities@[k].id != reg.entities@[j].id);
        } else if j < k {
            assert(reg.entities@[j].id != reg.entities@[k].id);
        }
        assert(collides(reg.entities@[j], reg.entities@[i]));
    }
    if reg.collisions@[j]@.contains(reg.entities@[i].id) {
        let k = choose|k: int|
            0 <= k < m && k != j && #[trigger] reg.entities@[k].id == reg.entities@[i].id
                && collides(reg.entities@[j], reg.entities@[k]);
        if k < i {
            assert(reg.entities@[k].id != reg.entities@[i].id);
        } else if i < k {
            assert(reg.entities@[i].id != reg.entities@[k].id);
        }
        assert(collides(reg.entities@[i], reg.entities@[j]));
    }
}

/// An entity never lists itself as a collision partner.
pub proof fn lemma_no_self_collision(reg: Registry, i: int)
    requires
        reg.wf(),
        detection_fresh(reg),
        0 <= i < reg.entities@.len(),
    ensures
        !reg.collisions@[i]@.contains(reg.entities@[i].id),
{
    let m = reg.entities@.len() as int;
    lemma_partners_contains(reg.entities@, i, m, reg.entities@[i].id);
    if reg.collisions@[i]@.contains(reg.entities@[i].id) {
        let j = choose|j: int|
            0 <= j < m && j != i && #[trigger] reg.entities@[j].id == reg.entities@[i].id
                && collides(reg.entities@[i], reg.entities@[j]);
        if j < i {
            assert(reg.entities@[j].id != reg.entities@[i].id);
        } else {
            assert(reg.entities@[i].id != reg.entities@[j].id);
        }
    }
}

} // verus!
