//! Lifecycle management: spawning and despawning.
//!
//! Despawn predicates are evaluated against the whole registry, the
//! resulting removal queue is applied atomically at one sync point per
//! tick, and creation requests are drained into the registry at the start
//! of the spawn phase.  Removing an absent id is always a no-op.

use vstd::prelude::*;
use crate::config::Config;
use crate::entity::{Entity, EntityKind, Orient, Transform};
use crate::fixed::{COORD_LIMIT, RADIUS_LIMIT, VEL_LIMIT};
use crate::policy::CollisionPolicy;
use crate::random::{sample_position, sample_scaled_direction};
use crate::registry::Registry;
use crate::vec3::{norm_sq, norm_sq_exec, Vec3};

verus! {

/// `e` sits strictly beyond distance `threshold` from the world origin
/// (compared on squares, which is exact; an entity exactly at the
/// threshold is not beyond).
pub open spec fn beyond(e: Entity, threshold: int) -> bool {
    norm_sq(e.transform.position) > threshold * threshold
}

/// The ids of the entities with index below `upto` that sit beyond the
/// threshold, in index order.
pub open spec fn far_ids(entities: Seq<Entity>, threshold: int, upto: int) -> Seq<u64>
    decreases upto,
{
    if upto <= 0 {
        Seq::empty()
    } else if beyond(entities[upto - 1], threshold) {
        far_ids(entities, threshold, upto - 1).push(entities[upto - 1].id)
    } else {
        far_ids(entities, threshold, upto - 1)
    }
}

/// Membership in `far_ids` means exactly: some entity with that id, below
/// `upto`, is beyond the threshold.
pub proof fn lemma_far_ids_contains(entities: Seq<Entity>, threshold: int, upto: int, id: u64)
    requires
        0 <= upto <= entities.len(),
    ensures
        far_ids(entities, threshold, upto).contains(id) <==> exists|i: int|
            0 <= i < upto && #[trigger] entities[i].id == id && beyond(entities[i], threshold),
    decreases upto,
{
    if upto > 0 {
        lemma_far_ids_contains(entities, threshold, upto - 1, id);
        let pre = far_ids(entities, threshold, upto - 1);
        if beyond(entities[upto - 1], threshold) {
            let full = pre.push(entities[upto - 1].id);
            if full.contains(id) {
                let k = choose|k: int| 0 <= k < full.len() && #[trigger] full[k] == id;
                if k < pre.len() {
                    assert(pre[k] == id);
                    assert(pre.contains(id));
                }
            }
            if exists|i: int|
                0 <= i < upto && #[trigger] entities[i].id == id && beyond(
                    entities[i],
                    threshold,
                ) {
                let i = choose|i: int|
                    0 <= i < upto && #[trigger] entities[i].id == id && beyond(
                        entities[i],
                        threshold,
                    );
                if i == upto - 1 {
                    assert(full[pre.len() as int] == id);
                } else {
                    assert(pre.contains(id));
                    let k = choose|k: int| 0 <= k < pre.len() && #[trigger] pre[k] == id;
                    assert(full[k] == id);
                }
            }
        } else {
            if pre.contains(id) {
                assert(far_ids(entities, threshold, upto).contains(id));
            }
        }
    }
}

/// Evaluates the despawn-by-distance predicate for every live entity and
/// returns the removal queue: exactly the ids of the entities strictly
/// farther than `threshold` from the origin, regardless of kind.
pub fn distance_despawns(reg: &Registry, threshold: i64) -> (ids: Vec<u64>)
    requires
        reg.wf(),
        0 < threshold <= COORD_LIMIT,
    ensures
        ids@ == far_ids(reg.entities@, threshold as int, reg.entities@.len() as int),
        forall|id: u64|
            #[trigger] ids@.contains(id) <==> exists|i: int|
                0 <= i < reg.entities@.len() && #[trigger] reg.entities@[i].id == id && beyond(
                    reg.entities@[i],
                    threshold as int,
                ),
{
    let n = reg.entities.len();
    proof {
        assert(0 <= (threshold as int) * (threshold as int) <= i128::MAX as int)
            by (nonlinear_arith)
            requires
                0 <= threshold as int <= 0x4_0000_0000_0000,
        ;
    }
    let t2: i128 = (threshold as i128) * (threshold as i128);
    let mut ids: Vec<u64> = Vec::new();
    let mut i: usize = 0;
    while i < n
        invariant
            reg.wf(),
            n == reg.entities@.len(),
            0 <= i <= n,
            t2 == (threshold as int) * (threshold as int),
            ids@ == far_ids(reg.entities@, threshold as int, i as int),
        decreases n - i,
    {
        proof {
            assert(reg.entities@[i as int].wf());
        }
        let d: i128 = norm_sq_exec(&reg.entities[i].transform.position);
        if d > t2 {
            ids.push(reg.entities[i].id);
        }
        i += 1;
    }
    proof {
        assert forall|id: u64| #[trigger]
            ids@.contains(id) <==> exists|k: int|
                0 <= k < reg.entities@.len() && #[trigger] reg.entities@[k].id == id && beyond(
                    reg.entities@[k],
                    threshold as int,
                ) by {
            lemma_far_ids_contains(reg.entities@, threshold as int, n as int, id);
        }
    }
    ids
}

/// Entity `i`'s recorded set contains, among its first `k` entries, a live
/// partner whose kind pairs with entity `i`'s kind in the removal policy.
pub open spec fn flagged_upto(reg: Registry, policy: CollisionPolicy, i: int, k: int) -> bool {
    exists|m: int|
        0 <= m < k && {
            let pid = #[trigger] reg.collisions@[i]@[m];
            reg.has_id(pid) && policy.removes(reg.entities@[i].kind, reg.kind_of(pid))
        }
}

/// Entity `i` is removed by the collision policy: some live entity it
/// overlaps has a kind the policy pairs with its own for removal.
pub open spec fn flagged(reg: Registry, policy: CollisionPolicy, i: int) -> bool {
    flagged_upto(reg, policy, i, reg.collisions@[i]@.len() as int)
}

/// The ids of the entities with index below `upto` that the collision
/// policy removes, in index order.
pub open spec fn flagged_ids(reg: Registry, policy: CollisionPolicy, upto: int) -> Seq<u64>
    decreases upto,
{
    if upto <= 0 {
        Seq::empty()
    } else if flagged(reg, policy, upto - 1) {
        flagged_ids(reg, policy, upto - 1).push(reg.entities@[upto - 1].id)
    } else {
        flagged_ids(reg, policy, upto - 1)
    }
}

/// Membership in `flagged_ids` means exactly: some entity with that id,
/// below `upto`, is flagged by the policy.
pub proof fn lemma_flagged_ids_contains(
    reg: Registry,
    policy: CollisionPolicy,
    upto: int,
    id: u64,
)
    requires
        0 <= upto <= reg.entities@.len(),
    ensures
        flagged_ids(reg, policy, upto).contains(id) <==> exists|i: int|
            0 <= i < upto && #[trigger] reg.entities@[i].id == id && flagged(reg, policy, i),
    decreases upto,
{
    if upto > 0 {
        lemma_flagged_ids_contains(reg, policy, upto - 1, id);
        let pre = flagged_ids(reg, policy, upto - 1);
        if flagged(reg, policy, upto - 1) {
            let full = pre.push(reg.entities@[upto - 1].id);
            if full.contains(id) {
                let k = choose|k: int| 0 <= k < full.len() && #[trigger] full[k] == id;
                if k < pre.len() {
                    assert(pre[k] == id);
                    assert(pre.contains(id));
                }
            }
            if exists|i: int|
                0 <= i < upto && #[trigger] reg.entities@[i].id == id && flagged(
                    reg,
                    policy,
                    i,
                ) {
                let i = choose|i: int|
                    0 <= i < upto && #[trigger] reg.entities@[i].id == id && flagged(
                        reg,
                        policy,
                        i,
                    );
                if i == upto - 1 {
                    assert(full[pre.len() as int] == id);
                } else {
                    assert(pre.contains(id));
                    let k = choose|k: int| 0 <= k < pre.len() && #[trigger] pre[k] == id;
                    assert(full[k] == id);
                }
            }
        } else {
            if pre.contains(id) {
                assert(flagged_ids(reg, policy, upto).contains(id));
            }
        }
    }
}

/// Evaluates the despawn-by-collision policy for every live entity and
/// returns the removal queue: exactly the ids of the entities that
/// overlap some live partner whose kind the policy pairs with their own.
pub fn collision_despawns(reg: &Registry, policy: &CollisionPolicy) -> (ids: Vec<u64>)
    requires
        reg.wf(),
    ensures
        ids@ == flagged_ids(*reg, *policy, reg.entities@.len() as int),
        forall|id: u64|
            #[trigger] ids@.contains(id) <==> exists|i: int|
                0 <= i < reg.entities@.len() && #[trigger] reg.entities@[i].id == id && flagged(
                    *reg,
                    *policy,
                    i,
                ),
{
    let n = reg.entities.len();
    let mut ids: Vec<u64> = Vec::new();
    let mut i: usize = 0;
    while i < n
        invariant
            reg.wf(),
            n == reg.entities@.len(),
            0 <= i <= n,
            ids@ == flagged_ids(*reg, *policy, i as int),
        decreases n - i,
    {
        let row_len = reg.collisions[i].len();
        let mut hit = false;
        let mut k: usize = 0;
        while k < row_len
            invariant
                reg.wf(),
                n == reg.entities@.len(),
                0 <= i < n,
                row_len == reg.collisions@[i as int]@.len(),
                0 <= k <= row_len,
                hit == flagged_upto(*reg, *policy, i as int, k as int),
            decreases row_len - k,
        {
            let pid: u64 = reg.collisions[i][k];
            match reg.index_of(pid) {
                Some(j) => {
                    proof {
                        reg.lemma_idx_of(j as int, pid);
                    }
                    if policy.applies(reg.entities[i].kind, reg.entities[j].kind) {
                        hit = true;
                    }
                }
                None => {}
            }
            k += 1;
        }
        if hit {
            ids.push(reg.entities[i].id);
        }
        i += 1;
    }
    proof {
        assert forall|id: u64| #[trigger]
            ids@.contains(id) <==> exists|m: int|
                0 <= m < reg.entities@.len() && #[trigger] reg.entities@[m].id == id && flagged(
                    *reg,
                    *policy,
                    m,
                ) by {
            lemma_flagged_ids_contains(*reg, *policy, n as int, id);
        }
    }
    ids
}

/// The entities with index below `upto` whose id is not in the removal
/// queue, in their original order.
pub open spec fn kept_entities(entities: Seq<Entity>, ids: Seq<u64>, upto: int) -> Seq<Entity>
    decreases upto,
{
    if upto <= 0 {
        Seq::empty()
    } else if ids.contains(entities[upto - 1].id) {
        kept_entities(entities, ids, upto - 1)
    } else {
        kept_entities(entities, ids, upto - 1).push(entities[upto - 1])
    }
}

/// Every kept entity is one of the originals, and none is in the queue.
pub proof fn lemma_kept_entities(entities: Seq<Entity>, ids: Seq<u64>, upto: int)
    requires
        0 <= upto <= entities.len(),
    ensures
        forall|j: int|
            0 <= j < kept_entities(entities, ids, upto).len() ==> exists|i: int|
                0 <= i < upto && #[trigger] kept_entities(entities, ids, upto)[j] == entities[i],
        forall|j: int|
            0 <= j < kept_entities(entities, ids, upto).len() ==> !ids.contains(
                (#[trigger] kept_entities(entities, ids, upto)[j]).id,
            ),
    decreases upto,
{
    if upto > 0 {
        lemma_kept_entities(entities, ids, upto - 1);
        let pre = kept_entities(entities, ids, upto - 1);
        let cur = kept_entities(entities, ids, upto);
        assert forall|j: int| 0 <= j < cur.len() implies exists|i: int|
            0 <= i < upto && #[trigger] cur[j] == entities[i] by {
            if j < pre.len() {
                assert(cur[j] == pre[j]);
                let i = choose|i: int| 0 <= i < upto - 1 && #[trigger] pre[j] == entities[i];
                assert(cur[j] == entities[i]);
            } else {
                assert(cur[j] == entities[upto - 1]);
            }
        }
        assert forall|j: int| 0 <= j < cur.len() implies !ids.contains(
            (#[trigger] cur[j]).id,
        ) by {
            if j < pre.len() {
                assert(cur[j] == pre[j]);
            } else {
                assert(cur[j] == entities[upto - 1]);
            }
        }
    }
}

/// When the original ids are unique, so are the kept ones.
pub proof fn lemma_kept_unique(entities: Seq<Entity>, ids: Seq<u64>, upto: int)
    requires
        0 <= upto <= entities.len(),
        forall|i: int, j: int|
            0 <= i < j < entities.len() ==> #[trigger] entities[i].id != #[trigger] entities[j].id,
    ensures
        forall|j1: int, j2: int|
            0 <= j1 < j2 < kept_entities(entities, ids, upto).len()
                ==> #[trigger] kept_entities(entities, ids, upto)[j1].id
                != #[trigger] kept_entities(entities, ids, upto)[j2].id,
    decreases upto,
{
    if upto > 0 {
        lemma_kept_unique(entities, ids, upto - 1);
        lemma_kept_entities(entities, ids, upto - 1);
        let pre = kept_entities(entities, ids, upto - 1);
        let cur = kept_entities(entities, ids, upto);
        assert forall|j1: int, j2: int|
            0 <= j1 < j2 < cur.len() implies #[trigger] cur[j1].id
            != #[trigger] cur[j2].id by {
            if j2 < pre.len() {
                assert(cur[j1] == pre[j1] && cur[j2] == pre[j2]);
            } else if j2 == pre.len() && cur.len() > pre.len() {
                assert(cur[j1] == pre[j1]);
                assert(cur[j2] == entities[upto - 1]);
                let i = choose|i: int| 0 <= i < upto - 1 && #[trigger] pre[j1] == entities[i];
                assert(entities[i].id != entities[upto - 1].id);
            }
        }
    }
}

/// A kept id is exactly a live id that is not in the removal queue.
pub proof fn lemma_kept_contains(entities: Seq<Entity>, ids: Seq<u64>, upto: int, x: u64)
    requires
        0 <= upto <= entities.len(),
    ensures
        (exists|j: int|
            0 <= j < kept_entities(entities, ids, upto).len() && #[trigger] kept_entities(
                entities,
                ids,
                upto,
            )[j].id == x) <==> ((exists|i: int| 0 <= i < upto && #[trigger] entities[i].id == x)
            && !ids.contains(x)),
    decreases upto,
{
    if upto > 0 {
        lemma_kept_contains(entities, ids, upto - 1, x);
        let pre = kept_entities(entities, ids, upto - 1);
        let cur = kept_entities(entities, ids, upto);
        if exists|j: int| 0 <= j < cur.len() && #[trigger] cur[j].id == x {
            let j = choose|j: int| 0 <= j < cur.len() && #[trigger] cur[j].id == x;
            if j < pre.len() {
                assert(cur[j] == pre[j]);
            } else {
                assert(cur[j] == entities[upto - 1]);
            }
        }
        if (exists|i: int| 0 <= i < upto && #[trigger] entities[i].id == x) && !ids.contains(x) {
            let i = choose|i: int| 0 <= i < upto && #[trigger] entities[i].id == x;
            if i == upto - 1 {
                assert(cur[cur.len() - 1] == entities[upto - 1]);
            } else {
                assert(exists|j: int| 0 <= j < pre.len() && #[trigger] pre[j].id == x);
                let j = choose|j: int| 0 <= j < pre.len() && #[trigger] pre[j].id == x;
                if ids.contains(entities[upto - 1].id) {
                    assert(cur[j] == pre[j]);
                } else {
                    assert(cur[j] == pre[j]);
                }
            }
        }
    }
}

/// Decides `ids@.contains(x)`.
fn contains_id(ids: &Vec<u64>, x: u64) -> (r: bool)
    ensures
        r == ids@.contains(x),
{
    let n = ids.len();
    let mut i: usize = 0;
    while i < n
        invariant
            n == ids@.len(),
            0 <= i <= n,
            forall|k: int| 0 <= k < i ==> #[trigger] ids@[k] != x,
        decreases n - i,
    {
        if ids[i] == x {
            proof {
                assert(ids@[i as int] == x);
            }
            return true;
        }
        i += 1;
    }
    false
}

/// Copies a collision row.
pub(crate) fn copy_row(src: &Vec<u64>) -> (r: Vec<u64>)
    ensures
        r@ == src@,
{
    let n = src.len();
    let mut r: Vec<u64> = Vec::new();
    let mut i: usize = 0;
    while i < n
        invariant
            n == src@.len(),
            0 <= i <= n,
            r@ == src@.subrange(0, i as int),
        decreases n - i,
    {
        r.push(src[i]);
        proof {
            assert(r@ =~= src@.subrange(0, i + 1));
        }
        i += 1;
    }
    proof {
        assert(r@ =~= src@);
    }
    r
}

/// Entity `j` of `post`, with its collision row, is carried over intact
/// from some slot of `pre`.
pub open spec fn row_preserved(pre: Registry, post: Registry, j: int) -> bool {
    exists|i: int|
        0 <= i < pre.entities@.len() && post.entities@[j] == #[trigger] pre.entities@[i]
            && post.collisions@[j]@ == pre.collisions@[i]@
}

/// Applies a removal queue atomically: afterwards an id is live exactly
/// when it was live and not queued.  Survivors keep their entity data and
/// their recorded collision row; queued ids that are absent are ignored.
pub fn apply_despawns(reg: &mut Registry, ids: &Vec<u64>)
    requires
        old(reg).wf(),
    ensures
        final(reg).wf(),
        final(reg).next_id == old(reg).next_id,
        final(reg).entities@ == kept_entities(
            old(reg).entities@,
            ids@,
            old(reg).entities@.len() as int,
        ),
        forall|x: u64|
            #[trigger] final(reg).has_id(x) <==> (old(reg).has_id(x) && !ids@.contains(x)),
        forall|j: int|
            0 <= j < final(reg).entities@.len() ==> row_preserved(*old(reg), *final(reg), j),
{
    let n = reg.entities.len();
    let mut new_entities: Vec<Entity> = Vec::new();
    let mut new_rows: Vec<Vec<u64>> = Vec::new();
    let mut i: usize = 0;
    while i < n
        invariant
            reg.wf(),
            *reg == *old(reg),
            n == reg.entities@.len(),
            0 <= i <= n,
            new_entities@ == kept_entities(reg.entities@, ids@, i as int),
            new_rows@.len() == new_entities@.len(),
            forall|j: int|
                0 <= j < new_entities@.len() ==> exists|m: int|
                    0 <= m < i && #[trigger] new_entities@[j] == reg.entities@[m]
                        && new_rows@[j]@ == reg.collisions@[m]@,
        decreases n - i,
    {
        let e: Entity = reg.entities[i];
        if !contains_id(ids, e.id) {
            new_entities.push(e);
            let row = copy_row(&reg.collisions[i]);
            new_rows.push(row);
            proof {
                assert forall|j: int| 0 <= j < new_entities@.len() implies exists|m: int|
                    0 <= m < i + 1 && #[trigger] new_entities@[j] == reg.entities@[m]
                        && new_rows@[j]@ == reg.collisions@[m]@ by {
                    if j < new_entities@.len() - 1 {
                        let m = choose|m: int|
                            0 <= m < i && new_entities@[j] == #[trigger] reg.entities@[m]
                                && new_rows@[j]@ == reg.collisions@[m]@;
                        assert(0 <= m < i + 1 && new_entities@[j] == reg.entities@[m]
                            && new_rows@[j]@ == reg.collisions@[m]@);
                    } else {
                        assert(new_entities@[j] == reg.entities@[i as int] && new_rows@[j]@
                            == reg.collisions@[i as int]@);
                    }
                }
            }
        }
        i += 1;
    }
    proof {
        lemma_kept_entities(reg.entities@, ids@, n as int);
        lemma_kept_unique(reg.entities@, ids@, n as int);
    }
    reg.entities = new_entities;
    reg.collisions = new_rows;
    proof {
        let olde = old(reg).entities@;
        let ke = kept_entities(olde, ids@, n as int);
        assert(reg.entities@ == ke);
        assert forall|j: int|
            0 <= j < reg.entities@.len() implies #[trigger] reg.entities@[j].wf()
            && reg.entities@[j].id < reg.next_id by {
            assert(exists|i: int| 0 <= i < n && #[trigger] ke[j] == olde[i]);
            let i = choose|i: int| 0 <= i < n && #[trigger] ke[j] == olde[i];
            assert(olde[i].wf() && olde[i].id < old(reg).next_id);
        }
        assert forall|x: u64| #[trigger]
            reg.has_id(x) <==> (old(reg).has_id(x) && !ids@.contains(x)) by {
            lemma_kept_contains(olde, ids@, n as int, x);
        }
    }
}

/// A queued creation request: everything a new entity needs except its
/// id, which the registry assigns when the queue is drained.
#[derive(Clone, Copy, Debug, PartialEq, Eq, Structural)]
pub struct SpawnRequest {
    pub kind: EntityKind,
    pub transform: Transform,
    pub velocity: Vec3,
    pub acceleration: Vec3,
    pub radius: i64,
    pub model: Option<u64>,
}

impl SpawnRequest {
    /// The entity this request creates under a given id.
    pub open spec fn to_entity(self, id: u64) -> Entity {
        Entity {
            id,
            kind: self.kind,
            transform: self.transform,
            velocity: self.velocity,
            acceleration: self.acceleration,
            radius: self.radius,
            model: self.model,
        }
    }

    /// The created entity will be well formed, whatever id it gets.
    pub open spec fn wf(self) -> bool {
        &&& self.transform.position.in_box(COORD_LIMIT as int)
        &&& -(COORD_LIMIT as int) <= self.transform.orientation.yaw <= COORD_LIMIT as int
        &&& -(COORD_LIMIT as int) <= self.transform.orientation.roll <= COORD_LIMIT as int
        &&& self.velocity.in_box(VEL_LIMIT as int)
        &&& self.acceleration.in_box(VEL_LIMIT as int)
        &&& 0 < self.radius <= RADIUS_LIMIT
    }
}

/// Drains a creation queue into the registry, in order: each request
/// becomes a live entity under the next fresh id, with an empty collision
/// row; nothing already live is touched.
pub fn apply_spawns(reg: &mut Registry, reqs: &Vec<SpawnRequest>)
    requires
        old(reg).wf(),
        forall|k: int| 0 <= k < reqs@.len() ==> (#[trigger] reqs@[k]).wf(),
        old(reg).next_id + reqs@.len() <= u64::MAX,
    ensures
        final(reg).wf(),
        final(reg).next_id == old(reg).next_id + reqs@.len(),
        final(reg).entities@.len() == old(reg).entities@.len() + reqs@.len(),
        final(reg).collisions@.len() == final(reg).entities@.len(),
        forall|i: int|
            0 <= i < old(reg).entities@.len() ==> #[trigger] final(reg).entities@[i] == old(
                reg,
            ).entities@[i],
        forall|i: int|
            0 <= i < old(reg).entities@.len() ==> #[trigger] final(reg).collisions@[i] == old(
                reg,
            ).collisions@[i],
        forall|k: int|
            0 <= k < reqs@.len() ==> #[trigger] final(reg).entities@[old(reg).entities@.len() + k]
                == reqs@[k].to_entity((old(reg).next_id + k) as u64),
        forall|k: int|
            0 <= k < reqs@.len()
                ==> #[trigger] final(reg).collisions@[old(reg).entities@.len() + k]@.len() == 0,
{
    let m = reqs.len();
    let mut k: usize = 0;
    while k < m
        invariant
            reg.wf(),
            m == reqs@.len(),
            0 <= k <= m,
            forall|j: int| 0 <= j < m ==> (#[trigger] reqs@[j]).wf(),
            old(reg).next_id + m <= u64::MAX,
            reg.next_id == old(reg).next_id + k,
            reg.entities@.len() == old(reg).entities@.len() + k,
            reg.collisions@.len() == reg.entities@.len(),
            forall|i: int|
                0 <= i < old(reg).entities@.len() ==> #[trigger] reg.entities@[i] == old(
                    reg,
                ).entities@[i],
            forall|i: int|
                0 <= i < old(reg).entities@.len() ==> #[trigger] reg.collisions@[i] == old(
                    reg,
                ).collisions@[i],
            forall|j: int|
                0 <= j < k ==> #[trigger] reg.entities@[old(reg).entities@.len() + j]
                    == reqs@[j].to_entity((old(reg).next_id + j) as u64),
            forall|j: int|
                0 <= j < k
                    ==> #[trigger] reg.collisions@[old(reg).entities@.len() + j]@.len() == 0,
        decreases m - k,
    {
        let req: SpawnRequest = reqs[k];
        reg.create(req.kind, req.transform, req.velocity, req.acceleration, req.radius, req.model);
        k += 1;
    }
}

/// What a timer-driven asteroid request promises, whatever the random
/// draw: a well-formed asteroid inside the spawn bounds with the
/// configured radius and model handle, velocity and acceleration on the
/// `y == 0` plane, each a random direction scaled to its configured
/// magnitude — the squared norm sits in a truncation-tight band around
/// the magnitude's square, between `s^2 - 4s - 2` and `s^2 * 251/250`.
pub open spec fn asteroid_request_ok(cfg: Config, r: SpawnRequest) -> bool {
    &&& r.wf()
    &&& r.kind == EntityKind::Asteroid
    &&& cfg.spawn_bounds.holds(r.transform.position)
    &&& r.transform.orientation == (Orient { yaw: 0i64, roll: 0i64 })
    &&& r.velocity.in_box(cfg.velocity_scalar as int)
    &&& r.velocity.y == 0
    &&& norm_sq(r.velocity) >= cfg.velocity_scalar * cfg.velocity_scalar - 4 * cfg.velocity_scalar
        - 2
    &&& 250 * norm_sq(r.velocity) <= 251 * (cfg.velocity_scalar * cfg.velocity_scalar)
    &&& r.acceleration.in_box(cfg.acceleration_scalar as int)
    &&& r.acceleration.y == 0
    &&& norm_sq(r.acceleration) >= cfg.acceleration_scalar * cfg.acceleration_scalar - 4
        * cfg.acceleration_scalar - 2
    &&& 250 * norm_sq(r.acceleration) <= 251 * (cfg.acceleration_scalar
        * cfg.acceleration_scalar)
    &&& r.radius == cfg.asteroid_radius
    &&& r.model == cfg.asteroid_model
}

/// Builds a timer-driven asteroid creation request: position sampled
/// uniformly within the configured bounds, velocity and acceleration each
/// an independently sampled random unit direction scaled by its
/// configured magnitude, the configured asteroid model handle attached.
pub fn asteroid_spawn_request(cfg: &Config) -> (r: SpawnRequest)
    requires
        cfg.valid(),
    ensures
        asteroid_request_ok(*cfg, r),
{
    let position = sample_position(&cfg.spawn_bounds);
    let velocity = sample_scaled_direction(cfg.velocity_scalar);
    let acceleration = sample_scaled_direction(cfg.acceleration_scalar);
    SpawnRequest {
        kind: EntityKind::Asteroid,
        transform: Transform { position, orientation: Orient { yaw: 0, roll: 0 } },
        velocity,
        acceleration,
        radius: cfg.asteroid_radius,
        model: cfg.asteroid_model,
    }
}

} // verus!
