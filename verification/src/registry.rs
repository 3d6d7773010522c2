//! The entity registry: sole owner of entity lifetime.
//!
//! Entities live in a dense list; the per-entity sets of overlapping
//! entities are kept in `collisions`, a table parallel to the list, so
//! that an entity itself stays plain copyable data.

use vstd::prelude::*;
use crate::entity::{Entity, EntityKind, SimError, Transform};
use crate::vec3::Vec3;

verus! {

pub struct Registry {
    pub entities: Vec<Entity>,
    /// `collisions[i]` holds the ids of the entities overlapping
    /// `entities[i]`, as of the last detection pass.
    pub collisions: Vec<Vec<u64>>,
    /// Monotonic id counter; ids below it are never handed out again.
    pub next_id: u64,
}

impl Registry {
    /// Structural invariant: the collision table is aligned with the
    /// entity list, every entity is well formed, ids are unique and below
    /// the counter.
    pub open spec fn wf(self) -> bool {
        &&& self.collisions@.len() == self.entities@.len()
        &&& forall|i: int|
            0 <= i < self.entities@.len() ==> #[trigger] self.entities@[i].wf()
        &&& forall|i: int|
            0 <= i < self.entities@.len() ==> #[trigger] self.entities@[i].id < self.next_id
        &&& forall|i: int, j: int|
            0 <= i < j < self.entities@.len()
                ==> #[trigger] self.entities@[i].id != #[trigger] self.entities@[j].id
    }

    /// Some live entity carries this id.
    pub open spec fn has_id(self, id: u64) -> bool {
        exists|i: int| 0 <= i < self.entities@.len() && #[trigger] self.entities@[i].id == id
    }

    /// The index of the live entity carrying `id` (meaningful only when
    /// `has_id(id)` holds).
    pub open spec fn idx_of(self, id: u64) -> int {
        choose|i: int| 0 <= i < self.entities@.len() && #[trigger] self.entities@[i].id == id
    }

    /// The kind of the live entity carrying `id` (meaningful only when
    /// `has_id(id)` holds).
    pub open spec fn kind_of(self, id: u64) -> EntityKind {
        self.entities@[self.idx_of(id)].kind
    }

    pub fn new() -> (r: Registry)
        ensures
            r.wf(),
            r.entities@.len() == 0,
            r.collisions@.len() == 0,
            r.next_id == 0,
    {
        Registry { entities: Vec::new(), collisions: Vec::new(), next_id: 0 }
    }

    /// The index of the entity carrying `id`, if any.
    pub fn index_of(&self, id: u64) -> (r: Option<usize>)
        ensures
            match r {
                Some(i) => i < self.entities@.len() && self.entities@[i as int].id == id,
                None => !self.has_id(id),
            },
    {
        let n = self.entities.len();
        let mut i: usize = 0;
        while i < n
            invariant
                n == self.entities@.len(),
                0 <= i <= n,
                forall|k: int| 0 <= k < i ==> #[trigger] self.entities@[k].id != id,
            decreases n - i,
        {
            if self.entities[i].id == id {
                return Some(i);
            }
            i += 1;
        }
        None
    }

    /// Creates a new entity and returns its id.  Creation always succeeds;
    /// the counter bound is a machine limit, not a policy.
    pub fn create(
        &mut self,
        kind: EntityKind,
        transform: Transform,
        velocity: Vec3,
        acceleration: Vec3,
        radius: i64,
        model: Option<u64>,
    ) -> (id: u64)
        requires
            old(self).wf(),
            old(self).next_id < u64::MAX,
            (Entity {
                id: old(self).next_id,
                kind,
                transform,
                velocity,
                acceleration,
                radius,
                model,
            }).wf(),
        ensures
            final(self).wf(),
            id == old(self).next_id,
            final(self).next_id == old(self).next_id + 1,
            final(self).entities@ == old(self).entities@.push(
                Entity { id, kind, transform, velocity, acceleration, radius, model },
            ),
            final(self).collisions@.len() == old(self).collisions@.len() + 1,
            forall|i: int|
                0 <= i < old(self).collisions@.len()
                    ==> #[trigger] final(self).collisions@[i] == old(self).collisions@[i],
            final(self).collisions@[old(self).collisions@.len() as int]@.len() == 0,
            final(self).has_id(id),
    {
        let id = self.next_id;
        let e = Entity { id, kind, transform, velocity, acceleration, radius, model };
        self.entities.push(e);
        self.collisions.push(Vec::new());
        self.next_id = id + 1;
        proof {
            let n = self.entities@.len() - 1;
            assert(self.entities@[n].id == id);
        }
        id
    }

    /// Looks an entity up by id.  Fails with `NotFound` exactly when no
    /// live entity carries the id; callers treat that as "already gone".
    pub fn get(&self, id: u64) -> (r: Result<Entity, SimError>)
        requires
            self.wf(),
        ensures
            match r {
                Ok(e) => self.has_id(id) && e == self.entities@[self.idx_of(id)] && e.id == id,
                Err(err) => !self.has_id(id) && err == SimError::NotFound,
            },
    {
        match self.index_of(id) {
            Some(i) => {
                proof {
                    self.lemma_idx_of(i as int, id);
                }
                Ok(self.entities[i])
            }
            None => Err(SimError::NotFound),
        }
    }

    /// With unique ids, the index found for `id` is the `idx_of` witness.
    pub proof fn lemma_idx_of(&self, i: int, id: u64)
        requires
            self.wf(),
            0 <= i < self.entities@.len(),
            self.entities@[i].id == id,
        ensures
            self.has_id(id),
            self.idx_of(id) == i,
    {
        assert(self.has_id(id));
        let j = self.idx_of(id);
        assert(0 <= j < self.entities@.len() && self.entities@[j].id == id);
        if i < j {
            assert(self.entities@[i].id != self.entities@[j].id);
        } else if j < i {
            assert(self.entities@[j].id != self.entities@[i].id);
        }
    }

    /// Borrows the entity carrying `id` mutably.  Fails with `NotFound`
    /// exactly when no live entity carries the id.  The caller sees in
    /// the contract how the list looks after the borrow ends; the other
    /// tables and the id counter are untouched.
    pub fn get_mut(&mut self, id: u64) -> (r: Result<&mut Entity, SimError>)
        requires
            old(self).wf(),
        ensures
            final(self).collisions == old(self).collisions,
            final(self).next_id == old(self).next_id,
            match r {
                Ok(e) => {
                    &&& old(self).has_id(id)
                    &&& *e == old(self).entities@[old(self).idx_of(id)]
                    &&& final(self).entities@ == old(self).entities@.update(
                        old(self).idx_of(id),
                        *final(e),
                    )
                },
                Err(err) => {
                    &&& !old(self).has_id(id)
                    &&& err == SimError::NotFound
                    &&& final(self).entities@ == old(self).entities@
                },
            },
    {
        match self.index_of(id) {
            Some(i) => {
                proof {
                    self.lemma_idx_of(i as int, id);
                }
                Ok(&mut self.entities[i])
            }
            None => Err(SimError::NotFound),
        }
    }

    /// An ordered copy of all live entities, stable for the rest of the
    /// current tick: later mutations of the registry cannot reach it.
    pub fn snapshot(&self) -> (r: Vec<Entity>)
        ensures
            r@ == self.entities@,
    {
        let n = self.entities.len();
        let mut r: Vec<Entity> = Vec::new();
        let mut i: usize = 0;
        while i < n
            invariant
                n == self.entities@.len(),
                0 <= i <= n,
                r@ == self.entities@.subrange(0, i as int),
            decreases n - i,
        {
            r.push(self.entities[i]);
            proof {
                assert(r@ =~= self.entities@.subrange(0, i + 1));
            }
            i += 1;
        }
        proof {
            assert(r@ =~= self.entities@);
        }
        r
    }

    /// Removes the entity carrying `id`.  Idempotent: removing an absent
    /// id is a no-op, never an error.  Removal is terminal; the id is
    /// never reassigned because the counter only grows.
    pub fn remove(&mut self, id: u64)
        requires
            old(self).wf(),
        ensures
            final(self).wf(),
            final(self).next_id == old(self).next_id,
            !final(self).has_id(id),
            !old(self).has_id(id) ==> *final(self) == *old(self),
            old(self).has_id(id) ==> {
                let i = old(self).idx_of(id);
                &&& final(self).entities@ == old(self).entities@.remove(i)
                &&& final(self).collisions@ == old(self).collisions@.remove(i)
            },
    {
        match self.index_of(id) {
            Some(i) => {
                proof {
                    self.lemma_idx_of(i as int, id);
                }
                self.entities.remove(i);
                self.collisions.remove(i);
                proof {
                    assert forall|k: int|
                        0 <= k < self.entities@.len() implies #[trigger] self.entities@[k].id
                        != id by {
                        if k >= i {
                            assert(self.entities@[k] == old(self).entities@[k + 1]);
                        }
                    }
                }
            }
            None => {}
        }
    }
}

} // verus!
