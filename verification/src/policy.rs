//! The kind-pair despawn policy.
//!
//! Collision-driven removal is data-driven: a table of ordered kind pairs
//! says which entity of a colliding pair is removed.  New kinds extend the
//! table without touching the detection algorithm.

use vstd::prelude::*;
use crate::entity::EntityKind;

verus! {

pub struct CollisionPolicy {
    /// `(a, b)` present means: an entity of kind `a` colliding with an
    /// entity of kind `b` is removed.
    pub removals: Vec<(EntityKind, EntityKind)>,
}

impl CollisionPolicy {
    /// An entity of kind `a` colliding with one of kind `b` is removed.
    pub open spec fn removes(self, a: EntityKind, b: EntityKind) -> bool {
        self.removals@.contains((a, b))
    }

    pub fn new() -> (p: CollisionPolicy)
        ensures
            p.removals@.len() == 0,
            forall|a: EntityKind, b: EntityKind| !(#[trigger] p.removes(a, b)),
    {
        CollisionPolicy { removals: Vec::new() }
    }

    /// Adds a removal rule.
    pub fn add_rule(&mut self, a: EntityKind, b: EntityKind)
        ensures
            final(self).removals@ == old(self).removals@.push((a, b)),
            forall|x: EntityKind, y: EntityKind|
                #[trigger] final(self).removes(x, y) <==> (old(self).removes(x, y) || (x == a && y
                    == b)),
    {
        self.removals.push((a, b));
        proof {
            assert forall|x: EntityKind, y: EntityKind|
                #[trigger] self.removes(x, y) <==> (old(self).removes(x, y) || (x == a && y
                    == b)) by {
                let s = old(self).removals@;
                if self.removes(x, y) {
                    let k = choose|k: int|
                        0 <= k < s.push((a, b)).len() && s.push((a, b))[k] == (x, y);
                    if k < s.len() {
                        assert(s[k] == (x, y));
                        assert(old(self).removes(x, y));
                    }
                }
                if old(self).removes(x, y) {
                    let k = choose|k: int| 0 <= k < s.len() && s[k] == (x, y);
                    assert(s.push((a, b))[k] == (x, y));
                }
                if x == a && y == b {
                    assert(s.push((a, b))[s.len() as int] == (x, y));
                }
            }
        }
    }

    /// Decides `removes` for a concrete pair of kinds.
    pub fn applies(&self, a: EntityKind, b: EntityKind) -> (r: bool)
        ensures
            r == self.removes(a, b),
    {
        let n = self.removals.len();
        let mut i: usize = 0;
        while i < n
            invariant
                n == self.removals@.len(),
                0 <= i <= n,
                forall|k: int| 0 <= k < i ==> #[trigger] self.removals@[k] != (a, b),
            decreases n - i,
        {
            let (x, y) = self.removals[i];
            if x == a && y == b {
                proof {
                    assert(self.removals@[i as int] == (a, b));
                }
                return true;
            }
            i += 1;
        }
        false
    }

    /// The stock policy: asteroid-vs-asteroid collisions are exempt, while
    /// an asteroid colliding with a ship or a projectile is removed (and
    /// only the asteroid is).
    pub fn standard() -> (p: CollisionPolicy)
        ensures
            forall|a: EntityKind, b: EntityKind|
                #[trigger] p.removes(a, b) <==> (a is Asteroid && (b is Ship || b is Projectile)),
    {
        let mut p = CollisionPolicy::new();
        p.add_rule(EntityKind::Asteroid, EntityKind::Ship);
        p.add_rule(EntityKind::Asteroid, EntityKind::Projectile);
        p
    }
}

} // verus!
