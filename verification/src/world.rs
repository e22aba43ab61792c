//! World registry: one independently simulated physics world per region,
//! each owning its engine state, the forward id-to-handle index, the
//! last-known-transform cache, the pending-damage accumulator and the
//! per-collider bookkeeping.

use vstd::prelude::*;
use crate::engine::{EngineState, HandleBits, TransformBits, new_engine};

verus! {

/// One entry of the forward index: the entity id, its engine handles and
/// its body role.
#[derive(Clone, Copy, Debug, PartialEq, Eq, Structural)]
pub struct BodyRecord {
    pub entity_id: u32,
    pub body: HandleBits,
    pub collider: HandleBits,
    pub body_type: u8,
}

/// The forward index holds the given entity id.
pub open spec fn spec_index_has(s: Seq<BodyRecord>, entity_id: u32) -> bool {
    exists|i: int| 0 <= i < s.len() && s[i].entity_id == entity_id
}

/// The forward-index record of the given entity id, if present; the index
/// keys entity ids uniquely, so the record is determined.
pub open spec fn spec_record_of(s: Seq<BodyRecord>, entity_id: u32) -> Option<BodyRecord> {
    if spec_index_has(s, entity_id) {
        Some(s[choose|i: int| 0 <= i < s.len() && s[i].entity_id == entity_id])
    } else {
        None
    }
}

/// The cached transform of the given body handle, if one was recorded.
pub open spec fn spec_cached_transform(
    s: Seq<(HandleBits, TransformBits)>,
    h: HandleBits,
) -> Option<TransformBits> {
    if exists|i: int| 0 <= i < s.len() && s[i].0 == h {
        Some(s[choose|i: int| 0 <= i < s.len() && s[i].0 == h].1)
    } else {
        None
    }
}

/// The damage accumulated for the given entity id; zero when none is
/// recorded.
pub open spec fn spec_pending_damage_of(s: Seq<(u32, u32)>, entity: u32) -> u32 {
    if exists|i: int| 0 <= i < s.len() && s[i].0 == entity {
        s[choose|i: int| 0 <= i < s.len() && s[i].0 == entity].1
    } else {
        0
    }
}

/// The recorded owner of the given collider handle, if any.
pub open spec fn spec_owner_of(s: Seq<(HandleBits, u128)>, h: HandleBits) -> Option<u128> {
    if exists|i: int| 0 <= i < s.len() && s[i].0 == h {
        Some(s[choose|i: int| 0 <= i < s.len() && s[i].0 == h].1)
    } else {
        None
    }
}

/// The hit counter of the given collider handle; zero when none is
/// recorded.
pub open spec fn spec_hits_of(s: Seq<(HandleBits, u8)>, h: HandleBits) -> u8 {
    if exists|i: int| 0 <= i < s.len() && s[i].0 == h {
        s[choose|i: int| 0 <= i < s.len() && s[i].0 == h].1
    } else {
        0
    }
}

/// Physics world state for one region.
pub struct PhysicsWorld {
    pub region: u32,
    pub engine: EngineState,
    pub bodies_index: Vec<BodyRecord>,
    pub last_transforms: Vec<(HandleBits, TransformBits)>,
    pub pending_damage: Vec<(u32, u32)>,
    pub collider_hits: Vec<(HandleBits, u8)>,
    pub collider_owners: Vec<(HandleBits, u128)>,
}

impl PhysicsWorld {
    /// Every map of the world keys its entries uniquely.
    pub open spec fn wf(self) -> bool {
        (forall|i: int, j: int|
            0 <= i < j < self.bodies_index@.len() ==> self.bodies_index@[i].entity_id
                != self.bodies_index@[j].entity_id) && (forall|i: int, j: int|
            0 <= i < j < self.last_transforms@.len() ==> self.last_transforms@[i].0
                != self.last_transforms@[j].0) && (forall|i: int, j: int|
            0 <= i < j < self.pending_damage@.len() ==> self.pending_damage@[i].0
                != self.pending_damage@[j].0) && (forall|i: int, j: int|
            0 <= i < j < self.collider_hits@.len() ==> self.collider_hits@[i].0
                != self.collider_hits@[j].0) && (forall|i: int, j: int|
            0 <= i < j < self.collider_owners@.len() ==> self.collider_owners@[i].0
                != self.collider_owners@[j].0)
    }

    /// A fresh world for a region: an empty engine world with the fixed
    /// gravity override, and empty maps.
    pub fn new(region: u32) -> (r: PhysicsWorld)
        ensures
            r.wf(),
            r.region == region,
            r.bodies_index@.len() == 0,
            r.last_transforms@.len() == 0,
            r.pending_damage@.len() == 0,
            r.collider_hits@.len() == 0,
            r.collider_owners@.len() == 0,
    {
        PhysicsWorld {
            region,
            engine: new_engine(),
            bodies_index: Vec::new(),
            last_transforms: Vec::new(),
            pending_damage: Vec::new(),
            collider_hits: Vec::new(),
            collider_owners: Vec::new(),
        }
    }

    /// Index of the forward-index record of the given entity id.
    pub fn record_index(&self, entity_id: u32) -> (r: Option<usize>)
        requires
            self.wf(),
        ensures
            match r {
                Some(i) => i < self.bodies_index@.len() && self.bodies_index@[i as int].entity_id
                    == entity_id && spec_record_of(self.bodies_index@, entity_id) == Some(
                    self.bodies_index@[i as int],
                ),
                None => !spec_index_has(self.bodies_index@, entity_id),
            },
    {
        let mut i: usize = 0;
        while i < self.bodies_index.len()
            invariant
                self.wf(),
                i <= self.bodies_index@.len(),
                forall|j: int| 0 <= j < i ==> self.bodies_index@[j].entity_id != entity_id,
            decreases self.bodies_index@.len() - i,
        {
            if self.bodies_index[i].entity_id == entity_id {
                proof {
                    assert(spec_index_has(self.bodies_index@, entity_id));
                    let c = choose|c: int|
                        0 <= c < self.bodies_index@.len() && self.bodies_index@[c].entity_id
                            == entity_id;
                    if c < i {
                        assert(self.bodies_index@[c].entity_id != entity_id);
                    }
                    assert(c == i);
                }
                return Some(i);
            }
            i = i + 1;
        }
        None
    }

    /// O(1)-intent forward lookup: the engine body handle of an entity id.
    pub fn find_handle(&self, entity_id: u32) -> (r: Option<HandleBits>)
        requires
            self.wf(),
        ensures
            match spec_record_of(self.bodies_index@, entity_id) {
                Some(rec) => r == Some(rec.body),
                None => r is None,
            },
    {
        match self.record_index(entity_id) {
            Some(i) => Some(self.bodies_index[i].body),
            None => None,
        }
    }

    /// Register a freshly spawned body in the forward index.
    pub fn register_body(&mut self, rec: BodyRecord)
        requires
            old(self).wf(),
            !spec_index_has(old(self).bodies_index@, rec.entity_id),
        ensures
            final(self).wf(),
            final(self).bodies_index@ == old(self).bodies_index@.push(rec),
            final(self).region == old(self).region,
            final(self).engine == old(self).engine,
            final(self).last_transforms == old(self).last_transforms,
            final(self).pending_damage == old(self).pending_damage,
            final(self).collider_hits == old(self).collider_hits,
            final(self).collider_owners == old(self).collider_owners,
    {
        self.bodies_index.push(rec);
    }

    /// Remove the forward-index record of an entity id; unknown ids are a
    /// no-op.
    pub fn unregister_body(&mut self, entity_id: u32)
        requires
            old(self).wf(),
        ensures
            final(self).wf(),
            !spec_index_has(final(self).bodies_index@, entity_id),
            spec_index_has(old(self).bodies_index@, entity_id) ==> exists|i: int|
                0 <= i < old(self).bodies_index@.len() && old(self).bodies_index@[i].entity_id
                    == entity_id && final(self).bodies_index@ == old(self).bodies_index@.remove(i),
            !spec_index_has(old(self).bodies_index@, entity_id) ==> final(self).bodies_index@ == old(
                self,
            ).bodies_index@,
            final(self).region == old(self).region,
            final(self).engine == old(self).engine,
            final(self).last_transforms == old(self).last_transforms,
            final(self).pending_damage == old(self).pending_damage,
            final(self).collider_hits == old(self).collider_hits,
            final(self).collider_owners == old(self).collider_owners,
    {
        match self.record_index(entity_id) {
            Some(i) => {
                self.bodies_index.remove(i);
                proof {
                    let s = old(self).bodies_index@;
                    assert forall|j: int|
                        0 <= j < self.bodies_index@.len() implies self.bodies_index@[j].entity_id
                        != entity_id by {
                        if j < i {
                            assert(self.bodies_index@[j] == s[j]);
                        } else {
                            assert(self.bodies_index@[j] == s[j + 1]);
                        }
                    }
                }
            },
            None => {},
        }
    }

    /// Accumulate damage for an entity, coalescing with damage already
    /// pending this tick; the sum saturates.
    pub fn add_pending_damage(&mut self, entity: u32, amount: u32)
        requires
            old(self).wf(),
        ensures
            final(self).wf(),
            spec_pending_damage_of(final(self).pending_damage@, entity) == if spec_pending_damage_of(
                old(self).pending_damage@,
                entity,
            ) + amount <= u32::MAX {
                spec_pending_damage_of(old(self).pending_damage@, entity) + amount
            } else {
                u32::MAX as int
            },
            forall|e2: u32|
                e2 != entity ==> spec_pending_damage_of(final(self).pending_damage@, e2)
                    == spec_pending_damage_of(old(self).pending_damage@, e2),
            final(self).region == old(self).region,
            final(self).engine == old(self).engine,
            final(self).bodies_index == old(self).bodies_index,
            final(self).last_transforms == old(self).last_transforms,
            final(self).collider_hits == old(self).collider_hits,
            final(self).collider_owners == old(self).collider_owners,
    {
        let mut i: usize = 0;
        while i < self.pending_damage.len()
            invariant
                *self == *old(self),
                old(self).wf(),
                i <= self.pending_damage@.len(),
                forall|j: int| 0 <= j < i ==> self.pending_damage@[j].0 != entity,
            decreases self.pending_damage@.len() - i,
        {
            let (k, v) = self.pending_damage[i];
            if k == entity {
                let nv = v.saturating_add(amount);
                let slot = &mut self.pending_damage[i];
                *slot = (k, nv);
                proof {
                    lemma_kv_u32_update(old(self).pending_damage@, self.pending_damage@, i as int, entity, nv);
                }
                return ;
            }
            i = i + 1;
        }
        self.pending_damage.push((entity, amount));
        proof {
            lemma_kv_u32_push(old(self).pending_damage@, self.pending_damage@, entity, amount);
        }
    }

    /// Remove and return the damage pending for an entity; zero when none
    /// is pending.
    pub fn take_pending_damage(&mut self, entity: u32) -> (r: u32)
        requires
            old(self).wf(),
        ensures
            final(self).wf(),
            r == spec_pending_damage_of(old(self).pending_damage@, entity),
            spec_pending_damage_of(final(self).pending_damage@, entity) == 0,
            forall|e2: u32|
                e2 != entity ==> spec_pending_damage_of(final(self).pending_damage@, e2)
                    == spec_pending_damage_of(old(self).pending_damage@, e2),
            final(self).region == old(self).region,
            final(self).engine == old(self).engine,
            final(self).bodies_index == old(self).bodies_index,
            final(self).last_transforms == old(self).last_transforms,
            final(self).collider_hits == old(self).collider_hits,
            final(self).collider_owners == old(self).collider_owners,
    {
        let mut i: usize = 0;
        while i < self.pending_damage.len()
            invariant
                *self == *old(self),
                old(self).wf(),
                i <= self.pending_damage@.len(),
                forall|j: int| 0 <= j < i ==> self.pending_damage@[j].0 != entity,
            decreases self.pending_damage@.len() - i,
        {
            let (k, v) = self.pending_damage[i];
            if k == entity {
                self.pending_damage.remove(i);
                proof {
                    lemma_kv_u32_remove(old(self).pending_damage@, self.pending_damage@, i as int, entity);
                }
                return v;
            }
            i = i + 1;
        }
        0
    }

    /// Clear the pending-damage accumulator for the next tick.
    pub fn clear_pending_damage(&mut self)
        requires
            old(self).wf(),
        ensures
            final(self).wf(),
            final(self).pending_damage@.len() == 0,
            forall|e2: u32| spec_pending_damage_of(final(self).pending_damage@, e2) == 0,
            final(self).region == old(self).region,
            final(self).engine == old(self).engine,
            final(self).bodies_index == old(self).bodies_index,
            final(self).last_transforms == old(self).last_transforms,
            final(self).collider_hits == old(self).collider_hits,
            final(self).collider_owners == old(self).collider_owners,
    {
        self.pending_damage.clear();
    }

    /// The cached transform of a body handle.
    pub fn cached_transform(&self, h: HandleBits) -> (r: Option<TransformBits>)
        requires
            self.wf(),
        ensures
            r == spec_cached_transform(self.last_transforms@, h),
    {
        let mut i: usize = 0;
        while i < self.last_transforms.len()
            invariant
                self.wf(),
                i <= self.last_transforms@.len(),
                forall|j: int| 0 <= j < i ==> self.last_transforms@[j].0 != h,
            decreases self.last_transforms@.len() - i,
        {
            let (k, v) = self.last_transforms[i];
            if k == h {
                proof {
                    let c = choose|c: int|
                        0 <= c < self.last_transforms@.len() && self.last_transforms@[c].0 == h;
                    assert(c == i);
                }
                return Some(v);
            }
            i = i + 1;
        }
        None
    }

    /// Record the last written transform of a body handle.
    pub fn set_cached_transform(&mut self, h: HandleBits, t: TransformBits)
        requires
            old(self).wf(),
        ensures
            final(self).wf(),
            spec_cached_transform(final(self).last_transforms@, h) == Some(t),
            forall|h2: HandleBits|
                h2 != h ==> spec_cached_transform(final(self).last_transforms@, h2)
                    == spec_cached_transform(old(self).last_transforms@, h2),
            final(self).region == old(self).region,
            final(self).engine == old(self).engine,
            final(self).bodies_index == old(self).bodies_index,
            final(self).pending_damage == old(self).pending_damage,
            final(self).collider_hits == old(self).collider_hits,
            final(self).collider_owners == old(self).collider_owners,
    {
        let mut i: usize = 0;
        while i < self.last_transforms.len()
            invariant
                *self == *old(self),
                old(self).wf(),
                i <= self.last_transforms@.len(),
                forall|j: int| 0 <= j < i ==> self.last_transforms@[j].0 != h,
            decreases self.last_transforms@.len() - i,
        {
            let (k, _) = self.last_transforms[i];
            if k == h {
                let slot = &mut self.last_transforms[i];
                *slot = (h, t);
                proof {
                    lemma_kv_tf_update(old(self).last_transforms@, self.last_transforms@, i as int, h, t);
                }
                return ;
            }
            i = i + 1;
        }
        self.last_transforms.push((h, t));
        proof {
            lemma_kv_tf_push(old(self).last_transforms@, self.last_transforms@, h, t);
        }
    }

    /// Saturating increment of the hit counter of a collider handle;
    /// returns the new count.
    pub fn bump_collider_hits(&mut self, h: HandleBits) -> (r: u8)
        requires
            old(self).wf(),
        ensures
            final(self).wf(),
            r == if spec_hits_of(old(self).collider_hits@, h) + 1 <= u8::MAX {
                spec_hits_of(old(self).collider_hits@, h) + 1
            } else {
                u8::MAX as int
            },
            spec_hits_of(final(self).collider_hits@, h) == r,
            forall|h2: HandleBits|
                h2 != h ==> spec_hits_of(final(self).collider_hits@, h2) == spec_hits_of(
                    old(self).collider_hits@,
                    h2,
                ),
            final(self).region == old(self).region,
            final(self).engine == old(self).engine,
            final(self).bodies_index == old(self).bodies_index,
            final(self).last_transforms == old(self).last_transforms,
            final(self).pending_damage == old(self).pending_damage,
            final(self).collider_owners == old(self).collider_owners,
    {
        let mut i: usize = 0;
        while i < self.collider_hits.len()
            invariant
                *self == *old(self),
                old(self).wf(),
                i <= self.collider_hits@.len(),
                forall|j: int| 0 <= j < i ==> self.collider_hits@[j].0 != h,
            decreases self.collider_hits@.len() - i,
        {
            let (k, v) = self.collider_hits[i];
            if k == h {
                let nv = v.saturating_add(1);
                let slot = &mut self.collider_hits[i];
                *slot = (k, nv);
                proof {
                    lemma_kv_hits_update(old(self).collider_hits@, self.collider_hits@, i as int, h, nv);
                }
                return nv;
            }
            i = i + 1;
        }
        self.collider_hits.push((h, 1));
        proof {
            lemma_kv_hits_push(old(self).collider_hits@, self.collider_hits@, h, 1);
        }
        1
    }

    /// Remember which caster owns a collider, replacing any earlier owner.
    pub fn set_collider_owner(&mut self, h: HandleBits, owner: u128)
        requires
            old(self).wf(),
        ensures
            final(self).wf(),
            spec_owner_of(final(self).collider_owners@, h) == Some(owner),
            forall|h2: HandleBits|
                h2 != h ==> spec_owner_of(final(self).collider_owners@, h2) == spec_owner_of(
                    old(self).collider_owners@,
                    h2,
                ),
            final(self).region == old(self).region,
            final(self).engine == old(self).engine,
            final(self).bodies_index == old(self).bodies_index,
            final(self).last_transforms == old(self).last_transforms,
            final(self).pending_damage == old(self).pending_damage,
            final(self).collider_hits == old(self).collider_hits,
    {
        let mut i: usize = 0;
        while i < self.collider_owners.len()
            invariant
                *self == *old(self),
                old(self).wf(),
                i <= self.collider_owners@.len(),
                forall|j: int| 0 <= j < i ==> self.collider_owners@[j].0 != h,
            decreases self.collider_owners@.len() - i,
        {
            let (k, _) = self.collider_owners[i];
            if k == h {
                let slot = &mut self.collider_owners[i];
                *slot = (h, owner);
                proof {
                    lemma_kv_owner_update(
                        old(self).collider_owners@,
                        self.collider_owners@,
                        i as int,
                        h,
                        owner,
                    );
                }
                return ;
            }
            i = i + 1;
        }
        self.collider_owners.push((h, owner));
        proof {
            lemma_kv_owner_push(old(self).collider_owners@, self.collider_owners@, h, owner);
        }
    }
}

/// Updating the value at the index that holds a key keeps all keys and
/// changes only that key's value (pending-damage map).
proof fn lemma_kv_u32_update(s0: Seq<(u32, u32)>, s1: Seq<(u32, u32)>, i: int, key: u32, nv: u32)
    requires
        0 <= i < s0.len(),
        s0[i].0 == key,
        forall|i2: int, j2: int| 0 <= i2 < j2 < s0.len() ==> s0[i2].0 != s0[j2].0,
        s1 == s0.update(i, (key, nv)),
    ensures
        forall|i2: int, j2: int| 0 <= i2 < j2 < s1.len() ==> s1[i2].0 != s1[j2].0,
        spec_pending_damage_of(s1, key) == nv,
        forall|e2: u32| e2 != key ==> spec_pending_damage_of(s1, e2) == spec_pending_damage_of(s0, e2),
{
    assert forall|e2: u32|
        e2 != key implies spec_pending_damage_of(s1, e2) == spec_pending_damage_of(s0, e2) by {
        if exists|j: int| 0 <= j < s0.len() && s0[j].0 == e2 {
            let j = choose|j: int| 0 <= j < s0.len() && s0[j].0 == e2;
            assert(s1[j].0 == e2);
            let c1 = choose|c: int| 0 <= c < s1.len() && s1[c].0 == e2;
            let c0 = choose|c: int| 0 <= c < s0.len() && s0[c].0 == e2;
            assert(s1[c1] == s0[c1]);
            assert(c1 == c0);
        } else {
            assert forall|j: int| 0 <= j < s1.len() implies s1[j].0 != e2 by {
                assert(s0[j].0 != e2);
            }
        }
    }
    let c = choose|c: int| 0 <= c < s1.len() && s1[c].0 == key;
    assert(s1[i].0 == key);
    assert(c == i);
}

/// Pushing a key that is absent keeps all keys unique, gives the new key
/// its value and leaves every other key's value alone (pending-damage map).
proof fn lemma_kv_u32_push(s0: Seq<(u32, u32)>, s1: Seq<(u32, u32)>, key: u32, v: u32)
    requires
        forall|j: int| 0 <= j < s0.len() ==> s0[j].0 != key,
        forall|i2: int, j2: int| 0 <= i2 < j2 < s0.len() ==> s0[i2].0 != s0[j2].0,
        s1 == s0.push((key, v)),
    ensures
        forall|i2: int, j2: int| 0 <= i2 < j2 < s1.len() ==> s1[i2].0 != s1[j2].0,
        spec_pending_damage_of(s0, key) == 0,
        spec_pending_damage_of(s1, key) == v,
        forall|e2: u32| e2 != key ==> spec_pending_damage_of(s1, e2) == spec_pending_damage_of(s0, e2),
{
    assert(s1[s1.len() - 1].0 == key);
    let c = choose|c: int| 0 <= c < s1.len() && s1[c].0 == key;
    assert(s1[c].0 == key);
    assert(c == s1.len() - 1);
    assert forall|e2: u32|
        e2 != key implies spec_pending_damage_of(s1, e2) == spec_pending_damage_of(s0, e2) by {
        if exists|j: int| 0 <= j < s0.len() && s0[j].0 == e2 {
            let j = choose|j: int| 0 <= j < s0.len() && s0[j].0 == e2;
            assert(s1[j].0 == e2);
            let c1 = choose|c1: int| 0 <= c1 < s1.len() && s1[c1].0 == e2;
            let c0 = choose|c0: int| 0 <= c0 < s0.len() && s0[c0].0 == e2;
            assert(s1[c1] == s0[c1]);
            assert(c1 == c0);
        } else {
            assert forall|j: int| 0 <= j < s1.len() implies s1[j].0 != e2 by {
                if j < s0.len() {
                    assert(s0[j].0 != e2);
                }
            }
        }
    }
}

/// Removing the index that holds a key erases that key and leaves every
/// other key's value alone (pending-damage map).
proof fn lemma_kv_u32_remove(s0: Seq<(u32, u32)>, s1: Seq<(u32, u32)>, i: int, key: u32)
    requires
        0 <= i < s0.len(),
        s0[i].0 == key,
        forall|i2: int, j2: int| 0 <= i2 < j2 < s0.len() ==> s0[i2].0 != s0[j2].0,
        s1 == s0.remove(i),
    ensures
        forall|i2: int, j2: int| 0 <= i2 < j2 < s1.len() ==> s1[i2].0 != s1[j2].0,
        spec_pending_damage_of(s0, key) == s0[i].1,
        spec_pending_damage_of(s1, key) == 0,
        forall|e2: u32| e2 != key ==> spec_pending_damage_of(s1, e2) == spec_pending_damage_of(s0, e2),
{
    let c0k = choose|c: int| 0 <= c < s0.len() && s0[c].0 == key;
    assert(c0k == i);
    assert forall|i2: int, j2: int| 0 <= i2 < j2 < s1.len() implies s1[i2].0 != s1[j2].0 by {
        let a = if i2 < i {
            i2
        } else {
            i2 + 1
        };
        let b = if j2 < i {
            j2
        } else {
            j2 + 1
        };
        assert(s1[i2] == s0[a] && s1[j2] == s0[b]);
    }
    assert forall|j: int| 0 <= j < s1.len() implies s1[j].0 != key by {
        if j < i {
            assert(s1[j] == s0[j]);
        } else {
            assert(s1[j] == s0[j + 1]);
        }
    }
    assert forall|e2: u32|
        e2 != key implies spec_pending_damage_of(s1, e2) == spec_pending_damage_of(s0, e2) by {
        if exists|j: int| 0 <= j < s0.len() && s0[j].0 == e2 {
            let j = choose|j: int| 0 <= j < s0.len() && s0[j].0 == e2;
            let j1 = if j < i {
                j
            } else {
                j - 1
            };
            assert(s1[j1] == s0[j]);
            let c1 = choose|c1: int| 0 <= c1 < s1.len() && s1[c1].0 == e2;
            let c0 = choose|c0: int| 0 <= c0 < s0.len() && s0[c0].0 == e2;
            assert(c0 == j);
            let back = if c1 < i {
                c1
            } else {
                c1 + 1
            };
            assert(s1[c1] == s0[back]);
            assert(back == j);
        } else {
            assert forall|j: int| 0 <= j < s1.len() implies s1[j].0 != e2 by {
                if j < i {
                    assert(s1[j] == s0[j]);
                } else {
                    assert(s1[j] == s0[j + 1]);
                }
            }
        }
    }
}

/// Updating the transform cache entry of a handle (same shape as the
/// pending-damage lemma).
proof fn lemma_kv_tf_update(
    s0: Seq<(HandleBits, TransformBits)>,
    s1: Seq<(HandleBits, TransformBits)>,
    i: int,
    key: HandleBits,
    nv: TransformBits,
)
    requires
        0 <= i < s0.len(),
        s0[i].0 == key,
        forall|i2: int, j2: int| 0 <= i2 < j2 < s0.len() ==> s0[i2].0 != s0[j2].0,
        s1 == s0.update(i, (key, nv)),
    ensures
        forall|i2: int, j2: int| 0 <= i2 < j2 < s1.len() ==> s1[i2].0 != s1[j2].0,
        spec_cached_transform(s1, key) == Some(nv),
        forall|h2: HandleBits|
            h2 != key ==> spec_cached_transform(s1, h2) == spec_cached_transform(s0, h2),
{
    assert forall|h2: HandleBits|
        h2 != key implies spec_cached_transform(s1, h2) == spec_cached_transform(s0, h2) by {
        if exists|j: int| 0 <= j < s0.len() && s0[j].0 == h2 {
            let j = choose|j: int| 0 <= j < s0.len() && s0[j].0 == h2;
            assert(s1[j].0 == h2);
            let c1 = choose|c: int| 0 <= c < s1.len() && s1[c].0 == h2;
            let c0 = choose|c: int| 0 <= c < s0.len() && s0[c].0 == h2;
            assert(s1[c1] == s0[c1]);
            assert(c1 == c0);
        } else {
            assert forall|j: int| 0 <= j < s1.len() implies s1[j].0 != h2 by {
                assert(s0[j].0 != h2);
            }
        }
    }
    let c = choose|c: int| 0 <= c < s1.len() && s1[c].0 == key;
    assert(s1[i].0 == key);
    assert(c == i);
}

/// Pushing a transform cache entry for an absent handle.
proof fn lemma_kv_tf_push(
    s0: Seq<(HandleBits, TransformBits)>,
    s1: Seq<(HandleBits, TransformBits)>,
    key: HandleBits,
    v: TransformBits,
)
    requires
        forall|j: int| 0 <= j < s0.len() ==> s0[j].0 != key,
        forall|i2: int, j2: int| 0 <= i2 < j2 < s0.len() ==> s0[i2].0 != s0[j2].0,
        s1 == s0.push((key, v)),
    ensures
        forall|i2: int, j2: int| 0 <= i2 < j2 < s1.len() ==> s1[i2].0 != s1[j2].0,
        spec_cached_transform(s1, key) == Some(v),
        forall|h2: HandleBits|
            h2 != key ==> spec_cached_transform(s1, h2) == spec_cached_transform(s0, h2),
{
    assert(s1[s1.len() - 1].0 == key);
    let c = choose|c: int| 0 <= c < s1.len() && s1[c].0 == key;
    assert(c == s1.len() - 1);
    assert forall|h2: HandleBits|
        h2 != key implies spec_cached_transform(s1, h2) == spec_cached_transform(s0, h2) by {
        if exists|j: int| 0 <= j < s0.len() && s0[j].0 == h2 {
            let j = choose|j: int| 0 <= j < s0.len() && s0[j].0 == h2;
            assert(s1[j].0 == h2);
            let c1 = choose|c1: int| 0 <= c1 < s1.len() && s1[c1].0 == h2;
            let c0 = choose|c0: int| 0 <= c0 < s0.len() && s0[c0].0 == h2;
            assert(s1[c1] == s0[c1]);
            assert(c1 == c0);
        } else {
            assert forall|j: int| 0 <= j < s1.len() implies s1[j].0 != h2 by {
                if j < s0.len() {
                    assert(s0[j].0 != h2);
                }
            }
        }
    }
}

/// Updating the hit counter of a handle (same shape as above).
proof fn lemma_kv_hits_update(
    s0: Seq<(HandleBits, u8)>,
    s1: Seq<(HandleBits, u8)>,
    i: int,
    key: HandleBits,
    nv: u8,
)
    requires
        0 <= i < s0.len(),
        s0[i].0 == key,
        forall|i2: int, j2: int| 0 <= i2 < j2 < s0.len() ==> s0[i2].0 != s0[j2].0,
        s1 == s0.update(i, (key, nv)),
    ensures
        forall|i2: int, j2: int| 0 <= i2 < j2 < s1.len() ==> s1[i2].0 != s1[j2].0,
        spec_hits_of(s0, key) == s0[i].1,
        spec_hits_of(s1, key) == nv,
        forall|h2: HandleBits| h2 != key ==> spec_hits_of(s1, h2) == spec_hits_of(s0, h2),
{
    assert forall|h2: HandleBits|
        h2 != key implies spec_hits_of(s1, h2) == spec_hits_of(s0, h2) by {
        if exists|j: int| 0 <= j < s0.len() && s0[j].0 == h2 {
            let j = choose|j: int| 0 <= j < s0.len() && s0[j].0 == h2;
            assert(s1[j].0 == h2);
            let c1 = choose|c: int| 0 <= c < s1.len() && s1[c].0 == h2;
            let c0 = choose|c: int| 0 <= c < s0.len() && s0[c].0 == h2;
            assert(s1[c1] == s0[c1]);
            assert(c1 == c0);
        } else {
            assert forall|j: int| 0 <= j < s1.len() implies s1[j].0 != h2 by {
                assert(s0[j].0 != h2);
            }
        }
    }
    let c = choose|c: int| 0 <= c < s1.len() && s1[c].0 == key;
    assert(s1[i].0 == key);
    assert(c == i);
    let c0 = choose|c: int| 0 <= c < s0.len() && s0[c].0 == key;
    assert(c0 == i);
}

/// Pushing a hit-counter entry for an absent handle.
proof fn lemma_kv_hits_push(
    s0: Seq<(HandleBits, u8)>,
    s1: Seq<(HandleBits, u8)>,
    key: HandleBits,
    v: u8,
)
    requires
        forall|j: int| 0 <= j < s0.len() ==> s0[j].0 != key,
        forall|i2: int, j2: int| 0 <= i2 < j2 < s0.len() ==> s0[i2].0 != s0[j2].0,
        s1 == s0.push((key, v)),
    ensures
        forall|i2: int, j2: int| 0 <= i2 < j2 < s1.len() ==> s1[i2].0 != s1[j2].0,
        spec_hits_of(s0, key) == 0,
        spec_hits_of(s1, key) == v,
        forall|h2: HandleBits| h2 != key ==> spec_hits_of(s1, h2) == spec_hits_of(s0, h2),
{
    assert(s1[s1.len() - 1].0 == key);
    let c = choose|c: int| 0 <= c < s1.len() && s1[c].0 == key;
    assert(c == s1.len() - 1);
    assert forall|h2: HandleBits|
        h2 != key implies spec_hits_of(s1, h2) == spec_hits_of(s0, h2) by {
        if exists|j: int| 0 <= j < s0.len() && s0[j].0 == h2 {
            let j = choose|j: int| 0 <= j < s0.len() && s0[j].0 == h2;
            assert(s1[j].0 == h2);
            let c1 = choose|c1: int| 0 <= c1 < s1.len() && s1[c1].0 == h2;
            let c0 = choose|c0: int| 0 <= c0 < s0.len() && s0[c0].0 == h2;
            assert(s1[c1] == s0[c1]);
            assert(c1 == c0);
        } else {
            assert forall|j: int| 0 <= j < s1.len() implies s1[j].0 != h2 by {
                if j < s0.len() {
                    assert(s0[j].0 != h2);
                }
            }
        }
    }
}

/// Updating the owner entry of a handle (same shape as above).
proof fn lemma_kv_owner_update(
    s0: Seq<(HandleBits, u128)>,
    s1: Seq<(HandleBits, u128)>,
    i: int,
    key: HandleBits,
    nv: u128,
)
    requires
        0 <= i < s0.len(),
        s0[i].0 == key,
        forall|i2: int, j2: int| 0 <= i2 < j2 < s0.len() ==> s0[i2].0 != s0[j2].0,
        s1 == s0.update(i, (key, nv)),
    ensures
        forall|i2: int, j2: int| 0 <= i2 < j2 < s1.len() ==> s1[i2].0 != s1[j2].0,
        spec_owner_of(s1, key) == Some(nv),
        forall|h2: HandleBits| h2 != key ==> spec_owner_of(s1, h2) == spec_owner_of(s0, h2),
{
    assert forall|h2: HandleBits|
        h2 != key implies spec_owner_of(s1, h2) == spec_owner_of(s0, h2) by {
        if exists|j: int| 0 <= j < s0.len() && s0[j].0 == h2 {
            let j = choose|j: int| 0 <= j < s0.len() && s0[j].0 == h2;
            assert(s1[j].0 == h2);
            let c1 = choose|c: int| 0 <= c < s1.len() && s1[c].0 == h2;
            let c0 = choose|c: int| 0 <= c < s0.len() && s0[c].0 == h2;
            assert(s1[c1] == s0[c1]);
            assert(c1 == c0);
        } else {
            assert forall|j: int| 0 <= j < s1.len() implies s1[j].0 != h2 by {
                assert(s0[j].0 != h2);
            }
        }
    }
    let c = choose|c: int| 0 <= c < s1.len() && s1[c].0 == key;
    assert(s1[i].0 == key);
    assert(c == i);
}

/// Pushing an owner entry for an absent handle.
proof fn lemma_kv_owner_push(
    s0: Seq<(HandleBits, u128)>,
    s1: Seq<(HandleBits, u128)>,
    key: HandleBits,
    v: u128,
)
    requires
        forall|j: int| 0 <= j < s0.len() ==> s0[j].0 != key,
        forall|i2: int, j2: int| 0 <= i2 < j2 < s0.len() ==> s0[i2].0 != s0[j2].0,
        s1 == s0.push((key, v)),
    ensures
        forall|i2: int, j2: int| 0 <= i2 < j2 < s1.len() ==> s1[i2].0 != s1[j2].0,
        spec_owner_of(s1, key) == Some(v),
        forall|h2: HandleBits| h2 != key ==> spec_owner_of(s1, h2) == spec_owner_of(s0, h2),
{
    assert(s1[s1.len() - 1].0 == key);
    let c = choose|c: int| 0 <= c < s1.len() && s1[c].0 == key;
    assert(c == s1.len() - 1);
    assert forall|h2: HandleBits|
        h2 != key implies spec_owner_of(s1, h2) == spec_owner_of(s0, h2) by {
        if exists|j: int| 0 <= j < s0.len() && s0[j].0 == h2 {
            let j = choose|j: int| 0 <= j < s0.len() && s0[j].0 == h2;
            assert(s1[j].0 == h2);
            let c1 = choose|c1: int| 0 <= c1 < s1.len() && s1[c1].0 == h2;
            let c0 = choose|c0: int| 0 <= c0 < s0.len() && s0[c0].0 == h2;
            assert(s1[c1] == s0[c1]);
            assert(c1 == c0);
        } else {
            assert forall|j: int| 0 <= j < s1.len() implies s1[j].0 != h2 by {
                if j < s0.len() {
                    assert(s0[j].0 != h2);
                }
            }
        }
    }
}

/// The registry of all region worlds.
pub struct WorldRegistry {
    pub worlds: Vec<PhysicsWorld>,
}

impl WorldRegistry {
    /// Regions are unique and every world is well-formed and tagged with
    /// its own region.
    pub open spec fn wf(self) -> bool {
        (forall|i: int, j: int|
            0 <= i < j < self.worlds@.len() ==> self.worlds@[i].region != self.worlds@[j].region)
            && (forall|i: int| 0 <= i < self.worlds@.len() ==> (#[trigger] self.worlds@[i]).wf())
    }

    /// A region world exists.
    pub open spec fn spec_has_region(self, region: u32) -> bool {
        exists|i: int| 0 <= i < self.worlds@.len() && self.worlds@[i].region == region
    }

    /// An empty registry.
    pub fn new() -> (r: WorldRegistry)
        ensures
            r.wf(),
            r.worlds@.len() == 0,
    {
        WorldRegistry { worlds: Vec::new() }
    }

    /// Index of the world of a region, if one exists.
    pub fn world_index(&self, region: u32) -> (r: Option<usize>)
        ensures
            match r {
                Some(i) => i < self.worlds@.len() && self.worlds@[i as int].region == region,
                None => !self.spec_has_region(region),
            },
    {
        let mut i: usize = 0;
        while i < self.worlds.len()
            invariant
                i <= self.worlds@.len(),
                forall|j: int| 0 <= j < i ==> self.worlds@[j].region != region,
            decreases self.worlds@.len() - i,
        {
            if self.worlds[i].region == region {
                return Some(i);
            }
            i = i + 1;
        }
        None
    }

    /// Idempotent lazy initialization: the index of the region's world,
    /// creating a fresh empty world for it on first reference.
    pub fn get_or_create_world(&mut self, region: u32) -> (i: usize)
        requires
            old(self).wf(),
        ensures
            final(self).wf(),
            i < final(self).worlds@.len(),
            final(self).worlds@[i as int].region == region,
            old(self).spec_has_region(region) ==> *final(self) == *old(self),
            !old(self).spec_has_region(region) ==> final(self).worlds@.len() == old(
                self,
            ).worlds@.len() + 1 && (forall|j: int|
                0 <= j < old(self).worlds@.len() ==> final(self).worlds@[j] == old(self).worlds@[j])
                && final(self).worlds@[i as int].bodies_index@.len() == 0 && final(self).worlds@[
                i as int
            ].last_transforms@.len() == 0 && final(self).worlds@[i as int].pending_damage@.len()
                == 0 && final(self).worlds@[i as int].collider_hits@.len() == 0,
    {
        match self.world_index(region) {
            Some(i) => i,
            None => {
                let w = PhysicsWorld::new(region);
                self.worlds.push(w);
                self.worlds.len() - 1
            },
        }
    }
}

} // verus!
