//! Contact lifecycle tracker: normalizes the engine's raw touch
//! started/stopped reports into domain events (Start once, Continue every
//! subsequent tick while touching, End once), keyed by the two entity
//! identities plus an object-function tag, and keeps the table of active
//! contacts with their sustained-tick counters.

use vstd::prelude::*;
use crate::engine::HandleBits;

verus! {

/// The canonical key of one logical contact: the sensor side is the
/// source, the solid side the target, so lookups are order-independent
/// however the engine reports the pair.
#[derive(Clone, Copy, Debug, PartialEq, Eq, Structural)]
pub struct ContactKey {
    pub source_handle: HandleBits,
    pub target_handle: HandleBits,
    pub source_id: u32,
    pub target_id: u32,
    pub object_function: u8,
}

/// The state of one active contact: how many ticks it has persisted and
/// the aura buff it applied, if any, so that exactly that buff instance
/// can be revoked when the contact ends.
#[derive(Clone, Copy, Debug)]
pub struct ContactEntry {
    pub key: ContactKey,
    pub tick_count: u8,
    pub buff_id: Option<u64>,
}

/// One raw engine event after both colliders were resolved: which side
/// is the sensor (the source), the entity ids behind both sides, and the
/// source's object-function tag.
#[derive(Clone, Copy, Debug)]
pub struct ResolvedContact {
    pub started: bool,
    pub source_handle: HandleBits,
    pub target_handle: HandleBits,
    pub source_id: u32,
    pub target_id: u32,
    pub object_function: u8,
}

/// A domain contact event handed to the tick's handlers.
#[derive(Clone, Copy, Debug)]
pub enum PhysicsContact {
    /// The pair began touching this tick.
    Start {
        source_handle: HandleBits,
        target_handle: HandleBits,
        source_id: u32,
        target_id: u32,
        object_function: u8,
    },
    /// The pair is still touching: fired once per tick after the Start
    /// tick, with the sustained-tick counter.
    Continue {
        source_handle: HandleBits,
        target_handle: HandleBits,
        source_id: u32,
        target_id: u32,
        object_function: u8,
        tick_count: u8,
    },
    /// The pair separated this tick; carries the buff recorded on the
    /// contact, so the handler can revoke exactly that instance.
    End {
        source_handle: HandleBits,
        target_handle: HandleBits,
        source_id: u32,
        target_id: u32,
        object_function: u8,
        buff_id: Option<u64>,
    },
}

/// The contact key named by a resolved raw event.
pub open spec fn spec_key_of(r: ResolvedContact) -> ContactKey {
    ContactKey {
        source_handle: r.source_handle,
        target_handle: r.target_handle,
        source_id: r.source_id,
        target_id: r.target_id,
        object_function: r.object_function,
    }
}

/// The domain Start event of a resolved raw start.
pub open spec fn spec_start_event(r: ResolvedContact) -> PhysicsContact {
    PhysicsContact::Start {
        source_handle: r.source_handle,
        target_handle: r.target_handle,
        source_id: r.source_id,
        target_id: r.target_id,
        object_function: r.object_function,
    }
}

/// The domain End event of a removed active contact.
pub open spec fn spec_end_event(e: ContactEntry) -> PhysicsContact {
    PhysicsContact::End {
        source_handle: e.key.source_handle,
        target_handle: e.key.target_handle,
        source_id: e.key.source_id,
        target_id: e.key.target_id,
        object_function: e.key.object_function,
        buff_id: e.buff_id,
    }
}

/// A fresh active contact for a key, with a zero tick counter and no
/// recorded buff.
pub open spec fn spec_fresh_entry(k: ContactKey) -> ContactEntry {
    ContactEntry { key: k, tick_count: 0, buff_id: None }
}

/// An entry matches a raw stop when its identities and object-function
/// tag agree, whatever its handles: there may be several logical
/// contacts per physical pair.
pub open spec fn spec_matches_pair(e: ContactEntry, sid: u32, tid: u32, func: u8) -> bool {
    e.key.source_id == sid && e.key.target_id == tid && e.key.object_function == func
}

/// The predicate selecting the entries a raw stop removes.
pub open spec fn spec_pair_pred(sid: u32, tid: u32, func: u8) -> spec_fn(ContactEntry) -> bool {
    |e: ContactEntry| spec_matches_pair(e, sid, tid, func)
}

/// The predicate selecting the entries a raw stop keeps.
pub open spec fn spec_keep_pred(sid: u32, tid: u32, func: u8) -> spec_fn(ContactEntry) -> bool {
    |e: ContactEntry| !spec_matches_pair(e, sid, tid, func)
}

/// The table holds an entry under the given key.
pub open spec fn spec_has_key(s: Seq<ContactEntry>, k: ContactKey) -> bool {
    exists|i: int| 0 <= i < s.len() && s[i].key == k
}

/// An entry after one sustained tick: the counter goes up by one,
/// saturating.
pub open spec fn spec_bump(e: ContactEntry) -> ContactEntry {
    ContactEntry {
        tick_count: if e.tick_count + 1 <= u8::MAX {
            (e.tick_count + 1) as u8
        } else {
            u8::MAX
        },
        ..e
    }
}

/// The Continue event emitted for a surviving entry, carrying its bumped
/// counter.
pub open spec fn spec_continue_event(e: ContactEntry) -> PhysicsContact {
    PhysicsContact::Continue {
        source_handle: e.key.source_handle,
        target_handle: e.key.target_handle,
        source_id: e.key.source_id,
        target_id: e.key.target_id,
        object_function: e.key.object_function,
        tick_count: spec_bump(e).tick_count,
    }
}

/// The state threaded through the raw-event phase: the domain events
/// emitted so far, the table of active contacts, and the keys whose
/// contacts were started this tick.
pub struct TrackPhase {
    pub events: Seq<PhysicsContact>,
    pub entries: Seq<ContactEntry>,
    pub started: Seq<ContactKey>,
}

/// One raw event applied to the phase state. A start always re-emits a
/// domain Start and inserts a fresh entry if the key is absent; a stop
/// removes every entry matching the pair and emits one domain End per
/// removed entry, in table order.
pub open spec fn spec_phase1_step(st: TrackPhase, r: ResolvedContact) -> TrackPhase {
    if r.started {
        TrackPhase {
            events: st.events.push(spec_start_event(r)),
            entries: if spec_has_key(st.entries, spec_key_of(r)) {
                st.entries
            } else {
                st.entries.push(spec_fresh_entry(spec_key_of(r)))
            },
            started: st.started.push(spec_key_of(r)),
        }
    } else {
        TrackPhase {
            events: st.events + st.entries.filter(
                spec_pair_pred(r.source_id, r.target_id, r.object_function),
            ).map_values(|e: ContactEntry| spec_end_event(e)),
            entries: st.entries.filter(
                spec_keep_pred(r.source_id, r.target_id, r.object_function),
            ),
            started: st.started,
        }
    }
}

/// The raw-event phase over a whole list of raw events, in emission
/// order.
pub open spec fn spec_phase1(entries0: Seq<ContactEntry>, raw: Seq<ResolvedContact>) -> TrackPhase
    decreases raw.len(),
{
    if raw.len() == 0 {
        TrackPhase { events: Seq::empty(), entries: entries0, started: Seq::empty() }
    } else {
        spec_phase1_step(spec_phase1(entries0, raw.drop_last()), raw.last())
    }
}

/// The per-tick phase: every still-active contact not just created this
/// tick has its counter bumped and emits a Continue event, in table
/// order; entries created this tick stay as they are.
pub open spec fn spec_phase3(entries: Seq<ContactEntry>, started: Seq<ContactKey>) -> (
    Seq<PhysicsContact>,
    Seq<ContactEntry>,
)
    decreases entries.len(),
{
    if entries.len() == 0 {
        (Seq::empty(), entries)
    } else {
        let rest = spec_phase3(entries.drop_last(), started);
        let e = entries.last();
        if started.contains(e.key) {
            (rest.0, rest.1.push(e))
        } else {
            (rest.0.push(spec_continue_event(e)), rest.1.push(spec_bump(e)))
        }
    }
}

/// One tick of the tracker on a list of resolved raw events: the raw
/// phase, then the per-tick phase; the domain events are the raw phase's
/// followed by the Continue events.
pub open spec fn spec_process(entries0: Seq<ContactEntry>, raw: Seq<ResolvedContact>) -> (
    Seq<PhysicsContact>,
    Seq<ContactEntry>,
) {
    let p1 = spec_phase1(entries0, raw);
    let p3 = spec_phase3(p1.entries, p1.started);
    (p1.events + p3.0, p3.1)
}

/// The table of active contacts.
pub struct ContactTracker {
    pub entries: Vec<ContactEntry>,
}

impl ContactTracker {
    /// Keys are unique: one entry per logical contact.
    pub open spec fn wf(self) -> bool {
        forall|i: int, j: int|
            0 <= i < j < self.entries@.len() ==> self.entries@[i].key != self.entries@[j].key
    }

    /// An empty table.
    pub fn new() -> (r: ContactTracker)
        ensures
            r.wf(),
            r.entries@.len() == 0,
    {
        ContactTracker { entries: Vec::new() }
    }

    /// Index of the entry under a key, if present.
    pub fn entry_index(&self, k: ContactKey) -> (r: Option<usize>)
        ensures
            match r {
                Some(i) => i < self.entries@.len() && self.entries@[i as int].key == k,
                None => !spec_has_key(self.entries@, k),
            },
    {
        let mut i: usize = 0;
        while i < self.entries.len()
            invariant
                i <= self.entries@.len(),
                forall|j: int| 0 <= j < i ==> self.entries@[j].key != k,
            decreases self.entries@.len() - i,
        {
            if self.entries[i].key == k {
                return Some(i);
            }
            i = i + 1;
        }
        None
    }

    /// Remove every entry matching the stopped pair, keeping the others
    /// in order, and return the removed entries in table order.
    fn split_by_pair(&mut self, sid: u32, tid: u32, func: u8) -> (removed: Vec<ContactEntry>)
        requires
            old(self).wf(),
        ensures
            final(self).wf(),
            final(self).entries@ == old(self).entries@.filter(spec_keep_pred(sid, tid, func)),
            removed@ == old(self).entries@.filter(spec_pair_pred(sid, tid, func)),
    {
        let ghost s0 = self.entries@;
        let mut kept: Vec<ContactEntry> = Vec::new();
        let mut removed: Vec<ContactEntry> = Vec::new();
        let mut i: usize = 0;
        while i < self.entries.len()
            invariant
                *self == *old(self),
                old(self).wf(),
                s0 == self.entries@,
                i <= s0.len(),
                kept@ == s0.take(i as int).filter(spec_keep_pred(sid, tid, func)),
                removed@ == s0.take(i as int).filter(spec_pair_pred(sid, tid, func)),
            decreases s0.len() - i,
        {
            let e = self.entries[i];
            proof {
                reveal_with_fuel(Seq::filter, 2);
                let t1 = s0.take(i as int + 1);
                assert(t1.drop_last() =~= s0.take(i as int));
                assert(t1.last() == e);
                if spec_matches_pair(e, sid, tid, func) {
                    assert(t1.filter(spec_pair_pred(sid, tid, func)) == s0.take(i as int).filter(
                        spec_pair_pred(sid, tid, func),
                    ).push(e));
                    assert(t1.filter(spec_keep_pred(sid, tid, func)) == s0.take(i as int).filter(
                        spec_keep_pred(sid, tid, func),
                    ));
                } else {
                    assert(t1.filter(spec_keep_pred(sid, tid, func)) == s0.take(i as int).filter(
                        spec_keep_pred(sid, tid, func),
                    ).push(e));
                    assert(t1.filter(spec_pair_pred(sid, tid, func)) == s0.take(i as int).filter(
                        spec_pair_pred(sid, tid, func),
                    ));
                }
            }
            if e.key.source_id == sid && e.key.target_id == tid && e.key.object_function == func {
                removed.push(e);
                proof {
                    assert(spec_pair_pred(sid, tid, func)(e));
                    assert(!spec_keep_pred(sid, tid, func)(e));
                }
            } else {
                kept.push(e);
                proof {
                    assert(!spec_pair_pred(sid, tid, func)(e));
                    assert(spec_keep_pred(sid, tid, func)(e));
                }
            }
            i = i + 1;
        }
        proof {
            assert(s0.take(s0.len() as int) =~= s0);
            lemma_filter_keeps_unique_keys(s0, spec_keep_pred(sid, tid, func));
        }
        self.entries = kept;
        removed
    }
}

/// The sustained-tick phase keeps every entry's key in place.
proof fn lemma_phase3_keys(entries: Seq<ContactEntry>, started: Seq<ContactKey>)
    ensures
        spec_phase3(entries, started).1.len() == entries.len(),
        forall|k: int|
            0 <= k < entries.len() ==> spec_phase3(entries, started).1[k].key == entries[k].key,
    decreases entries.len(),
{
    if entries.len() > 0 {
        lemma_phase3_keys(entries.drop_last(), started);
        let rest = spec_phase3(entries.drop_last(), started);
        let e = entries.last();
        let whole = spec_phase3(entries, started);
        assert(started.contains(e.key) ==> whole.1 == rest.1.push(e));
        assert(!started.contains(e.key) ==> whole.1 == rest.1.push(spec_bump(e)));
        assert forall|k: int|
            0 <= k < entries.len() implies whole.1[k].key == entries[k].key by {
            if k < entries.len() - 1 {
                assert(whole.1[k] == rest.1[k]);
                assert(entries.drop_last()[k] == entries[k]);
            } else {
                assert(whole.1[k].key == e.key);
            }
        }
    }
}

impl ContactTracker {
    /// Process one tick's resolved raw events into Start, End and
    /// per-tick Continue events: exactly the tracker transition
    /// [`spec_process`], which re-emits a Start for every raw start,
    /// inserts fresh entries for unseen keys, removes matching entries
    /// with one End per removal, and then bumps and reports every
    /// surviving contact that was not just created this tick.
    pub fn process_contacts(&mut self, raw: &Vec<ResolvedContact>) -> (events: Vec<PhysicsContact>)
        requires
            old(self).wf(),
        ensures
            final(self).wf(),
            events@ == spec_process(old(self).entries@, raw@).0,
            final(self).entries@ == spec_process(old(self).entries@, raw@).1,
    {
        let ghost entries0 = self.entries@;
        let mut events: Vec<PhysicsContact> = Vec::new();
        let mut started: Vec<ContactKey> = Vec::new();
        let mut i: usize = 0;
        while i < raw.len()
            invariant
                self.wf(),
                i <= raw@.len(),
                events@ == spec_phase1(entries0, raw@.take(i as int)).events,
                self.entries@ == spec_phase1(entries0, raw@.take(i as int)).entries,
                started@ == spec_phase1(entries0, raw@.take(i as int)).started,
            decreases raw@.len() - i,
        {
            let r = raw[i];
            proof {
                assert(raw@.take(i as int + 1).drop_last() =~= raw@.take(i as int));
                assert(raw@.take(i as int + 1).last() == r);
            }
            if r.started {
                let k = ContactKey {
                    source_handle: r.source_handle,
                    target_handle: r.target_handle,
                    source_id: r.source_id,
                    target_id: r.target_id,
                    object_function: r.object_function,
                };
                proof {
                    assert(k == spec_key_of(r));
                }
                events.push(
                    PhysicsContact::Start {
                        source_handle: r.source_handle,
                        target_handle: r.target_handle,
                        source_id: r.source_id,
                        target_id: r.target_id,
                        object_function: r.object_function,
                    },
                );
                match self.entry_index(k) {
                    Some(_) => {
                        proof {
                            assert(spec_has_key(self.entries@, k));
                        }
                    },
                    None => {
                        let ghost before = self.entries@;
                        self.entries.push(ContactEntry { key: k, tick_count: 0, buff_id: None });
                        proof {
                            assert forall|a: int, b: int|
                                0 <= a < b < self.entries@.len() implies self.entries@[a].key
                                != self.entries@[b].key by {
                                if b < self.entries@.len() - 1 {
                                    assert(self.entries@[a] == before[a]);
                                    assert(self.entries@[b] == before[b]);
                                } else {
                                    assert(self.entries@[a] == before[a]);
                                    assert(!spec_has_key(before, k));
                                }
                            }
                        }
                    },
                }
                started.push(k);
            } else {
                let ghost ev1 = events@;
                let removed = self.split_by_pair(r.source_id, r.target_id, r.object_function);
                let mut j: usize = 0;
                while j < removed.len()
                    invariant
                        j <= removed@.len(),
                        events@ == ev1 + removed@.take(j as int).map_values(
                            |e: ContactEntry| spec_end_event(e),
                        ),
                    decreases removed@.len() - j,
                {
                    let e = removed[j];
                    events.push(
                        PhysicsContact::End {
                            source_handle: e.key.source_handle,
                            target_handle: e.key.target_handle,
                            source_id: e.key.source_id,
                            target_id: e.key.target_id,
                            object_function: e.key.object_function,
                            buff_id: e.buff_id,
                        },
                    );
                    proof {
                        assert(events@ =~= ev1 + removed@.take(j as int + 1).map_values(
                            |e: ContactEntry| spec_end_event(e),
                        ));
                    }
                    j = j + 1;
                }
                proof {
                    assert(removed@.take(removed@.len() as int) =~= removed@);
                    assert(events@ == ev1 + removed@.map_values(
                        |e: ContactEntry| spec_end_event(e),
                    ));
                }
            }
            i = i + 1;
        }
        proof {
            assert(raw@.take(raw@.len() as int) =~= raw@);
        }
        let ghost p1entries = self.entries@;
        let ghost started_keys = started@;
        let ghost ev_p1 = events@;
        let mut new_entries: Vec<ContactEntry> = Vec::new();
        let mut j: usize = 0;
        while j < self.entries.len()
            invariant
                self.wf(),
                p1entries == self.entries@,
                started_keys == started@,
                j <= p1entries.len(),
                events@ == ev_p1 + spec_phase3(p1entries.take(j as int), started_keys).0,
                new_entries@ == spec_phase3(p1entries.take(j as int), started_keys).1,
            decreases p1entries.len() - j,
        {
            let e = self.entries[j];
            proof {
                assert(p1entries.take(j as int + 1).drop_last() =~= p1entries.take(j as int));
                assert(p1entries.take(j as int + 1).last() == e);
            }
            if key_in(&started, e.key) {
                new_entries.push(e);
            } else {
                let nt = e.tick_count.saturating_add(1);
                let ne = ContactEntry { key: e.key, tick_count: nt, buff_id: e.buff_id };
                proof {
                    assert(ne == spec_bump(e));
                }
                events.push(
                    PhysicsContact::Continue {
                        source_handle: e.key.source_handle,
                        target_handle: e.key.target_handle,
                        source_id: e.key.source_id,
                        target_id: e.key.target_id,
                        object_function: e.key.object_function,
                        tick_count: nt,
                    },
                );
                new_entries.push(ne);
            }
            j = j + 1;
        }
        proof {
            assert(p1entries.take(p1entries.len() as int) =~= p1entries);
            lemma_phase3_keys(p1entries, started_keys);
            assert forall|a: int, b: int|
                0 <= a < b < new_entries@.len() implies new_entries@[a].key != new_entries@[
                b
            ].key by {
                assert(new_entries@[a].key == p1entries[a].key);
                assert(new_entries@[b].key == p1entries[b].key);
            }
        }
        self.entries = new_entries;
        events
    }

    /// Record the buff applied for the contact under a key, so that the
    /// contact's End can revoke exactly that instance.
    pub fn set_buff_id(&mut self, k: ContactKey, buff_id: u64)
        requires
            old(self).wf(),
        ensures
            final(self).wf(),
            spec_has_key(old(self).entries@, k) ==> exists|i: int|
                0 <= i < old(self).entries@.len() && old(self).entries@[i].key == k
                    && final(self).entries@ == old(self).entries@.update(
                    i,
                    (ContactEntry { buff_id: Some(buff_id), ..old(self).entries@[i] }),
                ),
            !spec_has_key(old(self).entries@, k) ==> final(self).entries@ == old(self).entries@,
    {
        match self.entry_index(k) {
            Some(i) => {
                let e = self.entries[i];
                let slot = &mut self.entries[i];
                *slot = ContactEntry { key: e.key, tick_count: e.tick_count, buff_id: Some(buff_id) };
                proof {
                    assert forall|a: int, b: int|
                        0 <= a < b < self.entries@.len() implies self.entries@[a].key
                        != self.entries@[b].key by {
                        assert(self.entries@[a].key == old(self).entries@[a].key);
                        assert(self.entries@[b].key == old(self).entries@[b].key);
                    }
                }
            },
            None => {},
        }
    }

    /// Evict every active contact whose source collider is the given
    /// handle, forcing re-acquisition once a collider's hit counter
    /// reaches its cap.
    pub fn evict_source_handle(&mut self, h: HandleBits)
        requires
            old(self).wf(),
        ensures
            final(self).wf(),
            forall|i: int|
                0 <= i < final(self).entries@.len() ==> (#[trigger] final(self).entries@[
                    i
                ]).key.source_handle != h,
            forall|i: int|
                0 <= i < final(self).entries@.len() ==> old(self).entries@.contains(
                    #[trigger] final(self).entries@[i],
                ),
            forall|j: int|
                0 <= j < old(self).entries@.len() && (#[trigger] old(self).entries@[
                    j
                ]).key.source_handle != h ==> final(self).entries@.contains(old(self).entries@[j]),
    {
        let ghost s0 = self.entries@;
        let mut kept: Vec<ContactEntry> = Vec::new();
        let mut i: usize = 0;
        while i < self.entries.len()
            invariant
                *self == *old(self),
                old(self).wf(),
                s0 == self.entries@,
                i <= s0.len(),
                forall|k: int|
                    0 <= k < kept@.len() ==> (#[trigger] kept@[k]).key.source_handle != h,
                forall|k: int|
                    0 <= k < kept@.len() ==> exists|j: int| 0 <= j < i && s0[j] == #[trigger] kept@[k],
                forall|k1: int, k2: int|
                    0 <= k1 < k2 < kept@.len() ==> kept@[k1].key != kept@[k2].key,
                forall|j: int|
                    0 <= j < i && (#[trigger] s0[j]).key.source_handle != h ==> kept@.contains(
                        s0[j],
                    ),
            decreases s0.len() - i,
        {
            let e = self.entries[i];
            let ghost kept0 = kept@;
            if e.key.source_handle.index != h.index || e.key.source_handle.generation
                != h.generation {
                proof {
                    assert forall|k: int| 0 <= k < kept0.len() implies kept0[k].key != e.key by {
                        let j = choose|j: int| 0 <= j < i && s0[j] == kept0[k];
                        assert(s0[j].key != s0[i as int].key);
                    }
                }
                kept.push(e);
                proof {
                    assert forall|j: int|
                        0 <= j < i + 1 && (#[trigger] s0[j]).key.source_handle != h implies kept@.contains(
                        s0[j],
                    ) by {
                        if j < i {
                            let m = choose|m: int| 0 <= m < kept0.len() && kept0[m] == s0[j];
                            assert(kept@[m] == s0[j]);
                        } else {
                            assert(kept@[kept@.len() - 1] == s0[j]);
                        }
                    }
                }
            }
            i = i + 1;
        }
        proof {
            assert forall|k: int|
                0 <= k < kept@.len() implies s0.contains(#[trigger] kept@[k]) by {
                let j = choose|j: int| 0 <= j < s0.len() && s0[j] == kept@[k];
            }
        }
        self.entries = kept;
    }

    /// Purge every active contact referencing an entity on either side,
    /// so a later reuse of the id cannot resurrect a stale contact.
    pub fn purge_entity(&mut self, entity: u32)
        requires
            old(self).wf(),
        ensures
            final(self).wf(),
            forall|i: int|
                0 <= i < final(self).entries@.len() ==> (#[trigger] final(self).entries@[
                    i
                ]).key.source_id != entity && final(self).entries@[i].key.target_id != entity,
            forall|i: int|
                0 <= i < final(self).entries@.len() ==> old(self).entries@.contains(
                    #[trigger] final(self).entries@[i],
                ),
            forall|j: int|
                0 <= j < old(self).entries@.len() && (#[trigger] old(self).entries@[
                    j
                ]).key.source_id != entity && old(self).entries@[j].key.target_id != entity
                    ==> final(self).entries@.contains(old(self).entries@[j]),
            (forall|j: int|
                0 <= j < old(self).entries@.len() ==> (#[trigger] old(self).entries@[
                    j
                ]).key.source_id != entity && old(self).entries@[j].key.target_id != entity)
                ==> final(self).entries@ == old(self).entries@,
    {
        let ghost s0 = self.entries@;
        let mut kept: Vec<ContactEntry> = Vec::new();
        let mut i: usize = 0;
        while i < self.entries.len()
            invariant
                *self == *old(self),
                old(self).wf(),
                s0 == self.entries@,
                i <= s0.len(),
                forall|k: int|
                    0 <= k < kept@.len() ==> (#[trigger] kept@[k]).key.source_id != entity && kept@[
                        k
                    ].key.target_id != entity,
                forall|k: int|
                    0 <= k < kept@.len() ==> exists|j: int| 0 <= j < i && s0[j] == #[trigger] kept@[k],
                forall|k1: int, k2: int|
                    0 <= k1 < k2 < kept@.len() ==> kept@[k1].key != kept@[k2].key,
                forall|j: int|
                    0 <= j < i && (#[trigger] s0[j]).key.source_id != entity && s0[j].key.target_id
                        != entity ==> kept@.contains(s0[j]),
                (forall|j: int|
                    0 <= j < i ==> (#[trigger] s0[j]).key.source_id != entity && s0[
                        j
                    ].key.target_id != entity) ==> kept@ == s0.take(i as int),
            decreases s0.len() - i,
        {
            let e = self.entries[i];
            let ghost kept0 = kept@;
            if e.key.source_id != entity && e.key.target_id != entity {
                proof {
                    assert forall|k: int| 0 <= k < kept0.len() implies kept0[k].key != e.key by {
                        let j = choose|j: int| 0 <= j < i && s0[j] == kept0[k];
                        assert(s0[j].key != s0[i as int].key);
                    }
                }
                kept.push(e);
                proof {
                    if forall|j: int|
                        0 <= j < i + 1 ==> (#[trigger] s0[j]).key.source_id != entity && s0[
                            j
                        ].key.target_id != entity {
                        assert(kept0 == s0.take(i as int));
                        assert(kept@ =~= s0.take(i as int + 1));
                    }
                    assert forall|j: int|
                        0 <= j < i + 1 && (#[trigger] s0[j]).key.source_id != entity && s0[
                        j
                    ].key.target_id != entity implies kept@.contains(s0[j]) by {
                        if j < i {
                            let m = choose|m: int| 0 <= m < kept0.len() && kept0[m] == s0[j];
                            assert(kept@[m] == s0[j]);
                        } else {
                            assert(kept@[kept@.len() - 1] == s0[j]);
                        }
                    }
                }
            }
            i = i + 1;
        }
        proof {
            assert forall|k: int|
                0 <= k < kept@.len() implies s0.contains(#[trigger] kept@[k]) by {
                let j = choose|j: int| 0 <= j < s0.len() && s0[j] == kept@[k];
            }
            assert(s0.take(s0.len() as int) =~= s0);
        }
        self.entries = kept;
    }
}

/// Whether a key stands in a list of keys.
pub fn key_in(v: &Vec<ContactKey>, k: ContactKey) -> (r: bool)
    ensures
        r == v@.contains(k),
{
    let mut i: usize = 0;
    while i < v.len()
        invariant
            i <= v@.len(),
            forall|j: int| 0 <= j < i ==> v@[j] != k,
        decreases v@.len() - i,
    {
        if v[i].source_handle.index == k.source_handle.index && v[i].source_handle.generation
            == k.source_handle.generation && v[i].target_handle.index == k.target_handle.index
            && v[i].target_handle.generation == k.target_handle.generation && v[i].source_id
            == k.source_id && v[i].target_id == k.target_id && v[i].object_function
            == k.object_function {
            proof {
                assert(v@[i as int] == k);
            }
            return true;
        }
        i = i + 1;
    }
    proof {
        if v@.contains(k) {
            let j = choose|j: int| 0 <= j < v@.len() && v@[j] == k;
        }
    }
    false
}


/// The raw stop event that separates the pair a raw start began.
pub open spec fn spec_stop_of(r: ResolvedContact) -> ResolvedContact {
    ResolvedContact { started: false, ..r }
}

/// The single active contact after the pair has been touching for j
/// ticks: its counter reads j - 1.
pub open spec fn spec_lifecycle_entry(r: ResolvedContact, j: int) -> ContactEntry {
    ContactEntry { key: spec_key_of(r), tick_count: (j - 1) as u8, buff_id: None }
}

/// The table state after tick j of the lifecycle scenario: tick 1 sees
/// the raw start, ticks 2 and later see no raw events.
pub open spec fn spec_lifecycle_state(r: ResolvedContact, j: int) -> Seq<ContactEntry>
    decreases j,
{
    if j <= 1 {
        spec_process(Seq::empty(), seq![r]).1
    } else {
        spec_process(spec_lifecycle_state(r, j - 1), Seq::empty()).1
    }
}

/// The domain events observed over ticks 1 through j of the lifecycle
/// scenario, concatenated in tick order.
pub open spec fn spec_lifecycle_trace(r: ResolvedContact, j: int) -> Seq<PhysicsContact>
    decreases j,
{
    if j <= 1 {
        spec_process(Seq::empty(), seq![r]).0
    } else {
        spec_lifecycle_trace(r, j - 1) + spec_process(spec_lifecycle_state(r, j - 1), Seq::empty()).0
    }
}

/// One tick with a single raw start on an empty table: exactly one
/// domain Start is observed and the table holds the one fresh contact.
proof fn lemma_lifecycle_start(r: ResolvedContact)
    requires
        r.started,
    ensures
        spec_process(Seq::empty(), seq![r]).0 =~= seq![spec_start_event(r)],
        spec_process(Seq::empty(), seq![r]).1 =~= seq![spec_fresh_entry(spec_key_of(r))],
{
    let raw: Seq<ResolvedContact> = seq![r];
    assert(raw.drop_last() =~= Seq::<ResolvedContact>::empty());
    let st0 = spec_phase1(Seq::empty(), raw.drop_last());
    assert(st0.events =~= Seq::<PhysicsContact>::empty());
    assert(st0.entries =~= Seq::<ContactEntry>::empty());
    assert(st0.started =~= Seq::<ContactKey>::empty());
    assert(raw.last() == r);
    let p1 = spec_phase1(Seq::empty(), raw);
    assert(p1 == spec_phase1_step(st0, r));
    assert(!spec_has_key(st0.entries, spec_key_of(r)));
    assert(p1.entries =~= seq![spec_fresh_entry(spec_key_of(r))]);
    assert(p1.events =~= seq![spec_start_event(r)]);
    assert(p1.started =~= seq![spec_key_of(r)]);
    let p3 = spec_phase3(p1.entries, p1.started);
    assert(p1.entries.drop_last() =~= Seq::<ContactEntry>::empty());
    let rest = spec_phase3(p1.entries.drop_last(), p1.started);
    assert(rest.0 =~= Seq::<PhysicsContact>::empty());
    assert(rest.1 =~= Seq::<ContactEntry>::empty());
    assert(p1.started[0] == spec_key_of(r));
    assert(p1.started.contains(spec_key_of(r)));
    assert(p1.entries.last() == spec_fresh_entry(spec_key_of(r)));
    assert(p3.0 =~= Seq::<PhysicsContact>::empty());
    assert(p3.1 =~= seq![spec_fresh_entry(spec_key_of(r))]);
    assert(spec_process(Seq::empty(), raw).0 =~= p1.events + p3.0);
}

/// One tick with no raw events on a table holding one active contact:
/// exactly one Continue is observed, carrying the bumped counter, and
/// the table keeps the contact with that counter.
proof fn lemma_lifecycle_idle(e: ContactEntry)
    ensures
        spec_process(seq![e], Seq::empty()).0 =~= seq![spec_continue_event(e)],
        spec_process(seq![e], Seq::empty()).1 =~= seq![spec_bump(e)],
{
    let raw: Seq<ResolvedContact> = Seq::empty();
    let p1 = spec_phase1(seq![e], raw);
    assert(p1.events =~= Seq::<PhysicsContact>::empty());
    assert(p1.entries =~= seq![e]);
    assert(p1.started =~= Seq::<ContactKey>::empty());
    let p3 = spec_phase3(p1.entries, p1.started);
    assert(p1.entries.drop_last() =~= Seq::<ContactEntry>::empty());
    let rest = spec_phase3(p1.entries.drop_last(), p1.started);
    assert(rest.0 =~= Seq::<PhysicsContact>::empty());
    assert(rest.1 =~= Seq::<ContactEntry>::empty());
    assert(!p1.started.contains(e.key));
    assert(p3.0 =~= seq![spec_continue_event(e)]);
    assert(p3.1 =~= seq![spec_bump(e)]);
}

/// One tick with a single raw stop matching the one active contact:
/// exactly one End is observed, carrying the contact's recorded buff,
/// and the table is left empty.
proof fn lemma_lifecycle_end(e: ContactEntry, r: ResolvedContact)
    requires
        !r.started,
        spec_matches_pair(e, r.source_id, r.target_id, r.object_function),
    ensures
        spec_process(seq![e], seq![r]).0 =~= seq![spec_end_event(e)],
        spec_process(seq![e], seq![r]).1 =~= Seq::<ContactEntry>::empty(),
{
    let raw: Seq<ResolvedContact> = seq![r];
    assert(raw.drop_last() =~= Seq::<ResolvedContact>::empty());
    let st0 = spec_phase1(seq![e], raw.drop_last());
    assert(st0.events =~= Seq::<PhysicsContact>::empty());
    assert(st0.entries =~= seq![e]);
    let p1 = spec_phase1(seq![e], raw);
    assert(raw.last() == r);
    assert(p1 == spec_phase1_step(st0, r));
    reveal_with_fuel(Seq::filter, 3);
    let matched = st0.entries.filter(spec_pair_pred(r.source_id, r.target_id, r.object_function));
    assert(st0.entries.drop_last() =~= Seq::<ContactEntry>::empty());
    assert(spec_pair_pred(r.source_id, r.target_id, r.object_function)(e));
    assert(matched =~= seq![e]);
    assert(!spec_keep_pred(r.source_id, r.target_id, r.object_function)(e));
    assert(st0.entries.filter(spec_keep_pred(r.source_id, r.target_id, r.object_function))
        =~= Seq::<ContactEntry>::empty());
    assert(matched.map_values(|e2: ContactEntry| spec_end_event(e2)) =~= seq![spec_end_event(e)]);
    assert(p1.events =~= seq![spec_end_event(e)]);
    assert(p1.entries =~= Seq::<ContactEntry>::empty());
    let p3 = spec_phase3(p1.entries, p1.started);
    assert(p3.0 =~= Seq::<PhysicsContact>::empty());
    assert(p3.1 =~= Seq::<ContactEntry>::empty());
}

/// After tick j of the lifecycle scenario the table holds exactly the
/// one contact with counter j - 1, and the observed trace is one Start
/// followed by Continue events with counters 1 through j - 1.
proof fn lemma_lifecycle_upto(r: ResolvedContact, j: int)
    requires
        r.started,
        1 <= j <= 256,
    ensures
        spec_lifecycle_state(r, j) =~= seq![spec_lifecycle_entry(r, j)],
        spec_lifecycle_trace(r, j).len() == j,
        spec_lifecycle_trace(r, j)[0] == spec_start_event(r),
        forall|t: int|
            1 <= t < j ==> spec_lifecycle_trace(r, j)[t] == spec_continue_event(
                spec_lifecycle_entry(r, t),
            ),
    decreases j,
{
    if j == 1 {
        lemma_lifecycle_start(r);
        assert(spec_fresh_entry(spec_key_of(r)) == spec_lifecycle_entry(r, 1));
    } else {
        lemma_lifecycle_upto(r, j - 1);
        let prev = spec_lifecycle_entry(r, j - 1);
        assert(spec_lifecycle_state(r, j - 1) =~= seq![prev]);
        lemma_lifecycle_idle(prev);
        assert(prev.tick_count == j - 2 < 255);
        assert(spec_bump(prev) == spec_lifecycle_entry(r, j));
        assert(spec_process(spec_lifecycle_state(r, j - 1), Seq::empty()).1 =~= seq![
            spec_lifecycle_entry(r, j),
        ]);
        assert(spec_lifecycle_state(r, j) =~= seq![spec_lifecycle_entry(r, j)]);
        let tr = spec_lifecycle_trace(r, j);
        let trp = spec_lifecycle_trace(r, j - 1);
        assert(spec_process(spec_lifecycle_state(r, j - 1), Seq::empty()).0 =~= seq![
            spec_continue_event(prev),
        ]);
        assert(tr =~= trp + seq![spec_continue_event(prev)]);
        assert(tr.len() == j);
        assert forall|t: int|
            1 <= t < j implies tr[t] == spec_continue_event(spec_lifecycle_entry(r, t)) by {
            if t < j - 1 {
                assert(tr[t] == trp[t]);
            } else {
                assert(tr[t] == spec_continue_event(prev));
            }
        }
    }
}

/// Contact lifecycle ordering: for a pair that touches for k ticks and
/// then separates, the observed domain event sequence is exactly one
/// Start, then k - 1 Continue events whose tick counters increase
/// strictly (the counter of the t-th Continue is t), then exactly one
/// End; no Continue precedes the Start or follows the End.
pub proof fn lemma_contact_lifecycle(r: ResolvedContact, k: int)
    requires
        r.started,
        1 <= k <= 256,
    ensures
        ({
            let trace = spec_lifecycle_trace(r, k) + spec_process(
                spec_lifecycle_state(r, k),
                seq![spec_stop_of(r)],
            ).0;
            trace.len() == k + 1 && trace[0] == spec_start_event(r) && (forall|t: int|
                1 <= t < k ==> trace[t] == spec_continue_event(spec_lifecycle_entry(r, t)))
                && trace[k] == spec_end_event(spec_lifecycle_entry(r, k)) && (forall|t: int|
                1 <= t < k ==> trace[t]->Continue_tick_count == t)
        }),
{
    lemma_lifecycle_upto(r, k);
    let e = spec_lifecycle_entry(r, k);
    let stop = spec_stop_of(r);
    assert(spec_matches_pair(e, stop.source_id, stop.target_id, stop.object_function));
    lemma_lifecycle_end(e, stop);
    let trace = spec_lifecycle_trace(r, k) + spec_process(
        spec_lifecycle_state(r, k),
        seq![stop],
    ).0;
    assert(spec_process(spec_lifecycle_state(r, k), seq![stop]).0 =~= seq![spec_end_event(e)]);
    assert(trace.len() == k + 1);
    assert(trace[k] == spec_end_event(e));
    assert forall|t: int|
        1 <= t < k implies trace[t] == spec_continue_event(spec_lifecycle_entry(r, t))
        && trace[t]->Continue_tick_count == t by {
        assert(trace[t] == spec_lifecycle_trace(r, k)[t]);
        assert(spec_lifecycle_entry(r, t).tick_count == t - 1 < 255);
    }
}

/// Filtering a table whose keys are unique leaves keys unique.
proof fn lemma_filter_keeps_unique_keys(s: Seq<ContactEntry>, pred: spec_fn(ContactEntry) -> bool)
    requires
        forall|i: int, j: int| 0 <= i < j < s.len() ==> s[i].key != s[j].key,
    ensures
        forall|i: int, j: int|
            0 <= i < j < s.filter(pred).len() ==> s.filter(pred)[i].key != s.filter(pred)[j].key,
    decreases s.len(),
{
    reveal(Seq::filter);
    if s.len() > 0 {
        lemma_filter_keeps_unique_keys(s.drop_last(), pred);
        let f = s.filter(pred);
        let fd = s.drop_last().filter(pred);
        if pred(s.last()) {
            assert(f == fd.push(s.last()));
            assert forall|i: int, j: int|
                0 <= i < j < f.len() implies f[i].key != f[j].key by {
                if j < f.len() - 1 {
                    assert(f[i] == fd[i] && f[j] == fd[j]);
                } else {
                    assert(f[j] == s.last());
                    assert(f[i] == fd[i]);
                    lemma_filter_element_origin(s.drop_last(), pred, i);
                    let w = choose|w: int|
                        0 <= w < s.drop_last().len() && s.drop_last()[w] == fd[i];
                    assert(s[w] == fd[i]);
                    assert(s[w].key != s.last().key);
                }
            }
        }
    }
}

/// Every element a filter keeps stands somewhere in the unfiltered table.
proof fn lemma_filter_element_origin(s: Seq<ContactEntry>, pred: spec_fn(ContactEntry) -> bool, i: int)
    requires
        0 <= i < s.filter(pred).len(),
    ensures
        exists|j: int| 0 <= j < s.len() && s[j] == s.filter(pred)[i],
    decreases s.len(),
{
    reveal(Seq::filter);
    if s.len() > 0 {
        let f = s.filter(pred);
        let fd = s.drop_last().filter(pred);
        if pred(s.last()) && i == f.len() - 1 {
            assert(f[i] == s.last());
            assert(s[s.len() - 1] == f[i]);
        } else {
            assert(f[i] == fd[i]);
            lemma_filter_element_origin(s.drop_last(), pred, i);
            let j = choose|j: int| 0 <= j < s.drop_last().len() && s.drop_last()[j] == fd[i];
            assert(s[j] == f[i]);
        }
    }
}

} // verus!
