//! One tick of a region: step the engine, bound and resolve the raw
//! collision events, normalize them into contact lifecycles, handle each
//! domain event (damage cadence, aura buffs, contact records), flush the
//! batched store updates, and reschedule.

use vstd::prelude::*;
use crate::codec::{get_object_function, get_raw_id, spec_unpack};
use crate::contacts::{spec_has_key, spec_process, ContactEntry, ContactKey, PhysicsContact, ResolvedContact};
use crate::engine::{
    body_transform, collider_info, set_collider_user_data, step_world, HandleBits, RawCollisionRec,
};
use crate::scheduler::schedule_physics_tick;
use crate::sim::{apply_buff, apply_damage, SimState};
use crate::skills::MAGNITUDE_FULL;
use crate::store::{spec_has_body, spec_body_row_of, spec_has_contact_pair, ContactEventRow};
use crate::world::{spec_hits_of, spec_pending_damage_of};
use crate::collision::STATIC_BODY_TYPE;

verus! {

/// Maximum number of raw collision events taken per tick; excess events
/// are dropped rather than stalling the tick or growing without bound.
pub const MAX_COLLISION_EVENTS: usize = 100;

/// The object-function tag of a periodic-damage contact.
pub const PERIODIC_DAMAGE_FUNCTION: u8 = 1;
/// The object-function tag of an aura contact.
pub const AURA_FUNCTION: u8 = 2;
/// A periodic-damage contact applies one unit of damage each time its
/// sustained-tick counter reaches a multiple of this cadence.
pub const DAMAGE_TICK_PERIOD: u8 = 5;
/// Once a collider's hit counter reaches this cap, every active contact
/// sharing that collider is evicted to force re-acquisition.
pub const HIT_COUNT_CAP: u8 = 30;

/// Why a tick was rejected.
#[derive(Clone, Copy, Debug, PartialEq, Eq, Structural)]
pub enum TickError {
    /// The tick entry point was invoked by a caller other than the
    /// scheduler.
    Unauthorized,
}

/// The canonical pairing of one raw engine event's two collider reads:
/// the sensor side becomes the source (the second side when neither or
/// both are sensors), and the entity ids and the object-function tag are
/// unpacked from the colliders' tags.
pub open spec fn spec_classify(
    h1: HandleBits,
    h2: HandleBits,
    i1: (u128, bool),
    i2: (u128, bool),
    started: bool,
) -> ResolvedContact {
    let (sh, sd, th, td) = if i1.1 {
        (h1, i1.0, h2, i2.0)
    } else {
        (h2, i2.0, h1, i1.0)
    };
    ResolvedContact {
        started,
        source_handle: sh,
        target_handle: th,
        source_id: spec_unpack(sd).raw_id,
        target_id: spec_unpack(td).raw_id,
        object_function: spec_unpack(sd).object_function,
    }
}

/// Classify one raw engine event from the two colliders' tag-and-sensor
/// reads: exactly [`spec_classify`], for every value the engine handed
/// back.
pub fn classify_pair(
    h1: HandleBits,
    h2: HandleBits,
    i1: (u128, bool),
    i2: (u128, bool),
    started: bool,
) -> (r: ResolvedContact)
    ensures
        r == spec_classify(h1, h2, i1, i2, started),
{
    let (sh, sd, th, td) = if i1.1 {
        (h1, i1.0, h2, i2.0)
    } else {
        (h2, i2.0, h1, i1.0)
    };
    ResolvedContact {
        started,
        source_handle: sh,
        target_handle: th,
        source_id: get_raw_id(sd),
        target_id: get_raw_id(td),
        object_function: get_object_function(sd),
    }
}

/// A resolved contact is the classification of one of the tick's raw
/// events, under some pair of collider reads.
pub open spec fn spec_classified_from(raw: Seq<RawCollisionRec>, rc: ResolvedContact) -> bool {
    exists|j: int, i1: (u128, bool), i2: (u128, bool)|
        0 <= j < raw.len() && rc == #[trigger] spec_classify(
            raw[j].h1,
            raw[j].h2,
            i1,
            i2,
            raw[j].started,
        )
}

/// The in-order classification of the raw events under one collider read
/// per event: an event whose reads are present contributes exactly one
/// resolved contact, in emission order; an event with a missing collider
/// contributes nothing.
pub open spec fn spec_resolve_all(
    raw: Seq<RawCollisionRec>,
    reads: Seq<Option<((u128, bool), (u128, bool))>>,
) -> Seq<ResolvedContact>
    decreases raw.len(),
{
    if raw.len() == 0 {
        Seq::empty()
    } else {
        let rest = spec_resolve_all(raw.drop_last(), reads);
        match reads[raw.len() - 1] {
            Some(p) => rest.push(
                spec_classify(raw.last().h1, raw.last().h2, p.0, p.1, raw.last().started),
            ),
            None => rest,
        }
    }
}

/// The classification reads only one read per event: entries of the read
/// list beyond the events play no part.
proof fn lemma_resolve_reads_prefix(
    raw: Seq<RawCollisionRec>,
    r1: Seq<Option<((u128, bool), (u128, bool))>>,
    r2: Seq<Option<((u128, bool), (u128, bool))>>,
)
    requires
        forall|k: int| 0 <= k < raw.len() ==> r1[k] == r2[k],
    ensures
        spec_resolve_all(raw, r1) == spec_resolve_all(raw, r2),
    decreases raw.len(),
{
    if raw.len() > 0 {
        lemma_resolve_reads_prefix(raw.drop_last(), r1, r2);
    }
}

/// Resolve one tick's raw engine events against the world's collider
/// store: events whose colliders are both still present are classified,
/// one resolved contact each in emission order; the others are skipped.
/// The result is exactly the in-order classification of the events under
/// the collider reads the engine answered with.
pub fn collect_events(w: &crate::world::PhysicsWorld, raw: &Vec<RawCollisionRec>) -> (r: Vec<
    ResolvedContact,
>)
    ensures
        r@.len() <= raw@.len(),
        forall|k: int| 0 <= k < r@.len() ==> spec_classified_from(raw@, #[trigger] r@[k]),
        exists|reads: Seq<Option<((u128, bool), (u128, bool))>>|
            reads.len() == raw@.len() && r@ == #[trigger] spec_resolve_all(raw@, reads),
{
    let mut out: Vec<ResolvedContact> = Vec::new();
    let ghost mut reads: Seq<Option<((u128, bool), (u128, bool))>> = Seq::empty();
    let mut i: usize = 0;
    while i < raw.len()
        invariant
            i <= raw@.len(),
            out@.len() <= i,
            reads.len() == i,
            out@ == spec_resolve_all(raw@.take(i as int), reads),
            forall|k: int| 0 <= k < out@.len() ==> spec_classified_from(raw@, #[trigger] out@[k]),
        decreases raw@.len() - i,
    {
        let rec = raw[i];
        let ghost out0 = out@;
        let ghost reads0 = reads;
        let info1 = collider_info(&w.engine, rec.h1);
        let info2 = match info1 {
            Some(_) => collider_info(&w.engine, rec.h2),
            None => None,
        };
        proof {
            reads = reads.push(
                match (info1, info2) {
                    (Some(a), Some(b)) => Some((a, b)),
                    _ => None,
                },
            );
            lemma_resolve_reads_prefix(raw@.take(i as int), reads0, reads);
            assert(raw@.take(i as int + 1).drop_last() =~= raw@.take(i as int));
            assert(raw@.take(i as int + 1).last() == raw@[i as int]);
            assert(reads[i as int] == (match (info1, info2) {
                (Some(a), Some(b)) => Some::<((u128, bool), (u128, bool))>((a, b)),
                _ => None::<((u128, bool), (u128, bool))>,
            }));
        }
        match (info1, info2) {
            (Some(i1), Some(i2)) => {
                out.push(classify_pair(rec.h1, rec.h2, i1, i2, rec.started));
                proof {
                    assert(out@ == spec_resolve_all(raw@.take(i as int + 1), reads));
                    assert forall|k: int|
                        0 <= k < out@.len() implies spec_classified_from(
                        raw@,
                        #[trigger] out@[k],
                    ) by {
                        if k < out0.len() {
                            assert(out@[k] == out0[k]);
                        } else {
                            assert(out@[k] == spec_classify(
                                raw@[i as int].h1,
                                raw@[i as int].h2,
                                i1,
                                i2,
                                raw@[i as int].started,
                            ));
                        }
                    }
                }
            },
            _ => {
                proof {
                    assert(out@ == spec_resolve_all(raw@.take(i as int + 1), reads));
                }
            },
        }
        i = i + 1;
    }
    proof {
        assert(raw@.take(raw@.len() as int) =~= raw@);
    }
    out
}

/// Handle one domain contact event inside a region's tick.
///
/// On a Start, a contact-event record is persisted for external
/// observability, and an aura contact applies a buff to the target's
/// owner, remembering the buff on the active contact for precise later
/// revocation. On a Continue of a periodic-damage contact, one unit of
/// damage is applied every [`DAMAGE_TICK_PERIOD`] sustained ticks — not
/// every tick — and the source collider's saturating hit counter is
/// bumped; at [`HIT_COUNT_CAP`] every contact sharing that collider is
/// evicted. On an End, the recorded buff instance (and no other) is
/// revoked and the pair's contact-event record is retracted. Every other
/// event changes nothing.
pub fn handle_event(state: &mut SimState, wi: usize, contact: PhysicsContact, now: i64)
    requires
        old(state).wf(),
        wi < old(state).registry.worlds@.len(),
    ensures
        final(state).wf(),
        final(state).registry.worlds@.len() == old(state).registry.worlds@.len(),
        final(state).db.physics_bodies == old(state).db.physics_bodies,
        final(state).db.skill_cooldowns == old(state).db.skill_cooldowns,
        final(state).db.tick_schedules == old(state).db.tick_schedules,
        final(state).next_entity_id == old(state).next_entity_id,
        final(state).next_cooldown_id == old(state).next_cooldown_id,
        final(state).module_identity == old(state).module_identity,
        forall|w: int|
            0 <= w < final(state).registry.worlds@.len() && w != wi ==> final(state).registry.worlds@[w] == old(state).registry.worlds@[w],
        final(state).registry.worlds@[wi as int].bodies_index == old(state).registry.worlds@[
            wi as int
        ].bodies_index,
        final(state).registry.worlds@[wi as int].last_transforms == old(state).registry.worlds@[
            wi as int
        ].last_transforms,
        final(state).registry.worlds@[wi as int].region == old(state).registry.worlds@[
            wi as int
        ].region,
        // whatever the event, a surviving active contact keeps a key and
        // counter it already had: handlers never add contacts or advance
        // counters
        forall|i: int|
            0 <= i < final(state).tracker.entries@.len() ==> exists|j: int|
                0 <= j < old(state).tracker.entries@.len() && (#[trigger] final(state).tracker.entries@[i]).key == old(state).tracker.entries@[j].key && final(state).tracker.entries@[i].tick_count == old(state).tracker.entries@[j].tick_count,
        ({
            let w0 = old(state).registry.worlds@[wi as int];
            let w1 = final(state).registry.worlds@[wi as int];
            let db0 = old(state).db;
            let db1 = final(state).db;
            match contact {
                PhysicsContact::Start {
                    source_handle,
                    target_handle,
                    source_id,
                    target_id,
                    object_function,
                } => {
                    &&& (old(state).next_contact_event_id < u64::MAX ==> db1.contact_events@
                        == db0.contact_events@.push(
                        (ContactEventRow {
                            id: old(state).next_contact_event_id,
                            entity_1: source_id,
                            entity_2: target_id,
                            started_at: now,
                        }),
                    ) && final(state).next_contact_event_id == old(state).next_contact_event_id
                        + 1)
                    &&& w1.pending_damage == w0.pending_damage
                    &&& w1.collider_hits == w0.collider_hits
                    &&& db1.damage_events == db0.damage_events
                    &&& ((object_function == AURA_FUNCTION && spec_has_body(
                        db0.physics_bodies@,
                        target_id,
                    ) && old(state).next_buff_id < u64::MAX) ==> ({
                        let key = ContactKey {
                            source_handle,
                            target_handle,
                            source_id,
                            target_id,
                            object_function,
                        };
                        &&& db1.player_buffs@ == db0.player_buffs@.push(
                            (crate::store::PlayerBuffRow {
                                id: old(state).next_buff_id,
                                player_id: spec_body_row_of(
                                    db0.physics_bodies@,
                                    target_id,
                                )->Some_0.owner_id,
                                stacks: 1,
                                buff_type: AURA_FUNCTION,
                                magnitude: MAGNITUDE_FULL,
                                expires_at: i64::MAX,
                            }),
                        )
                        &&& (spec_has_key(old(state).tracker.entries@, key) ==> exists|i: int|
                            0 <= i < old(state).tracker.entries@.len() && (#[trigger] old(
                                state,
                            ).tracker.entries@[i]).key == key && final(state).tracker.entries@
                                == old(state).tracker.entries@.update(
                                i,
                                (ContactEntry {
                                    buff_id: Some(old(state).next_buff_id),
                                    ..old(state).tracker.entries@[i]
                                }),
                            ))
                        &&& (!spec_has_key(old(state).tracker.entries@, key) ==> final(state).tracker.entries@ == old(state).tracker.entries@)
                    }))
                    &&& (!(object_function == AURA_FUNCTION && spec_has_body(
                        db0.physics_bodies@,
                        target_id,
                    )) ==> db1.player_buffs == db0.player_buffs && final(state).tracker == old(
                        state,
                    ).tracker)
                },
                PhysicsContact::Continue {
                    source_handle,
                    target_handle,
                    source_id,
                    target_id,
                    object_function,
                    tick_count,
                } => {
                    &&& db1.contact_events == db0.contact_events
                    &&& db1.player_buffs == db0.player_buffs
                    &&& final(state).next_contact_event_id == old(state).next_contact_event_id
                    &&& final(state).next_buff_id == old(state).next_buff_id
                    &&& (!(object_function == PERIODIC_DAMAGE_FUNCTION && tick_count
                        % DAMAGE_TICK_PERIOD == 0) ==> *final(state) == *old(state))
                    &&& ((object_function == PERIODIC_DAMAGE_FUNCTION && tick_count
                        % DAMAGE_TICK_PERIOD == 0) ==> ({
                        &&& spec_pending_damage_of(w1.pending_damage@, target_id)
                            == if spec_pending_damage_of(w0.pending_damage@, target_id) + 1
                            <= u32::MAX {
                            spec_pending_damage_of(w0.pending_damage@, target_id) + 1
                        } else {
                            u32::MAX as int
                        }
                        &&& spec_hits_of(w1.collider_hits@, source_handle) == if spec_hits_of(
                            w0.collider_hits@,
                            source_handle,
                        ) + 1 <= u8::MAX {
                            spec_hits_of(w0.collider_hits@, source_handle) + 1
                        } else {
                            u8::MAX as int
                        }
                        &&& (spec_hits_of(w1.collider_hits@, source_handle) < HIT_COUNT_CAP
                            ==> final(state).tracker == old(state).tracker)
                        &&& (spec_hits_of(w1.collider_hits@, source_handle) >= HIT_COUNT_CAP
                            ==> forall|i: int|
                            0 <= i < final(state).tracker.entries@.len() ==> (#[trigger] final(state).tracker.entries@[i]).key.source_handle != source_handle)
                    }))
                },
                PhysicsContact::End {
                    source_handle,
                    target_handle,
                    source_id,
                    target_id,
                    object_function,
                    buff_id,
                } => {
                    &&& w1.pending_damage == w0.pending_damage
                    &&& w1.collider_hits == w0.collider_hits
                    &&& db1.damage_events == db0.damage_events
                    &&& final(state).tracker == old(state).tracker
                    &&& final(state).next_contact_event_id == old(state).next_contact_event_id
                    &&& final(state).next_buff_id == old(state).next_buff_id
                    &&& ((object_function == AURA_FUNCTION && buff_id is Some) ==> ({
                        let bid = buff_id->Some_0;
                        &&& !crate::store::spec_has_buff(db1.player_buffs@, bid)
                        &&& (crate::store::spec_has_buff(db0.player_buffs@, bid) ==> exists|i: int|
                            0 <= i < db0.player_buffs@.len() && (#[trigger] db0.player_buffs@[
                                i
                            ]).id == bid && db1.player_buffs@ == db0.player_buffs@.remove(i))
                        &&& (!crate::store::spec_has_buff(db0.player_buffs@, bid)
                            ==> db1.player_buffs@ == db0.player_buffs@)
                    }))
                    &&& (!(object_function == AURA_FUNCTION && buff_id is Some)
                        ==> db1.player_buffs == db0.player_buffs)
                    &&& !spec_has_contact_pair(db0.contact_events@, source_id, target_id)
                        ==> db1.contact_events == db0.contact_events
                    &&& spec_has_contact_pair(db0.contact_events@, source_id, target_id)
                        ==> exists|i: int|
                        0 <= i < db0.contact_events@.len() && (#[trigger] db0.contact_events@[
                            i
                        ]).entity_1 == source_id && db0.contact_events@[i].entity_2 == target_id
                            && db1.contact_events@ == db0.contact_events@.remove(i)
                },
            }
        }),
{
    match contact {
        PhysicsContact::Start {
            source_handle,
            target_handle,
            source_id,
            target_id,
            object_function,
        } => {
            if object_function == AURA_FUNCTION {
                match state.db.body_index(target_id) {
                    Some(bi) => {
                        let owner = state.db.physics_bodies[bi].owner_id;
                        if state.next_buff_id < u64::MAX {
                            let buff_id = apply_buff(
                                state,
                                owner,
                                AURA_FUNCTION,
                                MAGNITUDE_FULL,
                                i64::MAX,
                            );
                            let key = ContactKey {
                                source_handle,
                                target_handle,
                                source_id,
                                target_id,
                                object_function,
                            };
                            state.tracker.set_buff_id(key, buff_id);
                        }
                    },
                    None => {},
                }
            }
            if state.next_contact_event_id < u64::MAX {
                let ev = ContactEventRow {
                    id: state.next_contact_event_id,
                    entity_1: source_id,
                    entity_2: target_id,
                    started_at: now,
                };
                proof {
                    assert(!crate::store::spec_has_contact_event(state.db.contact_events@, ev.id));
                }
                state.next_contact_event_id = state.next_contact_event_id + 1;
                state.db.insert_contact_event(ev);
            }
        },
        PhysicsContact::Continue {
            source_handle,
            target_handle,
            source_id,
            target_id,
            object_function,
            tick_count,
        } => {
            if object_function == PERIODIC_DAMAGE_FUNCTION && tick_count % DAMAGE_TICK_PERIOD
                == 0 {
                if state.next_damage_event_id < u64::MAX {
                    let src = state.module_identity;
                    apply_damage(state, wi, src, object_function, target_id, 1, now);
                } else {
                    let w = &mut state.registry.worlds[wi];
                    w.add_pending_damage(target_id, 1);
                }
                let w = &mut state.registry.worlds[wi];
                let new_hits = w.bump_collider_hits(source_handle);
                match collider_info(&w.engine, source_handle) {
                    Some((ud, _)) => {
                        let new_ud = crate::codec::set_hit_count(ud, new_hits);
                        set_collider_user_data(&mut w.engine, source_handle, new_ud);
                    },
                    None => {},
                }
                if new_hits >= HIT_COUNT_CAP {
                    state.tracker.evict_source_handle(source_handle);
                }
            }
        },
        PhysicsContact::End {
            source_handle,
            target_handle,
            source_id,
            target_id,
            object_function,
            buff_id,
        } => {
            if object_function == AURA_FUNCTION {
                match buff_id {
                    Some(bid) => {
                        state.db.delete_buff(bid);
                    },
                    None => {},
                }
            }
            match state.db.contact_pair_index(source_id, target_id) {
                Some(i) => {
                    state.db.delete_contact_event_at(i);
                    proof {
                        let s = old(state).db.contact_events@;
                        assert(state.db.contact_events@ == s.remove(i as int));
                    }
                },
                None => {},
            }
        },
    }
}


/// The entity of a store row has already been visited by the sync pass:
/// some forward-index record before position r names it and is not a
/// static body.
pub open spec fn spec_synced(idx: Seq<crate::world::BodyRecord>, r: int, e: u32) -> bool {
    exists|j: int| 0 <= j < r && (#[trigger] idx[j]).entity_id == e && idx[j].body_type != STATIC_BODY_TYPE
}

/// End-of-tick batched write-back for one region: for every non-static
/// body in the region's forward index, the accumulated damage is
/// subtracted from the store record's health (saturating at zero), the
/// record's transform and chunk coordinates follow the engine when the
/// transform changed since the last write, and the pending-damage map is
/// cleared afterwards — damage for entities that despawned is simply
/// discarded. Rows of entities outside this region's index, and of
/// static bodies, are left exactly as they were; no row is inserted or
/// removed, and no identity field changes.
pub fn apply_database_updates(state: &mut SimState, wi: usize)
    requires
        old(state).wf(),
        wi < old(state).registry.worlds@.len(),
    ensures
        final(state).wf(),
        final(state).db.contact_events == old(state).db.contact_events,
        final(state).db.player_buffs == old(state).db.player_buffs,
        final(state).db.skill_cooldowns == old(state).db.skill_cooldowns,
        final(state).db.damage_events == old(state).db.damage_events,
        final(state).db.tick_schedules == old(state).db.tick_schedules,
        final(state).tracker == old(state).tracker,
        final(state).next_entity_id == old(state).next_entity_id,
        final(state).next_contact_event_id == old(state).next_contact_event_id,
        final(state).next_buff_id == old(state).next_buff_id,
        final(state).next_cooldown_id == old(state).next_cooldown_id,
        final(state).next_damage_event_id == old(state).next_damage_event_id,
        final(state).module_identity == old(state).module_identity,
        final(state).registry.worlds@.len() == old(state).registry.worlds@.len(),
        forall|w: int|
            0 <= w < final(state).registry.worlds@.len() && w != wi ==> final(state).registry.worlds@[w] == old(state).registry.worlds@[w],
        final(state).registry.worlds@[wi as int].bodies_index@ == old(state).registry.worlds@[
            wi as int
        ].bodies_index@,
        final(state).registry.worlds@[wi as int].region == old(state).registry.worlds@[
            wi as int
        ].region,
        final(state).registry.worlds@[wi as int].pending_damage@.len() == 0,
        final(state).db.physics_bodies@.len() == old(state).db.physics_bodies@.len(),
        forall|i: int|
            0 <= i < final(state).db.physics_bodies@.len() ==> ({
                let n = #[trigger] final(state).db.physics_bodies@[i];
                let o = old(state).db.physics_bodies@[i];
                n.entity_id == o.entity_id && n.owner_id == o.owner_id && n.region == o.region
                    && n.collider_shape == o.collider_shape && n.body_type == o.body_type && n.vel_x
                    == o.vel_x && n.vel_y == o.vel_y && n.vel_z == o.vel_z && n.ang_vel_x
                    == o.ang_vel_x && n.ang_vel_y == o.ang_vel_y && n.ang_vel_z == o.ang_vel_z
            }),
        forall|i: int|
            0 <= i < final(state).db.physics_bodies@.len() ==> ({
                let idx = old(state).registry.worlds@[wi as int].bodies_index@;
                let o = old(state).db.physics_bodies@[i];
                let n = #[trigger] final(state).db.physics_bodies@[i];
                let d = spec_pending_damage_of(
                    old(state).registry.worlds@[wi as int].pending_damage@,
                    o.entity_id,
                );
                if spec_synced(idx, idx.len() as int, o.entity_id) {
                    n.health == if o.health >= d {
                        o.health - d
                    } else {
                        0
                    }
                } else {
                    n == o
                }
            }),
{
    let ghost idx0 = state.registry.worlds@[wi as int].bodies_index@;
    let ghost rows0 = state.db.physics_bodies@;
    let ghost pend0 = state.registry.worlds@[wi as int].pending_damage@;
    let mut r: usize = 0;
    let n_recs = state.registry.worlds[wi].bodies_index.len();
    while r < n_recs
        invariant
            old(state).wf(),
            state.wf(),
            wi < state.registry.worlds@.len(),
            n_recs == idx0.len(),
            r <= n_recs,
            idx0 == state.registry.worlds@[wi as int].bodies_index@,
            rows0 == old(state).db.physics_bodies@,
            pend0 == old(state).registry.worlds@[wi as int].pending_damage@,
            idx0 == old(state).registry.worlds@[wi as int].bodies_index@,
            state.db.contact_events == old(state).db.contact_events,
            state.db.player_buffs == old(state).db.player_buffs,
            state.db.skill_cooldowns == old(state).db.skill_cooldowns,
            state.db.damage_events == old(state).db.damage_events,
            state.db.tick_schedules == old(state).db.tick_schedules,
            state.tracker == old(state).tracker,
            state.next_entity_id == old(state).next_entity_id,
            state.next_contact_event_id == old(state).next_contact_event_id,
            state.next_buff_id == old(state).next_buff_id,
            state.next_cooldown_id == old(state).next_cooldown_id,
            state.next_damage_event_id == old(state).next_damage_event_id,
            state.module_identity == old(state).module_identity,
            state.registry.worlds@.len() == old(state).registry.worlds@.len(),
            forall|w: int|
                0 <= w < state.registry.worlds@.len() && w != wi ==> state.registry.worlds@[w]
                    == old(state).registry.worlds@[w],
            state.registry.worlds@[wi as int].region == old(state).registry.worlds@[
                wi as int
            ].region,
            state.db.physics_bodies@.len() == rows0.len(),
            forall|i: int|
                0 <= i < state.db.physics_bodies@.len() ==> ({
                    let n = #[trigger] state.db.physics_bodies@[i];
                    let o = rows0[i];
                    n.entity_id == o.entity_id && n.owner_id == o.owner_id && n.region == o.region
                        && n.collider_shape == o.collider_shape && n.body_type == o.body_type
                        && n.vel_x == o.vel_x && n.vel_y == o.vel_y && n.vel_z == o.vel_z
                        && n.ang_vel_x == o.ang_vel_x && n.ang_vel_y == o.ang_vel_y && n.ang_vel_z
                        == o.ang_vel_z
                }),
            forall|i: int|
                0 <= i < state.db.physics_bodies@.len() ==> ({
                    let o = rows0[i];
                    let n = #[trigger] state.db.physics_bodies@[i];
                    let d = spec_pending_damage_of(pend0, o.entity_id);
                    if spec_synced(idx0, r as int, o.entity_id) {
                        n.health == if o.health >= d {
                            o.health - d
                        } else {
                            0
                        }
                    } else {
                        n == o
                    }
                }),
            forall|e: u32|
                spec_pending_damage_of(
                    state.registry.worlds@[wi as int].pending_damage@,
                    e,
                ) == if spec_synced(idx0, r as int, e) {
                    0
                } else {
                    spec_pending_damage_of(pend0, e)
                },
        decreases n_recs - r,
    {
        let rec = state.registry.worlds[wi].bodies_index[r];
        proof {
            assert(rec == idx0[r as int]);
        }
        if rec.body_type != STATIC_BODY_TYPE {
            let w = &mut state.registry.worlds[wi];
            let dmg = w.take_pending_damage(rec.entity_id);
            let tf_opt = body_transform(&w.engine, rec.body);
            let cached = w.cached_transform(rec.body);
            let changed: bool = match tf_opt {
                Some(t) => match cached {
                    Some(c) => !(t == c),
                    None => true,
                },
                None => false,
            };
            match tf_opt {
                Some(t) => {
                    if changed {
                        w.set_cached_transform(rec.body, t);
                    }
                },
                None => {},
            }
            proof {
                assert(spec_pending_damage_of(pend0, rec.entity_id) == dmg);
            }
            if dmg > 0 || changed {
                match state.db.body_index(rec.entity_id) {
                    Some(bi) => {
                        let row_health = state.db.physics_bodies[bi].health;
                        let new_health = row_health.saturating_sub(dmg);
                        let (px, py, pz, ri, rj, rk, rw): (u32, u32, u32, u32, u32, u32, u32) =
                            match tf_opt {
                            Some(t) if changed => (
                                t.pos_x,
                                t.pos_y,
                                t.pos_z,
                                t.rot_i,
                                t.rot_j,
                                t.rot_k,
                                t.rot_w,
                            ),
                            _ => {
                                let row = &state.db.physics_bodies[bi];
                                (
                                    row.pos_x,
                                    row.pos_y,
                                    row.pos_z,
                                    row.rot_i,
                                    row.rot_j,
                                    row.rot_k,
                                    row.rot_w,
                                )
                            },
                        };
                        let (cx, cy): (i32, i32) = if changed {
                            crate::engine::chunk_pair_from_bits(px, py)
                        } else {
                            (state.db.physics_bodies[bi].chunk_x, state.db.physics_bodies[bi].chunk_y)
                        };
                        state.db.set_body_state_at(bi, px, py, pz, ri, rj, rk, rw, cx, cy, new_health);
                    },
                    None => {},
                }
            }
        }
        r = r + 1;
        proof {
            lemma_synced_step(idx0, r as int);
        }
    }
    let w = &mut state.registry.worlds[wi];
    w.clear_pending_damage();
    proof {
        assert forall|i: int|
            0 <= i < state.db.physics_bodies@.len() implies ({
            let idx = old(state).registry.worlds@[wi as int].bodies_index@;
            let o = rows0[i];
            let n = #[trigger] state.db.physics_bodies@[i];
            let d = spec_pending_damage_of(pend0, o.entity_id);
            if spec_synced(idx, idx.len() as int, o.entity_id) {
                n.health == if o.health >= d {
                    o.health - d
                } else {
                    0
                }
            } else {
                n == o
            }
        }) by {}
    }
}

/// A record visited before position r stays visited at position r + 1,
/// and position r itself becomes visited.
proof fn lemma_synced_step(idx: Seq<crate::world::BodyRecord>, r1: int)
    ensures
        forall|e: u32| spec_synced(idx, r1 - 1, e) ==> spec_synced(idx, r1, e),
{
    assert forall|e: u32| spec_synced(idx, r1 - 1, e) implies spec_synced(idx, r1, e) by {
        let j = choose|j: int|
            0 <= j < r1 - 1 && (#[trigger] idx[j]).entity_id == e && idx[j].body_type
                != STATIC_BODY_TYPE;
        assert(0 <= j < r1 && idx[j].entity_id == e && idx[j].body_type != STATIC_BODY_TYPE);
    }
}


/// One scheduled tick of a region, invoked only by the scheduler: steps
/// the region's world one fixed timestep, takes at most
/// [`MAX_COLLISION_EVENTS`] raw collision events (dropping the excess),
/// resolves and normalizes them into the domain event stream, handles
/// each event, flushes the batched store updates, and reschedules the
/// next tick one interval after this one's scheduled time. A reschedule
/// failure is tolerated: the tick's output is kept and only the next run
/// fails to be scheduled. An unauthorized caller is rejected outright and
/// nothing changes.
pub fn physics_tick(
    state: &mut SimState,
    sender: u128,
    region: u32,
    scheduled_id: u64,
    now: i64,
) -> (r: Result<Vec<PhysicsContact>, TickError>)
    requires
        old(state).wf(),
        now >= 0,
    ensures
        final(state).wf(),
        (sender != old(state).module_identity) <==> r == Err::<Vec<PhysicsContact>, TickError>(
            TickError::Unauthorized,
        ),
        r is Err ==> *final(state) == *old(state),
        // the tick's output: at most the bounded number of raw events was
        // taken, the returned events are the tracker transition on them,
        // and every surviving active contact is one the transition left,
        // with its key and counter (handlers may only record a buff on an
        // entry or evict entries, never add or advance one)
        r is Ok ==> exists|resolved: Seq<ResolvedContact>|
            ({
                let processed = #[trigger] spec_process(old(state).tracker.entries@, resolved);
                &&& resolved.len() <= MAX_COLLISION_EVENTS
                &&& processed.0 == r->Ok_0@
                &&& forall|i: int|
                    0 <= i < final(state).tracker.entries@.len() ==> exists|j: int|
                        0 <= j < processed.1.len() && (#[trigger] final(state).tracker.entries@[
                            i
                        ]).key == processed.1[j].key && final(state).tracker.entries@[i].tick_count
                            == processed.1[j].tick_count
            }),
        r is Ok ==> ({
            let scheds = old(state).db.tick_schedules@;
            match crate::store::spec_schedule_of(scheds, scheduled_id) {
                Some(prev) => (scheduled_id < u64::MAX && !crate::store::spec_has_schedule(
                    scheds,
                    (scheduled_id + 1) as u64,
                ) && prev.scheduled_at + crate::scheduler::TICK_INTERVAL_US <= i64::MAX
                    && prev.region == region) ==> final(state).db.tick_schedules@ == scheds.push(
                    crate::scheduler::spec_next_schedule(prev),
                ),
                None => true,
            }
        }),
        final(state).module_identity == old(state).module_identity,
{
    if sender != state.module_identity {
        return Err(TickError::Unauthorized);
    }
    let wi = state.registry.get_or_create_world(region);
    let mut raw = step_world(&mut state.registry.worlds[wi].engine);
    if raw.len() > MAX_COLLISION_EVENTS {
        raw.truncate(MAX_COLLISION_EVENTS);
    }
    let resolved = collect_events(&state.registry.worlds[wi], &raw);
    let ghost resolved_g = resolved@;
    let events = state.tracker.process_contacts(&resolved);
    let ghost events_g = events@;
    let ghost p3 = spec_process(old(state).tracker.entries@, resolved_g).1;
    let mut k: usize = 0;
    while k < events.len()
        invariant
            state.wf(),
            wi < state.registry.worlds@.len(),
            k <= events@.len(),
            events@ == events_g,
            state.db.tick_schedules == old(state).db.tick_schedules,
            state.module_identity == old(state).module_identity,
            forall|i: int|
                0 <= i < state.tracker.entries@.len() ==> exists|j: int|
                    0 <= j < p3.len() && (#[trigger] state.tracker.entries@[i]).key == p3[j].key
                        && state.tracker.entries@[i].tick_count == p3[j].tick_count,
        decreases events@.len() - k,
    {
        let ev = events[k];
        let ghost pre = state.tracker.entries@;
        handle_event(state, wi, ev, now);
        proof {
            assert forall|i: int|
                0 <= i < state.tracker.entries@.len() implies exists|j: int|
                0 <= j < p3.len() && (#[trigger] state.tracker.entries@[i]).key == p3[j].key
                    && state.tracker.entries@[i].tick_count == p3[j].tick_count by {
                let m = choose|m: int|
                    0 <= m < pre.len() && (#[trigger] state.tracker.entries@[i]).key == pre[m].key
                        && state.tracker.entries@[i].tick_count == pre[m].tick_count;
                let j = choose|j: int|
                    0 <= j < p3.len() && (#[trigger] pre[m]).key == p3[j].key && pre[m].tick_count
                        == p3[j].tick_count;
            }
        }
        k = k + 1;
    }
    apply_database_updates(state, wi);
    let _ = schedule_physics_tick(state, region, Some(scheduled_id), now);
    Ok(events)
}

} // verus!
