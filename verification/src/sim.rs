//! The simulation context: all state one tick works on, passed explicitly
//! into each entry point (no ambient globals) — the world registry, the
//! active-contact table, the row store, and the monotonic id counters.

use vstd::prelude::*;
use crate::collision::{
    interaction_groups, is_valid_body_type, spec_valid_body_type, DYNAMIC_BODY_TYPE,
    PROJECTILE_BODY_TYPE, STATIC_BODY_TYPE,
};
use crate::contacts::ContactTracker;
use crate::engine::{
    attach_ball_collider, attach_cuboid_collider, chunk_coord_of, chunk_pair_from_bits,
    insert_dynamic_body, insert_fixed_body, insert_kinematic_body, remove_body, HandleBits,
    ONE_BITS, ZERO_BITS,
};
use crate::shape::{ColliderShape, ShapeParseError, is_sensor_string, spec_parse_shape, spec_trim};
use crate::store::{
    spec_has_body, spec_body_row_of, spec_contact_references, spec_has_buff, spec_has_cooldown,
    spec_cooldown_of, DamageEventRow, GameDb, PhysicsBodyRow, PlayerBuffRow, SkillCooldownRow,
};
use crate::skills::{
    apply_cd_reduction, is_ready, max_cd_magnitude, skill_kind, spec_is_ready,
    spec_max_cd_magnitude, spec_reduced_cooldown, spec_skill_kind, SkillKind,
    SKILL_BASE_COOLDOWN_MS, STACKING_BUFF_TYPE,
};
use crate::engine::{cast_ray, collider_parent_user_data, set_collider_groups, set_collider_position};
use crate::collision::{GROUP_SENSOR, SENSOR_FILTER};
use crate::world::{spec_index_has, BodyRecord, WorldRegistry};

verus! {

/// Why a spawn was rejected; a rejected spawn mutates nothing.
#[derive(Clone, Copy, Debug, PartialEq, Eq, Structural)]
pub enum SpawnError {
    /// The body role is not one of the closed set of known roles.
    InvalidBodyType,
    /// The shape descriptor does not match the grammar.
    ShapeParse(ShapeParseError),
}

/// All state of the simulation core, owned explicitly and passed into
/// each unit of work.
pub struct SimState {
    /// The identity of the module itself: the only caller the tick entry
    /// point accepts.
    pub module_identity: u128,
    pub registry: WorldRegistry,
    pub tracker: ContactTracker,
    pub db: GameDb,
    /// Monotonic entity-id counter; ids are never reused while the
    /// process runs.
    pub next_entity_id: u32,
    pub next_contact_event_id: u64,
    pub next_buff_id: u64,
    pub next_cooldown_id: u64,
    pub next_damage_event_id: u64,
    /// The pooled sensor collider registered for each sensor-type skill.
    pub sensor_skills: Vec<(u8, HandleBits)>,
}

impl SimState {
    /// The registry, tracker and store are well-formed, and every
    /// allocated id lies below its counter, so a counter value is always
    /// fresh.
    pub open spec fn wf(self) -> bool {
        self.registry.wf() && self.tracker.wf() && self.db.wf() && (forall|i: int|
            0 <= i < self.db.physics_bodies@.len() ==> (#[trigger] self.db.physics_bodies@[
                i
            ]).entity_id < self.next_entity_id) && (forall|w: int, i: int|
            0 <= w < self.registry.worlds@.len() && 0 <= i < self.registry.worlds@[
                w
            ].bodies_index@.len() ==> (#[trigger] self.registry.worlds@[w].bodies_index@[
                i
            ]).entity_id < self.next_entity_id) && (forall|i: int|
            0 <= i < self.db.contact_events@.len() ==> (#[trigger] self.db.contact_events@[i]).id
                < self.next_contact_event_id) && (forall|i: int|
            0 <= i < self.db.player_buffs@.len() ==> (#[trigger] self.db.player_buffs@[i]).id
                < self.next_buff_id)
    }

    /// A fresh simulation context for a host with the given module
    /// identity: empty registry, tracker and store, counters at one.
    pub fn new(module_identity: u128) -> (r: SimState)
        ensures
            r.wf(),
            r.module_identity == module_identity,
            r.registry.worlds@.len() == 0,
            r.tracker.entries@.len() == 0,
            r.db.physics_bodies@.len() == 0,
            r.db.contact_events@.len() == 0,
            r.db.player_buffs@.len() == 0,
            r.db.skill_cooldowns@.len() == 0,
            r.db.damage_events@.len() == 0,
            r.db.tick_schedules@.len() == 0,
            r.next_entity_id == 1,
    {
        SimState {
            module_identity,
            registry: WorldRegistry::new(),
            tracker: ContactTracker::new(),
            db: GameDb::new(),
            next_entity_id: 1,
            next_contact_event_id: 1,
            next_buff_id: 1,
            next_cooldown_id: 1,
            next_damage_event_id: 1,
            sensor_skills: Vec::new(),
        }
    }
}

/// Spawn a rigid body: validates the role against the closed role set,
/// parses the shape descriptor, allocates a fresh monotonic entity id,
/// builds the engine body with the role's motion policy (projectiles get
/// continuous collision detection, players are position-driven), attaches
/// the collider with the role's interaction groups, registers the forward
/// index entry, and inserts the mirroring store record with full health,
/// identity rotation and zero velocities. A rejected spawn mutates
/// nothing.
#[verifier::rlimit(60)]
pub fn spawn_rigid_body(
    state: &mut SimState,
    sender: u128,
    region: u32,
    x: u32,
    y: u32,
    z: u32,
    collider_shape: String,
    body_type: u8,
) -> (r: Result<u32, SpawnError>)
    requires
        old(state).wf(),
        old(state).next_entity_id < u32::MAX,
    ensures
        final(state).wf(),
        !spec_valid_body_type(body_type) <==> r == Err::<u32, SpawnError>(
            SpawnError::InvalidBodyType,
        ),
        r is Err ==> *final(state) == *old(state),
        (spec_valid_body_type(body_type) && spec_parse_shape(spec_trim(collider_shape@)) is Err)
            <==> (exists|e: ShapeParseError| r == Err::<u32, SpawnError>(SpawnError::ShapeParse(e))),
        (spec_valid_body_type(body_type) && spec_parse_shape(spec_trim(collider_shape@)) is Err)
            ==> r == Err::<u32, SpawnError>(
            SpawnError::ShapeParse(spec_parse_shape(spec_trim(collider_shape@))->Err_0),
        ),
        r is Ok ==> ({
            &&& r->Ok_0 == old(state).next_entity_id
            &&& final(state).next_entity_id == old(state).next_entity_id + 1
            &&& exists|wi: int, rec: BodyRecord|
                0 <= wi < final(state).registry.worlds@.len() && (#[trigger] final(state).registry.worlds@[wi]).region == region && (#[trigger] rec.entity_id) == old(
                    state,
                ).next_entity_id && rec.body_type == body_type && (old(state).registry.spec_has_region(
                    region,
                ) ==> final(state).registry.worlds@[wi].bodies_index@ == old(
                    state,
                ).registry.worlds@[wi].bodies_index@.push(rec)) && (!old(
                    state,
                ).registry.spec_has_region(region) ==> final(state).registry.worlds@[
                    wi
                ].bodies_index@ == seq![rec])
            &&& final(state).db.physics_bodies@ == old(state).db.physics_bodies@.push(
                (PhysicsBodyRow {
                    entity_id: old(state).next_entity_id,
                    owner_id: sender,
                    health: 100,
                    region,
                    pos_x: x,
                    pos_y: y,
                    pos_z: z,
                    chunk_x: chunk_coord_of(x),
                    chunk_y: chunk_coord_of(y),
                    rot_i: ZERO_BITS,
                    rot_j: ZERO_BITS,
                    rot_k: ZERO_BITS,
                    rot_w: ONE_BITS,
                    vel_x: ZERO_BITS,
                    vel_y: ZERO_BITS,
                    vel_z: ZERO_BITS,
                    ang_vel_x: ZERO_BITS,
                    ang_vel_y: ZERO_BITS,
                    ang_vel_z: ZERO_BITS,
                    collider_shape: collider_shape,
                    body_type,
                }),
            )
            &&& final(state).db.contact_events == old(state).db.contact_events
            &&& final(state).db.player_buffs == old(state).db.player_buffs
            &&& final(state).db.skill_cooldowns == old(state).db.skill_cooldowns
            &&& final(state).db.damage_events == old(state).db.damage_events
            &&& final(state).db.tick_schedules == old(state).db.tick_schedules
        }),
        r is Ok <==> (spec_valid_body_type(body_type) && spec_parse_shape(
            spec_trim(collider_shape@),
        ) is Ok),
        final(state).tracker == old(state).tracker,
        final(state).module_identity == old(state).module_identity,
{
    if !is_valid_body_type(body_type) {
        return Err(SpawnError::InvalidBodyType);
    }
    let shape = match ColliderShape::from_str(collider_shape.as_str()) {
        Ok(sh) => sh,
        Err(e) => {
            return Err(SpawnError::ShapeParse(e));
        },
    };
    let sensor = is_sensor_string(collider_shape.as_str());
    let groups = interaction_groups(body_type, sensor);

    let entity_id = state.next_entity_id;
    state.next_entity_id = state.next_entity_id + 1;

    let data = crate::codec::UserData {
        body_type,
        object_function: 0,
        flag: false,
        raw_id: entity_id,
        modifier: 0,
        hit_count: 0,
        block: false,
        tick_count: 0,
    };
    let packed = data.pack();

    let (chunk_x, chunk_y) = chunk_pair_from_bits(x, y);

    let wi = state.registry.get_or_create_world(region);
    let w = &mut state.registry.worlds[wi];
    let body = if body_type == STATIC_BODY_TYPE {
        insert_fixed_body(&mut w.engine, x, y, z, packed)
    } else if body_type == DYNAMIC_BODY_TYPE {
        insert_dynamic_body(&mut w.engine, x, y, z, false, packed)
    } else if body_type == PROJECTILE_BODY_TYPE {
        insert_dynamic_body(&mut w.engine, x, y, z, true, packed)
    } else {
        insert_kinematic_body(&mut w.engine, x, y, z, packed)
    };
    let collider = match shape {
        ColliderShape::Sphere { radius } => attach_ball_collider(
            &mut w.engine,
            body,
            radius,
            sensor,
            groups.membership,
            groups.filter,
            packed,
        ),
        ColliderShape::Cuboid { x: ex, y: ey, z: ez } => attach_cuboid_collider(
            &mut w.engine,
            body,
            ex,
            ey,
            ez,
            sensor,
            groups.membership,
            groups.filter,
            packed,
        ),
    };
    let rec = BodyRecord { entity_id, body, collider, body_type };
    let ghost grec = rec;
    proof {
        assert(!spec_index_has(w.bodies_index@, entity_id));
    }
    w.register_body(rec);
    w.set_collider_owner(collider, sender);

    let row = PhysicsBodyRow {
        entity_id,
        owner_id: sender,
        health: 100,
        region,
        pos_x: x,
        pos_y: y,
        pos_z: z,
        chunk_x,
        chunk_y,
        rot_i: ZERO_BITS,
        rot_j: ZERO_BITS,
        rot_k: ZERO_BITS,
        rot_w: ONE_BITS,
        vel_x: ZERO_BITS,
        vel_y: ZERO_BITS,
        vel_z: ZERO_BITS,
        ang_vel_x: ZERO_BITS,
        ang_vel_y: ZERO_BITS,
        ang_vel_z: ZERO_BITS,
        collider_shape,
        body_type,
    };
    let ghost grow = row;
    proof {
        assert(!spec_has_body(state.db.physics_bodies@, entity_id));
    }
    state.db.insert_body(row);
    proof {
        assert(grow == (PhysicsBodyRow {
            entity_id: old(state).next_entity_id,
            owner_id: sender,
            health: 100,
            region,
            pos_x: x,
            pos_y: y,
            pos_z: z,
            chunk_x: chunk_coord_of(x),
            chunk_y: chunk_coord_of(y),
            rot_i: ZERO_BITS,
            rot_j: ZERO_BITS,
            rot_k: ZERO_BITS,
            rot_w: ONE_BITS,
            vel_x: ZERO_BITS,
            vel_y: ZERO_BITS,
            vel_z: ZERO_BITS,
            ang_vel_x: ZERO_BITS,
            ang_vel_y: ZERO_BITS,
            ang_vel_z: ZERO_BITS,
            collider_shape: collider_shape,
            body_type,
        }));
        assert(state.db.physics_bodies@ == old(state).db.physics_bodies@.push(grow));
        let wi_i = wi as int;
        assert(0 <= wi_i < state.registry.worlds@.len());
        assert(state.registry.worlds@[wi_i].region == region);
        assert(grec.entity_id == old(state).next_entity_id);
        if old(state).registry.spec_has_region(region) {
            assert(state.registry.worlds@[wi_i].bodies_index@ == old(state).registry.worlds@[
                wi_i
            ].bodies_index@.push(grec));
        } else {
            assert(state.registry.worlds@[wi_i].bodies_index@ =~= seq![grec]);
        }
    }
    Ok(entity_id)
}

/// Despawn a rigid body: removes the engine body with all attached
/// colliders, the forward-index entry, the store record, every
/// contact-event record referencing the entity, and every active contact
/// referencing it (so a later id cannot resurrect a stale contact).
/// Despawning an id that is unknown everywhere is a no-op: the state is
/// left exactly as it was, and the call never fails.
pub fn despawn_rigid_body(state: &mut SimState, entity_id: u32, region: u32)
    requires
        old(state).wf(),
    ensures
        final(state).wf(),
        // the simulation handle, the store record and every reference are gone
        !spec_has_body(final(state).db.physics_bodies@, entity_id),
        !spec_contact_references(final(state).db.contact_events@, entity_id),
        final(state).registry.worlds@.len() == old(state).registry.worlds@.len(),
        forall|w: int|
            0 <= w < final(state).registry.worlds@.len() ==> (#[trigger] final(state).registry.worlds@[w]).region == old(state).registry.worlds@[w].region,
        forall|w: int|
            0 <= w < final(state).registry.worlds@.len() && old(state).registry.worlds@[w].region
                == region ==> !spec_index_has(
                (#[trigger] final(state).registry.worlds@[w]).bodies_index@,
                entity_id,
            ),
        forall|w: int|
            0 <= w < final(state).registry.worlds@.len() && old(state).registry.worlds@[w].region
                != region ==> (#[trigger] final(state).registry.worlds@[w]).bodies_index@ == old(
                state,
            ).registry.worlds@[w].bodies_index@,
        forall|i: int|
            0 <= i < final(state).tracker.entries@.len() ==> (#[trigger] final(state).tracker.entries@[i]).key.source_id != entity_id && final(state).tracker.entries@[
                i
            ].key.target_id != entity_id,
        // what does not reference the entity is kept
        spec_has_body(old(state).db.physics_bodies@, entity_id) ==> exists|i: int|
            0 <= i < old(state).db.physics_bodies@.len() && old(state).db.physics_bodies@[
                i
            ].entity_id == entity_id && final(state).db.physics_bodies@ == old(
                state,
            ).db.physics_bodies@.remove(i),
        !spec_has_body(old(state).db.physics_bodies@, entity_id) ==> final(state).db.physics_bodies@ == old(state).db.physics_bodies@,
        forall|k: int|
            0 <= k < final(state).db.contact_events@.len() ==> old(
                state,
            ).db.contact_events@.contains(#[trigger] final(state).db.contact_events@[k]),
        forall|j: int|
            0 <= j < old(state).db.contact_events@.len() && old(state).db.contact_events@[
                j
            ].entity_1 != entity_id && old(state).db.contact_events@[j].entity_2 != entity_id
                ==> final(state).db.contact_events@.contains(old(state).db.contact_events@[j]),
        // tables the operation never touches
        final(state).db.player_buffs == old(state).db.player_buffs,
        final(state).db.skill_cooldowns == old(state).db.skill_cooldowns,
        final(state).db.damage_events == old(state).db.damage_events,
        final(state).db.tick_schedules == old(state).db.tick_schedules,
        final(state).next_entity_id == old(state).next_entity_id,
        final(state).module_identity == old(state).module_identity,
        // despawning an id that is unknown everywhere is a no-op
        (!spec_has_body(old(state).db.physics_bodies@, entity_id) && !spec_contact_references(
            old(state).db.contact_events@,
            entity_id,
        ) && (forall|w: int|
            0 <= w < old(state).registry.worlds@.len() && (#[trigger] old(
                state,
            ).registry.worlds@[w]).region == region ==> !spec_index_has(
                old(state).registry.worlds@[w].bodies_index@,
                entity_id,
            )) && (forall|i: int|
            0 <= i < old(state).tracker.entries@.len() ==> (#[trigger] old(
                state,
            ).tracker.entries@[i]).key.source_id != entity_id && old(state).tracker.entries@[
                i
            ].key.target_id != entity_id)) ==> (final(state).db.physics_bodies@ == old(
            state,
        ).db.physics_bodies@ && final(state).db.contact_events@ == old(state).db.contact_events@
            && final(state).tracker.entries@ == old(state).tracker.entries@ && (forall|w: int|
            0 <= w < final(state).registry.worlds@.len() ==> (#[trigger] final(state).registry.worlds@[w]).bodies_index@ == old(state).registry.worlds@[w].bodies_index@)),
{
    match state.registry.world_index(region) {
        Some(wi) => {
            let w = &mut state.registry.worlds[wi];
            match w.record_index(entity_id) {
                Some(ri) => {
                    let body = w.bodies_index[ri].body;
                    remove_body(&mut w.engine, body);
                    w.unregister_body(entity_id);
                },
                None => {},
            }
        },
        None => {},
    }
    state.db.delete_body(entity_id);
    state.db.purge_contact_events_of(entity_id);
    state.tracker.purge_entity(entity_id);

}


/// Why a skill cast was rejected; a rejected cast mutates nothing.
#[derive(Clone, Copy, Debug, PartialEq, Eq, Structural)]
pub enum SkillError {
    /// The skill id is not in the catalog.
    UnknownSkill,
    /// The elapsed time since the last use is under the effective
    /// cooldown.
    OnCooldown,
}

/// Apply or stack a buff for a player until the given expiry, and return
/// the buff row id usable for later precise revocation. The one stacking
/// buff type increments the stack counter and refreshes the expiry of an
/// existing instance; every other type always inserts a new independent
/// instance. An id is drawn from the counter either way.
pub fn apply_buff(
    state: &mut SimState,
    player: u128,
    buff_type: u8,
    magnitude: u32,
    expires_at: i64,
) -> (buff_id: u64)
    requires
        old(state).wf(),
        old(state).next_buff_id < u64::MAX,
    ensures
        final(state).wf(),
        final(state).next_buff_id == old(state).next_buff_id + 1,
        ({
            let bs = old(state).db.player_buffs@;
            if buff_type == STACKING_BUFF_TYPE && (exists|i: int|
                0 <= i < bs.len() && (#[trigger] bs[i]).player_id == player && bs[i].buff_type
                    == buff_type) {
                exists|i: int|
                    0 <= i < bs.len() && (#[trigger] bs[i]).player_id == player && bs[i].buff_type
                        == buff_type && final(state).db.player_buffs@ == bs.update(
                        i,
                        (PlayerBuffRow {
                            stacks: if bs[i].stacks + 1 <= u8::MAX {
                                (bs[i].stacks + 1) as u8
                            } else {
                                u8::MAX
                            },
                            expires_at,
                            ..bs[i]
                        }),
                    ) && buff_id == bs[i].id
            } else {
                final(state).db.player_buffs@ == bs.push(
                    (PlayerBuffRow {
                        id: old(state).next_buff_id,
                        player_id: player,
                        stacks: 1,
                        buff_type,
                        magnitude,
                        expires_at,
                    }),
                ) && buff_id == old(state).next_buff_id
            }
        }),
        final(state).db.physics_bodies == old(state).db.physics_bodies,
        final(state).db.contact_events == old(state).db.contact_events,
        final(state).db.skill_cooldowns == old(state).db.skill_cooldowns,
        final(state).db.damage_events == old(state).db.damage_events,
        final(state).db.tick_schedules == old(state).db.tick_schedules,
        final(state).registry == old(state).registry,
        final(state).tracker == old(state).tracker,
        final(state).next_entity_id == old(state).next_entity_id,
        final(state).next_contact_event_id == old(state).next_contact_event_id,
        final(state).next_damage_event_id == old(state).next_damage_event_id,
        final(state).next_cooldown_id == old(state).next_cooldown_id,
        final(state).module_identity == old(state).module_identity,
{
    let new_id = state.next_buff_id;
    state.next_buff_id = state.next_buff_id + 1;
    if buff_type == STACKING_BUFF_TYPE {
        match state.db.buff_of_player_type_index(player, buff_type) {
            Some(i) => {
                let existing = state.db.player_buffs[i];
                let updated = PlayerBuffRow {
                    id: existing.id,
                    player_id: existing.player_id,
                    stacks: existing.stacks.saturating_add(1),
                    buff_type: existing.buff_type,
                    magnitude: existing.magnitude,
                    expires_at,
                };
                state.db.update_buff_at(i, updated);
                return existing.id;
            },
            None => {},
        }
    }
    let row = PlayerBuffRow {
        id: new_id,
        player_id: player,
        stacks: 1,
        buff_type,
        magnitude,
        expires_at,
    };
    proof {
        assert(!spec_has_buff(state.db.player_buffs@, new_id));
    }
    state.db.insert_buff(row);
    new_id
}

/// Apply damage in two phases: accumulate it into the region world's
/// pending-damage map so repeated same-tick hits coalesce into one store
/// write, and, when the target's store record exists, emit a
/// client-visible damage event that expires one second later.
pub fn apply_damage(
    state: &mut SimState,
    wi: usize,
    source: u128,
    skill_id: u8,
    target: u32,
    amount: u32,
    now: i64,
)
    requires
        old(state).wf(),
        wi < old(state).registry.worlds@.len(),
        old(state).next_damage_event_id < u64::MAX,
    ensures
        final(state).wf(),
        final(state).registry.worlds@.len() == old(state).registry.worlds@.len(),
        forall|w: int|
            0 <= w < final(state).registry.worlds@.len() && w != wi ==> final(state).registry.worlds@[w] == old(state).registry.worlds@[w],
        ({
            let w0 = old(state).registry.worlds@[wi as int];
            let w1 = final(state).registry.worlds@[wi as int];
            crate::world::spec_pending_damage_of(w1.pending_damage@, target)
                == if crate::world::spec_pending_damage_of(w0.pending_damage@, target) + amount
                <= u32::MAX {
                crate::world::spec_pending_damage_of(w0.pending_damage@, target) + amount
            } else {
                u32::MAX as int
            } && (forall|e2: u32|
                e2 != target ==> crate::world::spec_pending_damage_of(w1.pending_damage@, e2)
                    == crate::world::spec_pending_damage_of(w0.pending_damage@, e2))
                && w1.bodies_index == w0.bodies_index && w1.last_transforms == w0.last_transforms
                && w1.collider_hits == w0.collider_hits && w1.region == w0.region && w1.engine
                == w0.engine
        }),
        spec_has_body(old(state).db.physics_bodies@, target) ==> final(state).db.damage_events@
            == old(state).db.damage_events@.push(
            (DamageEventRow {
                event_id: old(state).next_damage_event_id,
                source_id: source,
                target_id: spec_body_row_of(old(state).db.physics_bodies@, target)->Some_0.owner_id,
                skill_id,
                amount,
                expire_at: if now + 1_000_000 <= i64::MAX {
                    (now + 1_000_000) as i64
                } else {
                    i64::MAX
                },
                region: spec_body_row_of(old(state).db.physics_bodies@, target)->Some_0.region,
            }),
        ) && final(state).next_damage_event_id == old(state).next_damage_event_id + 1,
        !spec_has_body(old(state).db.physics_bodies@, target) ==> final(state).db.damage_events
            == old(state).db.damage_events && final(state).next_damage_event_id == old(
            state,
        ).next_damage_event_id,
        final(state).db.physics_bodies == old(state).db.physics_bodies,
        final(state).db.contact_events == old(state).db.contact_events,
        final(state).db.player_buffs == old(state).db.player_buffs,
        final(state).db.skill_cooldowns == old(state).db.skill_cooldowns,
        final(state).db.tick_schedules == old(state).db.tick_schedules,
        final(state).tracker == old(state).tracker,
        final(state).next_entity_id == old(state).next_entity_id,
        final(state).next_contact_event_id == old(state).next_contact_event_id,
        final(state).next_buff_id == old(state).next_buff_id,
        final(state).next_cooldown_id == old(state).next_cooldown_id,
        final(state).module_identity == old(state).module_identity,
{
    let w = &mut state.registry.worlds[wi];
    w.add_pending_damage(target, amount);
    match state.db.body_index(target) {
        Some(bi) => {
            let owner = state.db.physics_bodies[bi].owner_id;
            let region = state.db.physics_bodies[bi].region;
            let expire_at: i64 = if now <= i64::MAX - 1_000_000 {
                now + 1_000_000
            } else {
                i64::MAX
            };
            let ev = DamageEventRow {
                event_id: state.next_damage_event_id,
                source_id: source,
                target_id: owner,
                skill_id,
                amount,
                expire_at,
                region,
            };
            state.next_damage_event_id = state.next_damage_event_id + 1;
            state.db.insert_damage_event(ev);
        },
        None => {},
    }
}


/// The last-use time that governs a cast: the caster's cooldown record,
/// or, when none exists, a time backdated by the base cooldown so a
/// first use is never blocked.
pub open spec fn spec_governing_last_used(
    s: Seq<SkillCooldownRow>,
    player: u128,
    skill: u8,
    now: i64,
) -> int {
    match spec_cooldown_of(s, player, skill) {
        Some(c) => c.last_used_at as int,
        None => now - 1_000_000,
    }
}

/// The base cooldown that governs a cast: the record's stored base, or
/// the catalog base when no record exists.
pub open spec fn spec_governing_base(s: Seq<SkillCooldownRow>, player: u128, skill: u8) -> u32 {
    match spec_cooldown_of(s, player, skill) {
        Some(c) => c.base_cooldown,
        None => SKILL_BASE_COOLDOWN_MS,
    }
}

/// Reposition and reactivate the pooled sensor collider of a sensor-type
/// skill at the cast origin, tagging it with the caster for attribution.
/// Only engine state and collider ownership change; every table, index
/// and counter is left alone.
fn sensor_effect(state: &mut SimState, skill_id: u8, sender: u128, x: u32, y: u32, z: u32)
    requires
        old(state).wf(),
    ensures
        final(state).wf(),
        final(state).db == old(state).db,
        final(state).tracker == old(state).tracker,
        final(state).registry.worlds@.len() == old(state).registry.worlds@.len(),
        forall|w: int|
            0 <= w < final(state).registry.worlds@.len() ==> (#[trigger] final(state).registry.worlds@[w]).region == old(state).registry.worlds@[w].region && final(state).registry.worlds@[w].bodies_index == old(state).registry.worlds@[w].bodies_index
                && final(state).registry.worlds@[w].last_transforms == old(
                state,
            ).registry.worlds@[w].last_transforms && final(state).registry.worlds@[
                w
            ].pending_damage == old(state).registry.worlds@[w].pending_damage && final(state).registry.worlds@[w].collider_hits == old(state).registry.worlds@[w].collider_hits,
        final(state).next_entity_id == old(state).next_entity_id,
        final(state).next_contact_event_id == old(state).next_contact_event_id,
        final(state).next_buff_id == old(state).next_buff_id,
        final(state).next_damage_event_id == old(state).next_damage_event_id,
        final(state).next_cooldown_id == old(state).next_cooldown_id,
        final(state).module_identity == old(state).module_identity,
{
    let mut hi: usize = 0;
    let mut handle: Option<crate::engine::HandleBits> = None;
    while hi < state.sensor_skills.len()
        invariant
            hi <= state.sensor_skills@.len(),
            *state == *old(state),
        decreases state.sensor_skills@.len() - hi,
    {
        let (sid, h) = state.sensor_skills[hi];
        if sid == skill_id && handle.is_none() {
            handle = Some(h);
        }
        hi = hi + 1;
    }
    match handle {
        Some(h) => {
            let mut wi: usize = 0;
            while wi < state.registry.worlds.len()
                invariant
                    old(state).wf(),
                    state.wf(),
                    wi <= state.registry.worlds@.len(),
                    state.db == old(state).db,
                    state.tracker == old(state).tracker,
                    state.registry.worlds@.len() == old(state).registry.worlds@.len(),
                    forall|w: int|
                        0 <= w < state.registry.worlds@.len() ==> (#[trigger] state.registry.worlds@[
                            w
                        ]).region == old(state).registry.worlds@[w].region
                            && state.registry.worlds@[w].bodies_index == old(
                            state,
                        ).registry.worlds@[w].bodies_index && state.registry.worlds@[
                            w
                        ].last_transforms == old(state).registry.worlds@[w].last_transforms
                            && state.registry.worlds@[w].pending_damage == old(
                            state,
                        ).registry.worlds@[w].pending_damage && state.registry.worlds@[
                            w
                        ].collider_hits == old(state).registry.worlds@[w].collider_hits,
                    state.next_entity_id == old(state).next_entity_id,
                    state.next_contact_event_id == old(state).next_contact_event_id,
                    state.next_buff_id == old(state).next_buff_id,
                    state.next_damage_event_id == old(state).next_damage_event_id,
                    state.next_cooldown_id == old(state).next_cooldown_id,
                    state.module_identity == old(state).module_identity,
                decreases state.registry.worlds@.len() - wi,
            {
                let w = &mut state.registry.worlds[wi];
                if set_collider_position(&mut w.engine, h, x, y, z) {
                    set_collider_groups(&mut w.engine, h, GROUP_SENSOR, SENSOR_FILTER);
                    w.set_collider_owner(h, sender);
                }
                wi = wi + 1;
            }
        },
        None => {},
    }
}

/// Cast a ray through each region world and apply one unit of damage to
/// the first entity hit in that world, attributed to the caster. Only
/// pending damage, damage events and engine state can change.
fn ray_effect(
    state: &mut SimState,
    sender: u128,
    skill_id: u8,
    ox: u32,
    oy: u32,
    oz: u32,
    dx: u32,
    dy: u32,
    dz: u32,
    now: i64,
)
    requires
        old(state).wf(),
        old(state).next_damage_event_id + old(state).registry.worlds@.len() < u64::MAX,
    ensures
        final(state).wf(),
        final(state).db.physics_bodies == old(state).db.physics_bodies,
        final(state).db.contact_events == old(state).db.contact_events,
        final(state).db.player_buffs == old(state).db.player_buffs,
        final(state).db.skill_cooldowns == old(state).db.skill_cooldowns,
        final(state).db.tick_schedules == old(state).db.tick_schedules,
        final(state).db.damage_events@.len() >= old(state).db.damage_events@.len(),
        forall|j: int|
            0 <= j < old(state).db.damage_events@.len() ==> final(state).db.damage_events@[j]
                == old(state).db.damage_events@[j],
        final(state).tracker == old(state).tracker,
        final(state).registry.worlds@.len() == old(state).registry.worlds@.len(),
        forall|w: int|
            0 <= w < final(state).registry.worlds@.len() ==> (#[trigger] final(state).registry.worlds@[w]).region == old(state).registry.worlds@[w].region && final(state).registry.worlds@[w].bodies_index == old(state).registry.worlds@[w].bodies_index
                && final(state).registry.worlds@[w].last_transforms == old(
                state,
            ).registry.worlds@[w].last_transforms && final(state).registry.worlds@[
                w
            ].collider_hits == old(state).registry.worlds@[w].collider_hits,
        final(state).next_entity_id == old(state).next_entity_id,
        final(state).next_contact_event_id == old(state).next_contact_event_id,
        final(state).next_buff_id == old(state).next_buff_id,
        final(state).next_cooldown_id == old(state).next_cooldown_id,
        final(state).next_damage_event_id <= old(state).next_damage_event_id + old(
            state,
        ).registry.worlds@.len(),
        final(state).module_identity == old(state).module_identity,
{
    let mut wi: usize = 0;
    while wi < state.registry.worlds.len()
        invariant
            old(state).wf(),
            state.wf(),
            wi <= state.registry.worlds@.len(),
            state.next_damage_event_id <= old(state).next_damage_event_id + wi,
            old(state).next_damage_event_id + old(state).registry.worlds@.len() < u64::MAX,
            state.db.physics_bodies == old(state).db.physics_bodies,
            state.db.contact_events == old(state).db.contact_events,
            state.db.player_buffs == old(state).db.player_buffs,
            state.db.skill_cooldowns == old(state).db.skill_cooldowns,
            state.db.tick_schedules == old(state).db.tick_schedules,
            state.db.damage_events@.len() >= old(state).db.damage_events@.len(),
            forall|j: int|
                0 <= j < old(state).db.damage_events@.len() ==> state.db.damage_events@[j] == old(
                    state,
                ).db.damage_events@[j],
            state.tracker == old(state).tracker,
            state.registry.worlds@.len() == old(state).registry.worlds@.len(),
            forall|w: int|
                0 <= w < state.registry.worlds@.len() ==> (#[trigger] state.registry.worlds@[
                    w
                ]).region == old(state).registry.worlds@[w].region && state.registry.worlds@[
                    w
                ].bodies_index == old(state).registry.worlds@[w].bodies_index
                    && state.registry.worlds@[w].last_transforms == old(state).registry.worlds@[
                    w
                ].last_transforms && state.registry.worlds@[w].collider_hits == old(
                    state,
                ).registry.worlds@[w].collider_hits,
            state.next_entity_id == old(state).next_entity_id,
            state.next_contact_event_id == old(state).next_contact_event_id,
            state.next_buff_id == old(state).next_buff_id,
            state.next_cooldown_id == old(state).next_cooldown_id,
            state.module_identity == old(state).module_identity,
        decreases state.registry.worlds@.len() - wi,
    {
        let hit = cast_ray(&state.registry.worlds[wi].engine, ox, oy, oz, dx, dy, dz);
        match hit {
            Some(ch) => {
                match collider_parent_user_data(&state.registry.worlds[wi].engine, ch) {
                    Some(ud) => {
                        let target = crate::codec::get_raw_id(ud);
                        apply_damage(state, wi, sender, skill_id, target, 1, now);
                    },
                    None => {},
                }
            },
            None => {},
        }
        wi = wi + 1;
    }
}

/// Resolve a skill cast: look the skill up in the catalog, fold the
/// caster's strongest unexpired cooldown-reduction buff into the
/// governing base cooldown, reject the cast while the effective cooldown
/// has not elapsed, record the use, and dispatch the skill's effect. A
/// rejected cast mutates nothing.
pub fn use_skill(
    state: &mut SimState,
    sender: u128,
    skill_id: u8,
    now: i64,
    ox: u32,
    oy: u32,
    oz: u32,
    dx: u32,
    dy: u32,
    dz: u32,
) -> (r: Result<(), SkillError>)
    requires
        old(state).wf(),
        now >= 0,
        old(state).next_damage_event_id + old(state).registry.worlds@.len() < u64::MAX,
        old(state).next_cooldown_id < u64::MAX,
    ensures
        final(state).wf(),
        (spec_skill_kind(skill_id) is None) <==> r == Err::<(), SkillError>(
            SkillError::UnknownSkill,
        ),
        ({
            let cds = old(state).db.skill_cooldowns@;
            let last = spec_governing_last_used(cds, sender, skill_id, now);
            let eff = spec_reduced_cooldown(
                spec_governing_base(cds, sender, skill_id),
                spec_max_cd_magnitude(old(state).db.player_buffs@, sender, now),
            );
            &&& (spec_skill_kind(skill_id) is Some ==> (r == Err::<(), SkillError>(
                SkillError::OnCooldown,
            ) <==> !spec_is_ready(last as i64, eff, now)))
            &&& (r is Ok <==> (spec_skill_kind(skill_id) is Some && spec_is_ready(
                last as i64,
                eff,
                now,
            )))
            &&& (r is Err ==> *final(state) == *old(state))
            &&& (r is Ok ==> ({
                &&& spec_has_cooldown(cds, sender, skill_id) ==> exists|i: int|
                    0 <= i < cds.len() && (#[trigger] cds[i]).player_id == sender && cds[
                        i
                    ].skill_id == skill_id && final(state).db.skill_cooldowns@ == cds.update(
                        i,
                        (SkillCooldownRow { last_used_at: now, ..cds[i] }),
                    ) && final(state).next_cooldown_id == old(state).next_cooldown_id
                &&& !spec_has_cooldown(cds, sender, skill_id) ==> final(state).db.skill_cooldowns@ == cds.push(
                    (SkillCooldownRow {
                        id: old(state).next_cooldown_id,
                        player_id: sender,
                        skill_id,
                        last_used_at: now,
                        base_cooldown: SKILL_BASE_COOLDOWN_MS,
                    }),
                ) && final(state).next_cooldown_id == old(state).next_cooldown_id + 1
                &&& final(state).db.physics_bodies == old(state).db.physics_bodies
                &&& final(state).db.contact_events == old(state).db.contact_events
                &&& final(state).db.player_buffs == old(state).db.player_buffs
                &&& final(state).db.tick_schedules == old(state).db.tick_schedules
                &&& final(state).tracker == old(state).tracker
                &&& final(state).db.damage_events@.len() >= old(state).db.damage_events@.len()
                &&& forall|j: int|
                    0 <= j < old(state).db.damage_events@.len() ==> final(state).db.damage_events@[j] == old(state).db.damage_events@[j]
                &&& final(state).registry.worlds@.len() == old(state).registry.worlds@.len()
                &&& forall|w: int|
                    0 <= w < final(state).registry.worlds@.len() ==> (#[trigger] final(state).registry.worlds@[w]).region == old(state).registry.worlds@[w].region
                        && final(state).registry.worlds@[w].bodies_index == old(
                        state,
                    ).registry.worlds@[w].bodies_index
                &&& final(state).next_entity_id == old(state).next_entity_id
                &&& final(state).next_contact_event_id == old(state).next_contact_event_id
                &&& final(state).next_buff_id == old(state).next_buff_id
                &&& final(state).next_damage_event_id <= old(state).next_damage_event_id + old(
                    state,
                ).registry.worlds@.len()
            }))
        }),
        final(state).module_identity == old(state).module_identity,
{
    let kind = match skill_kind(skill_id) {
        Some(k) => k,
        None => {
            return Err(SkillError::UnknownSkill);
        },
    };
    let cd_idx = state.db.cooldown_index(sender, skill_id);
    let ghost gidx = cd_idx;
    let (last_used, base): (i64, u32) = match cd_idx {
        Some(i) => (
            state.db.skill_cooldowns[i].last_used_at,
            state.db.skill_cooldowns[i].base_cooldown,
        ),
        None => (now - 1_000_000, SKILL_BASE_COOLDOWN_MS),
    };
    let mag = max_cd_magnitude(&state.db.player_buffs, sender, now);
    let eff = apply_cd_reduction(base, mag);
    if !is_ready(last_used, eff, now) {
        return Err(SkillError::OnCooldown);
    }
    match cd_idx {
        Some(i) => {
            let old_row = state.db.skill_cooldowns[i];
            let updated = SkillCooldownRow {
                id: old_row.id,
                player_id: old_row.player_id,
                skill_id: old_row.skill_id,
                last_used_at: now,
                base_cooldown: old_row.base_cooldown,
            };
            state.db.update_cooldown_at(i, updated);
        },
        None => {
            let row = SkillCooldownRow {
                id: state.next_cooldown_id,
                player_id: sender,
                skill_id,
                last_used_at: now,
                base_cooldown: SKILL_BASE_COOLDOWN_MS,
            };
            state.next_cooldown_id = state.next_cooldown_id + 1;
            state.db.insert_cooldown(row);
        },
    }
    match kind {
        SkillKind::Sensor => {
            sensor_effect(state, skill_id, sender, ox, oy, oz);
        },
        SkillKind::Ray => {
            ray_effect(state, sender, skill_id, ox, oy, oz, dx, dy, dz, now);
        },
    }
    proof {
        let cds = old(state).db.skill_cooldowns@;
        match gidx {
            Some(i) => {
                assert(cds[i as int].player_id == sender && cds[i as int].skill_id == skill_id);
                assert(state.db.skill_cooldowns@ == cds.update(
                    i as int,
                    (SkillCooldownRow { last_used_at: now, ..cds[i as int] }),
                ));
            },
            None => {
                assert(state.db.skill_cooldowns@ == cds.push(
                    (SkillCooldownRow {
                        id: old(state).next_cooldown_id,
                        player_id: sender,
                        skill_id,
                        last_used_at: now,
                        base_cooldown: SKILL_BASE_COOLDOWN_MS,
                    }),
                ));
            },
        }
    }
    Ok(())
}

/// Register the pooled sensor collider that a sensor-type skill
/// repositions on activation.
pub fn register_sensor_skill(state: &mut SimState, skill_id: u8, handle: crate::engine::HandleBits)
    requires
        old(state).wf(),
    ensures
        final(state).wf(),
        final(state).sensor_skills@ == old(state).sensor_skills@.push((skill_id, handle)),
        final(state).db == old(state).db,
        final(state).tracker == old(state).tracker,
        final(state).registry == old(state).registry,
        final(state).next_entity_id == old(state).next_entity_id,
        final(state).next_contact_event_id == old(state).next_contact_event_id,
        final(state).next_buff_id == old(state).next_buff_id,
        final(state).next_damage_event_id == old(state).next_damage_event_id,
        final(state).module_identity == old(state).module_identity,
{
    state.sensor_skills.push((skill_id, handle));
}

} // verus!
