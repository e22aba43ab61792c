//! The persistent row store, at its interface: one table per logical
//! record kind (physics body, contact event, player buff, skill cooldown,
//! damage event, tick schedule), each with find-by-key, insert, update and
//! delete, and writes immediately visible to subsequent reads. Keys are
//! unique per table; every operation preserves that.

use vstd::prelude::*;

verus! {

/// The external record mirroring one simulated body: position, rotation
/// and velocities as IEEE-754 bit patterns, plus health, region, chunk
/// coordinates, the shape descriptor and the body role.
#[derive(Debug)]
pub struct PhysicsBodyRow {
    pub entity_id: u32,
    pub owner_id: u128,
    pub health: u32,
    pub region: u32,
    pub pos_x: u32,
    pub pos_y: u32,
    pub pos_z: u32,
    pub chunk_x: i32,
    pub chunk_y: i32,
    pub rot_i: u32,
    pub rot_j: u32,
    pub rot_k: u32,
    pub rot_w: u32,
    pub vel_x: u32,
    pub vel_y: u32,
    pub vel_z: u32,
    pub ang_vel_x: u32,
    pub ang_vel_y: u32,
    pub ang_vel_z: u32,
    pub collider_shape: String,
    pub body_type: u8,
}

/// A client-visible record of one ongoing contact between two entities.
#[derive(Clone, Copy, Debug, PartialEq, Eq, Structural)]
pub struct ContactEventRow {
    pub id: u64,
    pub entity_1: u32,
    pub entity_2: u32,
    pub started_at: i64,
}

/// One buff instance held by a player. The magnitude is in parts per
/// thousand of the buff's full effect.
#[derive(Clone, Copy, Debug, PartialEq, Eq, Structural)]
pub struct PlayerBuffRow {
    pub id: u64,
    pub player_id: u128,
    pub stacks: u8,
    pub buff_type: u8,
    pub magnitude: u32,
    pub expires_at: i64,
}

/// The cooldown record of one player and skill: when it was last used
/// and the base cooldown in milliseconds.
#[derive(Clone, Copy, Debug, PartialEq, Eq, Structural)]
pub struct SkillCooldownRow {
    pub id: u64,
    pub player_id: u128,
    pub skill_id: u8,
    pub last_used_at: i64,
    pub base_cooldown: u32,
}

/// A time-bounded, client-visible damage event; clients filter it by
/// expiry downstream, this core never purges it.
#[derive(Clone, Copy, Debug, PartialEq, Eq, Structural)]
pub struct DamageEventRow {
    pub event_id: u64,
    pub source_id: u128,
    pub target_id: u128,
    pub skill_id: u8,
    pub amount: u32,
    pub expire_at: i64,
    pub region: u32,
}

/// One scheduled run of a region's tick, at an absolute time in
/// microseconds.
#[derive(Clone, Copy, Debug, PartialEq, Eq, Structural)]
pub struct TickScheduleRow {
    pub scheduled_id: u64,
    pub scheduled_at: i64,
    pub region: u32,
}

/// There is a physics-body row with the given entity id.
pub open spec fn spec_has_body(s: Seq<PhysicsBodyRow>, entity_id: u32) -> bool {
    exists|i: int| 0 <= i < s.len() && s[i].entity_id == entity_id
}

/// There is a contact-event row with the given row id.
pub open spec fn spec_has_contact_event(s: Seq<ContactEventRow>, id: u64) -> bool {
    exists|i: int| 0 <= i < s.len() && s[i].id == id
}

/// There is a contact-event row relating the two entities, in order.
pub open spec fn spec_has_contact_pair(s: Seq<ContactEventRow>, e1: u32, e2: u32) -> bool {
    exists|i: int| 0 <= i < s.len() && s[i].entity_1 == e1 && s[i].entity_2 == e2
}

/// There is a contact-event row referencing the entity on either side.
pub open spec fn spec_contact_references(s: Seq<ContactEventRow>, entity: u32) -> bool {
    exists|i: int| 0 <= i < s.len() && (s[i].entity_1 == entity || s[i].entity_2 == entity)
}

/// There is a buff row with the given row id.
pub open spec fn spec_has_buff(s: Seq<PlayerBuffRow>, id: u64) -> bool {
    exists|i: int| 0 <= i < s.len() && s[i].id == id
}

/// There is a cooldown row for the given player and skill.
pub open spec fn spec_has_cooldown(s: Seq<SkillCooldownRow>, player: u128, skill: u8) -> bool {
    exists|i: int| 0 <= i < s.len() && s[i].player_id == player && s[i].skill_id == skill
}

/// There is a schedule row with the given scheduled id.
pub open spec fn spec_has_schedule(s: Seq<TickScheduleRow>, id: u64) -> bool {
    exists|i: int| 0 <= i < s.len() && s[i].scheduled_id == id
}


/// The body row of an entity id, if present; ids are unique, so the row
/// is determined.
pub open spec fn spec_body_row_of(s: Seq<PhysicsBodyRow>, entity_id: u32) -> Option<PhysicsBodyRow> {
    if spec_has_body(s, entity_id) {
        Some(s[choose|i: int| 0 <= i < s.len() && s[i].entity_id == entity_id])
    } else {
        None
    }
}

/// The cooldown row of a player and skill, if present; the pair keys the
/// table, so the row is determined.
pub open spec fn spec_cooldown_of(s: Seq<SkillCooldownRow>, player: u128, skill: u8) -> Option<
    SkillCooldownRow,
> {
    if spec_has_cooldown(s, player, skill) {
        Some(
            s[choose|i: int|
                0 <= i < s.len() && s[i].player_id == player && s[i].skill_id == skill],
        )
    } else {
        None
    }
}


/// The largest scheduled id among the schedule rows; zero for an empty
/// table.
pub open spec fn spec_max_schedule_id(s: Seq<TickScheduleRow>) -> u64
    decreases s.len(),
{
    if s.len() == 0 {
        0
    } else {
        let rest = spec_max_schedule_id(s.drop_last());
        if s.last().scheduled_id > rest {
            s.last().scheduled_id
        } else {
            rest
        }
    }
}

/// The schedule row with the given scheduled id, if present; ids are
/// unique, so the row is determined.
pub open spec fn spec_schedule_of(s: Seq<TickScheduleRow>, id: u64) -> Option<TickScheduleRow> {
    if spec_has_schedule(s, id) {
        Some(s[choose|i: int| 0 <= i < s.len() && s[i].scheduled_id == id])
    } else {
        None
    }
}

/// The persistent row store: one table per record kind.
pub struct GameDb {
    pub physics_bodies: Vec<PhysicsBodyRow>,
    pub contact_events: Vec<ContactEventRow>,
    pub player_buffs: Vec<PlayerBuffRow>,
    pub skill_cooldowns: Vec<SkillCooldownRow>,
    pub damage_events: Vec<DamageEventRow>,
    pub tick_schedules: Vec<TickScheduleRow>,
}

impl GameDb {
    /// Every table keys its rows uniquely: bodies by entity id, contact
    /// events and buffs by row id, cooldowns by player and skill,
    /// schedules by scheduled id.
    pub open spec fn wf(self) -> bool {
        (forall|i: int, j: int|
            0 <= i < j < self.physics_bodies@.len() ==> self.physics_bodies@[i].entity_id
                != self.physics_bodies@[j].entity_id) && (forall|i: int, j: int|
            0 <= i < j < self.contact_events@.len() ==> self.contact_events@[i].id
                != self.contact_events@[j].id) && (forall|i: int, j: int|
            0 <= i < j < self.player_buffs@.len() ==> self.player_buffs@[i].id
                != self.player_buffs@[j].id) && (forall|i: int, j: int|
            0 <= i < j < self.skill_cooldowns@.len() ==> !(self.skill_cooldowns@[i].player_id
                == self.skill_cooldowns@[j].player_id && self.skill_cooldowns@[i].skill_id
                == self.skill_cooldowns@[j].skill_id)) && (forall|i: int, j: int|
            0 <= i < j < self.tick_schedules@.len() ==> self.tick_schedules@[i].scheduled_id
                != self.tick_schedules@[j].scheduled_id)
    }

    /// An empty store.
    pub fn new() -> (r: GameDb)
        ensures
            r.wf(),
            r.physics_bodies@.len() == 0,
            r.contact_events@.len() == 0,
            r.player_buffs@.len() == 0,
            r.skill_cooldowns@.len() == 0,
            r.damage_events@.len() == 0,
            r.tick_schedules@.len() == 0,
    {
        GameDb {
            physics_bodies: Vec::new(),
            contact_events: Vec::new(),
            player_buffs: Vec::new(),
            skill_cooldowns: Vec::new(),
            damage_events: Vec::new(),
            tick_schedules: Vec::new(),
        }
    }

    /// Index of the body row with the given entity id, if present.
    pub fn body_index(&self, entity_id: u32) -> (r: Option<usize>)
        requires
            self.wf(),
        ensures
            match r {
                Some(i) => i < self.physics_bodies@.len() && self.physics_bodies@[
                    i as int
                ].entity_id == entity_id && spec_body_row_of(self.physics_bodies@, entity_id)
                    == Some(self.physics_bodies@[i as int]),
                None => !spec_has_body(self.physics_bodies@, entity_id),
            },
    {
        let mut i: usize = 0;
        while i < self.physics_bodies.len()
            invariant
                self.wf(),
                i <= self.physics_bodies@.len(),
                forall|j: int| 0 <= j < i ==> self.physics_bodies@[j].entity_id != entity_id,
            decreases self.physics_bodies@.len() - i,
        {
            if self.physics_bodies[i].entity_id == entity_id {
                proof {
                    assert(spec_has_body(self.physics_bodies@, entity_id));
                    let c = choose|c: int|
                        0 <= c < self.physics_bodies@.len() && self.physics_bodies@[c].entity_id
                            == entity_id;
                    if c < i {
                        assert(self.physics_bodies@[c].entity_id != entity_id);
                    }
                    assert(c == i);
                }
                return Some(i);
            }
            i = i + 1;
        }
        None
    }

    /// Insert a body row whose entity id is not yet present.
    pub fn insert_body(&mut self, row: PhysicsBodyRow)
        requires
            old(self).wf(),
            !spec_has_body(old(self).physics_bodies@, row.entity_id),
        ensures
            final(self).wf(),
            final(self).physics_bodies@ == old(self).physics_bodies@.push(row),
            final(self).contact_events == old(self).contact_events,
            final(self).player_buffs == old(self).player_buffs,
            final(self).skill_cooldowns == old(self).skill_cooldowns,
            final(self).damage_events == old(self).damage_events,
            final(self).tick_schedules == old(self).tick_schedules,
    {
        self.physics_bodies.push(row);
    }

    /// Delete the body row with the given entity id; unknown ids are a
    /// no-op. Every other row keeps its place.
    pub fn delete_body(&mut self, entity_id: u32)
        requires
            old(self).wf(),
        ensures
            final(self).wf(),
            !spec_has_body(final(self).physics_bodies@, entity_id),
            spec_has_body(old(self).physics_bodies@, entity_id) ==> exists|i: int|
                0 <= i < old(self).physics_bodies@.len() && old(self).physics_bodies@[i].entity_id
                    == entity_id && final(self).physics_bodies@ == old(self).physics_bodies@.remove(i),
            !spec_has_body(old(self).physics_bodies@, entity_id) ==> final(self).physics_bodies@ == old(
                self,
            ).physics_bodies@,
            final(self).contact_events == old(self).contact_events,
            final(self).player_buffs == old(self).player_buffs,
            final(self).skill_cooldowns == old(self).skill_cooldowns,
            final(self).damage_events == old(self).damage_events,
            final(self).tick_schedules == old(self).tick_schedules,
    {
        match self.body_index(entity_id) {
            Some(i) => {
                self.physics_bodies.remove(i);
                proof {
                    let s = old(self).physics_bodies@;
                    assert forall|j: int|
                        0 <= j < self.physics_bodies@.len() implies self.physics_bodies@[
                        j
                    ].entity_id != entity_id by {
                        if j < i {
                            assert(self.physics_bodies@[j] == s[j]);
                        } else {
                            assert(self.physics_bodies@[j] == s[j + 1]);
                        }
                    }
                }
            },
            None => {},
        }
    }

    /// Write back the current transform, chunk coordinates and health of
    /// the body row at the given index; every other field keeps its value.
    pub fn set_body_state_at(
        &mut self,
        i: usize,
        pos_x: u32,
        pos_y: u32,
        pos_z: u32,
        rot_i: u32,
        rot_j: u32,
        rot_k: u32,
        rot_w: u32,
        chunk_x: i32,
        chunk_y: i32,
        health: u32,
    )
        requires
            old(self).wf(),
            i < old(self).physics_bodies@.len(),
        ensures
            final(self).wf(),
            final(self).physics_bodies@ == old(self).physics_bodies@.update(
                i as int,
                (PhysicsBodyRow {
                    pos_x,
                    pos_y,
                    pos_z,
                    rot_i,
                    rot_j,
                    rot_k,
                    rot_w,
                    chunk_x,
                    chunk_y,
                    health,
                    ..old(self).physics_bodies@[i as int]
                }),
            ),
            final(self).contact_events == old(self).contact_events,
            final(self).player_buffs == old(self).player_buffs,
            final(self).skill_cooldowns == old(self).skill_cooldowns,
            final(self).damage_events == old(self).damage_events,
            final(self).tick_schedules == old(self).tick_schedules,
    {
        let slot = &mut self.physics_bodies[i];
        slot.pos_x = pos_x;
        slot.pos_y = pos_y;
        slot.pos_z = pos_z;
        slot.rot_i = rot_i;
        slot.rot_j = rot_j;
        slot.rot_k = rot_k;
        slot.rot_w = rot_w;
        slot.chunk_x = chunk_x;
        slot.chunk_y = chunk_y;
        slot.health = health;
        proof {
            assert forall|i2: int, j2: int|
                0 <= i2 < j2 < self.physics_bodies@.len() implies self.physics_bodies@[i2].entity_id
                != self.physics_bodies@[j2].entity_id by {
                assert(self.physics_bodies@[i2].entity_id == old(self).physics_bodies@[
                    i2
                ].entity_id);
                assert(self.physics_bodies@[j2].entity_id == old(self).physics_bodies@[
                    j2
                ].entity_id);
            }
        }
    }

    /// Index of the first contact-event row relating the two entities,
    /// in order, if one is present.
    pub fn contact_pair_index(&self, e1: u32, e2: u32) -> (r: Option<usize>)
        ensures
            match r {
                Some(i) => i < self.contact_events@.len() && self.contact_events@[i as int].entity_1
                    == e1 && self.contact_events@[i as int].entity_2 == e2,
                None => !spec_has_contact_pair(self.contact_events@, e1, e2),
            },
    {
        let mut i: usize = 0;
        while i < self.contact_events.len()
            invariant
                i <= self.contact_events@.len(),
                forall|j: int|
                    0 <= j < i ==> !(self.contact_events@[j].entity_1 == e1
                        && self.contact_events@[j].entity_2 == e2),
            decreases self.contact_events@.len() - i,
        {
            let row = self.contact_events[i];
            if row.entity_1 == e1 && row.entity_2 == e2 {
                return Some(i);
            }
            i = i + 1;
        }
        None
    }

    /// Insert a contact-event row whose row id is not yet present.
    pub fn insert_contact_event(&mut self, row: ContactEventRow)
        requires
            old(self).wf(),
            !spec_has_contact_event(old(self).contact_events@, row.id),
        ensures
            final(self).wf(),
            final(self).contact_events@ == old(self).contact_events@.push(row),
            final(self).physics_bodies == old(self).physics_bodies,
            final(self).player_buffs == old(self).player_buffs,
            final(self).skill_cooldowns == old(self).skill_cooldowns,
            final(self).damage_events == old(self).damage_events,
            final(self).tick_schedules == old(self).tick_schedules,
    {
        self.contact_events.push(row);
    }

    /// Delete the contact-event row at the given index.
    pub fn delete_contact_event_at(&mut self, i: usize)
        requires
            old(self).wf(),
            i < old(self).contact_events@.len(),
        ensures
            final(self).wf(),
            final(self).contact_events@ == old(self).contact_events@.remove(i as int),
            final(self).physics_bodies == old(self).physics_bodies,
            final(self).player_buffs == old(self).player_buffs,
            final(self).skill_cooldowns == old(self).skill_cooldowns,
            final(self).damage_events == old(self).damage_events,
            final(self).tick_schedules == old(self).tick_schedules,
    {
        self.contact_events.remove(i);
    }

    /// Delete every contact-event row that references the entity on
    /// either side; the other rows are kept, each exactly once.
    pub fn purge_contact_events_of(&mut self, entity: u32)
        requires
            old(self).wf(),
        ensures
            final(self).wf(),
            !spec_contact_references(final(self).contact_events@, entity),
            forall|k: int|
                0 <= k < final(self).contact_events@.len() ==> old(self).contact_events@.contains(
                    #[trigger] final(self).contact_events@[k],
                ),
            forall|j: int|
                0 <= j < old(self).contact_events@.len() && old(self).contact_events@[j].entity_1
                    != entity && old(self).contact_events@[j].entity_2 != entity
                    ==> final(self).contact_events@.contains(#[trigger] old(self).contact_events@[j]),
            !spec_contact_references(old(self).contact_events@, entity)
                ==> final(self).contact_events@ == old(self).contact_events@,
            final(self).physics_bodies == old(self).physics_bodies,
            final(self).player_buffs == old(self).player_buffs,
            final(self).skill_cooldowns == old(self).skill_cooldowns,
            final(self).damage_events == old(self).damage_events,
            final(self).tick_schedules == old(self).tick_schedules,
    {
        let mut any: bool = false;
        let mut i: usize = 0;
        while i < self.contact_events.len()
            invariant
                i <= self.contact_events@.len(),
                *self == *old(self),
                any == exists|j: int|
                    0 <= j < i && ((#[trigger] self.contact_events@[j]).entity_1 == entity
                        || self.contact_events@[j].entity_2 == entity),
            decreases self.contact_events@.len() - i,
        {
            let row = self.contact_events[i];
            if row.entity_1 == entity || row.entity_2 == entity {
                any = true;
            }
            i = i + 1;
        }
        if !any {
            return ;
        }
        let mut kept: Vec<ContactEventRow> = Vec::new();
        let mut i: usize = 0;
        while i < self.contact_events.len()
            invariant
                i <= self.contact_events@.len(),
                *self == *old(self),
                old(self).wf(),
                forall|k: int|
                    0 <= k < kept@.len() ==> (#[trigger] kept@[k]).entity_1 != entity && kept@[
                        k
                    ].entity_2 != entity,
                forall|k: int|
                    0 <= k < kept@.len() ==> exists|j: int|
                        0 <= j < i && self.contact_events@[j] == #[trigger] kept@[k],
                forall|k1: int, k2: int| 0 <= k1 < k2 < kept@.len() ==> kept@[k1].id != kept@[k2].id,
                forall|j: int|
                    0 <= j < i && self.contact_events@[j].entity_1 != entity
                        && self.contact_events@[j].entity_2 != entity ==> kept@.contains(
                        #[trigger] self.contact_events@[j],
                    ),
            decreases self.contact_events@.len() - i,
        {
            let row = self.contact_events[i];
            let ghost kept0 = kept@;
            if row.entity_1 != entity && row.entity_2 != entity {
                proof {
                    assert forall|k: int| 0 <= k < kept0.len() implies kept0[k].id != row.id by {
                        let j = choose|j: int|
                            0 <= j < i && self.contact_events@[j] == kept0[k];
                        assert(self.contact_events@[j].id != self.contact_events@[i as int].id);
                    }
                }
                kept.push(row);
                proof {
                    assert forall|j: int|
                        0 <= j < i + 1 && self.contact_events@[j].entity_1 != entity
                            && self.contact_events@[j].entity_2 != entity implies kept@.contains(
                        #[trigger] self.contact_events@[j],
                    ) by {
                        if j < i {
                            let m = choose|m: int| 0 <= m < kept0.len() && kept0[m] == self.contact_events@[j];
                            assert(kept@[m] == self.contact_events@[j]);
                        } else {
                            assert(kept@[kept@.len() - 1] == self.contact_events@[j]);
                        }
                    }
                }
            }
            i = i + 1;
        }
        proof {
            assert forall|k: int|
                0 <= k < kept@.len() implies old(self).contact_events@.contains(
                #[trigger] kept@[k],
            ) by {
                let j = choose|j: int|
                    0 <= j < self.contact_events@.len() && self.contact_events@[j] == kept@[k];
            }
        }
        self.contact_events = kept;
    }

    /// Index of the buff row with the given row id, if present.
    pub fn buff_index(&self, id: u64) -> (r: Option<usize>)
        ensures
            match r {
                Some(i) => i < self.player_buffs@.len() && self.player_buffs@[i as int].id == id,
                None => !spec_has_buff(self.player_buffs@, id),
            },
    {
        let mut i: usize = 0;
        while i < self.player_buffs.len()
            invariant
                i <= self.player_buffs@.len(),
                forall|j: int| 0 <= j < i ==> self.player_buffs@[j].id != id,
            decreases self.player_buffs@.len() - i,
        {
            if self.player_buffs[i].id == id {
                return Some(i);
            }
            i = i + 1;
        }
        None
    }

    /// Index of the first buff row of the given player and buff type, in
    /// order, if one is present.
    pub fn buff_of_player_type_index(&self, player: u128, buff_type: u8) -> (r: Option<usize>)
        ensures
            match r {
                Some(i) => i < self.player_buffs@.len() && self.player_buffs@[i as int].player_id
                    == player && self.player_buffs@[i as int].buff_type == buff_type,
                None => forall|j: int|
                    0 <= j < self.player_buffs@.len() ==> !(#[trigger] self.player_buffs@[j].player_id
                        == player && self.player_buffs@[j].buff_type == buff_type),
            },
    {
        let mut i: usize = 0;
        while i < self.player_buffs.len()
            invariant
                i <= self.player_buffs@.len(),
                forall|j: int|
                    0 <= j < i ==> !(#[trigger] self.player_buffs@[j].player_id == player
                        && self.player_buffs@[j].buff_type == buff_type),
            decreases self.player_buffs@.len() - i,
        {
            let row = self.player_buffs[i];
            if row.player_id == player && row.buff_type == buff_type {
                return Some(i);
            }
            i = i + 1;
        }
        None
    }

    /// Insert a buff row whose row id is not yet present.
    pub fn insert_buff(&mut self, row: PlayerBuffRow)
        requires
            old(self).wf(),
            !spec_has_buff(old(self).player_buffs@, row.id),
        ensures
            final(self).wf(),
            final(self).player_buffs@ == old(self).player_buffs@.push(row),
            final(self).physics_bodies == old(self).physics_bodies,
            final(self).contact_events == old(self).contact_events,
            final(self).skill_cooldowns == old(self).skill_cooldowns,
            final(self).damage_events == old(self).damage_events,
            final(self).tick_schedules == old(self).tick_schedules,
    {
        self.player_buffs.push(row);
    }

    /// Replace the buff row at the given index; the replacement keeps
    /// the row id.
    pub fn update_buff_at(&mut self, i: usize, row: PlayerBuffRow)
        requires
            old(self).wf(),
            i < old(self).player_buffs@.len(),
            row.id == old(self).player_buffs@[i as int].id,
        ensures
            final(self).wf(),
            final(self).player_buffs@ == old(self).player_buffs@.update(i as int, row),
            final(self).physics_bodies == old(self).physics_bodies,
            final(self).contact_events == old(self).contact_events,
            final(self).skill_cooldowns == old(self).skill_cooldowns,
            final(self).damage_events == old(self).damage_events,
            final(self).tick_schedules == old(self).tick_schedules,
    {
        let slot = &mut self.player_buffs[i];
        *slot = row;
    }

    /// Delete the buff row with the given row id; unknown ids are a
    /// no-op.
    pub fn delete_buff(&mut self, id: u64)
        requires
            old(self).wf(),
        ensures
            final(self).wf(),
            !spec_has_buff(final(self).player_buffs@, id),
            spec_has_buff(old(self).player_buffs@, id) ==> exists|i: int|
                0 <= i < old(self).player_buffs@.len() && old(self).player_buffs@[i].id == id
                    && final(self).player_buffs@ == old(self).player_buffs@.remove(i),
            !spec_has_buff(old(self).player_buffs@, id) ==> final(self).player_buffs@ == old(
                self,
            ).player_buffs@,
            final(self).physics_bodies == old(self).physics_bodies,
            final(self).contact_events == old(self).contact_events,
            final(self).skill_cooldowns == old(self).skill_cooldowns,
            final(self).damage_events == old(self).damage_events,
            final(self).tick_schedules == old(self).tick_schedules,
    {
        match self.buff_index(id) {
            Some(i) => {
                self.player_buffs.remove(i);
                proof {
                    let s = old(self).player_buffs@;
                    assert forall|j: int|
                        0 <= j < self.player_buffs@.len() implies self.player_buffs@[j].id
                        != id by {
                        if j < i {
                            assert(self.player_buffs@[j] == s[j]);
                        } else {
                            assert(self.player_buffs@[j] == s[j + 1]);
                        }
                    }
                }
            },
            None => {},
        }
    }

    /// Index of the cooldown row for the given player and skill, if
    /// present; there is at most one.
    pub fn cooldown_index(&self, player: u128, skill: u8) -> (r: Option<usize>)
        requires
            self.wf(),
        ensures
            match r {
                Some(i) => i < self.skill_cooldowns@.len() && self.skill_cooldowns@[
                    i as int
                ].player_id == player && self.skill_cooldowns@[i as int].skill_id == skill
                    && spec_cooldown_of(self.skill_cooldowns@, player, skill) == Some(
                    self.skill_cooldowns@[i as int],
                ),
                None => !spec_has_cooldown(self.skill_cooldowns@, player, skill),
            },
    {
        let mut i: usize = 0;
        while i < self.skill_cooldowns.len()
            invariant
                self.wf(),
                i <= self.skill_cooldowns@.len(),
                forall|j: int|
                    0 <= j < i ==> !(#[trigger] self.skill_cooldowns@[j].player_id == player
                        && self.skill_cooldowns@[j].skill_id == skill),
            decreases self.skill_cooldowns@.len() - i,
        {
            let row = self.skill_cooldowns[i];
            if row.player_id == player && row.skill_id == skill {
                proof {
                    assert(spec_has_cooldown(self.skill_cooldowns@, player, skill));
                    let c = choose|c: int|
                        0 <= c < self.skill_cooldowns@.len() && self.skill_cooldowns@[c].player_id
                            == player && self.skill_cooldowns@[c].skill_id == skill;
                    if c < i {
                        assert(!(self.skill_cooldowns@[c].player_id == player
                            && self.skill_cooldowns@[c].skill_id == skill));
                    }
                    assert(c == i);
                }
                return Some(i);
            }
            i = i + 1;
        }
        None
    }

    /// Insert a cooldown row for a player and skill not yet present.
    pub fn insert_cooldown(&mut self, row: SkillCooldownRow)
        requires
            old(self).wf(),
            !spec_has_cooldown(old(self).skill_cooldowns@, row.player_id, row.skill_id),
        ensures
            final(self).wf(),
            final(self).skill_cooldowns@ == old(self).skill_cooldowns@.push(row),
            final(self).physics_bodies == old(self).physics_bodies,
            final(self).contact_events == old(self).contact_events,
            final(self).player_buffs == old(self).player_buffs,
            final(self).damage_events == old(self).damage_events,
            final(self).tick_schedules == old(self).tick_schedules,
    {
        self.skill_cooldowns.push(row);
    }

    /// Replace the cooldown row at the given index; the replacement keeps
    /// the player and skill.
    pub fn update_cooldown_at(&mut self, i: usize, row: SkillCooldownRow)
        requires
            old(self).wf(),
            i < old(self).skill_cooldowns@.len(),
            row.player_id == old(self).skill_cooldowns@[i as int].player_id,
            row.skill_id == old(self).skill_cooldowns@[i as int].skill_id,
        ensures
            final(self).wf(),
            final(self).skill_cooldowns@ == old(self).skill_cooldowns@.update(i as int, row),
            final(self).physics_bodies == old(self).physics_bodies,
            final(self).contact_events == old(self).contact_events,
            final(self).player_buffs == old(self).player_buffs,
            final(self).damage_events == old(self).damage_events,
            final(self).tick_schedules == old(self).tick_schedules,
    {
        let slot = &mut self.skill_cooldowns[i];
        *slot = row;
    }

    /// Insert a damage-event row.
    pub fn insert_damage_event(&mut self, row: DamageEventRow)
        requires
            old(self).wf(),
        ensures
            final(self).wf(),
            final(self).damage_events@ == old(self).damage_events@.push(row),
            final(self).physics_bodies == old(self).physics_bodies,
            final(self).contact_events == old(self).contact_events,
            final(self).player_buffs == old(self).player_buffs,
            final(self).skill_cooldowns == old(self).skill_cooldowns,
            final(self).tick_schedules == old(self).tick_schedules,
    {
        self.damage_events.push(row);
    }

    /// Index of the schedule row with the given scheduled id, if present.
    pub fn schedule_index(&self, id: u64) -> (r: Option<usize>)
        requires
            self.wf(),
        ensures
            match r {
                Some(i) => i < self.tick_schedules@.len() && self.tick_schedules@[
                    i as int
                ].scheduled_id == id && spec_schedule_of(self.tick_schedules@, id) == Some(
                    self.tick_schedules@[i as int],
                ),
                None => !spec_has_schedule(self.tick_schedules@, id),
            },
    {
        let mut i: usize = 0;
        while i < self.tick_schedules.len()
            invariant
                self.wf(),
                i <= self.tick_schedules@.len(),
                forall|j: int| 0 <= j < i ==> self.tick_schedules@[j].scheduled_id != id,
            decreases self.tick_schedules@.len() - i,
        {
            if self.tick_schedules[i].scheduled_id == id {
                proof {
                    assert(spec_has_schedule(self.tick_schedules@, id));
                    let c = choose|c: int|
                        0 <= c < self.tick_schedules@.len() && self.tick_schedules@[c].scheduled_id
                            == id;
                    if c < i {
                        assert(self.tick_schedules@[c].scheduled_id != id);
                    }
                    assert(c == i);
                }
                return Some(i);
            }
            i = i + 1;
        }
        None
    }

    /// The largest scheduled id in the schedule table, or zero when the
    /// table is empty.
    pub fn max_schedule_id(&self) -> (r: u64)
        ensures
            r == spec_max_schedule_id(self.tick_schedules@),
            forall|j: int|
                0 <= j < self.tick_schedules@.len() ==> #[trigger] self.tick_schedules@[
                    j
                ].scheduled_id <= r,
            r != 0 ==> spec_has_schedule(self.tick_schedules@, r),
            self.tick_schedules@.len() == 0 ==> r == 0,
    {
        let mut r: u64 = 0;
        let mut i: usize = 0;
        while i < self.tick_schedules.len()
            invariant
                i <= self.tick_schedules@.len(),
                r == spec_max_schedule_id(self.tick_schedules@.take(i as int)),
                forall|j: int|
                    0 <= j < i ==> #[trigger] self.tick_schedules@[j].scheduled_id <= r,
                r != 0 ==> spec_has_schedule(self.tick_schedules@, r),
            decreases self.tick_schedules@.len() - i,
        {
            let id = self.tick_schedules[i].scheduled_id;
            proof {
                assert(self.tick_schedules@.take(i as int + 1).drop_last() =~= self.tick_schedules@.take(
                    i as int,
                ));
                assert(self.tick_schedules@.take(i as int + 1).last() == self.tick_schedules@[
                    i as int
                ]);
            }
            if id > r {
                r = id;
            }
            i = i + 1;
        }
        proof {
            assert(self.tick_schedules@.take(self.tick_schedules@.len() as int)
                =~= self.tick_schedules@);
        }
        r
    }

    /// Insert a schedule row whose scheduled id is not yet present.
    pub fn insert_schedule(&mut self, row: TickScheduleRow)
        requires
            old(self).wf(),
            !spec_has_schedule(old(self).tick_schedules@, row.scheduled_id),
        ensures
            final(self).wf(),
            final(self).tick_schedules@ == old(self).tick_schedules@.push(row),
            final(self).physics_bodies == old(self).physics_bodies,
            final(self).contact_events == old(self).contact_events,
            final(self).player_buffs == old(self).player_buffs,
            final(self).skill_cooldowns == old(self).skill_cooldowns,
            final(self).damage_events == old(self).damage_events,
    {
        self.tick_schedules.push(row);
    }
}

} // verus!
