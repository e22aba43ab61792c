//! The self-rescheduling tick: each run inserts the next schedule row at
//! the previous schedule's timestamp plus the fixed interval — never at
//! wall-clock now plus the interval — so execution latency cannot
//! accumulate into drift.

use vstd::prelude::*;
use crate::sim::SimState;
use crate::store::{spec_has_schedule, spec_max_schedule_id, spec_schedule_of, TickScheduleRow};

verus! {

/// The fixed tick interval in microseconds: one hundred milliseconds.
pub const TICK_INTERVAL_US: i64 = 100_000;

/// Why a reschedule failed; a failed reschedule is logged by the caller
/// and never crashes the tick.
#[derive(Clone, Copy, Debug, PartialEq, Eq, Structural)]
pub enum ScheduleError {
    /// The next scheduled id is already present in the schedule table.
    DuplicateId,
    /// The id counter or the timestamp cannot advance further.
    Overflow,
}

/// The schedule row that follows a given row: the next id, and the next
/// time exactly one interval after the previous scheduled time.
pub open spec fn spec_next_schedule(prev: TickScheduleRow) -> TickScheduleRow {
    TickScheduleRow {
        scheduled_id: (prev.scheduled_id + 1) as u64,
        scheduled_at: (prev.scheduled_at + TICK_INTERVAL_US) as i64,
        region: prev.region,
    }
}

/// The schedule row reached after n self-reschedules from a starting row.
pub open spec fn spec_tick_chain(row0: TickScheduleRow, n: nat) -> TickScheduleRow
    decreases n,
{
    if n == 0 {
        row0
    } else {
        spec_next_schedule(spec_tick_chain(row0, (n - 1) as nat))
    }
}

/// Reschedule drift bound: after n self-reschedules from a starting row,
/// the scheduled time is exactly the starting time plus n whole
/// intervals — whatever the actual processing latency of each tick was —
/// and the scheduled id has advanced by exactly n.
pub proof fn lemma_reschedule_drift(row0: TickScheduleRow, n: nat)
    requires
        row0.scheduled_at + n * TICK_INTERVAL_US <= i64::MAX,
        row0.scheduled_id + n <= u64::MAX,
    ensures
        spec_tick_chain(row0, n).scheduled_at == row0.scheduled_at + n * TICK_INTERVAL_US,
        spec_tick_chain(row0, n).scheduled_id == row0.scheduled_id + n,
        spec_tick_chain(row0, n).region == row0.region,
    decreases n,
{
    if n > 0 {
        assert((n - 1) * TICK_INTERVAL_US == n * TICK_INTERVAL_US - TICK_INTERVAL_US)
            by (nonlinear_arith);
        lemma_reschedule_drift(row0, (n - 1) as nat);
    }
}

/// Schedule the next run of a region's tick. With a previous schedule id
/// the new row follows that schedule: its id is the previous id plus one
/// and its time is the previous scheduled time plus the fixed interval
/// (falling back to now plus one interval if the previous row is gone);
/// without one, the new row gets an id above every existing schedule and
/// runs one interval from now. It fails exactly when the id or time
/// cannot advance or the next id is already taken; a failure changes
/// nothing.
pub fn schedule_physics_tick(
    state: &mut SimState,
    region: u32,
    last_id: Option<u64>,
    now: i64,
) -> (r: Result<(), ScheduleError>)
    requires
        old(state).wf(),
        now >= 0,
    ensures
        final(state).wf(),
        final(state).db.physics_bodies == old(state).db.physics_bodies,
        final(state).db.contact_events == old(state).db.contact_events,
        final(state).db.player_buffs == old(state).db.player_buffs,
        final(state).db.skill_cooldowns == old(state).db.skill_cooldowns,
        final(state).db.damage_events == old(state).db.damage_events,
        final(state).registry == old(state).registry,
        final(state).tracker == old(state).tracker,
        final(state).next_entity_id == old(state).next_entity_id,
        final(state).next_contact_event_id == old(state).next_contact_event_id,
        final(state).next_buff_id == old(state).next_buff_id,
        final(state).next_cooldown_id == old(state).next_cooldown_id,
        final(state).next_damage_event_id == old(state).next_damage_event_id,
        final(state).module_identity == old(state).module_identity,
        r is Err ==> final(state).db.tick_schedules == old(state).db.tick_schedules,
        ({
            let scheds = old(state).db.tick_schedules@;
            match last_id {
                Some(id) => {
                    &&& (r is Ok <==> id < u64::MAX && !spec_has_schedule(scheds, (id + 1) as u64)
                        && (match spec_schedule_of(scheds, id) {
                        Some(prev) => prev.scheduled_at + TICK_INTERVAL_US <= i64::MAX,
                        None => now + TICK_INTERVAL_US <= i64::MAX,
                    }))
                    &&& (r is Ok ==> (match spec_schedule_of(scheds, id) {
                        Some(prev) => final(state).db.tick_schedules@ == scheds.push(
                            (TickScheduleRow {
                                scheduled_id: (id + 1) as u64,
                                scheduled_at: (prev.scheduled_at + TICK_INTERVAL_US) as i64,
                                region,
                            }),
                        ) && (prev.region == region ==> final(state).db.tick_schedules@
                            == scheds.push(spec_next_schedule(prev))),
                        None => final(state).db.tick_schedules@ == scheds.push(
                            (TickScheduleRow {
                                scheduled_id: (id + 1) as u64,
                                scheduled_at: (now + TICK_INTERVAL_US) as i64,
                                region,
                            }),
                        ),
                    }))
                },
                None => {
                    &&& (r is Ok <==> spec_max_schedule_id(scheds) < u64::MAX && now
                        + TICK_INTERVAL_US <= i64::MAX)
                    &&& (r is Ok ==> final(state).db.tick_schedules@ == scheds.push(
                        (TickScheduleRow {
                            scheduled_id: (spec_max_schedule_id(scheds) + 1) as u64,
                            scheduled_at: (now + TICK_INTERVAL_US) as i64,
                            region,
                        }),
                    ))
                },
            }
        }),
{
    match last_id {
        Some(id) => {
            if id == u64::MAX {
                return Err(ScheduleError::Overflow);
            }
            let next_id = id + 1;
            let base_time: i64 = match state.db.schedule_index(id) {
                Some(i) => state.db.tick_schedules[i].scheduled_at,
                None => now,
            };
            if base_time > i64::MAX - TICK_INTERVAL_US {
                return Err(ScheduleError::Overflow);
            }
            let next_time: i64 = base_time + TICK_INTERVAL_US;
            match state.db.schedule_index(next_id) {
                Some(_) => Err(ScheduleError::DuplicateId),
                None => {
                    state.db.insert_schedule(
                        TickScheduleRow { scheduled_id: next_id, scheduled_at: next_time, region },
                    );
                    Ok(())
                },
            }
        },
        None => {
            let max_id = state.db.max_schedule_id();
            if max_id == u64::MAX {
                return Err(ScheduleError::Overflow);
            }
            let next_id = max_id + 1;
            if now > i64::MAX - TICK_INTERVAL_US {
                return Err(ScheduleError::Overflow);
            }
            let next_time: i64 = now + TICK_INTERVAL_US;
            match state.db.schedule_index(next_id) {
                Some(i) => {
                    proof {
                        assert(state.db.tick_schedules@[i as int].scheduled_id <= max_id);
                        assert(false);
                    }
                    Err(ScheduleError::DuplicateId)
                },
                None => {
                    let row = TickScheduleRow {
                        scheduled_id: next_id,
                        scheduled_at: next_time,
                        region,
                    };
                    state.db.insert_schedule(row);
                    Ok(())
                },
            }
        },
    }
}

} // verus!
