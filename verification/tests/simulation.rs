use simcore::contacts::{ContactKey, ContactTracker, PhysicsContact, ResolvedContact};
use simcore::engine::HandleBits;
use simcore::scheduler::schedule_physics_tick;
use simcore::sim::{apply_buff, despawn_rigid_body, spawn_rigid_body, use_skill, SimState, SkillError, SpawnError};
use simcore::tick::{handle_event, physics_tick};

const MODULE_ID: u128 = 7;
const PLAYER_ID: u128 = 11;

fn handle(index: u32, generation: u32) -> HandleBits {
    HandleBits { index, generation }
}

fn raw_pair(started: bool) -> ResolvedContact {
    ResolvedContact {
        started,
        source_handle: handle(1, 0),
        target_handle: handle(2, 0),
        source_id: 100,
        target_id: 200,
        object_function: 1,
    }
}

/// Manual walkthrough of contact tracking against a real engine world.
#[test]
fn test_contact_tracking() {
    println!("Testing contact tracking:");
    println!("1. Create a static floor at position (0,0,0)");
    println!("2. Create a dynamic sphere above it");
    println!("3. Run physics ticks until contact is detected");
    println!("4. Verify contact_duration table has an entry");

    let mut state = SimState::new(MODULE_ID);
    let floor = spawn_rigid_body(
        &mut state,
        PLAYER_ID,
        0,
        0.0f32.to_bits(),
        0.0f32.to_bits(),
        0.0f32.to_bits(),
        "Box(20, 1, 20)".to_string(),
        0,
    )
    .unwrap();
    let sphere = spawn_rigid_body(
        &mut state,
        PLAYER_ID,
        0,
        0.0f32.to_bits(),
        5.0f32.to_bits(),
        0.0f32.to_bits(),
        "Sphere(0.5)".to_string(),
        1,
    )
    .unwrap();
    schedule_physics_tick(&mut state, 0, None, 0).unwrap();
    let mut scheduled_id = 1u64;
    let mut found = false;
    for _ in 0..400 {
        physics_tick(&mut state, MODULE_ID, 0, scheduled_id, 0).unwrap();
        scheduled_id += 1;
        if !state.db.contact_events.is_empty() {
            found = true;
            break;
        }
    }
    assert!(found, "the falling sphere should touch the floor");
    let row = state.db.contact_events[0];
    let pair = [row.entity_1, row.entity_2];
    assert!(pair.contains(&floor) && pair.contains(&sphere));
}

/// The lifecycle stream of a pair that touches and separates: one Start,
/// Continue events with strictly increasing counters, one End.
#[test]
fn contact_lifecycle_stream() {
    let mut tracker = ContactTracker::new();
    let events = tracker.process_contacts(&vec![raw_pair(true)]);
    assert_eq!(events.len(), 1);
    assert!(matches!(events[0], PhysicsContact::Start { source_id: 100, target_id: 200, .. }));

    let k = 8u8;
    for t in 1..k {
        let events = tracker.process_contacts(&Vec::new());
        assert_eq!(events.len(), 1);
        match events[0] {
            PhysicsContact::Continue { source_id, target_id, tick_count, .. } => {
                assert_eq!(source_id, 100);
                assert_eq!(target_id, 200);
                assert_eq!(tick_count, t);
            }
            _ => panic!("expected a Continue event"),
        }
    }

    let events = tracker.process_contacts(&vec![raw_pair(false)]);
    assert_eq!(events.len(), 1);
    assert!(matches!(events[0], PhysicsContact::End { source_id: 100, target_id: 200, .. }));
    assert!(tracker.entries.is_empty());

    // no Continue follows the End
    let events = tracker.process_contacts(&Vec::new());
    assert!(events.is_empty());
}

/// Damage cadence: a periodic-damage contact sustained for 12 ticks
/// applies damage exactly twice, at counters 5 and 10.
#[test]
fn damage_cadence_two_hits_in_twelve_ticks() {
    let mut state = SimState::new(MODULE_ID);
    let target = spawn_rigid_body(
        &mut state,
        PLAYER_ID,
        0,
        0.0f32.to_bits(),
        0.0f32.to_bits(),
        0.0f32.to_bits(),
        "Sphere(0.5)".to_string(),
        1,
    )
    .unwrap();

    for t in 1..=12u8 {
        let ev = PhysicsContact::Continue {
            source_handle: handle(9, 0),
            target_handle: handle(10, 0),
            source_id: 500,
            target_id: target,
            object_function: 1,
            tick_count: t,
        };
        handle_event(&mut state, 0, ev, 0);
    }
    let pending: Vec<(u32, u32)> = state.registry.worlds[0].pending_damage.clone();
    assert_eq!(pending, vec![(target, 2)]);
    // one client-visible damage event per applied hit
    assert_eq!(state.db.damage_events.len(), 2);
}

/// Cooldown fairness: with a 50% reduction buff a 1000ms skill is ready
/// after 500ms; once the buff is gone, the full 1000ms governs again.
#[test]
fn cooldown_fairness_with_reduction_buff() {
    let mut state = SimState::new(MODULE_ID);
    let origin = (0u32, 0u32, 0u32);
    let dir = (0u32, 0u32, 0u32);

    // first use is never blocked
    assert_eq!(use_skill(&mut state, PLAYER_ID, 6, 0, origin.0, origin.1, origin.2, dir.0, dir.1, dir.2), Ok(()));

    // a 50%-reduction buff (500 parts per thousand) makes it ready at 500ms
    let buff_id = apply_buff(&mut state, PLAYER_ID, 1, 500, 10_000_000);
    assert_eq!(
        use_skill(&mut state, PLAYER_ID, 6, 499_000, origin.0, origin.1, origin.2, dir.0, dir.1, dir.2),
        Err(SkillError::OnCooldown)
    );
    assert_eq!(
        use_skill(&mut state, PLAYER_ID, 6, 500_000, origin.0, origin.1, origin.2, dir.0, dir.1, dir.2),
        Ok(())
    );

    // removing the buff restores the full 1000ms requirement
    state.db.delete_buff(buff_id);
    assert_eq!(
        use_skill(&mut state, PLAYER_ID, 6, 1_499_000, origin.0, origin.1, origin.2, dir.0, dir.1, dir.2),
        Err(SkillError::OnCooldown)
    );
    assert_eq!(
        use_skill(&mut state, PLAYER_ID, 6, 1_500_000, origin.0, origin.1, origin.2, dir.0, dir.1, dir.2),
        Ok(())
    );
}

#[test]
fn unknown_skill_is_rejected() {
    let mut state = SimState::new(MODULE_ID);
    assert_eq!(
        use_skill(&mut state, PLAYER_ID, 42, 0, 0, 0, 0, 0, 0, 0),
        Err(SkillError::UnknownSkill)
    );
}

/// Reschedule drift bound: the Nth tick is scheduled at exactly the first
/// time plus N whole intervals, whatever "now" reads at reschedule time.
#[test]
fn reschedule_without_drift() {
    let mut state = SimState::new(MODULE_ID);
    schedule_physics_tick(&mut state, 0, None, 1_000).unwrap();
    assert_eq!(state.db.tick_schedules[0].scheduled_id, 1);
    assert_eq!(state.db.tick_schedules[0].scheduled_at, 101_000);

    // simulate wildly varying processing latency via the "now" argument
    let nows = [400_000i64, 150_000, 999_999, 300_000, 123_456];
    for (n, now) in nows.iter().enumerate() {
        schedule_physics_tick(&mut state, 0, Some((n + 1) as u64), *now).unwrap();
    }
    for (n, row) in state.db.tick_schedules.iter().enumerate() {
        assert_eq!(row.scheduled_id, (n + 1) as u64);
        assert_eq!(row.scheduled_at, 101_000 + (n as i64) * 100_000);
    }
}

#[test]
fn spawn_rejects_bad_input() {
    let mut state = SimState::new(MODULE_ID);
    let r = spawn_rigid_body(&mut state, PLAYER_ID, 0, 0, 0, 0, "Sphere(1)".to_string(), 5);
    assert_eq!(r, Err(SpawnError::InvalidBodyType));
    let r = spawn_rigid_body(&mut state, PLAYER_ID, 0, 0, 0, 0, "Blob(1)".to_string(), 1);
    assert!(matches!(r, Err(SpawnError::ShapeParse(_))));
    // a rejected spawn mutates nothing
    assert!(state.db.physics_bodies.is_empty());
    assert!(state.registry.worlds.is_empty());
}

/// Spawn/despawn idempotence: despawning a never-spawned or
/// already-despawned id is a no-op and never panics; after a despawn the
/// handle and the record are gone.
#[test]
fn despawn_is_idempotent() {
    let mut state = SimState::new(MODULE_ID);

    // never-spawned id: a no-op
    despawn_rigid_body(&mut state, 12345, 0);
    assert!(state.db.physics_bodies.is_empty());

    let id = spawn_rigid_body(
        &mut state,
        PLAYER_ID,
        0,
        1.0f32.to_bits(),
        2.0f32.to_bits(),
        3.0f32.to_bits(),
        "Sphere(0.5)".to_string(),
        1,
    )
    .unwrap();
    assert!(state.db.body_index(id).is_some());
    let wi = state.registry.world_index(0).unwrap();
    assert!(state.registry.worlds[wi].find_handle(id).is_some());

    despawn_rigid_body(&mut state, id, 0);
    assert!(state.db.body_index(id).is_none());
    assert!(state.registry.worlds[wi].find_handle(id).is_none());

    // already-despawned id: a no-op, and never panics
    despawn_rigid_body(&mut state, id, 0);
    assert!(state.db.body_index(id).is_none());
}

/// Example scenario: a dynamic sphere falls onto a static body; exactly
/// one contact-event record appears for the pair, and a mid-contact
/// despawn retracts it and stops the pair's Continue stream.
#[test]
fn falling_sphere_scenario() {
    let mut state = SimState::new(MODULE_ID);
    let floor = spawn_rigid_body(
        &mut state,
        PLAYER_ID,
        0,
        0.0f32.to_bits(),
        0.0f32.to_bits(),
        0.0f32.to_bits(),
        "Box(20, 1, 20)".to_string(),
        0,
    )
    .unwrap();
    let sphere = spawn_rigid_body(
        &mut state,
        PLAYER_ID,
        0,
        0.0f32.to_bits(),
        5.0f32.to_bits(),
        0.0f32.to_bits(),
        "Sphere(0.5)".to_string(),
        1,
    )
    .unwrap();

    schedule_physics_tick(&mut state, 0, None, 0).unwrap();
    let mut scheduled_id = 1u64;
    let mut touched = false;
    for _ in 0..400 {
        physics_tick(&mut state, MODULE_ID, 0, scheduled_id, 0).unwrap();
        scheduled_id += 1;
        if !state.db.contact_events.is_empty() {
            touched = true;
            break;
        }
    }
    assert!(touched, "the sphere should fall onto the static body");
    assert_eq!(state.db.contact_events.len(), 1);
    let row = state.db.contact_events[0];
    let pair = [row.entity_1, row.entity_2];
    assert!(pair.contains(&floor) && pair.contains(&sphere));

    // despawn mid-contact: the record is removed and no further Continue
    // references either id
    despawn_rigid_body(&mut state, sphere, 0);
    assert!(state.db.contact_events.is_empty());
    for _ in 0..5 {
        let events = physics_tick(&mut state, MODULE_ID, 0, scheduled_id, 0).unwrap();
        scheduled_id += 1;
        for ev in events.iter() {
            if let PhysicsContact::Continue { source_id, target_id, .. } = ev {
                assert!(*source_id != sphere && *target_id != sphere);
                assert!(*source_id != floor && *target_id != floor);
            }
        }
    }
}

#[test]
fn unauthorized_tick_is_rejected() {
    let mut state = SimState::new(MODULE_ID);
    let r = physics_tick(&mut state, PLAYER_ID, 0, 1, 0);
    assert!(matches!(r, Err(simcore::tick::TickError::Unauthorized)));
}

/// A stop event removes every matching logical contact and reports one
/// End per removed entry.
#[test]
fn stop_removes_all_matching_contacts() {
    let mut tracker = ContactTracker::new();
    let mut a = raw_pair(true);
    let mut b = raw_pair(true);
    b.source_handle = handle(3, 0);
    let events = tracker.process_contacts(&vec![a, b]);
    assert_eq!(events.len(), 2);
    assert_eq!(tracker.entries.len(), 2);

    a.started = false;
    let events = tracker.process_contacts(&vec![a]);
    let ends = events
        .iter()
        .filter(|e| matches!(e, PhysicsContact::End { .. }))
        .count();
    assert_eq!(ends, 2);
    assert!(tracker.entries.is_empty());

    // keys carry the handles too
    let key = ContactKey {
        source_handle: handle(1, 0),
        target_handle: handle(2, 0),
        source_id: 100,
        target_id: 200,
        object_function: 1,
    };
    assert!(tracker.entry_index(key).is_none());
}

/// Spawning records the chunk coordinates of the spawn position: the
/// position divided by the chunk size, floored.
#[test]
fn spawn_records_chunk_coordinates() {
    let mut state = SimState::new(MODULE_ID);
    let id = spawn_rigid_body(
        &mut state,
        PLAYER_ID,
        0,
        65.0f32.to_bits(),
        65.0f32.to_bits(),
        0.0f32.to_bits(),
        "Sphere(0.5)".to_string(),
        1,
    )
    .unwrap();
    let bi = state.db.body_index(id).unwrap();
    assert_eq!(state.db.physics_bodies[bi].chunk_x, 6);
    assert_eq!(state.db.physics_bodies[bi].chunk_y, 6);
    assert_eq!(state.db.physics_bodies[bi].health, 100);
    assert_eq!(state.db.physics_bodies[bi].owner_id, PLAYER_ID);

    let neg = spawn_rigid_body(
        &mut state,
        PLAYER_ID,
        0,
        (-0.5f32).to_bits(),
        (-12.0f32).to_bits(),
        0.0f32.to_bits(),
        "Sphere(0.5)".to_string(),
        1,
    )
    .unwrap();
    let bi = state.db.body_index(neg).unwrap();
    assert_eq!(state.db.physics_bodies[bi].chunk_x, -1);
    assert_eq!(state.db.physics_bodies[bi].chunk_y, -2);
}

/// Casting the sensor-type skill is accepted even before a pooled
/// collider is registered; the cooldown still applies.
#[test]
fn sensor_skill_cast_and_cooldown() {
    let mut state = SimState::new(MODULE_ID);
    assert_eq!(use_skill(&mut state, PLAYER_ID, 1, 0, 0, 0, 0, 0, 0, 0), Ok(()));
    assert_eq!(
        use_skill(&mut state, PLAYER_ID, 1, 500_000, 0, 0, 0, 0, 0, 0),
        Err(SkillError::OnCooldown)
    );
    assert_eq!(use_skill(&mut state, PLAYER_ID, 1, 1_000_000, 0, 0, 0, 0, 0, 0), Ok(()));
}

/// The stacking buff type folds reapplications into one row; other types
/// insert independent instances.
#[test]
fn buff_stacking_behavior() {
    let mut state = SimState::new(MODULE_ID);
    let first = apply_buff(&mut state, PLAYER_ID, 4, 100, 1_000);
    let second = apply_buff(&mut state, PLAYER_ID, 4, 100, 2_000);
    assert_eq!(first, second);
    assert_eq!(state.db.player_buffs.len(), 1);
    assert_eq!(state.db.player_buffs[0].stacks, 2);
    assert_eq!(state.db.player_buffs[0].expires_at, 2_000);

    let a = apply_buff(&mut state, PLAYER_ID, 1, 100, 1_000);
    let b = apply_buff(&mut state, PLAYER_ID, 1, 100, 1_000);
    assert_ne!(a, b);
    assert_eq!(state.db.player_buffs.len(), 3);
}

/// Registering a pooled sensor collider records it for the skill, so a
/// later cast can find it.
#[test]
fn sensor_registration_is_recorded() {
    let mut state = SimState::new(MODULE_ID);
    assert!(state.sensor_skills.is_empty());
    simcore::sim::register_sensor_skill(&mut state, 1, handle(42, 0));
    assert_eq!(state.sensor_skills.len(), 1);
    assert_eq!(state.sensor_skills[0], (1u8, handle(42, 0)));
    // casting the sensor skill still succeeds and keeps the registration
    assert_eq!(use_skill(&mut state, PLAYER_ID, 1, 0, 0, 0, 0, 0, 0, 0), Ok(()));
    assert_eq!(state.sensor_skills.len(), 1);
}
