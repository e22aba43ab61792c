//! The boundary to the external rigid-body physics engine.
//!
//! Everything the engine computes on continuous quantities (integration,
//! collision detection, ray casting) is consumed here through trusted
//! wrappers. Positions, rotations and shape extents cross this boundary as
//! IEEE-754 bit patterns held in plain integers, so the verified simulation
//! can store, compare and pass them along without doing any continuous
//! arithmetic itself.

use vstd::prelude::*;

#[allow(unused_imports)]
use rapier3d::math::Real;
#[allow(unused_imports)]
use rapier3d::dynamics::{
    CCDSolver, ImpulseJointSet, IntegrationParameters, IslandManager, MultibodyJointSet,
    RigidBodyBuilder, RigidBodyHandle, RigidBodySet,
};
#[allow(unused_imports)]
use rapier3d::geometry::{
    BroadPhaseMultiSap, ColliderBuilder, ColliderHandle, ColliderSet, CollisionEvent,
    InteractionGroups, NarrowPhase, Ray,
};
#[allow(unused_imports)]
use rapier3d::pipeline::{ActiveEvents, ChannelEventCollector, PhysicsPipeline, QueryFilter, QueryPipeline};
#[allow(unused_imports)]
use rapier3d::na::{Isometry3, Point3, Vector3};

verus! {

/// IEEE-754 bits of the vertical gravity override, -9.81.
pub const GRAVITY_Y_BITS: u32 = 0xC11C_F5C3;
/// IEEE-754 bits of zero.
pub const ZERO_BITS: u32 = 0;
/// IEEE-754 bits of one, the w component of the identity quaternion.
pub const ONE_BITS: u32 = 0x3F80_0000;
/// IEEE-754 bits of the reciprocal of the chunk size (one tenth).
pub const INV_CHUNK_SIZE_BITS: u32 = 0x3DCC_CCCD;

/// A collider or rigid-body handle of the engine, as its raw index and
/// generation parts.
#[derive(Clone, Copy, Debug, PartialEq, Eq, Structural)]
pub struct HandleBits {
    pub index: u32,
    pub generation: u32,
}

impl HandleBits {
    /// Bundle the raw parts of an engine handle.
    pub fn of(parts: (u32, u32)) -> (r: HandleBits)
        ensures
            r == (HandleBits { index: parts.0, generation: parts.1 }),
    {
        HandleBits { index: parts.0, generation: parts.1 }
    }
}

/// A rigid body's position and orientation, as IEEE-754 bit patterns.
#[derive(Clone, Copy, Debug, PartialEq, Eq, Structural)]
pub struct TransformBits {
    pub pos_x: u32,
    pub pos_y: u32,
    pub pos_z: u32,
    pub rot_i: u32,
    pub rot_j: u32,
    pub rot_k: u32,
    pub rot_w: u32,
}

/// One raw collision event reported by the engine: a touch that started
/// or stopped between the colliders behind two handles.
#[derive(Clone, Copy, Debug, PartialEq, Eq, Structural)]
pub struct RawCollisionRec {
    pub started: bool,
    pub h1: HandleBits,
    pub h2: HandleBits,
}

impl RawCollisionRec {
    /// Bundle one raw event from the raw parts of its two handles.
    pub fn of(started: bool, a: (u32, u32), b: (u32, u32)) -> (r: RawCollisionRec)
        ensures
            r == (RawCollisionRec {
                started,
                h1: HandleBits { index: a.0, generation: a.1 },
                h2: HandleBits { index: b.0, generation: b.1 },
            }),
    {
        RawCollisionRec { started, h1: HandleBits::of(a), h2: HandleBits::of(b) }
    }
}

/// All engine-owned state of one region's world: the body and collider
/// stores, broad and narrow phase, islands, joints, solver and pipelines.
/// Opaque to the verified simulation; every read and write goes through
/// the wrappers below.
#[verifier::external_body]
pub struct EngineState {
    pipeline: rapier3d::pipeline::PhysicsPipeline,
    query_pipeline: rapier3d::pipeline::QueryPipeline,
    gravity: rapier3d::math::Vector<Real>,
    integration_parameters: rapier3d::dynamics::IntegrationParameters,
    islands: rapier3d::dynamics::IslandManager,
    broad_phase: rapier3d::geometry::BroadPhaseMultiSap,
    narrow_phase: rapier3d::geometry::NarrowPhase,
    bodies: rapier3d::dynamics::RigidBodySet,
    colliders: rapier3d::geometry::ColliderSet,
    impulse_joints: rapier3d::dynamics::ImpulseJointSet,
    multibody_joints: rapier3d::dynamics::MultibodyJointSet,
    ccd_solver: rapier3d::dynamics::CCDSolver,
}

/// Relies on rapier3d's set constructors: builds an empty world with the
/// gravity override of -9.81 on the vertical axis and empty body,
/// collider and joint sets.
#[verifier::external_body]
pub(crate) fn new_engine() -> EngineState {
    let gravity = Vector3::new(
        Real::from_bits(ZERO_BITS), Real::from_bits(GRAVITY_Y_BITS), Real::from_bits(ZERO_BITS),
    );
    EngineState {
        pipeline: PhysicsPipeline::new(), query_pipeline: QueryPipeline::new(), gravity,
        integration_parameters: IntegrationParameters::default(), islands: IslandManager::new(),
        broad_phase: BroadPhaseMultiSap::new(), narrow_phase: NarrowPhase::new(),
        bodies: RigidBodySet::new(), colliders: ColliderSet::new(),
        impulse_joints: ImpulseJointSet::new(), multibody_joints: MultibodyJointSet::new(),
        ccd_solver: CCDSolver::new(),
    }
}

/// The engine's raw collision-event record type.
#[verifier::external_type_specification]
#[verifier::external_body]
pub struct ExCollisionEvent(CollisionEvent);

/// The receiving end of the channel the event collector fills.
#[verifier::external_type_specification]
#[verifier::external_body]
#[verifier::reject_recursive_types(T)]
pub struct ExReceiver<T>(crossbeam::channel::Receiver<T>);

/// Relies on rapier3d's PhysicsPipeline::step: advances the world one
/// fixed timestep, collecting the step's collision events through a
/// channel event collector; the query pipeline is updated in the same
/// step. The collector's sender would block on a full bounded channel, so
/// an unbounded one receives the events.
#[verifier::external_body]
fn step_engine(e: &mut EngineState) -> crossbeam::channel::Receiver<CollisionEvent> {
    let (tx, rx) = crossbeam::channel::unbounded();
    let collector = ChannelEventCollector::new(tx, crossbeam::channel::unbounded().0);
    e.pipeline.step(
        &e.gravity, &e.integration_parameters, &mut e.islands, &mut e.broad_phase,
        &mut e.narrow_phase, &mut e.bodies, &mut e.colliders, &mut e.impulse_joints,
        &mut e.multibody_joints, &mut e.ccd_solver, Some(&mut e.query_pipeline), &(), &collector,
    );
    rx
}

/// Relies on crossbeam's Receiver::try_recv: drains the collected events
/// into plain records, in the engine's emission order.
#[verifier::external_body]
fn drain_events(rx: crossbeam::channel::Receiver<CollisionEvent>) -> Vec<RawCollisionRec> {
    let mut out = Vec::new();
    while let Ok(ev) = rx.try_recv() {
        let (began, a, b) = match ev {
            CollisionEvent::Started(a, b, _) => (true, a, b),
            CollisionEvent::Stopped(a, b, _) => (false, a, b),
        };
        out.push(RawCollisionRec::of(began, a.into_raw_parts(), b.into_raw_parts()));
    }
    out
}

/// Step one fixed timestep and hand back the step's raw collision
/// events, in the engine's emission order.
pub(crate) fn step_world(e: &mut EngineState) -> Vec<RawCollisionRec> {
    let rx = step_engine(e);
    drain_events(rx)
}

/// The set of rigid-body handles currently live in an engine world:
/// inserting a body adds its handle, removing it takes the handle out,
/// and nothing else changes the set.
pub uninterp spec fn live_bodies(e: EngineState) -> Set<HandleBits>;

/// Relies on rapier3d's RigidBodySet::insert with RigidBodyBuilder::fixed:
/// inserts a fixed body at the given position carrying the given tag; the
/// returned handle joins the live set.
#[verifier::external_body]
pub(crate) fn insert_fixed_body(e: &mut EngineState, x: u32, y: u32, z: u32, user_data: u128) -> (r:
    HandleBits)
    ensures
        live_bodies(*final(e)) == live_bodies(*old(e)).insert(r),
{
    let rb = RigidBodyBuilder::fixed()
        .translation(Vector3::new(
            Real::from_bits(x), Real::from_bits(y), Real::from_bits(z),
        ))
        .user_data(user_data)
        .build();
    HandleBits::of(e.bodies.insert(rb).into_raw_parts())
}

/// Relies on rapier3d's RigidBodySet::insert with RigidBodyBuilder::dynamic:
/// inserts a dynamic body, with continuous collision detection when asked;
/// the returned handle joins the live set.
#[verifier::external_body]
pub(crate) fn insert_dynamic_body(
    e: &mut EngineState,
    x: u32,
    y: u32,
    z: u32,
    ccd: bool,
    user_data: u128,
) -> (r: HandleBits)
    ensures
        live_bodies(*final(e)) == live_bodies(*old(e)).insert(r),
{
    let rb = RigidBodyBuilder::dynamic()
        .ccd_enabled(ccd)
        .translation(Vector3::new(
            Real::from_bits(x), Real::from_bits(y), Real::from_bits(z),
        ))
        .user_data(user_data)
        .build();
    HandleBits::of(e.bodies.insert(rb).into_raw_parts())
}

/// Relies on rapier3d's RigidBodySet::insert with
/// RigidBodyBuilder::kinematic_position_based: inserts a position-driven
/// kinematic body; the returned handle joins the live set.
#[verifier::external_body]
pub(crate) fn insert_kinematic_body(e: &mut EngineState, x: u32, y: u32, z: u32, user_data: u128) -> (r:
    HandleBits)
    ensures
        live_bodies(*final(e)) == live_bodies(*old(e)).insert(r),
{
    let rb = RigidBodyBuilder::kinematic_position_based()
        .translation(Vector3::new(
            Real::from_bits(x), Real::from_bits(y), Real::from_bits(z),
        ))
        .user_data(user_data)
        .build();
    HandleBits::of(e.bodies.insert(rb).into_raw_parts())
}

/// Relies on rapier3d's ColliderSet::insert_with_parent with
/// ColliderBuilder::ball: attaches a ball collider that reports collision
/// events, with the given sensor mode, interaction groups and tag. The
/// engine aborts when the parent handle names no live body, so the
/// parent is required to be live; the body set itself is left as it was.
#[verifier::external_body]
pub(crate) fn attach_ball_collider(
    e: &mut EngineState,
    body: HandleBits,
    radius: u32,
    sensor: bool,
    membership: u32,
    filter: u32,
    user_data: u128,
) -> (r: HandleBits)
    requires
        live_bodies(*old(e)).contains(body),
    ensures
        live_bodies(*final(e)) == live_bodies(*old(e)),
{
    let col = ColliderBuilder::ball(Real::from_bits(radius))
        .sensor(sensor)
        .active_events(ActiveEvents::COLLISION_EVENTS)
        .collision_groups(InteractionGroups::new(membership.into(), filter.into()))
        .user_data(user_data)
        .build();
    let bh = RigidBodyHandle::from_raw_parts(body.index, body.generation);
    HandleBits::of(e.colliders.insert_with_parent(col, bh, &mut e.bodies).into_raw_parts())
}

/// Relies on rapier3d's ColliderSet::insert_with_parent with
/// ColliderBuilder::cuboid, which takes half-extents: the given full
/// extents are halved here, at the engine's convention boundary. The
/// engine aborts when the parent handle names no live body, so the
/// parent is required to be live; the body set itself is left as it was.
#[verifier::external_body]
pub(crate) fn attach_cuboid_collider(
    e: &mut EngineState,
    body: HandleBits,
    x: u32,
    y: u32,
    z: u32,
    sensor: bool,
    membership: u32,
    filter: u32,
    user_data: u128,
) -> (r: HandleBits)
    requires
        live_bodies(*old(e)).contains(body),
    ensures
        live_bodies(*final(e)) == live_bodies(*old(e)),
{
    let two = Real::from_bits(0x4000_0000);
    let col = ColliderBuilder::cuboid(
        Real::from_bits(x) / two, Real::from_bits(y) / two, Real::from_bits(z) / two,
    )
        .sensor(sensor)
        .active_events(ActiveEvents::COLLISION_EVENTS)
        .collision_groups(InteractionGroups::new(membership.into(), filter.into()))
        .user_data(user_data)
        .build();
    let bh = RigidBodyHandle::from_raw_parts(body.index, body.generation);
    HandleBits::of(e.colliders.insert_with_parent(col, bh, &mut e.bodies).into_raw_parts())
}

/// Relies on rapier3d's RigidBodySet::remove: removes the body behind the
/// handle together with all attached colliders and joints; the handle
/// leaves the live set.
#[verifier::external_body]
pub(crate) fn remove_body(e: &mut EngineState, body: HandleBits)
    ensures
        live_bodies(*final(e)) == live_bodies(*old(e)).remove(body),
{
    let bh = RigidBodyHandle::from_raw_parts(body.index, body.generation);
    e.bodies.remove(
        bh, &mut e.islands, &mut e.colliders, &mut e.impulse_joints, &mut e.multibody_joints, true,
    );
}

/// Relies on rapier3d's ColliderSet::get: the tag and sensor mode of the
/// collider behind the handle, if it is still in the set.
#[verifier::external_body]
pub(crate) fn collider_info(e: &EngineState, h: HandleBits) -> Option<(u128, bool)> {
    let ch = ColliderHandle::from_raw_parts(h.index, h.generation);
    e.colliders.get(ch).map(|c| (c.user_data, c.is_sensor()))
}

/// Relies on rapier3d's ColliderSet::get_mut: replaces the tag of the
/// collider behind the handle; reports whether the collider was found.
#[verifier::external_body]
pub(crate) fn set_collider_user_data(e: &mut EngineState, h: HandleBits, user_data: u128) -> bool {
    let ch = ColliderHandle::from_raw_parts(h.index, h.generation);
    match e.colliders.get_mut(ch) {
        Some(c) => {
            c.user_data = user_data;
            true
        },
        None => false,
    }
}

/// Relies on rapier3d's Collider::set_position: teleports the collider
/// behind the handle; reports whether the collider was found.
#[verifier::external_body]
pub(crate) fn set_collider_position(e: &mut EngineState, h: HandleBits, x: u32, y: u32, z: u32) -> bool {
    let ch = ColliderHandle::from_raw_parts(h.index, h.generation);
    match e.colliders.get_mut(ch) {
        Some(c) => {
            c.set_position(Isometry3::translation(
                Real::from_bits(x), Real::from_bits(y), Real::from_bits(z),
            ));
            true
        },
        None => false,
    }
}

/// Relies on rapier3d's Collider::set_collision_groups: replaces the
/// interaction groups of the collider behind the handle.
#[verifier::external_body]
pub(crate) fn set_collider_groups(e: &mut EngineState, h: HandleBits, membership: u32, filter: u32) -> bool {
    let ch = ColliderHandle::from_raw_parts(h.index, h.generation);
    match e.colliders.get_mut(ch) {
        Some(c) => {
            c.set_collision_groups(InteractionGroups::new(
                membership.into(), filter.into(),
            ));
            true
        },
        None => false,
    }
}

/// Relies on rapier3d's QueryPipeline::cast_ray: the first collider hit
/// by the ray from the given origin along the given direction, if any.
#[verifier::external_body]
pub(crate) fn cast_ray(e: &EngineState, ox: u32, oy: u32, oz: u32, dx: u32, dy: u32, dz: u32) -> Option<
    HandleBits,
> {
    let ray = Ray::new(
        Point3::new(Real::from_bits(ox), Real::from_bits(oy), Real::from_bits(oz)),
        Vector3::new(Real::from_bits(dx), Real::from_bits(dy), Real::from_bits(dz)),
    );
    e.query_pipeline
        .cast_ray(&e.bodies, &e.colliders, &ray, Real::MAX, true, QueryFilter::default())
        .map(|(ch, _)| HandleBits::of(ch.into_raw_parts()))
}

/// Relies on rapier3d's Collider::parent and RigidBodySet::get: the tag
/// of the rigid body that the collider behind the handle is attached to.
#[verifier::external_body]
pub(crate) fn collider_parent_user_data(e: &EngineState, h: HandleBits) -> Option<u128> {
    let ch = ColliderHandle::from_raw_parts(h.index, h.generation);
    let parent = e.colliders.get(ch)?.parent()?;
    e.bodies.get(parent).map(|b| b.user_data)
}

/// Relies on rapier3d's RigidBody::translation and rotation: the current
/// transform of the body behind the handle, as IEEE-754 bit patterns.
#[verifier::external_body]
pub(crate) fn body_transform(e: &EngineState, body: HandleBits) -> Option<TransformBits> {
    let bh = RigidBodyHandle::from_raw_parts(body.index, body.generation);
    e.bodies.get(bh).map(|b| {
        let p = b.translation();
        let r = b.rotation();
        TransformBits {
            pos_x: p.x.to_bits(), pos_y: p.y.to_bits(), pos_z: p.z.to_bits(),
            rot_i: r.i.to_bits(), rot_j: r.j.to_bits(), rot_k: r.k.to_bits(), rot_w: r.w.to_bits(),
        }
    })
}

/// The chunk coordinate that the continuous position with the given bit
/// pattern falls in: position divided by the chunk size, rounded toward
/// negative infinity. A pure function of the bits alone.
pub uninterp spec fn chunk_coord_of(bits: u32) -> i32;

/// Relies on wide's f32x4 lanewise multiply and floor: both chunk
/// coordinates of a position at once, each the position scaled by the
/// reciprocal of the chunk size and floored.
#[verifier::external_body]
pub(crate) fn chunk_pair_from_bits(x: u32, y: u32) -> (r: (i32, i32))
    ensures
        r.0 == chunk_coord_of(x),
        r.1 == chunk_coord_of(y),
{
    let zero = Real::from_bits(ZERO_BITS);
    let inv = wide::f32x4::splat(Real::from_bits(INV_CHUNK_SIZE_BITS));
    let v = wide::f32x4::new([Real::from_bits(x), Real::from_bits(y), zero, zero]) * inv;
    let arr = v.floor().to_array();
    (arr[0] as i32, arr[1] as i32)
}

/// The IEEE-754 bits of the continuous value that the given text spells,
/// or nothing when the text does not spell one. A pure function of the
/// characters alone.
pub uninterp spec fn parse_real_of(s: Seq<char>) -> Option<u32>;

/// Relies on str::parse for the engine's continuous scalar type: parses
/// the text of one scalar and hands back its bit pattern.
#[verifier::external_body]
pub(crate) fn parse_real_bits(s: &str) -> (r: Option<u32>)
    ensures
        r == parse_real_of(s@),
{
    s.parse::<Real>().ok().map(|v| v.to_bits())
}

} // verus!
