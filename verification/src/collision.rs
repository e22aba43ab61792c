//! Body roles and collision interaction groups.
//!
//! Every spawned body carries a role (static scenery, dynamic object,
//! kinematic mover, projectile, player), and each role maps to a membership
//! bitmask plus a filter bitmask that decide which pairs of colliders the
//! engine reports: sensors see solids but not other sensors.

use vstd::prelude::*;

verus! {

/// Role tag of a static (fixed) body.
pub const STATIC_BODY_TYPE: u8 = 0;
/// Role tag of an ordinary dynamic body.
pub const DYNAMIC_BODY_TYPE: u8 = 1;
/// Role tag of a kinematic, position-driven body.
pub const KINEMATIC_BODY_TYPE: u8 = 2;
/// Role tag of a projectile: dynamic with continuous collision detection.
pub const PROJECTILE_BODY_TYPE: u8 = 10;
/// Role tag of a player body: kinematic, driven by position commands.
pub const PLAYER_BODY_TYPE: u8 = 20;

/// Group bit of ordinary world geometry.
pub const GROUP_DEFAULT: u32 = 1;
/// Group bit of player bodies.
pub const GROUP_PLAYER: u32 = 2;
/// Group bit of enemy bodies.
pub const GROUP_ENEMY: u32 = 4;
/// Group bit of projectiles.
pub const GROUP_PROJECTILE: u32 = 8;
/// Group bit of sensor colliders.
pub const GROUP_SENSOR: u32 = 16;

/// Which groups solid bodies collide with.
pub const SOLID_FILTER: u32 = 15;
/// Which groups sensors see: the same solids.
pub const SENSOR_FILTER: u32 = 15;

/// A body role is valid when it is one of the five known role tags.
pub open spec fn spec_valid_body_type(body_type: u8) -> bool {
    body_type == STATIC_BODY_TYPE || body_type == DYNAMIC_BODY_TYPE || body_type
        == KINEMATIC_BODY_TYPE || body_type == PROJECTILE_BODY_TYPE || body_type == PLAYER_BODY_TYPE
}

/// Check a role tag against the closed set of known roles.
pub fn is_valid_body_type(body_type: u8) -> (r: bool)
    ensures
        r == spec_valid_body_type(body_type),
{
    body_type == STATIC_BODY_TYPE || body_type == DYNAMIC_BODY_TYPE || body_type
        == KINEMATIC_BODY_TYPE || body_type == PROJECTILE_BODY_TYPE || body_type == PLAYER_BODY_TYPE
}

/// Membership and filter bitmasks handed to the engine for one collider.
#[derive(Clone, Copy, Debug, PartialEq, Eq, Structural)]
pub struct InteractionGroupSpec {
    pub membership: u32,
    pub filter: u32,
}

/// Membership mask of a body role: players and projectiles get their own
/// groups, everything else is ordinary geometry.
pub open spec fn spec_membership(body_type: u8) -> u32 {
    if body_type == PLAYER_BODY_TYPE {
        GROUP_PLAYER
    } else if body_type == PROJECTILE_BODY_TYPE {
        GROUP_PROJECTILE
    } else {
        GROUP_DEFAULT
    }
}

/// The groups a collider interacts with, by role and sensor mode.
pub open spec fn spec_interaction_groups(body_type: u8, is_sensor: bool) -> InteractionGroupSpec {
    InteractionGroupSpec {
        membership: spec_membership(body_type),
        filter: if is_sensor {
            SENSOR_FILTER
        } else {
            SOLID_FILTER
        },
    }
}

/// Build the membership/filter pair for one collider.
pub fn interaction_groups(body_type: u8, is_sensor: bool) -> (r: InteractionGroupSpec)
    ensures
        r == spec_interaction_groups(body_type, is_sensor),
{
    let membership = if body_type == PLAYER_BODY_TYPE {
        GROUP_PLAYER
    } else if body_type == PROJECTILE_BODY_TYPE {
        GROUP_PROJECTILE
    } else {
        GROUP_DEFAULT
    };
    let filter = if is_sensor {
        SENSOR_FILTER
    } else {
        SOLID_FILTER
    };
    InteractionGroupSpec { membership, filter }
}

/// Collision categories as named bitmask groups.
#[derive(Clone, Copy, Debug, PartialEq, Eq, Structural)]
pub enum CollisionCategory {
    Default,
    Player,
    Enemy,
    Projectile,
    Sensor,
}

/// Bitmask of a collision category.
pub open spec fn spec_category_mask(c: CollisionCategory) -> u32 {
    match c {
        CollisionCategory::Default => 0b0001,
        CollisionCategory::Player => 0b0010,
        CollisionCategory::Enemy => 0b0100,
        CollisionCategory::Projectile => 0b1000,
        CollisionCategory::Sensor => 0b0000,
    }
}

impl CollisionCategory {
    /// Bitmask of this category.
    pub fn mask(self) -> (r: u32)
        ensures
            r == spec_category_mask(self),
    {
        match self {
            CollisionCategory::Default => 0b0001,
            CollisionCategory::Player => 0b0010,
            CollisionCategory::Enemy => 0b0100,
            CollisionCategory::Projectile => 0b1000,
            CollisionCategory::Sensor => 0b0000,
        }
    }
}

/// The category of a body role.
pub open spec fn spec_category_of(body_type: u8) -> CollisionCategory {
    if body_type == PLAYER_BODY_TYPE {
        CollisionCategory::Player
    } else if body_type == PROJECTILE_BODY_TYPE {
        CollisionCategory::Projectile
    } else {
        CollisionCategory::Default
    }
}

/// Category-based variant of the interaction-group assignment: sensors get
/// an empty filter here, so a sensor in this scheme sees nothing.
pub fn get_interaction_groups_for_body_type(body_type: u8, is_sensor: bool) -> (r:
    InteractionGroupSpec)
    ensures
        r.membership == spec_category_mask(spec_category_of(body_type)),
        is_sensor ==> r.filter == spec_category_mask(CollisionCategory::Sensor),
        !is_sensor ==> r.filter == 0b1111u32,
{
    let category = if body_type == PLAYER_BODY_TYPE {
        CollisionCategory::Player
    } else if body_type == PROJECTILE_BODY_TYPE {
        CollisionCategory::Projectile
    } else {
        CollisionCategory::Default
    };
    let membership = category.mask();
    let filter = if is_sensor {
        CollisionCategory::Sensor.mask()
    } else {
        proof {
            assert(1u32 | 2u32 | 4u32 | 8u32 == 15u32) by (bit_vector);
        }
        CollisionCategory::Default.mask() | CollisionCategory::Player.mask()
            | CollisionCategory::Enemy.mask() | CollisionCategory::Projectile.mask()
    };
    InteractionGroupSpec { membership, filter }
}

} // verus!
