//! Physical attributes of a rigid body and its per-step motion state.

use vstd::prelude::*;
use crate::units::SCALE;
use crate::vec2::{within, Vec2};

verus! {

/// Largest half extent of a body, in subunits (one million world units).
pub const SIZE_LIMIT: i64 = 1000000000;

/// Largest position component the store will hold, in subunits; positions
/// are clamped into this range rather than overflowing.
pub const POS_LIMIT: i64 = 1000000000000;

/// Largest velocity component any body can ever carry, in subunits per
/// second.  The resolver saturates at this value as a numerical guard.
pub const VEL_LIMIT: i64 = 100000000;

/// Largest per-role speed cap and control-target component, in subunits
/// per second.
pub const CAP_LIMIT: i64 = 10000000;

/// Largest body mass, in subunits.
pub const MASS_LIMIT: i64 = 10000000;

/// Largest damping rate, in subunits per second.
pub const RATE_LIMIT: i64 = 1000000;

/// Largest friction coefficient, in subunits.
pub const FRICTION_LIMIT: i64 = 10000;

/// Longest single timestep, in microseconds (ten seconds).
pub const DT_LIMIT: i64 = 10000000;

/// Collision category: a player or enemy paddle.
pub const LAYER_PADDLE: u32 = 1;

/// Collision category: a ball.
pub const LAYER_BALL: u32 = 2;

/// Collision category: an arena boundary.
pub const LAYER_BOUNDARY: u32 = 4;

/// Collision category: the separator through the arena middle.
pub const LAYER_SEPARATOR: u32 = 8;

/// `v` clamped into `[lo, hi]`.
pub open spec fn spec_clamped(v: int, lo: int, hi: int) -> int {
    if v < lo {
        lo
    } else if v > hi {
        hi
    } else {
        v
    }
}

/// `v` clamped into `[lo, hi]`.
pub fn clamped(v: i64, lo: i64, hi: i64) -> (r: i64)
    requires
        lo <= hi,
    ensures
        r == spec_clamped(v as int, lo as int, hi as int),
{
    if v < lo {
        lo
    } else if v > hi {
        hi
    } else {
        v
    }
}

/// Physical attributes of a body.  A mass of zero marks an immovable body:
/// resolution never changes its velocity.
#[derive(Clone, Copy, PartialEq, Eq, Structural, Debug)]
pub struct RigidBody {
    /// Half extent along x, in subunits.
    pub half_width: i64,
    /// Half extent along y, in subunits.
    pub half_height: i64,
    /// Mass in subunits; zero means immovable.
    pub mass: i64,
    /// Restitution in subunits, within `[0, SCALE]`.
    pub restitution: i64,
    /// Friction coefficient in subunits, nonnegative.
    pub friction: i64,
    /// Bitmask of the categories this body belongs to.
    pub layer: u32,
    /// Bitmask of the categories this body collides with.
    pub mask: u32,
    /// Speed cap in subunits per second, applied after damping.
    pub max_speed: i64,
    /// Damping rate toward the control target, in subunits per second.
    pub damp_rate: i64,
}

impl RigidBody {
    /// All attributes are inside the documented ranges.
    pub open spec fn wf(self) -> bool {
        &&& 0 <= self.half_width <= SIZE_LIMIT
        &&& 0 <= self.half_height <= SIZE_LIMIT
        &&& 0 <= self.mass <= MASS_LIMIT
        &&& 0 <= self.restitution <= SCALE
        &&& 0 <= self.friction <= FRICTION_LIMIT
        &&& 0 <= self.max_speed <= CAP_LIMIT
        &&& 0 <= self.damp_rate <= RATE_LIMIT
    }

    /// This body is immovable: resolution leaves its velocity alone and
    /// it absorbs no impulse.
    pub open spec fn is_static(self) -> bool {
        self.mass == 0
    }

    /// A body with every attribute clamped to its valid range, as a
    /// value.
    pub open spec fn spec_new(
        half_width: i64,
        half_height: i64,
        mass: i64,
        restitution: i64,
        friction: i64,
        layer: u32,
        mask: u32,
        max_speed: i64,
        damp_rate: i64,
    ) -> RigidBody {
        RigidBody {
            half_width: spec_clamped(half_width as int, 0, SIZE_LIMIT as int) as i64,
            half_height: spec_clamped(half_height as int, 0, SIZE_LIMIT as int) as i64,
            mass: spec_clamped(mass as int, 0, MASS_LIMIT as int) as i64,
            restitution: spec_clamped(restitution as int, 0, SCALE as int) as i64,
            friction: spec_clamped(friction as int, 0, FRICTION_LIMIT as int) as i64,
            layer,
            mask,
            max_speed: spec_clamped(max_speed as int, 0, CAP_LIMIT as int) as i64,
            damp_rate: spec_clamped(damp_rate as int, 0, RATE_LIMIT as int) as i64,
        }
    }

    /// Builds a body, clamping every attribute to its nearest valid value
    /// so that a degenerate configuration is corrected rather than
    /// rejected.
    pub fn new(
        half_width: i64,
        half_height: i64,
        mass: i64,
        restitution: i64,
        friction: i64,
        layer: u32,
        mask: u32,
        max_speed: i64,
        damp_rate: i64,
    ) -> (r: RigidBody)
        ensures
            r == RigidBody::spec_new(
                half_width,
                half_height,
                mass,
                restitution,
                friction,
                layer,
                mask,
                max_speed,
                damp_rate,
            ),
            r.wf(),
            r.half_width == spec_clamped(half_width as int, 0, SIZE_LIMIT as int),
            r.half_height == spec_clamped(half_height as int, 0, SIZE_LIMIT as int),
            r.mass == spec_clamped(mass as int, 0, MASS_LIMIT as int),
            r.restitution == spec_clamped(restitution as int, 0, SCALE as int),
            r.friction == spec_clamped(friction as int, 0, FRICTION_LIMIT as int),
            r.layer == layer,
            r.mask == mask,
            r.max_speed == spec_clamped(max_speed as int, 0, CAP_LIMIT as int),
            r.damp_rate == spec_clamped(damp_rate as int, 0, RATE_LIMIT as int),
    {
        RigidBody {
            half_width: clamped(half_width, 0, SIZE_LIMIT),
            half_height: clamped(half_height, 0, SIZE_LIMIT),
            mass: clamped(mass, 0, MASS_LIMIT),
            restitution: clamped(restitution, 0, SCALE),
            friction: clamped(friction, 0, FRICTION_LIMIT),
            layer,
            mask,
            max_speed: clamped(max_speed, 0, CAP_LIMIT),
            damp_rate: clamped(damp_rate, 0, RATE_LIMIT),
        }
    }
}

/// Kinematic state of an active body.  Presence of a `Motion` is what
/// makes a body take part in integration and collision.
#[derive(Clone, Copy, PartialEq, Eq, Structural, Debug)]
pub struct Motion {
    /// Centre position, in subunits.
    pub position: Vec2,
    /// Velocity, in subunits per second.
    pub velocity: Vec2,
    /// Velocity the controller is steering toward, in subunits per second.
    pub target: Vec2,
}

impl Motion {
    /// Position, velocity and control target are inside the ranges the
    /// integrator and resolver preserve.
    pub open spec fn wf(self) -> bool {
        &&& within(self.position, POS_LIMIT as int)
        &&& within(self.velocity, VEL_LIMIT as int)
        &&& within(self.target, CAP_LIMIT as int)
    }

    /// A motion state with position, velocity and target clamped into
    /// their valid ranges, as a value.
    pub open spec fn spec_new(position: Vec2, velocity: Vec2, target: Vec2) -> Motion {
        Motion {
            position: Vec2 {
                x: spec_clamped(position.x as int, -POS_LIMIT as int, POS_LIMIT as int) as i64,
                y: spec_clamped(position.y as int, -POS_LIMIT as int, POS_LIMIT as int) as i64,
            },
            velocity: Vec2 {
                x: spec_clamped(velocity.x as int, -VEL_LIMIT as int, VEL_LIMIT as int) as i64,
                y: spec_clamped(velocity.y as int, -VEL_LIMIT as int, VEL_LIMIT as int) as i64,
            },
            target: Vec2 {
                x: spec_clamped(target.x as int, -CAP_LIMIT as int, CAP_LIMIT as int) as i64,
                y: spec_clamped(target.y as int, -CAP_LIMIT as int, CAP_LIMIT as int) as i64,
            },
        }
    }

    /// Builds a motion state, clamping position, velocity and target into
    /// their valid ranges.
    pub fn new(position: Vec2, velocity: Vec2, target: Vec2) -> (r: Motion)
        ensures
            r == Motion::spec_new(position, velocity, target),
            r.wf(),
            r.position.x == spec_clamped(position.x as int, -POS_LIMIT as int, POS_LIMIT as int),
            r.position.y == spec_clamped(position.y as int, -POS_LIMIT as int, POS_LIMIT as int),
            r.velocity.x == spec_clamped(velocity.x as int, -VEL_LIMIT as int, VEL_LIMIT as int),
            r.velocity.y == spec_clamped(velocity.y as int, -VEL_LIMIT as int, VEL_LIMIT as int),
            r.target.x == spec_clamped(target.x as int, -CAP_LIMIT as int, CAP_LIMIT as int),
            r.target.y == spec_clamped(target.y as int, -CAP_LIMIT as int, CAP_LIMIT as int),
    {
        Motion {
            position: Vec2 {
                x: clamped(position.x, -POS_LIMIT, POS_LIMIT),
                y: clamped(position.y, -POS_LIMIT, POS_LIMIT),
            },
            velocity: Vec2 {
                x: clamped(velocity.x, -VEL_LIMIT, VEL_LIMIT),
                y: clamped(velocity.y, -VEL_LIMIT, VEL_LIMIT),
            },
            target: Vec2 {
                x: clamped(target.x, -CAP_LIMIT, CAP_LIMIT),
                y: clamped(target.y, -CAP_LIMIT, CAP_LIMIT),
            },
        }
    }
}

} // verus!
