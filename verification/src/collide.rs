//! Axis-aligned collision detection.
//!
//! Two active bodies collide in a step when their category masks accept
//! each other and their boxes overlap on both axes at the current
//! (post-integration) positions.  The contact normal lies along the axis
//! of least penetration and the contact location is the midpoint of the
//! overlap rectangle.

use vstd::prelude::*;
use crate::units::{div_trunc, div_trunc_i64, mag_of, spec_max, spec_min};
use crate::vec2::{within, Vec2};
use crate::body::{RigidBody, POS_LIMIT};

verus! {

/// The axis a contact normal lies along.
#[derive(Clone, Copy, PartialEq, Eq, Structural, Debug)]
pub enum Axis {
    X,
    Y,
}

/// A detected overlap between two bodies, in executable form.
#[derive(Clone, Copy, PartialEq, Eq, Structural, Debug)]
pub struct Contact {
    /// Midpoint of the overlap rectangle, in subunits.
    pub location: Vec2,
    /// Axis of least penetration.
    pub axis: Axis,
    /// `+1` when the normal points from the first body to the second in
    /// the positive direction of the axis, `-1` otherwise.
    pub sign: i64,
    /// Penetration depth along the normal axis, in subunits; positive.
    pub penetration: i64,
}

/// The mathematical model of a contact.
pub struct ContactModel {
    pub loc_x: int,
    pub loc_y: int,
    pub axis_is_x: bool,
    pub sign: int,
    pub depth: int,
}

impl Contact {
    /// The contact as a mathematical value.
    pub open spec fn model(self) -> ContactModel {
        ContactModel {
            loc_x: self.location.x as int,
            loc_y: self.location.y as int,
            axis_is_x: self.axis is X,
            sign: self.sign as int,
            depth: self.penetration as int,
        }
    }
}

/// The category masks of the two bodies accept each other (a symmetric
/// test: each body's mask must contain a layer bit of the other).
pub open spec fn spec_pair_matches(a: RigidBody, b: RigidBody) -> bool {
    (a.mask & b.layer) != 0 && (b.mask & a.layer) != 0
}

/// Penetration along x at the given positions; positive means the boxes
/// overlap on that axis.
pub open spec fn spec_pen_x(a: RigidBody, pa: Vec2, b: RigidBody, pb: Vec2) -> int {
    a.half_width + b.half_width - mag_of(pb.x - pa.x)
}

/// Penetration along y at the given positions.
pub open spec fn spec_pen_y(a: RigidBody, pa: Vec2, b: RigidBody, pb: Vec2) -> int {
    a.half_height + b.half_height - mag_of(pb.y - pa.y)
}

/// The boxes overlap on both axes.
pub open spec fn spec_overlapping(a: RigidBody, pa: Vec2, b: RigidBody, pb: Vec2) -> bool {
    spec_pen_x(a, pa, b, pb) > 0 && spec_pen_y(a, pa, b, pb) > 0
}

/// The contact for an overlapping pair: least-penetration axis, normal
/// direction from the first body to the second, and the midpoint of the
/// overlap rectangle.
pub open spec fn spec_contact(a: RigidBody, pa: Vec2, b: RigidBody, pb: Vec2) -> ContactModel {
    let px = spec_pen_x(a, pa, b, pb);
    let py = spec_pen_y(a, pa, b, pb);
    let axis_is_x = px <= py;
    let lo_x = spec_max(pa.x - a.half_width, pb.x - b.half_width);
    let hi_x = spec_min(pa.x + a.half_width, pb.x + b.half_width);
    let lo_y = spec_max(pa.y - a.half_height, pb.y - b.half_height);
    let hi_y = spec_min(pa.y + a.half_height, pb.y + b.half_height);
    ContactModel {
        loc_x: div_trunc(lo_x + hi_x, 2),
        loc_y: div_trunc(lo_y + hi_y, 2),
        axis_is_x,
        sign: if axis_is_x {
            if pb.x - pa.x >= 0 {
                1
            } else {
                -1
            }
        } else {
            if pb.y - pa.y >= 0 {
                1
            } else {
                -1
            }
        },
        depth: if axis_is_x {
            px
        } else {
            py
        },
    }
}

/// The contact of an overlapping pair, as a value.
pub open spec fn spec_contact_value(a: RigidBody, pa: Vec2, b: RigidBody, pb: Vec2) -> Contact {
    let m = spec_contact(a, pa, b, pb);
    Contact {
        location: Vec2 { x: m.loc_x as i64, y: m.loc_y as i64 },
        axis: if m.axis_is_x {
            Axis::X
        } else {
            Axis::Y
        },
        sign: m.sign as i64,
        penetration: m.depth as i64,
    }
}

/// Tests one pair of bodies at the given positions: `None` when the
/// masks do not accept each other or the boxes do not overlap, otherwise
/// the contact of the pair.
pub fn detect_contact(a: &RigidBody, pa: Vec2, b: &RigidBody, pb: Vec2) -> (r: Option<Contact>)
    requires
        a.wf(),
        b.wf(),
        within(pa, POS_LIMIT as int),
        within(pb, POS_LIMIT as int),
    ensures
        r is Some <==> spec_pair_matches(*a, *b) && spec_overlapping(*a, pa, *b, pb),
        r is Some ==> r->Some_0 == spec_contact_value(*a, pa, *b, pb),
        r is Some ==> r->Some_0.model() == spec_contact(*a, pa, *b, pb),
        r is Some ==> 0 < r->Some_0.penetration <= 4000000000 && (r->Some_0.sign == 1
            || r->Some_0.sign == -1),
{
    if (a.mask & b.layer) == 0 || (b.mask & a.layer) == 0 {
        return None;
    }
    let dx: i64 = pb.x - pa.x;
    let dy: i64 = pb.y - pa.y;
    let adx: i64 = if dx >= 0 {
        dx
    } else {
        -dx
    };
    let ady: i64 = if dy >= 0 {
        dy
    } else {
        -dy
    };
    let pen_x: i64 = a.half_width + b.half_width - adx;
    let pen_y: i64 = a.half_height + b.half_height - ady;
    if pen_x <= 0 || pen_y <= 0 {
        return None;
    }
    let lo_x: i64 = if pa.x - a.half_width >= pb.x - b.half_width {
        pa.x - a.half_width
    } else {
        pb.x - b.half_width
    };
    let hi_x: i64 = if pa.x + a.half_width <= pb.x + b.half_width {
        pa.x + a.half_width
    } else {
        pb.x + b.half_width
    };
    let lo_y: i64 = if pa.y - a.half_height >= pb.y - b.half_height {
        pa.y - a.half_height
    } else {
        pb.y - b.half_height
    };
    let hi_y: i64 = if pa.y + a.half_height <= pb.y + b.half_height {
        pa.y + a.half_height
    } else {
        pb.y + b.half_height
    };
    let loc = Vec2 { x: div_trunc_i64(lo_x + hi_x, 2), y: div_trunc_i64(lo_y + hi_y, 2) };
    let axis_is_x = pen_x <= pen_y;
    let contact = Contact {
        location: loc,
        axis: if axis_is_x {
            Axis::X
        } else {
            Axis::Y
        },
        sign: if axis_is_x {
            if dx >= 0 {
                1
            } else {
                -1
            }
        } else {
            if dy >= 0 {
                1
            } else {
                -1
            }
        },
        penetration: if axis_is_x {
            pen_x
        } else {
            pen_y
        },
    };
    Some(contact)
}

} // verus!
