//! Impulse-based resolution of a detected contact.
//!
//! A contact between an approaching pair receives a restitution impulse
//! along the contact normal, split between the bodies in inverse
//! proportion to their masses; an immovable (zero-mass) body absorbs no
//! impulse and never moves.  The normal parts are rounded up so that the
//! pair always separates; the friction and position-correction parts are
//! rounded down so that friction can never reverse the tangential motion.

use vstd::prelude::*;
use crate::units::{
    div_trunc, div_up, flip, lemma_div_mul_le, mag_of, mul_div_i64, mul_div_up_i64, spec_min,
    SCALE,
};
use crate::vec2::{within, Vec2};
use crate::body::{
    clamped, spec_clamped, Motion, RigidBody, CAP_LIMIT, MASS_LIMIT, POS_LIMIT, VEL_LIMIT,
};
use crate::collide::{Axis, Contact};

verus! {

/// A quantity `q` split between two bodies in inverse proportion to
/// their masses, each share rounded up: an immovable body takes nothing,
/// and the shares always sum to at least `q`.
pub open spec fn spec_split_up(q: int, ma: int, mb: int) -> (int, int) {
    if ma == 0 && mb == 0 {
        (0, 0)
    } else if ma == 0 {
        (0, q)
    } else if mb == 0 {
        (q, 0)
    } else {
        (div_up(q * mb, ma + mb), div_up(q * ma, ma + mb))
    }
}

/// As `spec_split_up`, but with each share rounded down, so the shares
/// sum to at most `q`.
pub open spec fn spec_split_down(q: int, ma: int, mb: int) -> (int, int) {
    if ma == 0 && mb == 0 {
        (0, 0)
    } else if ma == 0 {
        (0, q)
    } else if mb == 0 {
        (q, 0)
    } else {
        ((q * mb) / (ma + mb), (q * ma) / (ma + mb))
    }
}

/// Cancelling a positive common factor preserves order.
proof fn lemma_cancel_common(x: int, y: int, m: int)
    by (nonlinear_arith)
    requires
        m >= 1,
        x * m <= y * m,
    ensures
        x <= y,
{
}

/// Splits `q` between the bodies, rounding each share up.
fn split_up(q: i64, ma: i64, mb: i64) -> (r: (i64, i64))
    requires
        0 <= q <= 2000000000,
        0 <= ma <= MASS_LIMIT,
        0 <= mb <= MASS_LIMIT,
    ensures
        (r.0 as int, r.1 as int) == spec_split_up(q as int, ma as int, mb as int),
        0 <= r.0 <= q,
        0 <= r.1 <= q,
        !(ma == 0 && mb == 0) ==> r.0 + r.1 >= q,
        ma == 0 ==> r.0 == 0,
        mb == 0 ==> r.1 == 0,
{
    if ma == 0 && mb == 0 {
        (0, 0)
    } else if ma == 0 {
        (0, q)
    } else if mb == 0 {
        (q, 0)
    } else {
        let m: i64 = ma + mb;
        proof {
            assert(0 <= (q as int) * (mb as int) <= 20000000000000000int && 0 <= (q as int) * (
            ma as int) <= 20000000000000000int) by (nonlinear_arith)
                requires
                    0 <= q <= 2000000000,
                    0 <= ma <= 10000000,
                    0 <= mb <= 10000000,
            ;
        }
        let ra = mul_div_up_i64(q, mb, m);
        let rb = mul_div_up_i64(q, ma, m);
        proof {
            let qi = q as int;
            let mi = m as int;
            assert(qi * (mb as int) + qi * (ma as int) == qi * mi && qi * (mb as int) <= qi * mi
                && qi * (ma as int) <= qi * mi) by (nonlinear_arith)
                requires
                    qi >= 0,
                    ma >= 1,
                    mb >= 1,
                    mi == ma + mb,
            ;
            // shares sum to at least q: (ra + rb) * m >= q * mb + q * ma == q * m
            assert((ra + rb) as int * mi == (ra as int) * mi + (rb as int) * mi)
                by (nonlinear_arith);
            lemma_cancel_common(qi, (ra + rb) as int, mi);
            // each share is at most q: ra * m < q * mb + m <= (q + 1) * m
            assert((qi + 1) * mi == qi * mi + mi) by (nonlinear_arith);
            assert((ra as int) * mi < ((qi + 1)) * mi);
            assert(!((ra as int) <= qi) ==> (qi + 1) * mi <= (ra as int) * mi)
                by (nonlinear_arith)
                requires
                    mi >= 1,
            ;
            assert((rb as int) * mi < ((qi + 1)) * mi);
            assert(!((rb as int) <= qi) ==> (qi + 1) * mi <= (rb as int) * mi)
                by (nonlinear_arith)
                requires
                    mi >= 1,
            ;
        }
        (ra, rb)
    }
}

/// Splits `q` between the bodies, rounding each share down.
fn split_down(q: i64, ma: i64, mb: i64) -> (r: (i64, i64))
    requires
        0 <= q <= 2000000000,
        0 <= ma <= MASS_LIMIT,
        0 <= mb <= MASS_LIMIT,
    ensures
        (r.0 as int, r.1 as int) == spec_split_down(q as int, ma as int, mb as int),
        0 <= r.0 <= q,
        0 <= r.1 <= q,
        r.0 + r.1 <= q,
        ma == 0 ==> r.0 == 0,
        mb == 0 ==> r.1 == 0,
{
    if ma == 0 && mb == 0 {
        (0, 0)
    } else if ma == 0 {
        (0, q)
    } else if mb == 0 {
        (q, 0)
    } else {
        let m: i64 = ma + mb;
        proof {
            assert(mag_of(q as int) * mag_of(mb as int) <= 20000000000000000int
                && mag_of(q as int) * mag_of(ma as int) <= 20000000000000000int)
                by (nonlinear_arith)
                requires
                    0 <= q <= 2000000000,
                    0 <= ma <= 10000000,
                    0 <= mb <= 10000000,
            ;
        }
        let ra = mul_div_i64(q, mb, m);
        let rb = mul_div_i64(q, ma, m);
        proof {
            let qi = q as int;
            let mi = m as int;
            assert(qi * (mb as int) + qi * (ma as int) == qi * mi && qi * (mb as int) <= qi * mi
                && qi * (ma as int) <= qi * mi && qi * (mb as int) >= 0 && qi * (ma as int) >= 0)
                by (nonlinear_arith)
                requires
                    qi >= 0,
                    ma >= 1,
                    mb >= 1,
                    mi == ma + mb,
            ;
            lemma_div_mul_le(qi * (mb as int), mi);
            lemma_div_mul_le(qi * (ma as int), mi);
            assert((ra + rb) as int * mi == (ra as int) * mi + (rb as int) * mi)
                by (nonlinear_arith);
            lemma_cancel_common((ra + rb) as int, qi, mi);
            vstd::arithmetic::div_mod::lemma_div_is_ordered(
                qi * (mb as int),
                qi * mi,
                mi,
            );
            vstd::arithmetic::div_mod::lemma_div_is_ordered(
                qi * (ma as int),
                qi * mi,
                mi,
            );
            vstd::arithmetic::div_mod::lemma_div_multiples_vanish(qi, mi);
        }
        (ra, rb)
    }
}

/// The component of `v` along the contact axis (`true` for x).
pub open spec fn axis_val(v: Vec2, is_x: bool) -> int {
    if is_x {
        v.x as int
    } else {
        v.y as int
    }
}

/// The mathematical result of resolving one contact.
pub struct ResolveModel {
    pub a_vel_x: int,
    pub a_vel_y: int,
    pub b_vel_x: int,
    pub b_vel_y: int,
    pub a_pos_x: int,
    pub a_pos_y: int,
    pub b_pos_x: int,
    pub b_pos_y: int,
}

/// Resolution of one contact, as an exact function of the two bodies,
/// their motions, and the contact normal: restitution impulse along the
/// normal (rounded up, split by inverse mass), Coulomb-clamped friction
/// along the tangent (rounded down), and a positional correction of half
/// the penetration (rounded down), with every result saturated at the
/// global coordinate and velocity limits.  The pair's restitution and
/// friction are each combined as the smaller of the two bodies' values.
/// A separating pair takes no impulse and no friction, which prevents
/// sticking; a pair of two immovable bodies is untouched entirely.
pub open spec fn spec_resolve(
    a: RigidBody,
    b: RigidBody,
    ma: Motion,
    mb: Motion,
    axis_is_x: bool,
    sign: int,
    depth: int,
) -> ResolveModel {
    let va_n = axis_val(ma.velocity, axis_is_x);
    let vb_n = axis_val(mb.velocity, axis_is_x);
    let va_t = axis_val(ma.velocity, !axis_is_x);
    let vb_t = axis_val(mb.velocity, !axis_is_x);
    let e = spec_min(a.restitution as int, b.restitution as int);
    let f = spec_min(a.friction as int, b.friction as int);
    let vrel_n = (vb_n - va_n) * sign;
    let vrel_t = vb_t - va_t;
    let nd = if vrel_n < 0 {
        spec_split_up(div_up((SCALE + e) * (-vrel_n), SCALE as int), a.mass as int, b.mass as int)
    } else {
        (0int, 0int)
    };
    let u = if vrel_n < 0 {
        spec_min(
            mag_of(vrel_t),
            div_trunc(f * ((SCALE + e) * (-vrel_n)), (SCALE * SCALE) as int),
        )
    } else {
        0int
    };
    let td = spec_split_down(u, a.mass as int, b.mass as int);
    let dir: int = if vrel_t >= 0 {
        1
    } else {
        -1
    };
    let va_n2 = spec_clamped(va_n - nd.0 * sign, -VEL_LIMIT as int, VEL_LIMIT as int);
    let vb_n2 = spec_clamped(vb_n + nd.1 * sign, -VEL_LIMIT as int, VEL_LIMIT as int);
    let va_t2 = spec_clamped(va_t + td.0 * dir, -VEL_LIMIT as int, VEL_LIMIT as int);
    let vb_t2 = spec_clamped(vb_t - td.1 * dir, -VEL_LIMIT as int, VEL_LIMIT as int);
    let cd = spec_split_down(div_trunc(depth, 2), a.mass as int, b.mass as int);
    let pa_n2 = spec_clamped(
        axis_val(ma.position, axis_is_x) - cd.0 * sign,
        -POS_LIMIT as int,
        POS_LIMIT as int,
    );
    let pb_n2 = spec_clamped(
        axis_val(mb.position, axis_is_x) + cd.1 * sign,
        -POS_LIMIT as int,
        POS_LIMIT as int,
    );
    ResolveModel {
        a_vel_x: if axis_is_x {
            va_n2
        } else {
            va_t2
        },
        a_vel_y: if axis_is_x {
            va_t2
        } else {
            va_n2
        },
        b_vel_x: if axis_is_x {
            vb_n2
        } else {
            vb_t2
        },
        b_vel_y: if axis_is_x {
            vb_t2
        } else {
            vb_n2
        },
        a_pos_x: if axis_is_x {
            pa_n2
        } else {
            ma.position.x as int
        },
        a_pos_y: if axis_is_x {
            ma.position.y as int
        } else {
            pa_n2
        },
        b_pos_x: if axis_is_x {
            pb_n2
        } else {
            mb.position.x as int
        },
        b_pos_y: if axis_is_x {
            mb.position.y as int
        } else {
            pb_n2
        },
    }
}

/// The two motion states after resolving one contact, as values.
pub open spec fn spec_resolve_motions(
    a: RigidBody,
    b: RigidBody,
    ma: Motion,
    mb: Motion,
    axis_is_x: bool,
    sign: int,
    depth: int,
) -> (Motion, Motion) {
    let m = spec_resolve(a, b, ma, mb, axis_is_x, sign, depth);
    (
        Motion {
            position: Vec2 { x: m.a_pos_x as i64, y: m.a_pos_y as i64 },
            velocity: Vec2 { x: m.a_vel_x as i64, y: m.a_vel_y as i64 },
            target: ma.target,
        },
        Motion {
            position: Vec2 { x: m.b_pos_x as i64, y: m.b_pos_y as i64 },
            velocity: Vec2 { x: m.b_vel_x as i64, y: m.b_vel_y as i64 },
            target: mb.target,
        },
    )
}

/// Resolves one contact: applies the restitution impulse, friction and
/// positional correction, and returns the two new motion states.
///
/// Guarantees, beyond the exact model:
/// - an immovable body comes out of resolution entirely unchanged;
/// - for velocities within the per-role cap range, an approaching pair
///   with at least one movable body separates: the post-resolution
///   relative velocity along the normal is nonnegative;
/// - friction never reverses the tangential relative motion, it only
///   shrinks it.
#[verifier::rlimit(100)]
pub fn resolve_contact(
    a: &RigidBody,
    b: &RigidBody,
    ma: &Motion,
    mb: &Motion,
    contact: &Contact,
) -> (r: (Motion, Motion))
    requires
        a.wf(),
        b.wf(),
        ma.wf(),
        mb.wf(),
        contact.sign == 1 || contact.sign == -1,
        0 <= contact.penetration <= 4000000000,
    ensures
        ({
            let m = spec_resolve(
                *a,
                *b,
                *ma,
                *mb,
                contact.axis is X,
                contact.sign as int,
                contact.penetration as int,
            );
            &&& r.0.velocity.x == m.a_vel_x
            &&& r.0.velocity.y == m.a_vel_y
            &&& r.1.velocity.x == m.b_vel_x
            &&& r.1.velocity.y == m.b_vel_y
            &&& r.0.position.x == m.a_pos_x
            &&& r.0.position.y == m.a_pos_y
            &&& r.1.position.x == m.b_pos_x
            &&& r.1.position.y == m.b_pos_y
        }),
        (r.0, r.1) == spec_resolve_motions(
            *a,
            *b,
            *ma,
            *mb,
            contact.axis is X,
            contact.sign as int,
            contact.penetration as int,
        ),
        r.0.target == ma.target,
        r.1.target == mb.target,
        r.0.wf(),
        r.1.wf(),
        a.is_static() ==> r.0 == *ma,
        b.is_static() ==> r.1 == *mb,
        !(a.is_static() && b.is_static()) && within(ma.velocity, CAP_LIMIT as int) && within(
            mb.velocity,
            CAP_LIMIT as int,
        ) ==> (axis_val(r.1.velocity, contact.axis is X) - axis_val(
            r.0.velocity,
            contact.axis is X,
        )) * contact.sign >= 0,
        within(ma.velocity, CAP_LIMIT as int) && within(mb.velocity, CAP_LIMIT as int) ==> ({
            let old_t = axis_val(mb.velocity, !(contact.axis is X)) - axis_val(
                ma.velocity,
                !(contact.axis is X),
            );
            let new_t = axis_val(r.1.velocity, !(contact.axis is X)) - axis_val(
                r.0.velocity,
                !(contact.axis is X),
            );
            mag_of(new_t) <= mag_of(old_t) && new_t * old_t >= 0
        }),
{
    let axis_x: bool = match contact.axis {
        Axis::X => true,
        Axis::Y => false,
    };
    let sign: i64 = contact.sign;
    let va_n: i64 = if axis_x {
        ma.velocity.x
    } else {
        ma.velocity.y
    };
    let vb_n: i64 = if axis_x {
        mb.velocity.x
    } else {
        mb.velocity.y
    };
    let va_t: i64 = if axis_x {
        ma.velocity.y
    } else {
        ma.velocity.x
    };
    let vb_t: i64 = if axis_x {
        mb.velocity.y
    } else {
        mb.velocity.x
    };
    let e: i64 = if a.restitution <= b.restitution {
        a.restitution
    } else {
        b.restitution
    };
    let f: i64 = if a.friction <= b.friction {
        a.friction
    } else {
        b.friction
    };
    let vrel_n: i64 = flip(vb_n - va_n, sign);
    let vrel_t: i64 = vb_t - va_t;
    let approaching = vrel_n < 0;
    let mut q: i64 = 0;
    let mut u: i64 = 0;
    if approaching {
        let w: i64 = -vrel_n;
        proof {
            assert(0 <= ((SCALE + e) as int) * (w as int) <= 400000000000int) by (nonlinear_arith)
                requires
                    0 <= e <= 1000,
                    0 <= w <= 200000000,
                    SCALE == 1000,
            ;
        }
        let x: i64 = (SCALE + e) * w;
        q = (x + (SCALE - 1)) / SCALE;
        proof {
            vstd::arithmetic::div_mod::lemma_div_pos_is_pos((x + (SCALE - 1)) as int, SCALE as int);
            vstd::arithmetic::div_mod::lemma_div_is_ordered(
                (x + (SCALE - 1)) as int,
                400000000999int,
                SCALE as int,
            );
            assert(mag_of(f as int) * mag_of(x as int) <= 10000int * 400000000000int)
                by (nonlinear_arith)
                requires
                    0 <= f <= 10000,
                    0 <= x <= 400000000000,
            ;
        }
        let fx: i64 = mul_div_i64(f, x, SCALE * SCALE);
        let at: i64 = if vrel_t >= 0 {
            vrel_t
        } else {
            -vrel_t
        };
        u = if at <= fx {
            at
        } else {
            fx
        };
        proof {
            vstd::arithmetic::div_mod::lemma_div_pos_is_pos((f * x) as int, (SCALE * SCALE) as int);
        }
    }
    let nd = split_up(q, a.mass, b.mass);
    let td = split_down(u, a.mass, b.mass);
    let dir: i64 = if vrel_t >= 0 {
        1
    } else {
        -1
    };
    let corr: i64 = contact.penetration / 2;
    let cd = split_down(corr, a.mass, b.mass);
    let va_n2 = clamped(va_n - flip(nd.0, sign), -VEL_LIMIT, VEL_LIMIT);
    let vb_n2 = clamped(vb_n + flip(nd.1, sign), -VEL_LIMIT, VEL_LIMIT);
    let va_t2 = clamped(va_t + flip(td.0, dir), -VEL_LIMIT, VEL_LIMIT);
    let vb_t2 = clamped(vb_t - flip(td.1, dir), -VEL_LIMIT, VEL_LIMIT);
    let pa_n: i64 = if axis_x {
        ma.position.x
    } else {
        ma.position.y
    };
    let pb_n: i64 = if axis_x {
        mb.position.x
    } else {
        mb.position.y
    };
    let pa_n2 = clamped(pa_n - flip(cd.0, sign), -POS_LIMIT, POS_LIMIT);
    let pb_n2 = clamped(pb_n + flip(cd.1, sign), -POS_LIMIT, POS_LIMIT);
    let new_a = Motion {
        position: if axis_x {
            Vec2 { x: pa_n2, y: ma.position.y }
        } else {
            Vec2 { x: ma.position.x, y: pa_n2 }
        },
        velocity: if axis_x {
            Vec2 { x: va_n2, y: va_t2 }
        } else {
            Vec2 { x: va_t2, y: va_n2 }
        },
        target: ma.target,
    };
    let new_b = Motion {
        position: if axis_x {
            Vec2 { x: pb_n2, y: mb.position.y }
        } else {
            Vec2 { x: mb.position.x, y: pb_n2 }
        },
        velocity: if axis_x {
            Vec2 { x: vb_n2, y: vb_t2 }
        } else {
            Vec2 { x: vb_t2, y: vb_n2 }
        },
        target: mb.target,
    };
    proof {
        lemma_resolve_properties(
            *a,
            *b,
            *ma,
            *mb,
            axis_x,
            sign as int,
            contact.penetration as int,
            va_n as int,
            vb_n as int,
            va_t as int,
            vb_t as int,
            q as int,
            u as int,
            nd.0 as int,
            nd.1 as int,
            td.0 as int,
            td.1 as int,
        );
    }
    (new_a, new_b)
}

/// Separation and friction facts for capped inputs: the normal deltas
/// restore a nonnegative relative velocity, and the tangential deltas
/// never exceed the tangential relative speed.
proof fn lemma_resolve_properties(
    a: RigidBody,
    b: RigidBody,
    ma: Motion,
    mb: Motion,
    axis_is_x: bool,
    sign: int,
    depth: int,
    va_n: int,
    vb_n: int,
    va_t: int,
    vb_t: int,
    q: int,
    u: int,
    nd0: int,
    nd1: int,
    td0: int,
    td1: int,
)
    requires
        a.wf(),
        b.wf(),
        ma.wf(),
        mb.wf(),
        sign == 1 || sign == -1,
        va_n == axis_val(ma.velocity, axis_is_x),
        vb_n == axis_val(mb.velocity, axis_is_x),
        va_t == axis_val(ma.velocity, !axis_is_x),
        vb_t == axis_val(mb.velocity, !axis_is_x),
        (vb_n - va_n) * sign < 0 ==> q == div_up(
            (SCALE + spec_min(a.restitution as int, b.restitution as int)) * (-((vb_n - va_n)
                * sign)),
            SCALE as int,
        ),
        (vb_n - va_n) * sign >= 0 ==> q == 0 && u == 0,
        0 <= u <= mag_of(vb_t - va_t),
        0 <= nd0 <= q,
        0 <= nd1 <= q,
        !(a.mass == 0 && b.mass == 0) ==> nd0 + nd1 >= q,
        0 <= td0,
        0 <= td1,
        td0 + td1 <= u,
    ensures
        within(ma.velocity, CAP_LIMIT as int) && within(mb.velocity, CAP_LIMIT as int) ==> ({
            let dirv: int = if vb_t - va_t >= 0 {
                1
            } else {
                -1
            };
            let old_t = vb_t - va_t;
            let new_t = (vb_t - td1 * dirv) - (va_t + td0 * dirv);
            &&& !(a.mass == 0 && b.mass == 0) ==> ((vb_n + nd1 * sign) - (va_n - nd0 * sign))
                * sign >= 0
            &&& mag_of(va_n - nd0 * sign) <= VEL_LIMIT
            &&& mag_of(vb_n + nd1 * sign) <= VEL_LIMIT
            &&& mag_of(va_t + td0 * dirv) <= VEL_LIMIT
            &&& mag_of(vb_t - td1 * dirv) <= VEL_LIMIT
            &&& mag_of(new_t) <= mag_of(old_t)
            &&& new_t * old_t >= 0
        }),
{
    if within(ma.velocity, CAP_LIMIT as int) && within(mb.velocity, CAP_LIMIT as int) {
        let vrel_n = (vb_n - va_n) * sign;
        let e = spec_min(a.restitution as int, b.restitution as int);
        assert(mag_of(vrel_n) == mag_of(vb_n - va_n)) by (nonlinear_arith)
            requires
                sign == 1 || sign == -1,
                vrel_n == (vb_n - va_n) * sign,
        ;
        if vrel_n < 0 {
            let w = -vrel_n;
            assert(w <= 20000000);
            assert((SCALE + e) * (-vrel_n) == (SCALE + e) * w && SCALE * w <= (SCALE + e) * w <= 2
                * SCALE * w) by (nonlinear_arith)
                requires
                    0 <= e <= SCALE,
                    w >= 0,
                    w == -vrel_n,
                    SCALE == 1000,
            ;
            vstd::arithmetic::div_mod::lemma_div_is_ordered(
                SCALE * w + (SCALE - 1),
                (SCALE + e) * w + (SCALE - 1),
                SCALE as int,
            );
            vstd::arithmetic::div_mod::lemma_hoist_over_denominator(
                (SCALE - 1) as int,
                w,
                SCALE as nat,
            );
            assert(w * (SCALE as nat) == SCALE * w) by (nonlinear_arith)
                requires
                    SCALE == 1000,
            ;
            assert(q >= w);
            vstd::arithmetic::div_mod::lemma_div_is_ordered(
                (SCALE + e) * w + (SCALE - 1),
                2 * SCALE * w + (SCALE - 1),
                SCALE as int,
            );
            vstd::arithmetic::div_mod::lemma_hoist_over_denominator(
                (SCALE - 1) as int,
                2 * w,
                SCALE as nat,
            );
            assert((2 * w) * (SCALE as nat) == 2 * SCALE * w) by (nonlinear_arith)
                requires
                    SCALE == 1000,
            ;
            assert(q <= 2 * w);
        }
        // the normal deltas restore separation
        assert(((vb_n + nd1 * sign) - (va_n - nd0 * sign)) * sign == vrel_n + nd0 + nd1)
            by (nonlinear_arith)
            requires
                sign == 1 || sign == -1,
                vrel_n == (vb_n - va_n) * sign,
        ;
        // magnitudes stay inside the hard velocity bound
        assert(q <= 40000001);
        assert(mag_of(nd0 * sign) <= q && mag_of(nd1 * sign) <= q) by (nonlinear_arith)
            requires
                sign == 1 || sign == -1,
                0 <= nd0 <= q,
                0 <= nd1 <= q,
        ;
        let dir: int = if vb_t - va_t >= 0 {
            1
        } else {
            -1
        };
        assert(u <= 40000000);
        assert(mag_of(td0 * dir) <= u && mag_of(td1 * dir) <= u) by (nonlinear_arith)
            requires
                dir == 1 || dir == -1,
                0 <= td0 <= u,
                0 <= td1 <= u,
        ;
        // friction shrinks the tangential relative motion without
        // reversing it
        let old_t = vb_t - va_t;
        let s = td0 + td1;
        let new_t = (vb_t - td1 * dir) - (va_t + td0 * dir);
        assert(new_t == old_t - s * dir) by (nonlinear_arith)
            requires
                new_t == (vb_t - td1 * dir) - (va_t + td0 * dir),
                old_t == vb_t - va_t,
                s == td0 + td1,
        ;
        if old_t >= 0 {
            assert(0 <= new_t <= old_t);
            assert(new_t * old_t >= 0) by (nonlinear_arith)
                requires
                    new_t >= 0,
                    old_t >= 0,
            ;
        } else {
            assert(old_t <= new_t <= 0);
            assert(new_t * old_t >= 0) by (nonlinear_arith)
                requires
                    new_t <= 0,
                    old_t <= 0,
            ;
        }
    }
}

} // verus!
