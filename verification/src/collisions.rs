//! Continuous collision detection between a vertex and a moving constraint
//! segment, and impulse-based resolution with restitution and friction.
//!
//! The geometric predicates are exact integer tests on raw fixed-point
//! coordinates: signed areas decide segment crossings, an even-odd
//! horizontal ray cast decides point containment, and distances compare
//! through squares or the integer square root, so no test ever divides by
//! a vanishing quantity.

use vstd::prelude::*;
use crate::fixed::{
    FX_SCALE, fx_in_range, abs_s, div_trunc, fx_add_s, fx_sub_s, fx_neg_s, fx_mul_s, fx_div_s,
    isqrt_s, fx_add, fx_sub, fx_neg, fx_mul, fx_div, fx_clip, isqrt_u128, div_trunc_i128,
    lemma_isqrt_bounds,
};
use crate::vec2::{
    Vec2, v_in_range, v_zero, v_add_s, v_sub_s, v_neg_s, v_scale_s, v_div_scalar_s, v_dot_s,
    v_norm_s, v_normalize_s, v_add, v_sub, v_neg, v_scale, v_div_scalar, v_dot, v_norm,
    v_normalize,
};
use crate::simulation::{Vertex, vertex_wf, next_position_s};
use crate::surface::Surface;

verus! {

/// Twice the signed area of the triangle `(p, a, b)`: the scalar cross
/// product `(b - p) x (p - a)`, exact on raw coordinates.
pub open spec fn signed_area_s(p: Vec2, a: Vec2, b: Vec2) -> int {
    (b.x - p.x) * (p.y - a.y) - (b.y - p.y) * (p.x - a.x)
}

/// The sign as the hardware float `signum` sees it: nonnegative is `1`.
pub open spec fn sign_s(x: int) -> int {
    if x >= 0 {
        1
    } else {
        -1
    }
}

/// Proper crossing of segment `(a, b)` with segment `(c, d)`: the
/// endpoints of each lie on opposite sides of the other, by signed area.
pub open spec fn crossing_s(a: Vec2, b: Vec2, c: Vec2, d: Vec2) -> bool {
    sign_s(signed_area_s(a, c, d)) != sign_s(signed_area_s(b, c, d)) && sign_s(
        signed_area_s(c, a, b),
    ) != sign_s(signed_area_s(d, a, b))
}

/// Even-odd test: whether the horizontal ray cast from `p` toward
/// negative x crosses the segment `(a, b)`. A probe lying exactly on an
/// endpoint's height is nudged up by one raw unit to dodge the degenerate
/// horizontal-ray case.
pub open spec fn ray_intersect_seg_s(p: Vec2, a: Vec2, b: Vec2) -> bool {
    let ax = if a.y > b.y {
        b.x as int
    } else {
        a.x as int
    };
    let ay = if a.y > b.y {
        b.y as int
    } else {
        a.y as int
    };
    let bx = if a.y > b.y {
        a.x as int
    } else {
        b.x as int
    };
    let by = if a.y > b.y {
        a.y as int
    } else {
        b.y as int
    };
    let px = p.x as int;
    let py = if p.y == ay || p.y == by {
        p.y + 1
    } else {
        p.y as int
    };
    let max_x = if ax > bx {
        ax
    } else {
        bx
    };
    let min_x = if ax < bx {
        ax
    } else {
        bx
    };
    if py > by || py < ay || px > max_x {
        false
    } else if px < min_x {
        true
    } else if ax == bx || px == ax {
        true
    } else {
        (py - ay) * (bx - ax) >= (by - ay) * (px - ax)
    }
}

/// Even-odd containment of `p` in the quadrilateral `(q0, q1, q2, q3)`:
/// the horizontal ray from `p` crosses an odd number of its edges.
pub open spec fn inside_quad_s(q0: Vec2, q1: Vec2, q2: Vec2, q3: Vec2, p: Vec2) -> bool {
    let c0: int = if ray_intersect_seg_s(p, q0, q1) {
        1
    } else {
        0
    };
    let c1: int = if ray_intersect_seg_s(p, q1, q2) {
        1
    } else {
        0
    };
    let c2: int = if ray_intersect_seg_s(p, q2, q3) {
        1
    } else {
        0
    };
    let c3: int = if ray_intersect_seg_s(p, q3, q0) {
        1
    } else {
        0
    };
    (c0 + c1 + c2 + c3) % 2 == 1
}

/// Whether the swept segment `(s0, s1)` meets the swept quadrilateral:
/// some quad edge crosses it, or one of its endpoints lies inside.
pub open spec fn colliding_poly_s(
    q0: Vec2,
    q1: Vec2,
    q2: Vec2,
    q3: Vec2,
    s0: Vec2,
    s1: Vec2,
) -> bool {
    ||| crossing_s(s0, s1, q0, q1)
    ||| crossing_s(s0, s1, q1, q2)
    ||| crossing_s(s0, s1, q2, q3)
    ||| crossing_s(s0, s1, q3, q0)
    ||| inside_quad_s(q0, q1, q2, q3, s0)
    ||| inside_quad_s(q0, q1, q2, q3, s1)
}

/// Squared-distance proximity of two points.
pub open spec fn near_point_s(p: Vec2, q: Vec2, radius: int) -> bool {
    (p.x - q.x) * (p.x - q.x) + (p.y - q.y) * (p.y - q.y) < radius * radius
}

/// Raw squared length of the segment from `b` to `a`.
pub open spec fn seg_norm_sq_s(a: Vec2, b: Vec2) -> int {
    (a.x - b.x) * (a.x - b.x) + (a.y - b.y) * (a.y - b.y)
}

/// Resting contact with the line through `a`-`b`: the distance from `v`
/// to the infinite line is under `radius` and the closest point of the
/// line lies within the segment's span. A degenerate zero-length segment
/// never matches.
pub open spec fn near_segment_s(v: Vec2, a: Vec2, b: Vec2, radius: int) -> bool {
    let nsq = seg_norm_sq_s(a, b);
    let n = isqrt_s(nsq as nat) as int;
    let along = (b.x - a.x) * (v.x - a.x) + (b.y - a.y) * (v.y - a.y);
    n > 0 && div_trunc(abs_s(signed_area_s(v, a, b)), n) < radius && 0 <= along <= nsq
}

/// Continuous collision between the probe `vertex` and the surface
/// segment `(a, b)` over a substep of length `dt`: the swept-quad test,
/// the resting-contact test against the current segment, or plain
/// proximity to either endpoint.
pub open spec fn colliding_s(vertex: Vertex, a: Vertex, b: Vertex, dt: int, radius: int) -> bool {
    let q0 = a.position;
    let q1 = b.position;
    let q2 = next_position_s(b, dt);
    let q3 = next_position_s(a, dt);
    let s0 = vertex.position;
    let s1 = next_position_s(vertex, dt);
    ||| colliding_poly_s(q0, q1, q2, q3, s0, s1)
    ||| near_segment_s(s0, q0, q1, radius)
    ||| near_point_s(s0, q0, radius)
    ||| near_point_s(s0, q1, radius)
}

/// Whether `vertex` lies within the axis-aligned bounding box of `a`, `b`.
pub open spec fn inside_box_s(vertex: Vec2, a: Vec2, b: Vec2) -> bool {
    let max_x = if a.x > b.x {
        a.x
    } else {
        b.x
    };
    let min_x = if a.x < b.x {
        a.x
    } else {
        b.x
    };
    let max_y = if a.y > b.y {
        a.y
    } else {
        b.y
    };
    let min_y = if a.y < b.y {
        a.y
    } else {
        b.y
    };
    vertex.x <= max_x && vertex.x >= min_x && vertex.y <= max_y && vertex.y >= min_y
}

/// The scalar cross product `(b - vertex) x (vertex - a)`, exact.
pub fn distance_vector(vertex: Vec2, a: Vec2, b: Vec2) -> (r: i128)
    requires
        v_in_range(vertex),
        v_in_range(a),
        v_in_range(b),
    ensures
        r == signed_area_s(vertex, a, b),
        -0x800000000000000000000 <= r <= 0x800000000000000000000,
{
    proof {
        crate::fixed::lemma_mul_bounds(
            b.x - vertex.x,
            vertex.y - a.y,
            0x20000000000,
            0x20000000000,
        );
        crate::fixed::lemma_mul_bounds(
            b.y - vertex.y,
            vertex.x - a.x,
            0x20000000000,
            0x20000000000,
        );
    }
    let t1: i128 = (b.x as i128 - vertex.x as i128) * (vertex.y as i128 - a.y as i128);
    let t2: i128 = (b.y as i128 - vertex.y as i128) * (vertex.x as i128 - a.x as i128);
    t1 - t2
}

/// Proper segment crossing by the same-side signed-area test.
pub fn get_crossing(a: Vec2, b: Vec2, c: Vec2, d: Vec2) -> (r: bool)
    requires
        v_in_range(a),
        v_in_range(b),
        v_in_range(c),
        v_in_range(d),
    ensures
        r == crossing_s(a, b, c, d),
{
    let d1 = distance_vector(a, c, d);
    let d2 = distance_vector(b, c, d);
    let d3 = distance_vector(c, a, b);
    let d4 = distance_vector(d, a, b);
    ((d1 >= 0) != (d2 >= 0)) && ((d3 >= 0) != (d4 >= 0))
}

/// Horizontal even-odd ray cast against one segment.
pub fn ray_intersect_seg(p: Vec2, a: Vec2, b: Vec2) -> (r: bool)
    requires
        v_in_range(p),
        v_in_range(a),
        v_in_range(b),
    ensures
        r == ray_intersect_seg_s(p, a, b),
{
    let (lo, hi) = if a.y > b.y {
        (b, a)
    } else {
        (a, b)
    };
    let px = p.x;
    let py: i64 = if p.y == lo.y || p.y == hi.y {
        p.y + 1
    } else {
        p.y
    };
    let max_x = if lo.x > hi.x {
        lo.x
    } else {
        hi.x
    };
    let min_x = if lo.x < hi.x {
        lo.x
    } else {
        hi.x
    };
    if py > hi.y || py < lo.y || px > max_x {
        false
    } else if px < min_x {
        true
    } else if lo.x == hi.x || px == lo.x {
        true
    } else {
        proof {
            crate::fixed::lemma_mul_bounds(
                py - lo.y,
                hi.x - lo.x,
                0x20000000001,
                0x20000000000,
            );
            crate::fixed::lemma_mul_bounds(
                hi.y - lo.y,
                px - lo.x,
                0x20000000000,
                0x20000000000,
            );
        }
        let lhs: i128 = (py as i128 - lo.y as i128) * (hi.x as i128 - lo.x as i128);
        let rhs: i128 = (hi.y as i128 - lo.y as i128) * (px as i128 - lo.x as i128);
        lhs >= rhs
    }
}

/// Even-odd containment of `p` in the quadrilateral `(q0, q1, q2, q3)`.
pub fn get_inside(q0: Vec2, q1: Vec2, q2: Vec2, q3: Vec2, p: Vec2) -> (r: bool)
    requires
        v_in_range(q0),
        v_in_range(q1),
        v_in_range(q2),
        v_in_range(q3),
        v_in_range(p),
    ensures
        r == inside_quad_s(q0, q1, q2, q3, p),
{
    let mut count: u32 = 0;
    if ray_intersect_seg(p, q0, q1) {
        count += 1;
    }
    if ray_intersect_seg(p, q1, q2) {
        count += 1;
    }
    if ray_intersect_seg(p, q2, q3) {
        count += 1;
    }
    if ray_intersect_seg(p, q3, q0) {
        count += 1;
    }
    count % 2 == 1
}

/// Swept-quad versus swept-segment test.
pub fn get_colliding_poly(q0: Vec2, q1: Vec2, q2: Vec2, q3: Vec2, s0: Vec2, s1: Vec2) -> (r: bool)
    requires
        v_in_range(q0),
        v_in_range(q1),
        v_in_range(q2),
        v_in_range(q3),
        v_in_range(s0),
        v_in_range(s1),
    ensures
        r == colliding_poly_s(q0, q1, q2, q3, s0, s1),
{
    if get_crossing(s0, s1, q0, q1) {
        return true;
    }
    if get_crossing(s0, s1, q1, q2) {
        return true;
    }
    if get_crossing(s0, s1, q2, q3) {
        return true;
    }
    if get_crossing(s0, s1, q3, q0) {
        return true;
    }
    if get_inside(q0, q1, q2, q3, s0) {
        return true;
    }
    if get_inside(q0, q1, q2, q3, s1) {
        return true;
    }
    false
}

/// Whether `vertex` lies within the axis-aligned bounding box of `a`, `b`.
pub fn inside_box(vertex: Vec2, a: Vec2, b: Vec2) -> (r: bool)
    ensures
        r == inside_box_s(vertex, a, b),
{
    let max_x = if a.x > b.x {
        a.x
    } else {
        b.x
    };
    let min_x = if a.x < b.x {
        a.x
    } else {
        b.x
    };
    let max_y = if a.y > b.y {
        a.y
    } else {
        b.y
    };
    let min_y = if a.y < b.y {
        a.y
    } else {
        b.y
    };
    vertex.x <= max_x && vertex.x >= min_x && vertex.y <= max_y && vertex.y >= min_y
}

/// Squared-distance proximity of two points.
fn near_point(p: Vec2, q: Vec2, radius: i64) -> (r: bool)
    requires
        v_in_range(p),
        v_in_range(q),
    ensures
        r == near_point_s(p, q, radius as int),
{
    proof {
        crate::fixed::lemma_mul_bounds(p.x - q.x, p.x - q.x, 0x20000000000, 0x20000000000);
        crate::fixed::lemma_mul_bounds(p.y - q.y, p.y - q.y, 0x20000000000, 0x20000000000);
        crate::fixed::lemma_mul_bounds(
            radius as int,
            radius as int,
            0x8000000000000000,
            0x8000000000000000,
        );
    }
    let dx: i128 = p.x as i128 - q.x as i128;
    let dy: i128 = p.y as i128 - q.y as i128;
    let rr: i128 = radius as i128;
    dx * dx + dy * dy < rr * rr
}

/// Resting contact against the current segment: distance to the infinite
/// line under `radius`, with the projection inside the segment's span.
fn near_segment(v: Vec2, a: Vec2, b: Vec2, radius: i64) -> (r: bool)
    requires
        v_in_range(v),
        v_in_range(a),
        v_in_range(b),
    ensures
        r == near_segment_s(v, a, b, radius as int),
{
    proof {
        crate::fixed::lemma_mul_bounds(a.x - b.x, a.x - b.x, 0x20000000000, 0x20000000000);
        crate::fixed::lemma_mul_bounds(a.y - b.y, a.y - b.y, 0x20000000000, 0x20000000000);
        crate::fixed::lemma_mul_bounds(b.x - a.x, v.x - a.x, 0x20000000000, 0x20000000000);
        crate::fixed::lemma_mul_bounds(b.y - a.y, v.y - a.y, 0x20000000000, 0x20000000000);
    }
    let sx: i128 = a.x as i128 - b.x as i128;
    let sy: i128 = a.y as i128 - b.y as i128;
    proof {
        assert(sx * sx >= 0 && sy * sy >= 0) by (nonlinear_arith);
    }
    let nsq: i128 = sx * sx + sy * sy;
    let n: u128 = isqrt_u128(nsq as u128);
    if n == 0 {
        return false;
    }
    proof {
        lemma_isqrt_bounds(nsq as nat);
        assert(n <= nsq) by (nonlinear_arith)
            requires
                (n as nat) * (n as nat) <= nsq as nat,
                n >= 1,
                nsq >= 0,
        ;
    }
    let area = distance_vector(v, a, b);
    let area_abs: i128 = if area < 0 {
        -area
    } else {
        area
    };
    let dist = div_trunc_i128(area_abs, n as i128);
    if !(dist < radius as i128) {
        return false;
    }
    let along: i128 = (b.x as i128 - a.x as i128) * (v.x as i128 - a.x as i128) + (b.y as i128
        - a.y as i128) * (v.y as i128 - a.y as i128);
    0 <= along && along <= nsq
}

/// The contact normal: the unit perpendicular of `a`-`b`, oriented away
/// from the side of the line that `vertex` occupies. Zero for a
/// degenerate zero-length segment.
pub open spec fn normal_s(vertex: Vec2, a: Vec2, b: Vec2) -> Vec2 {
    let dx = fx_sub_s(a.x as int, b.x as int);
    let dy = fx_sub_s(a.y as int, b.y as int);
    let n = v_normalize_s(Vec2 { x: fx_neg_s(dy) as i64, y: dx as i64 });
    if signed_area_s(vertex, a, b) <= 0 {
        n
    } else {
        v_neg_s(n)
    }
}

/// The unit vector along `a`-`b`, oriented with `direction`. Zero for a
/// degenerate zero-length segment.
pub open spec fn tangent_s(direction: Vec2, a: Vec2, b: Vec2) -> Vec2 {
    let t = v_normalize_s(v_sub_s(a, b));
    if v_dot_s(direction, t) > 0 {
        t
    } else {
        v_neg_s(t)
    }
}

/// The contact normal, computed exactly as `normal_s` states it.
pub fn normal(vertex: Vec2, a: Vec2, b: Vec2) -> (r: Vec2)
    requires
        v_in_range(vertex),
        v_in_range(a),
        v_in_range(b),
    ensures
        r == normal_s(vertex, a, b),
        v_in_range(r),
{
    let dx = fx_sub(a.x, b.x);
    let dy = fx_sub(a.y, b.y);
    let n = v_normalize(Vec2 { x: fx_neg(dy), y: dx });
    let distance = distance_vector(vertex, a, b);
    if distance <= 0 {
        n
    } else {
        v_neg(n)
    }
}

/// The friction tangent, computed exactly as `tangent_s` states it.
pub fn tangent(direction: Vec2, a: Vec2, b: Vec2) -> (r: Vec2)
    ensures
        r == tangent_s(direction, a, b),
        v_in_range(r),
{
    let t = v_normalize(v_sub(a, b));
    let dot = v_dot(direction, t);
    if dot > 0 {
        t
    } else {
        v_neg(t)
    }
}

/// The mass-weighted average velocity of the segment's endpoints, the
/// segment treated as one effective body.
pub open spec fn segment_velocity_s(a: Vertex, b: Vertex) -> Vec2 {
    v_div_scalar_s(
        v_add_s(v_scale_s(a.velocity, a.mass as int), v_scale_s(b.velocity, b.mass as int)),
        fx_add_s(a.mass as int, b.mass as int),
    )
}

/// One-pass impulse resolution for a confirmed contact `(vertex, a, b)`.
///
/// The normal impulse is `j = -(1 + e) * v_n / (1/m_V + 1/(m_A + m_B))`,
/// with the segment's term dropped when either endpoint is static (a
/// static endpoint gives the segment infinite effective mass). The
/// reaction is split between the endpoints by the probe's projected
/// position along the segment. Friction acts along the segment, oriented
/// with the probe's tangential velocity relative to the segment, and its
/// magnitude is Coulomb-clamped to `min(|v_n| * friction, v_t)`, so it
/// can at most cancel the relative sliding, never reverse it. Each
/// non-static body is displaced half the contact radius along the
/// normal. Static vertices are returned untouched.
#[verifier::opaque]
pub open spec fn resolve_impulses_s(
    vertex: Vertex,
    a: Vertex,
    b: Vertex,
    s: Surface,
    radius: int,
) -> (Vertex, Vertex, Vertex) {
    let e = s.restitution as int;
    let n = normal_s(vertex.position, a.position, b.position);
    let segment_mass = fx_add_s(a.mass as int, b.mass as int);
    let segment_vel = segment_velocity_s(a, b);
    let normal_velocity = v_dot_s(v_sub_s(vertex.velocity, segment_vel), n);
    let inv_mass = if a.is_static || b.is_static {
        fx_div_s(FX_SCALE as int, vertex.mass as int)
    } else {
        fx_add_s(
            fx_div_s(FX_SCALE as int, vertex.mass as int),
            fx_div_s(FX_SCALE as int, segment_mass),
        )
    };
    let j = fx_div_s(fx_mul_s(fx_neg_s(fx_add_s(FX_SCALE as int, e)), normal_velocity), inv_mass);
    let impulse = v_scale_s(n, j);
    let ratio_ab = fx_div_s(
        v_norm_s(v_sub_s(b.position, vertex.position)),
        v_norm_s(v_sub_s(a.position, b.position)),
    );
    let ratio_ba = fx_sub_s(FX_SCALE as int, ratio_ab);
    let t = tangent_s(v_sub_s(vertex.velocity, segment_vel), a.position, b.position);
    let tangent_velocity = v_dot_s(v_sub_s(vertex.velocity, segment_vel), t);
    let coeff = s.friction as int;
    let friction_mag = if fx_mul_s(abs_s(normal_velocity), coeff) < abs_s(tangent_velocity) {
        fx_mul_s(abs_s(normal_velocity), coeff)
    } else {
        tangent_velocity
    };
    let friction = v_scale_s(t, friction_mag);
    let correction = v_div_scalar_s(v_scale_s(n, radius), 2 * FX_SCALE);
    let vertex2 = if vertex.is_static {
        vertex
    } else {
        Vertex {
            velocity: v_sub_s(
                v_add_s(vertex.velocity, v_div_scalar_s(impulse, vertex.mass as int)),
                friction,
            ),
            position: v_add_s(vertex.position, correction),
            ..vertex
        }
    };
    let a2 = if a.is_static {
        a
    } else {
        Vertex {
            velocity: v_add_s(
                v_add_s(
                    a.velocity,
                    v_div_scalar_s(v_scale_s(v_neg_s(impulse), ratio_ab), a.mass as int),
                ),
                friction,
            ),
            position: v_sub_s(a.position, correction),
            ..a
        }
    };
    let b2 = if b.is_static {
        b
    } else {
        Vertex {
            velocity: v_add_s(
                v_add_s(
                    b.velocity,
                    v_div_scalar_s(v_scale_s(v_neg_s(impulse), ratio_ba), b.mass as int),
                ),
                friction,
            ),
            position: v_sub_s(b.position, correction),
            ..b
        }
    };
    (vertex2, a2, b2)
}

/// Resolves the impulses between a probe `vertex` and the segment
/// `(a, b)` of `surface`, exactly as `resolve_impulses_s` states.
/// Masses, static flags and accelerations are never touched, and a
/// static vertex comes back entirely unchanged.
pub fn resolve_impulses(
    vertex: &mut Vertex,
    a: &mut Vertex,
    b: &mut Vertex,
    surface: &Surface,
    radius: i64,
)
    requires
        vertex_wf(*old(vertex)),
        vertex_wf(*old(a)),
        vertex_wf(*old(b)),
    ensures
        (*final (vertex), *final (a), *final (b)) == resolve_impulses_s(
            *old(vertex),
            *old(a),
            *old(b),
            *surface,
            radius as int,
        ),
        vertex_wf(*final (vertex)),
        vertex_wf(*final (a)),
        vertex_wf(*final (b)),
        old(vertex).is_static ==> *final (vertex) == *old(vertex),
        old(a).is_static ==> *final (a) == *old(a),
        old(b).is_static ==> *final (b) == *old(b),
{
    proof {
        reveal(resolve_impulses_s);
    }
    let e = surface.restitution;
    let n = normal(vertex.position, a.position, b.position);
    let segment_mass = fx_add(a.mass, b.mass);
    let segment_vel = v_div_scalar(
        v_add(v_scale(a.velocity, a.mass), v_scale(b.velocity, b.mass)),
        segment_mass,
    );
    let normal_velocity = v_dot(v_sub(vertex.velocity, segment_vel), n);
    let inv_mass = if a.is_static || b.is_static {
        fx_div(FX_SCALE, vertex.mass)
    } else {
        fx_add(fx_div(FX_SCALE, vertex.mass), fx_div(FX_SCALE, segment_mass))
    };
    let j = fx_div(fx_mul(fx_neg(fx_add(FX_SCALE, e)), normal_velocity), inv_mass);
    let impulse = v_scale(n, j);
    let ratio_ab = fx_div(
        v_norm(v_sub(b.position, vertex.position)),
        v_norm(v_sub(a.position, b.position)),
    );
    let ratio_ba = fx_sub(FX_SCALE, ratio_ab);
    let t = tangent(v_sub(vertex.velocity, segment_vel), a.position, b.position);
    let tangent_velocity = v_dot(v_sub(vertex.velocity, segment_vel), t);
    let coeff = surface.friction;
    let normal_abs = if normal_velocity < 0 {
        -normal_velocity
    } else {
        normal_velocity
    };
    let tangent_abs = if tangent_velocity < 0 {
        -tangent_velocity
    } else {
        tangent_velocity
    };
    let friction_mag = if fx_mul(normal_abs, coeff) < tangent_abs {
        fx_mul(normal_abs, coeff)
    } else {
        tangent_velocity
    };
    let friction = v_scale(t, friction_mag);
    let correction = v_div_scalar(v_scale(n, radius), 2 * FX_SCALE);

    if !vertex.is_static {
        vertex.velocity = v_sub(v_add(vertex.velocity, v_div_scalar(impulse, vertex.mass)), friction);
        vertex.position = v_add(vertex.position, correction);
    }
    if !a.is_static {
        a.velocity = v_add(
            v_add(a.velocity, v_div_scalar(v_scale(v_neg(impulse), ratio_ab), a.mass)),
            friction,
        );
        a.position = v_sub(a.position, correction);
    }
    if !b.is_static {
        b.velocity = v_add(
            v_add(b.velocity, v_div_scalar(v_scale(v_neg(impulse), ratio_ba), b.mass)),
            friction,
        );
        b.position = v_sub(b.position, correction);
    }
}

/// Continuous collision between a probe vertex and a surface segment over
/// one substep: swept-quad intersection, resting contact with the current
/// segment, or end-cap proximity.
pub fn colliding(vertex: &Vertex, a: &Vertex, b: &Vertex, dt: i64, radius: i64) -> (r: bool)
    requires
        vertex_wf(*vertex),
        vertex_wf(*a),
        vertex_wf(*b),
    ensures
        r == colliding_s(*vertex, *a, *b, dt as int, radius as int),
{
    proof {
        reveal(colliding_s);
    }
    let q0 = a.position;
    let q1 = b.position;
    let q2 = b.next_position(dt);
    let q3 = a.next_position(dt);
    let s0 = vertex.position;
    let s1 = vertex.next_position(dt);

    let colliding_poly = get_colliding_poly(q0, q1, q2, q3, s0, s1);
    let colliding_segment = near_segment(s0, q0, q1, radius);
    let colliding_vertex = near_point(s0, q0, radius) || near_point(s0, q1, radius);

    colliding_poly || colliding_segment || colliding_vertex
}

} // verus!
