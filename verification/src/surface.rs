//! Spring-damper constraints between two vertices.

use vstd::prelude::*;
use crate::fixed::{
    FX_SCALE, FX_LIMIT, fx_in_range, fx_add_s, fx_sub_s, fx_neg_s, fx_mul_s, fx_sqrt_s,
    fx_add, fx_sub, fx_neg, fx_mul, fx_sqrt,
};
use crate::vec2::{
    Vec2, v_in_range, v_add_s, v_sub_s, v_neg_s, v_scale_s, v_dot_s, v_norm_s, v_normalize_s,
    v_sub, v_neg, v_scale, v_dot, v_norm, v_normalize,
};
use crate::simulation::{Vertex, apply_force_s};

verus! {

/// A spring-damper constraint between the vertices at `index_a` and
/// `index_b`, doubling as a collidable segment.
#[derive(Clone, Copy, Debug, PartialEq, Eq, Structural)]
pub struct Surface {
    pub index_a: usize,
    pub index_b: usize,
    /// Damping ratio of the damper term, `FX_SCALE` being critical damping.
    pub damping_ratio: i64,
    /// Spring constant `k`.
    pub strength: i64,
    /// Rest length, fixed at creation to the distance between the endpoints.
    pub original_distance: i64,
    /// Coulomb friction coefficient, in `[0, FX_SCALE]`.
    pub friction: i64,
    /// Restitution coefficient, in `[0, FX_SCALE]`.
    pub restitution: i64,
}

/// Well-formedness against a vertex count: canonically ordered in-bounds
/// indices and in-range coefficients.
pub open spec fn surface_wf(s: Surface, n_verts: int) -> bool {
    &&& s.index_a < s.index_b < n_verts
    &&& fx_in_range(s.damping_ratio as int)
    &&& fx_in_range(s.strength as int)
    &&& 0 <= s.original_distance <= FX_LIMIT
    &&& 0 <= s.friction <= FX_SCALE
    &&& 0 <= s.restitution <= FX_SCALE
}

/// The spring-damper force exerted on endpoint `a`; endpoint `b` receives
/// its exact negation. Hooke's law plus a linear damper along the axis:
/// `F = -k * extension - c * closing_velocity`, with the damping
/// coefficient `c = 2 * damping_ratio * sqrt((mass_a + mass_b) * k)`.
pub open spec fn spring_force_s(a: Vertex, b: Vertex, s: Surface) -> Vec2 {
    let c = fx_mul_s(
        fx_mul_s(2 * FX_SCALE, s.damping_ratio as int),
        fx_sqrt_s(fx_mul_s(fx_add_s(a.mass as int, b.mass as int), s.strength as int)),
    );
    let delta = v_sub_s(a.position, b.position);
    let relative_velocity = v_sub_s(a.velocity, b.velocity);
    let extension = fx_sub_s(v_norm_s(delta), s.original_distance as int);
    let axis = v_normalize_s(delta);
    let approach_velocity = v_scale_s(axis, v_dot_s(relative_velocity, axis));
    v_sub_s(
        v_scale_s(v_scale_s(axis, extension), fx_neg_s(s.strength as int)),
        v_scale_s(approach_velocity, c),
    )
}

/// The vertex sequence after a surface has applied its force pair.
pub open spec fn apply_surface_s(verts: Seq<Vertex>, s: Surface) -> Seq<Vertex> {
    let f = spring_force_s(verts[s.index_a as int], verts[s.index_b as int], s);
    verts.update(s.index_a as int, apply_force_s(verts[s.index_a as int], f)).update(
        s.index_b as int,
        apply_force_s(verts[s.index_b as int], v_neg_s(f)),
    )
}

/// Newton's third law for the spring-damper force pair: the force handed to
/// endpoint `b` is the exact componentwise negation of the force exerted on
/// endpoint `a`, for every pair of vertices and every surface.
pub proof fn lemma_spring_force_newton(a: Vertex, b: Vertex, s: Surface)
    ensures
        v_in_range(spring_force_s(a, b, s)),
        v_neg_s(spring_force_s(a, b, s)).x as int == -(spring_force_s(a, b, s).x as int),
        v_neg_s(spring_force_s(a, b, s)).y as int == -(spring_force_s(a, b, s).y as int),
{
}

/// The value `Surface::new` builds: default coefficients and the current
/// distance between the endpoints as rest length.
pub open spec fn surface_new_s(verts: Seq<Vertex>, a: int, b: int) -> Surface {
    Surface {
        index_a: a as usize,
        index_b: b as usize,
        damping_ratio: FX_SCALE,
        strength: (40 * FX_SCALE) as i64,
        original_distance: v_norm_s(v_sub_s(verts[a].position, verts[b].position)) as i64,
        friction: 0,
        restitution: FX_SCALE,
    }
}

impl Surface {
    /// A fresh surface between two existing vertices: unit damping ratio,
    /// default strength, no friction, full restitution, and the current
    /// distance between the endpoints as rest length.
    pub fn new(index_a: usize, index_b: usize, verts: &Vec<Vertex>) -> (s: Surface)
        requires
            index_a < verts@.len(),
            index_b < verts@.len(),
        ensures
            s == surface_new_s(verts@, index_a as int, index_b as int),
    {
        let vertex_a = verts[index_a];
        let vertex_b = verts[index_b];
        Surface {
            index_a,
            index_b,
            damping_ratio: FX_SCALE,
            strength: 40 * FX_SCALE,
            original_distance: v_norm(v_sub(vertex_a.position, vertex_b.position)),
            friction: 0,
            restitution: FX_SCALE,
        }
    }

    /// Computes the spring-damper force once from the two endpoints' current
    /// state and accumulates it into `a`'s acceleration and its negation
    /// into `b`'s.
    pub fn apply_force(&self, verts: &mut Vec<Vertex>)
        requires
            self.index_a < self.index_b < old(verts)@.len(),
        ensures
            final(verts)@ == apply_surface_s(old(verts)@, *self),
            final(verts)@.len() == old(verts)@.len(),
    {
        let ia = self.index_a;
        let ib = self.index_b;
        let vertex_a = verts[ia];
        let vertex_b = verts[ib];

        let c = fx_mul(
            fx_mul(2 * FX_SCALE, self.damping_ratio),
            fx_sqrt(fx_mul(fx_add(vertex_a.mass, vertex_b.mass), self.strength)),
        );
        let delta = v_sub(vertex_a.position, vertex_b.position);
        let relative_velocity = v_sub(vertex_a.velocity, vertex_b.velocity);
        let extension = fx_sub(v_norm(delta), self.original_distance);
        let axis = v_normalize(delta);
        let approach_velocity = v_scale(axis, v_dot(relative_velocity, axis));
        let force = v_sub(
            v_scale(v_scale(axis, extension), fx_neg(self.strength)),
            v_scale(approach_velocity, c),
        );

        let mut updated_a = vertex_a;
        updated_a.apply_force(force);
        verts[ia] = updated_a;
        let mut updated_b = vertex_b;
        updated_b.apply_force(v_neg(force));
        verts[ib] = updated_b;
    }
}

} // verus!
