//! Point masses and the world that owns them.

use vstd::prelude::*;
use crate::fixed::{
    FX_LIMIT, FX_SCALE, fx_in_range, fx_clip_s, div_trunc, fx_add_s, fx_div_s, fx_add, fx_div,
    fx_clip, div_trunc_i128, lemma_mul_bounds,
};
use crate::vec2::{
    Vec2, v_in_range, v_zero, v_add_s, v_scale_s, v_div_scalar_s, v_add, v_scale, v_div_scalar,
};
use crate::surface::{Surface, surface_wf, surface_new_s, apply_surface_s};
use crate::collisions::{colliding_s, resolve_impulses_s, colliding, resolve_impulses};

verus! {

/// Default mass of a fresh vertex.
pub const DEFAULT_MASS: i64 = 50;

/// A point mass: the primitive movable entity of the simulation.
#[derive(Clone, Copy, Debug, PartialEq, Eq, Structural)]
pub struct Vertex {
    pub mass: i64,
    pub position: Vec2,
    pub velocity: Vec2,
    pub acceleration: Vec2,
    /// A static vertex is never integrated: its position stays put and its
    /// velocity and acceleration are pinned to zero by each step.
    pub is_static: bool,
}

/// A well-formed vertex has a positive in-range mass and in-range state.
pub open spec fn vertex_wf(v: Vertex) -> bool {
    &&& 0 < v.mass <= FX_LIMIT
    &&& v_in_range(v.position)
    &&& v_in_range(v.velocity)
    &&& v_in_range(v.acceleration)
}

/// Acceleration gains `force / mass`; everything else is untouched.
pub open spec fn apply_force_s(v: Vertex, force: Vec2) -> Vertex {
    Vertex { acceleration: v_add_s(v.acceleration, v_div_scalar_s(force, v.mass as int)), ..v }
}

/// Velocity gains `acceleration * dt`.
pub open spec fn force_to_velocity_s(v: Vertex, dt: int) -> Vertex {
    Vertex { velocity: v_add_s(v.velocity, v_scale_s(v.acceleration, dt)), ..v }
}

/// The projected position one timestep ahead, without mutation.
pub open spec fn next_position_s(v: Vertex, dt: int) -> Vec2 {
    v_add_s(v.position, v_scale_s(v.velocity, dt))
}

/// Position integration: non-static vertices move by `velocity * dt`; the
/// acceleration accumulator is reset either way.
pub open spec fn vertex_update_s(v: Vertex, dt: int) -> Vertex {
    if !v.is_static {
        Vertex { position: next_position_s(v, dt), acceleration: v_zero(), ..v }
    } else {
        Vertex { acceleration: v_zero(), ..v }
    }
}

impl Vertex {
    /// A fresh non-static vertex at rest at `position`, with default mass.
    pub fn new(position: Vec2) -> (v: Vertex)
        ensures
            v == (Vertex {
                mass: DEFAULT_MASS,
                position,
                velocity: v_zero(),
                acceleration: v_zero(),
                is_static: false,
            }),
            v_in_range(position) ==> vertex_wf(v),
    {
        Vertex {
            mass: DEFAULT_MASS,
            position,
            velocity: Vec2 { x: 0, y: 0 },
            acceleration: Vec2 { x: 0, y: 0 },
            is_static: false,
        }
    }

    /// Accumulates `force / mass` into the acceleration.
    pub fn apply_force(&mut self, force: Vec2)
        ensures
            *final(self) == apply_force_s(*old(self), force),
    {
        self.acceleration = v_add(self.acceleration, v_div_scalar(force, self.mass));
    }

    /// Integrates the accumulated acceleration into the velocity.
    pub fn force_to_velocity(&mut self, dt: i64)
        ensures
            *final(self) == force_to_velocity_s(*old(self), dt as int),
    {
        self.velocity = v_add(self.velocity, v_scale(self.acceleration, dt));
    }

    /// The position this vertex would reach after `dt` at its current
    /// velocity; pure, used for the collision sweep.
    pub fn next_position(&self, dt: i64) -> (p: Vec2)
        ensures
            p == next_position_s(*self, dt as int),
            v_in_range(p),
    {
        v_add(self.position, v_scale(self.velocity, dt))
    }

    /// Commits the velocity into the position (unless static) and resets
    /// the acceleration.
    pub fn update(&mut self, dt: i64)
        ensures
            *final(self) == vertex_update_s(*old(self), dt as int),
    {
        if !self.is_static {
            self.position = v_add(self.position, v_scale(self.velocity, dt));
        }
        self.acceleration = Vec2 { x: 0, y: 0 };
    }
}

/// Transient diagnostics: (origin, vector) pairs appended during a step and
/// cleared by the caller each frame.
pub struct DebugView {
    pub vectors: Vec<(Vec2, Vec2)>,
}

/// Errors of the topology-editing operations.
#[derive(Clone, Copy, Debug, PartialEq, Eq, Structural)]
pub enum WorldError {
    IndexOutOfBounds,
}

/// Default gravitational acceleration on the y axis.
pub const DEFAULT_GRAVITY: i64 = -9800;

/// Default contact thickness of a vertex.
pub const DEFAULT_VERTEX_RADIUS: i64 = 5;

/// The world owns every vertex and surface and steps them in place.
/// Surfaces refer to vertices only by index into `verts`.
pub struct World {
    pub verts: Vec<Vertex>,
    pub surfaces: Vec<Surface>,
    pub debug: DebugView,
    /// Gravitational acceleration added to the y axis each substep.
    pub gravity: i64,
    /// Contact thickness used by collision detection and positional correction.
    pub vertex_radius: i64,
}

pub open spec fn verts_wf(verts: Seq<Vertex>) -> bool {
    forall|i: int| 0 <= i < verts.len() ==> vertex_wf(#[trigger] verts[i])
}

pub open spec fn surfaces_wf(surfaces: Seq<Surface>, n_verts: int) -> bool {
    forall|i: int| 0 <= i < surfaces.len() ==> surface_wf(#[trigger] surfaces[i], n_verts)
}

/// The unordered pair a surface constrains, as its canonically ordered
/// index pair.
pub open spec fn surface_pair(s: Surface) -> (int, int) {
    (s.index_a as int, s.index_b as int)
}

/// At most one surface per index pair.
pub open spec fn no_duplicate_pairs(surfaces: Seq<Surface>) -> bool {
    forall|i: int, j: int|
        0 <= i < j < surfaces.len() ==> #[trigger] surface_pair(surfaces[i])
            != #[trigger] surface_pair(surfaces[j])
}

/// The world's invariant: well-formed vertices, well-formed canonically
/// ordered surfaces with no duplicate pair, and in-range configuration.
pub open spec fn world_wf(w: World) -> bool {
    &&& verts_wf(w.verts@)
    &&& surfaces_wf(w.surfaces@, w.verts@.len() as int)
    &&& no_duplicate_pairs(w.surfaces@)
    &&& fx_in_range(w.gravity as int)
    &&& 0 <= w.vertex_radius <= FX_LIMIT
}

/// There is a surface constraining exactly the pair `(a, b)`.
pub open spec fn contains_pair(surfaces: Seq<Surface>, a: int, b: int) -> bool {
    exists|i: int| 0 <= i < surfaces.len() && #[trigger] surface_pair(surfaces[i]) == (a, b)
}

/// Squared distance from a vertex to the probe point, in raw units.
pub open spec fn vertex_dist_sq_s(v: Vertex, p: Vec2) -> int {
    (v.position.x - p.x) * (v.position.x - p.x) + (v.position.y - p.y) * (v.position.y - p.y)
}

/// Whether the vertex lies strictly within `radius` of the probe point.
pub open spec fn near_vertex_s(v: Vertex, p: Vec2, radius: int) -> bool {
    vertex_dist_sq_s(v, p) < radius * radius
}

/// Whether the probe point `p` picks the segment `(a, b)`: the probe's
/// perpendicular projection onto the segment's line, clipped into
/// representable range, lies strictly within `radius` of the probe, and
/// the projection falls within the segment's span (between the two
/// endpoints, not merely their x-extent). A zero-length segment is never
/// picked.
pub open spec fn segment_hit_s(a: Vec2, b: Vec2, p: Vec2, radius: int) -> bool {
    let segx = b.x - a.x;
    let segy = b.y - a.y;
    let q = segx * segx + segy * segy;
    if q == 0 {
        false
    } else {
        let along = segx * (p.x - a.x) + segy * (p.y - a.y);
        let cpx = fx_clip_s(a.x + div_trunc(segx * along, q));
        let cpy = fx_clip_s(a.y + div_trunc(segy * along, q));
        &&& (cpx - p.x) * (cpx - p.x) + (cpy - p.y) * (cpy - p.y) < radius * radius
        &&& 0 <= along
        &&& along <= q
    }
}

/// `segment_hit_s` for a surface's endpoints within a vertex list.
pub open spec fn surface_hit_s(s: Surface, verts: Seq<Vertex>, p: Vec2, radius: int) -> bool {
    segment_hit_s(verts[s.index_a as int].position, verts[s.index_b as int].position, p, radius)
}

/// The surface indices incident to the vertex at `index`, in ascending order.
pub open spec fn incident_s(surfaces: Seq<Surface>, index: int) -> Seq<usize>
    decreases surfaces.len(),
{
    if surfaces.len() == 0 {
        Seq::empty()
    } else {
        let init = incident_s(surfaces.drop_last(), index);
        let last = surfaces[surfaces.len() - 1];
        if last.index_a == index || last.index_b == index {
            init.push((surfaces.len() - 1) as usize)
        } else {
            init
        }
    }
}

/// A surface's indices after the vertex at `index` has been removed:
/// indices above it shift down by one.
pub open spec fn shift_surface_s(s: Surface, index: int) -> Surface {
    Surface {
        index_a: if s.index_a > index {
            (s.index_a - 1) as usize
        } else {
            s.index_a
        },
        index_b: if s.index_b > index {
            (s.index_b - 1) as usize
        } else {
            s.index_b
        },
        ..s
    }
}

/// The surface list after removing the vertex at `index`: surfaces touching
/// it are dropped, the rest are reindexed, order kept.
pub open spec fn reindex_surfaces_s(surfaces: Seq<Surface>, index: int) -> Seq<Surface>
    decreases surfaces.len(),
{
    if surfaces.len() == 0 {
        Seq::empty()
    } else {
        let init = reindex_surfaces_s(surfaces.drop_last(), index);
        let last = surfaces[surfaces.len() - 1];
        if last.index_a == index || last.index_b == index {
            init
        } else {
            init.push(shift_surface_s(last, index))
        }
    }
}

/// `t` is the reindexed image of a surviving surface of `surfaces`.
pub open spec fn survives_from(surfaces: Seq<Surface>, index: int, t: Surface) -> bool {
    exists|j: int|
        0 <= j < surfaces.len() && (#[trigger] surfaces[j]).index_a != index
            && surfaces[j].index_b != index && t == shift_surface_s(surfaces[j], index)
}

/// Reindexing is injective on pairs that survive a removal.
proof fn lemma_shift_pair_injective(p: Surface, q: Surface, index: int)
    requires
        p.index_a != index,
        p.index_b != index,
        q.index_a != index,
        q.index_b != index,
        0 <= index,
        surface_pair(shift_surface_s(p, index)) == surface_pair(shift_surface_s(q, index)),
    ensures
        surface_pair(p) == surface_pair(q),
{
}

/// Removal consistency: dropping the vertex at `index` leaves every
/// surviving surface with valid, still canonically ordered indices below
/// the new vertex count, no surviving surface referencing the removed
/// vertex's slot twice, and every survivor the reindexed image of an
/// input surface that did not touch the removed vertex.
pub proof fn lemma_remove_vertex_consistency(surfaces: Seq<Surface>, index: int, n: int)
    requires
        surfaces_wf(surfaces, n),
        no_duplicate_pairs(surfaces),
        0 <= index < n,
    ensures
        surfaces_wf(reindex_surfaces_s(surfaces, index), n - 1),
        no_duplicate_pairs(reindex_surfaces_s(surfaces, index)),
        reindex_surfaces_s(surfaces, index).len() <= surfaces.len(),
        forall|k: int|
            0 <= k < reindex_surfaces_s(surfaces, index).len() ==> survives_from(
                surfaces,
                index,
                #[trigger] reindex_surfaces_s(surfaces, index)[k],
            ),
    decreases surfaces.len(),
{
    if surfaces.len() > 0 {
        let init = surfaces.drop_last();
        let last = surfaces[surfaces.len() - 1];
        let result = reindex_surfaces_s(surfaces, index);
        let r_init = reindex_surfaces_s(init, index);
        lemma_remove_vertex_consistency(init, index, n);
        assert forall|k: int| 0 <= k < r_init.len() implies survives_from(
            surfaces,
            index,
            #[trigger] r_init[k],
        ) by {
            let j = choose|j: int|
                0 <= j < init.len() && (#[trigger] init[j]).index_a != index && init[j].index_b
                    != index && r_init[k] == shift_surface_s(init[j], index);
            assert(surfaces[j] == init[j]);
        }
        if last.index_a == index || last.index_b == index {
            assert(result == r_init);
        } else {
            assert(result == r_init.push(shift_surface_s(last, index)));
            assert(surface_wf(shift_surface_s(last, index), n - 1));
            assert(survives_from(surfaces, index, shift_surface_s(last, index))) by {
                assert((surfaces[surfaces.len() - 1]).index_a != index);
            }
            assert forall|i: int, j: int| 0 <= i < j < result.len() implies #[trigger] surface_pair(
                result[i],
            ) != #[trigger] surface_pair(result[j]) by {
                if j < r_init.len() {
                } else {
                    assert(result[j] == shift_surface_s(last, index));
                    assert(survives_from(surfaces, index, result[i]));
                    let j0 = choose|j0: int|
                        0 <= j0 < surfaces.len() && (#[trigger] surfaces[j0]).index_a != index
                            && surfaces[j0].index_b != index && result[i] == shift_surface_s(
                            surfaces[j0],
                            index,
                        );
                    if surface_pair(result[i]) == surface_pair(result[j]) {
                        lemma_shift_pair_injective(surfaces[j0], last, index);
                        if j0 < surfaces.len() - 1 {
                            assert(surface_pair(surfaces[j0]) != surface_pair(
                                surfaces[surfaces.len() - 1],
                            ));
                        } else {
                            assert(surfaces[j0] == last);
                            assert(r_init.len() > i >= 0);
                            assert(survives_from(init, index, r_init[i]));
                        }
                    }
                }
            }
        }
    }
}

/// The surface list after `create_surface(a, b)` on a world whose vertices
/// are `verts`: a no-op for a self-pair or an already constrained pair,
/// otherwise a fresh canonically ordered surface is appended.
pub open spec fn create_surface_s(
    surfaces: Seq<Surface>,
    verts: Seq<Vertex>,
    a: int,
    b: int,
) -> Seq<Surface> {
    if a == b {
        surfaces
    } else {
        let lo = if a < b {
            a
        } else {
            b
        };
        let hi = if a < b {
            b
        } else {
            a
        };
        if contains_pair(surfaces, lo, hi) {
            surfaces
        } else {
            surfaces.push(surface_new_s(verts, lo, hi))
        }
    }
}

/// Canonical ordering: after any surface creation, every surface still
/// lists the smaller vertex index first.
pub proof fn lemma_create_surface_canonical(
    surfaces: Seq<Surface>,
    verts: Seq<Vertex>,
    a: int,
    b: int,
    n: int,
)
    requires
        surfaces_wf(surfaces, n),
        0 <= a < n,
        0 <= b < n,
        n <= usize::MAX + 1,
    ensures
        forall|k: int|
            0 <= k < create_surface_s(surfaces, verts, a, b).len()
                ==> (#[trigger] create_surface_s(surfaces, verts, a, b)[k]).index_a
                < create_surface_s(surfaces, verts, a, b)[k].index_b,
{
    let result = create_surface_s(surfaces, verts, a, b);
    assert forall|k: int| 0 <= k < result.len() implies (#[trigger] result[k]).index_a
        < result[k].index_b by {
        if k < surfaces.len() {
            assert(surface_wf(surfaces[k], n));
        }
    }
}

/// Duplicate surfaces are rejected: creating the surface between `a` and
/// `b` and then creating it again, in either argument order and whatever
/// the vertex positions have become, changes nothing the second time, and
/// exactly one surface constrains the pair.
pub proof fn lemma_create_surface_idempotent(
    surfaces: Seq<Surface>,
    verts: Seq<Vertex>,
    verts2: Seq<Vertex>,
    a: int,
    b: int,
)
    requires
        0 <= a <= usize::MAX,
        0 <= b <= usize::MAX,
        a != b,
        no_duplicate_pairs(surfaces),
    ensures
        create_surface_s(create_surface_s(surfaces, verts, a, b), verts2, a, b)
            == create_surface_s(surfaces, verts, a, b),
        create_surface_s(create_surface_s(surfaces, verts, a, b), verts2, b, a)
            == create_surface_s(surfaces, verts, a, b),
        contains_pair(
            create_surface_s(surfaces, verts, a, b),
            if a < b {
                a
            } else {
                b
            },
            if a < b {
                b
            } else {
                a
            },
        ),
        no_duplicate_pairs(create_surface_s(surfaces, verts, a, b)),
{
    let lo = if a < b {
        a
    } else {
        b
    };
    let hi = if a < b {
        b
    } else {
        a
    };
    let result = create_surface_s(surfaces, verts, a, b);
    if !contains_pair(surfaces, lo, hi) {
        assert(result == surfaces.push(surface_new_s(verts, lo, hi)));
        assert(surface_pair(result[surfaces.len() as int]) == (lo, hi));
        assert(contains_pair(result, lo, hi));
        assert forall|i: int, j: int| 0 <= i < j < result.len() implies #[trigger] surface_pair(
            result[i],
        ) != #[trigger] surface_pair(result[j]) by {
            if j == surfaces.len() {
                assert(result[i] == surfaces[i]);
                if surface_pair(surfaces[i]) == (lo, hi) {
                    assert(contains_pair(surfaces, lo, hi));
                }
            }
        }
    }
    assert(contains_pair(result, lo, hi));
}

/// Stage one of a substep: the first `k` surfaces apply their force
/// pairs, in order.
pub open spec fn spring_pass_s(verts: Seq<Vertex>, surfaces: Seq<Surface>, k: int) -> Seq<Vertex>
    decreases k,
{
    if k <= 0 {
        verts
    } else {
        apply_surface_s(spring_pass_s(verts, surfaces, k - 1), surfaces[k - 1])
    }
}

/// Stage two, per vertex: a non-static vertex receives gravity and
/// integrates acceleration into velocity; a static vertex has both
/// forcibly zeroed.
pub open spec fn gravity_integrate_s(v: Vertex, gravity: int, dt: int) -> Vertex {
    if !v.is_static {
        force_to_velocity_s(
            Vertex {
                acceleration: Vec2 {
                    x: v.acceleration.x,
                    y: fx_add_s(v.acceleration.y as int, gravity) as i64,
                },
                ..v
            },
            dt,
        )
    } else {
        Vertex { velocity: v_zero(), acceleration: v_zero(), ..v }
    }
}

/// Stage two over the first `k` vertices.
pub open spec fn integrate_pass_s(verts: Seq<Vertex>, gravity: int, dt: int, k: int) -> Seq<Vertex>
    decreases k,
{
    if k <= 0 {
        verts
    } else {
        let prev = integrate_pass_s(verts, gravity, dt, k - 1);
        prev.update(k - 1, gravity_integrate_s(prev[k - 1], gravity, dt))
    }
}

/// One probe-surface pairing of the collision pass: skipped when the
/// surface contains the probe, otherwise detection and resolution on the
/// current values.
pub open spec fn collide_vertex_surface_s(
    verts: Seq<Vertex>,
    s: Surface,
    vi: int,
    dt: int,
    radius: int,
) -> Seq<Vertex> {
    if s.index_a == vi || s.index_b == vi {
        verts
    } else {
        let v = verts[vi];
        let a = verts[s.index_a as int];
        let b = verts[s.index_b as int];
        if colliding_s(v, a, b, dt, radius) {
            let resolved = resolve_impulses_s(v, a, b, s, radius);
            verts.update(vi, resolved.0).update(s.index_a as int, resolved.1).update(
                s.index_b as int,
                resolved.2,
            )
        } else {
            verts
        }
    }
}

/// The probe at `vi` tested against the first `k` surfaces, in order.
pub open spec fn collide_vertex_s(
    verts: Seq<Vertex>,
    surfaces: Seq<Surface>,
    vi: int,
    k: int,
    dt: int,
    radius: int,
) -> Seq<Vertex>
    decreases k,
{
    if k <= 0 {
        verts
    } else {
        collide_vertex_surface_s(
            collide_vertex_s(verts, surfaces, vi, k - 1, dt, radius),
            surfaces[k - 1],
            vi,
            dt,
            radius,
        )
    }
}

/// One all-pairs collision pass: the first `n_verts` probes each run
/// against every surface.
pub open spec fn collide_pass_s(
    verts: Seq<Vertex>,
    surfaces: Seq<Surface>,
    n_verts: int,
    dt: int,
    radius: int,
) -> Seq<Vertex>
    decreases n_verts,
{
    if n_verts <= 0 {
        verts
    } else {
        collide_vertex_s(
            collide_pass_s(verts, surfaces, n_verts - 1, dt, radius),
            surfaces,
            n_verts - 1,
            surfaces.len() as int,
            dt,
            radius,
        )
    }
}

/// `rounds` repeated all-pairs collision passes.
pub open spec fn collide_rounds_s(
    verts: Seq<Vertex>,
    surfaces: Seq<Surface>,
    rounds: int,
    dt: int,
    radius: int,
) -> Seq<Vertex>
    decreases rounds,
{
    if rounds <= 0 {
        verts
    } else {
        collide_pass_s(
            collide_rounds_s(verts, surfaces, rounds - 1, dt, radius),
            surfaces,
            collide_rounds_s(verts, surfaces, rounds - 1, dt, radius).len() as int,
            dt,
            radius,
        )
    }
}

/// Stage four over the first `k` vertices: positions commit and
/// accelerations reset.
pub open spec fn commit_pass_s(verts: Seq<Vertex>, dt: int, k: int) -> Seq<Vertex>
    decreases k,
{
    if k <= 0 {
        verts
    } else {
        let prev = commit_pass_s(verts, dt, k - 1);
        prev.update(k - 1, vertex_update_s(prev[k - 1], dt))
    }
}

/// One substep, in strict order: spring forces, gravity and velocity
/// integration, the optional collision rounds, then the position commit.
pub open spec fn substep_s(
    verts: Seq<Vertex>,
    surfaces: Seq<Surface>,
    dt: int,
    rounds: int,
    collisions: bool,
    gravity: int,
    radius: int,
) -> Seq<Vertex> {
    let forced = spring_pass_s(verts, surfaces, surfaces.len() as int);
    let integrated = integrate_pass_s(forced, gravity, dt, forced.len() as int);
    let collided = if collisions {
        collide_rounds_s(integrated, surfaces, rounds, dt, radius)
    } else {
        integrated
    };
    commit_pass_s(collided, dt, collided.len() as int)
}

/// `k` substeps of length `dt`.
pub open spec fn world_update_s(
    verts: Seq<Vertex>,
    surfaces: Seq<Surface>,
    dt: int,
    rounds: int,
    k: int,
    collisions: bool,
    gravity: int,
    radius: int,
) -> Seq<Vertex>
    decreases k,
{
    if k <= 0 {
        verts
    } else {
        substep_s(
            world_update_s(verts, surfaces, dt, rounds, k - 1, collisions, gravity, radius),
            surfaces,
            dt,
            rounds,
            collisions,
            gravity,
            radius,
        )
    }
}

/// The spring pass changes accelerations only: position, velocity, mass
/// and the static flag of every vertex are untouched.
proof fn lemma_spring_pass_frame(verts: Seq<Vertex>, surfaces: Seq<Surface>, k: int, i: int)
    requires
        0 <= i < verts.len(),
        surfaces_wf(surfaces, verts.len() as int),
        k <= surfaces.len(),
    ensures
        spring_pass_s(verts, surfaces, k).len() == verts.len(),
        spring_pass_s(verts, surfaces, k)[i].position == verts[i].position,
        spring_pass_s(verts, surfaces, k)[i].velocity == verts[i].velocity,
        spring_pass_s(verts, surfaces, k)[i].mass == verts[i].mass,
        spring_pass_s(verts, surfaces, k)[i].is_static == verts[i].is_static,
    decreases k,
{
    if k > 0 {
        lemma_spring_pass_frame(verts, surfaces, k - 1, i);
        assert(surface_wf(surfaces[k - 1], verts.len() as int));
    }
}

/// What the integration pass does to a static vertex: velocity and
/// acceleration are forcibly zeroed, nothing else changes.
proof fn lemma_integrate_pass_static(verts: Seq<Vertex>, gravity: int, dt: int, k: int, i: int)
    requires
        0 <= i < verts.len(),
        verts[i].is_static,
        k <= verts.len(),
    ensures
        integrate_pass_s(verts, gravity, dt, k).len() == verts.len(),
        i < k ==> integrate_pass_s(verts, gravity, dt, k)[i] == (Vertex {
            velocity: v_zero(),
            acceleration: v_zero(),
            ..verts[i]
        }),
        i >= k ==> integrate_pass_s(verts, gravity, dt, k)[i] == verts[i],
    decreases k,
{
    if k > 0 {
        lemma_integrate_pass_static(verts, gravity, dt, k - 1, i);
    }
}

/// One probe-surface pairing leaves a static vertex untouched.
proof fn lemma_collide_pairing_static(verts: Seq<Vertex>, s: Surface, vi: int, dt: int, radius: int, i: int)
    requires
        0 <= i < verts.len(),
        verts[i].is_static,
        0 <= vi < verts.len(),
        s.index_a < verts.len(),
        s.index_b < verts.len(),
    ensures
        collide_vertex_surface_s(verts, s, vi, dt, radius).len() == verts.len(),
        collide_vertex_surface_s(verts, s, vi, dt, radius)[i] == verts[i],
{
    reveal(crate::collisions::resolve_impulses_s);
}

/// A probe's run over the first `k` surfaces leaves a static vertex untouched.
proof fn lemma_collide_vertex_static(
    verts: Seq<Vertex>,
    surfaces: Seq<Surface>,
    vi: int,
    k: int,
    dt: int,
    radius: int,
    i: int,
)
    requires
        0 <= i < verts.len(),
        verts[i].is_static,
        0 <= vi < verts.len(),
        surfaces_wf(surfaces, verts.len() as int),
        k <= surfaces.len(),
    ensures
        collide_vertex_s(verts, surfaces, vi, k, dt, radius).len() == verts.len(),
        collide_vertex_s(verts, surfaces, vi, k, dt, radius)[i] == verts[i],
    decreases k,
{
    if k > 0 {
        lemma_collide_vertex_static(verts, surfaces, vi, k - 1, dt, radius, i);
        assert(surface_wf(surfaces[k - 1], verts.len() as int));
        lemma_collide_pairing_static(
            collide_vertex_s(verts, surfaces, vi, k - 1, dt, radius),
            surfaces[k - 1],
            vi,
            dt,
            radius,
            i,
        );
    }
}

/// An all-pairs pass leaves a static vertex untouched.
proof fn lemma_collide_pass_static(
    verts: Seq<Vertex>,
    surfaces: Seq<Surface>,
    n_verts: int,
    dt: int,
    radius: int,
    i: int,
)
    requires
        0 <= i < verts.len(),
        verts[i].is_static,
        n_verts <= verts.len(),
        surfaces_wf(surfaces, verts.len() as int),
    ensures
        collide_pass_s(verts, surfaces, n_verts, dt, radius).len() == verts.len(),
        collide_pass_s(verts, surfaces, n_verts, dt, radius)[i] == verts[i],
    decreases n_verts,
{
    if n_verts > 0 {
        lemma_collide_pass_static(verts, surfaces, n_verts - 1, dt, radius, i);
        lemma_collide_vertex_static(
            collide_pass_s(verts, surfaces, n_verts - 1, dt, radius),
            surfaces,
            n_verts - 1,
            surfaces.len() as int,
            dt,
            radius,
            i,
        );
    }
}

/// Repeated collision passes leave a static vertex untouched.
proof fn lemma_collide_rounds_static(
    verts: Seq<Vertex>,
    surfaces: Seq<Surface>,
    rounds: int,
    dt: int,
    radius: int,
    i: int,
)
    requires
        0 <= i < verts.len(),
        verts[i].is_static,
        surfaces_wf(surfaces, verts.len() as int),
    ensures
        collide_rounds_s(verts, surfaces, rounds, dt, radius).len() == verts.len(),
        collide_rounds_s(verts, surfaces, rounds, dt, radius)[i] == verts[i],
    decreases rounds,
{
    if rounds > 0 {
        lemma_collide_rounds_static(verts, surfaces, rounds - 1, dt, radius, i);
        lemma_collide_pass_static(
            collide_rounds_s(verts, surfaces, rounds - 1, dt, radius),
            surfaces,
            collide_rounds_s(verts, surfaces, rounds - 1, dt, radius).len() as int,
            dt,
            radius,
            i,
        );
    }
}

/// What the commit pass does to a static vertex: the acceleration resets,
/// the position stays put.
proof fn lemma_commit_pass_static(verts: Seq<Vertex>, dt: int, k: int, i: int)
    requires
        0 <= i < verts.len(),
        verts[i].is_static,
        k <= verts.len(),
    ensures
        commit_pass_s(verts, dt, k).len() == verts.len(),
        i < k ==> commit_pass_s(verts, dt, k)[i] == (Vertex { acceleration: v_zero(), ..verts[i] }),
        i >= k ==> commit_pass_s(verts, dt, k)[i] == verts[i],
    decreases k,
{
    if k > 0 {
        lemma_commit_pass_static(verts, dt, k - 1, i);
    }
}

/// A whole substep pins a static vertex: its position is kept and its
/// velocity and acceleration come out zero.
proof fn lemma_substep_static(
    verts: Seq<Vertex>,
    surfaces: Seq<Surface>,
    dt: int,
    rounds: int,
    collisions: bool,
    gravity: int,
    radius: int,
    i: int,
)
    requires
        0 <= i < verts.len(),
        verts[i].is_static,
        surfaces_wf(surfaces, verts.len() as int),
    ensures
        substep_s(verts, surfaces, dt, rounds, collisions, gravity, radius).len() == verts.len(),
        substep_s(verts, surfaces, dt, rounds, collisions, gravity, radius)[i] == (Vertex {
            velocity: v_zero(),
            acceleration: v_zero(),
            ..verts[i]
        }),
{
    let forced = spring_pass_s(verts, surfaces, surfaces.len() as int);
    lemma_spring_pass_frame(verts, surfaces, surfaces.len() as int, i);
    let integrated = integrate_pass_s(forced, gravity, dt, forced.len() as int);
    lemma_integrate_pass_static(forced, gravity, dt, forced.len() as int, i);
    let collided = if collisions {
        collide_rounds_s(integrated, surfaces, rounds, dt, radius)
    } else {
        integrated
    };
    if collisions {
        lemma_collide_rounds_static(integrated, surfaces, rounds, dt, radius, i);
    }
    lemma_commit_pass_static(collided, dt, collided.len() as int, i);
}

/// Static vertices never move: over any number of substeps, whatever
/// forces and collisions act on the rest of the world, a static vertex
/// keeps its position exactly, and after at least one substep its
/// velocity and acceleration are zero.
pub proof fn lemma_static_vertices_pinned(
    verts: Seq<Vertex>,
    surfaces: Seq<Surface>,
    dt: int,
    rounds: int,
    k: int,
    collisions: bool,
    gravity: int,
    radius: int,
    i: int,
)
    requires
        0 <= i < verts.len(),
        verts[i].is_static,
        surfaces_wf(surfaces, verts.len() as int),
    ensures
        world_update_s(verts, surfaces, dt, rounds, k, collisions, gravity, radius).len()
            == verts.len(),
        world_update_s(verts, surfaces, dt, rounds, k, collisions, gravity, radius)[i].position
            == verts[i].position,
        world_update_s(verts, surfaces, dt, rounds, k, collisions, gravity, radius)[i].mass
            == verts[i].mass,
        world_update_s(verts, surfaces, dt, rounds, k, collisions, gravity, radius)[i].is_static,
        k >= 1 ==> world_update_s(verts, surfaces, dt, rounds, k, collisions, gravity, radius)[i].velocity
            == v_zero(),
        k >= 1 ==> world_update_s(
            verts,
            surfaces,
            dt,
            rounds,
            k,
            collisions,
            gravity,
            radius,
        )[i].acceleration == v_zero(),
    decreases k,
{
    if k > 0 {
        lemma_static_vertices_pinned(verts, surfaces, dt, rounds, k - 1, collisions, gravity, radius, i);
        lemma_substep_static(
            world_update_s(verts, surfaces, dt, rounds, k - 1, collisions, gravity, radius),
            surfaces,
            dt,
            rounds,
            collisions,
            gravity,
            radius,
            i,
        );
    }
}

/// Exact evaluation of `segment_hit_s`.
fn segment_hit(a: Vec2, b: Vec2, p: Vec2, radius: i64) -> (r: bool)
    requires
        v_in_range(a),
        v_in_range(b),
        v_in_range(p),
    ensures
        r == segment_hit_s(a, b, p, radius as int),
{
    proof {
        lemma_mul_bounds(b.x - a.x, b.x - a.x, 0x20000000000, 0x20000000000);
        lemma_mul_bounds(b.y - a.y, b.y - a.y, 0x20000000000, 0x20000000000);
        lemma_mul_bounds(b.x - a.x, p.x - a.x, 0x20000000000, 0x20000000000);
        lemma_mul_bounds(b.y - a.y, p.y - a.y, 0x20000000000, 0x20000000000);
    }
    let segx: i128 = b.x as i128 - a.x as i128;
    let segy: i128 = b.y as i128 - a.y as i128;
    let q: i128 = segx * segx + segy * segy;
    if q == 0 {
        return false;
    }
    let along: i128 = segx * (p.x as i128 - a.x as i128) + segy * (p.y as i128 - a.y as i128);
    proof {
        lemma_mul_bounds(segx as int, along as int, 0x20000000000, 0x800000000000000000000);
        lemma_mul_bounds(segy as int, along as int, 0x20000000000, 0x800000000000000000000);
    }
    let cpx: i64 = fx_clip(a.x as i128 + div_trunc_i128(segx * along, q));
    let cpy: i64 = fx_clip(a.y as i128 + div_trunc_i128(segy * along, q));
    let dx: i128 = cpx as i128 - p.x as i128;
    let dy: i128 = cpy as i128 - p.y as i128;
    let rw: i128 = radius as i128;
    proof {
        lemma_mul_bounds(dx as int, dx as int, 0x20000000000, 0x20000000000);
        lemma_mul_bounds(dy as int, dy as int, 0x20000000000, 0x20000000000);
        lemma_mul_bounds(rw as int, rw as int, 0x8000000000000000, 0x8000000000000000);
    }
    let dist_ok = dx * dx + dy * dy < rw * rw;
    dist_ok && 0 <= along && along <= q
}

/// A surface's force application preserves vertex well-formedness.
proof fn lemma_apply_surface_wf(verts: Seq<Vertex>, s: Surface)
    requires
        verts_wf(verts),
        s.index_a < s.index_b < verts.len(),
    ensures
        apply_surface_s(verts, s).len() == verts.len(),
        verts_wf(apply_surface_s(verts, s)),
{
    let result = apply_surface_s(verts, s);
    assert forall|i: int| 0 <= i < result.len() implies vertex_wf(#[trigger] result[i]) by {
        if i != s.index_a as int && i != s.index_b as int {
            assert(result[i] == verts[i]);
        }
    }
}

impl World {
    /// An empty world with the default gravity and contact thickness.
    pub fn new() -> (w: World)
        ensures
            w.verts@.len() == 0,
            w.surfaces@.len() == 0,
            w.debug.vectors@.len() == 0,
            w.gravity == DEFAULT_GRAVITY,
            w.vertex_radius == DEFAULT_VERTEX_RADIUS,
            world_wf(w),
    {
        World {
            verts: Vec::new(),
            surfaces: Vec::new(),
            debug: DebugView { vectors: Vec::new() },
            gravity: DEFAULT_GRAVITY,
            vertex_radius: DEFAULT_VERTEX_RADIUS,
        }
    }

    /// Appends a vertex; existing indices are unaffected.
    pub fn add_vertex(&mut self, vertex: Vertex)
        ensures
            final (self).verts@ == old(self).verts@.push(vertex),
            final (self).surfaces@ == old(self).surfaces@,
            final (self).debug.vectors@ == old(self).debug.vectors@,
            final (self).gravity == old(self).gravity,
            final (self).vertex_radius == old(self).vertex_radius,
            world_wf(*old(self)) && vertex_wf(vertex) ==> world_wf(*final (self)),
    {
        self.verts.push(vertex);
        proof {
            if world_wf(*old(self)) && vertex_wf(vertex) {
                assert forall|i: int| 0 <= i < self.verts@.len() implies vertex_wf(
                    #[trigger] self.verts@[i],
                ) by {
                    if i < old(self).verts@.len() {
                        assert(self.verts@[i] == old(self).verts@[i]);
                    }
                }
                assert forall|i: int|
                    0 <= i < self.surfaces@.len() implies surface_wf(
                    #[trigger] self.surfaces@[i],
                    self.verts@.len() as int,
                ) by {
                    assert(surface_wf(self.surfaces@[i], old(self).verts@.len() as int));
                }
            }
        }
    }

    /// Removes the vertex at `index`. Surfaces referencing it are deleted
    /// and the indices of every remaining surface are shifted down to keep
    /// the vertex indexing dense.
    pub fn remove_vertex(&mut self, index: usize) -> (r: Result<(), WorldError>)
        ensures
            final (self).debug.vectors@ == old(self).debug.vectors@,
            final (self).gravity == old(self).gravity,
            final (self).vertex_radius == old(self).vertex_radius,
            index >= old(self).verts@.len() ==> r == Err::<(), WorldError>(
                WorldError::IndexOutOfBounds,
            ) && final (self).verts@ == old(self).verts@ && final (self).surfaces@ == old(self).surfaces@,
            index < old(self).verts@.len() ==> r == Ok::<(), WorldError>(()) && final (self).verts@ == old(self).verts@.remove(index as int) && final (self).surfaces@
                == reindex_surfaces_s(old(self).surfaces@, index as int),
            world_wf(*old(self)) ==> world_wf(*final (self)),
    {
        if index >= self.verts.len() {
            return Err(WorldError::IndexOutOfBounds);
        }
        self.verts.remove(index);
        let ghost old_surfaces = self.surfaces@;
        let mut kept: Vec<Surface> = Vec::new();
        let n = self.surfaces.len();
        let mut i: usize = 0;
        while i < n
            invariant
                n == self.surfaces@.len(),
                i <= n,
                self.surfaces@ == old_surfaces,
                kept@ == reindex_surfaces_s(self.surfaces@.take(i as int), index as int),
            decreases n - i,
        {
            let s = self.surfaces[i];
            proof {
                assert(self.surfaces@.take(i as int + 1).drop_last() =~= self.surfaces@.take(
                    i as int,
                ));
                assert(self.surfaces@.take(i as int + 1)[i as int] == self.surfaces@[i as int]);
            }
            if s.index_a != index && s.index_b != index {
                let shifted = Surface {
                    index_a: if s.index_a > index {
                        s.index_a - 1
                    } else {
                        s.index_a
                    },
                    index_b: if s.index_b > index {
                        s.index_b - 1
                    } else {
                        s.index_b
                    },
                    ..s
                };
                proof {
                    assert(shifted == shift_surface_s(self.surfaces@[i as int], index as int));
                }
                kept.push(shifted);
            }
            i += 1;
        }
        proof {
            assert(self.surfaces@.take(n as int) =~= self.surfaces@);
        }
        self.surfaces = kept;
        proof {
            if world_wf(*old(self)) {
                lemma_remove_vertex_consistency(
                    old(self).surfaces@,
                    index as int,
                    old(self).verts@.len() as int,
                );
            }
        }
        Ok(())
    }

    /// Creates a surface between two existing vertices, storing the pair in
    /// canonical order. A self-pair or an already constrained pair is a
    /// silent no-op; an out-of-range index is an error.
    pub fn create_surface(&mut self, index_a: usize, index_b: usize) -> (r: Result<
        (),
        WorldError,
    >)
        ensures
            final (self).verts@ == old(self).verts@,
            final (self).debug.vectors@ == old(self).debug.vectors@,
            final (self).gravity == old(self).gravity,
            final (self).vertex_radius == old(self).vertex_radius,
            index_a == index_b ==> r == Ok::<(), WorldError>(()) && final (self).surfaces@ == old(self).surfaces@,
            index_a != index_b && (index_a >= old(self).verts@.len() || index_b >= old(self).verts@.len()) ==> r == Err::<(), WorldError>(WorldError::IndexOutOfBounds) && final (self).surfaces@ == old(self).surfaces@,
            index_a != index_b && index_a < old(self).verts@.len() && index_b < old(self).verts@.len() ==> r == Ok::<(), WorldError>(()) && final (self).surfaces@
                == create_surface_s(
                old(self).surfaces@,
                old(self).verts@,
                index_a as int,
                index_b as int,
            ),
            world_wf(*old(self)) ==> world_wf(*final (self)),
    {
        if index_a == index_b {
            return Ok(());
        }
        let n = self.verts.len();
        if index_a >= n || index_b >= n {
            return Err(WorldError::IndexOutOfBounds);
        }
        let lo = if index_a < index_b {
            index_a
        } else {
            index_b
        };
        let hi = if index_a < index_b {
            index_b
        } else {
            index_a
        };
        let m = self.surfaces.len();
        let mut i: usize = 0;
        while i < m
            invariant
                m == self.surfaces@.len(),
                i <= m,
                self.surfaces@ == old(self).surfaces@,
                self.verts@ == old(self).verts@,
                self.debug.vectors@ == old(self).debug.vectors@,
                self.gravity == old(self).gravity,
                self.vertex_radius == old(self).vertex_radius,
                index_a != index_b,
                index_a < old(self).verts@.len(),
                index_b < old(self).verts@.len(),
                lo == if index_a < index_b {
                    index_a
                } else {
                    index_b
                },
                hi == if index_a < index_b {
                    index_b
                } else {
                    index_a
                },
                forall|j: int|
                    0 <= j < i ==> #[trigger] surface_pair(self.surfaces@[j]) != (
                        lo as int,
                        hi as int,
                    ),
            decreases m - i,
        {
            let s = self.surfaces[i];
            if s.index_a == lo && s.index_b == hi {
                proof {
                    assert(surface_pair(self.surfaces@[i as int]) == (lo as int, hi as int));
                    assert(contains_pair(self.surfaces@, lo as int, hi as int));
                }
                return Ok(());
            }
            i += 1;
        }
        assert(!contains_pair(self.surfaces@, lo as int, hi as int));
        let fresh = Surface::new(lo, hi, &self.verts);
        self.surfaces.push(fresh);
        proof {
            if world_wf(*old(self)) {
                let result = self.surfaces@;
                assert forall|k: int| 0 <= k < result.len() implies surface_wf(
                    #[trigger] result[k],
                    self.verts@.len() as int,
                ) by {
                    if k < old(self).surfaces@.len() {
                        assert(result[k] == old(self).surfaces@[k]);
                    }
                }
                assert forall|p: int, q: int| 0 <= p < q < result.len() implies #[trigger]
                    surface_pair(result[p]) != #[trigger] surface_pair(result[q]) by {
                    if q == old(self).surfaces@.len() {
                        assert(result[p] == old(self).surfaces@[p]);
                        if surface_pair(result[p]) == surface_pair(result[q]) {
                            assert(contains_pair(old(self).surfaces@, lo as int, hi as int));
                        }
                    }
                }
            }
        }
        Ok(())
    }

    /// One all-pairs collision resolution pass: every vertex is tested as
    /// a probe against every surface that does not contain it, ascending
    /// over vertices and, within a vertex, over surfaces.
    pub fn resolve_collisions(&mut self, dt: i64)
        requires
            verts_wf(old(self).verts@),
            surfaces_wf(old(self).surfaces@, old(self).verts@.len() as int),
        ensures
            final (self).verts@ == collide_pass_s(
                old(self).verts@,
                old(self).surfaces@,
                old(self).verts@.len() as int,
                dt as int,
                old(self).vertex_radius as int,
            ),
            final (self).verts@.len() == old(self).verts@.len(),
            verts_wf(final (self).verts@),
            final (self).surfaces@ == old(self).surfaces@,
            final (self).debug.vectors@ == old(self).debug.vectors@,
            final (self).gravity == old(self).gravity,
            final (self).vertex_radius == old(self).vertex_radius,
    {
        let n = self.verts.len();
        let m = self.surfaces.len();
        let radius = self.vertex_radius;
        let mut vertex_i: usize = 0;
        while vertex_i < n
            invariant
                n == self.verts@.len(),
                m == self.surfaces@.len(),
                vertex_i <= n,
                radius == old(self).vertex_radius,
                self.surfaces@ == old(self).surfaces@,
                self.debug.vectors@ == old(self).debug.vectors@,
                self.gravity == old(self).gravity,
                self.vertex_radius == old(self).vertex_radius,
                verts_wf(self.verts@),
                surfaces_wf(self.surfaces@, n as int),
                self.verts@ == collide_pass_s(
                    old(self).verts@,
                    old(self).surfaces@,
                    vertex_i as int,
                    dt as int,
                    radius as int,
                ),
            decreases n - vertex_i,
        {
            let ghost outer_base = self.verts@;
            let mut surface_i: usize = 0;
            while surface_i < m
                invariant
                    n == self.verts@.len(),
                    m == self.surfaces@.len(),
                    vertex_i < n,
                    surface_i <= m,
                    radius == self.vertex_radius,
                    self.surfaces@ == old(self).surfaces@,
                    self.debug.vectors@ == old(self).debug.vectors@,
                    self.gravity == old(self).gravity,
                    self.vertex_radius == old(self).vertex_radius,
                    verts_wf(self.verts@),
                    surfaces_wf(self.surfaces@, n as int),
                    self.verts@ == collide_vertex_s(
                        outer_base,
                        self.surfaces@,
                        vertex_i as int,
                        surface_i as int,
                        dt as int,
                        radius as int,
                    ),
                decreases m - surface_i,
            {
                let surface = self.surfaces[surface_i];
                let ghost before = self.verts@;
                if surface.index_a != vertex_i && surface.index_b != vertex_i {
                    let mut vertex = self.verts[vertex_i];
                    let mut segment_a = self.verts[surface.index_a];
                    let mut segment_b = self.verts[surface.index_b];
                    if colliding(&vertex, &segment_a, &segment_b, dt, radius) {
                        resolve_impulses(
                            &mut vertex,
                            &mut segment_a,
                            &mut segment_b,
                            &surface,
                            radius,
                        );
                        self.verts[vertex_i] = vertex;
                        self.verts[surface.index_a] = segment_a;
                        self.verts[surface.index_b] = segment_b;
                        proof {
                            assert forall|i: int|
                                0 <= i < self.verts@.len() implies vertex_wf(
                                #[trigger] self.verts@[i],
                            ) by {
                                if i != vertex_i as int && i != surface.index_a as int && i
                                    != surface.index_b as int {
                                    assert(self.verts@[i] == before[i]);
                                }
                            }
                        }
                    }
                }
                proof {
                    assert(self.verts@ == collide_vertex_surface_s(
                        before,
                        self.surfaces@[surface_i as int],
                        vertex_i as int,
                        dt as int,
                        radius as int,
                    ));
                }
                surface_i += 1;
            }
            vertex_i += 1;
        }
        proof {
            assert(self.surfaces@.len() as int == m as int);
        }
    }

    /// Steps the simulation by `dt`, divided into `iterations` equal
    /// substeps, repeating the collision pass `iterations` times within
    /// each substep; `update_with_rounds` exposes that repeat count as
    /// its own knob.
    pub fn update(&mut self, dt: i64, iterations: u32, collisions: bool)
        requires
            world_wf(*old(self)),
        ensures
            final (self).verts@ == world_update_s(
                old(self).verts@,
                old(self).surfaces@,
                fx_div_s(dt as int, (iterations as int) * (FX_SCALE as int)),
                iterations as int,
                iterations as int,
                collisions,
                old(self).gravity as int,
                old(self).vertex_radius as int,
            ),
            final (self).verts@.len() == old(self).verts@.len(),
            final (self).surfaces@ == old(self).surfaces@,
            final (self).debug.vectors@ == old(self).debug.vectors@,
            final (self).gravity == old(self).gravity,
            final (self).vertex_radius == old(self).vertex_radius,
            world_wf(*final (self)),
            forall|i: int|
                0 <= i < old(self).verts@.len() && (#[trigger] old(self).verts@[i]).is_static
                    ==> final (self).verts@[i].position == old(self).verts@[i].position,
            iterations >= 1 ==> forall|i: int|
                0 <= i < old(self).verts@.len() && (#[trigger] old(self).verts@[i]).is_static
                    ==> final (self).verts@[i].velocity == v_zero() && final (self).verts@[i].acceleration == v_zero(),
    {
        self.update_with_rounds(dt, iterations, iterations, collisions);
    }

    /// Steps the simulation by `dt`, divided into `iterations` equal
    /// substeps. Each substep runs, in strict order: every surface's
    /// spring-damper force, gravity plus velocity integration (static
    /// vertices are pinned), `rounds` repeated all-pairs collision
    /// passes when `collisions` is on, and the position commit.
    pub fn update_with_rounds(&mut self, dt: i64, iterations: u32, rounds: u32, collisions: bool)
        requires
            world_wf(*old(self)),
        ensures
            final (self).verts@ == world_update_s(
                old(self).verts@,
                old(self).surfaces@,
                fx_div_s(dt as int, (iterations as int) * (FX_SCALE as int)),
                rounds as int,
                iterations as int,
                collisions,
                old(self).gravity as int,
                old(self).vertex_radius as int,
            ),
            final (self).verts@.len() == old(self).verts@.len(),
            final (self).surfaces@ == old(self).surfaces@,
            final (self).debug.vectors@ == old(self).debug.vectors@,
            final (self).gravity == old(self).gravity,
            final (self).vertex_radius == old(self).vertex_radius,
            world_wf(*final (self)),
            forall|i: int|
                0 <= i < old(self).verts@.len() && (#[trigger] old(self).verts@[i]).is_static
                    ==> final (self).verts@[i].position == old(self).verts@[i].position,
            iterations >= 1 ==> forall|i: int|
                0 <= i < old(self).verts@.len() && (#[trigger] old(self).verts@[i]).is_static
                    ==> final (self).verts@[i].velocity == v_zero() && final (self).verts@[i].acceleration == v_zero(),
    {
        let it_fx: i64 = (iterations as i64) * FX_SCALE;
        let dt_sub = fx_div(dt, it_fx);
        let n = self.verts.len();
        let m = self.surfaces.len();
        let radius = self.vertex_radius;
        let gravity = self.gravity;
        let mut k: u32 = 0;
        while k < iterations
            invariant
                n == self.verts@.len(),
                m == self.surfaces@.len(),
                k <= iterations,
                radius == old(self).vertex_radius,
                gravity == old(self).gravity,
                dt_sub == fx_div_s(dt as int, (iterations as int) * (FX_SCALE as int)),
                self.surfaces@ == old(self).surfaces@,
                self.debug.vectors@ == old(self).debug.vectors@,
                self.gravity == old(self).gravity,
                self.vertex_radius == old(self).vertex_radius,
                verts_wf(self.verts@),
                surfaces_wf(self.surfaces@, n as int),
                self.verts@ == world_update_s(
                    old(self).verts@,
                    old(self).surfaces@,
                    dt_sub as int,
                    rounds as int,
                    k as int,
                    collisions,
                    gravity as int,
                    radius as int,
                ),
            decreases iterations - k,
        {
            let ghost substep_base = self.verts@;

            let mut si: usize = 0;
            while si < m
                invariant
                    n == self.verts@.len(),
                    m == self.surfaces@.len(),
                    si <= m,
                    self.surfaces@ == old(self).surfaces@,
                    self.debug.vectors@ == old(self).debug.vectors@,
                    self.gravity == old(self).gravity,
                    self.vertex_radius == old(self).vertex_radius,
                    verts_wf(self.verts@),
                    surfaces_wf(self.surfaces@, n as int),
                    self.verts@ == spring_pass_s(substep_base, self.surfaces@, si as int),
                decreases m - si,
            {
                let surface = self.surfaces[si];
                let ghost before = self.verts@;
                surface.apply_force(&mut self.verts);
                proof {
                    lemma_apply_surface_wf(before, surface);
                }
                si += 1;
            }

            let ghost forced = self.verts@;
            let mut i: usize = 0;
            while i < n
                invariant
                    n == self.verts@.len(),
                    m == self.surfaces@.len(),
                    i <= n,
                    gravity == self.gravity,
                    self.surfaces@ == old(self).surfaces@,
                    self.debug.vectors@ == old(self).debug.vectors@,
                    self.gravity == old(self).gravity,
                    self.vertex_radius == old(self).vertex_radius,
                    verts_wf(self.verts@),
                    surfaces_wf(self.surfaces@, n as int),
                    self.verts@ == integrate_pass_s(forced, gravity as int, dt_sub as int, i as int),
                decreases n - i,
            {
                let mut vertex = self.verts[i];
                let ghost before = self.verts@;
                if !vertex.is_static {
                    vertex.acceleration.y = fx_add(vertex.acceleration.y, self.gravity);
                    vertex.force_to_velocity(dt_sub);
                } else {
                    vertex.velocity = Vec2 { x: 0, y: 0 };
                    vertex.acceleration = Vec2 { x: 0, y: 0 };
                }
                self.verts[i] = vertex;
                proof {
                    assert(vertex == gravity_integrate_s(before[i as int], gravity as int, dt_sub as int));
                    assert forall|j: int| 0 <= j < self.verts@.len() implies vertex_wf(
                        #[trigger] self.verts@[j],
                    ) by {
                        if j != i as int {
                            assert(self.verts@[j] == before[j]);
                        }
                    }
                }
                i += 1;
            }

            if collisions {
                let ghost integrated = self.verts@;
                let mut round: u32 = 0;
                while round < rounds
                    invariant
                        n == self.verts@.len(),
                        m == self.surfaces@.len(),
                        round <= rounds,
                        radius == old(self).vertex_radius,
                        self.surfaces@ == old(self).surfaces@,
                        self.debug.vectors@ == old(self).debug.vectors@,
                        self.gravity == old(self).gravity,
                        self.vertex_radius == old(self).vertex_radius,
                        verts_wf(self.verts@),
                        surfaces_wf(self.surfaces@, n as int),
                        self.verts@ == collide_rounds_s(
                            integrated,
                            self.surfaces@,
                            round as int,
                            dt_sub as int,
                            radius as int,
                        ),
                    decreases rounds - round,
                {
                    self.resolve_collisions(dt_sub);
                    round += 1;
                }
            }

            let ghost collided = self.verts@;
            let mut ci: usize = 0;
            while ci < n
                invariant
                    n == self.verts@.len(),
                    m == self.surfaces@.len(),
                    ci <= n,
                    self.surfaces@ == old(self).surfaces@,
                    self.debug.vectors@ == old(self).debug.vectors@,
                    self.gravity == old(self).gravity,
                    self.vertex_radius == old(self).vertex_radius,
                    verts_wf(self.verts@),
                    surfaces_wf(self.surfaces@, n as int),
                    self.verts@ == commit_pass_s(collided, dt_sub as int, ci as int),
                decreases n - ci,
            {
                let mut vertex = self.verts[ci];
                let ghost before = self.verts@;
                vertex.update(dt_sub);
                self.verts[ci] = vertex;
                proof {
                    assert forall|j: int| 0 <= j < self.verts@.len() implies vertex_wf(
                        #[trigger] self.verts@[j],
                    ) by {
                        if j != ci as int {
                            assert(self.verts@[j] == before[j]);
                        }
                    }
                }
                ci += 1;
            }

            proof {
                assert(self.verts@ == substep_s(
                    substep_base,
                    self.surfaces@,
                    dt_sub as int,
                    rounds as int,
                    collisions,
                    gravity as int,
                    radius as int,
                ));
            }
            k += 1;
        }
        proof {
            assert forall|i: int|
                0 <= i < old(self).verts@.len() && (#[trigger] old(self).verts@[i]).is_static
                    implies self.verts@[i].position == old(self).verts@[i].position && (iterations
                >= 1 ==> self.verts@[i].velocity == v_zero() && self.verts@[i].acceleration
                == v_zero()) by {
                lemma_static_vertices_pinned(
                    old(self).verts@,
                    old(self).surfaces@,
                    fx_div_s(dt as int, (iterations as int) * (FX_SCALE as int)),
                    rounds as int,
                    iterations as int,
                    collisions,
                    old(self).gravity as int,
                    old(self).vertex_radius as int,
                    i,
                );
            }
        }
    }

    /// The index of the first surface whose segment the probe point picks:
    /// the projection of `position` onto the segment's line is within
    /// `radius` and falls inside the segment's span.
    pub fn get_surface_at(&self, position: Vec2, radius: i64) -> (r: Option<usize>)
        requires
            verts_wf(self.verts@),
            surfaces_wf(self.surfaces@, self.verts@.len() as int),
            v_in_range(position),
        ensures
            match r {
                Some(i) => i < self.surfaces@.len() && surface_hit_s(
                    self.surfaces@[i as int],
                    self.verts@,
                    position,
                    radius as int,
                ) && forall|j: int|
                    0 <= j < i ==> !surface_hit_s(
                        #[trigger] self.surfaces@[j],
                        self.verts@,
                        position,
                        radius as int,
                    ),
                None => forall|j: int|
                    0 <= j < self.surfaces@.len() ==> !surface_hit_s(
                        #[trigger] self.surfaces@[j],
                        self.verts@,
                        position,
                        radius as int,
                    ),
            },
    {
        let m = self.surfaces.len();
        let mut index: usize = 0;
        while index < m
            invariant
                verts_wf(self.verts@),
                surfaces_wf(self.surfaces@, self.verts@.len() as int),
                v_in_range(position),
                m == self.surfaces@.len(),
                index <= m,
                forall|j: int|
                    0 <= j < index ==> !surface_hit_s(
                        #[trigger] self.surfaces@[j],
                        self.verts@,
                        position,
                        radius as int,
                    ),
            decreases m - index,
        {
            let surface = self.surfaces[index];
            let a = self.verts[surface.index_a].position;
            let b = self.verts[surface.index_b].position;
            if segment_hit(a, b, position, radius) {
                return Some(index);
            }
            index += 1;
        }
        None
    }

    /// Nearest-within-radius query: the index of the vertex closest to
    /// `position` among those strictly within `radius`, ties broken by the
    /// lowest index.
    pub fn get_vertex_at(&self, position: Vec2, radius: i64) -> (r: Option<usize>)
        requires
            verts_wf(self.verts@),
            v_in_range(position),
        ensures
            match r {
                Some(i) => {
                    &&& i < self.verts@.len()
                    &&& near_vertex_s(self.verts@[i as int], position, radius as int)
                    &&& forall|j: int|
                        0 <= j < self.verts@.len() && near_vertex_s(
                            #[trigger] self.verts@[j],
                            position,
                            radius as int,
                        ) ==> vertex_dist_sq_s(self.verts@[i as int], position)
                            <= vertex_dist_sq_s(self.verts@[j], position)
                    &&& forall|j: int|
                        0 <= j < i ==> !near_vertex_s(
                            #[trigger] self.verts@[j],
                            position,
                            radius as int,
                        ) || vertex_dist_sq_s(self.verts@[j], position) > vertex_dist_sq_s(
                            self.verts@[i as int],
                            position,
                        )
                },
                None => forall|j: int|
                    0 <= j < self.verts@.len() ==> !near_vertex_s(
                        #[trigger] self.verts@[j],
                        position,
                        radius as int,
                    ),
            },
    {
        let n = self.verts.len();
        let mut best: Option<usize> = None;
        let mut best_dist: i128 = 0;
        let mut index: usize = 0;
        while index < n
            invariant
                verts_wf(self.verts@),
                v_in_range(position),
                n == self.verts@.len(),
                index <= n,
                match best {
                    Some(bi) => {
                        &&& bi < index
                        &&& near_vertex_s(self.verts@[bi as int], position, radius as int)
                        &&& best_dist == vertex_dist_sq_s(self.verts@[bi as int], position)
                        &&& forall|j: int|
                            0 <= j < index && near_vertex_s(
                                #[trigger] self.verts@[j],
                                position,
                                radius as int,
                            ) ==> best_dist <= vertex_dist_sq_s(self.verts@[j], position)
                        &&& forall|j: int|
                            0 <= j < bi ==> !near_vertex_s(
                                #[trigger] self.verts@[j],
                                position,
                                radius as int,
                            ) || vertex_dist_sq_s(self.verts@[j], position) > best_dist
                    },
                    None => forall|j: int|
                        0 <= j < index ==> !near_vertex_s(
                            #[trigger] self.verts@[j],
                            position,
                            radius as int,
                        ),
                },
            decreases n - index,
        {
            let vertex = self.verts[index];
            let dx: i128 = vertex.position.x as i128 - position.x as i128;
            let dy: i128 = vertex.position.y as i128 - position.y as i128;
            let rw: i128 = radius as i128;
            proof {
                assert(dx * dx <= 0x400000000000000000000 && dy * dy <= 0x400000000000000000000
                    && dx * dx >= 0 && dy * dy >= 0 && 0 <= rw * rw
                    <= 0x40000000000000000000000000000000) by (nonlinear_arith)
                    requires
                        -0x20000000000 <= dx <= 0x20000000000,
                        -0x20000000000 <= dy <= 0x20000000000,
                        -0x8000000000000000 <= rw <= 0x7fffffffffffffff,
                ;
            }
            let dist_sq: i128 = dx * dx + dy * dy;
            let radius_sq: i128 = rw * rw;
            if dist_sq < radius_sq {
                let replace = match best {
                    Option::None => true,
                    Option::Some(_) => dist_sq < best_dist,
                };
                if replace {
                    best = Some(index);
                    best_dist = dist_sq;
                }
            }
            index += 1;
        }
        best
    }

    /// The indices of every surface incident to the vertex at `index`, in
    /// ascending order.
    pub fn get_vertex_surfaces(&self, index: usize) -> (r: Vec<usize>)
        ensures
            r@ == incident_s(self.surfaces@, index as int),
    {
        let mut found: Vec<usize> = Vec::new();
        let n = self.surfaces.len();
        let mut surface_i: usize = 0;
        while surface_i < n
            invariant
                n == self.surfaces@.len(),
                surface_i <= n,
                found@ == incident_s(self.surfaces@.take(surface_i as int), index as int),
            decreases n - surface_i,
        {
            let surface = self.surfaces[surface_i];
            proof {
                assert(self.surfaces@.take(surface_i as int + 1).drop_last() =~= self.surfaces@
                    .take(surface_i as int));
                assert(self.surfaces@.take(surface_i as int + 1)[surface_i as int] == self
                    .surfaces@[surface_i as int]);
            }
            if surface.index_a == index || surface.index_b == index {
                found.push(surface_i);
            }
            surface_i += 1;
        }
        proof {
            assert(self.surfaces@.take(n as int) =~= self.surfaces@);
        }
        found
    }
}

} // verus!
