//! Building a polygon scene through the world's public editing API.

use vstd::prelude::*;
use crate::fixed::{
    FX_SCALE, FX_LIMIT, div_trunc, isqrt_s, isqrt_u128, div_trunc_i128, lemma_div_le,
    lemma_isqrt_bounds, lemma_mul_bounds,
};
use crate::vec2::{Vec2, v_in_range, v_zero};
use crate::simulation::{
    World, Vertex, world_wf, vertex_wf, contains_pair, create_surface_s, surface_pair,
    DEFAULT_MASS,
};
use crate::surface::surface_new_s;

verus! {

/// Creating one surface keeps every pair already present.
proof fn lemma_create_keeps_pair(
    surfaces: Seq<crate::surface::Surface>,
    verts: Seq<Vertex>,
    a: int,
    b: int,
    x: int,
    y: int,
)
    requires
        contains_pair(surfaces, x, y),
    ensures
        contains_pair(create_surface_s(surfaces, verts, a, b), x, y),
{
    let i = choose|i: int|
        0 <= i < surfaces.len() && #[trigger] surface_pair(surfaces[i]) == (x, y);
    let result = create_surface_s(surfaces, verts, a, b);
    assert(result[i] == surfaces[i]);
    assert(surface_pair(result[i]) == (x, y));
}

/// After creating the surface between two distinct vertices, the
/// canonical pair is present.
proof fn lemma_create_adds_pair(
    surfaces: Seq<crate::surface::Surface>,
    verts: Seq<Vertex>,
    a: int,
    b: int,
)
    requires
        0 <= a <= usize::MAX,
        0 <= b <= usize::MAX,
        a != b,
    ensures
        contains_pair(
            create_surface_s(surfaces, verts, a, b),
            if a < b {
                a
            } else {
                b
            },
            if a < b {
                b
            } else {
                a
            },
        ),
{
    let lo = if a < b {
        a
    } else {
        b
    };
    let hi = if a < b {
        b
    } else {
        a
    };
    if !contains_pair(surfaces, lo, hi) {
        let result = surfaces.push(surface_new_s(verts, lo, hi));
        assert(surface_pair(result[surfaces.len() as int]) == (lo, hi));
        assert(contains_pair(result, lo, hi));
    }
}

/// Whether a canonical index pair is one of the pairs a polygon built on
/// `n` perimeter vertices starting at `base` constrains: a perimeter edge,
/// the closing edge, or a spoke to the center vertex `base + n`.
pub open spec fn polygon_pair(base: int, n: int, p: (int, int)) -> bool {
    ||| (base <= p.0 && p.0 < base + n - 1 && p.1 == p.0 + 1)
    ||| (n >= 2 && p.0 == base && p.1 == base + n - 1)
    ||| (base <= p.0 && p.0 < base + n && p.1 == base + n)
}

/// Whether `p` lies within `radius` of `center`, by squared distance.
pub open spec fn within_radius(p: Vec2, center: Vec2, radius: int) -> bool {
    (p.x - center.x) * (p.x - center.x) + (p.y - center.y) * (p.y - center.y) <= radius * radius
}

/// The offset of the `k`-th of `n` evenly spread points on a circle of
/// the given radius, as a rational approximation of the circle point at
/// angle `2*pi*k/n`: a quadratic cosine approximation over the turn
/// fraction, with the sine magnitude recovered through the integer square
/// root, so the point never leaves the circle. The point at `k == 0` is
/// exactly `(radius, 0)`.
fn circle_offset(k: usize, n: usize, radius: i64) -> (r: (i64, i64))
    requires
        1 <= n <= 0x80000000,
        k < n,
        0 <= radius,
    ensures
        -radius <= r.0 <= radius,
        -radius <= r.1 <= radius,
        (r.0 as int) * (r.0 as int) + (r.1 as int) * (r.1 as int) <= (radius as int) * (radius
            as int),
        k == 0 ==> r == (radius, 0i64),
{
    let nn: i128 = 2 * (n as i128);
    let kk: i128 = 2 * (k as i128);
    let v: i128 = if kk < nn - kk {
        kk
    } else {
        nn - kk
    };
    let (w, cos_neg): (i128, bool) = if 4 * v <= nn {
        (v, false)
    } else {
        ((n as i128) - v, true)
    };
    proof {
        assert(0 <= w && 4 * w <= nn);
        lemma_mul_bounds(nn as int, nn as int, 0x100000000, 0x100000000);
        lemma_mul_bounds(w as int, w as int, 0x100000000, 0x100000000);
        assert(16 * (w * w) <= nn * nn) by (nonlinear_arith)
            requires
                0 <= w,
                4 * w <= nn,
        ;
    }
    let num: i128 = (FX_SCALE as i128) * (nn * nn - 16 * (w * w));
    let den: i128 = nn * nn + 4 * (w * w);
    proof {
        assert(num <= FX_SCALE * den) by (nonlinear_arith)
            requires
                num == FX_SCALE * (nn * nn - 16 * (w * w)),
                den == nn * nn + 4 * (w * w),
                0 <= w * w,
                FX_SCALE == 1000,
        ;
        assert(num >= 0) by (nonlinear_arith)
            requires
                num == FX_SCALE * (nn * nn - 16 * (w * w)),
                16 * (w * w) <= nn * nn,
                FX_SCALE == 1000,
        ;
        assert(den >= 4) by (nonlinear_arith)
            requires
                den == nn * nn + 4 * (w * w),
                nn >= 2,
        ;
        lemma_div_le(num as int, den as int, FX_SCALE as int);
    }
    let b: i128 = ((num as u128) / (den as u128)) as i128;
    let c: i128 = if cos_neg {
        -b
    } else {
        b
    };
    proof {
        assert(0 <= b * b <= (FX_SCALE as int) * (FX_SCALE as int)) by (nonlinear_arith)
            requires
                0 <= b <= FX_SCALE,
                FX_SCALE == 1000,
        ;
    }
    let s_sq: i128 = (FX_SCALE as i128) * (FX_SCALE as i128) - b * b;
    let s_root: u128 = isqrt_u128(s_sq as u128);
    proof {
        lemma_isqrt_bounds(s_sq as nat);
        assert(s_root <= FX_SCALE) by (nonlinear_arith)
            requires
                (s_root as nat) * (s_root as nat) <= s_sq as nat,
                s_sq as nat <= 1000000,
                FX_SCALE == 1000,
        ;
    }
    let s_mag: i128 = s_root as i128;
    proof {
        assert(s_mag * s_mag <= s_sq) by (nonlinear_arith)
            requires
                (s_mag as nat) * (s_mag as nat) <= s_sq as nat,
                s_mag >= 0,
                s_sq >= 0,
        ;
    }
    let s: i128 = if kk > n as i128 {
        -s_mag
    } else {
        s_mag
    };
    proof {
        lemma_mul_bounds(radius as int, c as int, 0x8000000000000000, 1000);
        lemma_mul_bounds(radius as int, s as int, 0x8000000000000000, 1000);
        assert(c * c == b * b && s * s == s_mag * s_mag) by (nonlinear_arith)
            requires
                c == b || c == -b,
                s == s_mag || s == -s_mag,
        ;
    }
    let dx: i128 = div_trunc_i128(radius as i128 * c, FX_SCALE as i128);
    let dy: i128 = div_trunc_i128(radius as i128 * s, FX_SCALE as i128);
    proof {
        lemma_offset_in_circle(radius as int, c as int, s as int, dx as int, dy as int);
        if k == 0 {
            assert(v == 0 && w == 0 && !cos_neg);
            assert(num == (FX_SCALE as int) * den);
            vstd::arithmetic::div_mod::lemma_div_multiples_vanish(FX_SCALE as int, den as int);
            assert(b == FX_SCALE);
            assert(s_sq == 0);
            assert(isqrt_s(0) == 0);
            assert(s == 0);
            assert(radius as int * FX_SCALE == FX_SCALE as int * (radius as int));
            vstd::arithmetic::div_mod::lemma_div_multiples_vanish(
                radius as int,
                FX_SCALE as int,
            );
            assert(dx == radius);
            assert(dy == 0);
        }
    }
    (dx as i64, dy as i64)
}

/// Assembles a regular polygon through the world's public editing API:
/// `num_verts` perimeter vertices spread around `center` within `radius`,
/// one vertex at the center, a closed perimeter of surfaces, and a spoke
/// from every perimeter vertex to the center.
pub fn make_polygon(world: &mut World, center: Vec2, radius: i64, num_verts: usize)
    requires
        world_wf(*old(world)),
        1 <= num_verts <= 0x80000000,
        0 <= radius,
        -FX_LIMIT <= center.x - radius,
        center.x + radius <= FX_LIMIT,
        -FX_LIMIT <= center.y - radius,
        center.y + radius <= FX_LIMIT,
        old(world).verts@.len() + num_verts + 1 <= usize::MAX,
    ensures
        world_wf(*final (world)),
        final (world).verts@.len() == old(world).verts@.len() + num_verts + 1,
        forall|j: int|
            0 <= j < old(world).verts@.len() ==> final (world).verts@[j] == old(world).verts@[j],
        forall|j: int|
            0 <= j < num_verts ==> within_radius(
                (#[trigger] final (world).verts@[old(world).verts@.len() + j]).position,
                center,
                radius as int,
            ),
        final (world).verts@[old(world).verts@.len() + num_verts].position == center,
        forall|j: int|
            0 <= j < num_verts + 1 ==> {
                let v = #[trigger] final (world).verts@[old(world).verts@.len() + j];
                v.mass == DEFAULT_MASS && v.velocity == v_zero() && v.acceleration == v_zero()
                    && !v.is_static
            },
        forall|k: int|
            0 <= k < final (world).surfaces@.len() ==> (k < old(world).surfaces@.len()
                && #[trigger] final (world).surfaces@[k] == old(world).surfaces@[k])
                || polygon_pair(
                old(world).verts@.len() as int,
                num_verts as int,
                surface_pair(final (world).surfaces@[k]),
            ),
        forall|j: int|
            0 <= j < num_verts - 1 ==> #[trigger] contains_pair(
                final (world).surfaces@,
                old(world).verts@.len() + j,
                old(world).verts@.len() + j + 1,
            ),
        num_verts >= 2 ==> contains_pair(
            final (world).surfaces@,
            old(world).verts@.len() as int,
            old(world).verts@.len() + num_verts - 1,
        ),
        forall|j: int|
            0 <= j < num_verts ==> #[trigger] contains_pair(
                final (world).surfaces@,
                old(world).verts@.len() + j,
                old(world).verts@.len() + num_verts,
            ),
{
    let base = world.verts.len();
    let mut i: usize = 0;
    while i < num_verts
        invariant
            world_wf(*old(world)),
            world_wf(*world),
            base == old(world).verts@.len(),
            i <= num_verts,
            1 <= num_verts <= 0x80000000,
            0 <= radius,
            -FX_LIMIT <= center.x - radius,
            center.x + radius <= FX_LIMIT,
            -FX_LIMIT <= center.y - radius,
            center.y + radius <= FX_LIMIT,
            base + num_verts + 1 <= usize::MAX,
            world.verts@.len() == base + i,
            world.surfaces@ == old(world).surfaces@,
            forall|j: int| 0 <= j < base ==> world.verts@[j] == old(world).verts@[j],
            forall|j: int|
                0 <= j < i ==> within_radius(
                    (#[trigger] world.verts@[base + j]).position,
                    center,
                    radius as int,
                ),
            forall|j: int|
                0 <= j < i ==> {
                    let v = #[trigger] world.verts@[base + j];
                    v.mass == DEFAULT_MASS && v.velocity == v_zero() && v.acceleration == v_zero()
                        && !v.is_static
                },
        decreases num_verts - i,
    {
        let offset = circle_offset(i, num_verts, radius);
        let position = Vec2 { x: center.x + offset.0, y: center.y + offset.1 };
        world.add_vertex(Vertex::new(position));
        i += 1;
    }
    world.add_vertex(Vertex::new(center));
    let ghost built = world.verts@;
    let center_index = base + num_verts;
    let mut j: usize = 0;
    while j < num_verts
        invariant
            world_wf(*world),
            base == old(world).verts@.len(),
            j <= num_verts,
            1 <= num_verts <= 0x80000000,
            base + num_verts + 1 <= usize::MAX,
            center_index == base + num_verts,
            world.verts@ == built,
            built.len() == base + num_verts + 1,
            forall|j2: int|
                0 <= j2 < j && j2 < num_verts - 1 ==> #[trigger] contains_pair(
                    world.surfaces@,
                    base + j2,
                    base + j2 + 1,
                ),
            num_verts >= 2 && j > num_verts - 1 ==> contains_pair(
                world.surfaces@,
                base as int,
                base + num_verts - 1,
            ),
            forall|j2: int|
                0 <= j2 < j ==> #[trigger] contains_pair(
                    world.surfaces@,
                    base + j2,
                    base + num_verts,
                ),
            forall|k: int|
                0 <= k < world.surfaces@.len() ==> (k < old(world).surfaces@.len()
                    && #[trigger] world.surfaces@[k] == old(world).surfaces@[k]) || polygon_pair(
                    base as int,
                    num_verts as int,
                    surface_pair(world.surfaces@[k]),
                ),
        decreases num_verts - j,
    {
        let next: usize = if j == num_verts - 1 {
            base
        } else {
            base + j + 1
        };
        let ghost s0 = world.surfaces@;
        let _ = world.create_surface(base + j, next);
        let ghost s1 = world.surfaces@;
        proof {
            if base + j != next {
                assert(s1 == create_surface_s(s0, built, base + j as int, next as int));
                lemma_create_adds_pair(s0, built, base + j as int, next as int);
            }
            assert forall|j2: int|
                0 <= j2 < j && j2 < num_verts - 1 implies #[trigger] contains_pair(
                s1,
                base + j2,
                base + j2 + 1,
            ) by {
                if base + j != next {
                    lemma_create_keeps_pair(
                        s0,
                        built,
                        base + j as int,
                        next as int,
                        base + j2,
                        base + j2 + 1,
                    );
                }
            }
            assert forall|j2: int| 0 <= j2 < j implies #[trigger] contains_pair(
                s1,
                base + j2,
                base + num_verts,
            ) by {
                if base + j != next {
                    lemma_create_keeps_pair(
                        s0,
                        built,
                        base + j as int,
                        next as int,
                        base + j2,
                        base + num_verts,
                    );
                }
            }
            if num_verts >= 2 && j > num_verts - 1 && base + j != next {
                lemma_create_keeps_pair(
                    s0,
                    built,
                    base + j as int,
                    next as int,
                    base as int,
                    base + num_verts - 1,
                );
            }
        }
        let _ = world.create_surface(base + j, center_index);
        proof {
            assert(world.surfaces@ == create_surface_s(
                s1,
                built,
                base + j as int,
                center_index as int,
            ));
            lemma_create_adds_pair(s1, built, base + j as int, center_index as int);
            assert forall|j2: int|
                0 <= j2 < j + 1 && j2 < num_verts - 1 implies #[trigger] contains_pair(
                world.surfaces@,
                base + j2,
                base + j2 + 1,
            ) by {
                lemma_create_keeps_pair(
                    s1,
                    built,
                    base + j as int,
                    center_index as int,
                    base + j2,
                    base + j2 + 1,
                );
            }
            assert forall|j2: int| 0 <= j2 < j + 1 implies #[trigger] contains_pair(
                world.surfaces@,
                base + j2,
                base + num_verts,
            ) by {
                if j2 < j {
                    lemma_create_keeps_pair(
                        s1,
                        built,
                        base + j as int,
                        center_index as int,
                        base + j2,
                        base + num_verts,
                    );
                }
            }
            if num_verts >= 2 && j + 1 > num_verts - 1 {
                lemma_create_keeps_pair(
                    s1,
                    built,
                    base + j as int,
                    center_index as int,
                    base as int,
                    base + num_verts - 1,
                );
            }
        }
        j += 1;
    }
}

/// The truncated rescalings of a point on the scaled circle stay within
/// the radius.
proof fn lemma_offset_in_circle(radius: int, c: int, s: int, dx: int, dy: int)
    requires
        0 <= radius,
        c * c + s * s <= FX_SCALE * FX_SCALE,
        -1000 <= c <= 1000,
        -1000 <= s <= 1000,
        dx == div_trunc(radius * c, FX_SCALE as int),
        dy == div_trunc(radius * s, FX_SCALE as int),
    ensures
        -radius <= dx <= radius,
        -radius <= dy <= radius,
        dx * dx + dy * dy <= radius * radius,
{
    lemma_trunc_scale(radius, c, dx);
    lemma_trunc_scale(radius, s, dy);
    assert(dx * dx + dy * dy <= radius * radius) by (nonlinear_arith)
        requires
            dx * dx * (FX_SCALE * FX_SCALE) <= (radius * radius) * (c * c),
            dy * dy * (FX_SCALE * FX_SCALE) <= (radius * radius) * (s * s),
            c * c + s * s <= FX_SCALE * FX_SCALE,
            0 <= radius,
            FX_SCALE == 1000,
    ;
}

/// One truncated rescaling: `|div_trunc(radius * c, FX_SCALE)|` is at most
/// `radius * |c| / FX_SCALE`, so its square against the scale is bounded.
proof fn lemma_trunc_scale(radius: int, c: int, d: int)
    requires
        0 <= radius,
        -1000 <= c <= 1000,
        d == div_trunc(radius * c, FX_SCALE as int),
    ensures
        -radius <= d <= radius,
        d * d * (FX_SCALE * FX_SCALE) <= (radius * radius) * (c * c),
{
    let p = radius * c;
    let m = if c >= 0 {
        c
    } else {
        -c
    };
    assert(0 <= m <= 1000);
    assert(radius * m >= 0 && (p == radius * m || p == -(radius * m)) && m * m == c * c)
        by (nonlinear_arith)
        requires
            p == radius * c,
            0 <= radius,
            m == if c >= 0 {
                c
            } else {
                -c
            },
    ;
    let q = (radius * m) / (FX_SCALE as int);
    assert(d == q || d == -q);
    lemma_div_le(radius * m, FX_SCALE as int, radius * m);
    assert(q * FX_SCALE <= radius * m) by {
        vstd::arithmetic::div_mod::lemma_fundamental_div_mod(radius * m, FX_SCALE as int);
        vstd::arithmetic::div_mod::lemma_mod_bound(radius * m, FX_SCALE as int);
        assert(q * FX_SCALE <= radius * m) by (nonlinear_arith)
            requires
                radius * m == FX_SCALE * q + (radius * m) % (FX_SCALE as int),
                0 <= (radius * m) % (FX_SCALE as int),
                FX_SCALE == 1000,
        ;
    };
    assert(0 <= q);
    assert(q <= radius) by (nonlinear_arith)
        requires
            q * FX_SCALE <= radius * m,
            0 <= q,
            0 <= m <= 1000,
            0 <= radius,
            FX_SCALE == 1000,
    ;
    assert(d * d * (FX_SCALE * FX_SCALE) <= (radius * radius) * (c * c)) by (nonlinear_arith)
        requires
            q * FX_SCALE <= radius * m,
            0 <= q,
            0 <= m,
            d == q || d == -q,
            m * m == c * c,
            FX_SCALE == 1000,
    ;
}

} // verus!
