//! The vertex stage and the per-planet procedural fragment shaders.
//!
//! Every shader is a pure function from a rasterized fragment and the
//! per-frame uniforms to a color, with an exact contract: identical
//! inputs give identical output, bit for bit.

use vstd::prelude::*;
use crate::fx::{
    fx_abs, tdiv, fx_mul_spec, fx_div_spec, fx_min_spec, fx_max_spec, fx_mul, fx_div, fx_min,
    fx_max, fx_abs_exec, lemma_fx_mul_bound, lemma_fx_mul_unit, FX_ONE,
};
use crate::sqrt::{fx_sqrt, fx_sqrt_spec, lemma_sqrt_floor_bounds};
use crate::trig::{fx_sin, fx_cos, fx_sin_spec, fx_cos_spec};
use crate::vec3::{Vec3, Vec2, v3, t3_bounded, t3_sub, t3_dot, t3_normalize, lemma_square_nonneg};
use crate::color::{Color, c3, ch_bounded, color_lerp_spec};
use crate::transforms::{Mat4, m4, m4_bounded, rc_spec, rc};

verus! {

/// The per-frame immutable bundle handed to both shading stages.
pub struct Uniforms {
    pub model_matrix: Mat4,
    pub view_matrix: Mat4,
    pub projection_matrix: Mat4,
    pub viewport_matrix: Mat4,
    pub time: u32,
    pub sun_position: Vec3,
}

/// Well-formedness of the uniforms: matrix entries and the sun position
/// within the machine bounds.
pub open spec fn uniforms_ok(u: Uniforms) -> bool {
    &&& m4_bounded(m4(u.model_matrix), 0x2000000000)
    &&& m4_bounded(m4(u.view_matrix), 0x2000000000)
    &&& m4_bounded(m4(u.projection_matrix), 0x2000000000)
    &&& m4_bounded(m4(u.viewport_matrix), 0x2000000000)
    &&& t3_bounded(v3(u.sun_position), 0x1000000)
}

/// A mesh vertex with its transformed slots.
#[derive(Clone, Copy, Debug, PartialEq, Eq, Structural)]
pub struct Vertex {
    pub position: Vec3,
    pub normal: Vec3,
    pub tex_coords: Vec2,
    pub color: Color,
    pub transformed_position: Vec3,
    pub transformed_normal: Vec3,
}

/// A rasterized sample between three vertices.
#[derive(Clone, Copy, Debug, PartialEq, Eq, Structural)]
pub struct Fragment {
    pub position: Vec2,
    pub depth: i64,
    pub vertex_position: Vec3,
    pub normal: Vec3,
    pub intensity: i64,
}

/// Well-formedness of a fragment for the shader family: the interpolated
/// surface position and normal within scene bounds, the light intensity a
/// small scalar.
pub open spec fn frag_ok(f: Fragment) -> bool {
    &&& t3_bounded(v3(f.vertex_position), 0x1000000)
    &&& t3_bounded(v3(f.normal), 0x1000000)
    &&& fx_abs(f.intensity as int) <= 0x100000
}

/// A matrix applied to a homogeneous 4-vector.
pub open spec fn mv4_spec(m: Seq<int>, v: (int, int, int, int)) -> (int, int, int, int) {
    (
        rc_spec(m[0], m[1], m[2], m[3], v.0, v.1, v.2, v.3),
        rc_spec(m[4], m[5], m[6], m[7], v.0, v.1, v.2, v.3),
        rc_spec(m[8], m[9], m[10], m[11], v.0, v.1, v.2, v.3),
        rc_spec(m[12], m[13], m[14], m[15], v.0, v.1, v.2, v.3),
    )
}

/// All four components within `lim`.
pub open spec fn v4_ok(v: (int, int, int, int), lim: int) -> bool {
    fx_abs(v.0) <= lim && fx_abs(v.1) <= lim && fx_abs(v.2) <= lim && fx_abs(v.3) <= lim
}

/// The screen-space position of a vertex: model, view and projection
/// applied in turn, the perspective division by the homogeneous
/// coordinate, then the viewport transform. A stage whose output leaves
/// the machine range, or a homogeneous coordinate too close to zero,
/// yields the origin instead (the original pipeline leaves these inputs
/// numerically undefined).
pub open spec fn vertex_screen_spec(
    pos: (int, int, int),
    model: Seq<int>,
    view: Seq<int>,
    proj: Seq<int>,
    vp: Seq<int>,
) -> (int, int, int) {
    let p1 = mv4_spec(model, (pos.0, pos.1, pos.2, 65536));
    if !v4_ok(p1, 0x2000000000) {
        (0, 0, 0)
    } else {
        let p2 = mv4_spec(view, p1);
        if !v4_ok(p2, 0x2000000000) {
            (0, 0, 0)
        } else {
            let c = mv4_spec(proj, p2);
            if !v4_ok(c, 0x2000000000) || fx_abs(c.3) < 16 {
                (0, 0, 0)
            } else {
                let ndc = (
                    fx_div_spec(c.0, c.3),
                    fx_div_spec(c.1, c.3),
                    fx_div_spec(c.2, c.3),
                    65536int,
                );
                if !v4_ok(ndc, 0x100000000) {
                    (0, 0, 0)
                } else {
                    let s = mv4_spec(vp, ndc);
                    (s.0, s.1, s.2)
                }
            }
        }
    }
}

/// A matrix applied to a homogeneous 4-vector.
fn mv4(m: &Mat4, v: (i64, i64, i64, i64)) -> (r: (i64, i64, i64, i64))
    requires
        m4_bounded(m4(*m), 0x2000000000),
        v4_ok((v.0 as int, v.1 as int, v.2 as int, v.3 as int), 0x2000000000),
    ensures
        (r.0 as int, r.1 as int, r.2 as int, r.3 as int) == mv4_spec(
            m4(*m),
            (v.0 as int, v.1 as int, v.2 as int, v.3 as int),
        ),
{
    (
        rc(m.m00, m.m01, m.m02, m.m03, v.0, v.1, v.2, v.3),
        rc(m.m10, m.m11, m.m12, m.m13, v.0, v.1, v.2, v.3),
        rc(m.m20, m.m21, m.m22, m.m23, v.0, v.1, v.2, v.3),
        rc(m.m30, m.m31, m.m32, m.m33, v.0, v.1, v.2, v.3),
    )
}

/// Whether all four components lie within `lim`.
fn v4_within(v: (i64, i64, i64, i64), lim: i64) -> (r: bool)
    requires
        lim >= 0,
    ensures
        r == v4_ok((v.0 as int, v.1 as int, v.2 as int, v.3 as int), lim as int),
{
    -lim <= v.0 && v.0 <= lim && -lim <= v.1 && v.1 <= lim && -lim <= v.2 && v.2 <= lim && -lim
        <= v.3 && v.3 <= lim
}

/// The vertex stage: carries the vertex through the transform chain into
/// screen space. The emitted normal is the vertex's own untransformed
/// normal, as the renderer has always emitted it.
pub fn vertex_shader(vertex: &Vertex, uniforms: &Uniforms) -> (r: Vertex)
    requires
        uniforms_ok(*uniforms),
        t3_bounded(v3(vertex.position), 0x2000000000),
    ensures
        r.position == vertex.position,
        r.normal == vertex.normal,
        r.tex_coords == vertex.tex_coords,
        r.color == vertex.color,
        r.transformed_normal == vertex.normal,
        v3(r.transformed_position) == vertex_screen_spec(
            v3(vertex.position),
            m4(uniforms.model_matrix),
            m4(uniforms.view_matrix),
            m4(uniforms.projection_matrix),
            m4(uniforms.viewport_matrix),
        ),
{
    let p0: (i64, i64, i64, i64) = (vertex.position.x, vertex.position.y, vertex.position.z, FX_ONE);
    let p1: (i64, i64, i64, i64) = mv4(&uniforms.model_matrix, p0);
    let screen: Vec3 = if !v4_within(p1, 0x2000000000) {
        Vec3 { x: 0, y: 0, z: 0 }
    } else {
        let p2: (i64, i64, i64, i64) = mv4(&uniforms.view_matrix, p1);
        if !v4_within(p2, 0x2000000000) {
            Vec3 { x: 0, y: 0, z: 0 }
        } else {
            let c: (i64, i64, i64, i64) = mv4(&uniforms.projection_matrix, p2);
            if !v4_within(c, 0x2000000000) || (-16 < c.3 && c.3 < 16) {
                Vec3 { x: 0, y: 0, z: 0 }
            } else {
                let ndc: (i64, i64, i64, i64) = (
                    fx_div(c.0, c.3),
                    fx_div(c.1, c.3),
                    fx_div(c.2, c.3),
                    FX_ONE,
                );
                if !v4_within(ndc, 0x100000000) {
                    Vec3 { x: 0, y: 0, z: 0 }
                } else {
                    let s: (i64, i64, i64, i64) = mv4(&uniforms.viewport_matrix, ndc);
                    Vec3 { x: s.0, y: s.1, z: s.2 }
                }
            }
        }
    };
    Vertex {
        position: vertex.position,
        normal: vertex.normal,
        tex_coords: vertex.tex_coords,
        color: vertex.color,
        transformed_position: screen,
        transformed_normal: vertex.normal,
    }
}

/// The radial distance of a fragment from the local origin in the x-y
/// plane.
pub open spec fn radial_dist_spec(p: (int, int, int)) -> int {
    fx_sqrt_spec(fx_mul_spec(p.0, p.0) + fx_mul_spec(p.1, p.1))
}

fn radial_dist(p: &Vec3) -> (r: i64)
    requires
        t3_bounded(v3(*p), 0x1000000),
    ensures
        r == radial_dist_spec(v3(*p)),
        0 <= r <= 0x1800000,
{
    proof {
        lemma_fx_mul_bound(p.x as int, p.x as int, 0x1000000, 0x1000000);
        lemma_fx_mul_bound(p.y as int, p.y as int, 0x1000000, 0x1000000);
        lemma_square_nonneg(p.x as int);
        lemma_square_nonneg(p.y as int);
        crate::sqrt::lemma_sqrt_floor_upper(
            (fx_mul_spec(p.x as int, p.x as int) + fx_mul_spec(p.y as int, p.y as int)) * 65536,
            0x1800000,
        );
    }
    fx_sqrt(fx_mul(p.x, p.x) + fx_mul(p.y, p.y))
}

/// The sun: a white-to-yellow radial gradient out to radius 0.8, clamped
/// to yellow beyond. The only shader that ignores the light intensity.
pub open spec fn shader_sun_spec(f: Fragment) -> (int, int, int) {
    let dist = radial_dist_spec(v3(f.vertex_position));
    let t = fx_div_spec(dist, 52429);
    if t < 65536 {
        color_lerp_spec((16711680, 16711680, 16711680), (16711680, 16711680, 0), t)
    } else {
        (16711680int, 16711680int, 0int)
    }
}

pub fn fragment_shader_sun(fragment: &Fragment, uniforms: &Uniforms) -> (c: Color)
    requires
        frag_ok(*fragment),
    ensures
        c3(c) == shader_sun_spec(*fragment),
{
    let white: Color = Color { r: 16711680, g: 16711680, b: 16711680 };
    let yellow: Color = Color { r: 16711680, g: 16711680, b: 0 };
    let dist: i64 = radial_dist(&fragment.vertex_position);
    let t: i64 = fx_div(dist, 52429);
    if t < FX_ONE {
        white.lerp(&yellow, t)
    } else {
        yellow
    }
}

/// Jupiter: a three-tier radial gradient, scaled by the light intensity.
pub open spec fn shader_jupiter_spec(f: Fragment) -> (int, int, int) {
    let dist = radial_dist_spec(v3(f.vertex_position));
    let blended = if dist < 32768 {
        color_lerp_spec((16711680, 11665408, 6684672), (16711680, 16711680, 16711680), fx_mul_spec(dist, 131072))
    } else {
        color_lerp_spec(
            (16711680, 16711680, 16711680),
            (11665408, 8192000, 6684672),
            fx_mul_spec(dist - 32768, 131072),
        )
    };
    (
        fx_mul_spec(blended.0, f.intensity as int),
        fx_mul_spec(blended.1, f.intensity as int),
        fx_mul_spec(blended.2, f.intensity as int),
    )
}

pub fn fragment_shader_jupiter(fragment: &Fragment, uniforms: &Uniforms) -> (c: Color)
    requires
        frag_ok(*fragment),
    ensures
        c3(c) == shader_jupiter_spec(*fragment),
{
    let inner: Color = Color { r: 16711680, g: 11665408, b: 6684672 };
    let mid: Color = Color { r: 16711680, g: 16711680, b: 16711680 };
    let outer: Color = Color { r: 11665408, g: 8192000, b: 6684672 };
    let dist: i64 = radial_dist(&fragment.vertex_position);
    proof {
        lemma_fx_mul_bound(dist as int, 131072, 0x1800000, 131072);
        lemma_fx_mul_bound(dist as int - 32768, 131072, 0x1800000, 131072);
    }
    let blended: Color = if dist < 32768 {
        inner.lerp(&mid, fx_mul(dist, 131072))
    } else {
        mid.lerp(&outer, fx_mul(dist - 32768, 131072))
    };
    blended.mul(fragment.intensity)
}

/// Neptune: a two-tone radial gradient, the distance capped at one,
/// scaled by the light intensity.
pub open spec fn shader_neptune_spec(f: Fragment) -> (int, int, int) {
    let dist = radial_dist_spec(v3(f.vertex_position));
    let blended = color_lerp_spec(
        (4587520, 8519680, 11796480),
        (11337728, 14155776, 15073280),
        fx_min_spec(dist, 65536),
    );
    (
        fx_mul_spec(blended.0, f.intensity as int),
        fx_mul_spec(blended.1, f.intensity as int),
        fx_mul_spec(blended.2, f.intensity as int),
    )
}

pub fn fragment_shader_neptune(fragment: &Fragment, uniforms: &Uniforms) -> (c: Color)
    requires
        frag_ok(*fragment),
    ensures
        c3(c) == shader_neptune_spec(*fragment),
{
    let inner: Color = Color { r: 4587520, g: 8519680, b: 11796480 };
    let outer: Color = Color { r: 11337728, g: 14155776, b: 15073280 };
    let dist: i64 = radial_dist(&fragment.vertex_position);
    let blended: Color = inner.lerp(&outer, fx_min(dist, FX_ONE));
    blended.mul(fragment.intensity)
}

/// Mars: a solid rust base additively perturbed by a sinusoid of the
/// local x and z, scaled by the light intensity.
pub open spec fn shader_mars_spec(f: Fragment) -> (int, int, int) {
    let p = v3(f.vertex_position);
    let noise = fx_mul_spec(fx_sin_spec(fx_mul_spec(p.0, 655360) + fx_mul_spec(p.2, 655360)), 32768)
        + 32768;
    let vr = 13762560 + fx_mul_spec(1310720, noise);
    let vg = 5242880 + fx_mul_spec(1310720, noise);
    let vb = 0 + fx_mul_spec(1310720, noise);
    (
        fx_mul_spec(vr, f.intensity as int),
        fx_mul_spec(vg, f.intensity as int),
        fx_mul_spec(vb, f.intensity as int),
    )
}

pub fn fragment_shader_mars(fragment: &Fragment, uniforms: &Uniforms) -> (c: Color)
    requires
        frag_ok(*fragment),
    ensures
        c3(c) == shader_mars_spec(*fragment),
{
    let p: Vec3 = fragment.vertex_position;
    proof {
        lemma_fx_mul_bound(p.x as int, 655360, 0x1000000, 655360);
        lemma_fx_mul_bound(p.z as int, 655360, 0x1000000, 655360);
    }
    let s: i64 = fx_sin(fx_mul(p.x, 655360) + fx_mul(p.z, 655360));
    proof {
        lemma_fx_mul_bound(s as int, 32768, 65536, 32768);
    }
    let noise: i64 = fx_mul(s, 32768) + 32768;
    proof {
        lemma_fx_mul_bound(1310720, noise as int, 1310720, 65536);
    }
    let variation: Color = Color { r: 1310720, g: 1310720, b: 1310720 }.mul(noise);
    let mars_color: Color = Color { r: 13762560, g: 5242880, b: 0 };
    let final_color: Color = mars_color.add(&variation);
    final_color.mul(fragment.intensity)
}

/// Venus: a pale base blended 60/40 with one of three brown shades picked
/// by thresholding a sinusoidal stripe factor, scaled by the light
/// intensity.
pub open spec fn shader_venus_spec(f: Fragment) -> (int, int, int) {
    let p = v3(f.vertex_position);
    let stripe = fx_sin_spec(fx_mul_spec(p.1, 196608) + fx_mul_spec(p.2, 196608));
    let adjusted = fx_mul_spec(fx_abs(stripe), 32768) + 32768;
    let sc: (int, int, int) = if adjusted > 62259 {
        (9830400, 6553600, 3276800)
    } else if adjusted > 51118 {
        (13107200, 10485760, 6553600)
    } else {
        (11796480, 9175040, 5242880)
    };
    let base: (int, int, int) = (16711680, 14614528, 10485760);
    let fr = fx_mul_spec(base.0, 39322) + fx_mul_spec(sc.0, 26214);
    let fg = fx_mul_spec(base.1, 39322) + fx_mul_spec(sc.1, 26214);
    let fb = fx_mul_spec(base.2, 39322) + fx_mul_spec(sc.2, 26214);
    (
        fx_mul_spec(fr, f.intensity as int),
        fx_mul_spec(fg, f.intensity as int),
        fx_mul_spec(fb, f.intensity as int),
    )
}

pub fn fragment_shader_venus(fragment: &Fragment, uniforms: &Uniforms) -> (c: Color)
    requires
        frag_ok(*fragment),
    ensures
        c3(c) == shader_venus_spec(*fragment),
{
    let p: Vec3 = fragment.vertex_position;
    proof {
        lemma_fx_mul_bound(p.y as int, 196608, 0x1000000, 196608);
        lemma_fx_mul_bound(p.z as int, 196608, 0x1000000, 196608);
    }
    let stripe: i64 = fx_sin(fx_mul(p.y, 196608) + fx_mul(p.z, 196608));
    proof {
        lemma_fx_mul_bound(fx_abs(stripe as int), 32768, 65536, 32768);
    }
    let adjusted: i64 = fx_mul(fx_abs_exec(stripe), 32768) + 32768;
    let stripe_color: Color = if adjusted > 62259 {
        Color { r: 9830400, g: 6553600, b: 3276800 }
    } else if adjusted > 51118 {
        Color { r: 13107200, g: 10485760, b: 6553600 }
    } else {
        Color { r: 11796480, g: 9175040, b: 5242880 }
    };
    let base: Color = Color { r: 16711680, g: 14614528, b: 10485760 };
    let final_color: Color = base.mul(39322).add(&stripe_color.mul(26214));
    final_color.mul(fragment.intensity)
}

/// Earth: land or sea picked by thresholding a sinusoidal noise proxy,
/// overlaid with white clouds driven by a second, time-shifted proxy,
/// scaled by the light intensity.
pub open spec fn shader_earth_spec(f: Fragment, time: int) -> (int, int, int) {
    let p = v3(f.vertex_position);
    let noise = fx_abs(
        fx_sin_spec(fx_mul_spec(p.0, 327680)) + fx_cos_spec(fx_mul_spec(p.1, 327680)),
    );
    let base: (int, int, int) = if noise > 32768 {
        (2228224, 9109504, 2228224)
    } else {
        (0, 6881280, 9699328)
    };
    let phase = time * 6554;
    let cloud = fx_abs(
        fx_mul_spec(
            fx_sin_spec(fx_mul_spec(p.0, 655360) + phase),
            fx_cos_spec(fx_mul_spec(p.1, 655360) + phase),
        ),
    );
    let fc: (int, int, int) = if cloud > 45875 {
        (16711680, 16711680, 16711680)
    } else {
        base
    };
    (
        fx_mul_spec(fc.0, f.intensity as int),
        fx_mul_spec(fc.1, f.intensity as int),
        fx_mul_spec(fc.2, f.intensity as int),
    )
}

/// Whether the land/sea noise proxy at a surface point exceeds the land
/// threshold.
fn earth_is_land(p: &Vec3) -> (r: bool)
    requires
        t3_bounded(v3(*p), 0x1000000),
    ensures
        r == (fx_abs(
            fx_sin_spec(fx_mul_spec(p.x as int, 327680)) + fx_cos_spec(
                fx_mul_spec(p.y as int, 327680),
            ),
        ) > 32768),
{
    proof {
        lemma_fx_mul_bound(p.x as int, 327680, 0x1000000, 327680);
        lemma_fx_mul_bound(p.y as int, 327680, 0x1000000, 327680);
    }
    let noise: i64 = fx_abs_exec(fx_sin(fx_mul(p.x, 327680)) + fx_cos(fx_mul(p.y, 327680)));
    noise > 32768
}

/// Whether the time-shifted cloud proxy at a surface point exceeds the
/// cloud threshold.
fn earth_is_cloud(p: &Vec3, phase: i64) -> (r: bool)
    requires
        t3_bounded(v3(*p), 0x1000000),
        fx_abs(phase as int) <= 0x200000000000,
    ensures
        r == (fx_abs(
            fx_mul_spec(
                fx_sin_spec(fx_mul_spec(p.x as int, 655360) + phase),
                fx_cos_spec(fx_mul_spec(p.y as int, 655360) + phase),
            ),
        ) > 45875),
{
    proof {
        lemma_fx_mul_bound(p.x as int, 655360, 0x1000000, 655360);
        lemma_fx_mul_bound(p.y as int, 655360, 0x1000000, 655360);
    }
    let sv: i64 = fx_sin(fx_mul(p.x, 655360) + phase);
    let cv: i64 = fx_cos(fx_mul(p.y, 655360) + phase);
    proof {
        lemma_fx_mul_bound(sv as int, cv as int, 65536, 65536);
    }
    let cloud: i64 = fx_abs_exec(fx_mul(sv, cv));
    cloud > 45875
}

#[verifier::rlimit(100)]
#[verifier::spinoff_prover]
pub fn fragment_shader_earth(fragment: &Fragment, uniforms: &Uniforms) -> (c: Color)
    requires
        frag_ok(*fragment),
    ensures
        c3(c) == shader_earth_spec(*fragment, uniforms.time as int),
{
    let p: Vec3 = fragment.vertex_position;
    let base: Color = if earth_is_land(&p) {
        Color { r: 2228224, g: 9109504, b: 2228224 }
    } else {
        Color { r: 0, g: 6881280, b: 9699328 }
    };
    let phase: i64 = (uniforms.time as i64) * 6554;
    let final_color: Color = if earth_is_cloud(&p, phase) {
        Color { r: 16711680, g: 16711680, b: 16711680 }
    } else {
        base
    };
    final_color.mul(fragment.intensity)
}

/// Mercury: a crater pattern from two sinusoids and a positional
/// pseudo-random term, thresholded to pick crater gray over base gray,
/// scaled by the light intensity.
pub open spec fn shader_mercury_spec(f: Fragment) -> (int, int, int) {
    let p = v3(f.vertex_position);
    let noise1 = fx_sin_spec(fx_mul_spec(p.0, 65536));
    let noise2 = fx_cos_spec(fx_mul_spec(p.1, 65536));
    let rf = fx_mul_spec(
        fx_sin_spec(fx_mul_spec(p.0, 655360)),
        fx_cos_spec(fx_mul_spec(p.1, 655360)),
    );
    let pattern = fx_abs(noise1 + noise2 + rf);
    let fc: (int, int, int) = if pattern > 39321 {
        (13107200, 13107200, 13107200)
    } else {
        (11075584, 11075584, 11075584)
    };
    (
        fx_mul_spec(fc.0, f.intensity as int),
        fx_mul_spec(fc.1, f.intensity as int),
        fx_mul_spec(fc.2, f.intensity as int),
    )
}

pub fn fragment_shader_mercury(fragment: &Fragment, uniforms: &Uniforms) -> (c: Color)
    requires
        frag_ok(*fragment),
    ensures
        c3(c) == shader_mercury_spec(*fragment),
{
    let p: Vec3 = fragment.vertex_position;
    proof {
        lemma_fx_mul_bound(p.x as int, 65536, 0x1000000, 65536);
        lemma_fx_mul_bound(p.y as int, 65536, 0x1000000, 65536);
        lemma_fx_mul_bound(p.x as int, 655360, 0x1000000, 655360);
        lemma_fx_mul_bound(p.y as int, 655360, 0x1000000, 655360);
    }
    let noise1: i64 = fx_sin(fx_mul(p.x, FX_ONE));
    let noise2: i64 = fx_cos(fx_mul(p.y, FX_ONE));
    let rf: i64 = fx_mul(fx_sin(fx_mul(p.x, 655360)), fx_cos(fx_mul(p.y, 655360)));
    proof {
        lemma_fx_mul_bound(
            fx_sin_spec(fx_mul_spec(p.x as int, 655360)),
            fx_cos_spec(fx_mul_spec(p.y as int, 655360)),
            65536,
            65536,
        );
    }
    let pattern: i64 = fx_abs_exec(noise1 + noise2 + rf);
    let final_color: Color = if pattern > 39321 {
        Color { r: 13107200, g: 13107200, b: 13107200 }
    } else {
        Color { r: 11075584, g: 11075584, b: 11075584 }
    };
    final_color.mul(fragment.intensity)
}

/// The Lambertian term of a fragment against the sun: the dot product of
/// the normalized surface normal and the normalized direction to the sun,
/// floored at zero.
pub open spec fn lighting_spec(f: Fragment, sun: (int, int, int)) -> int {
    fx_max_spec(
        t3_dot(
            t3_normalize(v3(f.normal)),
            t3_normalize(t3_sub(sun, v3(f.vertex_position))),
        ),
        0,
    )
}

pub fn compute_lighting(fragment: &Fragment, sun_position: Vec3) -> (r: i64)
    requires
        frag_ok(*fragment),
        t3_bounded(v3(sun_position), 0x1000000),
    ensures
        r == lighting_spec(*fragment, v3(sun_position)),
{
    let surface_normal: Vec3 = fragment.normal.normalize();
    let sun_direction: Vec3 = sun_position.sub(&fragment.vertex_position).normalize();
    fx_max(surface_normal.dot(&sun_direction), 0)
}

/// The color a fragment shades to under the given selector: one closed
/// dispatch over the shader family, every unknown tag falling through to
/// the Neptune shader.
pub open spec fn shade_fragment_spec(shader_type: u8, f: Fragment, time: int) -> (int, int, int) {
    if shader_type == 1 {
        shader_jupiter_spec(f)
    } else if shader_type == 4 {
        shader_venus_spec(f)
    } else if shader_type == 5 {
        shader_mars_spec(f)
    } else if shader_type == 6 {
        shader_earth_spec(f, time)
    } else if shader_type == 7 {
        shader_mercury_spec(f)
    } else if shader_type == 8 {
        shader_sun_spec(f)
    } else {
        shader_neptune_spec(f)
    }
}

/// Dispatch one fragment to the shader its selector names.
pub fn shade_fragment(shader_type: u8, fragment: &Fragment, uniforms: &Uniforms) -> (c: Color)
    requires
        frag_ok(*fragment),
    ensures
        c3(c) == shade_fragment_spec(shader_type, *fragment, uniforms.time as int),
{
    match shader_type {
        1 => fragment_shader_jupiter(fragment, uniforms),
        4 => fragment_shader_venus(fragment, uniforms),
        5 => fragment_shader_mars(fragment, uniforms),
        6 => fragment_shader_earth(fragment, uniforms),
        7 => fragment_shader_mercury(fragment, uniforms),
        8 => fragment_shader_sun(fragment, uniforms),
        _ => fragment_shader_neptune(fragment, uniforms),
    }
}

/// A fragment exactly at the body's local origin shades, under the sun
/// shader, to pure white; one at radial distance 0.8 or more, to pure
/// yellow.
pub proof fn lemma_sun_shader_extremes(f: Fragment)
    ensures
        (f.vertex_position.x == 0 && f.vertex_position.y == 0) ==> shader_sun_spec(f) == (
            16711680int,
            16711680int,
            16711680int,
        ),
        radial_dist_spec(v3(f.vertex_position)) >= 52429 ==> shader_sun_spec(f) == (
            16711680int,
            16711680int,
            0int,
        ),
{
    let dist = radial_dist_spec(v3(f.vertex_position));
    if f.vertex_position.x == 0 && f.vertex_position.y == 0 {
        lemma_fx_mul_unit(0);
        assert(fx_mul_spec(0, 0) == 0);
        assert(sqrt_zero() == 0) by {
            assert(crate::sqrt::sqrt_floor(0) == 0);
        };
        assert(dist == 0);
        vstd::arithmetic::div_mod::lemma_div_of0(52429);
        assert(fx_div_spec(0, 52429) == 0);
        crate::color::lemma_color_lerp_endpoints(
            (16711680, 16711680, 16711680),
            (16711680, 16711680, 0),
            0,
        );
    }
    if dist >= 52429 {
        crate::fx::lemma_fx_div_ge_one(dist, 52429);
    }
}

/// The square root of zero, named so the zero case above reads plainly.
pub open spec fn sqrt_zero() -> int {
    crate::sqrt::sqrt_floor(0)
}

} // verus!
