//! A celestial body: a named orbiting object with fixed vertex geometry,
//! a shader selector, and orbital parameters, together with the per-frame
//! pipeline steps that carry its mesh to shaded pixels.

use vstd::prelude::*;
use crate::fx::{fx_abs, tdiv, fx_mul_spec, fx_max_spec, fx_mul, fx_max, tdiv_exec, lemma_fx_mul_bound};
use crate::trig::{fx_sin, fx_cos, fx_sin_spec, fx_cos_spec};
use crate::vec3::{Vec3, v3, t3_bounded};
use crate::transforms::{Mat4, m4, model_matrix_spec, create_model_matrix};
use crate::shaders::{
    Vertex, Fragment, Uniforms, uniforms_ok, frag_ok, vertex_shader, vertex_screen_spec,
    shade_fragment, shade_fragment_spec,
};
use crate::color::hex_channel_spec;

verus! {

/// An orbiting body: name, triangle-list geometry, shader selector, and
/// orbital parameters.
pub struct CelestialBody {
    pub name: String,
    pub vertex_array: Vec<Vertex>,
    pub shader_type: u8,
    pub orbit_radius: i64,
    pub rotation_speed: i64,
    pub orbit_speed: i64,
    pub scale: i64,
}

/// Well-formedness of a body's orbital parameters.
pub open spec fn body_ok(b: CelestialBody) -> bool {
    &&& fx_abs(b.orbit_radius as int) <= 0x1000000
    &&& fx_abs(b.rotation_speed as int) <= 0x200000
    &&& fx_abs(b.orbit_speed as int) <= 0x200000
    &&& fx_abs(b.scale as int) <= 0x1000000
}

/// The model matrix of a body at a simulation time: a planar orbit in the
/// x-z plane at the orbit angle, spin about the y axis at the rotation
/// angle.
pub open spec fn body_model_spec(
    orbit_radius: int,
    rotation_speed: int,
    orbit_speed: int,
    scale: int,
    time: int,
) -> Seq<int> {
    let orbit_angle = fx_mul_spec(orbit_speed, time);
    let rotation_angle = fx_mul_spec(rotation_speed, time);
    model_matrix_spec(
        (
            fx_mul_spec(orbit_radius, fx_cos_spec(orbit_angle)),
            0,
            fx_mul_spec(orbit_radius, fx_sin_spec(orbit_angle)),
        ),
        scale,
        (0, rotation_angle, 0),
    )
}

/// The fixed world position a body reports: the orbital point evaluated
/// at the product of the two speeds, not at the live simulation time —
/// the pose the camera's warp targeting has always aimed at.
pub open spec fn world_position_spec(orbit_radius: int, rotation_speed: int, orbit_speed: int) -> (
    int,
    int,
    int,
) {
    let angle = fx_mul_spec(orbit_speed, rotation_speed);
    (
        fx_mul_spec(orbit_radius, fx_cos_spec(angle)),
        0,
        fx_mul_spec(orbit_radius, fx_sin_spec(angle)),
    )
}

impl CelestialBody {
    /// The model matrix at a simulation time.
    pub fn get_model_matrix(&self, time: i64) -> (r: Mat4)
        requires
            body_ok(*self),
            fx_abs(time as int) <= 0x100000000,
        ensures
            m4(r) == body_model_spec(
                self.orbit_radius as int,
                self.rotation_speed as int,
                self.orbit_speed as int,
                self.scale as int,
                time as int,
            ),
    {
        let orbit_angle: i64 = fx_mul(self.orbit_speed, time);
        let rotation_angle: i64 = fx_mul(self.rotation_speed, time);
        proof {
            crate::trig::lemma_sincos_pythagorean(orbit_angle as int);
            lemma_fx_mul_bound(
                self.orbit_radius as int,
                fx_cos_spec(orbit_angle as int),
                0x1000000,
                65536,
            );
            lemma_fx_mul_bound(
                self.orbit_radius as int,
                fx_sin_spec(orbit_angle as int),
                0x1000000,
                65536,
            );
        }
        let translation = Vec3 {
            x: fx_mul(self.orbit_radius, fx_cos(orbit_angle)),
            y: 0,
            z: fx_mul(self.orbit_radius, fx_sin(orbit_angle)),
        };
        let rotation = Vec3 { x: 0, y: rotation_angle, z: 0 };
        create_model_matrix(translation, self.scale, rotation)
    }

    /// The body's reported world position (see `world_position_spec`).
    pub fn get_world_position(&self) -> (r: Vec3)
        requires
            body_ok(*self),
        ensures
            v3(r) == world_position_spec(
                self.orbit_radius as int,
                self.rotation_speed as int,
                self.orbit_speed as int,
            ),
    {
        let angle: i64 = fx_mul(self.orbit_speed, self.rotation_speed);
        Vec3 {
            x: fx_mul(self.orbit_radius, fx_cos(angle)),
            y: 0,
            z: fx_mul(self.orbit_radius, fx_sin(angle)),
        }
    }
}

/// What the vertex stage leaves of one vertex.
pub open spec fn vertex_matches(out: Vertex, inp: Vertex, u: Uniforms) -> bool {
    &&& out.position == inp.position
    &&& out.normal == inp.normal
    &&& out.tex_coords == inp.tex_coords
    &&& out.color == inp.color
    &&& out.transformed_normal == inp.normal
    &&& v3(out.transformed_position) == vertex_screen_spec(
        v3(inp.position),
        m4(u.model_matrix),
        m4(u.view_matrix),
        m4(u.projection_matrix),
        m4(u.viewport_matrix),
    )
}

/// Run every vertex of a mesh through the vertex stage.
pub fn transform_vertices(vertices: &Vec<Vertex>, uniforms: &Uniforms) -> (r: Vec<Vertex>)
    requires
        uniforms_ok(*uniforms),
        forall|i: int|
            0 <= i < vertices@.len() ==> t3_bounded(
                v3((#[trigger] vertices@[i]).position),
                0x2000000000,
            ),
    ensures
        r@.len() == vertices@.len(),
        forall|i: int|
            0 <= i < r@.len() ==> vertex_matches(#[trigger] r@[i], vertices@[i], *uniforms),
{
    let mut out: Vec<Vertex> = Vec::new();
    let mut i: usize = 0;
    while i < vertices.len()
        invariant
            0 <= i <= vertices@.len(),
            out@.len() == i,
            uniforms_ok(*uniforms),
            forall|j: int|
                0 <= j < vertices@.len() ==> t3_bounded(
                    v3((#[trigger] vertices@[j]).position),
                    0x2000000000,
                ),
            forall|j: int|
                0 <= j < i ==> vertex_matches(#[trigger] out@[j], vertices@[j], *uniforms),
        decreases vertices@.len() - i,
    {
        let transformed: Vertex = vertex_shader(&vertices[i], uniforms);
        out.push(transformed);
        i = i + 1;
    }
    out
}

/// Three shaded vertices forming one triangle.
#[derive(Clone, Copy, Debug, PartialEq, Eq, Structural)]
pub struct Triangle {
    pub a: Vertex,
    pub b: Vertex,
    pub c: Vertex,
}

/// Group a vertex list into consecutive non-overlapping triples; one or
/// two trailing leftover vertices are dropped.
pub fn assemble_triangles(vertices: &Vec<Vertex>) -> (r: Vec<Triangle>)
    ensures
        r@.len() == vertices@.len() / 3,
        forall|k: int|
            0 <= k < r@.len() ==> (#[trigger] r@[k]).a == vertices@[3 * k] && r@[k].b
                == vertices@[3 * k + 1] && r@[k].c == vertices@[3 * k + 2],
{
    let n: usize = vertices.len() / 3;
    proof {
        vstd::arithmetic::div_mod::lemma_fundamental_div_mod(vertices@.len() as int, 3);
        vstd::arithmetic::div_mod::lemma_mod_bound(vertices@.len() as int, 3);
    }
    let mut out: Vec<Triangle> = Vec::new();
    let mut k: usize = 0;
    let mut idx: usize = 0;
    while k < n
        invariant
            0 <= k <= n,
            idx == 3 * k,
            n == vertices@.len() / 3,
            vertices@.len() <= usize::MAX,
            3 * n <= vertices@.len(),
            out@.len() == k,
            forall|j: int|
                0 <= j < k ==> (#[trigger] out@[j]).a == vertices@[3 * j] && out@[j].b
                    == vertices@[3 * j + 1] && out@[j].c == vertices@[3 * j + 2],
        decreases n - k,
    {
        proof {
            assert(3 * (k as int) <= 3 * (n as int) - 3);
            assert(idx + 2 < vertices@.len());
        }
        let i1: usize = idx + 1;
        let i2: usize = idx + 2;
        let t = Triangle { a: vertices[idx], b: vertices[i1], c: vertices[i2] };
        out.push(t);
        idx = idx + 3;
        k = k + 1;
    }
    out
}

/// One pixel the pipeline wants written: position, depth, packed color.
#[derive(Clone, Copy, Debug, PartialEq, Eq, Structural)]
pub struct PixelWrite {
    pub x: usize,
    pub y: usize,
    pub depth: i64,
    pub color: u32,
}

/// The integer pixel column of a fragment: the whole part of its screen
/// x, negatives saturating to zero.
pub open spec fn frag_px(f: Fragment) -> int {
    fx_max_spec(tdiv(f.position.x as int, 65536), 0)
}

/// The integer pixel row of a fragment.
pub open spec fn frag_py(f: Fragment) -> int {
    fx_max_spec(tdiv(f.position.y as int, 65536), 0)
}

/// The packed hex value of a shaded color triple.
pub open spec fn pack_rgb_spec(t: (int, int, int)) -> u32 {
    ((hex_channel_spec(t.0) as u32) << 16u32) | ((hex_channel_spec(t.1) as u32) << 8u32) | (
    hex_channel_spec(t.2) as u32)
}

/// The pixels a fragment list shades to: each in-bounds fragment, in
/// order, dispatched to the selected shader and packed; out-of-bounds
/// fragments silently dropped.
pub open spec fn shade_list_spec(
    frags: Seq<Fragment>,
    shader_type: u8,
    time: int,
    w: int,
    h: int,
) -> Seq<PixelWrite>
    decreases frags.len(),
{
    if frags.len() == 0 {
        Seq::empty()
    } else {
        let prev = shade_list_spec(frags.drop_last(), shader_type, time, w, h);
        let f = frags.last();
        if frag_px(f) < w && frag_py(f) < h {
            prev.push(
                PixelWrite {
                    x: frag_px(f) as usize,
                    y: frag_py(f) as usize,
                    depth: f.depth,
                    color: pack_rgb_spec(shade_fragment_spec(shader_type, f, time)),
                },
            )
        } else {
            prev
        }
    }
}

/// Shade a fragment list against the framebuffer bounds: the body's
/// selected shader runs on every in-bounds fragment, in order, and the
/// result carries the pixel position, the fragment's depth, and the
/// packed color.
pub fn shade_fragments(
    shader_type: u8,
    fragments: &Vec<Fragment>,
    uniforms: &Uniforms,
    width: usize,
    height: usize,
) -> (r: Vec<PixelWrite>)
    requires
        width <= 0x40000000,
        height <= 0x40000000,
        forall|i: int| 0 <= i < fragments@.len() ==> frag_ok(#[trigger] fragments@[i]),
        forall|i: int|
            0 <= i < fragments@.len() ==> fx_abs((#[trigger] fragments@[i]).position.x as int)
                <= 0x400000000000 && fx_abs(fragments@[i].position.y as int) <= 0x400000000000,
    ensures
        r@ == shade_list_spec(
            fragments@,
            shader_type,
            uniforms.time as int,
            width as int,
            height as int,
        ),
{
    let mut out: Vec<PixelWrite> = Vec::new();
    let mut i: usize = 0;
    while i < fragments.len()
        invariant
            0 <= i <= fragments@.len(),
            width <= 0x40000000,
            height <= 0x40000000,
            forall|j: int| 0 <= j < fragments@.len() ==> frag_ok(#[trigger] fragments@[j]),
            forall|j: int|
                0 <= j < fragments@.len() ==> fx_abs(
                    (#[trigger] fragments@[j]).position.x as int,
                ) <= 0x400000000000 && fx_abs(fragments@[j].position.y as int)
                    <= 0x400000000000,
            out@ == shade_list_spec(
                fragments@.take(i as int),
                shader_type,
                uniforms.time as int,
                width as int,
                height as int,
            ),
        decreases fragments@.len() - i,
    {
        let f: &Fragment = &fragments[i];
        let px: i64 = fx_max(tdiv_exec(f.position.x, 65536), 0);
        let py: i64 = fx_max(tdiv_exec(f.position.y, 65536), 0);
        proof {
            crate::fx::lemma_tdiv_abs_mul_le(f.position.x as int, 65536);
            crate::fx::lemma_tdiv_abs_mul_le(f.position.y as int, 65536);
        }
        if px < width as i64 && py < height as i64 {
            let color: u32 = shade_fragment(shader_type, f, uniforms).to_hex();
            out.push(
                PixelWrite { x: px as usize, y: py as usize, depth: f.depth, color },
            );
        }
        proof {
            assert(fragments@.take(i as int + 1).drop_last() =~= fragments@.take(i as int));
            assert(fragments@.take(i as int + 1).last() == fragments@[i as int]);
        }
        i = i + 1;
    }
    proof {
        assert(fragments@.take(fragments@.len() as int) =~= fragments@);
    }
    out
}

} // verus!
