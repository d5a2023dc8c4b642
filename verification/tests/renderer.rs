use planetarium::camera::{Camera, CameraMode, smooth_step};
use planetarium::celestial_body::{assemble_triangles, shade_fragments, CelestialBody};
use planetarium::color::Color;
use planetarium::shaders::{
    compute_lighting, fragment_shader_sun, shade_fragment, vertex_shader, Fragment, Uniforms,
    Vertex,
};
use planetarium::sqrt::fx_sqrt;
use planetarium::transforms::{create_model_matrix, create_viewport_matrix, Mat4};
use planetarium::trig::{fx_atan2, fx_cos, fx_sin, fx_sincos};
use planetarium::vec3::{Vec2, Vec3};

const ONE: i64 = 65536;

fn mag3(v: Vec3) -> f64 {
    let x = v.x as f64 / ONE as f64;
    let y = v.y as f64 / ONE as f64;
    let z = v.z as f64 / ONE as f64;
    (x * x + y * y + z * z).sqrt()
}

fn default_camera() -> Camera {
    Camera::new(
        Vec3::new(0, 0, 20 * ONE),
        Vec3::new(0, 0, 0),
        Vec3::new(0, ONE, 0),
    )
}

fn frag_at(x: i64, y: i64, z: i64) -> Fragment {
    Fragment {
        position: Vec2 { x: 0, y: 0 },
        depth: 0,
        vertex_position: Vec3 { x, y, z },
        normal: Vec3 { x: 0, y: 0, z: ONE },
        intensity: ONE,
    }
}

fn plain_uniforms() -> Uniforms {
    let id = identity();
    Uniforms {
        model_matrix: id,
        view_matrix: id,
        projection_matrix: id,
        viewport_matrix: id,
        time: 0,
        sun_position: Vec3 { x: 0, y: 0, z: 0 },
    }
}

fn identity() -> Mat4 {
    Mat4 {
        m00: ONE, m01: 0, m02: 0, m03: 0,
        m10: 0, m11: ONE, m12: 0, m13: 0,
        m20: 0, m21: 0, m22: ONE, m23: 0,
        m30: 0, m31: 0, m32: 0, m33: ONE,
    }
}

#[test]
fn orbit_quarter_turn() {
    // From eye on the +z axis a quarter turn about y lands on the x axis,
    // with the radius of 20 preserved.
    let mut cam = default_camera();
    cam.orbit(102944, 0); // pi / 2
    let eye = cam.eye;
    assert!((eye.x + 20 * ONE).abs() < 3277, "x was {}", eye.x);
    assert!(eye.y.abs() < 3277);
    assert!(eye.z.abs() < 3277);
    assert!((mag3(eye) - 20.0).abs() < 0.01);
}

#[test]
fn orbit_preserves_radius() {
    let mut cam = Camera::new(
        Vec3::new(3 * ONE, 4 * ONE, 12 * ONE),
        Vec3::new(0, 0, 0),
        Vec3::new(0, ONE, 0),
    );
    cam.orbit(19661, 13107); // 0.3 and 0.2 radians
    assert!((mag3(cam.eye) - 13.0).abs() < 0.05);
}

#[test]
fn orbit_pitch_stays_in_band() {
    // Repeated large pitch deltas cannot push past the clamped band.
    let mut cam = default_camera();
    for _ in 0..4 {
        cam.orbit(0, 10 * ONE);
        let rv = cam.eye;
        let xz = fx_sqrt(
            (rv.x as i128 * rv.x as i128 / 65536) as i64
                + (rv.z as i128 * rv.z as i128 / 65536) as i64,
        );
        let pitch = fx_atan2(-rv.y, xz);
        assert!(-96390 <= pitch && pitch <= 96390, "pitch {}", pitch);
    }
}

#[test]
fn switch_poses_are_fixed() {
    let mut cam = default_camera();
    cam.orbit(5000, 4000);
    cam.switch_to_birds_eye();
    assert_eq!(cam.eye, Vec3::new(0, 20 * ONE, 0));
    assert_eq!(cam.center, Vec3::new(0, 0, 0));
    assert_eq!(cam.up, Vec3::new(0, 0, -ONE));
    assert!(cam.mode == CameraMode::BirdsEye);
    cam.switch_to_normal();
    assert_eq!(cam.eye, Vec3::new(0, 0, 20 * ONE));
    assert_eq!(cam.center, Vec3::new(0, 0, 0));
    assert_eq!(cam.up, Vec3::new(0, ONE, 0));
    assert!(cam.mode == CameraMode::Normal);
}

#[test]
fn warp_midpoint_and_completion() {
    let mut cam = default_camera();
    let target_eye = Vec3::new(2 * ONE, 4 * ONE, 6 * ONE);
    let target_center = Vec3::new(2 * ONE, 0, 0);
    cam.start_warp(target_eye, target_center, 2 * ONE);
    assert!(cam.is_animating);
    cam.update(ONE);
    // At half progress smoothstep is exactly one half, so the pose is the
    // exact midpoint.
    assert_eq!(cam.eye, Vec3::new(ONE, 2 * ONE, 13 * ONE));
    assert_eq!(cam.center, Vec3::new(ONE, 0, 0));
    assert!(cam.is_animating);
    cam.update(ONE);
    assert_eq!(cam.eye, target_eye);
    assert_eq!(cam.center, target_center);
    assert!(!cam.is_animating);
}

#[test]
fn warp_single_long_tick_completes() {
    let mut cam = default_camera();
    let target_eye = Vec3::new(-3 * ONE, ONE, 7 * ONE);
    cam.start_warp(target_eye, Vec3::new(0, 0, 0), 2 * ONE);
    cam.update(5 * ONE);
    assert_eq!(cam.eye, target_eye);
    assert!(!cam.is_animating);
}

#[test]
fn zoom_moves_along_view_direction() {
    let mut cam = default_camera();
    cam.zoom(2 * ONE);
    assert_eq!(cam.eye, Vec3::new(0, 0, 18 * ONE));
    cam.zoom(-2 * ONE);
    assert_eq!(cam.eye, Vec3::new(0, 0, 20 * ONE));
}

#[test]
fn move_center_preserves_distance() {
    let mut cam = default_camera();
    cam.move_center(Vec3::new(ONE, 0, 0));
    let d = Vec3 {
        x: cam.center.x - cam.eye.x,
        y: cam.center.y - cam.eye.y,
        z: cam.center.z - cam.eye.z,
    };
    assert!((mag3(d) - 20.0).abs() < 0.05);
    assert_eq!(cam.eye, Vec3::new(0, 0, 20 * ONE));
}

#[test]
fn smooth_step_fixed_points() {
    assert_eq!(smooth_step(0), 0);
    assert_eq!(smooth_step(32768), 32768);
    assert_eq!(smooth_step(ONE), ONE);
}

#[test]
fn trig_basics() {
    assert_eq!(fx_cos(0), ONE);
    assert_eq!(fx_sin(0), 0);
    assert!(fx_sin(102944) > 65000);
    assert!(fx_cos(205887).abs() > 65000);
    let (c, s) = fx_sincos(40000);
    let norm = c as i128 * c as i128 + s as i128 * s as i128;
    assert!(norm <= 65536 * 65536);
    assert!(norm > 65536 * 65536 - 3 * 65536);
    // atan2 of equal positive arguments is about pi / 4
    assert!((fx_atan2(ONE, ONE) - 51472).abs() < 300);
    assert_eq!(fx_atan2(0, ONE), 0);
    assert_eq!(fx_atan2(ONE, 0), 102944);
}

#[test]
fn sqrt_exact_on_squares() {
    assert_eq!(fx_sqrt(4 * ONE), 2 * ONE);
    assert_eq!(fx_sqrt(0), 0);
    assert_eq!(fx_sqrt(ONE), ONE);
}

#[test]
fn color_lerp_endpoints_and_clamp() {
    let a = Color::new(10 * ONE, 20 * ONE, 30 * ONE);
    let b = Color::new(40 * ONE, 50 * ONE, 60 * ONE);
    assert_eq!(a.lerp(&b, 0), a);
    assert_eq!(a.lerp(&b, ONE), b);
    assert_eq!(a.lerp(&b, -5 * ONE), a);
    assert_eq!(a.lerp(&b, 2 * ONE), b);
    assert_eq!(a.lerp(&b, 32768), Color::new(25 * ONE, 35 * ONE, 45 * ONE));
}

#[test]
fn color_to_hex_packs_channels() {
    let c = Color::new(255 * ONE, 128 * ONE, 64 * ONE);
    assert_eq!(c.to_hex(), 0xFF8040);
    let d = Color::new(-5 * ONE, 0, 7 * ONE);
    assert_eq!(d.to_hex(), 0x000007);
}

#[test]
fn color_blend_operators() {
    let a = Color::new(100 * ONE, 10 * ONE, 200 * ONE);
    let b = Color::new(50 * ONE, 60 * ONE, 250 * ONE);
    assert_eq!(a.blend_darken(&b), Color::new(50 * ONE, 10 * ONE, 200 * ONE));
    assert_eq!(a.blend_lighten(&b), Color::new(100 * ONE, 60 * ONE, 250 * ONE));
    assert_eq!(
        a.blend_additive(&b),
        Color::new(150 * ONE, 70 * ONE, 255 * ONE)
    );
    // dodge at a saturated blend channel is the channel cap
    let e = Color::new(10 * ONE, 10 * ONE, 10 * ONE);
    let f = Color::new(255 * ONE, 0, 100 * ONE);
    let dodged = e.blend_color_dodge(&f);
    assert_eq!(dodged.r, 255 * ONE);
    // burn by a zero blend channel is zero
    let burned = e.blend_color_burn(&f);
    assert_eq!(burned.g, 0);
    // difference is capped at one raw unit
    let diff = a.blend_difference(&b);
    assert_eq!(diff, Color::new(ONE, ONE, ONE));
    let black = Color::black();
    assert_eq!(black, Color::new(0, 0, 0));
    // clamp pins channels into the conventional range
    let wild = Color::new(-5 * ONE, 300 * ONE, 100 * ONE);
    assert_eq!(wild.clamp(), Color::new(0, 255 * ONE, 100 * ONE));
}

#[test]
fn model_matrix_pure_translation() {
    let m = create_model_matrix(
        Vec3::new(3 * ONE, -2 * ONE, 5 * ONE),
        ONE,
        Vec3::new(0, 0, 0),
    );
    assert_eq!(m.m00, ONE);
    assert_eq!(m.m11, ONE);
    assert_eq!(m.m22, ONE);
    assert_eq!(m.m33, ONE);
    assert_eq!(m.m03, 3 * ONE);
    assert_eq!(m.m13, -2 * ONE);
    assert_eq!(m.m23, 5 * ONE);
    assert_eq!(m.m01, 0);
    assert_eq!(m.m10, 0);
    assert_eq!(m.m21, 0);
    assert_eq!(m.m30, 0);
}

#[test]
fn viewport_matrix_entries() {
    let m = create_viewport_matrix(600 * ONE, 600 * ONE);
    assert_eq!(m.m00, 300 * ONE);
    assert_eq!(m.m03, 300 * ONE);
    assert_eq!(m.m11, -300 * ONE);
    assert_eq!(m.m13, 300 * ONE);
    assert_eq!(m.m22, ONE);
}

#[test]
fn sun_shader_center_and_edge() {
    let u = plain_uniforms();
    let center = fragment_shader_sun(&frag_at(0, 0, 0), &u);
    assert_eq!(center, Color::new(255 * ONE, 255 * ONE, 255 * ONE));
    let edge = fragment_shader_sun(&frag_at(ONE, 0, 0), &u);
    assert_eq!(edge, Color::new(255 * ONE, 255 * ONE, 0));
}

#[test]
fn shaders_are_deterministic() {
    let u = plain_uniforms();
    let f = frag_at(30000, -20000, 5000);
    for tag in [1u8, 4, 5, 6, 7, 8, 0] {
        let c1 = shade_fragment(tag, &f, &u);
        let c2 = shade_fragment(tag, &f, &u);
        assert_eq!(c1, c2);
    }
}

#[test]
fn unknown_tag_falls_through_to_neptune() {
    let u = plain_uniforms();
    let f = frag_at(10000, 10000, 0);
    let a = shade_fragment(200, &f, &u);
    let b = shade_fragment(2, &f, &u);
    let n = planetarium::shaders::fragment_shader_neptune(&f, &u);
    assert_eq!(a, n);
    assert_eq!(b, n);
}

#[test]
fn lighting_head_on_is_full() {
    let f = frag_at(0, 0, 0);
    let l = compute_lighting(&f, Vec3::new(0, 0, 10 * ONE));
    assert_eq!(l, ONE);
    // light from behind is floored at zero
    let l2 = compute_lighting(&f, Vec3::new(0, 0, -10 * ONE));
    assert_eq!(l2, 0);
}

#[test]
fn vertex_shader_identity_pipeline() {
    let u = plain_uniforms();
    let v = Vertex {
        position: Vec3::new(2 * ONE, 3 * ONE, 4 * ONE),
        normal: Vec3::new(0, ONE, 0),
        tex_coords: Vec2 { x: 0, y: 0 },
        color: Color::black(),
        transformed_position: Vec3::new(0, 0, 0),
        transformed_normal: Vec3::new(0, 0, 0),
    };
    let out = vertex_shader(&v, &u);
    assert_eq!(out.transformed_position, v.position);
    assert_eq!(out.normal, v.normal);
    assert_eq!(out.transformed_normal, v.normal);
    assert_eq!(out.position, v.position);
}

#[test]
fn triangles_drop_leftovers() {
    let v = Vertex {
        position: Vec3::new(0, 0, 0),
        normal: Vec3::new(0, ONE, 0),
        tex_coords: Vec2 { x: 0, y: 0 },
        color: Color::black(),
        transformed_position: Vec3::new(0, 0, 0),
        transformed_normal: Vec3::new(0, 0, 0),
    };
    let mut vs = Vec::new();
    for i in 0..7i64 {
        let mut w = v;
        w.position.x = i * ONE;
        vs.push(w);
    }
    let tris = assemble_triangles(&vs);
    assert_eq!(tris.len(), 2);
    assert_eq!(tris[0].a.position.x, 0);
    assert_eq!(tris[1].c.position.x, 5 * ONE);
}

#[test]
fn shade_fragments_filters_bounds() {
    let u = plain_uniforms();
    let mut inside = frag_at(0, 0, 0);
    inside.position = Vec2 { x: 10 * ONE, y: 20 * ONE };
    inside.depth = 7;
    let mut outside = frag_at(0, 0, 0);
    outside.position = Vec2 { x: 700 * ONE, y: 20 * ONE };
    let frags = vec![inside, outside];
    let writes = shade_fragments(8, &frags, &u, 600, 600);
    assert_eq!(writes.len(), 1);
    assert_eq!(writes[0].x, 10);
    assert_eq!(writes[0].y, 20);
    assert_eq!(writes[0].depth, 7);
    assert_eq!(writes[0].color, 0xFFFFFF);
}

#[test]
fn body_world_position_is_fixed() {
    let body = CelestialBody {
        name: String::from("Earth"),
        vertex_array: Vec::new(),
        shader_type: 6,
        orbit_radius: 4 * ONE,
        rotation_speed: 3277,
        orbit_speed: 983,
        scale: ONE,
    };
    let p1 = body.get_world_position();
    let p2 = body.get_world_position();
    assert_eq!(p1, p2);
    assert_eq!(p1.y, 0);
    assert!((p1.x - 4 * ONE).abs() < 2000);
    let m = body.get_model_matrix(0);
    // at time zero the orbit angle is zero: translated out to the radius
    assert_eq!(m.m03, 4 * ONE);
    assert_eq!(m.m13, 0);
    assert_eq!(m.m23, 0);
}
