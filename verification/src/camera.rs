//! The interactive camera: an eye/center/up pose, a two-pose mode switch,
//! orbit, zoom and pan controls, and a time-driven smooth warp animation
//! between two poses.
//!
//! Angles are raw fixed-point radians; positions raw fixed-point scene
//! units. Each mutation carries an exact contract over the spec functions
//! below; the magnitude bounds in the `requires` clauses are what the
//! 64-bit fixed-point arithmetic forces, far outside the poses a scene
//! ever uses.

use vstd::prelude::*;
use crate::fx::{
    fx_abs, fx_mul_spec, fx_div_spec, fx_clamp_spec, fx_mul, fx_div, fx_clamp, fx_emod,
    lemma_fx_mul_bound, lemma_fx_div_ge_one, lemma_tdiv_abs_mul_le, FX_ONE, FX_TWO_PI,
};
use crate::sqrt::{fx_sqrt, fx_sqrt_spec, lemma_sqrt_floor_upper, lemma_sqrt_floor_bounds};
use crate::trig::{fx_sincos, fx_atan2, fx_sin_spec, fx_cos_spec, fx_atan2_spec};
use crate::vec3::{
    Vec3, v3, t3_bounded, t3_add, t3_sub, t3_scale, t3_dot, t3_cross, t3_norm2, t3_mag,
    t3_normalize, t3_lerp, lerp1_spec, lemma_lerp1_range, lemma_square_nonneg,
};
use vstd::arithmetic::div_mod::{
    lemma_div_pos_is_pos, lemma_div_is_ordered, lemma_div_multiples_vanish, lemma_mod_bound,
    lemma_fundamental_div_mod,
};
use vstd::arithmetic::mul::lemma_mul_inequality;

verus! {

/// Which of the two canonical poses the camera last jumped to.
#[derive(Clone, Copy, Debug, PartialEq, Eq, Structural)]
pub enum CameraMode {
    Normal,
    BirdsEye,
}

/// Pitch is clamped into `[-pi/2 + 0.1, pi/2 - 0.1]`; the margin keeps the
/// eye off the poles. This is the raw upper edge of that band.
pub const PITCH_MAX: i64 = 96390;

/// The raw lower edge of the pitch band.
pub const PITCH_MIN: i64 = -96390;

/// Bound on the stored camera vectors (eye, center, animation poses).
pub const CAM_LIM: i64 = 0x20000000;

/// Bound on the up vector: a direction, one raw unit plus rounding.
pub const CAM_UP_LIM: i64 = 67000;

/// The camera state.
pub struct Camera {
    pub eye: Vec3,
    pub center: Vec3,
    pub up: Vec3,
    pub has_changed: bool,
    pub mode: CameraMode,
    pub anim_start_eye: Vec3,
    pub anim_start_center: Vec3,
    pub anim_target_eye: Vec3,
    pub anim_target_center: Vec3,
    pub anim_progress: i64,
    pub anim_duration: i64,
    pub is_animating: bool,
}

/// Well-formedness of a camera value: every stored vector within the
/// machine bounds, the animation progress a valid blend factor, and a
/// positive duration whenever an animation is in flight.
pub open spec fn cam_bounded(c: Camera) -> bool {
    &&& t3_bounded(v3(c.eye), 0x20000000)
    &&& t3_bounded(v3(c.center), 0x20000000)
    &&& t3_bounded(v3(c.up), 67000)
    &&& t3_bounded(v3(c.anim_start_eye), 0x20000000)
    &&& t3_bounded(v3(c.anim_start_center), 0x20000000)
    &&& t3_bounded(v3(c.anim_target_eye), 0x20000000)
    &&& t3_bounded(v3(c.anim_target_center), 0x20000000)
    &&& 0 <= c.anim_progress <= 65536
    &&& 0 <= c.anim_duration <= 0x400000000000
    &&& (c.is_animating ==> c.anim_duration >= 1)
}

/// The cubic smoothstep ease `t * t * (3 - 2 * t)`.
pub open spec fn smooth_step_spec(t: int) -> int {
    fx_mul_spec(fx_mul_spec(t, t), 3 * 65536 - 2 * t)
}

/// On `[0, 1]` the ease stays in `[0, 1]`.
pub proof fn lemma_smooth_step_range(t: int)
    requires
        0 <= t <= 65536,
    ensures
        0 <= smooth_step_spec(t) <= 65536,
{
    let u = fx_mul_spec(t, t);
    let m = 3 * 65536 - 2 * t;
    lemma_square_nonneg(t);
    lemma_tdiv_abs_mul_le(t * t, 65536);
    assert(u * 65536 <= t * t);
    assert(65536 * 65536 * 65536 - t * t * (3 * 65536 - 2 * t) == (65536 - t) * (65536 - t) * (2
        * t + 65536)) by (nonlinear_arith);
    assert((65536 - t) * (65536 - t) * (2 * t + 65536) >= 0) by (nonlinear_arith)
        requires
            0 <= t <= 65536,
    ;
    lemma_mul_inequality(u * 65536, t * t, m);
    assert(u * 65536 * m == (u * m) * 65536) by (nonlinear_arith);
    assert(t * t * m <= 65536 * 65536 * 65536);
    assert((u * m) * 65536 <= 65536 * 65536 * 65536);
    assert(u * m >= 0) by (nonlinear_arith)
        requires
            u >= 0,
            m >= 0,
    ;
    lemma_tdiv_abs_mul_le(u * m, 65536);
}

/// One is the ease's fixed point at the top of the range.
pub proof fn lemma_smoothstep_one()
    ensures
        smooth_step_spec(65536) == 65536,
{
    lemma_div_multiples_vanish(65536, 65536);
}

/// One half is the ease's fixed point in the middle: eased and raw
/// progress agree exactly there.
pub proof fn lemma_smoothstep_half()
    ensures
        smooth_step_spec(32768) == 16384 * (3 * 65536 - 2 * 32768) / 65536,
        smooth_step_spec(32768) == 32768,
{
    lemma_div_multiples_vanish(16384, 65536);
    assert(32768 * 32768 == 65536 * 16384);
    lemma_div_multiples_vanish(32768, 65536);
    assert(16384 * 131072 == 65536 * 32768);
}

/// The cubic smoothstep ease, on a blend factor in `[0, FX_ONE]`.
pub fn smooth_step(t: i64) -> (r: i64)
    requires
        0 <= t <= 65536,
    ensures
        r == smooth_step_spec(t as int),
        0 <= r <= 65536,
{
    proof {
        lemma_smooth_step_range(t as int);
        lemma_fx_mul_bound(t as int, t as int, 65536, 65536);
    }
    fx_mul(fx_mul(t, t), 3 * FX_ONE - 2 * t)
}

/// The animation progress after one tick: advanced by the scaled ratio of
/// the tick to the duration, clamped at one.
pub open spec fn progress_after_spec(p0: int, dt: int, dur: int) -> int {
    if p0 + fx_div_spec(dt, dur) >= 65536 {
        65536
    } else {
        p0 + fx_div_spec(dt, dur)
    }
}

/// The pitch an orbit call ends at: the pitch of the current radius
/// vector plus the requested change, clamped into the pitch band.
pub open spec fn orbit_pitch_spec(eye: (int, int, int), center: (int, int, int), dpitch: int) -> int {
    let rv = t3_sub(eye, center);
    let radius_xz = fx_sqrt_spec(fx_mul_spec(rv.0, rv.0) + fx_mul_spec(rv.2, rv.2));
    let pitch = fx_atan2_spec(-rv.1, radius_xz);
    fx_clamp_spec(pitch + dpitch, -96390, 96390)
}

/// The eye an orbit call ends at: a point on the sphere of the current
/// radius around the center, at the shifted yaw and the clamped pitch,
/// with the vertical component negated (screen convention).
pub open spec fn orbit_eye_spec(
    eye: (int, int, int),
    center: (int, int, int),
    dyaw: int,
    dpitch: int,
) -> (int, int, int) {
    let rv = t3_sub(eye, center);
    let radius = fx_sqrt_spec(t3_norm2(rv));
    let yaw = fx_atan2_spec(rv.2, rv.0);
    let ny = (yaw + dyaw) % 411775;
    let np = orbit_pitch_spec(eye, center, dpitch);
    t3_add(
        center,
        (
            fx_mul_spec(fx_mul_spec(radius, fx_cos_spec(ny)), fx_cos_spec(np)),
            -fx_mul_spec(radius, fx_sin_spec(np)),
            fx_mul_spec(fx_mul_spec(radius, fx_sin_spec(ny)), fx_cos_spec(np)),
        ),
    )
}

/// Rodrigues rotation of `v` by `angle` about a unit `axis`:
/// `v cos + (axis x v) sin + axis (axis . v) (1 - cos)`.
pub open spec fn rotate_axis_spec(v: (int, int, int), angle: int, axis: (int, int, int)) -> (
    int,
    int,
    int,
) {
    let c = fx_cos_spec(angle);
    let s = fx_sin_spec(angle);
    let cr = t3_cross(axis, v);
    let t = fx_mul_spec(t3_dot(axis, v), 65536 - c);
    (
        fx_mul_spec(v.0, c) + fx_mul_spec(cr.0, s) + fx_mul_spec(axis.0, t),
        fx_mul_spec(v.1, c) + fx_mul_spec(cr.1, s) + fx_mul_spec(axis.1, t),
        fx_mul_spec(v.2, c) + fx_mul_spec(cr.2, s) + fx_mul_spec(axis.2, t),
    )
}

/// The look-at target after a pan: the radius vector rotated about the
/// world up axis and then about the resulting right axis, renormalized and
/// rescaled to the original distance from the eye.
pub open spec fn move_center_spec(
    eye: (int, int, int),
    center: (int, int, int),
    up: (int, int, int),
    dir: (int, int, int),
) -> (int, int, int) {
    let rv = t3_sub(center, eye);
    let r = t3_mag(rv);
    let angle_x = fx_mul_spec(dir.0, 3277);
    let angle_y = fx_mul_spec(dir.1, 3277);
    let rotated = rotate_axis_spec(rv, angle_x, (0, 65536, 0));
    let right = t3_normalize(t3_cross(rotated, up));
    let final_rotated = rotate_axis_spec(rotated, angle_y, right);
    t3_add(eye, t3_scale(t3_normalize(final_rotated), r))
}

/// A camera-local offset carried into world space: the offset recombined
/// over the camera basis (right, up, forward), renormalized.
pub open spec fn basis_change_spec(
    eye: (int, int, int),
    center: (int, int, int),
    up: (int, int, int),
    v: (int, int, int),
) -> (int, int, int) {
    let forward = t3_normalize(t3_sub(center, eye));
    let right = t3_normalize(t3_cross(forward, up));
    let up2 = t3_normalize(t3_cross(right, forward));
    let rotated = t3_add(t3_add(t3_scale(right, v.0), t3_scale(up2, v.1)), t3_scale(forward, -v.2));
    t3_normalize(rotated)
}

/// A rotation about a unit axis grows each component bound at most
/// tenfold (stated over a bound that is a multiple of 32, so the
/// unit-axis rounding slack stays inside whole multiples of the bound).
pub proof fn lemma_rotate_axis_bound(v: (int, int, int), angle: int, axis: (int, int, int), q: int)
    requires
        0 <= q,
        t3_bounded(v, 32 * q),
        t3_bounded(axis, 67000),
    ensures
        t3_bounded(rotate_axis_spec(v, angle, axis), 304 * q),
{
    let c = fx_cos_spec(angle);
    let s = fx_sin_spec(angle);
    crate::trig::lemma_sincos_pythagorean(angle);
    let cr = t3_cross(axis, v);
    let d = t3_dot(axis, v);
    let t = fx_mul_spec(d, 65536 - c);
    lemma_fx_mul_bound(axis.0, v.0, 67000, 32 * q);
    lemma_fx_mul_bound(axis.0, v.1, 67000, 32 * q);
    lemma_fx_mul_bound(axis.0, v.2, 67000, 32 * q);
    lemma_fx_mul_bound(axis.1, v.0, 67000, 32 * q);
    lemma_fx_mul_bound(axis.1, v.1, 67000, 32 * q);
    lemma_fx_mul_bound(axis.1, v.2, 67000, 32 * q);
    lemma_fx_mul_bound(axis.2, v.0, 67000, 32 * q);
    lemma_fx_mul_bound(axis.2, v.1, 67000, 32 * q);
    lemma_fx_mul_bound(axis.2, v.2, 67000, 32 * q);
    assert(67000 * (32 * q) <= 65536 * (33 * q)) by (nonlinear_arith)
        requires
            q >= 0,
    ;
    lemma_div_is_ordered(67000 * (32 * q), 65536 * (33 * q), 65536);
    lemma_div_multiples_vanish(33 * q, 65536);
    assert((67000 * (32 * q)) / 65536 <= 33 * q);
    assert(t3_bounded(cr, 66 * q));
    assert(fx_abs(d) <= 99 * q);
    lemma_fx_mul_bound(d, 65536 - c, 99 * q, 131072);
    assert((99 * q) * 131072 == 65536 * (198 * q)) by (nonlinear_arith);
    lemma_div_multiples_vanish(198 * q, 65536);
    assert(fx_abs(t) <= 198 * q);
    lemma_fx_mul_bound(v.0, c, 32 * q, 65536);
    lemma_fx_mul_bound(v.1, c, 32 * q, 65536);
    lemma_fx_mul_bound(v.2, c, 32 * q, 65536);
    assert((32 * q) * 65536 == 65536 * (32 * q)) by (nonlinear_arith);
    lemma_div_multiples_vanish(32 * q, 65536);
    lemma_fx_mul_bound(cr.0, s, 66 * q, 65536);
    lemma_fx_mul_bound(cr.1, s, 66 * q, 65536);
    lemma_fx_mul_bound(cr.2, s, 66 * q, 65536);
    assert((66 * q) * 65536 == 65536 * (66 * q)) by (nonlinear_arith);
    lemma_div_multiples_vanish(66 * q, 65536);
    lemma_fx_mul_bound(axis.0, t, 67000, 198 * q);
    lemma_fx_mul_bound(axis.1, t, 67000, 198 * q);
    lemma_fx_mul_bound(axis.2, t, 67000, 198 * q);
    assert(67000 * (198 * q) <= 65536 * (203 * q)) by (nonlinear_arith)
        requires
            q >= 0,
    ;
    lemma_div_is_ordered(67000 * (198 * q), 65536 * (203 * q), 65536);
    lemma_div_multiples_vanish(203 * q, 65536);
    assert((67000 * (198 * q)) / 65536 <= 203 * q);
    assert(32 * q + 66 * q + 203 * q <= 304 * q);
}

/// Rodrigues rotation about a (roughly unit) axis.
fn rotate_about_axis(v: &Vec3, angle: i64, axis: &Vec3) -> (r: Vec3)
    requires
        t3_bounded(v3(*v), 0x5F00000),
        t3_bounded(v3(*axis), 67000),
    ensures
        v3(r) == rotate_axis_spec(v3(*v), angle as int, v3(*axis)),
        t3_bounded(v3(r), 0x38700000),
{
    proof {
        lemma_rotate_axis_bound(v3(*v), angle as int, v3(*axis), 0x2F8000);
    }
    let cs: (i64, i64) = fx_sincos(angle);
    let c: i64 = cs.0;
    let s: i64 = cs.1;
    proof {
        lemma_fx_mul_bound(axis.x as int, v.y as int, 67000, 0x5F00000);
        lemma_fx_mul_bound(axis.x as int, v.z as int, 67000, 0x5F00000);
        lemma_fx_mul_bound(axis.y as int, v.x as int, 67000, 0x5F00000);
        lemma_fx_mul_bound(axis.y as int, v.z as int, 67000, 0x5F00000);
        lemma_fx_mul_bound(axis.z as int, v.x as int, 67000, 0x5F00000);
        lemma_fx_mul_bound(axis.z as int, v.y as int, 67000, 0x5F00000);
        lemma_fx_mul_bound(axis.x as int, v.x as int, 67000, 0x5F00000);
        lemma_fx_mul_bound(axis.y as int, v.y as int, 67000, 0x5F00000);
        lemma_fx_mul_bound(axis.z as int, v.z as int, 67000, 0x5F00000);
    }
    let cr: Vec3 = axis.cross(v);
    let d: i64 = axis.dot(v);
    proof {
        lemma_fx_mul_bound(d as int, 65536 - c as int, 0x12400000, 131072);
        lemma_fx_mul_bound(v.x as int, c as int, 0x5F00000, 65536);
        lemma_fx_mul_bound(v.y as int, c as int, 0x5F00000, 65536);
        lemma_fx_mul_bound(v.z as int, c as int, 0x5F00000, 65536);
        lemma_fx_mul_bound(cr.x as int, s as int, 0xC300000, 65536);
        lemma_fx_mul_bound(cr.y as int, s as int, 0xC300000, 65536);
        lemma_fx_mul_bound(cr.z as int, s as int, 0xC300000, 65536);
    }
    let t: i64 = fx_mul(d, FX_ONE - c);
    proof {
        lemma_fx_mul_bound(axis.x as int, t as int, 67000, 0x24800000);
        lemma_fx_mul_bound(axis.y as int, t as int, 67000, 0x24800000);
        lemma_fx_mul_bound(axis.z as int, t as int, 67000, 0x24800000);
    }
    Vec3 {
        x: fx_mul(v.x, c) + fx_mul(cr.x, s) + fx_mul(axis.x, t),
        y: fx_mul(v.y, c) + fx_mul(cr.y, s) + fx_mul(axis.y, t),
        z: fx_mul(v.z, c) + fx_mul(cr.z, s) + fx_mul(axis.z, t),
    }
}

impl Camera {
    /// A camera at the given pose: mode normal, marked changed, no
    /// animation in flight.
    pub fn new(eye: Vec3, center: Vec3, up: Vec3) -> (c: Camera)
        requires
            t3_bounded(v3(eye), 0x20000000),
            t3_bounded(v3(center), 0x20000000),
            t3_bounded(v3(up), 67000),
        ensures
            c.eye == eye,
            c.center == center,
            c.up == up,
            c.has_changed == true,
            c.mode == CameraMode::Normal,
            c.anim_start_eye == eye,
            c.anim_start_center == center,
            c.anim_target_eye == eye,
            c.anim_target_center == center,
            c.anim_progress == 0,
            c.anim_duration == 0,
            c.is_animating == false,
            cam_bounded(c),
    {
        Camera {
            eye,
            center,
            up,
            has_changed: true,
            mode: CameraMode::Normal,
            anim_start_eye: eye,
            anim_start_center: center,
            anim_target_eye: eye,
            anim_target_center: center,
            anim_progress: 0,
            anim_duration: 0,
            is_animating: false,
        }
    }

    /// Begin a warp: the current pose becomes the animation start — also
    /// mid-animation, so a restart never jumps — the target pose and
    /// duration are recorded, and progress returns to zero.
    pub fn start_warp(&mut self, target_eye: Vec3, target_center: Vec3, duration: i64)
        requires
            cam_bounded(*old(self)),
            t3_bounded(v3(target_eye), 0x20000000),
            t3_bounded(v3(target_center), 0x20000000),
            1 <= duration <= 0x400000000000,
        ensures
            cam_bounded(*final(self)),
            final(self).anim_start_eye == old(self).eye,
            final(self).anim_start_center == old(self).center,
            final(self).anim_target_eye == target_eye,
            final(self).anim_target_center == target_center,
            final(self).anim_progress == 0,
            final(self).anim_duration == duration,
            final(self).is_animating == true,
            final(self).eye == old(self).eye,
            final(self).center == old(self).center,
            final(self).up == old(self).up,
            final(self).mode == old(self).mode,
            final(self).has_changed == old(self).has_changed,
    {
        self.anim_start_eye = self.eye;
        self.anim_start_center = self.center;
        self.anim_target_eye = target_eye;
        self.anim_target_center = target_center;
        self.anim_progress = 0;
        self.anim_duration = duration;
        self.is_animating = true;
    }

    /// Advance an in-flight warp by one tick: progress grows by the ratio
    /// of the tick to the duration, clamps at one (deactivating the
    /// animation), and the pose is the eased interpolation between the
    /// recorded start and target. Without an animation in flight the call
    /// changes nothing.
    pub fn update(&mut self, delta_time: i64)
        requires
            cam_bounded(*old(self)),
            0 <= delta_time <= 0x400000000000,
        ensures
            cam_bounded(*final(self)),
            !old(self).is_animating ==> *final(self) == *old(self),
            old(self).is_animating ==> {
                let p = progress_after_spec(
                    old(self).anim_progress as int,
                    delta_time as int,
                    old(self).anim_duration as int,
                );
                &&& final(self).anim_progress == p
                &&& final(self).is_animating == (p < 65536)
                &&& v3(final(self).eye) == t3_lerp(
                    v3(old(self).anim_start_eye),
                    v3(old(self).anim_target_eye),
                    smooth_step_spec(p),
                )
                &&& v3(final(self).center) == t3_lerp(
                    v3(old(self).anim_start_center),
                    v3(old(self).anim_target_center),
                    smooth_step_spec(p),
                )
                &&& final(self).has_changed == true
                &&& final(self).up == old(self).up
                &&& final(self).mode == old(self).mode
                &&& final(self).anim_start_eye == old(self).anim_start_eye
                &&& final(self).anim_start_center == old(self).anim_start_center
                &&& final(self).anim_target_eye == old(self).anim_target_eye
                &&& final(self).anim_target_center == old(self).anim_target_center
                &&& final(self).anim_duration == old(self).anim_duration
            },
    {
        if self.is_animating {
            let ratio: i64 = fx_div(delta_time, self.anim_duration);
            proof {
                lemma_div_pos_is_pos(delta_time * 65536, self.anim_duration as int);
                assert(delta_time * 65536 >= 0) by (nonlinear_arith)
                    requires
                        delta_time >= 0,
                ;
                lemma_mul_inequality(1, self.anim_duration as int, fx_abs(ratio as int));
            }
            let p0: i64 = self.anim_progress + ratio;
            if p0 >= FX_ONE {
                self.anim_progress = FX_ONE;
                self.is_animating = false;
            } else {
                self.anim_progress = p0;
            }
            let t: i64 = smooth_step(self.anim_progress);
            proof {
                lemma_lerp1_range(self.anim_start_eye.x as int, self.anim_target_eye.x as int, t as int);
                lemma_lerp1_range(self.anim_start_eye.y as int, self.anim_target_eye.y as int, t as int);
                lemma_lerp1_range(self.anim_start_eye.z as int, self.anim_target_eye.z as int, t as int);
                lemma_lerp1_range(
                    self.anim_start_center.x as int,
                    self.anim_target_center.x as int,
                    t as int,
                );
                lemma_lerp1_range(
                    self.anim_start_center.y as int,
                    self.anim_target_center.y as int,
                    t as int,
                );
                lemma_lerp1_range(
                    self.anim_start_center.z as int,
                    self.anim_target_center.z as int,
                    t as int,
                );
            }
            self.eye = self.anim_start_eye.lerp(&self.anim_target_eye, t);
            self.center = self.anim_start_center.lerp(&self.anim_target_center, t);
            self.has_changed = true;
        }
    }

    /// Jump to the fixed bird's-eye pose: above the scene, looking down.
    pub fn switch_to_birds_eye(&mut self)
        requires
            cam_bounded(*old(self)),
        ensures
            cam_bounded(*final(self)),
            final(self).eye == (Vec3 { x: 0, y: 1310720, z: 0 }),
            final(self).center == (Vec3 { x: 0, y: 0, z: 0 }),
            final(self).up == (Vec3 { x: 0, y: 0, z: -65536i64 }),
            final(self).mode == CameraMode::BirdsEye,
            final(self).has_changed == old(self).has_changed,
            final(self).is_animating == old(self).is_animating,
            final(self).anim_start_eye == old(self).anim_start_eye,
            final(self).anim_start_center == old(self).anim_start_center,
            final(self).anim_target_eye == old(self).anim_target_eye,
            final(self).anim_target_center == old(self).anim_target_center,
            final(self).anim_progress == old(self).anim_progress,
            final(self).anim_duration == old(self).anim_duration,
    {
        self.eye = Vec3 { x: 0, y: 1310720, z: 0 };
        self.center = Vec3 { x: 0, y: 0, z: 0 };
        self.up = Vec3 { x: 0, y: 0, z: -65536 };
        self.mode = CameraMode::BirdsEye;
    }

    /// Jump back to the fixed normal pose: on the z axis, looking at the
    /// origin.
    pub fn switch_to_normal(&mut self)
        requires
            cam_bounded(*old(self)),
        ensures
            cam_bounded(*final(self)),
            final(self).eye == (Vec3 { x: 0, y: 0, z: 1310720 }),
            final(self).center == (Vec3 { x: 0, y: 0, z: 0 }),
            final(self).up == (Vec3 { x: 0, y: 65536, z: 0 }),
            final(self).mode == CameraMode::Normal,
            final(self).has_changed == old(self).has_changed,
            final(self).is_animating == old(self).is_animating,
            final(self).anim_start_eye == old(self).anim_start_eye,
            final(self).anim_start_center == old(self).anim_start_center,
            final(self).anim_target_eye == old(self).anim_target_eye,
            final(self).anim_target_center == old(self).anim_target_center,
            final(self).anim_progress == old(self).anim_progress,
            final(self).anim_duration == old(self).anim_duration,
    {
        self.eye = Vec3 { x: 0, y: 0, z: 1310720 };
        self.center = Vec3 { x: 0, y: 0, z: 0 };
        self.up = Vec3 { x: 0, y: 65536, z: 0 };
        self.mode = CameraMode::Normal;
    }

    /// Carry a camera-local offset vector into world space over the
    /// camera's basis, renormalized.
    pub fn basis_change(&self, vector: &Vec3) -> (r: Vec3)
        requires
            cam_bounded(*self),
            t3_bounded(v3(self.eye), 0x4000000),
            t3_bounded(v3(self.center), 0x4000000),
            t3_bounded(v3(*vector), 0x1000000),
        ensures
            v3(r) == basis_change_spec(v3(self.eye), v3(self.center), v3(self.up), v3(*vector)),
            t3_bounded(v3(r), 67000),
    {
        let forward: Vec3 = self.center.sub(&self.eye).normalize();
        proof {
            lemma_fx_mul_bound(forward.x as int, self.up.y as int, 67000, 67000);
            lemma_fx_mul_bound(forward.x as int, self.up.z as int, 67000, 67000);
            lemma_fx_mul_bound(forward.y as int, self.up.x as int, 67000, 67000);
            lemma_fx_mul_bound(forward.y as int, self.up.z as int, 67000, 67000);
            lemma_fx_mul_bound(forward.z as int, self.up.x as int, 67000, 67000);
            lemma_fx_mul_bound(forward.z as int, self.up.y as int, 67000, 67000);
        }
        let right: Vec3 = forward.cross(&self.up).normalize();
        proof {
            lemma_fx_mul_bound(right.x as int, forward.y as int, 67000, 67000);
            lemma_fx_mul_bound(right.x as int, forward.z as int, 67000, 67000);
            lemma_fx_mul_bound(right.y as int, forward.x as int, 67000, 67000);
            lemma_fx_mul_bound(right.y as int, forward.z as int, 67000, 67000);
            lemma_fx_mul_bound(right.z as int, forward.x as int, 67000, 67000);
            lemma_fx_mul_bound(right.z as int, forward.y as int, 67000, 67000);
        }
        let up: Vec3 = right.cross(&forward).normalize();
        proof {
            lemma_fx_mul_bound(right.x as int, vector.x as int, 67000, 0x1000000);
            lemma_fx_mul_bound(right.y as int, vector.x as int, 67000, 0x1000000);
            lemma_fx_mul_bound(right.z as int, vector.x as int, 67000, 0x1000000);
            lemma_fx_mul_bound(up.x as int, vector.y as int, 67000, 0x1000000);
            lemma_fx_mul_bound(up.y as int, vector.y as int, 67000, 0x1000000);
            lemma_fx_mul_bound(up.z as int, vector.y as int, 67000, 0x1000000);
            lemma_fx_mul_bound(forward.x as int, -(vector.z as int), 67000, 0x1000000);
            lemma_fx_mul_bound(forward.y as int, -(vector.z as int), 67000, 0x1000000);
            lemma_fx_mul_bound(forward.z as int, -(vector.z as int), 67000, 0x1000000);
        }
        let rotated: Vec3 = right.scale(vector.x).add(&up.scale(vector.y)).add(
            &forward.scale(-vector.z),
        );
        rotated.normalize()
    }

    /// Orbit the eye on the sphere of its current distance around the
    /// center: yaw shifts freely (wrapping around the full circle), pitch
    /// clamps into the pitch band, and the vertical component is negated
    /// (screen convention). The center does not move.
    pub fn orbit(&mut self, delta_yaw: i64, delta_pitch: i64)
        requires
            cam_bounded(*old(self)),
            t3_bounded(v3(old(self).eye), 0x4000000),
            t3_bounded(v3(old(self).center), 0x4000000),
            fx_abs(delta_yaw as int) <= 0x400000000000,
            fx_abs(delta_pitch as int) <= 0x400000000000,
        ensures
            cam_bounded(*final(self)),
            v3(final(self).eye) == orbit_eye_spec(
                v3(old(self).eye),
                v3(old(self).center),
                delta_yaw as int,
                delta_pitch as int,
            ),
            t3_bounded(v3(final(self).eye), 0x14000000),
            final(self).center == old(self).center,
            final(self).up == old(self).up,
            final(self).mode == old(self).mode,
            final(self).has_changed == true,
            final(self).is_animating == old(self).is_animating,
            final(self).anim_start_eye == old(self).anim_start_eye,
            final(self).anim_start_center == old(self).anim_start_center,
            final(self).anim_target_eye == old(self).anim_target_eye,
            final(self).anim_target_center == old(self).anim_target_center,
            final(self).anim_progress == old(self).anim_progress,
            final(self).anim_duration == old(self).anim_duration,
    {
        let rv: Vec3 = self.eye.sub(&self.center);
        proof {
            lemma_fx_mul_bound(rv.x as int, rv.x as int, 0x8000000, 0x8000000);
            lemma_fx_mul_bound(rv.y as int, rv.y as int, 0x8000000, 0x8000000);
            lemma_fx_mul_bound(rv.z as int, rv.z as int, 0x8000000, 0x8000000);
            lemma_square_nonneg(rv.x as int);
            lemma_square_nonneg(rv.z as int);
        }
        let n2: i64 = rv.norm2();
        let radius: i64 = fx_sqrt(n2);
        proof {
            lemma_sqrt_floor_upper(n2 * 65536, 0x10000000);
        }
        let yaw: i64 = fx_atan2(rv.z, rv.x);
        let xz2: i64 = fx_mul(rv.x, rv.x) + fx_mul(rv.z, rv.z);
        let radius_xz: i64 = fx_sqrt(xz2);
        let pitch: i64 = fx_atan2(-rv.y, radius_xz);
        let new_yaw: i64 = fx_emod(yaw + delta_yaw, FX_TWO_PI);
        let new_pitch: i64 = fx_clamp(pitch + delta_pitch, PITCH_MIN, PITCH_MAX);
        let ys: (i64, i64) = fx_sincos(new_yaw);
        let ps: (i64, i64) = fx_sincos(new_pitch);
        proof {
            lemma_fx_mul_bound(radius as int, ys.0 as int, 0x10000000, 65536);
            lemma_fx_mul_bound(radius as int, ys.1 as int, 0x10000000, 65536);
            lemma_fx_mul_bound(radius as int, ps.1 as int, 0x10000000, 65536);
        }
        let rc: i64 = fx_mul(radius, ys.0);
        let rs: i64 = fx_mul(radius, ys.1);
        proof {
            lemma_fx_mul_bound(rc as int, ps.0 as int, 0x10000000, 65536);
            lemma_fx_mul_bound(rs as int, ps.0 as int, 0x10000000, 65536);
        }
        let offset: Vec3 = Vec3 {
            x: fx_mul(rc, ps.0),
            y: -fx_mul(radius, ps.1),
            z: fx_mul(rs, ps.0),
        };
        self.eye = self.center.add(&offset);
        self.has_changed = true;
    }

    /// Move the eye along the eye-to-center direction: a positive delta
    /// zooms in. There is no minimum-distance stop; only a fully
    /// degenerate radius leaves the direction (and so the eye) unchanged.
    pub fn zoom(&mut self, delta: i64)
        requires
            cam_bounded(*old(self)),
            t3_bounded(v3(old(self).eye), 0x4000000),
            t3_bounded(v3(old(self).center), 0x4000000),
            fx_abs(delta as int) <= 0x2000000,
        ensures
            cam_bounded(*final(self)),
            v3(final(self).eye) == t3_add(
                v3(old(self).eye),
                t3_scale(t3_normalize(t3_sub(v3(old(self).center), v3(old(self).eye))), delta as int),
            ),
            final(self).center == old(self).center,
            final(self).up == old(self).up,
            final(self).mode == old(self).mode,
            final(self).has_changed == true,
            final(self).is_animating == old(self).is_animating,
            final(self).anim_start_eye == old(self).anim_start_eye,
            final(self).anim_start_center == old(self).anim_start_center,
            final(self).anim_target_eye == old(self).anim_target_eye,
            final(self).anim_target_center == old(self).anim_target_center,
            final(self).anim_progress == old(self).anim_progress,
            final(self).anim_duration == old(self).anim_duration,
    {
        let direction: Vec3 = self.center.sub(&self.eye).normalize();
        proof {
            lemma_fx_mul_bound(direction.x as int, delta as int, 67000, 0x2000000);
            lemma_fx_mul_bound(direction.y as int, delta as int, 67000, 0x2000000);
            lemma_fx_mul_bound(direction.z as int, delta as int, 67000, 0x2000000);
        }
        let step: Vec3 = direction.scale(delta);
        self.eye = self.eye.add(&step);
        self.has_changed = true;
    }

    /// Pan the look-at target by rotating the eye-to-center vector about
    /// the world up axis and the resulting right axis, preserving the
    /// distance from the eye.
    pub fn move_center(&mut self, direction: Vec3)
        requires
            cam_bounded(*old(self)),
            t3_bounded(v3(old(self).eye), 0x500000),
            t3_bounded(v3(old(self).center), 0x500000),
            t3_bounded(v3(direction), 0x2000000000),
        ensures
            cam_bounded(*final(self)),
            v3(final(self).center) == move_center_spec(
                v3(old(self).eye),
                v3(old(self).center),
                v3(old(self).up),
                v3(direction),
            ),
            final(self).eye == old(self).eye,
            final(self).up == old(self).up,
            final(self).mode == old(self).mode,
            final(self).has_changed == true,
            final(self).is_animating == old(self).is_animating,
            final(self).anim_start_eye == old(self).anim_start_eye,
            final(self).anim_start_center == old(self).anim_start_center,
            final(self).anim_target_eye == old(self).anim_target_eye,
            final(self).anim_target_center == old(self).anim_target_center,
            final(self).anim_progress == old(self).anim_progress,
            final(self).anim_duration == old(self).anim_duration,
    {
        let rv: Vec3 = self.center.sub(&self.eye);
        proof {
            lemma_fx_mul_bound(rv.x as int, rv.x as int, 0xA00000, 0xA00000);
            lemma_fx_mul_bound(rv.y as int, rv.y as int, 0xA00000, 0xA00000);
            lemma_fx_mul_bound(rv.z as int, rv.z as int, 0xA00000, 0xA00000);
            lemma_square_nonneg(rv.x as int);
            lemma_square_nonneg(rv.y as int);
            lemma_square_nonneg(rv.z as int);
            lemma_sqrt_floor_upper(t3_norm2(v3(rv)) * 65536, 0x8000000);
        }
        let radius: i64 = rv.magnitude();
        let angle_x: i64 = fx_mul(direction.x, 3277);
        let angle_y: i64 = fx_mul(direction.y, 3277);
        let world_up: Vec3 = Vec3 { x: 0, y: FX_ONE, z: 0 };
        let rotated: Vec3 = rotate_about_axis(&rv, angle_x, &world_up);
        proof {
            lemma_rotate_axis_bound(v3(rv), angle_x as int, v3(world_up), 0x50000);
            lemma_fx_mul_bound(rotated.x as int, self.up.z as int, 0x5F00000, 67000);
            lemma_fx_mul_bound(rotated.y as int, self.up.z as int, 0x5F00000, 67000);
            lemma_fx_mul_bound(rotated.z as int, self.up.y as int, 0x5F00000, 67000);
            lemma_fx_mul_bound(rotated.x as int, self.up.y as int, 0x5F00000, 67000);
            lemma_fx_mul_bound(rotated.y as int, self.up.x as int, 0x5F00000, 67000);
            lemma_fx_mul_bound(rotated.z as int, self.up.x as int, 0x5F00000, 67000);
            lemma_fx_mul_bound(rotated.x as int, self.up.x as int, 0x5F00000, 67000);
            lemma_fx_mul_bound(rotated.y as int, self.up.y as int, 0x5F00000, 67000);
            lemma_fx_mul_bound(rotated.z as int, self.up.z as int, 0x5F00000, 67000);
        }
        let right: Vec3 = rotated.cross(&self.up).normalize();
        let final_rotated: Vec3 = rotate_about_axis(&rotated, angle_y, &right);
        let dir: Vec3 = final_rotated.normalize();
        proof {
            lemma_fx_mul_bound(dir.x as int, radius as int, 67000, 0x8000000);
            lemma_fx_mul_bound(dir.y as int, radius as int, 67000, 0x8000000);
            lemma_fx_mul_bound(dir.z as int, radius as int, 67000, 0x8000000);
        }
        let step: Vec3 = dir.scale(radius);
        self.center = self.eye.add(&step);
        self.has_changed = true;
    }
}

/// The pitch an orbit ends at lies in the pitch band — whatever the
/// starting pose and however large the requested change. Because every
/// call clamps the recomputed pitch, repeated calls can never push the
/// pitch past the band either.
pub proof fn lemma_orbit_pitch_band(eye: (int, int, int), center: (int, int, int), dpitch: int)
    ensures
        -96390 <= orbit_pitch_spec(eye, center, dpitch) <= 96390,
{
}

/// The two-sided error of a squared fixed-point product against the
/// exact squared product.
#[verifier::rlimit(50)]
proof fn lemma_fxm_sq_bounds(a: int, b: int)
    ensures
        fx_mul_spec(a, b) * fx_mul_spec(a, b) * (65536 * 65536) <= (a * a) * (b * b),
        fx_mul_spec(a, b) * fx_mul_spec(a, b) * (65536 * 65536) >= (a * a) * (b * b) - 2 * 65536
            * (fx_abs(a) * fx_abs(b)),
        fx_abs(fx_mul_spec(a, b)) * 65536 <= fx_abs(a) * fx_abs(b),
{
    let m = fx_mul_spec(a, b);
    let am = fx_abs(a * b);
    lemma_tdiv_abs_mul_le(a * b, 65536);
    lemma_fundamental_div_mod(am, 65536);
    lemma_div_pos_is_pos(am, 65536);
    if a * b < 0 {
        lemma_div_pos_is_pos(-(a * b), 65536);
    }
    assert(fx_abs(m) == am / 65536);
    assert(fx_abs(m) * 65536 >= am - 65535);
    assert(am == fx_abs(a) * fx_abs(b)) by (nonlinear_arith)
        requires
            am == fx_abs(a * b),
            fx_abs(a * b) == if a * b >= 0 { a * b } else { -(a * b) },
            fx_abs(a) == if a >= 0 { a } else { -a },
            fx_abs(b) == if b >= 0 { b } else { -b },
    ;
    let mu = fx_abs(m) * 65536;
    assert(m * m * (65536 * 65536) == mu * mu) by (nonlinear_arith)
        requires
            mu == fx_abs(m) * 65536,
            fx_abs(m) == if m >= 0 { m } else { -m },
    ;
    assert(mu * mu <= am * am) by (nonlinear_arith)
        requires
            0 <= mu,
            mu <= am,
    ;
    assert(am * am == (a * a) * (b * b)) by (nonlinear_arith)
        requires
            am == fx_abs(a) * fx_abs(b),
            fx_abs(a) == if a >= 0 { a } else { -a },
            fx_abs(b) == if b >= 0 { b } else { -b },
    ;
    if am >= 65536 {
        assert(mu * mu >= (am - 65536) * (am - 65536)) by (nonlinear_arith)
            requires
                mu >= am - 65536,
                am - 65536 >= 0,
        ;
        assert((am - 65536) * (am - 65536) >= am * am - 2 * 65536 * am) by (nonlinear_arith);
    } else {
        assert(am * am - 2 * 65536 * am <= 0) by (nonlinear_arith)
            requires
                0 <= am,
                am < 65536,
        ;
        assert(mu * mu >= 0) by (nonlinear_arith);
    }
}

/// Orbiting preserves the squared distance of the eye from the center:
/// never upward, and downward by at most six parts in `2^16` of the
/// squared radius plus a dozen rounding units of the radius — for every
/// starting pose and every pair of deltas.
#[verifier::rlimit(80)]
pub proof fn lemma_orbit_preserves_radius(
    eye: (int, int, int),
    center: (int, int, int),
    dyaw: int,
    dpitch: int,
)
    ensures
        ({
            let rv = t3_sub(eye, center);
            let n_old = t3_norm2(rv);
            let rv2 = t3_sub(orbit_eye_spec(eye, center, dyaw, dpitch), center);
            let n_new = t3_norm2(rv2);
            let r = fx_sqrt_spec(n_old);
            &&& n_new <= n_old
            &&& (n_old - n_new) * (65536 * 65536) <= 6 * (r * r) + 12 * 65536 * r + 4 * (65536
                * 65536)
        }),
{
    let u: int = 65536;
    let k: int = u * u;
    let rv = t3_sub(eye, center);
    let n_old = t3_norm2(rv);
    let ny = (fx_atan2_spec(rv.2, rv.0) + dyaw) % 411775;
    let np = orbit_pitch_spec(eye, center, dpitch);
    let c1 = fx_cos_spec(ny);
    let s1 = fx_sin_spec(ny);
    let c2 = fx_cos_spec(np);
    let s2 = fx_sin_spec(np);
    crate::trig::lemma_sincos_pythagorean(ny);
    crate::trig::lemma_sincos_pythagorean(np);
    lemma_square_nonneg(rv.0);
    lemma_square_nonneg(rv.1);
    lemma_square_nonneg(rv.2);
    let r = fx_sqrt_spec(n_old);
    lemma_sqrt_floor_bounds(n_old * u);
    assert(r >= 0);
    assert(r * r <= n_old * u);
    assert(n_old * u < (r + 1) * (r + 1));
    assert((r + 1) * (r + 1) == r * r + 2 * r + 1) by (nonlinear_arith);
    let p = fx_mul_spec(r, c1);
    let x = fx_mul_spec(p, c2);
    let y = -fx_mul_spec(r, s2);
    let q = fx_mul_spec(r, s1);
    let z = fx_mul_spec(q, c2);
    let rv2 = t3_sub(orbit_eye_spec(eye, center, dyaw, dpitch), center);
    assert(rv2 == (x, y, z));
    let n_new = t3_norm2(rv2);

    lemma_fxm_sq_bounds(r, c1);
    lemma_fxm_sq_bounds(r, s1);
    lemma_fxm_sq_bounds(r, s2);
    lemma_fxm_sq_bounds(p, c2);
    lemma_fxm_sq_bounds(q, c2);

    assert(c1 * c1 >= 0) by (nonlinear_arith);
    assert(s1 * s1 >= 0) by (nonlinear_arith);
    assert(c2 * c2 >= 0) by (nonlinear_arith);
    assert(s2 * s2 >= 0) by (nonlinear_arith);
    assert(c2 * c2 <= k) by (nonlinear_arith)
        requires
            fx_abs(c2) <= 65536,
            k == 65536 * 65536,
            fx_abs(c2) == if c2 >= 0 { c2 } else { -c2 },
    ;
    assert(r * r >= 0) by (nonlinear_arith)
        requires
            r >= 0,
    ;
    assert(y * y == fx_mul_spec(r, s2) * fx_mul_spec(r, s2)) by (nonlinear_arith)
        requires
            y == -fx_mul_spec(r, s2),
    ;

    // upper bound
    assert(p * p * k <= (r * r) * (c1 * c1));
    assert(x * x * k <= (p * p) * (c2 * c2));
    assert(x * x * k * k <= (p * p) * (c2 * c2) * k) by (nonlinear_arith)
        requires
            x * x * k <= (p * p) * (c2 * c2),
            k > 0,
    ;
    assert((p * p) * (c2 * c2) * k == (p * p * k) * (c2 * c2)) by (nonlinear_arith);
    assert((p * p * k) * (c2 * c2) <= ((r * r) * (c1 * c1)) * (c2 * c2)) by (nonlinear_arith)
        requires
            p * p * k <= (r * r) * (c1 * c1),
            c2 * c2 >= 0,
    ;
    assert(x * x * k * k <= ((r * r) * (c1 * c1)) * (c2 * c2));
    assert(q * q * k <= (r * r) * (s1 * s1));
    assert(z * z * k <= (q * q) * (c2 * c2));
    assert(z * z * k * k <= (q * q) * (c2 * c2) * k) by (nonlinear_arith)
        requires
            z * z * k <= (q * q) * (c2 * c2),
            k > 0,
    ;
    assert((q * q) * (c2 * c2) * k == (q * q * k) * (c2 * c2)) by (nonlinear_arith);
    assert((q * q * k) * (c2 * c2) <= ((r * r) * (s1 * s1)) * (c2 * c2)) by (nonlinear_arith)
        requires
            q * q * k <= (r * r) * (s1 * s1),
            c2 * c2 >= 0,
    ;
    assert(z * z * k * k <= ((r * r) * (s1 * s1)) * (c2 * c2));
    assert(y * y * k <= (r * r) * (s2 * s2));
    assert(y * y * k * k <= (r * r) * (s2 * s2) * k) by (nonlinear_arith)
        requires
            y * y * k <= (r * r) * (s2 * s2),
            k > 0,
    ;
    assert(((r * r) * (c1 * c1)) * (c2 * c2) + ((r * r) * (s1 * s1)) * (c2 * c2) == (r * r) * (c2
        * c2) * (c1 * c1 + s1 * s1)) by (nonlinear_arith);
    assert((r * r) * (c2 * c2) * (c1 * c1 + s1 * s1) <= (r * r) * (c2 * c2) * k)
        by (nonlinear_arith)
        requires
            c1 * c1 + s1 * s1 <= k,
            r * r >= 0,
            c2 * c2 >= 0,
    ;
    assert((r * r) * (s2 * s2) * k + (r * r) * (c2 * c2) * k == (r * r) * k * (c2 * c2 + s2 * s2))
        by (nonlinear_arith);
    assert((r * r) * k * (c2 * c2 + s2 * s2) <= (r * r) * k * k) by (nonlinear_arith)
        requires
            c2 * c2 + s2 * s2 <= k,
            r * r >= 0,
            k > 0,
    ;
    assert((x * x + y * y + z * z) * (k * k) == x * x * k * k + y * y * k * k + z * z * k * k)
        by (nonlinear_arith);
    assert((r * r) * (c2 * c2) * k <= (r * r) * (c2 * c2) * k);
    assert(x * x * k * k + y * y * k * k + z * z * k * k <= (r * r) * k * k) by (nonlinear_arith)
        requires
            x * x * k * k <= ((r * r) * (c1 * c1)) * (c2 * c2),
            z * z * k * k <= ((r * r) * (s1 * s1)) * (c2 * c2),
            y * y * k * k <= (r * r) * (s2 * s2) * k,
            ((r * r) * (c1 * c1)) * (c2 * c2) + ((r * r) * (s1 * s1)) * (c2 * c2) <= (r * r) * (c2
                * c2) * k,
            (r * r) * (s2 * s2) * k + (r * r) * (c2 * c2) * k <= (r * r) * k * k,
    ;
    assert((r * r) * k * k == (r * r) * (k * k)) by (nonlinear_arith);
    assert((x * x + y * y + z * z) * (k * k) <= (r * r) * (k * k));
    assert(x * x + y * y + z * z <= r * r) by (nonlinear_arith)
        requires
            (x * x + y * y + z * z) * (k * k) <= (r * r) * (k * k),
            k * k > 0,
    ;

    lemma_tdiv_abs_mul_le(x * x, 65536);
    lemma_tdiv_abs_mul_le(y * y, 65536);
    lemma_tdiv_abs_mul_le(z * z, 65536);
    lemma_square_nonneg(x);
    lemma_square_nonneg(y);
    lemma_square_nonneg(z);
    assert(n_new * u <= x * x + y * y + z * z);
    assert(n_new * u <= n_old * u);
    assert(n_new <= n_old);

    // lower bound
    assert(fx_abs(r) == r);
    assert(p * p * k >= (r * r) * (c1 * c1) - 2 * u * (r * fx_abs(c1)));
    assert(r * fx_abs(c1) <= r * u) by (nonlinear_arith)
        requires
            fx_abs(c1) <= u,
            r >= 0,
    ;
    assert(2 * u * (r * fx_abs(c1)) <= 2 * k * r) by (nonlinear_arith)
        requires
            r * fx_abs(c1) <= r * u,
            k == u * u,
            u > 0,
    ;
    assert(p * p * k >= (r * r) * (c1 * c1) - 2 * k * r);
    assert(fx_abs(p) * u <= r * fx_abs(c1));
    assert(fx_abs(p) <= r) by (nonlinear_arith)
        requires
            fx_abs(p) * u <= r * fx_abs(c1),
            r * fx_abs(c1) <= r * u,
            u > 0,
            fx_abs(p) >= 0,
    ;
    assert(x * x * k >= (p * p) * (c2 * c2) - 2 * u * (fx_abs(p) * fx_abs(c2)));
    assert(2 * u * (fx_abs(p) * fx_abs(c2)) <= 2 * k * r) by (nonlinear_arith)
        requires
            fx_abs(p) <= r,
            fx_abs(c2) <= u,
            fx_abs(p) >= 0,
            fx_abs(c2) >= 0,
            r >= 0,
            k == u * u,
            u > 0,
    ;
    assert(x * x * k >= (p * p) * (c2 * c2) - 2 * k * r);
    assert(x * x * k * k >= (p * p) * (c2 * c2) * k - 2 * k * r * k) by (nonlinear_arith)
        requires
            x * x * k >= (p * p) * (c2 * c2) - 2 * k * r,
            k > 0,
    ;
    assert((p * p) * (c2 * c2) * k >= ((r * r) * (c1 * c1) - 2 * k * r) * (c2 * c2))
        by (nonlinear_arith)
        requires
            p * p * k >= (r * r) * (c1 * c1) - 2 * k * r,
            c2 * c2 >= 0,
    ;
    assert(((r * r) * (c1 * c1) - 2 * k * r) * (c2 * c2) >= ((r * r) * (c1 * c1)) * (c2 * c2) - 2
        * k * r * k) by (nonlinear_arith)
        requires
            c2 * c2 <= k,
            c2 * c2 >= 0,
            r >= 0,
            k > 0,
    ;
    assert(2 * k * r * k + 2 * k * r * k == 4 * (k * k) * r) by (nonlinear_arith);
    assert(x * x * k * k >= ((r * r) * (c1 * c1)) * (c2 * c2) - 4 * (k * k) * r);
    // z over s1
    assert(q * q * k >= (r * r) * (s1 * s1) - 2 * u * (r * fx_abs(s1)));
    assert(r * fx_abs(s1) <= r * u) by (nonlinear_arith)
        requires
            fx_abs(s1) <= u,
            r >= 0,
    ;
    assert(2 * u * (r * fx_abs(s1)) <= 2 * k * r) by (nonlinear_arith)
        requires
            r * fx_abs(s1) <= r * u,
            k == u * u,
            u > 0,
    ;
    assert(q * q * k >= (r * r) * (s1 * s1) - 2 * k * r);
    assert(fx_abs(q) * u <= r * fx_abs(s1));
    assert(fx_abs(q) <= r) by (nonlinear_arith)
        requires
            fx_abs(q) * u <= r * fx_abs(s1),
            r * fx_abs(s1) <= r * u,
            u > 0,
            fx_abs(q) >= 0,
    ;
    assert(z * z * k >= (q * q) * (c2 * c2) - 2 * u * (fx_abs(q) * fx_abs(c2)));
    assert(2 * u * (fx_abs(q) * fx_abs(c2)) <= 2 * k * r) by (nonlinear_arith)
        requires
            fx_abs(q) <= r,
            fx_abs(c2) <= u,
            fx_abs(q) >= 0,
            fx_abs(c2) >= 0,
            r >= 0,
            k == u * u,
            u > 0,
    ;
    assert(z * z * k >= (q * q) * (c2 * c2) - 2 * k * r);
    assert(z * z * k * k >= (q * q) * (c2 * c2) * k - 2 * k * r * k) by (nonlinear_arith)
        requires
            z * z * k >= (q * q) * (c2 * c2) - 2 * k * r,
            k > 0,
    ;
    assert((q * q) * (c2 * c2) * k >= ((r * r) * (s1 * s1) - 2 * k * r) * (c2 * c2))
        by (nonlinear_arith)
        requires
            q * q * k >= (r * r) * (s1 * s1) - 2 * k * r,
            c2 * c2 >= 0,
    ;
    assert(((r * r) * (s1 * s1) - 2 * k * r) * (c2 * c2) >= ((r * r) * (s1 * s1)) * (c2 * c2) - 2
        * k * r * k) by (nonlinear_arith)
        requires
            c2 * c2 <= k,
            c2 * c2 >= 0,
            r >= 0,
            k > 0,
    ;
    assert(z * z * k * k >= ((r * r) * (s1 * s1)) * (c2 * c2) - 4 * (k * k) * r);
    // y over s2
    assert(y * y * k >= (r * r) * (s2 * s2) - 2 * u * (r * fx_abs(s2)));
    assert(r * fx_abs(s2) <= r * u) by (nonlinear_arith)
        requires
            fx_abs(s2) <= u,
            r >= 0,
    ;
    assert(2 * u * (r * fx_abs(s2)) <= 2 * k * r) by (nonlinear_arith)
        requires
            r * fx_abs(s2) <= r * u,
            k == u * u,
            u > 0,
    ;
    assert(y * y * k >= (r * r) * (s2 * s2) - 2 * k * r);
    assert(y * y * k * k >= (r * r) * (s2 * s2) * k - 2 * (k * k) * r) by (nonlinear_arith)
        requires
            y * y * k >= (r * r) * (s2 * s2) - 2 * k * r,
            k > 0,
    ;
    // assemble
    assert(((r * r) * (c1 * c1)) * (c2 * c2) + ((r * r) * (s1 * s1)) * (c2 * c2) >= ((r * r) * (c2
        * c2)) * (k - 3 * u)) by (nonlinear_arith)
        requires
            c1 * c1 + s1 * s1 > k - 2 * u - 1,
            r * r >= 0,
            c2 * c2 >= 0,
            k == u * u,
            u == 65536,
    ;
    assert(((r * r) * (c2 * c2)) * (k - 3 * u) >= ((r * r) * (c2 * c2)) * k - 3 * u * (r * r) * k)
        by (nonlinear_arith)
        requires
            r * r >= 0,
            c2 * c2 >= 0,
            c2 * c2 <= k,
            k == u * u,
            u > 0,
    ;
    assert(x * x * k * k + z * z * k * k >= ((r * r) * (c2 * c2)) * k - 3 * u * (r * r) * k - 8
        * (k * k) * r) by (nonlinear_arith)
        requires
            x * x * k * k >= ((r * r) * (c1 * c1)) * (c2 * c2) - 4 * (k * k) * r,
            z * z * k * k >= ((r * r) * (s1 * s1)) * (c2 * c2) - 4 * (k * k) * r,
            ((r * r) * (c1 * c1)) * (c2 * c2) + ((r * r) * (s1 * s1)) * (c2 * c2) >= ((r * r) * (
            c2 * c2)) * (k - 3 * u),
            ((r * r) * (c2 * c2)) * (k - 3 * u) >= ((r * r) * (c2 * c2)) * k - 3 * u * (r * r)
                * k,
    ;
    assert(((r * r) * (c2 * c2)) * k + (r * r) * (s2 * s2) * k >= ((r * r) * k) * (k - 3 * u))
        by (nonlinear_arith)
        requires
            c2 * c2 + s2 * s2 > k - 2 * u - 1,
            r * r >= 0,
            k == u * u,
            u == 65536,
    ;
    assert(((r * r) * k) * (k - 3 * u) == (r * r) * (k * k) - 3 * u * (r * r) * k)
        by (nonlinear_arith);
    assert(x * x * k * k + y * y * k * k + z * z * k * k >= (r * r) * (k * k) - 6 * u * (r * r)
        * k - 10 * (k * k) * r) by (nonlinear_arith)
        requires
            x * x * k * k + z * z * k * k >= ((r * r) * (c2 * c2)) * k - 3 * u * (r * r) * k - 8
                * (k * k) * r,
            y * y * k * k >= (r * r) * (s2 * s2) * k - 2 * (k * k) * r,
            ((r * r) * (c2 * c2)) * k + (r * r) * (s2 * s2) * k >= ((r * r) * k) * (k - 3 * u),
            ((r * r) * k) * (k - 3 * u) == (r * r) * (k * k) - 3 * u * (r * r) * k,
    ;
    assert((x * x + y * y + z * z) * (k * k) >= (r * r) * (k * k) - 6 * u * (r * r) * k - 10 * (k
        * k) * r);

    lemma_fundamental_div_mod(x * x, 65536);
    lemma_fundamental_div_mod(y * y, 65536);
    lemma_fundamental_div_mod(z * z, 65536);
    lemma_div_pos_is_pos(x * x, 65536);
    lemma_div_pos_is_pos(y * y, 65536);
    lemma_div_pos_is_pos(z * z, 65536);
    assert(n_new * u >= x * x + y * y + z * z - 3 * u);
    assert(n_new * u * (k * k) >= (x * x + y * y + z * z) * (k * k) - 3 * u * (k * k))
        by (nonlinear_arith)
        requires
            n_new * u >= x * x + y * y + z * z - 3 * u,
            k > 0,
    ;
    assert(r * r >= n_old * u - 2 * r - 1);
    assert((r * r) * (k * k) >= (n_old * u - 2 * r - 1) * (k * k)) by (nonlinear_arith)
        requires
            r * r >= n_old * u - 2 * r - 1,
            k > 0,
    ;
    assert(n_new * u * (k * k) >= (n_old * u - 2 * r - 1) * (k * k) - 6 * u * (r * r) * k - 10 * (
    k * k) * r - 3 * u * (k * k));
    assert((n_old - n_new) * k <= 6 * (r * r) + 12 * r * u + 4 * u * u) by (nonlinear_arith)
        requires
            n_new * u * (k * k) >= (n_old * u - 2 * r - 1) * (k * k) - 6 * u * (r * r) * k - 10 * (
            k * k) * r - 3 * u * (k * k),
            k == u * u,
            u == 65536,
            r >= 0,
    ;
    assert((n_old - n_new) * (65536 * 65536) <= 6 * (r * r) + 12 * 65536 * r + 4 * (65536
        * 65536)) by (nonlinear_arith)
        requires
            (n_old - n_new) * k <= 6 * (r * r) + 12 * r * u + 4 * u * u,
            k == u * u,
            u == 65536,
    ;
}

/// Once the accumulated progress of a warp reaches one — in particular
/// after any single tick at least as long as the whole duration — the pose
/// is exactly the target pose and the animation is over.
pub proof fn lemma_warp_completion(
    s_eye: (int, int, int),
    g_eye: (int, int, int),
    p0: int,
    dt: int,
    dur: int,
)
    requires
        0 <= p0,
        0 < dur <= dt,
    ensures
        progress_after_spec(p0, dt, dur) == 65536,
        smooth_step_spec(progress_after_spec(p0, dt, dur)) == 65536,
        t3_lerp(s_eye, g_eye, smooth_step_spec(progress_after_spec(p0, dt, dur))) == g_eye,
{
    lemma_fx_div_ge_one(dt, dur);
    lemma_smoothstep_one();
    lemma_lerp1_range(s_eye.0, g_eye.0, 65536);
    lemma_lerp1_range(s_eye.1, g_eye.1, 65536);
    lemma_lerp1_range(s_eye.2, g_eye.2, 65536);
}

/// At half progress the ease is exactly one half — its fixed point — so
/// the pose is exactly the halfway blend of start and target; on even
/// coordinate differences that blend is `start + (target - start) / 2`
/// exactly.
pub proof fn lemma_update_midpoint(a: int, b: int)
    requires
        (b - a) % 2 == 0,
    ensures
        smooth_step_spec(32768) == 32768,
        lerp1_spec(a, b, 32768) == a + (b - a) / 2,
{
    lemma_smoothstep_half();
    let m = b - a;
    let k = m / 2;
    vstd::arithmetic::div_mod::lemma_fundamental_div_mod(m, 2);
    assert(m == 2 * k);
    assert(m * 32768 == 65536 * k);
    if k >= 0 {
        lemma_div_multiples_vanish(k, 65536);
        assert(m * 32768 >= 0);
    } else {
        lemma_div_multiples_vanish(-k, 65536);
        assert(-(m * 32768) == 65536 * (-k));
        assert(m * 32768 < 0);
    }
}

} // verus!
