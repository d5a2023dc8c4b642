//! Homogeneous 4x4 fixed-point matrices and the model / view /
//! projection / viewport builders of the transform pipeline.

use vstd::prelude::*;
use crate::fx::{
    fx_abs, fx_mul_spec, fx_div_spec, tdiv, fx_mul, fx_div, tdiv_exec, lemma_fx_mul_bound,
    lemma_fx_mul_unit, FX_ONE,
};
use crate::trig::{fx_sin, fx_cos, fx_sin_spec, fx_cos_spec, lemma_sincos_zero};
use crate::vec3::{Vec3, v3, t3_bounded, t3_sub, t3_cross, t3_dot, t3_normalize};

verus! {

/// A 4x4 matrix of raw fixed-point entries, row major.
#[derive(Clone, Copy, Debug, PartialEq, Eq, Structural)]
pub struct Mat4 {
    pub m00: i64, pub m01: i64, pub m02: i64, pub m03: i64,
    pub m10: i64, pub m11: i64, pub m12: i64, pub m13: i64,
    pub m20: i64, pub m21: i64, pub m22: i64, pub m23: i64,
    pub m30: i64, pub m31: i64, pub m32: i64, pub m33: i64,
}

/// The mathematical view of a matrix: its sixteen entries, row major.
pub open spec fn m4(a: Mat4) -> Seq<int> {
    seq![
        a.m00 as int, a.m01 as int, a.m02 as int, a.m03 as int,
        a.m10 as int, a.m11 as int, a.m12 as int, a.m13 as int,
        a.m20 as int, a.m21 as int, a.m22 as int, a.m23 as int,
        a.m30 as int, a.m31 as int, a.m32 as int, a.m33 as int,
    ]
}

/// All sixteen entries bounded in magnitude by `m`.
pub open spec fn m4_bounded(s: Seq<int>, m: int) -> bool {
    &&& s.len() == 16
    &&& fx_abs(s[0]) <= m && fx_abs(s[1]) <= m && fx_abs(s[2]) <= m && fx_abs(s[3]) <= m
    &&& fx_abs(s[4]) <= m && fx_abs(s[5]) <= m && fx_abs(s[6]) <= m && fx_abs(s[7]) <= m
    &&& fx_abs(s[8]) <= m && fx_abs(s[9]) <= m && fx_abs(s[10]) <= m && fx_abs(s[11]) <= m
    &&& fx_abs(s[12]) <= m && fx_abs(s[13]) <= m && fx_abs(s[14]) <= m && fx_abs(s[15]) <= m
}

/// One row-by-column entry of a matrix product.
pub open spec fn rc_spec(a0: int, a1: int, a2: int, a3: int, b0: int, b1: int, b2: int, b3: int) -> int {
    fx_mul_spec(a0, b0) + fx_mul_spec(a1, b1) + fx_mul_spec(a2, b2) + fx_mul_spec(a3, b3)
}

/// The matrix product, row major.
pub open spec fn mat4_mul_spec(a: Seq<int>, b: Seq<int>) -> Seq<int> {
    seq![
        rc_spec(a[0], a[1], a[2], a[3], b[0], b[4], b[8], b[12]),
        rc_spec(a[0], a[1], a[2], a[3], b[1], b[5], b[9], b[13]),
        rc_spec(a[0], a[1], a[2], a[3], b[2], b[6], b[10], b[14]),
        rc_spec(a[0], a[1], a[2], a[3], b[3], b[7], b[11], b[15]),
        rc_spec(a[4], a[5], a[6], a[7], b[0], b[4], b[8], b[12]),
        rc_spec(a[4], a[5], a[6], a[7], b[1], b[5], b[9], b[13]),
        rc_spec(a[4], a[5], a[6], a[7], b[2], b[6], b[10], b[14]),
        rc_spec(a[4], a[5], a[6], a[7], b[3], b[7], b[11], b[15]),
        rc_spec(a[8], a[9], a[10], a[11], b[0], b[4], b[8], b[12]),
        rc_spec(a[8], a[9], a[10], a[11], b[1], b[5], b[9], b[13]),
        rc_spec(a[8], a[9], a[10], a[11], b[2], b[6], b[10], b[14]),
        rc_spec(a[8], a[9], a[10], a[11], b[3], b[7], b[11], b[15]),
        rc_spec(a[12], a[13], a[14], a[15], b[0], b[4], b[8], b[12]),
        rc_spec(a[12], a[13], a[14], a[15], b[1], b[5], b[9], b[13]),
        rc_spec(a[12], a[13], a[14], a[15], b[2], b[6], b[10], b[14]),
        rc_spec(a[12], a[13], a[14], a[15], b[3], b[7], b[11], b[15]),
    ]
}

/// One row-by-column entry.
pub(crate) fn rc(a0: i64, a1: i64, a2: i64, a3: i64, b0: i64, b1: i64, b2: i64, b3: i64) -> (r: i64)
    requires
        fx_abs(a0 as int) <= 0x2000000000,
        fx_abs(a1 as int) <= 0x2000000000,
        fx_abs(a2 as int) <= 0x2000000000,
        fx_abs(a3 as int) <= 0x2000000000,
        fx_abs(b0 as int) <= 0x2000000000,
        fx_abs(b1 as int) <= 0x2000000000,
        fx_abs(b2 as int) <= 0x2000000000,
        fx_abs(b3 as int) <= 0x2000000000,
    ensures
        r == rc_spec(a0 as int, a1 as int, a2 as int, a3 as int, b0 as int, b1 as int, b2 as int, b3 as int),
{
    proof {
        lemma_fx_mul_bound(a0 as int, b0 as int, 0x2000000000, 0x2000000000);
        lemma_fx_mul_bound(a1 as int, b1 as int, 0x2000000000, 0x2000000000);
        lemma_fx_mul_bound(a2 as int, b2 as int, 0x2000000000, 0x2000000000);
        lemma_fx_mul_bound(a3 as int, b3 as int, 0x2000000000, 0x2000000000);
    }
    fx_mul(a0, b0) + fx_mul(a1, b1) + fx_mul(a2, b2) + fx_mul(a3, b3)
}

/// The product of two matrices.
pub fn mat4_mul(a: &Mat4, b: &Mat4) -> (r: Mat4)
    requires
        m4_bounded(m4(*a), 0x2000000000),
        m4_bounded(m4(*b), 0x2000000000),
    ensures
        m4(r) == mat4_mul_spec(m4(*a), m4(*b)),
{
    let r = Mat4 {
        m00: rc(a.m00, a.m01, a.m02, a.m03, b.m00, b.m10, b.m20, b.m30),
        m01: rc(a.m00, a.m01, a.m02, a.m03, b.m01, b.m11, b.m21, b.m31),
        m02: rc(a.m00, a.m01, a.m02, a.m03, b.m02, b.m12, b.m22, b.m32),
        m03: rc(a.m00, a.m01, a.m02, a.m03, b.m03, b.m13, b.m23, b.m33),
        m10: rc(a.m10, a.m11, a.m12, a.m13, b.m00, b.m10, b.m20, b.m30),
        m11: rc(a.m10, a.m11, a.m12, a.m13, b.m01, b.m11, b.m21, b.m31),
        m12: rc(a.m10, a.m11, a.m12, a.m13, b.m02, b.m12, b.m22, b.m32),
        m13: rc(a.m10, a.m11, a.m12, a.m13, b.m03, b.m13, b.m23, b.m33),
        m20: rc(a.m20, a.m21, a.m22, a.m23, b.m00, b.m10, b.m20, b.m30),
        m21: rc(a.m20, a.m21, a.m22, a.m23, b.m01, b.m11, b.m21, b.m31),
        m22: rc(a.m20, a.m21, a.m22, a.m23, b.m02, b.m12, b.m22, b.m32),
        m23: rc(a.m20, a.m21, a.m22, a.m23, b.m03, b.m13, b.m23, b.m33),
        m30: rc(a.m30, a.m31, a.m32, a.m33, b.m00, b.m10, b.m20, b.m30),
        m31: rc(a.m30, a.m31, a.m32, a.m33, b.m01, b.m11, b.m21, b.m31),
        m32: rc(a.m30, a.m31, a.m32, a.m33, b.m02, b.m12, b.m22, b.m32),
        m33: rc(a.m30, a.m31, a.m32, a.m33, b.m03, b.m13, b.m23, b.m33),
    };
    proof {
        assert(m4(r) =~= mat4_mul_spec(m4(*a), m4(*b)));
    }
    r
}

/// The elementary rotation about the x axis.
pub open spec fn rot_x_spec(angle: int) -> Seq<int> {
    let c = fx_cos_spec(angle);
    let s = fx_sin_spec(angle);
    seq![
        65536, 0, 0, 0,
        0, c, -s, 0,
        0, s, c, 0,
        0, 0, 0, 65536,
    ]
}

/// The elementary rotation about the y axis.
pub open spec fn rot_y_spec(angle: int) -> Seq<int> {
    let c = fx_cos_spec(angle);
    let s = fx_sin_spec(angle);
    seq![
        c, 0, s, 0,
        0, 65536, 0, 0,
        -s, 0, c, 0,
        0, 0, 0, 65536,
    ]
}

/// The elementary rotation about the z axis.
pub open spec fn rot_z_spec(angle: int) -> Seq<int> {
    let c = fx_cos_spec(angle);
    let s = fx_sin_spec(angle);
    seq![
        c, -s, 0, 0,
        s, c, 0, 0,
        0, 0, 65536, 0,
        0, 0, 0, 65536,
    ]
}

/// The combined uniform-scale and translation matrix.
pub open spec fn scale_translate_spec(t: (int, int, int), scale: int) -> Seq<int> {
    seq![
        scale, 0, 0, t.0,
        0, scale, 0, t.1,
        0, 0, scale, t.2,
        0, 0, 0, 65536,
    ]
}

/// The model matrix: rotation about x, then y, then z, composed as
/// `Rz * Ry * Rx`, then scaled and translated.
pub open spec fn model_matrix_spec(t: (int, int, int), scale: int, rotation: (int, int, int)) -> Seq<int> {
    let rot = mat4_mul_spec(
        mat4_mul_spec(rot_z_spec(rotation.2), rot_y_spec(rotation.1)),
        rot_x_spec(rotation.0),
    );
    mat4_mul_spec(scale_translate_spec(t, scale), rot)
}

/// Build the model matrix from translation, uniform scale, and Euler
/// rotation angles. With zero rotation and unit scale it is exactly the
/// pure translation matrix.
pub fn create_model_matrix(translation: Vec3, scale: i64, rotation: Vec3) -> (r: Mat4)
    requires
        t3_bounded(v3(translation), 0x1000000000),
        fx_abs(scale as int) <= 0x1000000000,
    ensures
        m4(r) == model_matrix_spec(v3(translation), scale as int, v3(rotation)),
        (v3(rotation) == (0int, 0int, 0int) && scale == 65536) ==> m4(r)
            == scale_translate_spec(v3(translation), 65536),
{
    let sx: i64 = fx_sin(rotation.x);
    let cx: i64 = fx_cos(rotation.x);
    let sy: i64 = fx_sin(rotation.y);
    let cy: i64 = fx_cos(rotation.y);
    let sz: i64 = fx_sin(rotation.z);
    let cz: i64 = fx_cos(rotation.z);
    let rx = Mat4 {
        m00: FX_ONE, m01: 0, m02: 0, m03: 0,
        m10: 0, m11: cx, m12: -sx, m13: 0,
        m20: 0, m21: sx, m22: cx, m23: 0,
        m30: 0, m31: 0, m32: 0, m33: FX_ONE,
    };
    let ry = Mat4 {
        m00: cy, m01: 0, m02: sy, m03: 0,
        m10: 0, m11: FX_ONE, m12: 0, m13: 0,
        m20: -sy, m21: 0, m22: cy, m23: 0,
        m30: 0, m31: 0, m32: 0, m33: FX_ONE,
    };
    let rz = Mat4 {
        m00: cz, m01: -sz, m02: 0, m03: 0,
        m10: sz, m11: cz, m12: 0, m13: 0,
        m20: 0, m21: 0, m22: FX_ONE, m23: 0,
        m30: 0, m31: 0, m32: 0, m33: FX_ONE,
    };
    proof {
        assert(m4(rx) =~= rot_x_spec(rotation.x as int));
        assert(m4(ry) =~= rot_y_spec(rotation.y as int));
        assert(m4(rz) =~= rot_z_spec(rotation.z as int));
    }
    let rot_zy: Mat4 = mat4_mul(&rz, &ry);
    proof {
        lemma_mul_entries_bounded(m4(rz), m4(ry), 65536);
    }
    let rot: Mat4 = mat4_mul(&rot_zy, &rx);
    proof {
        lemma_mul_entries_bounded(m4(rot_zy), m4(rx), 262144);
    }
    let st = Mat4 {
        m00: scale, m01: 0, m02: 0, m03: translation.x,
        m10: 0, m11: scale, m12: 0, m13: translation.y,
        m20: 0, m21: 0, m22: scale, m23: translation.z,
        m30: 0, m31: 0, m32: 0, m33: FX_ONE,
    };
    proof {
        assert(m4(st) =~= scale_translate_spec(v3(translation), scale as int));
    }
    let r: Mat4 = mat4_mul(&st, &rot);
    proof {
        if v3(rotation) == (0int, 0int, 0int) && scale == 65536 {
            lemma_sincos_zero();
            lemma_model_identity_entries(m4(rz), m4(ry), m4(rx), m4(st), v3(translation));
        }
    }
    r
}

/// With a bound `m` on one factor's entries and a bound of one unit on
/// the other's, product entries stay within `4 * m`.
proof fn lemma_mul_entries_bounded(a: Seq<int>, b: Seq<int>, m: int)
    requires
        0 <= m,
        m4_bounded(a, m),
        m4_bounded(b, 65536),
    ensures
        m4_bounded(mat4_mul_spec(a, b), 4 * m),
{
    lemma_rc_bounded(a[0], a[1], a[2], a[3], b[0], b[4], b[8], b[12], m);
    lemma_rc_bounded(a[0], a[1], a[2], a[3], b[1], b[5], b[9], b[13], m);
    lemma_rc_bounded(a[0], a[1], a[2], a[3], b[2], b[6], b[10], b[14], m);
    lemma_rc_bounded(a[0], a[1], a[2], a[3], b[3], b[7], b[11], b[15], m);
    lemma_rc_bounded(a[4], a[5], a[6], a[7], b[0], b[4], b[8], b[12], m);
    lemma_rc_bounded(a[4], a[5], a[6], a[7], b[1], b[5], b[9], b[13], m);
    lemma_rc_bounded(a[4], a[5], a[6], a[7], b[2], b[6], b[10], b[14], m);
    lemma_rc_bounded(a[4], a[5], a[6], a[7], b[3], b[7], b[11], b[15], m);
    lemma_rc_bounded(a[8], a[9], a[10], a[11], b[0], b[4], b[8], b[12], m);
    lemma_rc_bounded(a[8], a[9], a[10], a[11], b[1], b[5], b[9], b[13], m);
    lemma_rc_bounded(a[8], a[9], a[10], a[11], b[2], b[6], b[10], b[14], m);
    lemma_rc_bounded(a[8], a[9], a[10], a[11], b[3], b[7], b[11], b[15], m);
    lemma_rc_bounded(a[12], a[13], a[14], a[15], b[0], b[4], b[8], b[12], m);
    lemma_rc_bounded(a[12], a[13], a[14], a[15], b[1], b[5], b[9], b[13], m);
    lemma_rc_bounded(a[12], a[13], a[14], a[15], b[2], b[6], b[10], b[14], m);
    lemma_rc_bounded(a[12], a[13], a[14], a[15], b[3], b[7], b[11], b[15], m);
}

/// One product entry against the factor bounds.
proof fn lemma_rc_bounded(a0: int, a1: int, a2: int, a3: int, b0: int, b1: int, b2: int, b3: int, m: int)
    requires
        0 <= m,
        fx_abs(a0) <= m, fx_abs(a1) <= m, fx_abs(a2) <= m, fx_abs(a3) <= m,
        fx_abs(b0) <= 65536, fx_abs(b1) <= 65536, fx_abs(b2) <= 65536, fx_abs(b3) <= 65536,
    ensures
        fx_abs(rc_spec(a0, a1, a2, a3, b0, b1, b2, b3)) <= 4 * m,
{
    lemma_fx_mul_bound(a0, b0, m, 65536);
    lemma_fx_mul_bound(a1, b1, m, 65536);
    lemma_fx_mul_bound(a2, b2, m, 65536);
    lemma_fx_mul_bound(a3, b3, m, 65536);
    assert(m * 65536 == 65536 * m);
    vstd::arithmetic::div_mod::lemma_div_multiples_vanish(m, 65536);
}

/// With zero rotation angles the three elementary rotations are the
/// identity, their product is the identity, and multiplying the
/// scale-translate factor by it changes nothing.
proof fn lemma_model_identity_entries(
    rz: Seq<int>,
    ry: Seq<int>,
    rx: Seq<int>,
    st: Seq<int>,
    t: (int, int, int),
)
    requires
        rz == rot_z_spec(0),
        ry == rot_y_spec(0),
        rx == rot_x_spec(0),
        fx_sin_spec(0) == 0,
        fx_cos_spec(0) == 65536,
        st == scale_translate_spec(t, 65536),
    ensures
        mat4_mul_spec(st, mat4_mul_spec(mat4_mul_spec(rz, ry), rx)) == st,
{
    lemma_fx_mul_unit(0);
    lemma_fx_mul_unit(65536);
    lemma_fx_mul_unit(t.0);
    lemma_fx_mul_unit(t.1);
    lemma_fx_mul_unit(t.2);
    let zy = mat4_mul_spec(rz, ry);
    assert(zy =~= rot_z_spec(0));
    let rot = mat4_mul_spec(zy, rx);
    assert(rot =~= rot_z_spec(0));
    assert(mat4_mul_spec(st, rot) =~= st);
}

/// The look-at view matrix: the world-to-camera transform built from the
/// orthonormalized camera basis.
pub open spec fn view_matrix_spec(eye: (int, int, int), center: (int, int, int), up: (int, int, int)) -> Seq<int> {
    let f = t3_normalize(t3_sub(center, eye));
    let s = t3_normalize(t3_cross(f, up));
    let u = t3_cross(s, f);
    seq![
        s.0, s.1, s.2, -t3_dot(s, eye),
        u.0, u.1, u.2, -t3_dot(u, eye),
        -f.0, -f.1, -f.2, t3_dot(f, eye),
        0, 0, 0, 65536,
    ]
}

/// Build the view matrix from the camera pose.
pub fn create_view_matrix(eye: Vec3, center: Vec3, up: Vec3) -> (r: Mat4)
    requires
        t3_bounded(v3(eye), 0x4000000),
        t3_bounded(v3(center), 0x4000000),
        t3_bounded(v3(up), 67000),
    ensures
        m4(r) == view_matrix_spec(v3(eye), v3(center), v3(up)),
{
    let f: Vec3 = center.sub(&eye).normalize();
    proof {
        lemma_fx_mul_bound(f.x as int, up.y as int, 67000, 67000);
        lemma_fx_mul_bound(f.x as int, up.z as int, 67000, 67000);
        lemma_fx_mul_bound(f.y as int, up.x as int, 67000, 67000);
        lemma_fx_mul_bound(f.y as int, up.z as int, 67000, 67000);
        lemma_fx_mul_bound(f.z as int, up.x as int, 67000, 67000);
        lemma_fx_mul_bound(f.z as int, up.y as int, 67000, 67000);
    }
    let s: Vec3 = f.cross(&up).normalize();
    proof {
        lemma_fx_mul_bound(s.x as int, f.y as int, 67000, 67000);
        lemma_fx_mul_bound(s.x as int, f.z as int, 67000, 67000);
        lemma_fx_mul_bound(s.y as int, f.x as int, 67000, 67000);
        lemma_fx_mul_bound(s.y as int, f.z as int, 67000, 67000);
        lemma_fx_mul_bound(s.z as int, f.x as int, 67000, 67000);
        lemma_fx_mul_bound(s.z as int, f.y as int, 67000, 67000);
    }
    let u: Vec3 = s.cross(&f);
    proof {
        lemma_fx_mul_bound(s.x as int, eye.x as int, 67000, 0x4000000);
        lemma_fx_mul_bound(s.y as int, eye.y as int, 67000, 0x4000000);
        lemma_fx_mul_bound(s.z as int, eye.z as int, 67000, 0x4000000);
        lemma_fx_mul_bound(u.x as int, eye.x as int, 140000, 0x4000000);
        lemma_fx_mul_bound(u.y as int, eye.y as int, 140000, 0x4000000);
        lemma_fx_mul_bound(u.z as int, eye.z as int, 140000, 0x4000000);
        lemma_fx_mul_bound(f.x as int, eye.x as int, 67000, 0x4000000);
        lemma_fx_mul_bound(f.y as int, eye.y as int, 67000, 0x4000000);
        lemma_fx_mul_bound(f.z as int, eye.z as int, 67000, 0x4000000);
    }
    let r = Mat4 {
        m00: s.x, m01: s.y, m02: s.z, m03: -s.dot(&eye),
        m10: u.x, m11: u.y, m12: u.z, m13: -u.dot(&eye),
        m20: -f.x, m21: -f.y, m22: -f.z, m23: f.dot(&eye),
        m30: 0, m31: 0, m32: 0, m33: FX_ONE,
    };
    proof {
        assert(m4(r) =~= view_matrix_spec(v3(eye), v3(center), v3(up)));
    }
    r
}

/// Raw cotangent of half the fixed 45-degree vertical field of view.
pub const PERSP_F: i64 = 158218;

/// Raw `(far + near) / (far - near)` for the fixed 0.1 / 1000 frustum.
pub const PERSP_A: i64 = 65549;

/// Raw `2 * far * near / (far - near)` for the fixed frustum.
pub const PERSP_B: i64 = 13110;

/// The perspective matrix for the fixed 45-degree field of view and the
/// 0.1 / 1000 near and far planes, at the given aspect ratio.
pub open spec fn perspective_matrix_spec(width: int, height: int) -> Seq<int> {
    let aspect = fx_div_spec(width, height);
    seq![
        fx_div_spec(158218, aspect), 0, 0, 0,
        0, 158218, 0, 0,
        0, 0, -65549, -13110,
        0, 0, -65536, 0,
    ]
}

/// Build the perspective matrix from the window size (raw fixed-point
/// width and height).
pub fn create_perspective_matrix(window_width: i64, window_height: i64) -> (r: Mat4)
    requires
        0 < window_height <= 0x400000000000,
        0 < window_width <= 0x400000000000,
        fx_div_spec(window_width as int, window_height as int) != 0,
    ensures
        m4(r) == perspective_matrix_spec(window_width as int, window_height as int),
{
    let aspect: i64 = fx_div(window_width, window_height);
    let r = Mat4 {
        m00: fx_div(PERSP_F, aspect), m01: 0, m02: 0, m03: 0,
        m10: 0, m11: PERSP_F, m12: 0, m13: 0,
        m20: 0, m21: 0, m22: -PERSP_A, m23: -PERSP_B,
        m30: 0, m31: 0, m32: -FX_ONE, m33: 0,
    };
    proof {
        assert(m4(r) =~= perspective_matrix_spec(window_width as int, window_height as int));
    }
    r
}

/// The viewport matrix: normalized device coordinates to pixels, with the
/// y axis flipped and z passed through.
pub open spec fn viewport_matrix_spec(width: int, height: int) -> Seq<int> {
    seq![
        tdiv(width, 2), 0, 0, tdiv(width, 2),
        0, -tdiv(height, 2), 0, tdiv(height, 2),
        0, 0, 65536, 0,
        0, 0, 0, 65536,
    ]
}

/// Build the viewport matrix from the framebuffer size (raw fixed-point
/// width and height).
pub fn create_viewport_matrix(width: i64, height: i64) -> (r: Mat4)
    requires
        0 <= width <= 0x400000000000,
        0 <= height <= 0x400000000000,
    ensures
        m4(r) == viewport_matrix_spec(width as int, height as int),
{
    let w2: i64 = tdiv_exec(width, 2);
    let h2: i64 = tdiv_exec(height, 2);
    let r = Mat4 {
        m00: w2, m01: 0, m02: 0, m03: w2,
        m10: 0, m11: -h2, m12: 0, m13: h2,
        m20: 0, m21: 0, m22: FX_ONE, m23: 0,
        m30: 0, m31: 0, m32: 0, m33: FX_ONE,
    };
    proof {
        assert(m4(r) =~= viewport_matrix_spec(width as int, height as int));
    }
    r
}

} // verus!
