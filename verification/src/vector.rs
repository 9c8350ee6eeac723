//! Oriented glyph records: a position, a unit-ish direction, a magnitude and
//! a cached 3x3 orientation matrix derived from the direction.
//!
//! The orientation matrix maps the canonical up axis `(0, 1, 0)` onto the
//! glyph's direction: the identity when the direction already points up, a
//! fixed half-turn about the x axis when it points down, and otherwise the
//! rotation about `up x direction` through the angle between them. That last
//! rotation is computed by the Rodrigues formula written without any
//! trigonometry: `R = I + K + K^2 / (1 + up . d)` where `K` is the skew
//! matrix of `up x d`. The derivation is a pure function of the direction,
//! recomputed whole each time, so repeated recomputation cannot drift.

use crate::fixed::{
    fx_add, fx_add_s, fx_div, fx_div_s, fx_in_range, fx_mul, fx_mul_s, fx_sub, fx_sub_s, isqrt,
    isqrt_s, FX_MAX, SCALE,
};
use vstd::prelude::*;

verus! {

/// Alignment tolerance on direction components, in fixed-point units.
pub const EPS_ALIGN: i64 = 1;

/// A 2-component fixed-point vector.
#[derive(Clone, Copy, PartialEq, Eq, Structural, Debug)]
pub struct Vec2Fx {
    pub x: i64,
    pub y: i64,
}

/// A 3-component fixed-point vector.
#[derive(Clone, Copy, PartialEq, Eq, Structural, Debug)]
pub struct Vec3Fx {
    pub x: i64,
    pub y: i64,
    pub z: i64,
}

/// A 3x3 fixed-point matrix, stored as three rows.
#[derive(Clone, Copy, PartialEq, Eq, Structural, Debug)]
pub struct Mat3Fx {
    pub x: Vec3Fx,
    pub y: Vec3Fx,
    pub z: Vec3Fx,
}

/// Mathematical mirror of [`Vec3Fx`].
pub ghost struct V3 {
    pub x: int,
    pub y: int,
    pub z: int,
}

/// Mathematical mirror of [`Mat3Fx`].
pub ghost struct M3 {
    pub x: V3,
    pub y: V3,
    pub z: V3,
}

impl View for Vec3Fx {
    type V = V3;

    open spec fn view(&self) -> V3 {
        V3 { x: self.x as int, y: self.y as int, z: self.z as int }
    }
}

impl View for Mat3Fx {
    type V = M3;

    open spec fn view(&self) -> M3 {
        M3 { x: self.x@, y: self.y@, z: self.z@ }
    }
}

impl Vec3Fx {
    pub open spec fn wf(self) -> bool {
        &&& fx_in_range(self.x as int)
        &&& fx_in_range(self.y as int)
        &&& fx_in_range(self.z as int)
    }
}

/// The direction lies within the alignment tolerance of the up axis.
pub open spec fn aligned_up_s(d: V3) -> bool {
    &&& -EPS_ALIGN <= d.x <= EPS_ALIGN
    &&& -EPS_ALIGN <= d.z <= EPS_ALIGN
    &&& -EPS_ALIGN <= d.y - SCALE <= EPS_ALIGN
}

pub open spec fn identity_s() -> M3 {
    M3 {
        x: V3 { x: SCALE as int, y: 0, z: 0 },
        y: V3 { x: 0, y: SCALE as int, z: 0 },
        z: V3 { x: 0, y: 0, z: SCALE as int },
    }
}

/// A half-turn about the x axis: what the up axis needs to point down.
pub open spec fn flip_x_s() -> M3 {
    M3 {
        x: V3 { x: SCALE as int, y: 0, z: 0 },
        y: V3 { x: 0, y: -SCALE as int, z: 0 },
        z: V3 { x: 0, y: 0, z: -SCALE as int },
    }
}

/// Rodrigues rotation taking up onto `d`, for `d` not (anti-)aligned with up.
/// With `c = up x d = (d.z, 0, -d.x)` and `K = skew(c)`, the matrix is
/// `I + K + K^2 * w` where `w = 1 / (1 + up . d)`.
pub open spec fn rodrigues_s(d: V3) -> M3 {
    let w = fx_div_s(SCALE as int, fx_add_s(SCALE as int, d.y));
    let xxw = fx_mul_s(fx_mul_s(d.x, d.x), w);
    let zzw = fx_mul_s(fx_mul_s(d.z, d.z), w);
    let xzw = fx_mul_s(fx_mul_s(d.x, d.z), w);
    M3 {
        x: V3 { x: fx_sub_s(SCALE as int, xxw), y: d.x, z: -xzw },
        y: V3 { x: -d.x, y: fx_sub_s(SCALE as int, fx_add_s(xxw, zzw)), z: -d.z },
        z: V3 { x: -xzw, y: d.z, z: fx_sub_s(SCALE as int, zzw) },
    }
}

/// The orientation matrix derived from a direction.
pub open spec fn rotation_s(d: V3) -> M3 {
    if aligned_up_s(d) {
        identity_s()
    } else if fx_add_s(SCALE as int, d.y) <= EPS_ALIGN {
        flip_x_s()
    } else {
        rodrigues_s(d)
    }
}

/// The squared length of a vector, exact.
pub open spec fn len2_s(v: V3) -> int {
    v.x * v.x + v.y * v.y + v.z * v.z
}

/// Scaling of a vector to (fixed-point) unit length; the zero vector is left
/// as it is, there being no direction to keep.
pub open spec fn normalize_s(v: V3) -> V3 {
    if v.x == 0 && v.y == 0 && v.z == 0 {
        v
    } else {
        let len = isqrt_s(len2_s(v) as nat) as int;
        V3 { x: fx_div_s(v.x, len), y: fx_div_s(v.y, len), z: fx_div_s(v.z, len) }
    }
}

/// Scale a nonzero vector to unit length by its integer square-root norm.
pub fn normalize(v: Vec3Fx) -> (r: Vec3Fx)
    requires
        v.wf(),
    ensures
        r@ == normalize_s(v@),
        r.wf(),
{
    if v.x == 0 && v.y == 0 && v.z == 0 {
        return v;
    }
    proof {
        assert(0 < len2_s(v@) <= 3 * (FX_MAX as int) * (FX_MAX as int)
            && (v.x as int) * (v.x as int) <= (FX_MAX as int) * (FX_MAX as int)
            && (v.y as int) * (v.y as int) <= (FX_MAX as int) * (FX_MAX as int)
            && (v.z as int) * (v.z as int) <= (FX_MAX as int) * (FX_MAX as int))
            by (nonlinear_arith)
            requires
                v.wf(),
                !(v.x == 0 && v.y == 0 && v.z == 0),
        ;
    }
    let xx = (v.x as i128) * (v.x as i128);
    let yy = (v.y as i128) * (v.y as i128);
    let zz = (v.z as i128) * (v.z as i128);
    let n2 = xx + yy + zz;
    let len = isqrt(n2 as u128);
    proof {
        assert(1 * 1 <= len2_s(v@));
        assert(len >= 1) by (nonlinear_arith)
            requires
                (len as int) * (len as int) <= len2_s(v@) < (len as int + 1) * (len as int + 1),
                1 <= len2_s(v@),
        ;
        assert(len as int <= 2_000_000_000_000) by (nonlinear_arith)
            requires
                (len as int) * (len as int) <= 3 * (FX_MAX as int) * (FX_MAX as int),
                len >= 0,
        ;
    }
    Vec3Fx { x: fx_div(v.x, len as i64), y: fx_div(v.y, len as i64), z: fx_div(v.z, len as i64) }
}

/// Componentwise difference.
pub open spec fn sub3_s(a: V3, b: V3) -> V3 {
    V3 { x: fx_sub_s(a.x, b.x), y: fx_sub_s(a.y, b.y), z: fx_sub_s(a.z, b.z) }
}

/// The cross product, each term a saturating fixed-point product.
pub open spec fn cross_s(a: V3, b: V3) -> V3 {
    V3 {
        x: fx_sub_s(fx_mul_s(a.y, b.z), fx_mul_s(a.z, b.y)),
        y: fx_sub_s(fx_mul_s(a.z, b.x), fx_mul_s(a.x, b.z)),
        z: fx_sub_s(fx_mul_s(a.x, b.y), fx_mul_s(a.y, b.x)),
    }
}

/// The squared length computed with saturating fixed-point products.
pub open spec fn len2_fx_s(v: V3) -> int {
    fx_add_s(fx_add_s(fx_mul_s(v.x, v.x), fx_mul_s(v.y, v.y)), fx_mul_s(v.z, v.z))
}

/// Componentwise difference of two vectors.
pub fn sub3(a: Vec3Fx, b: Vec3Fx) -> (r: Vec3Fx)
    requires
        a.wf(),
        b.wf(),
    ensures
        r@ == sub3_s(a@, b@),
        r.wf(),
{
    Vec3Fx { x: fx_sub(a.x, b.x), y: fx_sub(a.y, b.y), z: fx_sub(a.z, b.z) }
}

/// The cross product of two vectors.
pub fn cross(a: Vec3Fx, b: Vec3Fx) -> (r: Vec3Fx)
    ensures
        r@ == cross_s(a@, b@),
        r.wf(),
{
    Vec3Fx {
        x: fx_sub(fx_mul(a.y, b.z), fx_mul(a.z, b.y)),
        y: fx_sub(fx_mul(a.z, b.x), fx_mul(a.x, b.z)),
        z: fx_sub(fx_mul(a.x, b.y), fx_mul(a.y, b.x)),
    }
}

/// The squared length of a vector in saturating fixed point.
pub fn len2_fx(v: Vec3Fx) -> (r: i64)
    ensures
        r as int == len2_fx_s(v@),
        fx_in_range(r as int),
{
    fx_add(fx_add(fx_mul(v.x, v.x), fx_mul(v.y, v.y)), fx_mul(v.z, v.z))
}

/// A renderable glyph: where it sits, where it points, how strongly, and the
/// orientation matrix cached from its direction.
#[derive(Clone, Copy, PartialEq, Eq, Structural, Debug)]
pub struct Vector {
    pub start: Vec3Fx,
    pub direction: Vec3Fx,
    pub magnitude: i64,
    pub rotation: Mat3Fx,
}

/// Mathematical mirror of [`Vector`].
pub ghost struct VectorV {
    pub start: V3,
    pub direction: V3,
    pub magnitude: int,
    pub rotation: M3,
}

impl View for Vector {
    type V = VectorV;

    open spec fn view(&self) -> VectorV {
        VectorV {
            start: self.start@,
            direction: self.direction@,
            magnitude: self.magnitude as int,
            rotation: self.rotation@,
        }
    }
}

/// Normalization keeps every component representable: either the zero
/// vector comes back unchanged or each component is a clamped quotient.
pub proof fn lemma_normalize_s_in_range(v: V3)
    requires
        fx_in_range(v.x),
        fx_in_range(v.y),
        fx_in_range(v.z),
    ensures
        fx_in_range(normalize_s(v).x),
        fx_in_range(normalize_s(v).y),
        fx_in_range(normalize_s(v).z),
{
}

/// Bounds under which a glyph can be fed back through the drivers.
pub open spec fn glyph_wf(v: Vector) -> bool {
    &&& v.start.wf()
    &&& v.direction.wf()
    &&& fx_in_range(v.magnitude as int)
}

/// A glyph with its cached orientation recomputed from its direction.
pub open spec fn with_rotation_s(v: VectorV) -> VectorV {
    VectorV { start: v.start, direction: v.direction, magnitude: v.magnitude, rotation: rotation_s(v.direction) }
}

/// Recomputing the cached orientation is idempotent: deriving it again from
/// the same direction changes nothing, so repeated recomputation never
/// drifts.
pub proof fn lemma_rotation_recompute_idempotent(v: VectorV)
    ensures
        with_rotation_s(with_rotation_s(v)) == with_rotation_s(v),
{
}

impl Vector {
    /// Derive the orientation matrix for a direction.
    fn calculate_rotation_matrix(direction: Vec3Fx) -> (m: Mat3Fx)
        requires
            direction.wf(),
        ensures
            m@ == rotation_s(direction@),
    {
        let d = direction;
        let aligned = -EPS_ALIGN <= d.x && d.x <= EPS_ALIGN && -EPS_ALIGN <= d.z && d.z
            <= EPS_ALIGN && -EPS_ALIGN <= d.y - SCALE && d.y - SCALE <= EPS_ALIGN;
        if aligned {
            return Mat3Fx {
                x: Vec3Fx { x: SCALE, y: 0, z: 0 },
                y: Vec3Fx { x: 0, y: SCALE, z: 0 },
                z: Vec3Fx { x: 0, y: 0, z: SCALE },
            };
        }
        let one_plus = fx_add(SCALE, d.y);
        if one_plus <= EPS_ALIGN {
            return Mat3Fx {
                x: Vec3Fx { x: SCALE, y: 0, z: 0 },
                y: Vec3Fx { x: 0, y: -SCALE, z: 0 },
                z: Vec3Fx { x: 0, y: 0, z: -SCALE },
            };
        }
        let w = fx_div(SCALE, one_plus);
        let xxw = fx_mul(fx_mul(d.x, d.x), w);
        let zzw = fx_mul(fx_mul(d.z, d.z), w);
        let xzw = fx_mul(fx_mul(d.x, d.z), w);
        Mat3Fx {
            x: Vec3Fx { x: fx_sub(SCALE, xxw), y: d.x, z: -xzw },
            y: Vec3Fx { x: -d.x, y: fx_sub(SCALE, fx_add(xxw, zzw)), z: -d.z },
            z: Vec3Fx { x: -xzw, y: d.z, z: fx_sub(SCALE, zzw) },
        }
    }

    /// Build a glyph, deriving its orientation from the given direction.
    pub fn new(start: Vec3Fx, direction: Vec3Fx, magnitude: i64) -> (r: Vector)
        requires
            start.wf(),
            direction.wf(),
            fx_in_range(magnitude as int),
        ensures
            r.start == start,
            r.direction == direction,
            r.magnitude == magnitude,
            r.rotation@ == rotation_s(direction@),
            r@ == with_rotation_s(r@),
    {
        Vector { start, direction, magnitude, rotation: Self::calculate_rotation_matrix(direction) }
    }

    /// Recompute the cached orientation from the current direction.
    pub fn update_rotation(&mut self)
        requires
            old(self).direction.wf(),
        ensures
            final(self)@ == with_rotation_s(old(self)@),
    {
        self.rotation = Self::calculate_rotation_matrix(self.direction);
    }
}

} // verus!
