//! The mathematical model of a 3-dimensional vector: a triple of unbounded
//! integers, with every operation of the executable type restated over it.
//! The contracts of [`crate::Vector3`] are phrased in terms of this model,
//! and the algebraic laws of the operation set are proved here.

use vstd::prelude::*;

verus! {

use vstd::arithmetic::mul::lemma_mul_inequality;
use crate::int_div::{tdiv, lemma_tdiv_mul_cancel};
use crate::int_sqrt::{sqrt_floor, lemma_sqrt_floor_bounds};

/// The length that stands for one unit: 2^16, so normalized vectors carry
/// their direction in 16.16 fixed point. Normalizing scales a nonzero
/// vector to a length within a few counts of this constant.
pub const UNIT_LENGTH: i64 = 65536;

/// Is `n` representable as an `i64` component?
pub open spec fn in_i64(n: int) -> bool {
    i64::MIN <= n <= i64::MAX
}

/// The model of a vector: three unbounded integer components.
pub ghost struct Vec3Model {
    pub x: int,
    pub y: int,
    pub z: int,
}

impl Vec3Model {
    /// The zero vector.
    pub open spec fn origin() -> Self {
        Vec3Model { x: 0, y: 0, z: 0 }
    }

    /// Every component is representable as an `i64`.
    pub open spec fn fits(self) -> bool {
        in_i64(self.x) && in_i64(self.y) && in_i64(self.z)
    }

    /// The axis-aligned part of the vector along the x axis.
    pub open spec fn axis_x(self) -> Self {
        Vec3Model { x: self.x, y: 0, z: 0 }
    }

    /// The axis-aligned part of the vector along the y axis.
    pub open spec fn axis_y(self) -> Self {
        Vec3Model { x: 0, y: self.y, z: 0 }
    }

    /// The axis-aligned part of the vector along the z axis.
    pub open spec fn axis_z(self) -> Self {
        Vec3Model { x: 0, y: 0, z: self.z }
    }

    /// All three components negated.
    pub open spec fn neg(self) -> Self {
        Vec3Model { x: -self.x, y: -self.y, z: -self.z }
    }

    /// The scalar added to every component.
    pub open spec fn scalar_add(self, s: int) -> Self {
        Vec3Model { x: self.x + s, y: self.y + s, z: self.z + s }
    }

    /// The scalar subtracted from every component.
    pub open spec fn scalar_sub(self, s: int) -> Self {
        Vec3Model { x: self.x - s, y: self.y - s, z: self.z - s }
    }

    /// Every component multiplied by the scalar.
    pub open spec fn scalar_mul(self, s: int) -> Self {
        Vec3Model { x: self.x * s, y: self.y * s, z: self.z * s }
    }

    /// Every component divided by the scalar, rounding toward zero.
    pub open spec fn scalar_div(self, s: int) -> Self
        recommends
            s != 0,
    {
        Vec3Model { x: tdiv(self.x, s), y: tdiv(self.y, s), z: tdiv(self.z, s) }
    }

    /// Componentwise sum.
    pub open spec fn vector_add(self, other: Self) -> Self {
        Vec3Model { x: self.x + other.x, y: self.y + other.y, z: self.z + other.z }
    }

    /// Componentwise difference.
    pub open spec fn vector_sub(self, other: Self) -> Self {
        Vec3Model { x: self.x - other.x, y: self.y - other.y, z: self.z - other.z }
    }

    /// Componentwise product.
    pub open spec fn vector_mul(self, other: Self) -> Self {
        Vec3Model { x: self.x * other.x, y: self.y * other.y, z: self.z * other.z }
    }

    /// Componentwise quotient, each rounding toward zero.
    pub open spec fn vector_div(self, other: Self) -> Self
        recommends
            other.x != 0 && other.y != 0 && other.z != 0,
    {
        Vec3Model {
            x: tdiv(self.x, other.x),
            y: tdiv(self.y, other.y),
            z: tdiv(self.z, other.z),
        }
    }

    /// The dot product: the sum of the componentwise products.
    pub open spec fn dot(self, other: Self) -> int {
        self.x * other.x + self.y * other.y + self.z * other.z
    }

    /// The right-handed cross product.
    pub open spec fn cross(self, other: Self) -> Self {
        Vec3Model {
            x: self.y * other.z - self.z * other.y,
            y: self.z * other.x - self.x * other.z,
            z: self.x * other.y - self.y * other.x,
        }
    }

    /// The squared Euclidean length.
    pub open spec fn sq_mag(self) -> int {
        self.x * self.x + self.y * self.y + self.z * self.z
    }

    /// The floor of the Euclidean length.
    pub open spec fn mag(self) -> int {
        sqrt_floor(self.sq_mag())
    }

    /// The vector rescaled to a length of about `UNIT_LENGTH`, keeping its
    /// direction: each component `c` becomes the truncated quotient of
    /// `c * UNIT_LENGTH^2` by the floor of `UNIT_LENGTH` times the length.
    /// The zero-length vector is left unchanged by policy.
    pub open spec fn normalized(self) -> Self {
        if self.sq_mag() > 0 {
            let s: int = sqrt_floor(self.sq_mag() * (UNIT_LENGTH * UNIT_LENGTH));
            Vec3Model {
                x: tdiv(self.x * (UNIT_LENGTH * UNIT_LENGTH), s),
                y: tdiv(self.y * (UNIT_LENGTH * UNIT_LENGTH), s),
                z: tdiv(self.z * (UNIT_LENGTH * UNIT_LENGTH), s),
            }
        } else {
            self
        }
    }
}

/// Negating a vector twice returns the original vector.
pub proof fn lemma_invert_involutive(v: Vec3Model)
    ensures
        v.neg().neg() == v,
{
}

/// The dot product is commutative.
pub proof fn lemma_dot_commutative(a: Vec3Model, b: Vec3Model)
    ensures
        a.dot(b) == b.dot(a),
{
    assert(a.x * b.x == b.x * a.x) by (nonlinear_arith);
    assert(a.y * b.y == b.y * a.y) by (nonlinear_arith);
    assert(a.z * b.z == b.z * a.z) by (nonlinear_arith);
}

/// The cross product is anti-commutative: exchanging the operands negates
/// the result.
pub proof fn lemma_cross_anticommutative(a: Vec3Model, b: Vec3Model)
    ensures
        a.cross(b) == b.cross(a).neg(),
{
    assert(a.y * b.z == b.z * a.y) by (nonlinear_arith);
    assert(a.z * b.y == b.y * a.z) by (nonlinear_arith);
    assert(a.z * b.x == b.x * a.z) by (nonlinear_arith);
    assert(a.x * b.z == b.z * a.x) by (nonlinear_arith);
    assert(a.x * b.y == b.y * a.x) by (nonlinear_arith);
    assert(a.y * b.x == b.x * a.y) by (nonlinear_arith);
}

/// Vector addition is commutative.
pub proof fn lemma_vector_add_commutative(a: Vec3Model, b: Vec3Model)
    ensures
        a.vector_add(b) == b.vector_add(a),
{
}

/// Scaling by a nonzero scalar and dividing by it again returns the
/// original vector.
pub proof fn lemma_scalar_mul_div_roundtrip(v: Vec3Model, s: int)
    requires
        s != 0,
    ensures
        v.scalar_mul(s).scalar_div(s) == v,
{
    lemma_tdiv_mul_cancel(v.x, s);
    lemma_tdiv_mul_cancel(v.y, s);
    lemma_tdiv_mul_cancel(v.z, s);
}

/// Normalizing a vector of zero length leaves it unchanged; in particular
/// normalizing the origin returns the origin.
pub proof fn lemma_normalize_zero(v: Vec3Model)
    requires
        v.sq_mag() == 0,
    ensures
        v.normalized() == v,
{
}

/// Floor-division bounds for a nonnegative component magnitude scaled by
/// `UNIT_LENGTH^2` and divided by a positive length.
proof fn lemma_div_floor_bounds(a: int, s: int)
    requires
        a >= 0,
        s > 0,
    ensures
        (a * 4294967296) / s >= 0,
        ((a * 4294967296) / s) * s <= a * 4294967296,
        a * 4294967296 < ((a * 4294967296) / s + 1) * s,
{
    let n: int = a * 4294967296;
    assert(n / s >= 0 && (n / s) * s <= n && n < (n / s + 1) * s) by (nonlinear_arith)
        requires
            n >= 0 && s > 0,
    ;
}

/// Normalizing a vector of positive length yields a vector of length
/// `UNIT_LENGTH` up to the type's rounding: the squared magnitude of the
/// result lies in a fixed band around `UNIT_LENGTH^2`, and the floor of its
/// length is between `UNIT_LENGTH - 4` and `UNIT_LENGTH + 1`. In
/// particular the result of normalizing a nonzero vector is never zero.
pub proof fn lemma_normalize_unit_magnitude(v: Vec3Model)
    requires
        v.sq_mag() > 0,
    ensures
        (UNIT_LENGTH - 4) * (UNIT_LENGTH - 4) <= v.normalized().sq_mag(),
        v.normalized().sq_mag() <= (UNIT_LENGTH + 1) * (UNIT_LENGTH + 1),
        UNIT_LENGTH - 4 <= v.normalized().mag() <= UNIT_LENGTH + 1,
{
    let sq: int = v.sq_mag();
    let n: int = sq * 4294967296;
    let s: int = sqrt_floor(n);
    lemma_sqrt_floor_bounds(n);
    assert(s + 1 > 65536) by (nonlinear_arith)
        requires
            s + 1 > 0 && (s + 1) * (s + 1) > 4294967296,
    ;
    let w: Vec3Model = v.normalized();

    // per component: the magnitude of the scaled quotient, with floor bounds
    let ax: int = if v.x < 0 {
        -v.x
    } else {
        v.x
    };
    let ay: int = if v.y < 0 {
        -v.y
    } else {
        v.y
    };
    let az: int = if v.z < 0 {
        -v.z
    } else {
        v.z
    };
    let rx: int = (ax * 4294967296) / s;
    let ry: int = (ay * 4294967296) / s;
    let rz: int = (az * 4294967296) / s;
    lemma_div_floor_bounds(ax, s);
    lemma_div_floor_bounds(ay, s);
    lemma_div_floor_bounds(az, s);
    assert(w.x == tdiv(v.x * 4294967296, s));
    assert(w.x == if v.x < 0 {
        -rx
    } else {
        rx
    });
    assert(w.y == tdiv(v.y * 4294967296, s));
    assert(w.y == if v.y < 0 {
        -ry
    } else {
        ry
    });
    assert(w.z == tdiv(v.z * 4294967296, s));
    assert(w.z == if v.z < 0 {
        -rz
    } else {
        rz
    });
    assert((-rx) * (-rx) == rx * rx && (-ry) * (-ry) == ry * ry && (-rz) * (-rz) == rz * rz)
        by (nonlinear_arith);
    assert(ax * ax == v.x * v.x) by (nonlinear_arith)
        requires
            ax == v.x || ax == -v.x,
    ;
    assert(ay * ay == v.y * v.y) by (nonlinear_arith)
        requires
            ay == v.y || ay == -v.y,
    ;
    assert(az * az == v.z * v.z) by (nonlinear_arith)
        requires
            az == v.z || az == -v.z,
    ;
    assert(rx * rx >= 0 && ry * ry >= 0 && rz * rz >= 0) by (nonlinear_arith)
        requires
            rx >= 0 && ry >= 0 && rz >= 0,
    ;
    let p: int = rx * rx + ry * ry + rz * rz;
    assert(w.sq_mag() == p);

    // squared floor bounds, per component
    assert(rx * rx * (s * s) <= (ax * ax) * 0x1_0000_0000_0000_0000) by (nonlinear_arith)
        requires
            rx >= 0 && ax >= 0 && s > 0 && rx * s <= ax * 4294967296,
    ;
    assert(ry * ry * (s * s) <= (ay * ay) * 0x1_0000_0000_0000_0000) by (nonlinear_arith)
        requires
            ry >= 0 && ay >= 0 && s > 0 && ry * s <= ay * 4294967296,
    ;
    assert(rz * rz * (s * s) <= (az * az) * 0x1_0000_0000_0000_0000) by (nonlinear_arith)
        requires
            rz >= 0 && az >= 0 && s > 0 && rz * s <= az * 4294967296,
    ;
    assert((ax * ax) * 0x1_0000_0000_0000_0000 < ((rx + 1) * (rx + 1)) * (s * s))
        by (nonlinear_arith)
        requires
            ax >= 0 && s > 0 && ax * 4294967296 < (rx + 1) * s,
    ;
    assert((ay * ay) * 0x1_0000_0000_0000_0000 < ((ry + 1) * (ry + 1)) * (s * s))
        by (nonlinear_arith)
        requires
            ay >= 0 && s > 0 && ay * 4294967296 < (ry + 1) * s,
    ;
    assert((az * az) * 0x1_0000_0000_0000_0000 < ((rz + 1) * (rz + 1)) * (s * s))
        by (nonlinear_arith)
        requires
            az >= 0 && s > 0 && az * 4294967296 < (rz + 1) * s,
    ;

    // sum the three squared bounds
    assert(p * (s * s) == rx * rx * (s * s) + ry * ry * (s * s) + rz * rz * (s * s))
        by (nonlinear_arith)
        requires
            p == rx * rx + ry * ry + rz * rz,
    ;
    assert((ax * ax + ay * ay + az * az) * 0x1_0000_0000_0000_0000 == (ax * ax)
        * 0x1_0000_0000_0000_0000 + (ay * ay) * 0x1_0000_0000_0000_0000 + (az * az)
        * 0x1_0000_0000_0000_0000) by (nonlinear_arith);
    assert(ax * ax + ay * ay + az * az == sq);
    assert(p * (s * s) <= sq * 0x1_0000_0000_0000_0000);
    assert(sq * 0x1_0000_0000_0000_0000 == n * 4294967296);
    assert(n * 4294967296 < ((s + 1) * (s + 1)) * 4294967296);

    // upper bound: p <= (UNIT_LENGTH + 1)^2
    assert((s + 1) * (s + 1) == s * s + 2 * s + 1) by (nonlinear_arith);
    assert(s * s >= 65536 * s) by (nonlinear_arith)
        requires
            s >= 65536,
    ;
    if p > 4295098369 {
        lemma_mul_inequality(4295098370, p, s * s);
        assert(4295098370 * (s * s) == 4294967296 * (s * s) + 131074 * (s * s));
        assert(131074 * (s * s) >= 131074 * (65536 * s));
        assert(131074 * (65536 * s) == 8589934592 * s + 131072 * s);
        assert(131072 * s >= 8589934592);
        assert(p * (s * s) >= ((s + 1) * (s + 1)) * 4294967296);
        assert(false);
    }
    assert(p <= 4295098369);

    // lower bound: p >= (UNIT_LENGTH - 4)^2
    let qsum: int = (rx + 1) * (rx + 1) + (ry + 1) * (ry + 1) + (rz + 1) * (rz + 1);
    assert(qsum * (s * s) == ((rx + 1) * (rx + 1)) * (s * s) + ((ry + 1) * (ry + 1)) * (s * s) + (
    (rz + 1) * (rz + 1)) * (s * s)) by (nonlinear_arith)
        requires
            qsum == (rx + 1) * (rx + 1) + (ry + 1) * (ry + 1) + (rz + 1) * (rz + 1),
    ;
    assert(sq * 0x1_0000_0000_0000_0000 < qsum * (s * s));
    assert((s * s) * 4294967296 <= n * 4294967296);
    assert(4294967296 < qsum) by (nonlinear_arith)
        requires
            (s * s) * 4294967296 < qsum * (s * s) && s > 0,
    ;
    assert(rx <= 65537) by (nonlinear_arith)
        requires
            rx >= 0 && rx * rx <= 4295098369,
    ;
    assert(ry <= 65537) by (nonlinear_arith)
        requires
            ry >= 0 && ry * ry <= 4295098369,
    ;
    assert(rz <= 65537) by (nonlinear_arith)
        requires
            rz >= 0 && rz * rz <= 4295098369,
    ;
    assert(qsum == p + 2 * (rx + ry + rz) + 3) by (nonlinear_arith)
        requires
            qsum == (rx + 1) * (rx + 1) + (ry + 1) * (ry + 1) + (rz + 1) * (rz + 1) && p == rx * rx
                + ry * ry + rz * rz,
    ;
    assert(p >= 4294443024);

    // the floor length of the result sits beside UNIT_LENGTH
    lemma_sqrt_floor_bounds(p);
    let f: int = sqrt_floor(p);
    assert(f >= 65532) by (nonlinear_arith)
        requires
            f >= 0 && (f + 1) * (f + 1) > 4294443024,
    ;
    assert(f <= 65537) by (nonlinear_arith)
        requires
            f >= 0 && f * f <= 4295098369,
    ;
}

} // verus!
