//! The executable vector type: three `i64` components, with construction,
//! axis decomposition, scalar and componentwise arithmetic, normalization,
//! and the dot and cross products. Every operation is offered in a pure form
//! returning a new vector and, where the original mutates, an in-place form
//! that transforms the receiver and returns it for chaining.

use vstd::prelude::*;

verus! {

use crate::int_div::{tdiv, div_i64};
use crate::int_sqrt::{isqrt_u128, lemma_sqrt_floor_bounds};
use crate::model::{Vec3Model, in_i64};

/// Vector in 3 dimensions.
#[derive(Copy, Clone, PartialEq, Eq, Structural, Hash, Debug, PartialOrd, Ord)]
pub struct Vector3 {
    pub x: i64,
    pub y: i64,
    pub z: i64,
}

impl View for Vector3 {
    type V = Vec3Model;

    open spec fn view(&self) -> Vec3Model {
        Vec3Model { x: self.x as int, y: self.y as int, z: self.z as int }
    }
}

/// The magnitude of an `i64` value, as a `u64`.
fn abs_i64(c: i64) -> (u: u64)
    ensures
        c >= 0 ==> u == c as int,
        c < 0 ==> u == -(c as int),
{
    if c >= 0 {
        c as u64
    } else {
        (-(c as i128)) as u64
    }
}

/// Truncating division of a component scaled by `UNIT_LENGTH^2` by a
/// positive length `s` that bounds the component's magnitude times
/// `UNIT_LENGTH`; the quotient's magnitude is at most `UNIT_LENGTH`.
fn scale_component(c: i64, s: u64) -> (q: i64)
    requires
        s > 0,
        -(s as int) <= (c as int) * 65536 <= s as int,
    ensures
        q == tdiv((c as int) * 4294967296, s as int),
{
    let uc: u64 = abs_i64(c);
    let num: u128 = (uc as u128) * 4294967296;
    proof {
        assert(num <= (s as u128) * 65536);
        assert(num / (s as u128) <= 65536) by (nonlinear_arith)
            requires
                num <= (s as u128) * 65536 && s > 0 && num >= 0,
        ;
        assert(num / (s as u128) >= 0) by (nonlinear_arith)
            requires
                s > 0 && num >= 0,
        ;
    }
    let uq: u128 = num / (s as u128);
    if c < 0 {
        -(uq as i64)
    } else {
        uq as i64
    }
}

impl Vector3 {
    /// Creates a vector with all its coordinates at origin (0, 0, 0).
    pub fn origin() -> (r: Self)
        ensures
            r@ == Vec3Model::origin(),
    {
        Self { x: 0, y: 0, z: 0 }
    }

    /// Creates a new vector with the specified coordinates.
    pub fn new(x: i64, y: i64, z: i64) -> (r: Self)
        ensures
            r@ == (Vec3Model { x: x as int, y: y as int, z: z as int }),
    {
        Self { x, y, z }
    }

    /// Returns a new vector with a copy of coordinate `x`
    /// and the others set to `0`.
    pub fn x(&self) -> (r: Self)
        ensures
            r@ == self@.axis_x(),
    {
        Self { x: self.x, y: 0, z: 0 }
    }

    /// Returns a new vector with a copy of coordinate `y`
    /// and the others set to `0`.
    pub fn y(&self) -> (r: Self)
        ensures
            r@ == self@.axis_y(),
    {
        Self { x: 0, y: self.y, z: 0 }
    }

    /// Returns a new vector with a copy of coordinate `z`
    /// and the others set to `0`.
    pub fn z(&self) -> (r: Self)
        ensures
            r@ == self@.axis_z(),
    {
        Self { x: 0, y: 0, z: self.z }
    }

    /// Returns the squared magnitude of the vector.
    pub fn squared_magnitude(&self) -> (r: u128)
        ensures
            r == self@.sq_mag(),
    {
        let ax: u64 = abs_i64(self.x);
        let ay: u64 = abs_i64(self.y);
        let az: u64 = abs_i64(self.z);
        proof {
            assert(ax * ax <= 0x4000_0000_0000_0000_0000_0000_0000_0000) by (nonlinear_arith)
                requires
                    0 <= ax <= 0x8000_0000_0000_0000,
            ;
            assert(ay * ay <= 0x4000_0000_0000_0000_0000_0000_0000_0000) by (nonlinear_arith)
                requires
                    0 <= ay <= 0x8000_0000_0000_0000,
            ;
            assert(az * az <= 0x4000_0000_0000_0000_0000_0000_0000_0000) by (nonlinear_arith)
                requires
                    0 <= az <= 0x8000_0000_0000_0000,
            ;
            assert(ax * ax == self.x * self.x) by (nonlinear_arith)
                requires
                    ax == self.x as int || ax == -(self.x as int),
            ;
            assert(ay * ay == self.y * self.y) by (nonlinear_arith)
                requires
                    ay == self.y as int || ay == -(self.y as int),
            ;
            assert(az * az == self.z * self.z) by (nonlinear_arith)
                requires
                    az == self.z as int || az == -(self.z as int),
            ;
        }
        (ax as u128) * (ax as u128) + (ay as u128) * (ay as u128) + (az as u128) * (az as u128)
    }

    /// Returns the magnitude of the vector, rounded down to a whole number.
    /// Magnitude represents the length of the vector.
    pub fn magnitude(&self) -> (r: u64)
        ensures
            r == self@.mag(),
    {
        let sq: u128 = self.squared_magnitude();
        isqrt_u128(sq)
    }

    /// Flips the sign of all the coordinates of the vector.
    pub fn invert(&self) -> (r: Self)
        requires
            self@.neg().fits(),
        ensures
            r@ == self@.neg(),
    {
        let mut copy = *self;
        copy.inplace_invert();
        copy
    }

    /// Flips the sign of all the coordinates of the vector.
    ///
    /// # Remarks
    /// This function follows the Builder pattern, so it can be chained to other
    /// methods that modify the vector.
    pub fn inplace_invert(&mut self) -> (r: &mut Self)
        requires
            old(self)@.neg().fits(),
        ensures
            (*r)@ == old(self)@.neg(),
            *final(self) == *final(r),
    {
        self.x = -self.x;
        self.y = -self.y;
        self.z = -self.z;
        self
    }

    /// Transforms a non-zero vector into a vector of unit length, where one
    /// unit is represented by `UNIT_LENGTH` (16.16 fixed point): the result
    /// keeps the direction and has a length within a few counts of
    /// `UNIT_LENGTH` (see `lemma_normalize_unit_magnitude`). A vector of
    /// zero length is returned unchanged.
    pub fn normalize(&self) -> (r: Self)
        requires
            self@.sq_mag() < 0x1000000000000000000000000,
        ensures
            r@ == self@.normalized(),
    {
        let mut copy = *self;
        copy.inplace_normalize();
        copy
    }

    /// Transforms a non-zero vector into a vector of unit length, where one
    /// unit is represented by `UNIT_LENGTH` (16.16 fixed point): the result
    /// keeps the direction and has a length within a few counts of
    /// `UNIT_LENGTH` (see `lemma_normalize_unit_magnitude`). A vector of
    /// zero length is left unchanged.
    ///
    /// # Remarks
    /// This function follows the Builder pattern, so it can be chained to other
    /// methods that modify the vector.
    pub fn inplace_normalize(&mut self) -> (r: &mut Self)
        requires
            old(self)@.sq_mag() < 0x1000000000000000000000000,
        ensures
            (*r)@ == old(self)@.normalized(),
            *final(self) == *final(r),
    {
        let sq: u128 = self.squared_magnitude();
        if sq > 0 {
            let n: u128 = sq * 4294967296;
            let s: u64 = isqrt_u128(n);
            proof {
                let m: int = self@.sq_mag();
                assert(self.x * self.x >= 0 && self.y * self.y >= 0 && self.z * self.z >= 0)
                    by (nonlinear_arith);
                lemma_sqrt_floor_bounds(m * 4294967296);
                assert(s + 1 > 65536) by (nonlinear_arith)
                    requires
                        s + 1 > 0 && (s as int + 1) * (s as int + 1) > 4294967296,
                ;
                lemma_component_scale_bounded(self.x as int, m, s as int);
                lemma_component_scale_bounded(self.y as int, m, s as int);
                lemma_component_scale_bounded(self.z as int, m, s as int);
            }
            self.x = scale_component(self.x, s);
            self.y = scale_component(self.y, s);
            self.z = scale_component(self.z, s);
        }
        self
    }

    /// Scalar addition of the vector.
    pub fn scalar_add(&self, scalar: i64) -> (r: Self)
        requires
            self@.scalar_add(scalar as int).fits(),
        ensures
            r@ == self@.scalar_add(scalar as int),
    {
        let mut copy = *self;
        copy.inplace_scalar_add(scalar);
        copy
    }

    /// Scalar addition of the vector.
    ///
    /// # Remarks
    /// This function follows the Builder pattern, so it can be chained to other
    /// methods that modify the vector.
    pub fn inplace_scalar_add(&mut self, scalar: i64) -> (r: &mut Self)
        requires
            old(self)@.scalar_add(scalar as int).fits(),
        ensures
            (*r)@ == old(self)@.scalar_add(scalar as int),
            *final(self) == *final(r),
    {
        self.x = self.x + scalar;
        self.y = self.y + scalar;
        self.z = self.z + scalar;
        self
    }

    /// Scalar subtraction of the vector.
    pub fn scalar_sub(&self, scalar: i64) -> (r: Self)
        requires
            self@.scalar_sub(scalar as int).fits(),
        ensures
            r@ == self@.scalar_sub(scalar as int),
    {
        let mut copy = *self;
        copy.inplace_scalar_sub(scalar);
        copy
    }

    /// Scalar subtraction of the vector.
    ///
    /// # Remarks
    /// This function follows the Builder pattern, so it can be chained to other
    /// methods that modify the vector.
    pub fn inplace_scalar_sub(&mut self, scalar: i64) -> (r: &mut Self)
        requires
            old(self)@.scalar_sub(scalar as int).fits(),
        ensures
            (*r)@ == old(self)@.scalar_sub(scalar as int),
            *final(self) == *final(r),
    {
        self.x = self.x - scalar;
        self.y = self.y - scalar;
        self.z = self.z - scalar;
        self
    }

    /// Scalar multiplication of the vector.
    pub fn scalar_mul(&self, scalar: i64) -> (r: Self)
        requires
            self@.scalar_mul(scalar as int).fits(),
        ensures
            r@ == self@.scalar_mul(scalar as int),
    {
        let mut copy = *self;
        copy.inplace_scalar_mul(scalar);
        copy
    }

    /// Scalar multiplication of the vector.
    ///
    /// # Remarks
    /// This function follows the Builder pattern, so it can be chained to other
    /// methods that modify the vector.
    pub fn inplace_scalar_mul(&mut self, scalar: i64) -> (r: &mut Self)
        requires
            old(self)@.scalar_mul(scalar as int).fits(),
        ensures
            (*r)@ == old(self)@.scalar_mul(scalar as int),
            *final(self) == *final(r),
    {
        self.x = self.x * scalar;
        self.y = self.y * scalar;
        self.z = self.z * scalar;
        self
    }

    /// Scalar division of the vector, rounding each quotient toward zero.
    pub fn scalar_div(&self, scalar: i64) -> (r: Self)
        requires
            scalar != 0,
            self@.scalar_div(scalar as int).fits(),
        ensures
            r@ == self@.scalar_div(scalar as int),
    {
        let mut copy = *self;
        copy.inplace_scalar_div(scalar);
        copy
    }

    /// Scalar division of the vector, rounding each quotient toward zero.
    ///
    /// # Remarks
    /// This function follows the Builder pattern, so it can be chained to other
    /// methods that modify the vector.
    pub fn inplace_scalar_div(&mut self, scalar: i64) -> (r: &mut Self)
        requires
            scalar != 0,
            old(self)@.scalar_div(scalar as int).fits(),
        ensures
            (*r)@ == old(self)@.scalar_div(scalar as int),
            *final(self) == *final(r),
    {
        proof {
            lemma_min_quotient_excluded(self.x as int, scalar as int);
            lemma_min_quotient_excluded(self.y as int, scalar as int);
            lemma_min_quotient_excluded(self.z as int, scalar as int);
        }
        self.x = div_i64(self.x, scalar);
        self.y = div_i64(self.y, scalar);
        self.z = div_i64(self.z, scalar);
        self
    }

    /// Adds the vector to another one.
    pub fn vector_add(&self, other: &Vector3) -> (r: Self)
        requires
            self@.vector_add(other@).fits(),
        ensures
            r@ == self@.vector_add(other@),
    {
        let mut copy = *self;
        copy.inplace_vector_add(other);
        copy
    }

    /// Adds the vector to another one.
    ///
    /// # Remarks
    /// This function follows the Builder pattern, so it can be chained to other
    /// methods that modify the vector.
    pub fn inplace_vector_add(&mut self, other: &Vector3) -> (r: &mut Self)
        requires
            old(self)@.vector_add(other@).fits(),
        ensures
            (*r)@ == old(self)@.vector_add(other@),
            *final(self) == *final(r),
    {
        self.x = self.x + other.x;
        self.y = self.y + other.y;
        self.z = self.z + other.z;
        self
    }

    /// Subtracts the other vector from this one.
    pub fn vector_sub(&self, other: &Vector3) -> (r: Self)
        requires
            self@.vector_sub(other@).fits(),
        ensures
            r@ == self@.vector_sub(other@),
    {
        let mut copy = *self;
        copy.inplace_vector_sub(other);
        copy
    }

    /// Subtracts the other vector from this one.
    ///
    /// # Remarks
    /// This function follows the Builder pattern, so it can be chained to other
    /// methods that modify the vector.
    pub fn inplace_vector_sub(&mut self, other: &Vector3) -> (r: &mut Self)
        requires
            old(self)@.vector_sub(other@).fits(),
        ensures
            (*r)@ == old(self)@.vector_sub(other@),
            *final(self) == *final(r),
    {
        self.x = self.x - other.x;
        self.y = self.y - other.y;
        self.z = self.z - other.z;
        self
    }

    /// Multiplies the vector with another one, componentwise.
    pub fn vector_mul(&self, other: &Vector3) -> (r: Self)
        requires
            self@.vector_mul(other@).fits(),
        ensures
            r@ == self@.vector_mul(other@),
    {
        let mut copy = *self;
        copy.inplace_vector_mul(other);
        copy
    }

    /// Multiplies the vector with another one, componentwise.
    ///
    /// # Remarks
    /// This function follows the Builder pattern, so it can be chained to other
    /// methods that modify the vector.
    pub fn inplace_vector_mul(&mut self, other: &Vector3) -> (r: &mut Self)
        requires
            old(self)@.vector_mul(other@).fits(),
        ensures
            (*r)@ == old(self)@.vector_mul(other@),
            *final(self) == *final(r),
    {
        self.x = self.x * other.x;
        self.y = self.y * other.y;
        self.z = self.z * other.z;
        self
    }

    /// Divides the vector by another one, componentwise, rounding each
    /// quotient toward zero.
    pub fn vector_div(&self, other: &Vector3) -> (r: Self)
        requires
            other.x != 0 && other.y != 0 && other.z != 0,
            self@.vector_div(other@).fits(),
        ensures
            r@ == self@.vector_div(other@),
    {
        let mut copy = *self;
        copy.inplace_vector_div(other);
        copy
    }

    /// Divides the vector by another one, componentwise, rounding each
    /// quotient toward zero.
    ///
    /// # Remarks
    /// This function follows the Builder pattern, so it can be chained to other
    /// methods that modify the vector.
    pub fn inplace_vector_div(&mut self, other: &Vector3) -> (r: &mut Self)
        requires
            other.x != 0 && other.y != 0 && other.z != 0,
            old(self)@.vector_div(other@).fits(),
        ensures
            (*r)@ == old(self)@.vector_div(other@),
            *final(self) == *final(r),
    {
        proof {
            lemma_min_quotient_excluded(self.x as int, other.x as int);
            lemma_min_quotient_excluded(self.y as int, other.y as int);
            lemma_min_quotient_excluded(self.z as int, other.z as int);
        }
        self.x = div_i64(self.x, other.x);
        self.y = div_i64(self.y, other.y);
        self.z = div_i64(self.z, other.z);
        self
    }

    /// Calculates the dot product of two vectors, aka Scalar Product, Inner Product.
    /// The returned scalar calculates the magnitude of one vector in the direction of another.
    pub fn dot_product(&self, other: &Vector3) -> (r: i64)
        requires
            in_i64(self@.dot(other@)),
        ensures
            r == self@.dot(other@),
    {
        proof {
            lemma_product_bounded(self.x as int, other.x as int);
            lemma_product_bounded(self.y as int, other.y as int);
            lemma_product_bounded(self.z as int, other.z as int);
        }
        let px: i128 = (self.x as i128) * (other.x as i128);
        let py: i128 = (self.y as i128) * (other.y as i128);
        let pz: i128 = (self.z as i128) * (other.z as i128);
        (px + py + pz) as i64
    }

    /// Calculates the cross product of two vectors, aka Vector Product.
    /// The resulting vector represents the component of `other` that is not
    /// in the direction of `self`, scaled by the magnitude of `self`. It's also
    /// used to represent the direction that is at right angles to both vectors.
    pub fn cross_product(&self, other: &Vector3) -> (r: Vector3)
        requires
            self@.cross(other@).fits(),
        ensures
            r@ == self@.cross(other@),
    {
        let mut copy = *self;
        copy.inplace_cross_product(other);
        copy
    }

    /// Calculates the cross product of two vectors, aka Vector Product.
    /// The resulting vector represents the component of `other` that is not
    /// in the direction of `self`, scaled by the magnitude of `self`. It's also
    /// used to represent the direction that is at right angles to both vectors.
    ///
    /// # Remarks
    /// This function follows the Builder pattern, so it can be chained to other
    /// methods that modify the vector.
    pub fn inplace_cross_product(&mut self, other: &Vector3) -> (r: &mut Vector3)
        requires
            old(self)@.cross(other@).fits(),
        ensures
            (*r)@ == old(self)@.cross(other@),
            *final(self) == *final(r),
    {
        proof {
            lemma_product_bounded(self.y as int, other.z as int);
            lemma_product_bounded(self.z as int, other.y as int);
            lemma_product_bounded(self.z as int, other.x as int);
            lemma_product_bounded(self.x as int, other.z as int);
            lemma_product_bounded(self.x as int, other.y as int);
            lemma_product_bounded(self.y as int, other.x as int);
        }
        let x: i64 = self.x;
        let y: i64 = self.y;
        let z: i64 = self.z;
        let cx: i128 = (y as i128) * (other.z as i128) - (z as i128) * (other.y as i128);
        let cy: i128 = (z as i128) * (other.x as i128) - (x as i128) * (other.z as i128);
        let cz: i128 = (x as i128) * (other.y as i128) - (y as i128) * (other.x as i128);
        self.x = cx as i64;
        self.y = cy as i64;
        self.z = cz as i64;
        self
    }
}

/// The product of two `i64` values stays well inside the `i128` range.
proof fn lemma_product_bounded(a: int, b: int)
    requires
        i64::MIN <= a <= i64::MAX,
        i64::MIN <= b <= i64::MAX,
    ensures
        -0x4000_0000_0000_0000_0000_0000_0000_0000 <= a * b
            <= 0x4000_0000_0000_0000_0000_0000_0000_0000,
{
    assert(-0x4000_0000_0000_0000_0000_0000_0000_0000 <= a * b
        <= 0x4000_0000_0000_0000_0000_0000_0000_0000) by (nonlinear_arith)
        requires
            -0x8000_0000_0000_0000 <= a <= 0x7fff_ffff_ffff_ffff && -0x8000_0000_0000_0000 <= b
                <= 0x7fff_ffff_ffff_ffff,
    ;
}

/// A component whose square is bounded by the squared magnitude stays,
/// scaled by `UNIT_LENGTH`, within the floor of `UNIT_LENGTH` times the
/// length.
proof fn lemma_component_scale_bounded(c: int, m: int, s: int)
    requires
        c * c <= m,
        m * 4294967296 < (s + 1) * (s + 1),
        s >= 0,
    ensures
        -s <= c * 65536 <= s,
{
    let a: int = if c < 0 {
        -c
    } else {
        c
    };
    assert(a * a == c * c) by (nonlinear_arith)
        requires
            a == c || a == -c,
    ;
    if a * 65536 > s {
        assert((a * 65536) * (a * 65536) >= (s + 1) * (s + 1)) by (nonlinear_arith)
            requires
                a * 65536 >= s + 1 && s + 1 >= 1,
        ;
        assert((a * 65536) * (a * 65536) == (a * a) * 4294967296) by (nonlinear_arith);
        assert(false);
    }
}

/// A truncating quotient of `i64` values that fits back in an `i64` rules
/// out the one overflowing dividend-divisor pair.
proof fn lemma_min_quotient_excluded(a: int, b: int)
    requires
        b != 0,
        i64::MIN <= a <= i64::MAX,
        in_i64(tdiv(a, b)),
    ensures
        !(a == i64::MIN && b == -1),
{
    if a == i64::MIN && b == -1 {
        assert(tdiv(a, b) == (-a) / 1);
        assert((-a) / 1 == -a) by (nonlinear_arith);
    }
}

} // verus!
