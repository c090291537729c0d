//! Vectors in three dimensions over [`Scalar`], and the rounding arithmetic
//! they are computed with.
//!
//! Addition, subtraction, multiplication, division and square root round
//! their results, and the rounding is done by the machine, not here. A caller
//! hands in an *arithmetic*: a function from an [`Op`] to its result. The
//! functions of this module say which operations they ask of it and in which
//! order, and their contracts are stated over [`apply`], its result.

use crate::scalar::{Scalar, ONE_BITS};
use vstd::prelude::*;
use vstd::std_specs::cmp::PartialEqSpecImpl;

verus! {

/// One rounding operation, with its operands.
#[derive(Clone, Copy, Debug)]
pub enum Op {
    /// The sum of the two.
    Add(Scalar, Scalar),
    /// The first less the second.
    Sub(Scalar, Scalar),
    /// The product of the two.
    Mul(Scalar, Scalar),
    /// The first divided by the second.
    Div(Scalar, Scalar),
    /// The square root.
    Sqrt(Scalar),
}

/// What is asked of an arithmetic: it accepts every operation, and an
/// operation has one result.
pub open spec fn is_arithmetic<F: Fn(Op) -> Scalar>(fpu: &F) -> bool {
    &&& forall|op: Op| #[trigger] fpu.requires((op,))
    &&& forall|op: Op, r1: Scalar, r2: Scalar|
        #[trigger] fpu.ensures((op,), r1) && #[trigger] fpu.ensures((op,), r2) ==> r1 == r2
}

/// The result of the arithmetic on one operation.
pub open spec fn apply<F: Fn(Op) -> Scalar>(fpu: &F, op: Op) -> Scalar {
    choose|r: Scalar| fpu.ensures((op,), r)
}

/// Has the arithmetic carry out one operation.
pub fn run<F: Fn(Op) -> Scalar>(fpu: &F, op: Op) -> (r: Scalar)
    requires
        is_arithmetic(fpu),
    ensures
        r == apply(fpu, op),
{
    fpu(op)
}

/// Why a vector has no direction.
#[derive(Clone, Copy, Debug, PartialEq, Eq, Structural)]
pub enum VectorError {
    /// Its length is zero or not a number.
    Degenerate,
}

/// A vector in three dimensions.
#[derive(Clone, Copy, Debug)]
pub struct Vec3 {
    pub x: Scalar,
    pub y: Scalar,
    pub z: Scalar,
}

impl Vec3 {
    /// The zero vector.
    pub open spec fn spec_origin() -> Vec3 {
        Vec3 { x: Scalar { bits: 0 }, y: Scalar { bits: 0 }, z: Scalar { bits: 0 } }
    }

    /// The unit vector along the x axis.
    pub open spec fn spec_unit_x() -> Vec3 {
        Vec3 { x: Scalar { bits: ONE_BITS }, y: Scalar { bits: 0 }, z: Scalar { bits: 0 } }
    }

    /// The unit vector along the y axis.
    pub open spec fn spec_unit_y() -> Vec3 {
        Vec3 { x: Scalar { bits: 0 }, y: Scalar { bits: ONE_BITS }, z: Scalar { bits: 0 } }
    }

    /// The unit vector along the z axis.
    pub open spec fn spec_unit_z() -> Vec3 {
        Vec3 { x: Scalar { bits: 0 }, y: Scalar { bits: 0 }, z: Scalar { bits: ONE_BITS } }
    }

    /// Component-wise IEEE 754 equality.
    pub open spec fn equals(self, other: Vec3) -> bool {
        self.x.equals(other.x) && self.y.equals(other.y) && self.z.equals(other.z)
    }

    /// Component by component the two are one number.
    pub open spec fn akin(self, other: Vec3) -> bool {
        self.x.akin(other.x) && self.y.akin(other.y) && self.z.akin(other.z)
    }

    /// The vector with every sign flipped.
    pub open spec fn negated(self) -> Vec3 {
        Vec3 { x: self.x.negated(), y: self.y.negated(), z: self.z.negated() }
    }

    /// Component-wise sum.
    pub open spec fn sum<F: Fn(Op) -> Scalar>(self, other: Vec3, fpu: &F) -> Vec3 {
        Vec3 {
            x: apply(fpu, Op::Add(self.x, other.x)),
            y: apply(fpu, Op::Add(self.y, other.y)),
            z: apply(fpu, Op::Add(self.z, other.z)),
        }
    }

    /// Component-wise difference.
    pub open spec fn difference<F: Fn(Op) -> Scalar>(self, other: Vec3, fpu: &F) -> Vec3 {
        Vec3 {
            x: apply(fpu, Op::Sub(self.x, other.x)),
            y: apply(fpu, Op::Sub(self.y, other.y)),
            z: apply(fpu, Op::Sub(self.z, other.z)),
        }
    }

    /// Every component multiplied by `k`.
    pub open spec fn scaled<F: Fn(Op) -> Scalar>(self, k: Scalar, fpu: &F) -> Vec3 {
        Vec3 {
            x: apply(fpu, Op::Mul(self.x, k)),
            y: apply(fpu, Op::Mul(self.y, k)),
            z: apply(fpu, Op::Mul(self.z, k)),
        }
    }

    /// Every component divided by `k`.
    pub open spec fn divided<F: Fn(Op) -> Scalar>(self, k: Scalar, fpu: &F) -> Vec3 {
        Vec3 {
            x: apply(fpu, Op::Div(self.x, k)),
            y: apply(fpu, Op::Div(self.y, k)),
            z: apply(fpu, Op::Div(self.z, k)),
        }
    }

    /// The dot product, summed from the last component inwards:
    /// `x*x' + (y*y' + z*z')`.
    pub open spec fn dot_product<F: Fn(Op) -> Scalar>(self, other: Vec3, fpu: &F) -> Scalar {
        apply(
            fpu,
            Op::Add(
                apply(fpu, Op::Mul(self.x, other.x)),
                apply(
                    fpu,
                    Op::Add(
                        apply(fpu, Op::Mul(self.y, other.y)),
                        apply(fpu, Op::Mul(self.z, other.z)),
                    ),
                ),
            ),
        )
    }

    /// The Euclidean length: the square root of the dot product with itself.
    pub open spec fn norm<F: Fn(Op) -> Scalar>(self, fpu: &F) -> Scalar {
        apply(fpu, Op::Sqrt(self.dot_product(self, fpu)))
    }

    /// A vector has a direction when its length is a number other than zero.
    pub open spec fn has_direction<F: Fn(Op) -> Scalar>(self, fpu: &F) -> bool {
        !self.norm(fpu).nan() && self.norm(fpu).magnitude() != 0
    }

    /// The vector divided by its length.
    pub open spec fn unit<F: Fn(Op) -> Scalar>(self, fpu: &F) -> Vec3 {
        self.divided(self.norm(fpu), fpu)
    }

    /// The origin, the zero vector.
    #[verifier::when_used_as_spec(spec_origin)]
    pub fn origin() -> (r: Vec3)
        ensures
            r == Vec3::spec_origin(),
    {
        Vec3 { x: Scalar { bits: 0 }, y: Scalar { bits: 0 }, z: Scalar { bits: 0 } }
    }

    /// The unit vector in the x direction.
    #[verifier::when_used_as_spec(spec_unit_x)]
    pub fn unit_x() -> (r: Vec3)
        ensures
            r == Vec3::spec_unit_x(),
    {
        Vec3 { x: Scalar { bits: ONE_BITS }, y: Scalar { bits: 0 }, z: Scalar { bits: 0 } }
    }

    /// The unit vector in the y direction.
    #[verifier::when_used_as_spec(spec_unit_y)]
    pub fn unit_y() -> (r: Vec3)
        ensures
            r == Vec3::spec_unit_y(),
    {
        Vec3 { x: Scalar { bits: 0 }, y: Scalar { bits: ONE_BITS }, z: Scalar { bits: 0 } }
    }

    /// The unit vector in the z direction.
    #[verifier::when_used_as_spec(spec_unit_z)]
    pub fn unit_z() -> (r: Vec3)
        ensures
            r == Vec3::spec_unit_z(),
    {
        Vec3 { x: Scalar { bits: 0 }, y: Scalar { bits: 0 }, z: Scalar { bits: ONE_BITS } }
    }

    /// The vector with the given components.
    pub fn new(x: Scalar, y: Scalar, z: Scalar) -> (r: Vec3)
        ensures
            r == (Vec3 { x, y, z }),
    {
        Vec3 { x, y, z }
    }

    /// Applies `f` to each component.
    pub fn unary<F: Fn(Scalar) -> Scalar>(self, f: F) -> (r: Vec3)
        requires
            f.requires((self.x,)),
            f.requires((self.y,)),
            f.requires((self.z,)),
        ensures
            f.ensures((self.x,), r.x),
            f.ensures((self.y,), r.y),
            f.ensures((self.z,), r.z),
    {
        Vec3 { x: f(self.x), y: f(self.y), z: f(self.z) }
    }

    /// Applies `f` to each pair of corresponding components.
    pub fn binary<F: Fn(Scalar, Scalar) -> Scalar>(self, other: Vec3, f: F) -> (r: Vec3)
        requires
            f.requires((self.x, other.x)),
            f.requires((self.y, other.y)),
            f.requires((self.z, other.z)),
        ensures
            f.ensures((self.x, other.x), r.x),
            f.ensures((self.y, other.y), r.y),
            f.ensures((self.z, other.z), r.z),
    {
        Vec3 { x: f(self.x, other.x), y: f(self.y, other.y), z: f(self.z, other.z) }
    }

    /// Folds the components with `f`, from the last one inwards:
    /// `f(x, f(y, z))`.
    pub fn reduce<F: Fn(Scalar, Scalar) -> Scalar>(self, f: F) -> (r: Scalar)
        requires
            f.requires((self.y, self.z)),
            forall|t: Scalar| f.ensures((self.y, self.z), t) ==> f.requires((self.x, t)),
        ensures
            exists|t: Scalar| f.ensures((self.y, self.z), t) && f.ensures((self.x, t), r),
    {
        let t = f(self.y, self.z);
        f(self.x, t)
    }

    /// The vector with every sign flipped.
    pub fn neg(self) -> (r: Vec3)
        ensures
            r == self.negated(),
    {
        Vec3 { x: self.x.neg(), y: self.y.neg(), z: self.z.neg() }
    }

    /// `self + other`.
    pub fn plus<F: Fn(Op) -> Scalar>(self, other: Vec3, fpu: &F) -> (r: Vec3)
        requires
            is_arithmetic(fpu),
        ensures
            r == self.sum(other, fpu),
    {
        let f = |a: Scalar, b: Scalar| -> (r: Scalar)
            ensures r == apply(fpu, Op::Add(a, b)),
            { run(fpu, Op::Add(a, b)) };
        self.binary(other, f)
    }

    /// `self - other`.
    pub fn minus<F: Fn(Op) -> Scalar>(self, other: Vec3, fpu: &F) -> (r: Vec3)
        requires
            is_arithmetic(fpu),
        ensures
            r == self.difference(other, fpu),
    {
        let f = |a: Scalar, b: Scalar| -> (r: Scalar)
            ensures r == apply(fpu, Op::Sub(a, b)),
            { run(fpu, Op::Sub(a, b)) };
        self.binary(other, f)
    }

    /// `self * k`.
    pub fn times<F: Fn(Op) -> Scalar>(self, k: Scalar, fpu: &F) -> (r: Vec3)
        requires
            is_arithmetic(fpu),
        ensures
            r == self.scaled(k, fpu),
    {
        let f = |a: Scalar| -> (r: Scalar)
            ensures r == apply(fpu, Op::Mul(a, k)),
            { run(fpu, Op::Mul(a, k)) };
        self.unary(f)
    }

    /// `self / k`.
    pub fn over<F: Fn(Op) -> Scalar>(self, k: Scalar, fpu: &F) -> (r: Vec3)
        requires
            is_arithmetic(fpu),
        ensures
            r == self.divided(k, fpu),
    {
        let f = |a: Scalar| -> (r: Scalar)
            ensures r == apply(fpu, Op::Div(a, k)),
            { run(fpu, Op::Div(a, k)) };
        self.unary(f)
    }

    /// The dot product of this vector and another one.
    pub fn dot<F: Fn(Op) -> Scalar>(self, other: Vec3, fpu: &F) -> (r: Scalar)
        requires
            is_arithmetic(fpu),
        ensures
            r == self.dot_product(other, fpu),
    {
        let mul = |a: Scalar, b: Scalar| -> (r: Scalar)
            ensures r == apply(fpu, Op::Mul(a, b)),
            { run(fpu, Op::Mul(a, b)) };
        let add = |a: Scalar, b: Scalar| -> (r: Scalar)
            ensures r == apply(fpu, Op::Add(a, b)),
            { run(fpu, Op::Add(a, b)) };
        self.binary(other, mul).reduce(add)
    }

    /// The length of this vector.
    pub fn length<F: Fn(Op) -> Scalar>(self, fpu: &F) -> (r: Scalar)
        requires
            is_arithmetic(fpu),
        ensures
            r == self.norm(fpu),
    {
        let squared = self.dot(self, fpu);
        run(fpu, Op::Sqrt(squared))
    }

    /// A vector in the same direction as this one, of unit length. A vector
    /// whose length is zero or not a number has no direction.
    pub fn normalized<F: Fn(Op) -> Scalar>(self, fpu: &F) -> (r: Result<Vec3, VectorError>)
        requires
            is_arithmetic(fpu),
        ensures
            self.has_direction(fpu) ==> r == Ok::<Vec3, VectorError>(self.unit(fpu)),
            !self.has_direction(fpu) ==> r == Err::<Vec3, VectorError>(VectorError::Degenerate),
    {
        let len = self.length(fpu);
        if len.is_nan() || len.is_zero() {
            Err(VectorError::Degenerate)
        } else {
            Ok(self.over(len, fpu))
        }
    }
}

impl PartialEq for Vec3 {
    /// Component-wise IEEE 754 equality.
    fn eq(&self, other: &Vec3) -> (r: bool) {
        self.x == other.x && self.y == other.y && self.z == other.z
    }
}

impl PartialEqSpecImpl for Vec3 {
    open spec fn obeys_eq_spec() -> bool {
        true
    }

    open spec fn eq_spec(&self, other: &Vec3) -> bool {
        self.equals(*other)
    }
}

} // verus!
