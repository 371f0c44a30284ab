use std::ops::{Add, Mul, Neg, Sub};
use vstd::prelude::*;
use vstd::std_specs::ops::{AddSpec, MulSpec, NegSpec, SubSpec};

verus! {

/// The one failure of direction-dependent operations: the null vector has no direction.
#[derive(Debug, Clone, Copy, PartialEq, Eq)]
pub enum VectorError {
    VectorNull,
}

/// A vector of three components over a scalar type `S`.
///
/// The arithmetic is written once against the scalar's own operators, so the same
/// type serves real-valued positions and integer lattice positions.
#[derive(Debug, Clone, Copy, PartialEq)]
pub struct Vector3D<S> {
    pub x: S,
    pub y: S,
    pub z: S,
}

impl<S: Copy> Vector3D<S> {
    pub fn new(x: S, y: S, z: S) -> (r: Self)
        ensures
            r.x == x,
            r.y == y,
            r.z == z,
    {
        Vector3D { x, y, z }
    }
}

impl<S: Copy + Add<Output = S>> Add for Vector3D<S> {
    type Output = Self;

    fn add(self, rhs: Self) -> (r: Self) {
        Vector3D { x: self.x + rhs.x, y: self.y + rhs.y, z: self.z + rhs.z }
    }
}

impl<S: Copy + Add<Output = S>> vstd::std_specs::ops::AddSpecImpl for Vector3D<S> {
    open spec fn obeys_add_spec() -> bool {
        S::obeys_add_spec()
    }

    open spec fn add_req(self, rhs: Self) -> bool {
        &&& self.x.add_req(rhs.x)
        &&& self.y.add_req(rhs.y)
        &&& self.z.add_req(rhs.z)
    }

    open spec fn add_spec(self, rhs: Self) -> Self {
        Vector3D { x: self.x.add_spec(rhs.x), y: self.y.add_spec(rhs.y), z: self.z.add_spec(rhs.z) }
    }
}

impl<S: Copy + Sub<Output = S>> Sub for Vector3D<S> {
    type Output = Self;

    fn sub(self, rhs: Self) -> (r: Self) {
        Vector3D { x: self.x - rhs.x, y: self.y - rhs.y, z: self.z - rhs.z }
    }
}

impl<S: Copy + Sub<Output = S>> vstd::std_specs::ops::SubSpecImpl for Vector3D<S> {
    open spec fn obeys_sub_spec() -> bool {
        S::obeys_sub_spec()
    }

    open spec fn sub_req(self, rhs: Self) -> bool {
        &&& self.x.sub_req(rhs.x)
        &&& self.y.sub_req(rhs.y)
        &&& self.z.sub_req(rhs.z)
    }

    open spec fn sub_spec(self, rhs: Self) -> Self {
        Vector3D { x: self.x.sub_spec(rhs.x), y: self.y.sub_spec(rhs.y), z: self.z.sub_spec(rhs.z) }
    }
}

impl<S: Copy + Neg<Output = S>> Neg for Vector3D<S> {
    type Output = Self;

    fn neg(self) -> (r: Self) {
        Vector3D { x: self.x.neg(), y: self.y.neg(), z: self.z.neg() }
    }
}

impl<S: Copy + Neg<Output = S>> vstd::std_specs::ops::NegSpecImpl for Vector3D<S> {
    open spec fn obeys_neg_spec() -> bool {
        S::obeys_neg_spec()
    }

    open spec fn neg_req(self) -> bool {
        &&& self.x.neg_req()
        &&& self.y.neg_req()
        &&& self.z.neg_req()
    }

    open spec fn neg_spec(self) -> Self {
        Vector3D { x: self.x.neg_spec(), y: self.y.neg_spec(), z: self.z.neg_spec() }
    }
}

/// Scaling: every component multiplied by the scalar.
impl<S: Copy + Mul<Output = S>> Mul<S> for Vector3D<S> {
    type Output = Self;

    fn mul(self, rhs: S) -> (r: Self) {
        Vector3D { x: rhs * self.x, y: rhs * self.y, z: rhs * self.z }
    }
}

impl<S: Copy + Mul<Output = S>> vstd::std_specs::ops::MulSpecImpl<S> for Vector3D<S> {
    open spec fn obeys_mul_spec() -> bool {
        S::obeys_mul_spec()
    }

    open spec fn mul_req(self, rhs: S) -> bool {
        &&& rhs.mul_req(self.x)
        &&& rhs.mul_req(self.y)
        &&& rhs.mul_req(self.z)
    }

    open spec fn mul_spec(self, rhs: S) -> Self {
        Vector3D { x: rhs.mul_spec(self.x), y: rhs.mul_spec(self.y), z: rhs.mul_spec(self.z) }
    }
}

/// The dot product `x * x' + y * y' + z * z'` is defined: each product and each partial
/// sum, taken left to right, is within the scalar's range.
pub open spec fn dot_req<S: Copy + Mul<Output = S> + Add<Output = S>>(a: Vector3D<S>, b: Vector3D<S>) -> bool {
    &&& S::obeys_mul_spec()
    &&& S::obeys_add_spec()
    &&& a.x.mul_req(b.x)
    &&& a.y.mul_req(b.y)
    &&& a.z.mul_req(b.z)
    &&& a.x.mul_spec(b.x).add_req(a.y.mul_spec(b.y))
    &&& a.x.mul_spec(b.x).add_spec(a.y.mul_spec(b.y)).add_req(a.z.mul_spec(b.z))
}

/// The value of the dot product, summed left to right.
pub open spec fn dot_spec<S: Copy + Mul<Output = S> + Add<Output = S>>(a: Vector3D<S>, b: Vector3D<S>) -> S {
    a.x.mul_spec(b.x).add_spec(a.y.mul_spec(b.y)).add_spec(a.z.mul_spec(b.z))
}

/// Dot product: a vector times a vector is a scalar.
impl<S: Copy + Mul<Output = S> + Add<Output = S>> Mul<Vector3D<S>> for Vector3D<S> {
    type Output = S;

    fn mul(self, rhs: Vector3D<S>) -> (r: S) {
        self.x * rhs.x + self.y * rhs.y + self.z * rhs.z
    }
}

impl<S: Copy + Mul<Output = S> + Add<Output = S>> vstd::std_specs::ops::MulSpecImpl<Vector3D<S>> for Vector3D<S> {
    open spec fn obeys_mul_spec() -> bool {
        S::obeys_mul_spec() && S::obeys_add_spec()
    }

    open spec fn mul_req(self, rhs: Vector3D<S>) -> bool {
        dot_req(self, rhs)
    }

    open spec fn mul_spec(self, rhs: Vector3D<S>) -> S {
        dot_spec(self, rhs)
    }
}

impl<S: Copy + Mul<Output = S> + Add<Output = S>> Vector3D<S> {
    /// The squared length: the dot product of the vector with itself.
    pub fn norm_squared(&self) -> (r: S)
        requires
            dot_req(*self, *self),
        ensures
            S::obeys_mul_spec() && S::obeys_add_spec() ==> r == dot_spec(*self, *self),
    {
        *self * *self
    }
}

impl Vector3D<i64> {
    /// The vector `(0, 0, 0)`.
    pub fn null_vector() -> (r: Self)
        ensures
            r == null_i64(),
    {
        Vector3D { x: 0, y: 0, z: 0 }
    }

    /// Whether every component is exactly zero.
    pub fn is_null(&self) -> (r: bool)
        ensures
            r == (*self == null_i64()),
    {
        self.x == 0 && self.y == 0 && self.z == 0
    }
}

/// The integer null vector.
pub open spec fn null_i64() -> Vector3D<i64> {
    Vector3D { x: 0, y: 0, z: 0 }
}

/// Addition of integer vectors is commutative.
pub proof fn lemma_add_commutative(a: Vector3D<i64>, b: Vector3D<i64>)
    requires
        a.add_req(b),
    ensures
        b.add_req(a),
        a.add_spec(b) == b.add_spec(a),
{
}

/// Addition of integer vectors is associative wherever both groupings stay in range.
pub proof fn lemma_add_associative(a: Vector3D<i64>, b: Vector3D<i64>, c: Vector3D<i64>)
    requires
        a.add_req(b),
        a.add_spec(b).add_req(c),
        b.add_req(c),
    ensures
        a.add_req(b.add_spec(c)),
        a.add_spec(b).add_spec(c) == a.add_spec(b.add_spec(c)),
{
}

/// The null vector is the identity of addition.
pub proof fn lemma_add_null(a: Vector3D<i64>)
    ensures
        a.add_req(null_i64()),
        a.add_spec(null_i64()) == a,
{
}

/// A vector minus itself is the null vector.
pub proof fn lemma_sub_self(a: Vector3D<i64>)
    ensures
        a.sub_req(a),
        a.sub_spec(a) == null_i64(),
{
}

/// Scaling distributes over addition: `s * (a + b) == s * a + s * b`.
pub proof fn lemma_scale_distributes(s: i64, a: Vector3D<i64>, b: Vector3D<i64>)
    requires
        a.add_req(b),
        MulSpec::<i64>::mul_req(a.add_spec(b), s),
        MulSpec::<i64>::mul_req(a, s),
        MulSpec::<i64>::mul_req(b, s),
    ensures
        MulSpec::<i64>::mul_spec(a, s).add_req(MulSpec::<i64>::mul_spec(b, s)),
        MulSpec::<i64>::mul_spec(a.add_spec(b), s) == MulSpec::<i64>::mul_spec(a, s).add_spec(
            MulSpec::<i64>::mul_spec(b, s),
        ),
{
    assert(s * (a.x + b.x) == s * a.x + s * b.x) by (nonlinear_arith);
    assert(s * (a.y + b.y) == s * a.y + s * b.y) by (nonlinear_arith);
    assert(s * (a.z + b.z) == s * a.z + s * b.z) by (nonlinear_arith);
}

/// Negating twice gives the vector back.
pub proof fn lemma_neg_neg(a: Vector3D<i64>)
    requires
        a.neg_req(),
    ensures
        a.neg_spec().neg_req(),
        a.neg_spec().neg_spec() == a,
{
}

/// The dot product of a vector with itself is never negative.
pub proof fn lemma_dot_self_nonnegative(a: Vector3D<i64>)
    requires
        dot_req(a, a),
    ensures
        dot_spec(a, a) >= 0,
{
    assert(a.x * a.x >= 0) by (nonlinear_arith);
    assert(a.y * a.y >= 0) by (nonlinear_arith);
    assert(a.z * a.z >= 0) by (nonlinear_arith);
}

/// The dot product with the null vector is zero.
pub proof fn lemma_dot_null(a: Vector3D<i64>)
    ensures
        dot_req(a, null_i64()),
        dot_spec(a, null_i64()) == 0,
{
}


impl Default for Vector3D<i64> {
    fn default() -> (r: Self)
        ensures
            r == null_i64(),
    {
        Vector3D::null_vector()
    }
}

} // verus!
