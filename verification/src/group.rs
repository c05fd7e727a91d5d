//! Points of the JubJub curve in affine coordinates, and the group operations
//! that the scheme takes from `ark_ec`.

use vstd::prelude::*;
use crate::field::{base_modulus, limbs_value, FieldElement, Scalar};
use ark_ec::ProjectiveCurve;
use ark_ed_on_bls12_381::{EdwardsAffine, EdwardsProjective, Fq, Fr};
use ark_ff::BigInteger256;
use ark_ff::PrimeField;
use ark_ff::ToConstraintField;
use std::ops::MulAssign;

verus! {

/// The coefficient `d` of the curve `-x^2 + y^2 = 1 + d x^2 y^2`.
pub open spec fn curve_d() -> int {
    limbs_value(0x01065fd6d6343eb1, 0x292d7f6d37579d26, 0xf5fd9207e6bd7fd4, 0x2a9318e74bfa2b48)
}

/// The first coordinate of the generator of the prime-order subgroup.
pub open spec fn generator_x() -> int {
    limbs_value(0x3e6b071492d1122b, 0xe72f6afd7d1f7262, 0x86a365b99fbf3d3b, 0x11dafe5d23e12180)
}

/// The second coordinate of the generator of the prime-order subgroup.
pub open spec fn generator_y() -> int {
    limbs_value(0xcc3f870e59d292aa, 0x3e26ba5cc220fed7, 0x93132e78c866c0c3, 0x1d523cf1ddab1a17)
}

/// The curve equation on the integer values of two coordinates.
pub open spec fn on_curve(x: int, y: int) -> bool {
    (y * y - x * x) % base_modulus() == (1 + curve_d() * (x * x * (y * y))) % base_modulus()
}

/// The affine coordinates of the product of the point `(x, y)` by the scalar
/// `k`, as `ark_ec` computes it.
pub uninterp spec fn group_mul(x: int, y: int, k: int) -> (int, int);

/// A point of the curve in affine coordinates.
#[derive(Clone, Copy, Debug, PartialEq, Eq, Structural)]
pub struct Point {
    pub x: FieldElement,
    pub y: FieldElement,
}

impl View for Point {
    type V = (int, int);

    open spec fn view(&self) -> (int, int) {
        (self.x@, self.y@)
    }
}

impl Point {
    /// Both coordinates are canonical and satisfy the curve equation.
    pub open spec fn wf(&self) -> bool {
        &&& self.x.wf()
        &&& self.y.wf()
        &&& on_curve(self.x@, self.y@)
    }

    /// The point with the given coordinates, if they are canonical and lie on
    /// the curve.
    pub fn new(x: FieldElement, y: FieldElement) -> (p: Option<Point>)
        ensures
            p is Some <==> (Point { x, y }).wf(),
            p is Some ==> p.unwrap() == (Point { x, y }),
    {
        if x.is_canonical() && y.is_canonical() && curve_contains(&x, &y) {
            Some(Point { x, y })
        } else {
            None
        }
    }

    /// Whether the coordinates are canonical and lie on the curve.
    pub fn is_valid(&self) -> (ok: bool)
        ensures
            ok == self.wf(),
    {
        self.x.is_canonical() && self.y.is_canonical() && curve_contains(&self.x, &self.y)
    }

    /// The generator of the prime-order subgroup.
    pub fn generator() -> (g: Point)
        ensures
            g.wf(),
            g@ == (generator_x(), generator_y()),
    {
        subgroup_generator()
    }

    /// The product of the point by a scalar.
    pub fn mul(&self, k: &Scalar) -> (p: Point)
        requires
            self.wf(),
            k.wf(),
        ensures
            p.wf(),
            p@ == group_mul(self.x@, self.y@, k@),
    {
        scalar_mul(self, k)
    }

    /// Whether two points are the same point.
    pub fn same(&self, other: &Point) -> (eq: bool)
        ensures
            eq == (self@ == other@),
            eq == (*self == *other),
    {
        let ex = self.x.same(&other.x);
        let ey = self.y.same(&other.y);
        ex && ey
    }

    /// The embedding of the point into the base field: its two coordinates.
    pub fn to_field_elements(&self) -> (out: Vec<FieldElement>)
        requires
            self.wf(),
        ensures
            out@ == seq![self.x, self.y],
    {
        point_embedding(self)
    }
}

/// Calls `is_on_curve` of `ark_ec`'s twisted Edwards affine point. Trusted:
/// the answer is the curve equation, evaluated in the base field.
#[verifier::external_body]
fn curve_contains(x: &FieldElement, y: &FieldElement) -> (yes: bool)
    requires
        x.wf(),
        y.wf(),
    ensures
        yes == on_curve(x@, y@),
{
    let px = Fq::from_repr(BigInteger256(x.limbs())).unwrap();
    let py = Fq::from_repr(BigInteger256(y.limbs())).unwrap();
    EdwardsAffine::new(px, py).is_on_curve()
}

/// Calls `prime_subgroup_generator` of `ark_ec`'s projective curve. Trusted:
/// the point has the coordinates that the curve's parameters give, and they
/// lie on the curve.
#[verifier::external_body]
fn subgroup_generator() -> (g: Point)
    ensures
        g.wf(),
        g@ == (generator_x(), generator_y()),
{
    let a = EdwardsProjective::prime_subgroup_generator().into_affine();
    Point {
        x: FieldElement::of_limbs(a.x.into_repr().0),
        y: FieldElement::of_limbs(a.y.into_repr().0),
    }
}

/// Calls `mul_assign` of `ark_ec`'s projective curve, then `into_affine`.
/// Trusted: the product of a point of the curve is again a point of the
/// curve with canonical coordinates, and it depends on the coordinates and
/// the scalar alone. Nothing is claimed of how two products relate.
#[verifier::external_body]
fn scalar_mul(p: &Point, k: &Scalar) -> (out: Point)
    requires
        p.wf(),
        k.wf(),
    ensures
        out.wf(),
        out@ == group_mul(p.x@, p.y@, k@),
{
    let px = Fq::from_repr(BigInteger256(p.x.limbs())).unwrap();
    let py = Fq::from_repr(BigInteger256(p.y.limbs())).unwrap();
    let mut q = EdwardsProjective::from(EdwardsAffine::new(px, py));
    q.mul_assign(Fr::from_repr(BigInteger256(k.limbs())).unwrap());
    let a = q.into_affine();
    Point {
        x: FieldElement::of_limbs(a.x.into_repr().0),
        y: FieldElement::of_limbs(a.y.into_repr().0),
    }
}

/// Calls `to_field_elements` of `ark_ff` on the affine point, with the base
/// field as the target. Trusted: the result is the first coordinate followed
/// by the second.
#[verifier::external_body]
fn point_embedding(p: &Point) -> (out: Vec<FieldElement>)
    requires
        p.wf(),
    ensures
        out@ == seq![p.x, p.y],
{
    let px = Fq::from_repr(BigInteger256(p.x.limbs())).unwrap();
    let py = Fq::from_repr(BigInteger256(p.y.limbs())).unwrap();
    let fes: Vec<Fq> = EdwardsAffine::new(px, py).to_field_elements().unwrap();
    fes.iter().map(|f| FieldElement::of_limbs(f.into_repr().0)).collect()
}

} // verus!
