//! Elements of the two prime fields of the curve, held as four 64-bit limbs
//! in little-endian order and always read through their integer value.

use vstd::prelude::*;
use vstd::arithmetic::power2::{lemma2_to64, lemma2_to64_rest, lemma_pow2_adds, lemma_pow2_unfold, pow2};
use ark_ed_on_bls12_381::Fq;
use ark_ff::BigInteger256;
use ark_ff::PrimeField;
use ark_ff::ToConstraintField;

verus! {

/// The integer that four little-endian 64-bit limbs stand for.
pub open spec fn limbs_value(l0: u64, l1: u64, l2: u64, l3: u64) -> int {
    l0 as int + 0x1_0000_0000_0000_0000 * (l1 as int + 0x1_0000_0000_0000_0000 * (l2 as int
        + 0x1_0000_0000_0000_0000 * (l3 as int)))
}

/// The modulus of the base field, in which plaintext and ciphertext slots live.
pub open spec fn base_modulus() -> int {
    limbs_value(0xffffffff00000001, 0x53bda402fffe5bfe, 0x3339d80809a1d805, 0x73eda753299d7d48)
}

/// The modulus of the scalar field, in which secret keys and randomness live.
pub open spec fn scalar_modulus() -> int {
    limbs_value(0xd0970e5ed6f72cb7, 0xa6682093ccc81082, 0x06673b0101343b00, 0x0e7db4ea6533afa9)
}

/// Lexicographic comparison of two limb quadruples, most significant first.
fn limbs_below(a0: u64, a1: u64, a2: u64, a3: u64, b0: u64, b1: u64, b2: u64, b3: u64) -> (below:
    bool)
    ensures
        below == (limbs_value(a0, a1, a2, a3) < limbs_value(b0, b1, b2, b3)),
{
    if a3 != b3 {
        a3 < b3
    } else if a2 != b2 {
        a2 < b2
    } else if a1 != b1 {
        a1 < b1
    } else {
        a0 < b0
    }
}

/// Two limb quadruples with the same value are the same quadruple.
pub proof fn lemma_limbs_value_injective(
    a0: u64,
    a1: u64,
    a2: u64,
    a3: u64,
    b0: u64,
    b1: u64,
    b2: u64,
    b3: u64,
)
    requires
        limbs_value(a0, a1, a2, a3) == limbs_value(b0, b1, b2, b3),
    ensures
        a0 == b0,
        a1 == b1,
        a2 == b2,
        a3 == b3,
{
    let t2: int = (a2 as int - b2 as int) + 0x1_0000_0000_0000_0000 * (a3 as int - b3 as int);
    let t1: int = (a1 as int - b1 as int) + 0x1_0000_0000_0000_0000 * t2;
    lemma_small_multiple(a0 as int - b0 as int, t1);
    lemma_small_multiple(a1 as int - b1 as int, t2);
    lemma_small_multiple(a2 as int - b2 as int, a3 as int - b3 as int);
}

/// A number of absolute value below 2^64 that is a multiple of 2^64 is zero.
proof fn lemma_small_multiple(d: int, t: int)
    requires
        d + 0x1_0000_0000_0000_0000 * t == 0,
        -0x1_0000_0000_0000_0000 < d < 0x1_0000_0000_0000_0000,
    ensures
        d == 0,
        t == 0,
{
    if t >= 1 {
        assert(0x1_0000_0000_0000_0000 * t >= 0x1_0000_0000_0000_0000);
    } else if t <= -1 {
        assert(0x1_0000_0000_0000_0000 * t <= -0x1_0000_0000_0000_0000);
    }
}

/// An element of the base field.
#[derive(Clone, Copy, Debug, PartialEq, Eq, Structural)]
pub struct FieldElement {
    pub l0: u64,
    pub l1: u64,
    pub l2: u64,
    pub l3: u64,
}

impl View for FieldElement {
    type V = int;

    open spec fn view(&self) -> int {
        limbs_value(self.l0, self.l1, self.l2, self.l3)
    }
}

impl FieldElement {
    /// The element is canonical: its value is below the modulus.
    pub open spec fn wf(&self) -> bool {
        self@ < base_modulus()
    }

    /// The additive identity, which also marks an empty ciphertext slot.
    pub fn zero() -> (z: FieldElement)
        ensures
            z.wf(),
            z@ == 0,
    {
        FieldElement { l0: 0, l1: 0, l2: 0, l3: 0 }
    }

    /// The element with a small value.
    pub fn from_u64(v: u64) -> (e: FieldElement)
        ensures
            e.wf(),
            e@ == v,
    {
        FieldElement { l0: v, l1: 0, l2: 0, l3: 0 }
    }

    /// The element with the given little-endian limbs, if they are below the
    /// modulus.
    pub fn from_limbs(l0: u64, l1: u64, l2: u64, l3: u64) -> (e: Option<FieldElement>)
        ensures
            e is Some <==> limbs_value(l0, l1, l2, l3) < base_modulus(),
            e is Some ==> e.unwrap() == (FieldElement { l0, l1, l2, l3 }),
    {
        if limbs_below(
            l0,
            l1,
            l2,
            l3,
            0xffffffff00000001,
            0x53bda402fffe5bfe,
            0x3339d80809a1d805,
            0x73eda753299d7d48,
        ) {
            Some(FieldElement { l0, l1, l2, l3 })
        } else {
            None
        }
    }

    /// The four limbs, least significant first.
    pub fn limbs(&self) -> (l: [u64; 4])
        ensures
            l[0] == self.l0,
            l[1] == self.l1,
            l[2] == self.l2,
            l[3] == self.l3,
    {
        [self.l0, self.l1, self.l2, self.l3]
    }

    /// The limbs as they stand, canonical or not.
    pub(crate) fn of_limbs(l: [u64; 4]) -> (e: FieldElement)
        ensures
            e == (FieldElement { l0: l[0], l1: l[1], l2: l[2], l3: l[3] }),
    {
        FieldElement { l0: l[0], l1: l[1], l2: l[2], l3: l[3] }
    }

    /// Whether the limbs are below the modulus.
    pub fn is_canonical(&self) -> (ok: bool)
        ensures
            ok == self.wf(),
    {
        limbs_below(
            self.l0,
            self.l1,
            self.l2,
            self.l3,
            0xffffffff00000001,
            0x53bda402fffe5bfe,
            0x3339d80809a1d805,
            0x73eda753299d7d48,
        )
    }

    /// Whether the element is the additive identity.
    pub fn is_zero(&self) -> (z: bool)
        ensures
            z == (self@ == 0),
    {
        proof {
            if self@ == 0 {
                lemma_limbs_value_injective(self.l0, self.l1, self.l2, self.l3, 0, 0, 0, 0);
            }
        }
        self.l0 == 0 && self.l1 == 0 && self.l2 == 0 && self.l3 == 0
    }

    /// Whether two elements have the same value.
    pub fn same(&self, other: &FieldElement) -> (eq: bool)
        ensures
            eq == (self@ == other@),
            eq == (*self == *other),
    {
        proof {
            if self@ == other@ {
                lemma_limbs_value_injective(
                    self.l0,
                    self.l1,
                    self.l2,
                    self.l3,
                    other.l0,
                    other.l1,
                    other.l2,
                    other.l3,
                );
            }
        }
        self.l0 == other.l0 && self.l1 == other.l1 && self.l2 == other.l2 && self.l3 == other.l3
    }

    /// The embedding of the element into the base field: the element itself.
    pub fn to_field_elements(&self) -> (out: Vec<FieldElement>)
        requires
            self.wf(),
        ensures
            out@ == seq![*self],
    {
        field_embedding(self)
    }

    /// The sum of two elements.
    pub fn add(&self, rhs: &FieldElement) -> (sum: FieldElement)
        requires
            self.wf(),
            rhs.wf(),
        ensures
            sum.wf(),
            sum@ == (self@ + rhs@) % base_modulus(),
    {
        field_add(self, rhs)
    }

    /// The difference of two elements.
    pub fn sub(&self, rhs: &FieldElement) -> (diff: FieldElement)
        requires
            self.wf(),
            rhs.wf(),
        ensures
            diff.wf(),
            diff@ == (self@ - rhs@) % base_modulus(),
    {
        field_sub(self, rhs)
    }
}

/// Calls the addition of `ark_ff`'s prime field on the base field of the
/// curve. Trusted: the sum is the canonical representative of the integer sum
/// modulo the field's modulus.
#[verifier::external_body]
fn field_add(a: &FieldElement, b: &FieldElement) -> (sum: FieldElement)
    requires
        a.wf(),
        b.wf(),
    ensures
        sum.wf(),
        sum@ == (a@ + b@) % base_modulus(),
{
    let x = Fq::from_repr(BigInteger256(a.limbs())).unwrap();
    let y = Fq::from_repr(BigInteger256(b.limbs())).unwrap();
    FieldElement::of_limbs((x + y).into_repr().0)
}

/// Calls the subtraction of `ark_ff`'s prime field on the base field of the
/// curve. Trusted: the difference is the canonical representative of the
/// integer difference modulo the field's modulus.
#[verifier::external_body]
fn field_sub(a: &FieldElement, b: &FieldElement) -> (diff: FieldElement)
    requires
        a.wf(),
        b.wf(),
    ensures
        diff.wf(),
        diff@ == (a@ - b@) % base_modulus(),
{
    let x = Fq::from_repr(BigInteger256(a.limbs())).unwrap();
    let y = Fq::from_repr(BigInteger256(b.limbs())).unwrap();
    FieldElement::of_limbs((x - y).into_repr().0)
}

/// Calls `to_field_elements` of `ark_ff` on an element of the base field,
/// with the base field itself as the target. Trusted: the result holds the
/// element and nothing else.
#[verifier::external_body]
fn field_embedding(e: &FieldElement) -> (out: Vec<FieldElement>)
    requires
        e.wf(),
    ensures
        out@ == seq![*e],
{
    let x = Fq::from_repr(BigInteger256(e.limbs())).unwrap();
    let fes: Vec<Fq> = x.to_field_elements().unwrap();
    fes.iter().map(|f| FieldElement::of_limbs(f.into_repr().0)).collect()
}

/// An element of the scalar field: a secret key or an encryption randomness.
#[derive(Clone, Copy, Debug, PartialEq, Eq, Structural)]
pub struct Scalar {
    pub l0: u64,
    pub l1: u64,
    pub l2: u64,
    pub l3: u64,
}

impl View for Scalar {
    type V = int;

    open spec fn view(&self) -> int {
        limbs_value(self.l0, self.l1, self.l2, self.l3)
    }
}

impl Scalar {
    /// The scalar is canonical: its value is below the group order.
    pub open spec fn wf(&self) -> bool {
        self@ < scalar_modulus()
    }

    /// The four limbs, least significant first.
    pub fn limbs(&self) -> (l: [u64; 4])
        ensures
            l[0] == self.l0,
            l[1] == self.l1,
            l[2] == self.l2,
            l[3] == self.l3,
    {
        [self.l0, self.l1, self.l2, self.l3]
    }

    /// The scalar with a small value.
    pub fn from_u64(v: u64) -> (s: Scalar)
        ensures
            s.wf(),
            s@ == v,
    {
        Scalar { l0: v, l1: 0, l2: 0, l3: 0 }
    }

    /// The scalar with the given little-endian limbs, if they are below the
    /// group order.
    pub fn from_limbs(l0: u64, l1: u64, l2: u64, l3: u64) -> (s: Option<Scalar>)
        ensures
            s is Some <==> limbs_value(l0, l1, l2, l3) < scalar_modulus(),
            s is Some ==> s.unwrap() == (Scalar { l0, l1, l2, l3 }),
    {
        if limbs_below(
            l0,
            l1,
            l2,
            l3,
            0xd0970e5ed6f72cb7,
            0xa6682093ccc81082,
            0x06673b0101343b00,
            0x0e7db4ea6533afa9,
        ) {
            Some(Scalar { l0, l1, l2, l3 })
        } else {
            None
        }
    }

    /// Whether the limbs are below the group order.
    pub fn is_canonical(&self) -> (ok: bool)
        ensures
            ok == self.wf(),
    {
        limbs_below(
            self.l0,
            self.l1,
            self.l2,
            self.l3,
            0xd0970e5ed6f72cb7,
            0xa6682093ccc81082,
            0x06673b0101343b00,
            0x0e7db4ea6533afa9,
        )
    }

    /// The 256 bits of the scalar, least significant first: the binary
    /// representation of its value. This is the one encoding from which both
    /// the native scheme and a circuit read the randomness.
    pub fn to_bits_le(&self) -> (bits: Vec<bool>)
        ensures
            bits@.len() == 256,
            bits_value(bits@) == self@,
    {
        let mut bits: Vec<bool> = Vec::new();
        assert(bits_value(bits@) == 0);
        push_limb_bits(&mut bits, self.l0);
        let ghost v0 = bits_value(bits@);
        push_limb_bits(&mut bits, self.l1);
        let ghost v1 = bits_value(bits@);
        push_limb_bits(&mut bits, self.l2);
        let ghost v2 = bits_value(bits@);
        push_limb_bits(&mut bits, self.l3);
        proof {
            let r: int = 0x1_0000_0000_0000_0000;
            let (l0, l1, l2, l3) = (self.l0 as int, self.l1 as int, self.l2 as int, self.l3 as int);
            lemma2_to64();
            lemma2_to64_rest();
            lemma_pow2_adds(64, 64);
            lemma_pow2_adds(64, 128);
            assert(pow2(0) * l0 == l0) by (nonlinear_arith)
                requires
                    pow2(0) == 1,
            ;
            assert(pow2(64) * l1 == r * l1) by (nonlinear_arith)
                requires
                    pow2(64) == r,
            ;
            assert(pow2(128) * l2 == r * (r * l2)) by (nonlinear_arith)
                requires
                    pow2(128) == pow2(64) * pow2(64),
                    pow2(64) == r,
            ;
            assert(pow2(192) * l3 == r * (r * (r * l3))) by (nonlinear_arith)
                requires
                    pow2(192) == pow2(64) * pow2(128),
                    pow2(128) == pow2(64) * pow2(64),
                    pow2(64) == r,
            ;
            assert(v0 == l0);
            assert(v1 == l0 + r * l1);
            assert(v2 == l0 + r * l1 + r * (r * l2));
            assert(r * (l1 + r * (l2 + r * l3)) == r * l1 + r * (r * l2) + r * (r * (r * l3)))
                by (nonlinear_arith);
        }
        bits
    }
}

/// The number that a sequence of bits stands for, least significant first.
pub open spec fn bits_value(bits: Seq<bool>) -> int
    decreases bits.len(),
{
    if bits.len() == 0 {
        0
    } else {
        bits_value(bits.drop_last()) + if bits.last() {
            pow2((bits.len() - 1) as nat) as int
        } else {
            0
        }
    }
}

/// Appends the 64 bits of a limb, least significant first.
fn push_limb_bits(bits: &mut Vec<bool>, limb: u64)
    ensures
        final(bits)@.len() == old(bits)@.len() + 64,
        bits_value(final(bits)@) == bits_value(old(bits)@) + pow2(old(bits)@.len()) * limb,
{
    let ghost before = bits@;
    let ghost mut weight: int = pow2(before.len()) as int;
    let mut rest: u64 = limb;
    let mut k: u32 = 0;
    proof {
        lemma2_to64();
        lemma2_to64_rest();
    }
    while k < 64
        invariant
            k <= 64,
            bits@.len() == before.len() + k,
            weight == pow2(bits@.len()),
            rest < pow2((64 - k) as nat),
            bits_value(bits@) + weight * rest == bits_value(before) + pow2(before.len()) * limb,
        decreases 64 - k,
    {
        let bit: bool = rest % 2 == 1;
        let half: u64 = rest / 2;
        let ghost prior = bits@;
        bits.push(bit);
        proof {
            let b: int = if bit { 1 } else { 0 };
            assert(bits@.drop_last() =~= prior);
            assert(bits_value(bits@) == bits_value(prior) + b * weight) by {
                assert(b * weight == if bit { weight } else { 0 }) by (nonlinear_arith)
                    requires
                        b == (if bit { 1int } else { 0int }),
                ;
            }
            assert(rest == 2 * half + b);
            assert(b * weight + (2 * weight) * half == weight * rest) by (nonlinear_arith)
                requires
                    rest == 2 * half + b,
            ;
            lemma_pow2_unfold(bits@.len());
            lemma_pow2_unfold((64 - k) as nat);
            weight = 2 * weight;
        }
        rest = half;
        k = k + 1;
    }
    proof {
        assert(rest == 0);
        assert(weight * rest == 0) by (nonlinear_arith)
            requires
                rest == 0,
        ;
    }
}

} // verus!
