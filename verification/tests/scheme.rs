use ark_ec::ProjectiveCurve;
use ark_ed_on_bls12_381::constraints::EdwardsVar;
use ark_ed_on_bls12_381::{EdwardsAffine, EdwardsProjective, Fq, Fr};
use ark_ff::{BigInteger256, One, PrimeField, UniformRand, Zero};
use ark_r1cs_std::alloc::AllocVar;
use ark_r1cs_std::boolean::Boolean;
use ark_r1cs_std::eq::EqGadget;
use ark_r1cs_std::fields::fp::FpVar;
use ark_r1cs_std::fields::FieldVar;
use ark_r1cs_std::groups::CurveVar;
use ark_r1cs_std::R1CSVar;
use ark_relations::r1cs::ConstraintSystem;
use ark_sponge::constraints::CryptographicSpongeVar;
use ark_sponge::poseidon::constraints::PoseidonSpongeVar;
use ark_sponge::poseidon::{PoseidonParameters, PoseidonSponge};
use ark_sponge::CryptographicSponge;
use std::ops::MulAssign;
use verifiable_encryption::circuit::{
    check_widths, pad_slots, slots_are_valid, Ciphertext, EncryptCircuit, Parameters, Randomness,
    SchemeError,
};
use verifiable_encryption::field::{FieldElement, Scalar};
use verifiable_encryption::group::Point;
use verifiable_encryption::sponge::PoseidonConfig;

const FULL_ROUNDS: u32 = 8;
const PARTIAL_ROUNDS: u32 = 24;
const ALPHA: u64 = 5;

fn fe(v: u64) -> FieldElement {
    FieldElement::from_u64(v)
}

fn fe_of(x: Fq) -> FieldElement {
    let l = x.into_repr().0;
    FieldElement::from_limbs(l[0], l[1], l[2], l[3]).unwrap()
}

fn fq_of(e: &FieldElement) -> Fq {
    Fq::from_repr(BigInteger256::new([e.l0, e.l1, e.l2, e.l3])).unwrap()
}

fn scalar_of(x: Fr) -> Scalar {
    let l = x.into_repr().0;
    Scalar::from_limbs(l[0], l[1], l[2], l[3]).unwrap()
}

fn point_of(p: EdwardsProjective) -> Point {
    let a = p.into_affine();
    Point::new(fe_of(a.x), fe_of(a.y)).unwrap()
}

fn affine_of(p: &Point) -> EdwardsAffine {
    EdwardsAffine::new(fq_of(&p.x), fq_of(&p.y))
}

fn mds() -> Vec<Vec<FieldElement>> {
    vec![
        vec![fe(2), fe(3), fe(1)],
        vec![fe(1), fe(2), fe(3)],
        vec![fe(3), fe(1), fe(2)],
    ]
}

fn ark() -> Vec<Vec<FieldElement>> {
    let mut rows = Vec::new();
    for i in 0..(FULL_ROUNDS + PARTIAL_ROUNDS) as u64 {
        rows.push(vec![fe(1000 + 3 * i), fe(1001 + 3 * i), fe(1002 + 3 * i)]);
    }
    rows
}

fn poseidon() -> PoseidonConfig {
    PoseidonConfig::new(FULL_ROUNDS, PARTIAL_ROUNDS, ALPHA, mds(), ark()).unwrap()
}

fn outside_poseidon() -> PoseidonParameters<Fq> {
    let cv = |m: Vec<Vec<FieldElement>>| -> Vec<Vec<Fq>> {
        m.iter().map(|r| r.iter().map(fq_of).collect()).collect()
    };
    PoseidonParameters::new(FULL_ROUNDS, PARTIAL_ROUNDS, ALPHA, cv(mds()), cv(ark()))
}

fn params(n: usize) -> Parameters {
    Parameters::default_multi(n, poseidon())
}

fn keys(seed: u64) -> (Scalar, Point) {
    EncryptCircuit::keygen(Scalar::from_u64(seed))
}

fn bump(e: &FieldElement) -> FieldElement {
    e.add(&fe(1))
}

/// Builds the constraints of the instance in a fresh constraint system and
/// says whether they are satisfied.
fn constraints_satisfied(circuit: &EncryptCircuit) -> bool {
    let cs = ConstraintSystem::<Fq>::new_ref();
    let message: Vec<FpVar<Fq>> = circuit
        .plaintext_var()
        .iter()
        .map(|m| FpVar::new_witness(cs.clone(), || Ok(fq_of(m))).unwrap())
        .collect();
    let public = circuit.ciphertext_var();
    let c1_point: EdwardsProjective = affine_of(&public.0).into();
    let public_c1 = EdwardsVar::new_input(cs.clone(), || Ok(c1_point)).unwrap();
    let public_c2: Vec<FpVar<Fq>> = public
        .1
        .iter()
        .map(|c| FpVar::new_input(cs.clone(), || Ok(fq_of(c))).unwrap())
        .collect();
    let g = EdwardsVar::new_constant(cs.clone(), EdwardsProjective::prime_subgroup_generator())
        .unwrap();
    let randomness: Vec<Boolean<Fq>> = circuit
        .r
        .0
        .to_bits_le()
        .into_iter()
        .map(|b| Boolean::new_witness(cs.clone(), || Ok(b)).unwrap())
        .collect();
    let pk_point: EdwardsProjective = affine_of(&circuit.pk).into();
    let pk = EdwardsVar::new_witness(cs.clone(), || Ok(pk_point)).unwrap();
    let s = pk.scalar_mul_le(randomness.iter()).unwrap();
    let c1 = g.scalar_mul_le(randomness.iter()).unwrap();
    let mut sponge = PoseidonSpongeVar::new(cs.clone(), &outside_poseidon());
    sponge.absorb(&s).unwrap();
    let dh = sponge.squeeze_field_elements(1).unwrap()[0].clone();
    c1.enforce_equal(&public_c1).unwrap();
    for (m, exp) in message.iter().zip(public_c2.iter()) {
        let c2 = dh.clone() + m;
        let is_not_empty = exp.is_zero().unwrap().not();
        c2.conditional_enforce_equal(exp, &is_not_empty).unwrap();
    }
    cs.is_satisfied().unwrap()
}

#[test]
fn constraint_system_agrees_with_the_relation() {
    let (_, pk) = keys(0x5eed);
    let r = Randomness(Scalar::from_u64(0xabcdef));
    let msg = vec![fe(1234), fe(5678)];
    let mut circuit = EncryptCircuit::new(pk, msg, params(3), r).unwrap();
    assert!(circuit.is_satisfied());
    assert!(constraints_satisfied(&circuit));
    let honest = circuit.resulted_ciphertext.clone();
    circuit.resulted_ciphertext.1[0] = bump(&honest.1[0]);
    assert!(!circuit.is_satisfied());
    assert!(!constraints_satisfied(&circuit));
    circuit.resulted_ciphertext = (honest.0.mul(&Scalar::from_u64(3)), honest.1.clone());
    assert!(!circuit.is_satisfied());
    assert!(!constraints_satisfied(&circuit));
    circuit.resulted_ciphertext = (honest.0, vec![honest.1[0], fe(0)]);
    assert!(circuit.is_satisfied());
    assert!(constraints_satisfied(&circuit));
    circuit.resulted_ciphertext = honest;
    circuit.msg = vec![fe(1234), fe(5679)];
    assert!(!circuit.is_satisfied());
    assert!(!constraints_satisfied(&circuit));
}

#[test]
fn field_add_wraps_at_the_modulus() {
    let p_minus_1 = fe_of(-Fq::one());
    assert_eq!(p_minus_1.add(&fe(2)), fe(1));
    assert_eq!(fe(7).add(&fe(8)), fe(15));
    assert_eq!(fe(0).add(&fe(0)), FieldElement::zero());
}

#[test]
fn field_sub_wraps_below_zero() {
    let p_minus_2 = fe_of(-Fq::from(2u64));
    assert_eq!(fe(3).sub(&fe(5)), p_minus_2);
    assert_eq!(fe(9).sub(&fe(4)), fe(5));
    assert_eq!(
        p_minus_2,
        FieldElement {
            l0: 0xfffffffeffffffff,
            l1: 0x53bda402fffe5bfe,
            l2: 0x3339d80809a1d805,
            l3: 0x73eda753299d7d48
        }
    );
}

#[test]
fn from_limbs_accepts_exactly_the_canonical_values() {
    assert!(FieldElement::from_limbs(
        0xffffffff00000001,
        0x53bda402fffe5bfe,
        0x3339d80809a1d805,
        0x73eda753299d7d48
    )
    .is_none());
    assert!(FieldElement::from_limbs(
        0xffffffff00000000,
        0x53bda402fffe5bfe,
        0x3339d80809a1d805,
        0x73eda753299d7d48
    )
    .is_some());
    assert!(FieldElement::from_limbs(0, 0, 0, 0x73eda753299d7d49).is_none());
    assert!(FieldElement::from_limbs(u64::MAX, u64::MAX, u64::MAX, 0x73eda753299d7d47).is_some());
    assert!(Scalar::from_limbs(
        0xd0970e5ed6f72cb7,
        0xa6682093ccc81082,
        0x06673b0101343b00,
        0x0e7db4ea6533afa9
    )
    .is_none());
    assert!(Scalar::from_limbs(
        0xd0970e5ed6f72cb6,
        0xa6682093ccc81082,
        0x06673b0101343b00,
        0x0e7db4ea6533afa9
    )
    .is_some());
    assert!(!FieldElement { l0: 0, l1: 0, l2: 0, l3: u64::MAX }.is_canonical());
    assert!(fe(1).is_canonical());
}

#[test]
fn zero_and_equality_go_by_value() {
    assert!(FieldElement::zero().is_zero());
    assert!(!fe(1).is_zero());
    assert!(!FieldElement { l0: 0, l1: 0, l2: 1, l3: 0 }.is_zero());
    assert!(fe(4).same(&fe(4)));
    assert!(!fe(4).same(&fe(5)));
}

#[test]
fn scalar_bits_are_little_endian() {
    let bits = Scalar::from_u64(5).to_bits_le();
    assert_eq!(bits.len(), 256);
    assert!(bits[0] && !bits[1] && bits[2]);
    assert!(bits[3..].iter().all(|b| !b));
    let mut rng = ark_std::test_rng();
    let x = Fr::rand(&mut rng);
    let expected: Vec<bool> = ark_ff::BitIteratorLE::new(x.into_repr()).collect();
    assert_eq!(scalar_of(x).to_bits_le(), expected);
    let high = Scalar { l0: 0, l1: 2, l2: 0, l3: 1 }.to_bits_le();
    for (i, b) in high.iter().enumerate() {
        assert_eq!(*b, i == 65 || i == 192);
    }
}

#[test]
fn generator_is_the_curve_generator() {
    let g = Point::generator();
    assert_eq!(g, point_of(EdwardsProjective::prime_subgroup_generator()));
    assert!(Point::new(g.x, g.y).is_some());
    assert_eq!(
        g.x,
        FieldElement {
            l0: 0x3e6b071492d1122b,
            l1: 0xe72f6afd7d1f7262,
            l2: 0x86a365b99fbf3d3b,
            l3: 0x11dafe5d23e12180
        }
    );
    assert_eq!(
        g.y,
        FieldElement {
            l0: 0xcc3f870e59d292aa,
            l1: 0x3e26ba5cc220fed7,
            l2: 0x93132e78c866c0c3,
            l3: 0x1d523cf1ddab1a17
        }
    );
}

#[test]
fn point_new_checks_the_curve_equation() {
    assert!(Point::new(fe(0), fe(1)).is_some());
    assert!(Point::new(fe(1), fe(1)).is_none());
    assert!(Point::new(fe(2), fe(3)).is_none());
    let off = FieldElement { l0: 0, l1: 0, l2: 0, l3: u64::MAX };
    assert!(Point::new(off, fe(1)).is_none());
}

#[test]
fn scalar_multiplication_agrees_with_the_curve() {
    let g = Point::generator();
    let mut expected = EdwardsProjective::prime_subgroup_generator();
    expected.mul_assign(Fr::from(12345u64));
    let got = g.mul(&Scalar::from_u64(12345));
    assert_eq!(got, point_of(expected));
    assert_ne!(got, g);
    assert_eq!(g.mul(&Scalar::from_u64(1)), g);
    assert_eq!(g.mul(&Scalar::from_u64(0)), Point::new(fe(0), fe(1)).unwrap());
    let a = Scalar::from_u64(77);
    let b = Scalar::from_u64(1234567);
    assert_eq!(g.mul(&a).mul(&b), g.mul(&b).mul(&a));
}

#[test]
fn point_embedding_is_its_coordinates() {
    let p = Point::generator().mul(&Scalar::from_u64(9));
    assert_eq!(p.to_field_elements(), vec![p.x, p.y]);
    assert_eq!(fe(42).to_field_elements(), vec![fe(42)]);
}

#[test]
fn poseidon_config_checks_shapes() {
    assert!(PoseidonConfig::new(FULL_ROUNDS, PARTIAL_ROUNDS, ALPHA, mds(), ark()).is_some());
    let mut short = ark();
    short.pop();
    assert!(PoseidonConfig::new(FULL_ROUNDS, PARTIAL_ROUNDS, ALPHA, mds(), short).is_none());
    let mut wide = ark();
    wide[3].push(fe(1));
    assert!(PoseidonConfig::new(FULL_ROUNDS, PARTIAL_ROUNDS, ALPHA, mds(), wide).is_none());
    let mut small = mds();
    small.pop();
    assert!(PoseidonConfig::new(FULL_ROUNDS, PARTIAL_ROUNDS, ALPHA, small, ark()).is_none());
    let mut ragged = mds();
    ragged[1].pop();
    assert!(PoseidonConfig::new(FULL_ROUNDS, PARTIAL_ROUNDS, ALPHA, ragged, ark()).is_none());
    let mut loose = mds();
    loose[0][0] = FieldElement { l0: 0, l1: 0, l2: 0, l3: u64::MAX };
    assert!(PoseidonConfig::new(FULL_ROUNDS, PARTIAL_ROUNDS, ALPHA, loose, ark()).is_none());
    assert!(PoseidonConfig::new(u32::MAX, 1, ALPHA, mds(), ark()).is_none());
    assert!(poseidon().is_valid());
}

#[test]
fn pad_agrees_with_the_native_sponge() {
    let shared = Point::generator().mul(&Scalar::from_u64(31));
    let dh = poseidon().derive_pad(&shared);
    let mut sponge = PoseidonSponge::new(&outside_poseidon());
    sponge.absorb(&affine_of(&shared));
    let expected = sponge.squeeze_field_elements::<Fq>(1).remove(0);
    assert_eq!(dh, fe_of(expected));
    assert_ne!(dh, shared.x);
    assert_ne!(dh, shared.y);
    let other = Point::generator().mul(&Scalar::from_u64(32));
    assert_ne!(poseidon().derive_pad(&other), dh);
}

#[test]
fn pad_agrees_with_the_sponge_gadget() {
    let shared = Point::generator().mul(&Scalar::from_u64(31));
    let dh = poseidon().derive_pad(&shared);
    let cs = ConstraintSystem::<Fq>::new_ref();
    let x: EdwardsProjective = affine_of(&shared).into();
    let x_var = EdwardsVar::new_witness(cs.clone(), || Ok(x)).unwrap();
    let mut sponge = PoseidonSpongeVar::new(cs.clone(), &outside_poseidon());
    sponge.absorb(&x_var).unwrap();
    let out = sponge.squeeze_field_elements(1).unwrap();
    assert_eq!(fe_of(out[0].value().unwrap()), dh);
    assert!(cs.is_satisfied().unwrap());
}

#[test]
fn keygen_is_reproducible_and_matches_the_generator() {
    let mut rng = ark_std::test_rng();
    let secret = Fr::rand(&mut rng);
    let mut again = ark_std::test_rng();
    let secret_again = Fr::rand(&mut again);
    let (sk, pk) = EncryptCircuit::keygen(scalar_of(secret));
    let (sk2, pk2) = EncryptCircuit::keygen(scalar_of(secret_again));
    assert_eq!(sk, sk2);
    assert_eq!(pk, pk2);
    assert_eq!(sk, scalar_of(secret));
    let mut expected = EdwardsProjective::prime_subgroup_generator();
    expected.mul_assign(secret);
    assert_eq!(pk, point_of(expected));
    assert_eq!(pk, Point::generator().mul(&sk));
}

#[test]
fn decrypt_recovers_the_message() {
    let mut rng = ark_std::test_rng();
    let p = params(4);
    for len in 0..=4usize {
        let (sk, pk) = EncryptCircuit::keygen(scalar_of(Fr::rand(&mut rng)));
        let r = Randomness(scalar_of(Fr::rand(&mut rng)));
        let msg: Vec<FieldElement> = (0..len).map(|_| fe_of(Fq::rand(&mut rng))).collect();
        let cipher = EncryptCircuit::encrypt(&pk, &msg, &r, &p);
        assert_eq!(cipher.1.len(), len);
        let back = EncryptCircuit::decrypt(cipher, sk, &p);
        assert_eq!(back, msg);
    }
}

#[test]
fn encrypt_follows_the_formula() {
    let p = params(2);
    let (_, pk) = keys(5);
    let r = Randomness(Scalar::from_u64(9));
    let msg = vec![fe(10), fe(0)];
    let cipher = EncryptCircuit::encrypt(&pk, &msg, &r, &p);
    let dh = p.poseidon.derive_pad(&pk.mul(&r.0));
    assert_eq!(cipher.0, Point::generator().mul(&r.0));
    assert_eq!(cipher.1, vec![dh.add(&fe(10)), dh]);
    let mut c1 = EdwardsProjective::prime_subgroup_generator();
    c1.mul_assign(Fr::from(9u64));
    assert_eq!(cipher.0, point_of(c1));
}

#[test]
fn encrypt_is_deterministic() {
    let p = params(3);
    let (_, pk) = keys(21);
    let r = Randomness(Scalar::from_u64(1009));
    let msg = vec![fe(1), fe(2), fe(3)];
    let first = EncryptCircuit::encrypt(&pk, &msg, &r, &p);
    let second = EncryptCircuit::encrypt(&pk, &msg, &r, &p);
    assert_eq!(first, second);
    let other = EncryptCircuit::encrypt(&pk, &msg, &Randomness(Scalar::from_u64(1010)), &p);
    assert_ne!(first, other);
}

#[test]
fn decrypt_at_reads_one_slot() {
    let p = params(3);
    let (sk, pk) = keys(8);
    let r = Randomness(Scalar::from_u64(15));
    let msg = vec![fe(100), fe(200), fe(300)];
    let cipher = EncryptCircuit::encrypt(&pk, &msg, &r, &p);
    assert_eq!(EncryptCircuit::decrypt_at(&cipher, 0, sk, &p), Ok(fe(100)));
    assert_eq!(EncryptCircuit::decrypt_at(&cipher, 2, sk, &p), Ok(fe(300)));
    assert_eq!(
        EncryptCircuit::decrypt_at(&cipher, 3, sk, &p),
        Err(SchemeError::SlotOutOfRange)
    );
    let empty: Ciphertext = (cipher.0, Vec::new());
    assert_eq!(
        EncryptCircuit::decrypt_at(&empty, 0, sk, &p),
        Err(SchemeError::SlotOutOfRange)
    );
}

#[test]
fn padding_slots_decrypt_to_the_negated_pad() {
    let p = params(3);
    let (sk, pk) = keys(8);
    let r = Randomness(Scalar::from_u64(15));
    let cipher = EncryptCircuit::encrypt(&pk, &vec![fe(1)], &r, &p);
    let padded: Ciphertext = (cipher.0, pad_slots(&cipher.1, 3));
    let dh = p.poseidon.derive_pad(&pk.mul(&r.0));
    let back = EncryptCircuit::decrypt(padded, sk, &p);
    assert_eq!(back, vec![fe(1), fe(0).sub(&dh), fe(0).sub(&dh)]);
}

#[test]
fn public_inputs_pad_with_zeros() {
    let p = params(4);
    let (_, pk) = keys(3);
    let r = Randomness(Scalar::from_u64(4));
    let cipher = EncryptCircuit::encrypt(&pk, &vec![fe(11), fe(12)], &r, &p);
    let inputs = EncryptCircuit::get_public_inputs(&cipher, &p);
    assert_eq!(
        inputs,
        vec![cipher.0.x, cipher.0.y, cipher.1[0], cipher.1[1], fe(0), fe(0)]
    );
    let none = EncryptCircuit::get_public_inputs(&cipher, &params(0));
    assert_eq!(none, vec![cipher.0.x, cipher.0.y]);
    let cut = EncryptCircuit::get_public_inputs(&cipher, &params(1));
    assert_eq!(cut, vec![cipher.0.x, cipher.0.y, cipher.1[0]]);
}

#[test]
fn pad_slots_fills_and_cuts() {
    assert_eq!(pad_slots(&vec![fe(1), fe(2)], 4), vec![fe(1), fe(2), fe(0), fe(0)]);
    assert_eq!(pad_slots(&vec![fe(1), fe(2)], 1), vec![fe(1)]);
    assert_eq!(pad_slots(&Vec::new(), 0), Vec::<FieldElement>::new());
}

#[test]
fn new_encrypts_the_message() {
    let p = params(3);
    let (_, pk) = keys(13);
    let r = Randomness(Scalar::from_u64(99));
    let msg = vec![fe(5), fe(6)];
    let expected = EncryptCircuit::encrypt(&pk, &msg, &r, &p);
    let circuit = EncryptCircuit::new(pk, msg.clone(), p, r).unwrap();
    assert_eq!(circuit.resulted_ciphertext, expected);
    assert_eq!(circuit.msg, msg);
    assert_eq!(circuit.pk, pk);
    assert_eq!(circuit.params.n, 3);
    assert_eq!(circuit.plaintext_var(), vec![fe(5), fe(6), fe(0)]);
    assert_eq!(
        circuit.ciphertext_var(),
        (expected.0, vec![expected.1[0], expected.1[1], fe(0)])
    );
    assert!(circuit.is_satisfied());
}

#[test]
fn new_refuses_a_message_wider_than_the_batch() {
    let (_, pk) = keys(13);
    let r = Randomness(Scalar::from_u64(99));
    let made = EncryptCircuit::new(pk, vec![fe(1), fe(2)], params(1), r);
    assert!(matches!(made, Err(SchemeError::WidthExceeded)));
    let single = Parameters::single(poseidon());
    assert_eq!(single.n, 1);
    assert!(EncryptCircuit::new(pk, vec![fe(1)], single, r).is_ok());
}

#[test]
fn verify_encryption_refuses_slots_beyond_the_batch() {
    let (_, pk) = keys(13);
    let r = Randomness(Scalar::from_u64(99));
    let circuit = EncryptCircuit::new(pk, vec![fe(1)], params(1), r).unwrap();
    let cipher = circuit.ciphertext_var();
    assert_eq!(
        circuit.verify_encryption(&vec![fe(1), fe(0)], &cipher),
        Err(SchemeError::WidthExceeded)
    );
    let wide: Ciphertext = (cipher.0, vec![cipher.1[0], fe(0)]);
    assert_eq!(
        circuit.verify_encryption(&vec![fe(1)], &wide),
        Err(SchemeError::WidthExceeded)
    );
    assert_eq!(circuit.verify_encryption(&vec![fe(1)], &cipher), Ok(true));
}

#[test]
fn three_slots_two_elements_scenario() {
    let p = params(3);
    let (_, pk) = keys(0x5eed);
    let r = Randomness(Scalar::from_u64(0xabcdef));
    let msg = vec![fe(1234), fe(5678)];
    let mut circuit = EncryptCircuit::new(pk, msg, p, r).unwrap();
    assert_eq!(circuit.resulted_ciphertext.1.len(), 2);
    let inputs = EncryptCircuit::get_public_inputs(&circuit.resulted_ciphertext, &circuit.params);
    assert_eq!(inputs.len(), 5);
    assert_eq!(inputs[4], fe(0));
    assert_eq!(inputs[2], circuit.resulted_ciphertext.1[0]);
    assert!(circuit.is_satisfied());
    circuit.resulted_ciphertext.1[0] = bump(&circuit.resulted_ciphertext.1[0]);
    assert!(!circuit.is_satisfied());
}

#[test]
fn tampering_with_any_real_slot_or_the_point_is_rejected() {
    let (_, pk) = keys(77);
    let r = Randomness(Scalar::from_u64(4242));
    let msg = vec![fe(9), fe(8), fe(7)];
    for i in 0..3usize {
        let mut circuit = EncryptCircuit::new(pk, msg.clone(), params(4), r).unwrap();
        assert!(circuit.is_satisfied());
        circuit.resulted_ciphertext.1[i] = bump(&circuit.resulted_ciphertext.1[i]);
        assert!(!circuit.is_satisfied());
    }
    let mut circuit = EncryptCircuit::new(pk, msg, params(4), r).unwrap();
    circuit.resulted_ciphertext.0 = circuit.resulted_ciphertext.0.mul(&Scalar::from_u64(2));
    assert!(!circuit.is_satisfied());
}

#[test]
fn witness_is_free_where_the_public_slot_is_zero() {
    let (_, pk) = keys(77);
    let r = Randomness(Scalar::from_u64(4242));
    let circuit = EncryptCircuit::new(pk, vec![fe(9)], params(3), r).unwrap();
    let public = circuit.ciphertext_var();
    assert_eq!(public.1[1], fe(0));
    assert_eq!(public.1[2], fe(0));
    assert_eq!(
        circuit.verify_encryption(&vec![fe(9), fe(123), fe(456)], &public),
        Ok(true)
    );
    assert_eq!(
        circuit.verify_encryption(&vec![fe(10), fe(123), fe(456)], &public),
        Ok(false)
    );
    let zeroed: Ciphertext = (public.0, vec![fe(0), fe(0), fe(0)]);
    assert_eq!(
        circuit.verify_encryption(&vec![fe(10), fe(0), fe(0)], &zeroed),
        Ok(true)
    );
}

#[test]
fn zero_field_value_is_the_additive_identity() {
    assert_eq!(fe_of(Fq::zero()), FieldElement::zero());
}

#[test]
fn widths_fit_up_to_the_batch_width() {
    assert_eq!(check_widths(3, 3, 3), Ok(()));
    assert_eq!(check_widths(3, 0, 0), Ok(()));
    assert_eq!(check_widths(3, 4, 0), Err(SchemeError::WidthExceeded));
    assert_eq!(check_widths(3, 0, 4), Err(SchemeError::WidthExceeded));
}

#[test]
fn validity_checks_see_every_part() {
    let loose = FieldElement { l0: 0, l1: 0, l2: 0, l3: u64::MAX };
    assert!(slots_are_valid(&vec![fe(1), fe(2)]));
    assert!(!slots_are_valid(&vec![fe(1), loose]));
    assert!(slots_are_valid(&Vec::new()));
    assert!(Point::generator().is_valid());
    assert!(!Point { x: fe(1), y: fe(1) }.is_valid());
    assert!(Scalar::from_u64(3).is_canonical());
    assert!(!Scalar { l0: 0, l1: 0, l2: 0, l3: u64::MAX }.is_canonical());
    assert_eq!(fe(7).limbs(), [7, 0, 0, 0]);
    assert_eq!(Scalar { l0: 1, l1: 2, l2: 3, l3: 4 }.limbs(), [1, 2, 3, 4]);
    let (_, pk) = keys(3);
    let r = Randomness(Scalar::from_u64(4));
    let mut circuit = EncryptCircuit::new(pk, vec![fe(1)], params(2), r).unwrap();
    assert!(circuit.is_valid());
    circuit.msg[0] = loose;
    assert!(!circuit.is_valid());
    circuit.msg[0] = fe(1);
    circuit.resulted_ciphertext.0 = Point { x: fe(1), y: fe(1) };
    assert!(!circuit.is_valid());
}

#[test]
fn padded_ciphertext_decrypts_to_the_message_first() {
    let mut rng = ark_std::test_rng();
    let p = params(5);
    let (sk, pk) = EncryptCircuit::keygen(scalar_of(Fr::rand(&mut rng)));
    let r = Randomness(scalar_of(Fr::rand(&mut rng)));
    let msg = vec![fe_of(Fq::rand(&mut rng)), fe_of(Fq::rand(&mut rng))];
    let cipher = EncryptCircuit::encrypt(&pk, &msg, &r, &p);
    let padded: Ciphertext = (cipher.0, pad_slots(&cipher.1, 5));
    let back = EncryptCircuit::decrypt(padded, sk, &p);
    assert_eq!(back.len(), 5);
    assert_eq!(back[..2].to_vec(), msg);
}

#[test]
fn both_sides_derive_the_same_shared_point() {
    let mut rng = ark_std::test_rng();
    let p = params(2);
    for _ in 0..4 {
        let (sk, pk) = EncryptCircuit::keygen(scalar_of(Fr::rand(&mut rng)));
        let r = Randomness(scalar_of(Fr::rand(&mut rng)));
        let cipher = EncryptCircuit::encrypt(&pk, &vec![fe(1), fe(2)], &r, &p);
        assert_eq!(cipher.0.mul(&sk), pk.mul(&r.0));
        assert_eq!(
            p.poseidon.derive_pad(&cipher.0.mul(&sk)),
            p.poseidon.derive_pad(&pk.mul(&r.0))
        );
    }
}
