//! The encryption scheme, the encoding of a ciphertext as public inputs, and
//! the relation between witness and ciphertext that the circuit enforces.

use vstd::prelude::*;
use crate::field::{base_modulus, FieldElement, Scalar};
use crate::group::{generator_x, generator_y, group_mul, Point};
use crate::sponge::PoseidonConfig;

verus! {

pub type PublicKey = Point;

pub type SecretKey = Scalar;

pub type Plaintext = Vec<FieldElement>;

pub type Ciphertext = (Point, Vec<FieldElement>);

/// What a call can be refused for.
#[derive(Clone, Copy, Debug, PartialEq, Eq, Structural)]
pub enum SchemeError {
    /// A plaintext or a ciphertext has more slots than the batch width.
    WidthExceeded,
    /// A slot index is not below the number of slots of the ciphertext.
    SlotOutOfRange,
}

/// The scalar sampled for one encryption.
#[derive(Clone, Copy, Debug)]
pub struct Randomness(pub Scalar);

/// The batch width and the sponge configuration of a deployment.
#[derive(Clone, Debug)]
pub struct Parameters {
    pub n: usize,
    pub poseidon: PoseidonConfig,
}

impl Parameters {
    /// The sponge configuration is well formed. The batch width may be any
    /// number.
    pub open spec fn wf(&self) -> bool {
        self.poseidon.wf()
    }

    /// Parameters for batches of `n` slots.
    pub fn default_multi(n: usize, poseidon: PoseidonConfig) -> (params: Parameters)
        ensures
            params.n == n,
            params.poseidon == poseidon,
    {
        Parameters { n, poseidon }
    }

    /// Parameters for single-slot messages.
    pub fn single(poseidon: PoseidonConfig) -> (params: Parameters)
        ensures
            params.n == 1,
            params.poseidon == poseidon,
    {
        Parameters { n: 1, poseidon }
    }
}

/// The integer values of a sequence of field elements.
pub open spec fn values(v: Seq<FieldElement>) -> Seq<int> {
    Seq::new(v.len(), |i: int| v[i]@)
}

/// Every element of the sequence is canonical.
pub open spec fn all_wf(v: Seq<FieldElement>) -> bool {
    forall|i: int| 0 <= i < v.len() ==> (#[trigger] v[i]).wf()
}

/// Every value of the sequence is a canonical field value.
pub open spec fn all_canonical(v: Seq<int>) -> bool {
    forall|i: int| 0 <= i < v.len() ==> 0 <= #[trigger] v[i] < base_modulus()
}

/// A ciphertext as mathematical values: the point and the slot values.
pub open spec fn cipher_view(c: Ciphertext) -> ((int, int), Seq<int>) {
    (c.0@, values(c.1@))
}

/// The ciphertext's point is on the curve and its slots are canonical.
pub open spec fn cipher_wf(c: Ciphertext) -> bool {
    c.0.wf() && all_wf(c.1@)
}

/// The generator of the prime-order subgroup.
pub open spec fn spec_generator() -> (int, int) {
    (generator_x(), generator_y())
}

/// The product of a point by a scalar.
pub open spec fn spec_point_mul(p: (int, int), k: int) -> (int, int) {
    group_mul(p.0, p.1, k)
}

/// The public key that belongs to a secret key.
pub open spec fn spec_public_key(sk: int) -> (int, int) {
    spec_point_mul(spec_generator(), sk)
}

/// The pad derived from a shared point.
pub open spec fn spec_pad(params: Parameters, shared: (int, int)) -> int {
    params.poseidon.digest(shared.0, shared.1)
}

/// Each slot is the pad plus the plaintext element.
pub open spec fn spec_mask(dh: int, msg: Seq<int>) -> Seq<int> {
    Seq::new(msg.len(), |i: int| (dh + msg[i]) % base_modulus())
}

/// Each element is the slot minus the pad.
pub open spec fn spec_unmask(dh: int, c2: Seq<int>) -> Seq<int> {
    Seq::new(c2.len(), |i: int| (c2[i] - dh) % base_modulus())
}

/// The ciphertext of `msg` under `pk` with randomness `r`.
pub open spec fn spec_encrypt(pk: (int, int), msg: Seq<int>, r: int, params: Parameters) -> (
    (int, int),
    Seq<int>,
) {
    (spec_point_mul(spec_generator(), r), spec_mask(spec_pad(params, spec_point_mul(pk, r)), msg))
}

/// The plaintext that `sk` recovers from a ciphertext, one element per slot.
pub open spec fn spec_decrypt(cipher: ((int, int), Seq<int>), sk: int, params: Parameters) -> Seq<
    int,
> {
    spec_unmask(spec_pad(params, spec_point_mul(cipher.0, sk)), cipher.1)
}

/// The first `n` slots of a sequence, with zero where it has none.
pub open spec fn spec_slots(v: Seq<int>, n: int) -> Seq<int> {
    Seq::new(
        n as nat,
        |i: int|
            if i < v.len() {
                v[i]
            } else {
                0
            },
    )
}

/// The public inputs of a ciphertext: the two coordinates of its point, then
/// its `n` slots.
pub open spec fn spec_public_inputs(cipher: ((int, int), Seq<int>), n: int) -> Seq<int> {
    seq![cipher.0.0, cipher.0.1] + spec_slots(cipher.1, n)
}

/// What the circuit enforces of one slot: a public slot that is zero counts
/// as empty and is left free; any other must be the pad plus the witness.
pub open spec fn spec_slot_holds(dh: int, m: int, c: int) -> bool {
    c != 0 ==> (dh + m) % base_modulus() == c
}

/// What the circuit enforces of the slots up to `upto`.
pub open spec fn spec_slots_hold(dh: int, plaintext: Seq<int>, c2: Seq<int>, upto: int) -> bool {
    forall|i: int| 0 <= i < upto ==> spec_slot_holds(dh, #[trigger] plaintext[i], c2[i])
}

/// The number of slots that a plaintext and a ciphertext have in common.
pub open spec fn spec_common(plaintext: Seq<int>, c2: Seq<int>) -> int {
    if plaintext.len() <= c2.len() {
        plaintext.len() as int
    } else {
        c2.len() as int
    }
}

/// The relation that the circuit enforces between the witness (plaintext,
/// randomness, public key) and the public ciphertext.
pub open spec fn spec_relation(
    pk: (int, int),
    r: int,
    params: Parameters,
    plaintext: Seq<int>,
    public: ((int, int), Seq<int>),
) -> bool {
    &&& spec_point_mul(spec_generator(), r) == public.0
    &&& spec_slots_hold(
        spec_pad(params, spec_point_mul(pk, r)),
        plaintext,
        public.1,
        spec_common(plaintext, public.1),
    )
}

/// Adding the pad and taking it off again gives the element back.
pub proof fn lemma_unmask_mask(dh: int, m: int)
    requires
        0 <= dh < base_modulus(),
        0 <= m < base_modulus(),
    ensures
        (((dh + m) % base_modulus()) - dh) % base_modulus() == m,
{
    let p = base_modulus();
    if dh + m < p {
        vstd::arithmetic::div_mod::lemma_small_mod((dh + m) as nat, p as nat);
        vstd::arithmetic::div_mod::lemma_small_mod(m as nat, p as nat);
    } else {
        vstd::arithmetic::div_mod::lemma_small_mod((dh + m - p) as nat, p as nat);
        vstd::arithmetic::div_mod::lemma_mod_sub_multiples_vanish(dh + m, p);
        assert((dh + m) % p == dh + m - p);
        vstd::arithmetic::div_mod::lemma_small_mod(m as nat, p as nat);
        vstd::arithmetic::div_mod::lemma_mod_sub_multiples_vanish(m, p);
        assert((m - p) % p == m);
    }
}

/// Unmasking a masked message with the same pad gives the message back.
pub proof fn lemma_unmask_mask_seq(dh: int, msg: Seq<int>)
    requires
        0 <= dh < base_modulus(),
        all_canonical(msg),
    ensures
        spec_unmask(dh, spec_mask(dh, msg)) == msg,
{
    assert forall|i: int| 0 <= i < msg.len() implies spec_unmask(dh, spec_mask(dh, msg))[i]
        == msg[i] by {
        lemma_unmask_mask(dh, msg[i]);
    }
    assert(spec_unmask(dh, spec_mask(dh, msg)) =~= msg);
}

/// The slots of a pad-masked message: each is the pad plus the element.
fn mask(dh: &FieldElement, msg: &Vec<FieldElement>) -> (c2: Vec<FieldElement>)
    requires
        dh.wf(),
        all_wf(msg@),
    ensures
        all_wf(c2@),
        values(c2@) == spec_mask(dh@, values(msg@)),
{
    let mut c2: Vec<FieldElement> = Vec::new();
    let mut i: usize = 0;
    while i < msg.len()
        invariant
            i <= msg@.len(),
            dh.wf(),
            all_wf(msg@),
            all_wf(c2@),
            c2@.len() == i,
            forall|j: int| 0 <= j < i ==> (#[trigger] c2@[j])@ == (dh@ + msg@[j]@) % base_modulus(),
        decreases msg@.len() - i,
    {
        let slot = dh.add(&msg[i]);
        c2.push(slot);
        i = i + 1;
    }
    assert(values(c2@) =~= spec_mask(dh@, values(msg@)));
    c2
}

/// The elements under a pad: each is the slot minus the pad.
fn unmask(dh: &FieldElement, c2: &Vec<FieldElement>) -> (msg: Vec<FieldElement>)
    requires
        dh.wf(),
        all_wf(c2@),
    ensures
        all_wf(msg@),
        values(msg@) == spec_unmask(dh@, values(c2@)),
{
    let mut msg: Vec<FieldElement> = Vec::new();
    let mut i: usize = 0;
    while i < c2.len()
        invariant
            i <= c2@.len(),
            dh.wf(),
            all_wf(c2@),
            all_wf(msg@),
            msg@.len() == i,
            forall|j: int| 0 <= j < i ==> (#[trigger] msg@[j])@ == (c2@[j]@ - dh@) % base_modulus(),
        decreases c2@.len() - i,
    {
        let m = c2[i].sub(dh);
        msg.push(m);
        i = i + 1;
    }
    assert(values(msg@) =~= spec_unmask(dh@, values(c2@)));
    msg
}

/// Whether every element of a vector is canonical.
pub fn slots_are_valid(v: &Vec<FieldElement>) -> (ok: bool)
    ensures
        ok == all_wf(v@),
{
    let mut i: usize = 0;
    while i < v.len()
        invariant
            i <= v@.len(),
            forall|j: int| 0 <= j < i ==> (#[trigger] v@[j]).wf(),
        decreases v@.len() - i,
    {
        if !v[i].is_canonical() {
            return false;
        }
        i = i + 1;
    }
    true
}

/// Whether a plaintext and a ciphertext of the given numbers of slots fit a
/// batch of width `n`.
pub fn check_widths(n: usize, plaintext_len: usize, ciphertext_len: usize) -> (fit: Result<
    (),
    SchemeError,
>)
    ensures
        fit is Err <==> (n < plaintext_len || n < ciphertext_len),
        fit is Err ==> fit == Err::<(), SchemeError>(SchemeError::WidthExceeded),
{
    if n < plaintext_len || n < ciphertext_len {
        Err(SchemeError::WidthExceeded)
    } else {
        Ok(())
    }
}

/// The first `n` slots of a vector, with zero where it has none.
pub fn pad_slots(v: &Vec<FieldElement>, n: usize) -> (slots: Vec<FieldElement>)
    requires
        all_wf(v@),
    ensures
        all_wf(slots@),
        slots@.len() == n,
        values(slots@) == spec_slots(values(v@), n as int),
{
    let mut slots: Vec<FieldElement> = Vec::new();
    let mut i: usize = 0;
    while i < n
        invariant
            i <= n,
            all_wf(v@),
            all_wf(slots@),
            slots@.len() == i,
            forall|j: int|
                0 <= j < i ==> (#[trigger] slots@[j])@ == (if j < v@.len() {
                    v@[j]@
                } else {
                    0
                }),
        decreases n - i,
    {
        let slot = if i < v.len() {
            v[i]
        } else {
            FieldElement::zero()
        };
        slots.push(slot);
        i = i + 1;
    }
    assert(values(slots@) =~= spec_slots(values(v@), n as int));
    slots
}

/// A circuit instance: the witness (randomness, plaintext, public key), the
/// ciphertext it claims, and the parameters.
pub struct EncryptCircuit {
    pub r: Randomness,
    pub msg: Plaintext,
    pub pk: PublicKey,
    pub resulted_ciphertext: Ciphertext,
    pub params: Parameters,
}

impl EncryptCircuit {
    /// Every value of the instance is canonical, the points are on the curve
    /// and the sponge configuration is well formed.
    pub open spec fn wf(&self) -> bool {
        &&& self.r.0.wf()
        &&& all_wf(self.msg@)
        &&& self.pk.wf()
        &&& cipher_wf(self.resulted_ciphertext)
        &&& self.params.wf()
    }

    /// Whether the instance is well formed.
    pub fn is_valid(&self) -> (ok: bool)
        ensures
            ok == self.wf(),
    {
        self.r.0.is_canonical() && slots_are_valid(&self.msg) && self.pk.is_valid()
            && self.resulted_ciphertext.0.is_valid() && slots_are_valid(
            &self.resulted_ciphertext.1,
        ) && self.params.poseidon.is_valid()
    }

    /// The instance for `msg` under `pk` with the randomness `r`: its
    /// ciphertext is the encryption of `msg`, so witness and ciphertext agree.
    /// A message with more elements than the batch width is refused.
    pub fn new(pk: PublicKey, msg: Plaintext, params: Parameters, r: Randomness) -> (made: Result<
        EncryptCircuit,
        SchemeError,
    >)
        requires
            pk.wf(),
            all_wf(msg@),
            params.wf(),
            r.0.wf(),
        ensures
            made is Err <==> msg@.len() > params.n,
            made is Err ==> made == Err::<EncryptCircuit, SchemeError>(SchemeError::WidthExceeded),
            made is Ok ==> {
                let c = made.unwrap();
                &&& c.wf()
                &&& c.r == r
                &&& c.msg == msg
                &&& c.pk == pk
                &&& c.params == params
                &&& cipher_view(c.resulted_ciphertext) == spec_encrypt(
                    pk@,
                    values(msg@),
                    r.0@,
                    params,
                )
            },
    {
        if msg.len() > params.n {
            return Err(SchemeError::WidthExceeded);
        }
        let enc = Self::encrypt(&pk, &msg, &r, &params);
        Ok(EncryptCircuit { r, msg, pk, resulted_ciphertext: enc, params })
    }

    /// The key pair of a secret scalar: the public key is the generator
    /// multiplied by it.
    pub fn keygen(secret: Scalar) -> (keys: (SecretKey, PublicKey))
        requires
            secret.wf(),
        ensures
            keys.0 == secret,
            keys.1.wf(),
            keys.1@ == spec_public_key(secret@),
    {
        let g = Point::generator();
        let public_key = g.mul(&secret);
        (secret, public_key)
    }

    /// The public inputs of a ciphertext: the embedding of its point, then
    /// the embedding of each of its `n` slots, with zero where it has none.
    pub fn get_public_inputs(cipher: &Ciphertext, params: &Parameters) -> (inputs: Vec<
        FieldElement,
    >)
        requires
            cipher_wf(*cipher),
        ensures
            all_wf(inputs@),
            values(inputs@) == spec_public_inputs(cipher_view(*cipher), params.n as int),
    {
        let mut inputs = cipher.0.to_field_elements();
        assert(inputs@[0] == cipher.0.x && inputs@[1] == cipher.0.y);
        let mut i: usize = 0;
        while i < params.n
            invariant
                i <= params.n,
                cipher_wf(*cipher),
                all_wf(inputs@),
                inputs@.len() == 2 + i,
                inputs@[0] == cipher.0.x,
                inputs@[1] == cipher.0.y,
                forall|j: int|
                    0 <= j < i ==> (#[trigger] inputs@[2 + j])@ == (if j < cipher.1@.len() {
                        cipher.1@[j]@
                    } else {
                        0
                    }),
            decreases params.n - i,
        {
            let slot = if i < cipher.1.len() {
                cipher.1[i]
            } else {
                FieldElement::zero()
            };
            let embedded = slot.to_field_elements();
            let ghost before = inputs@;
            inputs.push(embedded[0]);
            proof {
                assert forall|j: int| 0 <= j < i + 1 implies (#[trigger] inputs@[2 + j])@ == (if j
                    < cipher.1@.len() {
                    cipher.1@[j]@
                } else {
                    0
                }) by {
                    if j < i {
                        assert(inputs@[2 + j] == before[2 + j]);
                    }
                }
            }
            i = i + 1;
        }
        proof {
            let want = spec_public_inputs(cipher_view(*cipher), params.n as int);
            assert(values(inputs@).len() == want.len());
            assert forall|k: int| 0 <= k < want.len() implies values(inputs@)[k] == want[k] by {
                if k >= 2 {
                    assert(inputs@[2 + (k - 2)] == inputs@[k]);
                }
            }
            assert(values(inputs@) =~= want);
        }
        inputs
    }

    /// Encrypts `msg` under `pk` with the randomness `r`. The ciphertext has
    /// one slot per element of `msg`, and every secret key that derives from
    /// the ciphertext's point the shared point of the encryption recovers
    /// `msg` from it. That the key that belongs to `pk` does so is the group
    /// law of the curve, which is not stated here.
    pub fn encrypt(pk: &PublicKey, msg: &Plaintext, r: &Randomness, params: &Parameters) -> (cipher:
        Ciphertext)
        requires
            pk.wf(),
            all_wf(msg@),
            r.0.wf(),
            params.wf(),
        ensures
            cipher_wf(cipher),
            cipher_view(cipher) == spec_encrypt(pk@, values(msg@), r.0@, *params),
            forall|sk: int|
                spec_point_mul(cipher.0@, sk) == spec_point_mul(pk@, r.0@) ==> #[trigger] spec_decrypt(
                    cipher_view(cipher),
                    sk,
                    *params,
                ) == values(msg@),
    {
        let g = Point::generator();
        let c1 = g.mul(&r.0);
        let shared = pk.mul(&r.0);
        let dh = params.poseidon.derive_pad(&shared);
        let c2 = mask(&dh, msg);
        proof {
            assert forall|sk: int|
                spec_point_mul(c1@, sk) == spec_point_mul(pk@, r.0@) implies #[trigger] spec_decrypt(
                (c1@, values(c2@)),
                sk,
                *params,
            ) == values(msg@) by {
                assert(all_canonical(values(msg@)));
                lemma_unmask_mask_seq(dh@, values(msg@));
            }
        }
        (c1, c2)
    }

    /// Decrypts every slot of a ciphertext with the secret key. Slots that
    /// were padding decrypt like any other.
    pub fn decrypt(cipher: Ciphertext, sk: SecretKey, params: &Parameters) -> (msg: Plaintext)
        requires
            cipher_wf(cipher),
            sk.wf(),
            params.wf(),
        ensures
            all_wf(msg@),
            values(msg@) == spec_decrypt(cipher_view(cipher), sk@, *params),
    {
        let dh = Self::shared_pad(&cipher.0, &sk, params);
        unmask(&dh, &cipher.1)
    }

    /// Decrypts the slot `idx` of a ciphertext, if it has one.
    pub fn decrypt_at(cipher: &Ciphertext, idx: usize, sk: SecretKey, params: &Parameters) -> (m:
        Result<FieldElement, SchemeError>)
        requires
            cipher_wf(*cipher),
            sk.wf(),
            params.wf(),
        ensures
            m is Err <==> idx >= cipher.1@.len(),
            m is Err ==> m == Err::<FieldElement, SchemeError>(SchemeError::SlotOutOfRange),
            m is Ok ==> m.unwrap().wf() && m.unwrap()@ == spec_decrypt(
                cipher_view(*cipher),
                sk@,
                *params,
            )[idx as int],
    {
        if idx >= cipher.1.len() {
            return Err(SchemeError::SlotOutOfRange);
        }
        let dh = Self::shared_pad(&cipher.0, &sk, params);
        Ok(cipher.1[idx].sub(&dh))
    }

    /// The pad that a scalar and a point give: the digest of their product.
    fn shared_pad(point: &Point, k: &Scalar, params: &Parameters) -> (dh: FieldElement)
        requires
            point.wf(),
            k.wf(),
            params.wf(),
        ensures
            dh.wf(),
            dh@ == spec_pad(*params, spec_point_mul(point@, k@)),
    {
        let shared = point.mul(k);
        params.poseidon.derive_pad(&shared)
    }

    /// Whether the witness of this instance, with the given plaintext slots,
    /// fits the given public ciphertext: the relation that the circuit
    /// enforces. Slots beyond the batch width are refused.
    pub fn verify_encryption(&self, plaintext: &Vec<FieldElement>, ciphertext: &Ciphertext) -> (held:
        Result<bool, SchemeError>)
        requires
            self.wf(),
            all_wf(plaintext@),
            cipher_wf(*ciphertext),
        ensures
            held is Err <==> (self.params.n < plaintext@.len() || self.params.n
                < ciphertext.1@.len()),
            held is Err ==> held == Err::<bool, SchemeError>(SchemeError::WidthExceeded),
            held is Ok ==> held.unwrap() == spec_relation(
                self.pk@,
                self.r.0@,
                self.params,
                values(plaintext@),
                cipher_view(*ciphertext),
            ),
    {
        match check_widths(self.params.n, plaintext.len(), ciphertext.1.len()) {
            Err(e) => {
                return Err(e);
            },
            Ok(()) => {},
        }
        let g = Point::generator();
        let shared = self.pk.mul(&self.r.0);
        let c1 = g.mul(&self.r.0);
        let dh = self.params.poseidon.derive_pad(&shared);
        let c1_holds = c1.same(&ciphertext.0);
        let common: usize = if plaintext.len() <= ciphertext.1.len() {
            plaintext.len()
        } else {
            ciphertext.1.len()
        };
        let mut slots_hold = true;
        let mut i: usize = 0;
        while i < common
            invariant
                i <= common,
                common <= plaintext@.len(),
                common <= ciphertext.1@.len(),
                dh.wf(),
                all_wf(plaintext@),
                all_wf(ciphertext.1@),
                slots_hold == spec_slots_hold(
                    dh@,
                    values(plaintext@),
                    values(ciphertext.1@),
                    i as int,
                ),
            decreases common - i,
        {
            let expected = ciphertext.1[i];
            let computed = dh.add(&plaintext[i]);
            let is_not_empty = !expected.is_zero();
            let slot_holds = !is_not_empty || computed.same(&expected);
            proof {
                assert(slot_holds == spec_slot_holds(
                    dh@,
                    values(plaintext@)[i as int],
                    values(ciphertext.1@)[i as int],
                ));
            }
            slots_hold = slots_hold && slot_holds;
            i = i + 1;
        }
        Ok(c1_holds && slots_hold)
    }

    /// The values of the circuit's public ciphertext variables: the point,
    /// and `n` slots with zero where the ciphertext has none.
    pub fn ciphertext_var(&self) -> (public: Ciphertext)
        requires
            self.wf(),
        ensures
            cipher_wf(public),
            public.0 == self.resulted_ciphertext.0,
            public.1@.len() == self.params.n,
            values(public.1@) == spec_slots(
                values(self.resulted_ciphertext.1@),
                self.params.n as int,
            ),
    {
        (self.resulted_ciphertext.0, pad_slots(&self.resulted_ciphertext.1, self.params.n))
    }

    /// The values of the circuit's plaintext witnesses: `n` slots with zero
    /// where the message has none.
    pub fn plaintext_var(&self) -> (witness: Vec<FieldElement>)
        requires
            self.wf(),
        ensures
            all_wf(witness@),
            witness@.len() == self.params.n,
            values(witness@) == spec_slots(values(self.msg@), self.params.n as int),
    {
        pad_slots(&self.msg, self.params.n)
    }

    /// Whether the constraints of this instance can be met: the relation,
    /// taken on the padded message and the padded ciphertext.
    pub fn is_satisfied(&self) -> (held: bool)
        requires
            self.wf(),
        ensures
            held == spec_relation(
                self.pk@,
                self.r.0@,
                self.params,
                spec_slots(values(self.msg@), self.params.n as int),
                (
                    self.resulted_ciphertext.0@,
                    spec_slots(values(self.resulted_ciphertext.1@), self.params.n as int),
                ),
            ),
    {
        let message = self.plaintext_var();
        let ciphertext = self.ciphertext_var();
        match self.verify_encryption(&message, &ciphertext) {
            Ok(held) => held,
            Err(_) => false,
        }
    }
}

} // verus!
