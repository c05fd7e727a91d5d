//! What holds of the scheme and of the circuit's relation for all inputs.

use vstd::prelude::*;
use crate::circuit::{
    spec_decrypt, spec_encrypt, spec_public_inputs, spec_relation, spec_slot_holds, spec_slots,
    Parameters,
};

verus! {

/// Encryption is a function of its inputs: two ciphertexts of the same
/// message under the same key, randomness and parameters are the same.
pub proof fn lemma_encrypt_deterministic(
    pk: (int, int),
    msg: Seq<int>,
    r: int,
    params: Parameters,
    first: ((int, int), Seq<int>),
    second: ((int, int), Seq<int>),
)
    requires
        first == spec_encrypt(pk, msg, r, params),
        second == spec_encrypt(pk, msg, r, params),
    ensures
        first == second,
{
}

/// A ciphertext has one slot per element of the message.
pub proof fn lemma_encrypt_length(pk: (int, int), msg: Seq<int>, r: int, params: Parameters)
    ensures
        spec_encrypt(pk, msg, r, params).1.len() == msg.len(),
{
}

/// Padding a ciphertext to the batch width leaves what its own slots decrypt
/// to unchanged: the first `k` elements of the padded ciphertext's plaintext
/// are the plaintext of the ciphertext itself.
pub proof fn lemma_decrypt_ignores_padding(
    cipher: ((int, int), Seq<int>),
    sk: int,
    params: Parameters,
    n: int,
)
    requires
        cipher.1.len() <= n,
    ensures
        spec_decrypt((cipher.0, spec_slots(cipher.1, n)), sk, params).subrange(
            0,
            cipher.1.len() as int,
        ) == spec_decrypt(cipher, sk, params),
{
    assert(spec_decrypt((cipher.0, spec_slots(cipher.1, n)), sk, params).subrange(
        0,
        cipher.1.len() as int,
    ) =~= spec_decrypt(cipher, sk, params));
}

/// The public inputs of a ciphertext with `k <= n` slots are the two
/// coordinates of its point, its `k` slots, and then exactly `n - k` zeros.
pub proof fn lemma_public_inputs_padding(cipher: ((int, int), Seq<int>), n: int)
    requires
        cipher.1.len() <= n,
    ensures
        spec_public_inputs(cipher, n).len() == 2 + n,
        spec_public_inputs(cipher, n)[0] == cipher.0.0,
        spec_public_inputs(cipher, n)[1] == cipher.0.1,
        forall|i: int|
            0 <= i < cipher.1.len() ==> #[trigger] spec_public_inputs(cipher, n)[2 + i]
                == cipher.1[i],
        forall|i: int| cipher.1.len() <= i < n ==> #[trigger] spec_public_inputs(cipher, n)[2 + i] == 0,
{
}

/// The relation holds of an honest instance: the message padded to the batch
/// width as witness, and its encryption padded to the batch width as public
/// ciphertext.
pub proof fn lemma_honest_instance_satisfied(
    pk: (int, int),
    msg: Seq<int>,
    r: int,
    params: Parameters,
    n: int,
)
    requires
        0 <= n,
    ensures
        ({
            let cipher = spec_encrypt(pk, msg, r, params);
            spec_relation(pk, r, params, spec_slots(msg, n), (cipher.0, spec_slots(cipher.1, n)))
        }),
{
}

/// The witness is free where the public ciphertext is padding: with a
/// message of `k < n` elements, the relation holds of every witness that
/// agrees with the message on its `k` slots, whatever it holds after them.
pub proof fn lemma_padding_slots_unconstrained(
    pk: (int, int),
    msg: Seq<int>,
    r: int,
    params: Parameters,
    n: int,
    witness: Seq<int>,
)
    requires
        msg.len() < n,
        witness.len() == n,
        forall|i: int| 0 <= i < msg.len() ==> witness[i] == msg[i],
    ensures
        ({
            let cipher = spec_encrypt(pk, msg, r, params);
            spec_relation(pk, r, params, witness, (cipher.0, spec_slots(cipher.1, n)))
        }),
{
}

/// The relation fails once a slot that holds real data is changed: with the
/// honest witness, a public ciphertext whose slot `i < k` was replaced by
/// another value is rejected. A slot replaced by zero reads as padding and
/// is left out.
pub proof fn lemma_tampered_slot_rejected(
    pk: (int, int),
    msg: Seq<int>,
    r: int,
    params: Parameters,
    n: int,
    i: int,
    v: int,
)
    requires
        msg.len() <= n,
        0 <= i < msg.len(),
        v != spec_encrypt(pk, msg, r, params).1[i],
        v != 0,
    ensures
        ({
            let cipher = spec_encrypt(pk, msg, r, params);
            !spec_relation(
                pk,
                r,
                params,
                spec_slots(msg, n),
                (cipher.0, spec_slots(cipher.1, n).update(i, v)),
            )
        }),
{
    let cipher = spec_encrypt(pk, msg, r, params);
    let witness = spec_slots(msg, n);
    let public = spec_slots(cipher.1, n).update(i, v);
    if spec_relation(pk, r, params, witness, (cipher.0, public)) {
        assert(witness[i] == msg[i]);
        assert(public[i] == v);
    }
}

/// The relation fails once the point of the public ciphertext is changed,
/// whatever the slots hold.
pub proof fn lemma_tampered_point_rejected(
    pk: (int, int),
    msg: Seq<int>,
    r: int,
    params: Parameters,
    witness: Seq<int>,
    c1: (int, int),
    c2: Seq<int>,
)
    requires
        c1 != spec_encrypt(pk, msg, r, params).0,
    ensures
        !spec_relation(pk, r, params, witness, (c1, c2)),
{
}

/// A public slot that is zero constrains nothing, and any other pins the
/// witness to one value modulo the field: two witnesses that both fit a
/// nonzero slot under a pad have the same sum with the pad.
pub proof fn lemma_slot_binds_witness(dh: int, m1: int, m2: int, c: int)
    requires
        c != 0,
        spec_slot_holds(dh, m1, c),
        spec_slot_holds(dh, m2, c),
    ensures
        (dh + m1) % crate::field::base_modulus() == (dh + m2) % crate::field::base_modulus(),
        forall|m: int| spec_slot_holds(dh, m, 0),
{
}

} // verus!
