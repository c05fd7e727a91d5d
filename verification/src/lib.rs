//! Verifiable ElGamal-style encryption over the JubJub curve: the native
//! scheme, the encoding of a ciphertext as public inputs, and the relation
//! that the encryption circuit enforces between witness and ciphertext.

pub mod field;
pub mod group;
pub mod sponge;
pub mod circuit;
pub mod theorems;
