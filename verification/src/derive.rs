//! The derivation of the leaf of one output from the primitives of the
//! network.
//!
//! A constant or public output is hashed. A private output is committed to
//! under a randomizer, and a record is committed to, given its nonce and
//! encrypted under one. The randomizer is the hash to a scalar of the
//! transcript key and the index of the output.
use crate::field::{Field, Group, Scalar};
use crate::process::Derivation;
use crate::value::{EncryptedRecord, Record, Value};
use vstd::pervasive::unreached;
use vstd::prelude::*;

verus! {

/// What is derived for one output.
#[derive(Clone, Copy, Debug, PartialEq, Eq, Structural)]
pub struct Derived {
    /// The leaf of the output: its hash or its commitment.
    pub leaf: Field,
    /// Of a record, the nonce: the generator times the randomizer.
    pub nonce: Option<Group>,
    /// Of a record, the checksum: the hash of the bits of the encrypted record.
    pub checksum: Option<Field>,
}

/// Tells whether `bits` are the bits of a value: those that a plaintext holds,
/// or those that `record_bits` returned for a record.
pub open spec fn is_bits<RB: Fn(&Record) -> Vec<bool>>(
    output: &Value,
    record_bits: RB,
    bits: Vec<bool>,
) -> bool {
    match *output {
        Value::Plaintext(plaintext) => bits == plaintext.bits,
        Value::Record(record) => call_ensures(record_bits, (&record,), bits),
    }
}

/// Tells whether each primitive can be asked whenever the derivation of the
/// step asks it: on the output itself, or on what the primitives before it
/// returned.
pub open spec fn can_derive<RB, H, HS, C, RC, G, EN>(
    output: &Value,
    step: Derivation,
    record_bits: RB,
    hash: H,
    hash_to_scalar: HS,
    commit: C,
    record_commitment: RC,
    scalar_multiply: G,
    encrypt: EN,
) -> bool where
    RB: Fn(&Record) -> Vec<bool>,
    H: Fn(&Vec<bool>) -> Field,
    HS: Fn(Field, Field) -> Scalar,
    C: Fn(&Vec<bool>, Scalar) -> Field,
    RC: Fn(&Record, Scalar) -> Field,
    G: Fn(Scalar) -> Group,
    EN: Fn(&Record, Scalar) -> EncryptedRecord,
 {
    match step {
        Derivation::Constant | Derivation::Public => {
            &&& *output matches Value::Record(record) ==> call_requires(record_bits, (&record,))
            &&& forall|bits: Vec<bool>| #[trigger]
                is_bits(output, record_bits, bits) ==> call_requires(hash, (&bits,))
        },
        Derivation::Private { tvk, index } => {
            &&& *output matches Value::Record(record) ==> call_requires(record_bits, (&record,))
            &&& call_requires(hash_to_scalar, (tvk, index))
            &&& forall|bits: Vec<bool>, randomizer: Scalar|
                is_bits(output, record_bits, bits) && call_ensures(
                    hash_to_scalar,
                    (tvk, index),
                    randomizer,
                ) ==> #[trigger] call_requires(commit, (&bits, randomizer))
        },
        Derivation::Record { tvk, index } => {
            &&& *output is Record
            &&& call_requires(hash_to_scalar, (tvk, index))
            &&& forall|randomizer: Scalar| #[trigger]
                call_ensures(hash_to_scalar, (tvk, index), randomizer) ==> {
                    &&& call_requires(record_commitment, (&output->Record_0, randomizer))
                    &&& call_requires(scalar_multiply, (randomizer,))
                    &&& call_requires(encrypt, (&output->Record_0, randomizer))
                }
            &&& forall|randomizer: Scalar, encrypted: EncryptedRecord|
                call_ensures(hash_to_scalar, (tvk, index), randomizer) && #[trigger] call_ensures(
                    encrypt,
                    (&output->Record_0, randomizer),
                    encrypted,
                ) ==> call_requires(hash, (&encrypted.bits,))
        },
    }
}

/// Tells whether `r` is the hash of the bits of the output, and nothing else.
pub open spec fn is_hashed<RB, H>(r: Derived, output: &Value, record_bits: RB, hash: H) -> bool where
    RB: Fn(&Record) -> Vec<bool>,
    H: Fn(&Vec<bool>) -> Field,
 {
    &&& r.nonce is None
    &&& r.checksum is None
    &&& exists|bits: Vec<bool>|
        is_bits(output, record_bits, bits) && #[trigger] call_ensures(hash, (&bits,), r.leaf)
}

/// Tells whether `r` is what the primitives derive for the output by the step.
pub open spec fn is_derived<RB, H, HS, C, RC, G, EN>(
    r: Derived,
    output: &Value,
    step: Derivation,
    record_bits: RB,
    hash: H,
    hash_to_scalar: HS,
    commit: C,
    record_commitment: RC,
    scalar_multiply: G,
    encrypt: EN,
) -> bool where
    RB: Fn(&Record) -> Vec<bool>,
    H: Fn(&Vec<bool>) -> Field,
    HS: Fn(Field, Field) -> Scalar,
    C: Fn(&Vec<bool>, Scalar) -> Field,
    RC: Fn(&Record, Scalar) -> Field,
    G: Fn(Scalar) -> Group,
    EN: Fn(&Record, Scalar) -> EncryptedRecord,
 {
    match step {
        Derivation::Constant => is_hashed(r, output, record_bits, hash),
        Derivation::Public => is_hashed(r, output, record_bits, hash),
        Derivation::Private { tvk, index } => {
            &&& r.nonce is None
            &&& r.checksum is None
            &&& exists|bits: Vec<bool>, randomizer: Scalar|
                is_bits(output, record_bits, bits) && call_ensures(
                    hash_to_scalar,
                    (tvk, index),
                    randomizer,
                ) && #[trigger] call_ensures(commit, (&bits, randomizer), r.leaf)
        },
        Derivation::Record { tvk, index } => {
            &&& *output is Record
            &&& r.nonce is Some
            &&& r.checksum is Some
            &&& exists|randomizer: Scalar, encrypted: EncryptedRecord|
                call_ensures(hash_to_scalar, (tvk, index), randomizer) && call_ensures(
                    record_commitment,
                    (&output->Record_0, randomizer),
                    r.leaf,
                ) && call_ensures(scalar_multiply, (randomizer,), r.nonce.unwrap())
                    && #[trigger] call_ensures(
                    encrypt,
                    (&output->Record_0, randomizer),
                    encrypted,
                ) && call_ensures(hash, (&encrypted.bits,), r.checksum.unwrap())
        },
    }
}

/// Derives the leaf of one output from the primitives of the network.
///
/// `record_bits` gives the bits of a record; a plaintext holds its own. `hash`
/// and `commit` are the hash and the commitment of a string of bits,
/// `hash_to_scalar` the hash of two field elements to a scalar,
/// `record_commitment` the commitment of a record, `scalar_multiply` the
/// generator times a scalar, and `encrypt` the encryption of a record. A step
/// for a record takes a record.
pub fn derive_leaf<RB, H, HS, C, RC, G, EN>(
    output: &Value,
    step: Derivation,
    record_bits: &RB,
    hash: &H,
    hash_to_scalar: &HS,
    commit: &C,
    record_commitment: &RC,
    scalar_multiply: &G,
    encrypt: &EN,
) -> (r: Derived) where
    RB: Fn(&Record) -> Vec<bool>,
    H: Fn(&Vec<bool>) -> Field,
    HS: Fn(Field, Field) -> Scalar,
    C: Fn(&Vec<bool>, Scalar) -> Field,
    RC: Fn(&Record, Scalar) -> Field,
    G: Fn(Scalar) -> Group,
    EN: Fn(&Record, Scalar) -> EncryptedRecord,

    requires
        can_derive(
            output,
            step,
            *record_bits,
            *hash,
            *hash_to_scalar,
            *commit,
            *record_commitment,
            *scalar_multiply,
            *encrypt,
        ),
    ensures
        is_derived(
            r,
            output,
            step,
            *record_bits,
            *hash,
            *hash_to_scalar,
            *commit,
            *record_commitment,
            *scalar_multiply,
            *encrypt,
        ),
{
    match step {
        Derivation::Constant | Derivation::Public => {
            // Hash the output to a field element.
            let leaf = match output {
                Value::Plaintext(plaintext) => {
                    assert(is_bits(output, *record_bits, plaintext.bits));
                    hash(&plaintext.bits)
                },
                Value::Record(record) => {
                    let bits = record_bits(record);
                    assert(is_bits(output, *record_bits, bits));
                    hash(&bits)
                },
            };
            let derived = Derived { leaf, nonce: None, checksum: None };
            assert(derived.leaf == leaf);
            derived
        },
        Derivation::Private { tvk, index } => {
            // Compute the commitment randomizer as `HashToScalar(tvk || index)`.
            let randomizer = hash_to_scalar(tvk, index);
            // Commit the output to a field element.
            let leaf = match output {
                Value::Plaintext(plaintext) => {
                    assert(is_bits(output, *record_bits, plaintext.bits));
                    commit(&plaintext.bits, randomizer)
                },
                Value::Record(record) => {
                    let bits = record_bits(record);
                    assert(is_bits(output, *record_bits, bits));
                    commit(&bits, randomizer)
                },
            };
            let derived = Derived { leaf, nonce: None, checksum: None };
            assert(derived.leaf == leaf);
            derived
        },
        Derivation::Record { tvk, index } => {
            match output {
                Value::Record(record) => {
                    // Compute the encryption randomizer as `HashToScalar(tvk || index)`.
                    let randomizer = hash_to_scalar(tvk, index);
                    // Compute the record commitment.
                    let leaf = record_commitment(record, randomizer);
                    // Compute the record nonce.
                    let nonce = scalar_multiply(randomizer);
                    // Encrypt the record, using the randomizer.
                    let encrypted = encrypt(record, randomizer);
                    // Compute the record checksum, as the hash of the encrypted record.
                    let checksum = hash(&encrypted.bits);
                    Derived { leaf, nonce: Some(nonce), checksum: Some(checksum) }
                },
                Value::Plaintext(_) => unreached(),
            }
        },
    }
}

} // verus!
