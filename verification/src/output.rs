//! The output of a transition.
//!
//! An output carries the field element that identifies it and, unless it was
//! stripped, the payload that the field element was derived from. The payload
//! of an output is well-formed when its hash is the field element that stands
//! for it: the identifier, or the checksum where the output is a record.
use crate::field::{Field, Group};
use crate::value::{Ciphertext, EncryptedRecord, EncryptedRecordView, Plaintext};
use vstd::prelude::*;

verus! {

/// The tag of a kind of output on the wire.
pub type Variant = u16;

/// The transition output.
#[derive(Clone, Debug, PartialEq, Eq)]
pub enum Output {
    /// The plaintext hash and (optional) plaintext.
    Constant(Field, Option<Plaintext>),
    /// The plaintext hash and (optional) plaintext.
    Public(Field, Option<Plaintext>),
    /// The ciphertext hash and (optional) ciphertext.
    Private(Field, Option<Ciphertext>),
    /// The commitment, checksum, and (optional) record ciphertext.
    Record(Field, Field, Option<EncryptedRecord>),
    /// The output commitment of the external record. Note: This is **not** the record commitment.
    ExternalRecord(Field),
}

/// The mathematical model of an [`Output`].
pub enum OutputView {
    Constant(Field, Option<Seq<bool>>),
    Public(Field, Option<Seq<bool>>),
    Private(Field, Option<Seq<bool>>),
    Record(Field, Field, Option<EncryptedRecordView>),
    ExternalRecord(Field),
}

impl View for Output {
    type V = OutputView;

    open spec fn view(&self) -> OutputView {
        match *self {
            Output::Constant(id, None) => OutputView::Constant(id, None),
            Output::Constant(id, Some(plaintext)) => OutputView::Constant(id, Some(plaintext@)),
            Output::Public(id, None) => OutputView::Public(id, None),
            Output::Public(id, Some(plaintext)) => OutputView::Public(id, Some(plaintext@)),
            Output::Private(id, None) => OutputView::Private(id, None),
            Output::Private(id, Some(ciphertext)) => OutputView::Private(id, Some(ciphertext@)),
            Output::Record(commitment, checksum, None) => OutputView::Record(
                commitment,
                checksum,
                None,
            ),
            Output::Record(commitment, checksum, Some(record)) => OutputView::Record(
                commitment,
                checksum,
                Some(record@),
            ),
            Output::ExternalRecord(id) => OutputView::ExternalRecord(id),
        }
    }
}

impl OutputView {
    /// The tag of the kind of output.
    pub open spec fn variant(self) -> Variant {
        match self {
            OutputView::Constant(..) => 0,
            OutputView::Public(..) => 1,
            OutputView::Private(..) => 2,
            OutputView::Record(..) => 3,
            OutputView::ExternalRecord(..) => 4,
        }
    }

    /// The field element that identifies the output: of a record, the commitment.
    pub open spec fn id(self) -> Field {
        match self {
            OutputView::Constant(id, _) => id,
            OutputView::Public(id, _) => id,
            OutputView::Private(id, _) => id,
            OutputView::Record(commitment, _, _) => commitment,
            OutputView::ExternalRecord(id) => id,
        }
    }

    /// The record that the output carries, with its commitment.
    pub open spec fn record(self) -> Option<(Field, EncryptedRecordView)> {
        match self {
            OutputView::Record(commitment, _, Some(record)) => Some((commitment, record)),
            _ => None,
        }
    }

    /// The commitment of the record that the output carries.
    pub open spec fn commitment(self) -> Option<Field> {
        match self {
            OutputView::Record(commitment, _, Some(_)) => Some(commitment),
            _ => None,
        }
    }

    /// The nonce of the record that the output carries.
    pub open spec fn nonce(self) -> Option<Group> {
        match self {
            OutputView::Record(_, _, Some(record)) => Some(record.nonce),
            _ => None,
        }
    }

    /// The checksum of the record that the output carries.
    pub open spec fn checksum(self) -> Option<Field> {
        match self {
            OutputView::Record(_, checksum, Some(_)) => Some(checksum),
            _ => None,
        }
    }

    /// The public inputs that the output adds to those of the proof: the
    /// identifier, and then the checksum of the record that the output carries.
    pub open spec fn verifier_inputs(self) -> Seq<Field> {
        match self.checksum() {
            Some(checksum) => seq![self.id(), checksum],
            None => seq![self.id()],
        }
    }

    /// The bits of the payload, which are what is hashed.
    pub open spec fn preimage(self) -> Option<Seq<bool>> {
        match self {
            OutputView::Constant(_, Some(bits)) => Some(bits),
            OutputView::Public(_, Some(bits)) => Some(bits),
            OutputView::Private(_, Some(bits)) => Some(bits),
            OutputView::Record(_, _, Some(record)) => Some(record.bits),
            _ => None,
        }
    }

    /// The field element that the hash of the payload has to be: the
    /// identifier, or of a record the checksum.
    pub open spec fn digest(self) -> Field {
        match self {
            OutputView::Record(_, checksum, _) => checksum,
            _ => self.id(),
        }
    }

    /// Tells whether the output is well-formed, given the hash of its payload:
    /// `None` where the hash function failed. An output without a payload is
    /// well-formed whatever the hash.
    pub open spec fn accepts(self, hashed: Option<Field>) -> bool {
        self.preimage() is Some ==> hashed == Some(self.digest())
    }

    /// The same output with other bits for its payload, where it has one.
    pub open spec fn with_bits(self, bits: Seq<bool>) -> OutputView {
        match self {
            OutputView::Constant(id, Some(_)) => OutputView::Constant(id, Some(bits)),
            OutputView::Public(id, Some(_)) => OutputView::Public(id, Some(bits)),
            OutputView::Private(id, Some(_)) => OutputView::Private(id, Some(bits)),
            OutputView::Record(commitment, checksum, Some(record)) => OutputView::Record(
                commitment,
                checksum,
                Some(EncryptedRecordView { bits, ..record }),
            ),
            _ => self,
        }
    }

    /// Hash consistency. Under any hash function, an output whose payload
    /// hashes to the field element that stands for it is well-formed.
    pub proof fn lemma_hash_consistency(self, hash: spec_fn(Seq<bool>) -> Field)
        requires
            self.preimage() matches Some(bits) ==> self.digest() == hash(bits),
        ensures
            self.preimage() matches Some(bits) ==> self.accepts(Some(hash(bits))),
            self.preimage() is None ==> forall|hashed: Option<Field>| self.accepts(hashed),
    {
    }

    /// Under any hash function, flipping one bit of the payload of a
    /// well-formed output leaves an output that is not well-formed, unless the
    /// two payloads collide under the hash function.
    pub proof fn lemma_mutation_is_rejected(
        self,
        hash: spec_fn(Seq<bool>) -> Field,
        position: int,
    )
        requires
            self.preimage() matches Some(bits) && 0 <= position < bits.len() && self.digest()
                == hash(bits) && hash(bits.update(position, !bits[position])) != hash(bits),
        ensures
            ({
                let bits = self.preimage().unwrap();
                let mutated = bits.update(position, !bits[position]);
                &&& self.with_bits(mutated).preimage() == Some(mutated)
                &&& self.with_bits(mutated).id() == self.id()
                &&& !self.with_bits(mutated).accepts(Some(hash(mutated)))
            }),
    {
    }

    /// A failed hash leaves an output with a payload not well-formed.
    pub proof fn lemma_failed_hash_is_rejected(self)
        ensures
            self.preimage() is Some ==> !self.accepts(None),
    {
    }
}

/// What a hash function returned, without the reason of a failure.
pub open spec fn hash_of<E>(hashed: Result<Field, E>) -> Option<Field> {
    match hashed {
        Ok(hash) => Some(hash),
        Err(_) => None,
    }
}

impl Output {
    /// The bits of the payload, as the output holds them.
    pub open spec fn payload_bits(&self) -> Option<Vec<bool>> {
        match *self {
            Output::Constant(_, Some(plaintext)) => Some(plaintext.bits),
            Output::Public(_, Some(plaintext)) => Some(plaintext.bits),
            Output::Private(_, Some(ciphertext)) => Some(ciphertext.bits),
            Output::Record(_, _, Some(record)) => Some(record.bits),
            _ => None,
        }
    }

    /// Returns the variant of the output.
    pub fn variant(&self) -> (r: Variant)
        ensures
            r == self@.variant(),
            r <= 4,
    {
        match self {
            Output::Constant(_, _) => 0,
            Output::Public(_, _) => 1,
            Output::Private(_, _) => 2,
            Output::Record(_, _, _) => 3,
            Output::ExternalRecord(_) => 4,
        }
    }

    /// Returns the ID of the output.
    pub fn id(&self) -> (r: &Field)
        ensures
            *r == self@.id(),
    {
        match self {
            Output::Constant(id, ..) => id,
            Output::Public(id, ..) => id,
            Output::Private(id, ..) => id,
            Output::Record(commitment, ..) => commitment,
            Output::ExternalRecord(id) => id,
        }
    }

    /// Returns the commitment and record, if the output carries a record.
    pub fn record(&self) -> (r: Option<(&Field, &EncryptedRecord)>)
        ensures
            match *self {
                Output::Record(commitment, _, Some(record)) => r == Some((&commitment, &record)),
                _ => r is None,
            },
            r is Some <==> self@.record() is Some,
            r matches Some((commitment, record)) ==> self@.record() == Some(
                (*commitment, record@),
            ),
    {
        match self {
            Output::Record(commitment, _, Some(record)) => Some((commitment, record)),
            _ => None,
        }
    }

    /// Consumes `self` and returns the commitment and record, if the output carries a record.
    pub fn into_record(self) -> (r: Option<(Field, EncryptedRecord)>)
        ensures
            match self {
                Output::Record(commitment, _, Some(record)) => r == Some((commitment, record)),
                _ => r is None,
            },
            r is Some <==> self@.record() is Some,
            r matches Some((commitment, record)) ==> self@.record() == Some((commitment, record@)),
    {
        match self {
            Output::Record(commitment, _, Some(record)) => Some((commitment, record)),
            _ => None,
        }
    }

    /// Returns the commitment, if the output carries a record.
    pub fn commitment(&self) -> (r: Option<&Field>)
        ensures
            self@.commitment() matches Some(commitment) ==> r == Some(&commitment),
            self@.commitment() is None ==> r is None,
    {
        match self {
            Output::Record(commitment, _, Some(_)) => Some(commitment),
            _ => None,
        }
    }

    /// Returns the commitment, if the output carries a record, and consumes `self`.
    pub fn into_commitment(self) -> (r: Option<Field>)
        ensures
            r == self@.commitment(),
    {
        match self {
            Output::Record(commitment, _, Some(_)) => Some(commitment),
            _ => None,
        }
    }

    /// Returns the nonce, if the output carries a record.
    pub fn nonce(&self) -> (r: Option<&Group>)
        ensures
            self@.nonce() matches Some(nonce) ==> r == Some(&nonce),
            self@.nonce() is None ==> r is None,
    {
        match self {
            Output::Record(_, _, Some(record)) => Some(record.nonce()),
            _ => None,
        }
    }

    /// Returns the nonce, if the output carries a record, and consumes `self`.
    pub fn into_nonce(self) -> (r: Option<Group>)
        ensures
            r == self@.nonce(),
    {
        match self {
            Output::Record(_, _, Some(record)) => Some(record.into_nonce()),
            _ => None,
        }
    }

    /// Returns the checksum, if the output carries a record.
    pub fn checksum(&self) -> (r: Option<&Field>)
        ensures
            self@.checksum() matches Some(checksum) ==> r == Some(&checksum),
            self@.checksum() is None ==> r is None,
    {
        match self {
            Output::Record(_, checksum, Some(_)) => Some(checksum),
            _ => None,
        }
    }

    /// Returns the checksum, if the output carries a record, and consumes `self`.
    pub fn into_checksum(self) -> (r: Option<Field>)
        ensures
            r == self@.checksum(),
    {
        match self {
            Output::Record(_, checksum, Some(_)) => Some(checksum),
            _ => None,
        }
    }

    /// Returns the public verifier inputs for the proof.
    pub fn verifier_inputs(&self) -> (r: Vec<Field>)
        ensures
            r@ == self@.verifier_inputs(),
    {
        let mut inputs: Vec<Field> = Vec::new();
        // Append the output ID.
        inputs.push(*self.id());
        // Append the checksum if it exists.
        match self.checksum() {
            Some(checksum) => {
                inputs.push(*checksum);
            },
            None => {},
        }
        assert(inputs@ =~= self@.verifier_inputs());
        inputs
    }

    /// Tells whether the output is well-formed, given what the hash function
    /// returned for the bits of its payload.
    pub fn agrees<E>(&self, hashed: &Result<Field, E>) -> (r: bool)
        ensures
            r == self@.accepts(hash_of(*hashed)),
    {
        let expected = match self {
            Output::Constant(hash, Some(_)) => hash,
            Output::Public(hash, Some(_)) => hash,
            Output::Private(hash, Some(_)) => hash,
            Output::Record(_, checksum, Some(_)) => checksum,
            _ => {
                return true;
            },
        };
        match hashed {
            Ok(candidate_hash) => *expected == *candidate_hash,
            Err(_) => false,
        }
    }

    /// Returns `true` if the output is well-formed.
    /// If the optional value exists, this method checks that it hashes to the output ID.
    ///
    /// `hash` is the hash function. It is called on the bits of the payload,
    /// and only if the output has a payload. Where it fails, the output is not
    /// well-formed.
    pub fn verify<H, E>(&self, hash: H) -> (r: bool) where
        H: FnOnce(&Vec<bool>) -> Result<Field, E>,

        requires
            self.payload_bits() matches Some(bits) ==> call_requires(hash, (&bits,)),
        ensures
            match self.payload_bits() {
                None => r,
                Some(bits) => exists|hashed: Result<Field, E>| #[trigger]
                    call_ensures(hash, (&bits,), hashed) && r == self@.accepts(hash_of(hashed)),
            },
    {
        // Ensure the hash of the value (if the value exists) is correct.
        let hashed = match self {
            Output::Constant(_, Some(value)) => hash(&value.bits),
            Output::Public(_, Some(value)) => hash(&value.bits),
            Output::Private(_, Some(value)) => hash(&value.bits),
            Output::Record(_, _, Some(value)) => hash(&value.bits),
            _ => {
                return true;
            },
        };
        self.agrees(&hashed)
    }
}

} // verus!
