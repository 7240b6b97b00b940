use synthesizer::field::{Field, Group};
use synthesizer::output::Output;
use synthesizer::value::{Ciphertext, EncryptedRecord, Plaintext};

/// A stand-in for the hash function of a network: it depends on every bit and
/// on the number of bits.
fn toy_hash(bits: &Vec<bool>) -> Result<Field, String> {
    let mut state: u128 = 0xcbf2_9ce4_8422_2325;
    for bit in bits {
        state ^= if *bit { 2 } else { 1 };
        state = state.wrapping_mul(0x0000_0100_0000_01b3);
    }
    Ok(Field { lo: state, hi: bits.len() as u128 })
}

fn failing_hash(_bits: &Vec<bool>) -> Result<Field, String> {
    Err(String::from("input exceeds the window"))
}

fn sample_bits() -> Vec<bool> {
    vec![true, false, true, true, false, false, true, false, true]
}

fn sample_record() -> EncryptedRecord {
    EncryptedRecord { nonce: Group { x: Field::from_u64(77) }, bits: sample_bits() }
}

fn sample_outputs() -> Vec<Output> {
    let plaintext = Plaintext { bits: sample_bits() };
    let plaintext_hash = toy_hash(&plaintext.bits).unwrap();
    let ciphertext = Ciphertext { bits: vec![false; 10] };
    let ciphertext_hash = toy_hash(&ciphertext.bits).unwrap();
    let record = sample_record();
    let checksum = toy_hash(&record.bits).unwrap();
    vec![
        Output::Constant(Field::from_u64(1), None),
        Output::Constant(plaintext_hash, Some(plaintext.clone())),
        Output::Public(Field::from_u64(2), None),
        Output::Public(plaintext_hash, Some(plaintext)),
        Output::Private(Field::from_u64(3), None),
        Output::Private(ciphertext_hash, Some(ciphertext)),
        Output::Record(Field::from_u64(4), Field::from_u64(5), None),
        Output::Record(Field::from_u64(6), checksum, Some(record)),
        Output::ExternalRecord(Field::from_u64(7)),
    ]
}

#[test]
fn variant_tags_are_fixed() {
    let id = Field::from_u64(7);
    assert_eq!(Output::Constant(id, None).variant(), 0);
    assert_eq!(Output::Public(id, None).variant(), 1);
    assert_eq!(Output::Private(id, None).variant(), 2);
    assert_eq!(Output::Record(id, id, None).variant(), 3);
    assert_eq!(Output::ExternalRecord(id).variant(), 4);
    let tags: Vec<u16> = sample_outputs().iter().map(|output| output.variant()).collect();
    assert_eq!(tags, vec![0, 0, 1, 1, 2, 2, 3, 3, 4]);
}

#[test]
fn id_of_a_record_is_its_commitment() {
    let commitment = Field::from_u64(10);
    let checksum = Field::from_u64(20);
    assert_eq!(*Output::Record(commitment, checksum, None).id(), commitment);
    assert_eq!(*Output::Record(commitment, checksum, Some(sample_record())).id(), commitment);
    assert_eq!(*Output::Constant(commitment, None).id(), commitment);
    assert_eq!(*Output::Public(commitment, None).id(), commitment);
    assert_eq!(*Output::Private(commitment, None).id(), commitment);
    assert_eq!(*Output::ExternalRecord(checksum).id(), checksum);
}

#[test]
fn record_accessors_return_the_parts_of_a_carried_record() {
    let commitment = Field::from_u64(10);
    let checksum = Field::from_u64(20);
    let record = sample_record();
    let output = Output::Record(commitment, checksum, Some(record.clone()));
    assert_eq!(output.record(), Some((&commitment, &record)));
    assert_eq!(output.commitment(), Some(&commitment));
    assert_eq!(output.checksum(), Some(&checksum));
    assert_eq!(output.nonce(), Some(&Group { x: Field::from_u64(77) }));
    assert_eq!(output.clone().into_record(), Some((commitment, record)));
    assert_eq!(output.clone().into_commitment(), Some(commitment));
    assert_eq!(output.clone().into_checksum(), Some(checksum));
    assert_eq!(output.into_nonce(), Some(Group { x: Field::from_u64(77) }));
}

#[test]
fn record_accessors_return_nothing_of_a_stripped_record() {
    let output = Output::Record(Field::from_u64(10), Field::from_u64(20), None);
    assert_eq!(output.record(), None);
    assert_eq!(output.commitment(), None);
    assert_eq!(output.checksum(), None);
    assert_eq!(output.nonce(), None);
    assert_eq!(output.clone().into_record(), None);
    assert_eq!(output.clone().into_commitment(), None);
    assert_eq!(output.clone().into_checksum(), None);
    assert_eq!(output.into_nonce(), None);
}

#[test]
fn record_accessors_return_nothing_of_other_outputs() {
    for output in sample_outputs() {
        if output.variant() == 3 {
            continue;
        }
        assert_eq!(output.record(), None);
        assert_eq!(output.commitment(), None);
        assert_eq!(output.checksum(), None);
        assert_eq!(output.nonce(), None);
        assert_eq!(output.clone().into_record(), None);
        assert_eq!(output.clone().into_commitment(), None);
        assert_eq!(output.clone().into_checksum(), None);
        assert_eq!(output.into_nonce(), None);
    }
}

#[test]
fn verifier_inputs_start_with_the_id() {
    let id = Field::from_u64(10);
    let checksum = Field::from_u64(20);
    assert_eq!(Output::Constant(id, None).verifier_inputs(), vec![id]);
    assert_eq!(Output::Public(id, Some(Plaintext { bits: sample_bits() })).verifier_inputs(), vec![id]);
    assert_eq!(Output::Private(id, None).verifier_inputs(), vec![id]);
    assert_eq!(Output::ExternalRecord(id).verifier_inputs(), vec![id]);
    assert_eq!(Output::Record(id, checksum, Some(sample_record())).verifier_inputs(), vec![id, checksum]);
    assert_eq!(Output::Record(id, checksum, None).verifier_inputs(), vec![id]);
}

#[test]
fn verify_accepts_the_hash_of_the_payload() {
    for output in sample_outputs() {
        let carries_payload = match &output {
            Output::Constant(_, Some(_)) | Output::Public(_, Some(_)) | Output::Private(_, Some(_)) => true,
            Output::Record(_, _, Some(_)) => true,
            _ => false,
        };
        assert!(output.verify(toy_hash), "{:?}", output);
        if carries_payload {
            assert!(!output.verify(failing_hash), "{:?}", output);
        }
    }
}

#[test]
fn verify_holds_a_record_against_its_checksum() {
    let record = sample_record();
    let hash = toy_hash(&record.bits).unwrap();
    // The hash stands in the place of the commitment: the record is not well-formed.
    assert!(!Output::Record(hash, Field::from_u64(1), Some(record.clone())).verify(toy_hash));
    assert!(Output::Record(Field::from_u64(1), hash, Some(record)).verify(toy_hash));
}

#[test]
fn verify_is_true_without_a_payload() {
    let id = Field::from_u64(99);
    assert!(Output::Constant(id, None).verify(failing_hash));
    assert!(Output::Public(id, None).verify(failing_hash));
    assert!(Output::Private(id, None).verify(failing_hash));
    assert!(Output::Record(id, id, None).verify(failing_hash));
    assert!(Output::ExternalRecord(id).verify(failing_hash));
}

#[test]
fn verify_does_not_call_the_hash_without_a_payload() {
    let called = std::cell::Cell::new(false);
    let hash = |bits: &Vec<bool>| {
        called.set(true);
        toy_hash(bits)
    };
    assert!(Output::ExternalRecord(Field::from_u64(1)).verify(hash));
    assert!(!called.get());
}

#[test]
fn verify_hands_the_bits_of_the_payload_to_the_hash() {
    let seen = std::cell::RefCell::new(Vec::new());
    let hash = |bits: &Vec<bool>| {
        *seen.borrow_mut() = bits.clone();
        toy_hash(bits)
    };
    let output = Output::Private(Field::from_u64(1), Some(Ciphertext { bits: sample_bits() }));
    assert!(!output.verify(hash));
    assert_eq!(*seen.borrow(), sample_bits());
}

#[test]
fn verify_rejects_every_single_bit_mutation() {
    let bits = sample_bits();
    let hash = toy_hash(&bits).unwrap();
    for position in 0..bits.len() {
        let mut mutated = bits.clone();
        mutated[position] = !mutated[position];
        assert!(!Output::Constant(hash, Some(Plaintext { bits: mutated.clone() })).verify(toy_hash));
        assert!(!Output::Public(hash, Some(Plaintext { bits: mutated.clone() })).verify(toy_hash));
        assert!(!Output::Private(hash, Some(Ciphertext { bits: mutated.clone() })).verify(toy_hash));
        let record = EncryptedRecord { nonce: Group { x: Field::from_u64(77) }, bits: mutated };
        assert!(!Output::Record(Field::from_u64(6), hash, Some(record)).verify(toy_hash));
    }
}

#[test]
fn agrees_compares_the_hash_with_the_id() {
    let id = Field::from_u64(5);
    let output = Output::Public(id, Some(Plaintext { bits: sample_bits() }));
    assert!(output.agrees::<String>(&Ok(id)));
    assert!(!output.agrees::<String>(&Ok(Field::from_u64(6))));
    assert!(!output.agrees(&Err(String::from("failed"))));
    assert!(Output::Public(id, None).agrees(&Err(String::from("failed"))));
}
