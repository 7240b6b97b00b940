use std::cell::RefCell;

use synthesizer::error::Error;
use synthesizer::fee::{Fee, FeeCall, Proof, Query, Transaction, Transition, VM};
use synthesizer::field::Field;
use synthesizer::program::Response;
use synthesizer::value::{
    Entry, EntryValue, Identifier, Integer, Plaintext, Record, Value, ValueType, Visibility, BALANCE_FIELD,
};

/// The length of the sealed transition of a fee in the fixture.
const TRANSITION_BYTES: usize = 1142;

/// The length of the sealed inclusion proof in the fixture.
const PROOF_BYTES: usize = 692;

type Store = Vec<u32>;

fn identifier(name: &str) -> Identifier {
    Identifier { name: String::from(name) }
}

fn entry(name: &str, visibility: Visibility, value: EntryValue) -> Entry {
    Entry { name: identifier(name), visibility, value }
}

fn credits(microcredits: u64) -> Record {
    Record {
        owner: Field::from_u64(42),
        entries: vec![entry("microcredits", Visibility::Private, EntryValue::Integer(Integer::U64(microcredits)))],
    }
}

fn sample_vm() -> VM<Store> {
    VM { block_store: vec![1, 2, 3] }
}

fn response(fee: u64) -> Response {
    Response {
        num_inputs: 2,
        tvk: Field::from_u64(9),
        outputs: vec![Value::Record(credits(fee))],
        output_types: vec![ValueType::Record],
    }
}

fn prepare(_record: &Record, fee: u64) -> Result<FeeCall<u8, String>, String> {
    Ok(FeeCall {
        response: response(fee),
        transition: Transition { bytes: vec![7; TRANSITION_BYTES] },
        assignments: vec![1, 2, 3],
        metrics: vec![String::from("credits.aleo/fee")],
    })
}

fn include_one(_transition: &Transition, _query: &Query<Store>) -> Result<Vec<u16>, String> {
    Ok(vec![500])
}

fn include_none(_transition: &Transition, _query: &Query<Store>) -> Result<Vec<u16>, String> {
    Ok(vec![])
}

fn root(assignments: &Vec<u16>) -> Result<Field, String> {
    Ok(Field::from_u64(77 + assignments.len() as u64))
}

fn convert(assignment: &u16) -> u32 {
    *assignment as u32 + 100_000
}

fn prove(mut fee: Fee, _assignments: &Vec<u8>, inclusion: Option<Vec<u32>>) -> Result<Fee, String> {
    fee.proof = inclusion.map(|_| Proof { bytes: vec![9; PROOF_BYTES] });
    Ok(fee)
}

#[test]
fn test_fee_transition_size() {
    // Prepare the VM and records.
    let vm = sample_vm();

    // Fetch the unspent record.
    let record = credits(1_100_000_000_000_000);

    // Execute.
    let (_, fee, _) = vm.execute_fee_raw(&record, 1, None, prepare, include_one, root, convert, prove).unwrap();

    // Assert the size of the transition.
    let fee_size_in_bytes = fee.to_bytes_le().len();
    assert_eq!(1867, fee_size_in_bytes, "Update me if serialization has changed");
    assert_eq!(fee_size_in_bytes, TRANSITION_BYTES + 32 + 1 + PROOF_BYTES);
}

#[test]
fn the_bytes_of_a_fee() {
    let fee = Fee {
        transition: Transition { bytes: vec![1, 2, 3] },
        global_state_root: Field { lo: 4, hi: 5 },
        proof: Some(Proof { bytes: vec![6, 7] }),
    };
    let mut expected = vec![1u8, 2, 3];
    let mut root = vec![0u8; 32];
    root[0] = 4;
    root[16] = 5;
    expected.extend(root.clone());
    expected.extend([1u8, 6, 7]);
    assert_eq!(fee.to_bytes_le(), expected);

    let fee = Fee { proof: None, ..fee };
    let mut expected = vec![1u8, 2, 3];
    expected.extend(root);
    expected.push(0);
    assert_eq!(fee.to_bytes_le(), expected);
}

#[test]
fn a_fee_succeeds_if_and_only_if_the_balance_covers_it() {
    let vm = sample_vm();
    for balance in [0u64, 1, 5, 1000, u64::MAX - 1, u64::MAX] {
        let record = credits(balance);
        for fee in [0u64, 1, 4, 5, 6, 999, 1000, 1001, u64::MAX - 1, u64::MAX] {
            let result = vm.execute_fee(&record, fee, None, prepare, include_one, root, convert, prove);
            assert_eq!(result.is_ok(), fee <= balance, "balance {balance}, fee {fee}");
            if fee > balance {
                assert_eq!(result, Err(Error::InsufficientBalance));
            }
        }
    }
}

#[test]
fn a_fee_of_the_whole_balance_succeeds_and_one_more_fails() {
    let vm = sample_vm();
    let record = credits(5);
    assert!(vm.execute_fee(&record, 5, None, prepare, include_one, root, convert, prove).is_ok());
    assert_eq!(
        vm.execute_fee(&record, 6, None, prepare, include_one, root, convert, prove),
        Err(Error::InsufficientBalance)
    );
    assert_eq!(
        vm.execute_fee_raw(&record, 6, None, prepare, include_one, root, convert, prove),
        Err(Error::InsufficientBalance)
    );
    assert_eq!(VM::<Store>::check_balance(&record, 5), Ok(()));
    assert_eq!(VM::<Store>::check_balance(&record, 6), Err(Error::InsufficientBalance));
}

#[test]
fn a_record_without_a_balance_is_malformed() {
    let vm = sample_vm();
    let other = EntryValue::Other(Plaintext { bits: vec![true; 64] });
    let records = vec![
        Record { owner: Field::from_u64(42), entries: vec![] },
        Record {
            owner: Field::from_u64(42),
            entries: vec![entry("gates", Visibility::Private, EntryValue::Integer(Integer::U64(100)))],
        },
        Record {
            owner: Field::from_u64(42),
            entries: vec![entry("microcredits", Visibility::Private, other.clone())],
        },
        Record {
            owner: Field::from_u64(42),
            entries: vec![
                entry("microcredits", Visibility::Public, other),
                entry("microcredits", Visibility::Private, EntryValue::Integer(Integer::U64(100))),
            ],
        },
    ];
    for record in records {
        assert_eq!(record.balance(), None);
        for fee in [0u64, 1, 100] {
            assert_eq!(
                vm.execute_fee(&record, fee, None, prepare, include_one, root, convert, prove),
                Err(Error::MalformedFeeRecord)
            );
            assert_eq!(VM::<Store>::check_balance(&record, fee), Err(Error::MalformedFeeRecord));
        }
    }
}

#[test]
fn a_balance_is_a_number_of_any_visibility_and_integer_type() {
    let vm = sample_vm();
    let literals = vec![
        Integer::U8(100),
        Integer::U16(100),
        Integer::U32(100),
        Integer::U64(100),
        Integer::U128(100),
        Integer::I8(100),
        Integer::I16(100),
        Integer::I32(100),
        Integer::I64(100),
        Integer::I128(100),
    ];
    for literal in literals {
        for visibility in [Visibility::Constant, Visibility::Public, Visibility::Private] {
            let record = Record {
                owner: Field::from_u64(42),
                entries: vec![entry("microcredits", visibility, EntryValue::Integer(literal))],
            };
            assert_eq!(record.balance(), Some(literal));
            assert!(vm.execute_fee(&record, 0, None, prepare, include_one, root, convert, prove).is_ok());
            assert!(vm.execute_fee(&record, 99, None, prepare, include_one, root, convert, prove).is_ok());
            assert!(vm.execute_fee(&record, 100, None, prepare, include_one, root, convert, prove).is_ok());
            assert_eq!(
                vm.execute_fee(&record, 101, None, prepare, include_one, root, convert, prove),
                Err(Error::InsufficientBalance)
            );
        }
    }
}

#[test]
fn a_balance_is_compared_as_a_number() {
    assert!(Integer::U128(u128::MAX).covers(u64::MAX));
    assert!(Integer::U128(u64::MAX as u128).covers(u64::MAX));
    assert!(!Integer::U128(u64::MAX as u128 - 1).covers(u64::MAX));
    assert!(Integer::I128(i128::MAX).covers(u64::MAX));
    assert!(Integer::U64(0).covers(0));
    assert!(!Integer::U64(0).covers(1));
    assert!(Integer::U8(255).covers(255));
    assert!(!Integer::U8(255).covers(256));
    assert!(Integer::I8(127).covers(127));
    assert!(!Integer::I8(127).covers(128));
    assert!(Integer::I64(i64::MAX).covers(i64::MAX as u64));
    assert!(!Integer::I64(i64::MAX).covers(i64::MAX as u64 + 1));
    // A balance below zero covers no fee, not even the fee of zero.
    assert!(!Integer::I8(-1).covers(0));
    assert!(!Integer::I16(-1).covers(0));
    assert!(!Integer::I32(-1).covers(0));
    assert!(!Integer::I64(i64::MIN).covers(0));
    assert!(!Integer::I128(-1).covers(0));
    let record = Record {
        owner: Field::from_u64(42),
        entries: vec![entry("microcredits", Visibility::Private, EntryValue::Integer(Integer::I64(-5)))],
    };
    assert_eq!(VM::<Store>::check_balance(&record, 0), Err(Error::InsufficientBalance));
}

#[test]
fn the_balance_is_the_first_entry_of_its_name() {
    assert_eq!(BALANCE_FIELD, "microcredits");
    let record = Record {
        owner: Field::from_u64(42),
        entries: vec![
            entry("nonce", Visibility::Public, EntryValue::Integer(Integer::U64(1))),
            entry("microcredits", Visibility::Private, EntryValue::Integer(Integer::U64(7))),
            entry("microcredits", Visibility::Private, EntryValue::Integer(Integer::U64(8))),
        ],
    };
    assert_eq!(record.balance(), Some(Integer::U64(7)));
    assert_eq!(record.find(&identifier("microcredits")), Some(&record.entries[1]));
    assert_eq!(record.find(&identifier("nonce")), Some(&record.entries[0]));
    assert_eq!(record.find(&identifier("Microcredits")), None);
}

#[test]
fn the_balance_is_checked_before_any_collaborator_is_asked() {
    let vm = sample_vm();
    let asked = RefCell::new(0);
    let counting = |record: &Record, fee: u64| {
        *asked.borrow_mut() += 1;
        prepare(record, fee)
    };
    assert!(vm.execute_fee_raw(&credits(5), 6, None, counting, include_one, root, convert, prove).is_err());
    assert_eq!(*asked.borrow(), 0);
}

#[test]
fn the_parts_of_a_fee_come_from_the_collaborators() {
    let vm = sample_vm();
    let (response_of_call, fee, metrics) =
        vm.execute_fee_raw(&credits(10), 4, None, prepare, include_one, root, convert, prove).unwrap();
    assert_eq!(response_of_call, response(4));
    assert_eq!(metrics, vec![String::from("credits.aleo/fee")]);
    assert_eq!(
        fee,
        Fee {
            transition: Transition { bytes: vec![7; TRANSITION_BYTES] },
            global_state_root: Field::from_u64(78),
            proof: Some(Proof { bytes: vec![9; PROOF_BYTES] }),
        }
    );
    let transaction = vm.execute_fee(&credits(10), 4, None, prepare, include_one, root, convert, prove).unwrap();
    assert_eq!(transaction, Transaction { fee: fee.clone() });
    assert_eq!(Transaction::from_fee(fee.clone()).fee, fee);
}

#[test]
fn the_prover_gets_a_draft_without_a_proof() {
    let vm = sample_vm();
    let seen = RefCell::new(None);
    let prover = |fee: Fee, assignments: &Vec<u8>, inclusion: Option<Vec<u32>>| {
        *seen.borrow_mut() = Some((fee.clone(), assignments.clone(), inclusion.clone()));
        prove(fee, assignments, inclusion)
    };
    vm.execute_fee_raw(&credits(10), 4, None, prepare, include_one, root, convert, prover).unwrap();
    let draft = Fee {
        transition: Transition { bytes: vec![7; TRANSITION_BYTES] },
        global_state_root: Field::from_u64(78),
        proof: None,
    };
    assert_eq!(*seen.borrow(), Some((draft.clone(), vec![1u8, 2, 3], Some(vec![100_500u32]))));
    assert_eq!(Fee::from(Transition { bytes: vec![7; TRANSITION_BYTES] }, Field::from_u64(78), None), draft);
}

#[test]
fn an_empty_list_of_inclusion_assignments_becomes_no_list() {
    let vm = sample_vm();
    let seen = RefCell::new(Some(Some(vec![1u32])));
    let prover = |fee: Fee, assignments: &Vec<u8>, inclusion: Option<Vec<u32>>| {
        *seen.borrow_mut() = Some(inclusion.clone());
        prove(fee, assignments, inclusion)
    };
    let (_, fee, _) = vm.execute_fee_raw(&credits(10), 4, None, prepare, include_none, root, convert, prover).unwrap();
    assert_eq!(*seen.borrow(), Some(None));
    assert_eq!(fee.proof, None);
    assert_eq!(fee.global_state_root, Field::from_u64(77));
    assert_eq!(fee.to_bytes_le().len(), TRANSITION_BYTES + 32 + 1);

    assert_eq!(VM::<Store>::attach(Vec::<u16>::new()), None);
    assert_eq!(VM::<Store>::attach(vec![3u16]), Some(vec![3u16]));
    assert_eq!(VM::<Store>::attach(vec![3u16, 4]), Some(vec![3u16, 4]));
}

#[test]
fn the_query_falls_back_on_the_block_store() {
    let vm = sample_vm();
    let seen = RefCell::new(String::new());
    let inclusion = |transition: &Transition, query: &Query<Store>| {
        *seen.borrow_mut() = match query {
            Query::VM(store) => format!("store of {} blocks", store.len()),
            Query::REST(url) => format!("service at {url}"),
        };
        include_one(transition, query)
    };
    vm.execute_fee_raw(&credits(10), 4, None, prepare, inclusion, root, convert, prove).unwrap();
    assert_eq!(*seen.borrow(), "store of 3 blocks");

    let inclusion = |transition: &Transition, query: &Query<Store>| {
        *seen.borrow_mut() = match query {
            Query::VM(store) => format!("store of {} blocks", store.len()),
            Query::REST(url) => format!("service at {url}"),
        };
        include_one(transition, query)
    };
    let query = Some(Query::REST(String::from("https://ledger.example")));
    vm.execute_fee_raw(&credits(10), 4, query, prepare, inclusion, root, convert, prove).unwrap();
    assert_eq!(*seen.borrow(), "service at https://ledger.example");

    let other: Store = vec![1; 10];
    let inclusion = |transition: &Transition, query: &Query<Store>| {
        *seen.borrow_mut() = match query {
            Query::VM(store) => format!("store of {} blocks", store.len()),
            Query::REST(url) => format!("service at {url}"),
        };
        include_one(transition, query)
    };
    vm.execute_fee_raw(&credits(10), 4, Some(Query::VM(&other)), prepare, inclusion, root, convert, prove).unwrap();
    assert_eq!(*seen.borrow(), "store of 10 blocks");
}

#[test]
fn a_failure_of_a_collaborator_ends_the_assembly() {
    let vm = sample_vm();
    let no_call = |_: &Record, _: u64| -> Result<FeeCall<u8, String>, String> { Err(String::from("call failed")) };
    let no_inclusion =
        |_: &Transition, _: &Query<Store>| -> Result<Vec<u16>, String> { Err(String::from("not included")) };
    let no_root = |_: &Vec<u16>| -> Result<Field, String> { Err(String::from("no root")) };
    let no_proof =
        |_: Fee, _: &Vec<u8>, _: Option<Vec<u32>>| -> Result<Fee, String> { Err(String::from("unsatisfied")) };
    assert_eq!(
        vm.execute_fee_raw(&credits(10), 4, None, no_call, include_one, root, convert, prove),
        Err(Error::External(String::from("call failed")))
    );
    assert_eq!(
        vm.execute_fee_raw(&credits(10), 4, None, prepare, no_inclusion, root, convert, prove),
        Err(Error::External(String::from("not included")))
    );
    assert_eq!(
        vm.execute_fee_raw(&credits(10), 4, None, prepare, include_one, no_root, convert, prove),
        Err(Error::External(String::from("no root")))
    );
    assert_eq!(
        vm.execute_fee_raw(&credits(10), 4, None, prepare, include_one, root, convert, no_proof),
        Err(Error::External(String::from("unsatisfied")))
    );
    assert_eq!(
        vm.execute_fee(&credits(10), 4, None, prepare, include_one, root, convert, no_proof),
        Err(Error::External(String::from("unsatisfied")))
    );
    // A balance that does not cover the fee comes first.
    assert_eq!(
        vm.execute_fee_raw(&credits(10), 11, None, no_call, no_inclusion, no_root, convert, no_proof),
        Err(Error::InsufficientBalance)
    );
}

#[test]
fn a_collaborator_is_not_asked_after_another_has_failed() {
    let vm = sample_vm();
    let asked = RefCell::new(Vec::new());
    let note = |name: &str| asked.borrow_mut().push(String::from(name));
    let result = vm.execute_fee_raw(
        &credits(10),
        4,
        None,
        |record: &Record, fee: u64| {
            note("prepare");
            prepare(record, fee)
        },
        |transition: &Transition, query: &Query<Store>| {
            note("inclusion");
            include_one(transition, query)
        },
        |_: &Vec<u16>| -> Result<Field, String> {
            note("root");
            Err(String::from("no root"))
        },
        |assignment: &u16| {
            note("convert");
            convert(assignment)
        },
        |fee: Fee, assignments: &Vec<u8>, inclusion: Option<Vec<u32>>| {
            note("prove");
            prove(fee, assignments, inclusion)
        },
    );
    assert_eq!(result, Err(Error::External(String::from("no root"))));
    assert_eq!(*asked.borrow(), vec!["prepare", "inclusion", "root"]);
}

#[test]
fn the_collaborators_are_asked_in_their_order() {
    let vm = sample_vm();
    let asked = RefCell::new(Vec::new());
    let note = |name: &str| asked.borrow_mut().push(String::from(name));
    let result = vm.execute_fee_raw(
        &credits(10),
        4,
        None,
        |record: &Record, fee: u64| {
            note("prepare");
            prepare(record, fee)
        },
        |_: &Transition, _: &Query<Store>| -> Result<Vec<u16>, String> {
            note("inclusion");
            Ok(vec![1, 2])
        },
        |assignments: &Vec<u16>| {
            note("root");
            root(assignments)
        },
        |assignment: &u16| {
            note("convert");
            convert(assignment)
        },
        |fee: Fee, assignments: &Vec<u8>, inclusion: Option<Vec<u32>>| {
            note("prove");
            assert_eq!(inclusion, Some(vec![100_001, 100_002]));
            prove(fee, assignments, inclusion)
        },
    );
    assert!(result.is_ok());
    assert_eq!(*asked.borrow(), vec!["prepare", "inclusion", "root", "convert", "convert", "prove"]);
}

#[test]
fn the_inclusion_assignments_are_converted_one_by_one() {
    assert_eq!(VM::<Store>::convert_all(&vec![1u16, 2, 3], &convert), vec![100_001u32, 100_002, 100_003]);
    assert_eq!(VM::<Store>::convert_all(&Vec::<u16>::new(), &convert), Vec::<u32>::new());
}
