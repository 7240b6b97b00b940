//! The assembly of a fee: a transaction of its own that debits a record by a
//! public amount.
//!
//! The balance of the record is checked before anything else is done. The call
//! of the fee function, the inclusion assignments, their global state root,
//! their converted form and the proof come from the collaborators, in this
//! order, and each is asked only when the one before it has answered.
use crate::error::Error;
use crate::field::{Field, FIELD_BYTES};
use crate::program::Response;
use crate::value::Record;
use vstd::prelude::*;

verus! {

/// The transition of a call, sealed: the engine carries it by its bytes.
#[derive(Clone, Debug, PartialEq, Eq)]
pub struct Transition {
    pub bytes: Vec<u8>,
}

/// A proof, sealed: the engine carries it by its bytes.
#[derive(Clone, Debug, PartialEq, Eq)]
pub struct Proof {
    pub bytes: Vec<u8>,
}

/// A fee: the transition that debits the record, the global state root that the
/// inclusion of the record was shown against, and the inclusion proof, if one
/// is attached.
#[derive(Clone, Debug, PartialEq, Eq)]
pub struct Fee {
    pub transition: Transition,
    pub global_state_root: Field,
    pub proof: Option<Proof>,
}

/// The mathematical model of a [`Fee`].
pub struct FeeView {
    pub transition: Seq<u8>,
    pub global_state_root: Field,
    pub proof: Option<Seq<u8>>,
}

/// A fee that stands as a transaction of its own.
#[derive(Clone, Debug, PartialEq, Eq)]
pub struct Transaction {
    pub fee: Fee,
}

/// Where the state of the ledger is asked for.
#[derive(Debug, PartialEq, Eq)]
pub enum Query<'a, B> {
    /// The block store of the machine itself.
    VM(&'a B),
    /// A service at the given address.
    REST(String),
}

/// What the call of the fee function returns.
#[derive(Clone, Debug, PartialEq, Eq)]
pub struct FeeCall<A, M> {
    pub response: Response,
    pub transition: Transition,
    /// The assignments of the constraints of the call.
    pub assignments: Vec<A>,
    pub metrics: Vec<M>,
}

/// The virtual machine, by what the assembly of a fee needs of it: the block
/// store that a query falls back on.
#[derive(Clone, Debug, PartialEq, Eq)]
pub struct VM<B> {
    pub block_store: B,
}

impl View for Fee {
    type V = FeeView;

    open spec fn view(&self) -> FeeView {
        FeeView {
            transition: self.transition.bytes@,
            global_state_root: self.global_state_root,
            proof: match self.proof {
                Some(proof) => Some(proof.bytes@),
                None => None,
            },
        }
    }
}

impl Fee {
    /// The bytes of a fee: the transition, the global state root, and one byte
    /// that tells whether a proof follows.
    pub open spec fn encoding(fee: FeeView) -> Seq<u8> {
        fee.transition + fee.global_state_root.bytes_le() + match fee.proof {
            Some(proof) => seq![1u8] + proof,
            None => seq![0u8],
        }
    }

    /// A fee of the given parts.
    pub fn from(transition: Transition, global_state_root: Field, proof: Option<Proof>) -> (r: Fee)
        ensures
            r == (Fee { transition, global_state_root, proof }),
    {
        Fee { transition, global_state_root, proof }
    }

    /// Writes the fee out.
    pub fn to_bytes_le(&self) -> (r: Vec<u8>)
        ensures
            r@ == Fee::encoding(self@),
            r@.len() == self@.transition.len() + FIELD_BYTES + 1 + match self@.proof {
                Some(proof) => proof.len(),
                None => 0,
            },
    {
        let mut out: Vec<u8> = Vec::new();
        extend(&mut out, &self.transition.bytes);
        let mut root = self.global_state_root.to_bytes_le();
        out.append(&mut root);
        match &self.proof {
            Some(proof) => {
                out.push(1u8);
                extend(&mut out, &proof.bytes);
            },
            None => {
                out.push(0u8);
            },
        }
        assert(out@ =~= Fee::encoding(self@));
        out
    }
}

/// Appends a copy of `bytes` to `out`.
fn extend(out: &mut Vec<u8>, bytes: &Vec<u8>)
    ensures
        final(out)@ == old(out)@ + bytes@,
{
    let mut i: usize = 0;
    while i < bytes.len()
        invariant
            i <= bytes@.len(),
            out@ == old(out)@ + bytes@.subrange(0, i as int),
        decreases bytes@.len() - i,
    {
        out.push(bytes[i]);
        i = i + 1;
        assert(out@ =~= old(out)@ + bytes@.subrange(0, i as int));
    }
    assert(bytes@.subrange(0, bytes@.len() as int) =~= bytes@);
}

impl Transaction {
    /// Wraps a fee into a transaction of its own.
    pub fn from_fee(fee: Fee) -> (r: Transaction)
        ensures
            r.fee == fee,
    {
        Transaction { fee }
    }
}

impl<B> VM<B> {
    /// The verdict on the balance of a fee record: the record has to hold a
    /// balance, and the balance has to cover the fee.
    pub open spec fn covers(fee_record: &Record, fee_in_microcredits: u64) -> Result<(), Error> {
        match Record::balance_of(fee_record.entries@) {
            None => Err(Error::MalformedFeeRecord),
            Some(balance) => if balance < fee_in_microcredits {
                Err(Error::InsufficientBalance)
            } else {
                Ok(())
            },
        }
    }

    /// The query that is used: the given one, or else the block store of the
    /// machine.
    pub open spec fn query_of<'a>(&'a self, query: Option<Query<'a, B>>) -> Query<'a, B> {
        match query {
            Some(query) => query,
            None => Query::VM(&self.block_store),
        }
    }

    /// The inclusion assignments as the prover gets them: none at all in place
    /// of an empty list.
    pub open spec fn attached<T>(assignments: Vec<T>) -> Option<Vec<T>> {
        if assignments@.len() == 0 {
            None
        } else {
            Some(assignments)
        }
    }

    /// The draft of a fee: the transition and the global state root, without a
    /// proof.
    pub open spec fn draft(transition: Transition, global_state_root: Field) -> Fee {
        Fee { transition, global_state_root, proof: None }
    }

    /// Tells whether `converted` holds, for each inclusion assignment in
    /// order, what `convert` made of it.
    pub open spec fn is_converted<I, C, FC: Fn(&I) -> C>(
        convert: FC,
        assignments: Vec<I>,
        converted: Vec<C>,
    ) -> bool {
        &&& converted@.len() == assignments@.len()
        &&& forall|i: int|
            0 <= i < assignments@.len() ==> call_ensures(
                convert,
                (&assignments@[i],),
                #[trigger] converted@[i],
            )
    }

    /// Tells whether the fee function returned this call for the record and
    /// the amount.
    pub open spec fn is_prepared<A, M, FP: FnOnce(&Record, u64) -> Result<FeeCall<A, M>, String>>(
        fee_record: &Record,
        fee_in_microcredits: u64,
        prepare: FP,
        call: FeeCall<A, M>,
    ) -> bool {
        call_ensures(prepare, (fee_record, fee_in_microcredits), Ok::<FeeCall<A, M>, String>(call))
    }

    /// Tells whether the inclusion collaborator returned these assignments for
    /// the transition, against the query that is used.
    pub open spec fn is_included<'a, I, FI>(
        &'a self,
        query: Option<Query<'a, B>>,
        inclusion_of: FI,
        transition: Transition,
        assignments: Vec<I>,
    ) -> bool where FI: FnOnce(&Transition, &Query<'a, B>) -> Result<Vec<I>, String> {
        call_ensures(
            inclusion_of,
            (&transition, &self.query_of(query)),
            Ok::<Vec<I>, String>(assignments),
        )
    }

    /// Tells whether the inclusion collaborator derived this global state root
    /// from the assignments.
    pub open spec fn is_rooted<I, FR: FnOnce(&Vec<I>) -> Result<Field, String>>(
        root_of: FR,
        assignments: Vec<I>,
        global_state_root: Field,
    ) -> bool {
        call_ensures(root_of, (&assignments,), Ok::<Field, String>(global_state_root))
    }

    /// Tells whether each collaborator can be asked whenever the assembly asks
    /// it: the fee function for a record that covers the fee; the inclusion
    /// for a transition that the fee function returned; the global state root
    /// for the assignments that the inclusion returned; the conversion for
    /// each of these assignments, once they have a root; and the prover for
    /// the draft that is built from all of this.
    pub open spec fn can_assemble<'a, A, M, I, C, FP, FI, FR, FC, FV>(
        &'a self,
        fee_record: &Record,
        fee_in_microcredits: u64,
        query: Option<Query<'a, B>>,
        prepare: FP,
        inclusion_of: FI,
        root_of: FR,
        convert: FC,
        prove: FV,
    ) -> bool where
        FP: FnOnce(&Record, u64) -> Result<FeeCall<A, M>, String>,
        FI: FnOnce(&Transition, &Query<'a, B>) -> Result<Vec<I>, String>,
        FR: FnOnce(&Vec<I>) -> Result<Field, String>,
        FC: Fn(&I) -> C,
        FV: FnOnce(Fee, &Vec<A>, Option<Vec<C>>) -> Result<Fee, String>,
     {
        VM::<B>::covers(fee_record, fee_in_microcredits) is Ok ==> {
            &&& call_requires(prepare, (fee_record, fee_in_microcredits))
            &&& forall|call: FeeCall<A, M>| #[trigger]
                VM::<B>::is_prepared(fee_record, fee_in_microcredits, prepare, call)
                    ==> call_requires(inclusion_of, (&call.transition, &self.query_of(query)))
            &&& forall|call: FeeCall<A, M>, assignments: Vec<I>|
                VM::<B>::is_prepared(fee_record, fee_in_microcredits, prepare, call)
                    && #[trigger] self.is_included(
                    query,
                    inclusion_of,
                    call.transition,
                    assignments,
                ) ==> call_requires(root_of, (&assignments,))
            &&& forall|call: FeeCall<A, M>, assignments: Vec<I>, root: Field, i: int|
                #![trigger
                    self.is_included(query, inclusion_of, call.transition, assignments),
                    VM::<B>::is_rooted(root_of, assignments, root),
                    assignments@[i],
                ]
                VM::<B>::is_prepared(fee_record, fee_in_microcredits, prepare, call)
                    && self.is_included(query, inclusion_of, call.transition, assignments)
                    && VM::<B>::is_rooted(root_of, assignments, root) && 0 <= i
                    < assignments@.len() ==> call_requires(convert, (&assignments@[i],))
            &&& forall|call: FeeCall<A, M>, assignments: Vec<I>, root: Field, converted: Vec<C>|
                #![trigger
                    self.is_included(query, inclusion_of, call.transition, assignments),
                    VM::<B>::is_rooted(root_of, assignments, root),
                    VM::<B>::is_converted(convert, assignments, converted),
                ]
                VM::<B>::is_prepared(fee_record, fee_in_microcredits, prepare, call)
                    && self.is_included(query, inclusion_of, call.transition, assignments)
                    && VM::<B>::is_rooted(root_of, assignments, root) && VM::<B>::is_converted(
                    convert,
                    assignments,
                    converted,
                ) ==> call_requires(
                    prove,
                    (
                        VM::<B>::draft(call.transition, root),
                        &call.assignments,
                        VM::<B>::attached(converted),
                    ),
                )
        }
    }

    /// Tells whether `r` is the outcome of an assembly in which the fee
    /// function returned `call` and the inclusion collaborator `assignments`.
    pub open spec fn is_proved<A, M, I, C, FR, FC, FV>(
        r: Result<(Response, Fee, Vec<M>), Error>,
        call: FeeCall<A, M>,
        assignments: Vec<I>,
        root_of: FR,
        convert: FC,
        prove: FV,
    ) -> bool where
        FR: FnOnce(&Vec<I>) -> Result<Field, String>,
        FC: Fn(&I) -> C,
        FV: FnOnce(Fee, &Vec<A>, Option<Vec<C>>) -> Result<Fee, String>,
     {
        exists|rooted: Result<Field, String>| #[trigger]
            call_ensures(root_of, (&assignments,), rooted) && match rooted {
                Err(message) => r == Err::<(Response, Fee, Vec<M>), Error>(
                    Error::External(message),
                ),
                Ok(root) => exists|converted: Vec<C>, proved: Result<Fee, String>|
                    VM::<B>::is_converted(convert, assignments, converted) && #[trigger] call_ensures(
                        prove,
                        (
                            VM::<B>::draft(call.transition, root),
                            &call.assignments,
                            VM::<B>::attached(converted),
                        ),
                        proved,
                    ) && match proved {
                        Err(message) => r == Err::<(Response, Fee, Vec<M>), Error>(
                            Error::External(message),
                        ),
                        Ok(fee) => r == Ok::<(Response, Fee, Vec<M>), Error>(
                            (call.response, fee, call.metrics),
                        ),
                    },
            }
    }

    /// Tells whether `r` is the outcome of an assembly in which the call of
    /// the fee function returned `prepared`.
    pub open spec fn is_fee<'a, A, M, I, C, FI, FR, FC, FV>(
        &'a self,
        r: Result<(Response, Fee, Vec<M>), Error>,
        query: Option<Query<'a, B>>,
        prepared: Result<FeeCall<A, M>, String>,
        inclusion_of: FI,
        root_of: FR,
        convert: FC,
        prove: FV,
    ) -> bool where
        FI: FnOnce(&Transition, &Query<'a, B>) -> Result<Vec<I>, String>,
        FR: FnOnce(&Vec<I>) -> Result<Field, String>,
        FC: Fn(&I) -> C,
        FV: FnOnce(Fee, &Vec<A>, Option<Vec<C>>) -> Result<Fee, String>,
     {
        match prepared {
            Err(message) => r == Err::<(Response, Fee, Vec<M>), Error>(Error::External(message)),
            Ok(call) => exists|included: Result<Vec<I>, String>| #[trigger]
                call_ensures(inclusion_of, (&call.transition, &self.query_of(query)), included)
                    && match included {
                    Err(message) => r == Err::<(Response, Fee, Vec<M>), Error>(
                        Error::External(message),
                    ),
                    Ok(assignments) => VM::<B>::is_proved(
                        r,
                        call,
                        assignments,
                        root_of,
                        convert,
                        prove,
                    ),
                },
        }
    }

    /// Tells whether `r` is the outcome of the assembly of a fee: the verdict
    /// on the balance where it is an error, and else what the collaborators
    /// made of the record.
    pub open spec fn is_fee_raw<'a, A, M, I, C, FP, FI, FR, FC, FV>(
        &'a self,
        r: Result<(Response, Fee, Vec<M>), Error>,
        fee_record: &Record,
        fee_in_microcredits: u64,
        query: Option<Query<'a, B>>,
        prepare: FP,
        inclusion_of: FI,
        root_of: FR,
        convert: FC,
        prove: FV,
    ) -> bool where
        FP: FnOnce(&Record, u64) -> Result<FeeCall<A, M>, String>,
        FI: FnOnce(&Transition, &Query<'a, B>) -> Result<Vec<I>, String>,
        FR: FnOnce(&Vec<I>) -> Result<Field, String>,
        FC: Fn(&I) -> C,
        FV: FnOnce(Fee, &Vec<A>, Option<Vec<C>>) -> Result<Fee, String>,
     {
        match VM::<B>::covers(fee_record, fee_in_microcredits) {
            Err(e) => r == Err::<(Response, Fee, Vec<M>), Error>(e),
            Ok(_) => exists|prepared: Result<FeeCall<A, M>, String>| #[trigger]
                call_ensures(prepare, (fee_record, fee_in_microcredits), prepared) && self.is_fee(
                    r,
                    query,
                    prepared,
                    inclusion_of,
                    root_of,
                    convert,
                    prove,
                ),
        }
    }

    /// Fee sufficiency. A record with the balance `balance` covers a fee if
    /// and only if the fee is at most the balance: the fee that is the balance
    /// is covered, and the fee that is the balance and one is not.
    pub proof fn lemma_fee_sufficiency(fee_record: &Record, balance: int, fee_in_microcredits: u64)
        requires
            Record::balance_of(fee_record.entries@) == Some(balance),
        ensures
            VM::<B>::covers(fee_record, fee_in_microcredits) is Ok <==> fee_in_microcredits
                <= balance,
            fee_in_microcredits > balance ==> VM::<B>::covers(fee_record, fee_in_microcredits)
                == Err::<(), Error>(Error::InsufficientBalance),
            fee_in_microcredits == balance ==> VM::<B>::covers(fee_record, fee_in_microcredits)
                is Ok,
            fee_in_microcredits == balance + 1 ==> VM::<B>::covers(
                fee_record,
                fee_in_microcredits,
            ) == Err::<(), Error>(Error::InsufficientBalance),
    {
    }

    /// A record without a balance covers no fee, not even the fee of zero.
    pub proof fn lemma_fee_needs_balance(fee_record: &Record, fee_in_microcredits: u64)
        requires
            Record::balance_of(fee_record.entries@) is None,
        ensures
            VM::<B>::covers(fee_record, fee_in_microcredits) == Err::<(), Error>(
                Error::MalformedFeeRecord,
            ),
    {
    }

    /// Fee sufficiency of the assembly. With collaborators that do not fail,
    /// the assembly of a fee on a record with the balance `balance` succeeds if
    /// and only if the fee is at most the balance, and fails for want of
    /// balance otherwise.
    pub proof fn lemma_fee_succeeds_iff_covered<'a, A, M, I, C, FP, FI, FR, FC, FV>(
        &'a self,
        r: Result<(Response, Fee, Vec<M>), Error>,
        balance: int,
        fee_record: &Record,
        fee_in_microcredits: u64,
        query: Option<Query<'a, B>>,
        prepare: FP,
        inclusion_of: FI,
        root_of: FR,
        convert: FC,
        prove: FV,
    ) where
        FP: FnOnce(&Record, u64) -> Result<FeeCall<A, M>, String>,
        FI: FnOnce(&Transition, &Query<'a, B>) -> Result<Vec<I>, String>,
        FR: FnOnce(&Vec<I>) -> Result<Field, String>,
        FC: Fn(&I) -> C,
        FV: FnOnce(Fee, &Vec<A>, Option<Vec<C>>) -> Result<Fee, String>,

        requires
            Record::balance_of(fee_record.entries@) == Some(balance),
            self.is_fee_raw(
                r,
                fee_record,
                fee_in_microcredits,
                query,
                prepare,
                inclusion_of,
                root_of,
                convert,
                prove,
            ),
            forall|record: &Record, fee: u64, prepared: Result<FeeCall<A, M>, String>|
                call_ensures(prepare, (record, fee), prepared) ==> prepared is Ok,
            forall|transition: &Transition, query: &Query<'a, B>, included: Result<Vec<I>, String>|
                call_ensures(inclusion_of, (transition, query), included) ==> included is Ok,
            forall|assignments: &Vec<I>, rooted: Result<Field, String>|
                call_ensures(root_of, (assignments,), rooted) ==> rooted is Ok,
            forall|
                fee: Fee,
                assignments: &Vec<A>,
                inclusion: Option<Vec<C>>,
                proved: Result<Fee, String>,
            |
                call_ensures(prove, (fee, assignments, inclusion), proved) ==> proved is Ok,
        ensures
            r is Ok <==> fee_in_microcredits <= balance,
            fee_in_microcredits > balance ==> r == Err::<(Response, Fee, Vec<M>), Error>(
                Error::InsufficientBalance,
            ),
    {
    }

    /// Checks that the record holds a balance that covers the fee.
    pub fn check_balance(fee_record: &Record, fee_in_microcredits: u64) -> (r: Result<(), Error>)
        ensures
            r == VM::<B>::covers(fee_record, fee_in_microcredits),
    {
        match fee_record.balance() {
            Some(balance) => {
                if balance.covers(fee_in_microcredits) {
                    Ok(())
                } else {
                    Err(Error::InsufficientBalance)
                }
            },
            None => Err(Error::MalformedFeeRecord),
        }
    }

    /// Collapses the inclusion assignments: an empty list becomes no list.
    pub fn attach<I>(assignments: Vec<I>) -> (r: Option<Vec<I>>)
        ensures
            r == VM::<B>::attached(assignments),
    {
        if assignments.len() == 0 {
            None
        } else {
            Some(assignments)
        }
    }

    /// Converts the inclusion assignments, each by itself and in their order.
    pub fn convert_all<I, C, FC: Fn(&I) -> C>(assignments: &Vec<I>, convert: &FC) -> (r: Vec<C>)
        requires
            forall|i: int|
                0 <= i < assignments@.len() ==> call_requires(
                    *convert,
                    (&#[trigger] assignments@[i],),
                ),
        ensures
            VM::<B>::is_converted(*convert, *assignments, r),
    {
        let mut converted: Vec<C> = Vec::new();
        let mut i: usize = 0;
        while i < assignments.len()
            invariant
                i <= assignments@.len(),
                converted@.len() == i,
                forall|j: int|
                    0 <= j < assignments@.len() ==> call_requires(
                        *convert,
                        (&#[trigger] assignments@[j],),
                    ),
                forall|j: int|
                    0 <= j < i ==> call_ensures(
                        *convert,
                        (&assignments@[j],),
                        #[trigger] converted@[j],
                    ),
            decreases assignments@.len() - i,
        {
            let next = convert(&assignments[i]);
            converted.push(next);
            i = i + 1;
        }
        converted
    }

    /// Assembles a fee for the given record and amount, and returns the
    /// response of the call, the fee and the metrics of the call.
    ///
    /// `prepare` calls the fee function on the record and the amount.
    /// `inclusion_of` prepares the inclusion of the records that the transition
    /// consumes, against the query, and `root_of` derives the global state
    /// root from the assignments. `convert` turns an inclusion assignment into
    /// the form that the prover takes. `prove` takes the draft of the fee,
    /// which is without a proof, the assignments of the call and the converted
    /// inclusion assignments, and returns the fee with its proof. Each is
    /// asked only once the balance covers the fee and the one before it has
    /// answered, so each has to take only what it is then handed.
    pub fn execute_fee_raw<'a, A, M, I, C, FP, FI, FR, FC, FV>(
        &'a self,
        fee_record: &Record,
        fee_in_microcredits: u64,
        query: Option<Query<'a, B>>,
        prepare: FP,
        inclusion_of: FI,
        root_of: FR,
        convert: FC,
        prove: FV,
    ) -> (r: Result<(Response, Fee, Vec<M>), Error>) where
        FP: FnOnce(&Record, u64) -> Result<FeeCall<A, M>, String>,
        FI: FnOnce(&Transition, &Query<'a, B>) -> Result<Vec<I>, String>,
        FR: FnOnce(&Vec<I>) -> Result<Field, String>,
        FC: Fn(&I) -> C,
        FV: FnOnce(Fee, &Vec<A>, Option<Vec<C>>) -> Result<Fee, String>,

        requires
            self.can_assemble(
                fee_record,
                fee_in_microcredits,
                query,
                prepare,
                inclusion_of,
                root_of,
                convert,
                prove,
            ),
        ensures
            self.is_fee_raw(
                r,
                fee_record,
                fee_in_microcredits,
                query,
                prepare,
                inclusion_of,
                root_of,
                convert,
                prove,
            ),
    {
        let ghost given = query;
        let query = match query {
            Some(query) => query,
            None => Query::VM(&self.block_store),
        };
        match VM::<B>::check_balance(fee_record, fee_in_microcredits) {
            Ok(_) => {},
            Err(e) => {
                return Err(e);
            },
        }
        let call = match prepare(fee_record, fee_in_microcredits) {
            Ok(call) => call,
            Err(message) => {
                return Err(Error::External(message));
            },
        };
        assert(VM::<B>::is_prepared(fee_record, fee_in_microcredits, prepare, call));
        let inclusion_assignments = match inclusion_of(&call.transition, &query) {
            Ok(assignments) => assignments,
            Err(message) => {
                return Err(Error::External(message));
            },
        };
        assert(self.is_included(given, inclusion_of, call.transition, inclusion_assignments));
        let global_state_root = match root_of(&inclusion_assignments) {
            Ok(root) => root,
            Err(message) => {
                return Err(Error::External(message));
            },
        };
        assert(VM::<B>::is_rooted(root_of, inclusion_assignments, global_state_root));
        let converted = VM::<B>::convert_all(&inclusion_assignments, &convert);
        let ghost witness = converted;
        let FeeCall { response, transition, assignments, metrics } = call;
        let converted = VM::<B>::attach(converted);
        let draft = Fee::from(transition, global_state_root, None);
        assert(draft == VM::<B>::draft(call.transition, global_state_root));
        let proved = prove(draft, &assignments, converted);
        let r = match proved {
            Ok(fee) => Ok((response, fee, metrics)),
            Err(message) => Err(Error::External(message)),
        };
        assert(VM::<B>::is_proved(r, call, inclusion_assignments, root_of, convert, prove));
        r
    }

    /// Assembles a fee for the given record and amount, and returns it as a
    /// transaction of its own.
    pub fn execute_fee<'a, A, M, I, C, FP, FI, FR, FC, FV>(
        &'a self,
        fee_record: &Record,
        fee_in_microcredits: u64,
        query: Option<Query<'a, B>>,
        prepare: FP,
        inclusion_of: FI,
        root_of: FR,
        convert: FC,
        prove: FV,
    ) -> (r: Result<Transaction, Error>) where
        FP: FnOnce(&Record, u64) -> Result<FeeCall<A, M>, String>,
        FI: FnOnce(&Transition, &Query<'a, B>) -> Result<Vec<I>, String>,
        FR: FnOnce(&Vec<I>) -> Result<Field, String>,
        FC: Fn(&I) -> C,
        FV: FnOnce(Fee, &Vec<A>, Option<Vec<C>>) -> Result<Fee, String>,

        requires
            self.can_assemble(
                fee_record,
                fee_in_microcredits,
                query,
                prepare,
                inclusion_of,
                root_of,
                convert,
                prove,
            ),
        ensures
            exists|raw: Result<(Response, Fee, Vec<M>), Error>| #[trigger]
                self.is_fee_raw(
                    raw,
                    fee_record,
                    fee_in_microcredits,
                    query,
                    prepare,
                    inclusion_of,
                    root_of,
                    convert,
                    prove,
                ) && match raw {
                    Ok((_, fee, _)) => r == Ok::<Transaction, Error>(Transaction { fee }),
                    Err(e) => r == Err::<Transaction, Error>(e),
                },
    {
        let raw = self.execute_fee_raw(
            fee_record,
            fee_in_microcredits,
            query,
            prepare,
            inclusion_of,
            root_of,
            convert,
            prove,
        );
        match raw {
            Ok((_, fee, _)) => Ok(Transaction::from_fee(fee)),
            Err(e) => Err(e),
        }
    }
}

} // verus!
