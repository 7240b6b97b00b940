//! The ways in which a call can fail. Every one of them ends the call.
use vstd::prelude::*;

verus! {

#[derive(Clone, Debug, PartialEq, Eq)]
pub enum Error {
    /// The signature or the serial numbers of the request do not hold.
    InvalidRequest,
    /// The program has no function of the name that the request calls.
    FunctionNotFound,
    /// The number of values differs from the number that the function
    /// declares: of the inputs of a request, or of the outputs that the stack
    /// returned.
    ArityMismatch { expected: usize, found: usize },
    /// The output at this position is declared a record and is not one.
    TypeMismatch { output: usize },
    /// The fee record holds no balance: it has no entry of that name, or the
    /// entry holds no integer.
    MalformedFeeRecord,
    /// The fee record holds less than the fee.
    InsufficientBalance,
    /// The bytes are not the encoding of any value.
    SerializationError,
    /// A collaborator failed; the message is its own.
    External(String),
}

} // verus!
