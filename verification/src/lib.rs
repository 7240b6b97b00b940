//! The execution core of a zero-knowledge program virtual machine.
//!
//! The crate holds the decisions of the engine: the model of a transition
//! output, the trace of an execution, the dispatch of a call over the declared
//! type of each output, and the assembly of a fee. The work of its
//! collaborators (the instruction-level stack machine, the hash and commitment
//! primitives, the inclusion prover and the proving backend) is handed in by
//! the caller as functions.
pub mod field;
pub mod value;
pub mod error;
pub mod program;
pub mod trace;
pub mod process;
pub mod fee;
pub mod output;
pub mod wire;
pub mod derive;
