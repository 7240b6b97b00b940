//! Programs, and the requests and responses of a call.
use crate::error::Error;
use crate::field::Field;
use crate::value::{Identifier, Value, ValueType};
use vstd::prelude::*;

verus! {

/// A function of a program, by what a call has to match: its name and the
/// declared types of its inputs and outputs.
#[derive(Clone, Debug, PartialEq, Eq)]
pub struct Function {
    pub name: Identifier,
    pub inputs: Vec<ValueType>,
    pub outputs: Vec<ValueType>,
}

/// A compiled program.
#[derive(Clone, Debug, PartialEq, Eq)]
pub struct Program {
    pub id: Identifier,
    pub functions: Vec<Function>,
}

/// A signed request to call a function. The signature itself stays with the
/// caller, who answers for it through the verifier that the engine is given.
#[derive(Clone, Debug, PartialEq, Eq)]
pub struct Request {
    pub program_id: Identifier,
    pub function_name: Identifier,
    pub inputs: Vec<Value>,
    /// The transcript key, which binds the outputs of the call together.
    pub tvk: Field,
}

/// What a call returns.
#[derive(Clone, Debug, PartialEq, Eq)]
pub struct Response {
    pub num_inputs: usize,
    pub tvk: Field,
    pub outputs: Vec<Value>,
    pub output_types: Vec<ValueType>,
}

/// The mathematical model of a [`Response`].
pub struct ResponseView {
    pub num_inputs: nat,
    pub tvk: Field,
    pub outputs: Seq<Value>,
    pub output_types: Seq<ValueType>,
}

impl View for Response {
    type V = ResponseView;

    open spec fn view(&self) -> ResponseView {
        ResponseView {
            num_inputs: self.num_inputs as nat,
            tvk: self.tvk,
            outputs: self.outputs@,
            output_types: self.output_types@,
        }
    }
}

impl Program {
    /// Tells whether `index` is the position of the first function called `name`.
    pub open spec fn is_first(functions: Seq<Function>, index: int, name: Seq<char>) -> bool {
        &&& 0 <= index < functions.len()
        &&& functions[index].name@ == name
        &&& forall|j: int| 0 <= j < index ==> (#[trigger] functions[j]).name@ != name
    }

    /// The first function called `name`, if the program has one.
    pub open spec fn function_of(functions: Seq<Function>, name: Seq<char>) -> Option<Function> {
        if exists|i: int| Program::is_first(functions, i, name) {
            Some(functions[choose|i: int| Program::is_first(functions, i, name)])
        } else {
            None
        }
    }

    /// Looks a function up by its name.
    pub fn get_function(&self, name: &Identifier) -> (r: Result<&Function, Error>)
        ensures
            match Program::function_of(self.functions@, name@) {
                Some(function) => r == Ok::<&Function, Error>(&function),
                None => r == Err::<&Function, Error>(Error::FunctionNotFound),
            },
    {
        let mut i: usize = 0;
        while i < self.functions.len()
            invariant
                i <= self.functions@.len(),
                forall|j: int| 0 <= j < i ==> (#[trigger] self.functions@[j]).name@ != name@,
            decreases self.functions@.len() - i,
        {
            if self.functions[i].name.same(name) {
                assert(Program::is_first(self.functions@, i as int, name@));
                return Ok(&self.functions[i]);
            }
            i = i + 1;
        }
        Err(Error::FunctionNotFound)
    }

    /// A name that no function carries is not found; one that a function
    /// carries resolves to the first function that carries it.
    pub proof fn lemma_function_of(functions: Seq<Function>, name: Seq<char>)
        ensures
            Program::function_of(functions, name) is Some <==> exists|i: int|
                0 <= i < functions.len() && (#[trigger] functions[i]).name@ == name,
            forall|i: int|
                Program::is_first(functions, i, name) ==> Program::function_of(functions, name)
                    == Some(functions[i]),
    {
        if exists|i: int| 0 <= i < functions.len() && (#[trigger] functions[i]).name@ == name {
            let k = choose|i: int|
                0 <= i < functions.len() && (#[trigger] functions[i]).name@ == name;
            Program::lemma_least(functions, name, k);
        }
    }

    proof fn lemma_least(functions: Seq<Function>, name: Seq<char>, k: int)
        requires
            0 <= k < functions.len(),
            functions[k].name@ == name,
        ensures
            exists|i: int| Program::is_first(functions, i, name),
        decreases k,
    {
        if exists|j: int| 0 <= j < k && (#[trigger] functions[j]).name@ == name {
            let j = choose|j: int| 0 <= j < k && (#[trigger] functions[j]).name@ == name;
            Program::lemma_least(functions, name, j);
        } else {
            assert(Program::is_first(functions, k, name));
        }
    }
}

} // verus!
