//! The process engine: the plain evaluation and the circuit execution of a
//! called function.
//!
//! Both paths turn a request down for the same reasons and in the same order.
//! The execution then fixes, for each output, what has to be derived inside the
//! circuit, and gathers the derived leaves in the trace.
use crate::error::Error;
use crate::field::Field;
use crate::program::{Function, Program, Request, Response, ResponseView};
use crate::trace::Trace;
use crate::value::{Value, ValueType};
use vstd::prelude::*;

verus! {

/// What the circuit has to derive for one output and to hold against an
/// expected value, by the declared type of the output. The derived value is
/// the leaf of the output.
#[derive(Clone, Copy, Debug, PartialEq, Eq, Structural)]
pub enum Derivation {
    /// The hash of the bits of the output. The expected hash enters the
    /// circuit as a constant.
    Constant,
    /// The hash of the bits of the output. The expected hash enters the
    /// circuit as a public input.
    Public,
    /// The commitment to the bits of the output under the randomizer that is
    /// the hash to a scalar of `tvk` and `index`. The expected commitment is a
    /// public input.
    Private { tvk: Field, index: Field },
    /// The commitment of the record under the randomizer that is the hash to a
    /// scalar of `tvk` and `index`. The nonce, which is the generator times the
    /// randomizer, and the checksum, which is the hash of the record encrypted
    /// under the randomizer, are held against public inputs as well; they are
    /// no leaves.
    Record { tvk: Field, index: Field },
}

/// What an execution leaves behind: the outputs of the circuit and the
/// finalized trace.
#[derive(Clone, Debug, PartialEq, Eq)]
pub struct Execution {
    pub outputs: Vec<Value>,
    pub trace: Trace,
}

/// The engine. It holds the program for the length of a call and nothing else.
#[derive(Clone, Debug, PartialEq, Eq)]
pub struct Process {
    pub program: Program,
}

impl Process {
    /// The index of the output at `position` of a call with `num_inputs`
    /// inputs: the inputs are counted first.
    pub open spec fn output_index(num_inputs: nat, position: nat) -> Field {
        Field { lo: (num_inputs + position) as u128, hi: 0 }
    }

    /// What has to be derived for the output at `position`, by its declared type.
    pub open spec fn derivation(
        output_type: ValueType,
        tvk: Field,
        num_inputs: nat,
        position: nat,
    ) -> Derivation {
        match output_type {
            ValueType::Constant => Derivation::Constant,
            ValueType::Public => Derivation::Public,
            ValueType::Private => Derivation::Private {
                tvk,
                index: Process::output_index(num_inputs, position),
            },
            ValueType::Record => Derivation::Record {
                tvk,
                index: Process::output_index(num_inputs, position),
            },
        }
    }

    /// Tells whether a value fails its declared type: it is declared a record
    /// and has not the shape of one.
    pub open spec fn mismatch(output_type: ValueType, output: Value) -> bool {
        output_type is Record && !(output is Record)
    }

    /// Tells whether `position` is that of the first output that fails its
    /// declared type.
    pub open spec fn is_first_mismatch(
        types: Seq<ValueType>,
        outputs: Seq<Value>,
        position: int,
    ) -> bool {
        &&& 0 <= position < types.len()
        &&& Process::mismatch(types[position], outputs[position])
        &&& forall|j: int|
            0 <= j < position ==> !Process::mismatch(#[trigger] types[j], outputs[j])
    }

    /// The derivations for the outputs of a call, one for each output in the
    /// declared order, or the reason for which the outputs are turned down.
    pub open spec fn plan_of(
        types: Seq<ValueType>,
        outputs: Seq<Value>,
        tvk: Field,
        num_inputs: nat,
    ) -> Result<Seq<Derivation>, Error> {
        if outputs.len() != types.len() {
            Err(
                Error::ArityMismatch {
                    expected: types.len() as usize,
                    found: outputs.len() as usize,
                },
            )
        } else if exists|k: int| Process::is_first_mismatch(types, outputs, k) {
            Err(
                Error::TypeMismatch {
                    output: (choose|k: int| Process::is_first_mismatch(types, outputs, k)) as usize,
                },
            )
        } else {
            Ok(
                Seq::new(
                    types.len(),
                    |i: int| Process::derivation(types[i], tvk, num_inputs, i as nat),
                ),
            )
        }
    }

    /// The function that a request calls, or the reason for which the request
    /// is turned down. `authentic` is the verdict on the signature and the
    /// serial numbers of the request.
    pub open spec fn call_of(&self, request: &Request, authentic: bool) -> Result<Function, Error> {
        if !authentic {
            Err(Error::InvalidRequest)
        } else {
            match Program::function_of(self.program.functions@, request.function_name@) {
                None => Err(Error::FunctionNotFound),
                Some(function) => if function.inputs@.len() != request.inputs@.len() {
                    Err(
                        Error::ArityMismatch {
                            expected: function.inputs.len(),
                            found: request.inputs.len(),
                        },
                    )
                } else {
                    Ok(function)
                },
            }
        }
    }

    /// The response to a request, given what the evaluator returned.
    pub open spec fn response_of(
        function: Function,
        request: &Request,
        ran: Result<Vec<Value>, String>,
    ) -> Result<ResponseView, Error> {
        match ran {
            Err(message) => Err(Error::External(message)),
            Ok(outputs) => if outputs@.len() != function.outputs@.len() {
                Err(
                    Error::ArityMismatch {
                        expected: function.outputs.len(),
                        found: outputs.len(),
                    },
                )
            } else {
                Ok(
                    ResponseView {
                        num_inputs: request.inputs@.len(),
                        tvk: request.tvk,
                        outputs: outputs@,
                        output_types: function.outputs@,
                    },
                )
            },
        }
    }

    /// Tells whether `r` is the response that `expected` describes.
    pub open spec fn is_response(
        r: Result<Response, Error>,
        expected: Result<ResponseView, Error>,
    ) -> bool {
        match expected {
            Ok(view) => r matches Ok(response) && response@ == view,
            Err(e) => r == Err::<Response, Error>(e),
        }
    }

    /// Tells whether `r` is the outcome of an execution in which the circuit
    /// returned `ran`: the error that ended it, or the outputs with a
    /// finalized trace that holds, for each output in order, a leaf that
    /// `derive` returned for it.
    pub open spec fn is_execution<D: Fn(&Value, Derivation) -> Field>(
        r: Result<Execution, Error>,
        function: Function,
        request: &Request,
        ran: Result<Vec<Value>, String>,
        derive: D,
    ) -> bool {
        match ran {
            Err(message) => r == Err::<Execution, Error>(Error::External(message)),
            Ok(outputs) => match Process::plan_of(
                function.outputs@,
                outputs@,
                request.tvk,
                request.inputs@.len(),
            ) {
                Err(e) => r == Err::<Execution, Error>(e),
                Ok(steps) => {
                    &&& r matches Ok(execution)
                    &&& execution.outputs == outputs
                    &&& execution.trace@.tvk == request.tvk
                    &&& execution.trace@.is_finalized
                    &&& execution.trace@.leaves.len() == steps.len()
                    &&& forall|i: int|
                        0 <= i < steps.len() ==> call_ensures(
                            derive,
                            (&outputs@[i], steps[i]),
                            #[trigger] execution.trace@.leaves[i],
                        )
                },
            },
        }
    }

    /// Tells whether the evaluator can be asked whenever the evaluation asks
    /// it: once the request has been found authentic, for the function that
    /// the request calls, on the inputs of the request, and for no other.
    pub open spec fn can_evaluate<V, S>(&self, request: &Request, verify: V, stack: S) -> bool where
        V: FnOnce(&Request) -> bool,
        S: FnOnce(&Function, &Vec<Value>) -> Result<Vec<Value>, String>,
     {
        forall|authentic: bool| #[trigger]
            call_ensures(verify, (request,), authentic) ==> (self.call_of(
                request,
                authentic,
            ) matches Ok(function) ==> call_requires(stack, (&function, &request.inputs)))
    }

    /// Tells whether the circuit can be asked whenever the execution asks it:
    /// once the request has been found authentic, to execute the function that
    /// the request calls, and then to derive the leaf of each output that it
    /// returned, by the step that the plan fixes for it.
    pub open spec fn can_execute<V, S, D>(
        &self,
        request: &Request,
        verify: V,
        circuit: S,
        derive: D,
    ) -> bool where
        V: FnOnce(&Request) -> bool,
        S: FnOnce(&Function, &Request) -> Result<Vec<Value>, String>,
        D: Fn(&Value, Derivation) -> Field,
     {
        forall|authentic: bool| #[trigger]
            call_ensures(verify, (request,), authentic) ==> (self.call_of(
                request,
                authentic,
            ) matches Ok(function) ==> {
                &&& call_requires(circuit, (&function, request))
                &&& forall|outputs: Vec<Value>, i: int|
                    call_ensures(circuit, (&function, request), Ok::<Vec<Value>, String>(outputs))
                        && Process::plan_of(
                        function.outputs@,
                        outputs@,
                        request.tvk,
                        request.inputs@.len(),
                    ) is Ok && 0 <= i < outputs@.len() ==> #[trigger] call_requires(
                        derive,
                        (
                            &outputs@[i],
                            Process::plan_of(
                                function.outputs@,
                                outputs@,
                                request.tvk,
                                request.inputs@.len(),
                            ).unwrap()[i],
                        ),
                    )
            })
    }

    /// Index derivation. In the plan of a call with `num_inputs` inputs, the
    /// output at `position` is derived under the transcript key of the request
    /// and under the index `num_inputs + position`, if it is private or a
    /// record, and by its hash alone if it is constant or public.
    pub proof fn lemma_index_derivation(
        types: Seq<ValueType>,
        outputs: Seq<Value>,
        tvk: Field,
        num_inputs: usize,
        position: usize,
    )
        requires
            Process::plan_of(types, outputs, tvk, num_inputs as nat) is Ok,
            position < types.len(),
        ensures
            ({
                let steps = Process::plan_of(types, outputs, tvk, num_inputs as nat).unwrap();
                &&& steps.len() == types.len()
                &&& steps.len() == outputs.len()
                &&& match types[position as int] {
                    ValueType::Constant => steps[position as int] == Derivation::Constant,
                    ValueType::Public => steps[position as int] == Derivation::Public,
                    ValueType::Private => steps[position as int] matches Derivation::Private {
                        tvk: key,
                        index,
                    } && key == tvk && index.as_nat() == num_inputs + position,
                    ValueType::Record => steps[position as int] matches Derivation::Record {
                        tvk: key,
                        index,
                    } && key == tvk && index.as_nat() == num_inputs + position
                        && outputs[position as int] is Record,
                }
            }),
    {
        let steps = Process::plan_of(types, outputs, tvk, num_inputs as nat).unwrap();
        if types[position as int] is Record && !(outputs[position as int] is Record) {
            Process::lemma_first_mismatch(types, outputs, position as int);
        }
    }

    /// Where some output fails its declared type, there is a first one.
    pub proof fn lemma_first_mismatch(types: Seq<ValueType>, outputs: Seq<Value>, position: int)
        requires
            0 <= position < types.len(),
            Process::mismatch(types[position], outputs[position]),
        ensures
            exists|k: int| Process::is_first_mismatch(types, outputs, k),
        decreases position,
    {
        if exists|j: int| 0 <= j < position && Process::mismatch(#[trigger] types[j], outputs[j]) {
            let j = choose|j: int|
                0 <= j < position && Process::mismatch(#[trigger] types[j], outputs[j]);
            Process::lemma_first_mismatch(types, outputs, j);
        } else {
            assert(Process::is_first_mismatch(types, outputs, position));
        }
    }

    /// Index derivation is stable. Two engines that hold the same program take
    /// up the same requests, and fix the same derivations, and so the same
    /// transcript key and index of each randomizer, for the same outputs.
    pub proof fn lemma_engines_agree(
        &self,
        other: &Process,
        request: &Request,
        authentic: bool,
        outputs: Seq<Value>,
    )
        requires
            self.program.functions@ == other.program.functions@,
        ensures
            self.call_of(request, authentic) == other.call_of(request, authentic),
            self.call_of(request, authentic) matches Ok(function) ==> Process::plan_of(
                function.outputs@,
                outputs,
                request.tvk,
                request.inputs@.len(),
            ) == Process::plan_of(
                other.call_of(request, authentic).unwrap().outputs@,
                outputs,
                request.tvk,
                request.inputs@.len(),
            ),
    {
    }

    /// The two paths agree on the derivations. The response of a plain
    /// evaluation and the execution in the circuit fix the same derivations,
    /// with the same indexes, for the same outputs of the same call.
    pub proof fn lemma_paths_agree(function: Function, request: &Request, outputs: Vec<Value>)
        requires
            Process::response_of(function, request, Ok(outputs)) is Ok,
        ensures
            ({
                let response = Process::response_of(function, request, Ok(outputs)).unwrap();
                Process::plan_of(
                    response.output_types,
                    response.outputs,
                    response.tvk,
                    response.num_inputs,
                ) == Process::plan_of(
                    function.outputs@,
                    outputs@,
                    request.tvk,
                    request.inputs@.len(),
                )
            }),
    {
    }

    /// The two paths agree on the outputs. Where the circuit returns what the
    /// evaluator returned, the execution succeeds if and only if the plain
    /// evaluation succeeds and its outputs have a plan, that is, none fails
    /// its declared type; and it hands on exactly the outputs of the response,
    /// one for each declared output.
    pub proof fn lemma_paths_agree_on_outputs<D: Fn(&Value, Derivation) -> Field>(
        evaluated: Result<Response, Error>,
        executed: Result<Execution, Error>,
        function: Function,
        request: &Request,
        ran: Result<Vec<Value>, String>,
        derive: D,
    )
        requires
            Process::is_response(evaluated, Process::response_of(function, request, ran)),
            Process::is_execution(executed, function, request, ran, derive),
        ensures
            executed is Ok ==> evaluated is Ok,
            evaluated is Ok ==> (executed is Ok <==> Process::plan_of(
                function.outputs@,
                evaluated.unwrap()@.outputs,
                request.tvk,
                request.inputs@.len(),
            ) is Ok),
            evaluated is Ok && executed is Ok ==> executed.unwrap().outputs@
                == evaluated.unwrap()@.outputs && executed.unwrap().outputs@.len()
                == function.outputs@.len(),
    {
    }

    /// Decides whether a request is taken up: the request is authentic, the
    /// program has the function, and the request brings as many inputs as the
    /// function declares.
    pub fn resolve(&self, request: &Request, authentic: bool) -> (r: Result<&Function, Error>)
        ensures
            match self.call_of(request, authentic) {
                Ok(function) => r == Ok::<&Function, Error>(&function),
                Err(e) => r == Err::<&Function, Error>(e),
            },
    {
        if !authentic {
            return Err(Error::InvalidRequest);
        }
        let function = match self.program.get_function(&request.function_name) {
            Ok(function) => function,
            Err(e) => {
                return Err(e);
            },
        };
        let num_inputs = request.inputs.len();
        if function.inputs.len() != num_inputs {
            return Err(Error::ArityMismatch { expected: function.inputs.len(), found: num_inputs });
        }
        Ok(function)
    }

    /// Wraps what the evaluator returned into the response: the outputs, each
    /// with its declared type.
    pub fn respond(function: &Function, request: &Request, ran: Result<Vec<Value>, String>) -> (r:
        Result<Response, Error>)
        ensures
            Process::is_response(r, Process::response_of(*function, request, ran)),
    {
        let outputs = match ran {
            Ok(outputs) => outputs,
            Err(message) => {
                return Err(Error::External(message));
            },
        };
        if outputs.len() != function.outputs.len() {
            return Err(
                Error::ArityMismatch { expected: function.outputs.len(), found: outputs.len() },
            );
        }
        let mut output_types: Vec<ValueType> = Vec::new();
        let mut i: usize = 0;
        while i < function.outputs.len()
            invariant
                i <= function.outputs@.len(),
                output_types@ == function.outputs@.subrange(0, i as int),
            decreases function.outputs@.len() - i,
        {
            output_types.push(function.outputs[i]);
            i = i + 1;
        }
        assert(output_types@ == function.outputs@);
        Ok(Response { num_inputs: request.inputs.len(), tvk: request.tvk, outputs, output_types })
    }

    /// Fixes what has to be derived for each output of a call.
    pub fn plan(function: &Function, request: &Request, outputs: &Vec<Value>) -> (r: Result<
        Vec<Derivation>,
        Error,
    >)
        ensures
            match Process::plan_of(
                function.outputs@,
                outputs@,
                request.tvk,
                request.inputs@.len(),
            ) {
                Ok(steps) => r matches Ok(planned) && planned@ == steps,
                Err(e) => r == Err::<Vec<Derivation>, Error>(e),
            },
    {
        Process::derivations(&function.outputs, outputs, request.tvk, request.inputs.len())
    }

    /// Fixes what has to be derived for each output of a response: the
    /// identifiers of the outputs of a plain evaluation are derived as the
    /// leaves of an execution are.
    pub fn plan_response(response: &Response) -> (r: Result<Vec<Derivation>, Error>)
        ensures
            match Process::plan_of(
                response@.output_types,
                response@.outputs,
                response@.tvk,
                response@.num_inputs,
            ) {
                Ok(steps) => r matches Ok(planned) && planned@ == steps,
                Err(e) => r == Err::<Vec<Derivation>, Error>(e),
            },
    {
        Process::derivations(
            &response.output_types,
            &response.outputs,
            response.tvk,
            response.num_inputs,
        )
    }

    /// Fixes what has to be derived for each of the outputs, given their
    /// declared types, the transcript key and the number of inputs of the call.
    pub fn derivations(
        output_types: &Vec<ValueType>,
        outputs: &Vec<Value>,
        tvk: Field,
        num_inputs: usize,
    ) -> (r: Result<Vec<Derivation>, Error>)
        ensures
            match Process::plan_of(output_types@, outputs@, tvk, num_inputs as nat) {
                Ok(steps) => r matches Ok(planned) && planned@ == steps,
                Err(e) => r == Err::<Vec<Derivation>, Error>(e),
            },
    {
        let num_outputs = output_types.len();
        if outputs.len() != num_outputs {
            return Err(Error::ArityMismatch { expected: num_outputs, found: outputs.len() });
        }
        let ghost types = output_types@;
        let mut steps: Vec<Derivation> = Vec::new();
        let mut i: usize = 0;
        while i < num_outputs
            invariant
                num_outputs == types.len(),
                types == output_types@,
                outputs@.len() == types.len(),
                i <= num_outputs,
                steps@.len() == i,
                forall|j: int| 0 <= j < i ==> !Process::mismatch(#[trigger] types[j], outputs@[j]),
                forall|j: int|
                    0 <= j < i ==> #[trigger] steps@[j] == Process::derivation(
                        types[j],
                        tvk,
                        num_inputs as nat,
                        j as nat,
                    ),
            decreases num_outputs - i,
        {
            let step = match output_types[i] {
                ValueType::Constant => Derivation::Constant,
                ValueType::Public => Derivation::Public,
                ValueType::Private => Derivation::Private {
                    tvk,
                    index: Process::index_of(num_inputs, i),
                },
                ValueType::Record => {
                    if !outputs[i].is_record() {
                        assert(Process::is_first_mismatch(types, outputs@, i as int));
                        return Err(Error::TypeMismatch { output: i });
                    }
                    Derivation::Record { tvk, index: Process::index_of(num_inputs, i) }
                },
            };
            steps.push(step);
            i = i + 1;
        }
        assert(steps@ =~= Seq::new(
            types.len(),
            |i: int| Process::derivation(types[i], tvk, num_inputs as nat, i as nat),
        ));
        Ok(steps)
    }

    /// The index of the output at `position` of a call with `num_inputs`
    /// inputs, as a field element.
    pub fn index_of(num_inputs: usize, position: usize) -> (r: Field)
        ensures
            r == Process::output_index(num_inputs as nat, position as nat),
            r.as_nat() == num_inputs + position,
    {
        Field::from_u128(num_inputs as u128 + position as u128)
    }

    /// Evaluates a function on the inputs of a request, in plain form.
    ///
    /// `verify` gives the verdict on the signature and the serial numbers of
    /// the request. `stack` evaluates the function on the inputs. It is asked
    /// only once the request is taken up, and so has to take only the function
    /// that the request calls.
    pub fn evaluate<V, S>(&self, request: &Request, verify: V, stack: S) -> (r: Result<
        Response,
        Error,
    >) where
        V: FnOnce(&Request) -> bool,
        S: FnOnce(&Function, &Vec<Value>) -> Result<Vec<Value>, String>,

        requires
            call_requires(verify, (request,)),
            self.can_evaluate(request, verify, stack),
        ensures
            exists|authentic: bool| #[trigger]
                call_ensures(verify, (request,), authentic) && match self.call_of(
                    request,
                    authentic,
                ) {
                    Err(e) => r == Err::<Response, Error>(e),
                    Ok(function) => exists|ran: Result<Vec<Value>, String>| #[trigger]
                        call_ensures(stack, (&function, &request.inputs), ran)
                            && Process::is_response(
                            r,
                            Process::response_of(function, request, ran),
                        ),
                },
    {
        let authentic = verify(request);
        let function = match self.resolve(request, authentic) {
            Ok(function) => function,
            Err(e) => {
                return Err(e);
            },
        };
        let ran = stack(function, &request.inputs);
        Process::respond(function, request, ran)
    }

    /// Executes a function on the inputs of a request, inside the circuit.
    ///
    /// `verify` gives the verdict on the signature and the serial numbers of
    /// the request. `circuit` starts from an empty circuit, injects the
    /// transcript key and the request, holds the two keys against each other
    /// and the request against its signature, and executes the function. It is
    /// asked only once the request is taken up. `derive` derives the leaf of
    /// one output; it is asked only for an output that `circuit` returned, with
    /// the step that the plan fixes for it. The leaf that
    /// [`derive_leaf`](crate::derive::derive_leaf) derives from the primitives
    /// of a network is the one to hand in.
    pub fn execute<V, S, D>(&self, request: &Request, verify: V, circuit: S, derive: D) -> (r:
        Result<Execution, Error>) where
        V: FnOnce(&Request) -> bool,
        S: FnOnce(&Function, &Request) -> Result<Vec<Value>, String>,
        D: Fn(&Value, Derivation) -> Field,

        requires
            call_requires(verify, (request,)),
            self.can_execute(request, verify, circuit, derive),
        ensures
            exists|authentic: bool| #[trigger]
                call_ensures(verify, (request,), authentic) && match self.call_of(
                    request,
                    authentic,
                ) {
                    Err(e) => r == Err::<Execution, Error>(e),
                    Ok(function) => exists|ran: Result<Vec<Value>, String>| #[trigger]
                        call_ensures(circuit, (&function, request), ran)
                            && Process::is_execution(r, function, request, ran, derive),
                },
    {
        let authentic = verify(request);
        let function = match self.resolve(request, authentic) {
            Ok(function) => function,
            Err(e) => {
                return Err(e);
            },
        };
        let mut trace = Trace::new(request);
        let ran = circuit(function, request);
        let outputs = match ran {
            Ok(outputs) => outputs,
            Err(message) => {
                return Err(Error::External(message));
            },
        };
        let steps = match Process::plan(function, request, &outputs) {
            Ok(steps) => steps,
            Err(e) => {
                return Err(e);
            },
        };
        assert forall|j: int| 0 <= j < steps@.len() implies call_requires(
            derive,
            (&outputs@[j], #[trigger] steps@[j]),
        ) by {
            assert(call_requires(
                derive,
                (
                    &outputs@[j],
                    Process::plan_of(
                        function.outputs@,
                        outputs@,
                        request.tvk,
                        request.inputs@.len(),
                    ).unwrap()[j],
                ),
            ));
        }
        let mut i: usize = 0;
        while i < steps.len()
            invariant
                i <= steps@.len(),
                steps@.len() == outputs@.len(),
                trace@.tvk == request.tvk,
                !trace@.is_finalized,
                trace@.leaves.len() == i,
                forall|j: int|
                    0 <= j < steps@.len() ==> call_requires(
                        derive,
                        (&outputs@[j], #[trigger] steps@[j]),
                    ),
                forall|j: int|
                    0 <= j < i ==> call_ensures(
                        derive,
                        (&outputs@[j], steps@[j]),
                        #[trigger] trace@.leaves[j],
                    ),
            decreases steps@.len() - i,
        {
            let leaf = derive(&outputs[i], steps[i]);
            trace.add_output(leaf);
            i = i + 1;
        }
        trace.finalize();
        Ok(Execution { outputs, trace })
    }
}

} // verus!
