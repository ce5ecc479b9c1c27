//! The execution of instructions against a borrow state and a meter.

use std::collections::HashMap;

use vstd::prelude::*;

use crate::action::{Action, ActionView};
use crate::analysis::{begin, ReferenceSafetyAnalysis, StepEnd};
use crate::binary_view::{BinaryIndexedView, FunctionView};
use crate::file_format::{Bytecode, CodeOffset, FunctionDefinitionIndex, IdentifierIndex};
use crate::state::{
    calls, leaves, perform_call, perform_query, perform_update, produces, updates, AbstractState,
    Meter, Scope, StepCosts,
};
use crate::status::{PartialVMError, PartialVMResult};
use crate::transfer::{listed, returned, single, updated, Context};
use crate::value::AbstractValue;

verus! {

/// What an instruction changes: the operand stack, the borrow state and the meter.
#[verifier::ext_equal]
pub ghost struct Configuration<S, M> {
    pub stack: Seq<AbstractValue>,
    pub state: S,
    pub meter: M,
}

/// The last charge of an instruction, for the sets that the borrow state keeps, may be replied to
/// with `r`.
pub open spec fn charges_references<S: AbstractState, M: Meter>(
    costs: StepCosts,
    state: S,
    meter: M,
    r: PartialVMResult<()>,
    after: M,
) -> bool {
    exists|size: usize|
        call_ensures(S::total_reference_size, (&state,), size) && #[trigger] call_ensures(
            M::add_items,
            (meter, Scope::Function, costs.per_collection_item, size),
            (after, r),
        )
}

/// The charge of an instruction for the locals, and the one after it, may be replied to with `r`.
pub open spec fn charges_locals<S: AbstractState, M: Meter>(
    costs: StepCosts,
    state: S,
    meter: M,
    r: PartialVMResult<()>,
    after: M,
) -> bool {
    exists|count: usize, r1: PartialVMResult<()>, m1: M|
        {
            &&& call_ensures(S::local_count, (&state,), count)
            &&& #[trigger] call_ensures(
                M::add_items,
                (meter, Scope::Function, costs.per_local, count),
                (m1, r1),
            )
            &&& match r1 {
                Ok(()) => charges_references(costs, state, m1, r, after),
                Err(e) => r == Err::<(), PartialVMError>(e) && after == m1,
            }
        }
}

/// The charges that an instruction makes before anything else: a base cost, a cost for each local,
/// and a cost for each entry of the sets that the borrow state keeps. `r` is the first error that
/// is replied, or success.
pub open spec fn charges<S: AbstractState, M: Meter>(
    costs: StepCosts,
    state: S,
    meter: M,
    r: PartialVMResult<()>,
    after: M,
) -> bool {
    exists|r1: PartialVMResult<()>, m1: M|
        {
            &&& #[trigger] call_ensures(M::add, (meter, Scope::Function, costs.base), (m1, r1))
            &&& match r1 {
                Ok(()) => charges_locals(costs, state, m1, r, after),
                Err(e) => r == Err::<(), PartialVMError>(e) && after == m1,
            }
        }
}

/// What is left to do for an instruction may end in `res` and lead from `pre` to `post`.
pub open spec fn performs<S: AbstractState, M: Meter>(
    action: ActionView,
    pre: Configuration<S, M>,
    res: PartialVMResult<()>,
    post: Configuration<S, M>,
) -> bool {
    match action {
        ActionView::Done => res is Ok && post == pre,
        ActionView::Update { op, pushes_value } => exists|r: PartialVMResult<()>|
            {
                &&& #[trigger] updates(pre.state, op, r, post.state)
                &&& post.stack == updated(pre.stack, pushes_value, r).0
                &&& res == updated(pre.stack, pushes_value, r).1
                &&& post.meter == pre.meter
            },
        ActionView::Query(op) => exists|r: PartialVMResult<AbstractValue>|
            {
                &&& #[trigger] produces(pre.state, op, r, post.state)
                &&& post.stack == returned(pre.stack, single(r)).0
                &&& res == returned(pre.stack, single(r)).1
                &&& post.meter == pre.meter
            },
        ActionView::Return { offset, values } => exists|r: PartialVMResult<()>|
            {
                &&& #[trigger] leaves(pre.state, offset, values, r, post.state)
                &&& post.stack == updated(pre.stack, false, r).0
                &&& res == updated(pre.stack, false, r).1
                &&& post.meter == pre.meter
            },
        ActionView::Call(call) => exists|r: PartialVMResult<Vec<AbstractValue>>|
            {
                &&& #[trigger] calls(pre.state, pre.meter, call, r, post.state, post.meter)
                &&& post.stack == returned(pre.stack, listed(r)).0
                &&& res == returned(pre.stack, listed(r)).1
            },
    }
}

/// An instruction that is paid for may end in `res` and lead from `pre` to `post`.
pub open spec fn steps<S: AbstractState, M: Meter>(
    context: Context,
    bytecode: Bytecode,
    offset: CodeOffset,
    pre: Configuration<S, M>,
    res: PartialVMResult<()>,
    post: Configuration<S, M>,
) -> bool {
    let (stack, begun) = context.begun(pre.stack, bytecode, offset);
    let middle = Configuration { stack, ..pre };
    match begun {
        Ok(action) => performs(action, middle, res, post),
        Err(e) => res == Err::<(), PartialVMError>(e) && post == middle,
    }
}

/// An instruction may end in `res` and lead from `pre` to `post`.
pub open spec fn executes<S: AbstractState, M: Meter>(
    context: Context,
    bytecode: Bytecode,
    offset: CodeOffset,
    pre: Configuration<S, M>,
    res: PartialVMResult<()>,
    post: Configuration<S, M>,
) -> bool {
    exists|r: PartialVMResult<()>, meter: M|
        {
            &&& #[trigger] charges(context.costs, pre.state, pre.meter, r, meter)
            &&& match r {
                Ok(()) => steps(
                    context,
                    bytecode,
                    offset,
                    Configuration { meter, ..pre },
                    res,
                    post,
                ),
                Err(e) => res == Err::<(), PartialVMError>(e) && post == (Configuration {
                    meter,
                    ..pre
                }),
            }
        }
}

/// Makes the charges of an instruction.
fn charge<S: AbstractState, M: Meter>(costs: StepCosts, state: &S, meter: M) -> (res: (
    M,
    PartialVMResult<()>,
))
    ensures
        charges(costs, *state, meter, res.1, res.0),
{
    let (meter, r) = meter.add(Scope::Function, costs.base);
    if r.is_err() {
        return (meter, r);
    }
    let count = state.local_count();
    let (meter, r) = meter.add_items(Scope::Function, costs.per_local, count);
    if r.is_err() {
        return (meter, r);
    }
    let size = state.total_reference_size();
    meter.add_items(Scope::Function, costs.per_collection_item, size)
}

/// Does what is left to do for an instruction.
fn perform<S: AbstractState, M: Meter>(
    verifier: &mut ReferenceSafetyAnalysis,
    state: S,
    action: Action,
    meter: M,
) -> (res: (S, M, PartialVMResult<()>))
    requires
        old(verifier).wf(),
    ensures
        final(verifier).wf(),
        final(verifier).context() == old(verifier).context(),
        performs(
            action@,
            Configuration { stack: old(verifier)@, state, meter },
            res.2,
            Configuration { stack: final(verifier)@, state: res.0, meter: res.1 },
        ),
{
    let ghost pre = Configuration { stack: verifier@, state, meter };
    match action {
        Action::Done => (state, meter, Ok(())),
        Action::Update { op, pushes_value } => {
            let (state, reply) = perform_update(state, op);
            let res = verifier.complete_update(pushes_value, reply);
            proof {
                let post = Configuration { stack: verifier@, state, meter };
                assert(updates(pre.state, op, reply, post.state));
                assert(post.stack == updated(pre.stack, pushes_value, reply).0);
                assert(performs(action@, pre, res, post));
            }
            (state, meter, res)
        },
        Action::Query(op) => {
            let (state, reply) = perform_query(state, op);
            let res = verifier.complete_query(reply);
            proof {
                let post = Configuration { stack: verifier@, state, meter };
                assert(produces(pre.state, op, reply, post.state));
                assert(post.stack == returned(pre.stack, single(reply)).0);
                assert(performs(action@, pre, res, post));
            }
            (state, meter, res)
        },
        Action::Return { offset, values } => {
            let (state, reply) = state.ret(offset, values);
            let res = verifier.complete_update(false, reply);
            proof {
                let post = Configuration { stack: verifier@, state, meter };
                let view = action@;
                assert(view == ActionView::Return { offset, values: values@ });
                assert(leaves(
                    pre.state,
                    view->Return_offset,
                    view->Return_values,
                    reply,
                    post.state,
                ));
                assert(post.stack == updated(pre.stack, false, reply).0);
                assert(performs(action@, pre, res, post));
            }
            (state, meter, res)
        },
        Action::Call(call) => {
            let (state, meter, reply) = perform_call(state, call, meter);
            let res = verifier.complete_call(reply);
            proof {
                let post = Configuration { stack: verifier@, state, meter };
                assert(calls(pre.state, pre.meter, call@, reply, post.state, post.meter));
                assert(post.stack == returned(pre.stack, listed(reply)).0);
                assert(performs(action@, pre, res, post));
            }
            (state, meter, res)
        },
    }
}

/// Executes an instruction. What it reads must exist, unless it cannot be paid for.
pub fn execute_inner<S: AbstractState, M: Meter>(
    verifier: &mut ReferenceSafetyAnalysis,
    state: S,
    bytecode: &Bytecode,
    offset: CodeOffset,
    meter: M,
) -> (res: (S, M, PartialVMResult<()>))
    requires
        old(verifier).wf(),
        forall|r: PartialVMResult<()>, m: M| #[trigger]
            charges(old(verifier).context().costs, state, meter, r, m) && r is Ok
                ==> old(verifier).context().executable(old(verifier)@, *bytecode),
    ensures
        final(verifier).wf(),
        final(verifier).context() == old(verifier).context(),
        executes(
            old(verifier).context(),
            *bytecode,
            offset,
            Configuration { stack: old(verifier)@, state, meter },
            res.2,
            Configuration { stack: final(verifier)@, state: res.0, meter: res.1 },
        ),
{
    let ghost pre = Configuration { stack: verifier@, state, meter };
    let (meter, charged) = charge(verifier.step_costs(), &state, meter);
    assert(charges(verifier.context().costs, pre.state, pre.meter, charged, meter));
    match charged {
        Err(e) => (state, meter, Err(e)),
        Ok(()) => match begin(verifier, bytecode, offset) {
            Err(e) => (state, meter, Err(e)),
            Ok(action) => perform(verifier, state, action, meter),
        },
    }
}

/// An instruction at `index` of a block that ends at `last_index` may end in `res` and lead from
/// `pre` to `post`: at the end of the block nothing may be left on the stack, and the borrow state
/// is brought into canonical form.
pub open spec fn completes<S: AbstractState, M: Meter>(
    context: Context,
    bytecode: Bytecode,
    index: CodeOffset,
    last_index: CodeOffset,
    pre: Configuration<S, M>,
    res: PartialVMResult<()>,
    post: Configuration<S, M>,
) -> bool {
    exists|inner: PartialVMResult<()>, middle: Configuration<S, M>|
        {
            &&& #[trigger] executes(context, bytecode, index, pre, inner, middle)
            &&& if inner is Err {
                res == inner && post == middle
            } else if index != last_index {
                res is Ok && post == middle
            } else if middle.stack.len() > 0 {
                res == Err::<(), PartialVMError>(PartialVMError::invariant_violation()) && post
                    == middle
            } else {
                &&& res is Ok
                &&& call_ensures(S::canonicalize, (middle.state,), post.state)
                &&& post.stack == middle.stack
                &&& post.meter == middle.meter
            }
        }
}

impl<'a> ReferenceSafetyAnalysis<'a> {
    /// Executes the instruction at `index` of a block that ends at `last_index`. What it reads must
    /// exist, unless it cannot be paid for.
    pub fn execute<S: AbstractState, M: Meter>(
        &mut self,
        state: S,
        bytecode: &Bytecode,
        index: CodeOffset,
        last_index: CodeOffset,
        meter: M,
    ) -> (res: (S, M, PartialVMResult<()>))
        requires
            old(self).wf(),
            forall|r: PartialVMResult<()>, m: M| #[trigger]
                charges(old(self).context().costs, state, meter, r, m) && r is Ok
                    ==> old(self).context().executable(old(self)@, *bytecode),
        ensures
            final(self).wf(),
            final(self).context() == old(self).context(),
            completes(
                old(self).context(),
                *bytecode,
                index,
                last_index,
                Configuration { stack: old(self)@, state, meter },
                res.2,
                Configuration { stack: final(self)@, state: res.0, meter: res.1 },
            ),
    {
        let ghost context = self.context();
        let ghost pre = Configuration { stack: self@, state, meter };
        let (state, meter, inner) = execute_inner(self, state, bytecode, index, meter);
        let ghost middle = Configuration { stack: self@, state, meter };
        assert(executes(context, *bytecode, index, pre, inner, middle));
        match self.end_step(inner, index, last_index) {
            Err(e) => {
                assert(completes(context, *bytecode, index, last_index, pre, Err(e), middle));
                (state, meter, Err(e))
            },
            Ok(StepEnd::Continue) => {
                assert(completes(context, *bytecode, index, last_index, pre, Ok(()), middle));
                (state, meter, Ok(()))
            },
            Ok(StepEnd::Canonicalize) => {
                let state = state.canonicalize();
                proof {
                    let post = Configuration { state, ..middle };
                    assert(completes(context, *bytecode, index, last_index, pre, Ok(()), post));
                }
                (state, meter, Ok(()))
            },
        }
    }
}

/// Finds a fixed point of the analysis over the blocks of a function.
pub trait AbstractInterpreter<S: AbstractState, M: Meter> {
    /// Analyses a function from an initial borrow state: every instruction that can be reached is
    /// executed, and an error is that of an instruction or of the meter.
    fn analyze_function(
        &self,
        verifier: ReferenceSafetyAnalysis,
        initial_state: S,
        function_view: &FunctionView,
        meter: M,
    ) -> (M, PartialVMResult<()>)
        requires
            verifier.wf(),
    ;
}

/// Verifies the reference safety of a function: runs the analysis, with nothing on its stack, from
/// the borrow state in which the body of that function starts.
pub fn verify<S: AbstractState, M: Meter, I: AbstractInterpreter<S, M>>(
    interpreter: &I,
    resolver: &BinaryIndexedView,
    function_view: &FunctionView,
    name_def_map: &HashMap<IdentifierIndex, FunctionDefinitionIndex>,
    costs: StepCosts,
    meter: M,
) -> (res: (M, PartialVMResult<()>))
    ensures
        exists|verifier: ReferenceSafetyAnalysis, initial_state: S|
            {
                &&& call_ensures(S::new, (function_view,), initial_state)
                &&& verifier.wf()
                &&& verifier@ == Seq::<AbstractValue>::empty()
                &&& verifier.context() == (Context {
                    resolver: *resolver,
                    function_view: *function_view,
                    name_def_map: name_def_map@,
                    costs,
                })
                &&& #[trigger] call_ensures(
                    I::analyze_function,
                    (interpreter, verifier, initial_state, function_view, meter),
                    res,
                )
            },
{
    let initial_state = S::new(function_view);
    let verifier = ReferenceSafetyAnalysis::new(resolver, function_view, name_def_map, costs);
    interpreter.analyze_function(verifier, initial_state, function_view, meter)
}

} // verus!
