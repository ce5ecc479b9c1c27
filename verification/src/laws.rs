//! What holds of the analysis as a whole.

use std::collections::HashMap;

use vstd::prelude::*;

use crate::abstract_stack::{repeated, top_equal, AbsStackError, AbstractStack};
use crate::action::{ActionView, CallView, StateQuery, StateUpdate};
use crate::analysis::{num_fields, ReferenceSafetyAnalysis};
use crate::binary_view::{BinaryIndexedView, FunctionView};
use crate::execution::{
    charges, completes, execute_inner, executes, steps, verify, AbstractInterpreter, Configuration,
};
use crate::file_format::{
    Bytecode, CodeOffset, FunctionDefinitionIndex, FunctionHandle, IdentifierIndex, Signature,
    SignatureToken, StructDefinition, StructFieldInformation,
};
use crate::state::{calls, leaves, produces, updates, AbstractState, Meter, StepCosts};
use crate::status::{PartialVMError, PartialVMResult, StatusCode};
use crate::transfer::{
    first_misfit, operands_fit, popped, returned, under, updated, Context, Operand,
};
use crate::value::{AbstractValue, ValueKind};

verus! {

/// Pushing copies of a value and popping as many equal values gives the stack back.
pub proof fn law_push_n_pop_eq_n(stack: Seq<AbstractValue>, v: AbstractValue, n: nat)
    ensures
        top_equal(stack + repeated(v, n), n),
        n > 0 ==> (stack + repeated(v, n)).last() == v,
        under(stack + repeated(v, n), n) == stack,
{
    assert(under(stack + repeated(v, n), n) == stack);
}

/// A new stack is empty, and a stack tells how many values it holds, whether it holds any, and the
/// top one.
pub proof fn law_looking_at_a_stack(
    fresh: AbstractStack,
    stack: AbstractStack,
    n: u64,
    empty: bool,
    top: Option<AbstractValue>,
)
    ensures
        call_ensures(AbstractStack::new, (), fresh) ==> fresh@.len() == 0,
        call_ensures(AbstractStack::len, (&stack,), n) ==> n == stack@.len(),
        call_ensures(AbstractStack::is_empty, (&stack,), empty) ==> (empty <==> stack@.len() == 0),
        call_ensures(AbstractStack::last, (&stack,), top) ==> {
            &&& top is None <==> stack@.len() == 0
            &&& top is Some ==> top->0 == stack@[stack@.len() - 1]
        },
{
}

/// A value that is pushed is the one that is popped next, and the stack is then as before.
pub proof fn law_pop_undoes_push(
    before: &mut AbstractStack,
    v: AbstractValue,
    pushed: Result<(), AbsStackError>,
    between: &mut AbstractStack,
    popped: Result<AbstractValue, AbsStackError>,
)
    requires
        call_ensures(AbstractStack::push, (before, v), pushed),
        *between == *final(before),
        call_ensures(AbstractStack::pop, (between,), popped),
        before@.len() <= 0xffff_ffff_ffff_ffff,
        pushed is Ok,
    ensures
        popped == Ok::<AbstractValue, AbsStackError>(v),
        final(between)@ == old(before)@,
{
    assert(before@.push(v).drop_last() == before@);
}

/// Copies of a value that are pushed are popped together, and the stack is then as before.
pub proof fn law_pop_eq_n_undoes_push_n(
    before: &mut AbstractStack,
    v: AbstractValue,
    n: u64,
    pushed: Result<(), AbsStackError>,
    between: &mut AbstractStack,
    popped: Result<AbstractValue, AbsStackError>,
)
    requires
        n > 0,
        call_ensures(AbstractStack::push_n, (before, v, n), pushed),
        *between == *final(before),
        call_ensures(AbstractStack::pop_eq_n, (between, n), popped),
        pushed is Ok,
    ensures
        popped == Ok::<AbstractValue, AbsStackError>(v),
        final(between)@ == old(before)@,
{
    law_push_n_pop_eq_n(before@, v, n as nat);
}

/// Pushing is refused just if a 64-bit number cannot count the values, and then changes nothing.
/// What was on the stack stays under what is pushed.
pub proof fn law_pushing(
    stack: &mut AbstractStack,
    v: AbstractValue,
    n: u64,
    res: Result<(), AbsStackError>,
)
    requires
        call_ensures(AbstractStack::push_n, (stack, v, n), res) || (n == 1 && stack@.len()
            <= 0xffff_ffff_ffff_ffff && call_ensures(AbstractStack::push, (stack, v), res)),
    ensures
        res is Ok <==> old(stack)@.len() + n <= 0xffff_ffff_ffff_ffff,
        res is Err ==> res == Err::<(), AbsStackError>(AbsStackError::Overflow) && final(stack)@
            == old(stack)@,
        res is Ok ==> {
            &&& final(stack)@.len() == old(stack)@.len() + n
            &&& old(stack)@.is_prefix_of(final(stack)@)
            &&& forall|i: int|
                old(stack)@.len() <= i < final(stack)@.len() ==> final(stack)@[i] == v
        },
{
}

/// Popping equal values is refused just if there are too few or they are not copies of the top one,
/// and then changes nothing. What is left is what was under them.
pub proof fn law_popping_equals(
    stack: &mut AbstractStack,
    n: u64,
    res: Result<AbstractValue, AbsStackError>,
)
    requires
        n > 0,
        call_ensures(AbstractStack::pop_eq_n, (stack, n), res) || (n == 1 && call_ensures(
            AbstractStack::pop,
            (stack,),
            res,
        )),
    ensures
        res == Err::<AbstractValue, AbsStackError>(AbsStackError::Underflow) <==> n > old(
            stack,
        )@.len(),
        res == Err::<AbstractValue, AbsStackError>(AbsStackError::ElementNotEqual) <==> n <= old(
            stack,
        )@.len() && exists|i: int|
            old(stack)@.len() - n <= i < old(stack)@.len() && old(stack)@[i] != old(stack)@.last(),
        res != Err::<AbstractValue, AbsStackError>(AbsStackError::Overflow),
        res is Err ==> final(stack)@ == old(stack)@,
        res is Ok ==> {
            &&& res->Ok_0 == old(stack)@.last()
            &&& final(stack)@ == old(stack)@.take(old(stack)@.len() - n)
        },
{
    law_copies(stack@, stack@.last(), n as nat);
    if stack@.len() > 0 {
        assert(stack@.take(stack@.len() - 1) == stack@.drop_last());
    }
}

/// Popping operands one by one reaches the last one just if all of them are as demanded.
pub proof fn law_operands_fit_to_the_last(stack: Seq<AbstractValue>, demands: Seq<Operand>)
    ensures
        operands_fit(stack, demands) <==> first_misfit(stack, demands, 0) == demands.len(),
{
    lemma_misfit(stack, demands, 0);
}

proof fn lemma_misfit(stack: Seq<AbstractValue>, demands: Seq<Operand>, i: nat)
    requires
        i <= demands.len(),
        i <= stack.len(),
        forall|j: int| 0 <= j < i ==> (#[trigger] demands[j]).admits(stack[stack.len() - 1 - j]),
    ensures
        operands_fit(stack, demands) <==> first_misfit(stack, demands, i) == demands.len(),
    decreases demands.len() - i,
{
    if i < demands.len() && i < stack.len() && demands[i as int].admits(
        stack[stack.len() - 1 - i],
    ) {
        lemma_misfit(stack, demands, i + 1);
    } else if i < demands.len() {
        assert(operands_fit(stack, demands) ==> demands[i as int].admits(
            stack[stack.len() - 1 - i],
        ));
    }
}

/// The first half of an instruction reports no error but that the stack is not as earlier passes
/// left it, or that a definition was looked up in a script, and the latter only in a script.
pub proof fn law_own_errors(
    context: Context,
    stack: Seq<AbstractValue>,
    bytecode: Bytecode,
    offset: CodeOffset,
)
    ensures
        context.begun(stack, bytecode, offset).1 matches Err(e) ==> {
            ||| e == PartialVMError::invariant_violation()
            ||| e == PartialVMError::in_script() && context.resolver.is_script()
        },
{
}

/// The first half of an instruction succeeds just if it is not refused in a script, its operands
/// fit, and what it pushes by itself finds room.
pub proof fn law_first_half_succeeds(
    context: Context,
    stack: Seq<AbstractValue>,
    bytecode: Bytecode,
    offset: CodeOffset,
)
    ensures
        context.begun(stack, bytecode, offset).1 is Ok <==> {
            &&& !context.refused_first(bytecode)
            &&& !context.refused_last(bytecode)
            &&& operands_fit(stack, context.operands(bytecode))
            &&& context.own_pushes(bytecode) matches Some(n) ==> stack.len() - context.operands(
                bytecode,
            ).len() + n <= u64::MAX
        },
{
}

/// A callee acquires no resources if the module defines no function of its name, or if the handle
/// of that definition differs from the handle that is called in the module, the name, the
/// parameters, the results or the type parameters.
pub proof fn law_foreign_callees_acquire_nothing(context: Context, handle: FunctionHandle)
    requires
        context.name_def_map.contains_key(handle.name) ==> {
            let def_index = context.name_def_map[handle.name];
            let def = context.resolver.definitions->0.function_defs@[def_index as int];
            let own = context.resolver.function_handles@[def.function as int];
            ||| own.module != handle.module
            ||| own.name != handle.name
            ||| own.parameters != handle.parameters
            ||| own.return_ != handle.return_
            ||| own.type_parameters@ != handle.type_parameters@
        },
    ensures
        context.acquired_resources(handle) == Set::<u16>::empty(),
{
}

/// A mutable borrow takes the same operands as an immutable one, and fails when it fails.
pub proof fn law_borrows_differ_in_mutability_only(
    context: Context,
    stack: Seq<AbstractValue>,
    offset: CodeOffset,
    local: u8,
    idx: u16,
)
    ensures
        ({
            let begun = |bytecode: Bytecode| context.begun(stack, bytecode, offset);
            let alike = |a: Bytecode, b: Bytecode|
                {
                    &&& begun(a).0 == begun(b).0
                    &&& begun(a).1 is Ok <==> begun(b).1 is Ok
                    &&& begun(a).1 is Err ==> begun(a).1 == begun(b).1
                };
            &&& alike(Bytecode::MutBorrowLoc(local), Bytecode::ImmBorrowLoc(local))
            &&& alike(Bytecode::MutBorrowField(idx), Bytecode::ImmBorrowField(idx))
            &&& alike(Bytecode::MutBorrowFieldGeneric(idx), Bytecode::ImmBorrowFieldGeneric(idx))
            &&& alike(Bytecode::MutBorrowGlobal(idx), Bytecode::ImmBorrowGlobal(idx))
            &&& alike(Bytecode::MutBorrowGlobalGeneric(idx), Bytecode::ImmBorrowGlobalGeneric(idx))
            &&& alike(Bytecode::VecMutBorrow(idx), Bytecode::VecImmBorrow(idx))
        }),
{
}

/// When the first half of an instruction fails, it has pushed nothing: what is left of the stack is
/// a lower part of it.
pub proof fn law_failure_only_pops(
    context: Context,
    stack: Seq<AbstractValue>,
    bytecode: Bytecode,
    offset: CodeOffset,
)
    requires
        context.executable(stack, bytecode),
        context.begun(stack, bytecode, offset).1 is Err,
    ensures
        context.begun(stack, bytecode, offset).0.is_prefix_of(stack),
{
    let demands = context.operands(bytecode);
    if !context.refused_first(bytecode) && !operands_fit(stack, demands) {
        lemma_misfit_bound(stack, demands, 0);
    }
}

proof fn lemma_misfit_bound(stack: Seq<AbstractValue>, demands: Seq<Operand>, i: nat)
    requires
        i <= stack.len(),
    ensures
        i <= first_misfit(stack, demands, i) <= stack.len(),
    decreases demands.len() - i,
{
    if i < demands.len() && i < stack.len() && demands[i as int].admits(
        stack[stack.len() - 1 - i],
    ) {
        lemma_misfit_bound(stack, demands, i + 1);
    }
}

/// How many values an instruction other than a call pushes when it succeeds.
pub open spec fn results(context: Context, bytecode: Bytecode) -> nat {
    match context.own_pushes(bytecode) {
        Some(n) => n,
        None => match bytecode {
            Bytecode::Pop | Bytecode::StLoc(_) | Bytecode::WriteRef | Bytecode::Abort
            | Bytecode::MoveTo(_) | Bytecode::MoveToGeneric(_) | Bytecode::VecPushBack(_)
            | Bytecode::VecSwap(_) | Bytecode::Ret => 0,
            _ => 1,
        },
    }
}

/// Whether the number of values that an instruction pushes is up to the borrow state.
pub open spec fn is_call(bytecode: Bytecode) -> bool {
    match bytecode {
        Bytecode::Call(_) | Bytecode::CallGeneric(_) | Bytecode::VecImmBorrow(_)
        | Bytecode::VecMutBorrow(_) => true,
        _ => false,
    }
}

/// What the meter replies when an instruction is executed, and what it is then.
proof fn lemma_charged<S: AbstractState, M: Meter>(
    context: Context,
    bytecode: Bytecode,
    offset: CodeOffset,
    pre: Configuration<S, M>,
    res: PartialVMResult<()>,
    post: Configuration<S, M>,
) -> (charged: (PartialVMResult<()>, M))
    requires
        executes(context, bytecode, offset, pre, res, post),
    ensures
        charges(context.costs, pre.state, pre.meter, charged.0, charged.1),
        match charged.0 {
            Ok(()) => steps(
                context,
                bytecode,
                offset,
                Configuration { meter: charged.1, ..pre },
                res,
                post,
            ),
            Err(e) => res == Err::<(), PartialVMError>(e) && post == (Configuration {
                meter: charged.1,
                ..pre
            }),
        },
{
    choose|r: PartialVMResult<()>, meter: M|
        {
            &&& #[trigger] charges(context.costs, pre.state, pre.meter, r, meter)
            &&& match r {
                Ok(()) => steps(
                    context,
                    bytecode,
                    offset,
                    Configuration { meter, ..pre },
                    res,
                    post,
                ),
                Err(e) => res == Err::<(), PartialVMError>(e) && post == (Configuration {
                    meter,
                    ..pre
                }),
            }
        }
}

/// An instruction that succeeds leaves all that lies under its operands as it was, whatever the
/// borrow state and the meter reply. Unless it is a call, it replaces its operands by a number of
/// values that is fixed by the instruction.
pub proof fn law_stack_effect<S: AbstractState, M: Meter>(
    context: Context,
    bytecode: Bytecode,
    offset: CodeOffset,
    pre: Configuration<S, M>,
    post: Configuration<S, M>,
)
    requires
        executes(context, bytecode, offset, pre, Ok(()), post),
    ensures
        operands_fit(pre.stack, context.operands(bytecode)),
        under(pre.stack, context.operands(bytecode).len()).is_prefix_of(post.stack),
        !is_call(bytecode) ==> post.stack.len() == pre.stack.len() - context.operands(
            bytecode,
        ).len() + results(context, bytecode),
{
    lemma_charged(context, bytecode, offset, pre, Ok(()), post);
}

/// Whether the borrow state replies to a call, if it succeeds, with one value for each result.
pub open spec fn replies_by_kind<S: AbstractState, M: Meter>() -> bool {
    forall|
        state: S,
        meter: M,
        call: CallView,
        r: PartialVMResult<Vec<AbstractValue>>,
        after: S,
        meter_after: M,
    | #[trigger]
        calls(state, meter, call, r, after, meter_after) && r is Ok ==> r->Ok_0@.len()
            == call.return_kinds.len()
}

/// How many values a call pushes when it succeeds, if the borrow state replies with one for each
/// result: borrowing an element of a vector pushes one.
pub open spec fn call_results(context: Context, bytecode: Bytecode) -> nat {
    match bytecode {
        Bytecode::Call(_) | Bytecode::CallGeneric(_) => context.resolver.signatures@[context.callee(
            bytecode,
        ).return_ as int].0@.len(),
        _ => 1,
    }
}

/// A call that succeeds replaces its operands by as many values as it has results, if the borrow
/// state replies with one value for each.
pub proof fn law_call_effect<S: AbstractState, M: Meter>(
    context: Context,
    bytecode: Bytecode,
    offset: CodeOffset,
    pre: Configuration<S, M>,
    post: Configuration<S, M>,
)
    requires
        is_call(bytecode),
        replies_by_kind::<S, M>(),
        executes(context, bytecode, offset, pre, Ok(()), post),
    ensures
        under(pre.stack, context.operands(bytecode).len()).is_prefix_of(post.stack),
        post.stack.len() == pre.stack.len() - context.operands(bytecode).len() + call_results(
            context,
            bytecode,
        ),
{
    law_stack_effect(context, bytecode, offset, pre, post);
    lemma_charged(context, bytecode, offset, pre, Ok(()), post);
}

/// An instruction that cannot be paid for fails, and leaves the stack and the borrow state alone.
pub proof fn law_unpaid_changes_nothing<S: AbstractState, M: Meter>(
    context: Context,
    bytecode: Bytecode,
    offset: CodeOffset,
    pre: Configuration<S, M>,
    res: PartialVMResult<()>,
    post: Configuration<S, M>,
)
    requires
        executes(context, bytecode, offset, pre, res, post),
        forall|r: PartialVMResult<()>, meter: M|
            #[trigger] charges(context.costs, pre.state, pre.meter, r, meter) ==> r is Err,
    ensures
        res is Err,
        post.stack == pre.stack,
        post.state == pre.state,
        charges(context.costs, pre.state, pre.meter, res, post.meter),
{
}

/// A block that is executed to its end leaves nothing on the stack, so every block starts with an
/// empty one.
pub proof fn law_blocks_end_empty<S: AbstractState, M: Meter>(
    context: Context,
    bytecode: Bytecode,
    last_index: CodeOffset,
    pre: Configuration<S, M>,
    post: Configuration<S, M>,
)
    requires
        completes(context, bytecode, last_index, last_index, pre, Ok(()), post),
    ensures
        post.stack.len() == 0,
{
}

/// Whatever the last instruction of a block is, if it succeeds the borrow state that is handed back
/// is the canonical form of the one that the instruction left, with nothing left on the stack.
pub proof fn law_blocks_end_in_canonical_form<S: AbstractState, M: Meter>(
    context: Context,
    bytecode: Bytecode,
    last_index: CodeOffset,
    pre: Configuration<S, M>,
    post: Configuration<S, M>,
)
    requires
        completes(context, bytecode, last_index, last_index, pre, Ok(()), post),
    ensures
        exists|middle: Configuration<S, M>|
            {
                &&& #[trigger] executes(context, bytecode, last_index, pre, Ok(()), middle)
                &&& middle.stack.len() == 0
                &&& call_ensures(S::canonicalize, (middle.state,), post.state)
                &&& post.stack == middle.stack
                &&& post.meter == middle.meter
            },
{
    let (inner, middle) = choose|inner: PartialVMResult<()>, middle: Configuration<S, M>|
        {
            &&& #[trigger] executes(context, bytecode, last_index, pre, inner, middle)
            &&& inner is Ok
            &&& middle.stack.len() == 0
            &&& call_ensures(S::canonicalize, (middle.state,), post.state)
            &&& post.stack == middle.stack
            &&& post.meter == middle.meter
        };
    assert(inner->Ok_0 == ());
    assert(executes(context, bytecode, last_index, pre, Ok(()), middle));
}

/// An instruction of a block fails just as it fails on its own, or, at the end of the block,
/// because it leaves something on the stack. Either way nothing is brought into canonical form.
pub proof fn law_failures_in_blocks<S: AbstractState, M: Meter>(
    context: Context,
    bytecode: Bytecode,
    index: CodeOffset,
    last_index: CodeOffset,
    pre: Configuration<S, M>,
    res: PartialVMResult<()>,
    post: Configuration<S, M>,
)
    requires
        completes(context, bytecode, index, last_index, pre, res, post),
        res is Err,
    ensures
        executes(context, bytecode, index, pre, res, post) || {
            &&& index == last_index
            &&& executes(context, bytecode, index, pre, Ok(()), post)
            &&& post.stack.len() > 0
            &&& res->Err_0.major_status == StatusCode::UnknownInvariantViolationError
            &&& res->Err_0.sub_status is None
            &&& res->Err_0.message is None
        },
{
    let (inner, middle) = choose|inner: PartialVMResult<()>, middle: Configuration<S, M>|
        {
            &&& #[trigger] executes(context, bytecode, index, pre, inner, middle)
            &&& post == middle
            &&& inner is Err ==> res == inner
            &&& inner is Ok ==> {
                &&& index == last_index
                &&& middle.stack.len() > 0
                &&& res == Err::<(), PartialVMError>(PartialVMError::invariant_violation())
            }
        };
    if inner is Ok {
        assert(inner->Ok_0 == ());
    }
}

/// An instruction asks no more of the tables than that each index which it reads is within its
/// table, and only a call asks anything of the stack but for a value that is no reference.
pub proof fn law_what_must_exist(
    context: Context,
    stack: Seq<AbstractValue>,
    bytecode: Bytecode,
    idx: u16,
)
    ensures
        ({
            let view = context.resolver;
            let defs = view.definitions->0;
            let script = view.definitions is None;
            &&& context.executable(stack, Bytecode::Pack(idx)) <==> script || idx
                < defs.struct_defs@.len()
            &&& context.executable(stack, Bytecode::Unpack(idx)) <==> script || idx
                < defs.struct_defs@.len()
            &&& context.executable(stack, Bytecode::PackGeneric(idx)) <==> script || (idx
                < defs.struct_instantiations@.len()
                && defs.struct_instantiations@[idx as int].def < defs.struct_defs@.len())
            &&& context.executable(stack, Bytecode::UnpackGeneric(idx)) <==> script || (idx
                < defs.struct_instantiations@.len()
                && defs.struct_instantiations@[idx as int].def < defs.struct_defs@.len())
            &&& context.executable(stack, Bytecode::MutBorrowFieldGeneric(idx)) <==> script || idx
                < defs.field_instantiations@.len()
            &&& context.executable(stack, Bytecode::ImmBorrowFieldGeneric(idx)) <==> script || idx
                < defs.field_instantiations@.len()
            &&& match bytecode {
                Bytecode::MutBorrowGlobalGeneric(i) | Bytecode::ImmBorrowGlobalGeneric(i)
                | Bytecode::MoveFromGeneric(i) => context.executable(stack, bytecode) <==> {
                    ||| script
                    ||| stack.len() == 0
                    ||| stack.last() is Reference
                    ||| i < defs.struct_instantiations@.len()
                },
                Bytecode::Call(_) | Bytecode::CallGeneric(_) | Bytecode::Pack(_)
                | Bytecode::PackGeneric(_) | Bytecode::Unpack(_) | Bytecode::UnpackGeneric(_)
                | Bytecode::MutBorrowFieldGeneric(_) | Bytecode::ImmBorrowFieldGeneric(_) => true,
                _ => context.executable(stack, bytecode),
            }
        }),
{
}

/// A call asks that the handle of its callee, the signatures of that handle and, in a module, the
/// definition under its name and the handle of that definition are within their tables, and that
/// its arguments are on the stack. In a script a callee whose name is known is refused before its
/// result types are read.
pub proof fn law_what_a_call_needs(context: Context, stack: Seq<AbstractValue>, idx: u16, inst: u16)
    ensures
        ({
            let view = context.resolver;
            let defs = view.definitions->0;
            let handle = view.function_handles@[idx as int];
            let named = context.name_def_map.contains_key(handle.name);
            let def = context.name_def_map[handle.name];
            context.executable(stack, Bytecode::Call(idx)) <==> {
                &&& idx < view.function_handles@.len()
                &&& handle.parameters < view.signatures@.len()
                &&& view.signatures@[handle.parameters as int].0@.len() <= stack.len()
                &&& (named && view.definitions is None) || handle.return_ < view.signatures@.len()
                &&& named && view.definitions is Some ==> {
                    &&& def < defs.function_defs@.len()
                    &&& defs.function_defs@[def as int].function < view.function_handles@.len()
                }
            }
        }),
        context.executable(stack, Bytecode::CallGeneric(inst)) <==> {
            &&& inst < context.resolver.function_instantiations@.len()
            &&& context.executable(
                stack,
                Bytecode::Call(context.resolver.function_instantiations@[inst as int].handle),
            )
        },
{
}

/// Handles are the same just if they agree in the module, the name, the parameters, the results
/// and the type parameters.
pub proof fn law_same_handles(a: FunctionHandle, b: FunctionHandle, same: bool)
    requires
        call_ensures(FunctionHandle::is_same, (&a, &b), same),
    ensures
        same <==> {
            &&& a.module == b.module
            &&& a.name == b.name
            &&& a.parameters == b.parameters
            &&& a.return_ == b.return_
            &&& a.type_parameters@ == b.type_parameters@
        },
{
}

/// A struct has as many fields as it declares, and a native one has none.
pub proof fn law_number_of_fields(struct_def: StructDefinition, n: usize)
    requires
        call_ensures(num_fields, (&struct_def,), n),
    ensures
        struct_def.field_information is Native ==> n == 0,
        struct_def.field_information matches StructFieldInformation::Declared(fields) ==> n
            == fields@.len(),
{
}

/// The values of a type are mutable references, immutable ones, or none, as the outermost
/// constructor of the type says.
pub proof fn law_kinds_of_values(
    token: SignatureToken,
    kind: ValueKind,
    signature: Signature,
    kinds: Vec<ValueKind>,
)
    ensures
        call_ensures(ValueKind::for_type, (&token,), kind) ==> {
            &&& kind == ValueKind::Reference(true) <==> token is MutableReference
            &&& kind == ValueKind::Reference(false) <==> token is Reference
        },
        call_ensures(ValueKind::for_signature, (&signature,), kinds) ==> {
            &&& kinds@.len() == signature.0@.len()
            &&& forall|i: int|
                0 <= i < kinds@.len() ==> {
                    &&& #[trigger] kinds@[i] == ValueKind::Reference(true) <==> signature.0@[i]
                        is MutableReference
                    &&& kinds@[i] == ValueKind::Reference(false) <==> signature.0@[i] is Reference
                }
        },
{
}

/// The verification of a function hands the interpreter an analysis with an empty stack, the
/// tables and costs that it was given, and the state in which that very function starts, and
/// returns what the interpreter returns.
pub proof fn law_verification_starts_afresh<
    S: AbstractState,
    M: Meter,
    I: AbstractInterpreter<S, M>,
>(
    interpreter: I,
    resolver: BinaryIndexedView,
    function_view: FunctionView,
    name_def_map: HashMap<IdentifierIndex, FunctionDefinitionIndex>,
    costs: StepCosts,
    meter: M,
    res: (M, PartialVMResult<()>),
)
    requires
        call_ensures(
            verify::<S, M, I>,
            (&interpreter, &resolver, &function_view, &name_def_map, costs, meter),
            res,
        ),
    ensures
        exists|verifier: ReferenceSafetyAnalysis, initial_state: S|
            {
                &&& #[trigger] call_ensures(
                    I::analyze_function,
                    (&interpreter, verifier, initial_state, &function_view, meter),
                    res,
                )
                &&& call_ensures(S::new, (&function_view,), initial_state)
                &&& verifier@.len() == 0
                &&& verifier.context().resolver == resolver
                &&& verifier.context().function_view == function_view
                &&& verifier.context().name_def_map == name_def_map@
                &&& verifier.context().costs == costs
            },
{
}

/// Executing an instruction leaves the tables and costs of the analysis alone, and leads from its
/// stack, the borrow state and the meter to those that are handed back, on its own and as part of
/// a block.
pub proof fn law_execution<S: AbstractState, M: Meter>(
    verifier: &mut ReferenceSafetyAnalysis,
    state: S,
    bytecode: Bytecode,
    index: CodeOffset,
    last_index: CodeOffset,
    meter: M,
    res: (S, M, PartialVMResult<()>),
)
    ensures
        call_ensures(execute_inner::<S, M>, (verifier, state, &bytecode, index, meter), res) ==> {
            &&& final(verifier).context() == old(verifier).context()
            &&& executes(
                old(verifier).context(),
                bytecode,
                index,
                Configuration { stack: old(verifier)@, state, meter },
                res.2,
                Configuration { stack: final(verifier)@, state: res.0, meter: res.1 },
            )
        },
        call_ensures(
            ReferenceSafetyAnalysis::execute::<S, M>,
            (verifier, state, &bytecode, index, last_index, meter),
            res,
        ) ==> {
            &&& final(verifier).context() == old(verifier).context()
            &&& completes(
                old(verifier).context(),
                bytecode,
                index,
                last_index,
                Configuration { stack: old(verifier)@, state, meter },
                res.2,
                Configuration { stack: final(verifier)@, state: res.0, meter: res.1 },
            )
        },
{
}

/// A new analysis has an empty stack, and the tables and costs that it was given.
pub proof fn law_new_analysis<'a>(
    resolver: &'a BinaryIndexedView,
    function_view: &'a FunctionView,
    name_def_map: &'a HashMap<IdentifierIndex, FunctionDefinitionIndex>,
    costs: StepCosts,
    analysis: ReferenceSafetyAnalysis<'a>,
)
    requires
        call_ensures(
            ReferenceSafetyAnalysis::new,
            (resolver, function_view, name_def_map, costs),
            analysis,
        ),
    ensures
        analysis.wf(),
        analysis@.len() == 0,
        analysis.context().resolver == *resolver,
        analysis.context().function_view == *function_view,
        analysis.context().name_def_map == name_def_map@,
        analysis.context().costs == costs,
{
}

/// The analysis pushes copies of a value, of whatever kind, all or none. It is refused just if a
/// 64-bit number cannot count the values, with an error that says that the stack is not as earlier
/// passes left it, and no more.
pub proof fn law_analysis_pushes(
    analysis: &mut ReferenceSafetyAnalysis,
    v: AbstractValue,
    n: u64,
    res: PartialVMResult<()>,
)
    requires
        analysis.wf(),
        call_ensures(ReferenceSafetyAnalysis::push_n, (analysis, v, n), res) || (n == 1
            && call_ensures(ReferenceSafetyAnalysis::push, (analysis, v), res)),
    ensures
        final(analysis).context() == old(analysis).context(),
        res is Ok <==> old(analysis)@.len() + n <= 0xffff_ffff_ffff_ffff,
        res is Err ==> {
            &&& final(analysis)@ == old(analysis)@
            &&& res->Err_0.major_status == StatusCode::UnknownInvariantViolationError
            &&& res->Err_0.sub_status is None
            &&& res->Err_0.message is None
        },
        res is Ok ==> {
            &&& final(analysis)@.len() == old(analysis)@.len() + n
            &&& old(analysis)@.is_prefix_of(final(analysis)@)
            &&& forall|i: int|
                old(analysis)@.len() <= i < final(analysis)@.len() ==> final(analysis)@[i] == v
        },
{
    assert(analysis@ + seq![v].take(0) == analysis@);
}

/// The analysis tells of an instruction whether what it reads exists.
pub proof fn law_is_executable(
    analysis: ReferenceSafetyAnalysis,
    bytecode: Bytecode,
    executable: bool,
)
    requires
        call_ensures(ReferenceSafetyAnalysis::is_executable, (&analysis, &bytecode), executable),
    ensures
        executable <==> analysis.context().executable(analysis@, bytecode),
{
}

/// An error that is made of a status says nothing else.
pub proof fn law_plain_errors(code: StatusCode, error: PartialVMError)
    requires
        call_ensures(PartialVMError::new, (code,), error),
    ensures
        error.major_status == code,
        error.sub_status is None,
        error.message is None,
{
}

/// The top values of a stack are all equal just if they are copies of the top one, and copies of a
/// value are as many as they are said to be.
pub proof fn law_copies(stack: Seq<AbstractValue>, v: AbstractValue, n: nat)
    ensures
        top_equal(stack, n) <==> n <= stack.len() && (forall|i: int|
            stack.len() - n <= i < stack.len() ==> stack[i] == stack.last()),
        repeated(v, n).len() == n,
        forall|i: int| 0 <= i < n ==> repeated(v, n)[i] == v,
{
}

/// Within a block the borrow state is not brought into canonical form: an instruction before the
/// last one does what it does on its own.
pub proof fn law_no_canonical_form_within_a_block<S: AbstractState, M: Meter>(
    context: Context,
    bytecode: Bytecode,
    index: CodeOffset,
    last_index: CodeOffset,
    pre: Configuration<S, M>,
    res: PartialVMResult<()>,
    post: Configuration<S, M>,
)
    requires
        index != last_index,
    ensures
        completes(context, bytecode, index, last_index, pre, res, post) <==> executes(
            context,
            bytecode,
            index,
            pre,
            res,
            post,
        ),
{
    if completes(context, bytecode, index, last_index, pre, res, post) {
        let (inner, middle) = choose|inner: PartialVMResult<()>, middle: Configuration<S, M>|
            {
                &&& #[trigger] executes(context, bytecode, index, pre, inner, middle)
                &&& if inner is Err {
                    res == inner && post == middle
                } else {
                    res is Ok && post == middle
                }
            };
        if res is Ok {
            assert(res->Ok_0 == inner->Ok_0);
            assert(res == inner);
        }
    }
}

/// How many values an instruction pops and how many it pushes, where neither number depends on
/// what the instruction refers to.
pub open spec fn operand_counts(bytecode: Bytecode) -> Option<(nat, nat)> {
    match bytecode {
        Bytecode::Pop | Bytecode::StLoc(_) | Bytecode::BrTrue(_) | Bytecode::BrFalse(_)
        | Bytecode::Abort => Some((1, 0)),
        Bytecode::CopyLoc(_) | Bytecode::MoveLoc(_) | Bytecode::MutBorrowLoc(_)
        | Bytecode::ImmBorrowLoc(_) | Bytecode::LdTrue | Bytecode::LdFalse | Bytecode::LdU8(_)
        | Bytecode::LdU16(_) | Bytecode::LdU32(_) | Bytecode::LdU64(_) | Bytecode::LdU128(_)
        | Bytecode::LdU256(_) | Bytecode::LdConst(_) => Some((0, 1)),
        Bytecode::FreezeRef | Bytecode::ReadRef | Bytecode::MutBorrowField(_)
        | Bytecode::MutBorrowFieldGeneric(_) | Bytecode::ImmBorrowField(_)
        | Bytecode::ImmBorrowFieldGeneric(_) | Bytecode::MutBorrowGlobal(_)
        | Bytecode::MutBorrowGlobalGeneric(_) | Bytecode::ImmBorrowGlobal(_)
        | Bytecode::ImmBorrowGlobalGeneric(_) | Bytecode::MoveFrom(_)
        | Bytecode::MoveFromGeneric(_) | Bytecode::VecLen(_) | Bytecode::VecPopBack(_) => Some(
            (1, 1),
        ),
        Bytecode::Eq | Bytecode::Neq | Bytecode::Add | Bytecode::Sub | Bytecode::Mul
        | Bytecode::Mod | Bytecode::Div | Bytecode::BitOr | Bytecode::BitAnd | Bytecode::Xor
        | Bytecode::Shl | Bytecode::Shr | Bytecode::Or | Bytecode::And | Bytecode::Lt
        | Bytecode::Gt | Bytecode::Le | Bytecode::Ge | Bytecode::VecImmBorrow(_)
        | Bytecode::VecMutBorrow(_) => Some((2, 1)),
        Bytecode::WriteRef | Bytecode::MoveTo(_) | Bytecode::MoveToGeneric(_)
        | Bytecode::VecPushBack(_) => Some((2, 0)),
        Bytecode::VecSwap(_) => Some((3, 0)),
        Bytecode::Branch(_) | Bytecode::Nop | Bytecode::CastU8 | Bytecode::CastU16
        | Bytecode::CastU32 | Bytecode::CastU64 | Bytecode::CastU128 | Bytecode::CastU256
        | Bytecode::Not | Bytecode::Exists(_) | Bytecode::ExistsGeneric(_) => Some((0, 0)),
        Bytecode::Ret | Bytecode::Call(_) | Bytecode::CallGeneric(_) | Bytecode::Pack(_)
        | Bytecode::PackGeneric(_) | Bytecode::Unpack(_) | Bytecode::UnpackGeneric(_)
        | Bytecode::VecPack(_, _) | Bytecode::VecUnpack(_, _) => None,
    }
}

/// An instruction with fixed counts that succeeds pops and pushes as many values as they say, and
/// leaves the rest of the stack as it was. To borrow an element of a vector pushes one value if
/// the borrow state replies with one value for each result.
pub proof fn law_operand_counts<S: AbstractState, M: Meter>(
    context: Context,
    bytecode: Bytecode,
    offset: CodeOffset,
    pre: Configuration<S, M>,
    post: Configuration<S, M>,
)
    requires
        operand_counts(bytecode) is Some,
        is_call(bytecode) ==> replies_by_kind::<S, M>(),
        executes(context, bytecode, offset, pre, Ok(()), post),
    ensures
        ({
            let (pops, pushes) = operand_counts(bytecode)->0;
            &&& pops <= pre.stack.len()
            &&& post.stack.len() == pre.stack.len() - pops + pushes
            &&& post.stack.take(pre.stack.len() - pops) == pre.stack.take(pre.stack.len() - pops)
        }),
{
    law_stack_effect(context, bytecode, offset, pre, post);
    if is_call(bytecode) {
        law_call_effect(context, bytecode, offset, pre, post);
    }
    assert(context.operands(bytecode).len() == (operand_counts(bytecode)->0).0);
}

/// Whether every operation of the borrow state that succeeds leads from a state with a property to
/// a state with that property.
pub open spec fn operations_keep<S: AbstractState, M: Meter>(inv: spec_fn(S) -> bool) -> bool {
    &&& forall|state: S, op: StateUpdate, r: PartialVMResult<()>, after: S| #[trigger]
        updates(state, op, r, after) && r is Ok && inv(state) ==> inv(after)
    &&& forall|state: S, op: StateQuery, r: PartialVMResult<AbstractValue>, after: S| #[trigger]
        produces(state, op, r, after) && r is Ok && inv(state) ==> inv(after)
    &&& forall|
        state: S,
        offset: CodeOffset,
        values: Seq<AbstractValue>,
        r: PartialVMResult<()>,
        after: S,
    | #[trigger]
        leaves(state, offset, values, r, after) && r is Ok && inv(state) ==> inv(after)
    &&& forall|
        state: S,
        meter: M,
        call: CallView,
        r: PartialVMResult<Vec<AbstractValue>>,
        after: S,
        meter_after: M,
    | #[trigger]
        calls(state, meter, call, r, after, meter_after) && r is Ok && inv(state) ==> inv(after)
}

/// An invariant of the borrow state that its operations keep holds again after every instruction
/// that succeeds.
pub proof fn law_invariant_is_kept<S: AbstractState, M: Meter>(
    inv: spec_fn(S) -> bool,
    context: Context,
    bytecode: Bytecode,
    offset: CodeOffset,
    pre: Configuration<S, M>,
    post: Configuration<S, M>,
)
    requires
        operations_keep::<S, M>(inv),
        inv(pre.state),
        executes(context, bytecode, offset, pre, Ok(()), post),
    ensures
        inv(post.state),
{
    lemma_charged(context, bytecode, offset, pre, Ok(()), post);
}

/// An invariant of the borrow state that its operations keep holds again after every instruction
/// of a block that succeeds; after the last one, if canonical form keeps it too.
pub proof fn law_invariant_is_kept_in_blocks<S: AbstractState, M: Meter>(
    inv: spec_fn(S) -> bool,
    context: Context,
    bytecode: Bytecode,
    index: CodeOffset,
    last_index: CodeOffset,
    pre: Configuration<S, M>,
    post: Configuration<S, M>,
)
    requires
        operations_keep::<S, M>(inv),
        index == last_index ==> forall|state: S, after: S| #[trigger]
            call_ensures(S::canonicalize, (state,), after) && inv(state) ==> inv(after),
        inv(pre.state),
        completes(context, bytecode, index, last_index, pre, Ok(()), post),
    ensures
        inv(post.state),
{
    if index == last_index {
        law_blocks_end_in_canonical_form(context, bytecode, index, pre, post);
    }
    if index != last_index {
        law_no_canonical_form_within_a_block(
            context,
            bytecode,
            index,
            last_index,
            pre,
            Ok(()),
            post,
        );
        law_invariant_is_kept(inv, context, bytecode, index, pre, post);
    } else {
        let middle = choose|middle: Configuration<S, M>|
            {
                &&& #[trigger] executes(context, bytecode, index, pre, Ok(()), middle)
                &&& call_ensures(S::canonicalize, (middle.state,), post.state)
            };
        law_invariant_is_kept(inv, context, bytecode, index, pre, middle);
    }
}

/// The values that an instruction hands to the borrow state.
pub open spec fn handed(action: ActionView) -> Seq<AbstractValue> {
    match action {
        ActionView::Done => Seq::empty(),
        ActionView::Update { op, .. } => match op {
            StateUpdate::ReleaseValue(value) => seq![value],
            StateUpdate::StLoc { value, .. } => seq![value],
            StateUpdate::WriteRef { id, .. } => seq![AbstractValue::Reference(id)],
            StateUpdate::VectorOp { vector, .. } => seq![vector],
            StateUpdate::Abort => Seq::empty(),
        },
        ActionView::Query(op) => match op {
            StateQuery::FreezeRef { id, .. } => seq![AbstractValue::Reference(id)],
            StateQuery::Comparison { first, second, .. } => seq![first, second],
            StateQuery::ReadRef { id, .. } => seq![AbstractValue::Reference(id)],
            StateQuery::BorrowField { id, .. } => seq![AbstractValue::Reference(id)],
            _ => Seq::empty(),
        },
        ActionView::Return { values, .. } => values,
        ActionView::Call(call) => call.arguments,
    }
}

/// No reference gets lost: each one that the first half of an instruction takes off the stack is
/// handed to the borrow state, as often as it was there.
pub proof fn law_references_are_handed_over(
    context: Context,
    stack: Seq<AbstractValue>,
    bytecode: Bytecode,
    offset: CodeOffset,
    v: AbstractValue,
)
    requires
        v is Reference,
        context.begun(stack, bytecode, offset).1 is Ok,
    ensures
        stack.to_multiset().count(v) == context.begun(
            stack,
            bytecode,
            offset,
        ).0.to_multiset().count(v) + handed(
            context.begun(stack, bytecode, offset).1->Ok_0,
        ).to_multiset().count(v),
{
    let demands = context.operands(bytecode);
    let n = demands.len();
    let args = popped(stack, n);
    let rest = under(stack, n);
    let action = context.begun(stack, bytecode, offset).1->Ok_0;
    assert(stack == rest + args.reverse());
    vstd::seq_lib::lemma_multiset_commutative(rest, args.reverse());
    args.lemma_reverse_to_multiset();
    assert forall|i: int| 0 <= i < n && demands[i] is Value implies args[i]
        == AbstractValue::NonReference by {
        assert(demands[i].admits(stack[stack.len() - 1 - i]));
    }
    assert forall|i: int| 0 <= i < n && demands[i] is Reference implies args[i] is Reference by {
        assert(demands[i].admits(stack[stack.len() - 1 - i]));
    }
    match context.own_pushes(bytecode) {
        Some(k) => {
            let news = repeated(AbstractValue::NonReference, k);
            vstd::seq_lib::lemma_multiset_commutative(rest, news);
            lemma_absent(news, v);
            lemma_absent(args, v);
            lemma_absent(handed(action), v);
        },
        None => {
            assert(action == context.request(bytecode, offset, args));
            lemma_handed_over(context, bytecode, offset, args, v);
        },
    }
}

/// What a request hands over are the references among the operands.
proof fn lemma_handed_over(
    context: Context,
    bytecode: Bytecode,
    offset: CodeOffset,
    args: Seq<AbstractValue>,
    v: AbstractValue,
)
    requires
        v is Reference,
        context.own_pushes(bytecode) is None,
        args.len() == context.operands(bytecode).len(),
        forall|i: int|
            0 <= i < args.len() && context.operands(bytecode)[i] is Value ==> args[i]
                == AbstractValue::NonReference,
        forall|i: int|
            0 <= i < args.len() && context.operands(bytecode)[i] is Reference ==> args[i]
                is Reference,
    ensures
        args.to_multiset().count(v) == handed(
            context.request(bytecode, offset, args),
        ).to_multiset().count(v),
{
    let demands = context.operands(bytecode);
    let list = handed(context.request(bytecode, offset, args));
    match bytecode {
        Bytecode::Ret => {
            args.lemma_reverse_to_multiset();
        },
        Bytecode::WriteRef => {
            assert(demands[0] is Reference && demands[1] is Value);
            assert(args == list.push(args[1]));
            lemma_pushed_count(list, args[1], v);
        },
        Bytecode::MoveTo(_)
        | Bytecode::MoveToGeneric(_)
        | Bytecode::VecPushBack(_)
        | Bytecode::VecImmBorrow(_)
        | Bytecode::VecMutBorrow(_) => {
            assert(demands[0] is Value);
            assert(args == seq![args[0]] + list);
            vstd::seq_lib::lemma_multiset_commutative(seq![args[0]], list);
            lemma_absent(seq![args[0]], v);
        },
        Bytecode::VecSwap(_) => {
            assert(demands[0] is Value && demands[1] is Value);
            assert(args == seq![args[0], args[1]] + list);
            vstd::seq_lib::lemma_multiset_commutative(seq![args[0], args[1]], list);
            lemma_absent(seq![args[0], args[1]], v);
        },
        Bytecode::Abort
        | Bytecode::MutBorrowGlobal(_)
        | Bytecode::MutBorrowGlobalGeneric(_)
        | Bytecode::ImmBorrowGlobal(_)
        | Bytecode::ImmBorrowGlobalGeneric(_)
        | Bytecode::MoveFrom(_)
        | Bytecode::MoveFromGeneric(_) => {
            assert(demands[0] is Value);
            lemma_absent(args, v);
            lemma_absent(list, v);
        },
        Bytecode::FreezeRef
        | Bytecode::ReadRef
        | Bytecode::MutBorrowField(_)
        | Bytecode::MutBorrowFieldGeneric(_)
        | Bytecode::ImmBorrowField(_)
        | Bytecode::ImmBorrowFieldGeneric(_) => {
            assert(demands[0] is Reference);
            assert(args == list);
        },
        _ => {
            assert(args == list);
        },
    }
}

proof fn lemma_absent(s: Seq<AbstractValue>, v: AbstractValue)
    requires
        forall|i: int| 0 <= i < s.len() ==> s[i] != v,
    ensures
        s.to_multiset().count(v) == 0,
{
    s.to_multiset_ensures();
    assert(!s.contains(v));
}

proof fn lemma_pushed_count(s: Seq<AbstractValue>, a: AbstractValue, v: AbstractValue)
    requires
        a != v,
    ensures
        s.push(a).to_multiset().count(v) == s.to_multiset().count(v),
{
    s.to_multiset_ensures();
}

/// The analysis makes no references up: what an instruction pushes by itself are no references,
/// and the only values that are pushed beside are those that the borrow state replied.
pub proof fn law_no_reference_is_made_up(
    context: Context,
    stack: Seq<AbstractValue>,
    bytecode: Bytecode,
    offset: CodeOffset,
    pushes_value: bool,
    updating: PartialVMResult<()>,
    returning: PartialVMResult<Seq<AbstractValue>>,
)
    requires
        stack.len() <= u64::MAX,
    ensures
        ({
            let begun = context.begun(stack, bytecode, offset);
            begun.1 is Ok ==> forall|i: int|
                stack.len() - context.operands(bytecode).len() <= i < begun.0.len()
                    ==> #[trigger] begun.0[i] is NonReference
        }),
        forall|i: int|
            stack.len() <= i < updated(stack, pushes_value, updating).0.len()
                ==> #[trigger] updated(stack, pushes_value, updating).0[i] is NonReference,
        returning matches Ok(values) ==> returned(stack, returning).0.is_prefix_of(stack + values),
        returning is Err ==> returned(stack, returning).0 == stack,
{
}

/// `plain` is the instruction that does to a struct, field or function what `generic` does to an
/// instantiation of it, where the instantiation can be looked up.
pub open spec fn counterpart(context: Context, generic: Bytecode, plain: Bytecode) -> bool {
    let def = |idx: u16| context.resolver.struct_instantiation(idx).def;
    let field = |idx: u16| context.resolver.field_instantiation(idx).handle;
    let module = !context.resolver.is_script();
    match generic {
        Bytecode::PackGeneric(idx) => module && plain == Bytecode::Pack(def(idx)),
        Bytecode::UnpackGeneric(idx) => module && plain == Bytecode::Unpack(def(idx)),
        Bytecode::MutBorrowGlobalGeneric(idx) => module && plain == Bytecode::MutBorrowGlobal(
            def(idx),
        ),
        Bytecode::ImmBorrowGlobalGeneric(idx) => module && plain == Bytecode::ImmBorrowGlobal(
            def(idx),
        ),
        Bytecode::MoveFromGeneric(idx) => module && plain == Bytecode::MoveFrom(def(idx)),
        Bytecode::MutBorrowFieldGeneric(idx) => module && plain == Bytecode::MutBorrowField(
            field(idx),
        ),
        Bytecode::ImmBorrowFieldGeneric(idx) => module && plain == Bytecode::ImmBorrowField(
            field(idx),
        ),
        Bytecode::CallGeneric(idx) => plain == Bytecode::Call(
            context.resolver.function_instantiations@[idx as int].handle,
        ),
        Bytecode::MoveToGeneric(_) => plain is MoveTo,
        Bytecode::ExistsGeneric(_) => plain is Exists,
        _ => false,
    }
}

/// An instruction on a generic struct, field or function does what its counterpart does on the
/// struct, field or function that is instantiated: the same results, stacks, borrow states and
/// meters are possible.
pub proof fn law_generic_instructions<S: AbstractState, M: Meter>(
    context: Context,
    generic: Bytecode,
    plain: Bytecode,
    offset: CodeOffset,
    pre: Configuration<S, M>,
    res: PartialVMResult<()>,
    post: Configuration<S, M>,
)
    requires
        counterpart(context, generic, plain),
    ensures
        executes(context, generic, offset, pre, res, post) <==> executes(
            context,
            plain,
            offset,
            pre,
            res,
            post,
        ),
{
    assert(context.begun(pre.stack, generic, offset) == context.begun(pre.stack, plain, offset));
    if executes(context, generic, offset, pre, res, post) {
        lemma_executes_as_begun(context, generic, context, plain, offset, pre, res, post);
    }
    if executes(context, plain, offset, pre, res, post) {
        lemma_executes_as_begun(context, plain, context, generic, offset, pre, res, post);
    }
}

/// Instructions with the same costs and the same first half are executed alike.
proof fn lemma_executes_as_begun<S: AbstractState, M: Meter>(
    context1: Context,
    bytecode1: Bytecode,
    context2: Context,
    bytecode2: Bytecode,
    offset: CodeOffset,
    pre: Configuration<S, M>,
    res: PartialVMResult<()>,
    post: Configuration<S, M>,
)
    requires
        context1.costs == context2.costs,
        context1.begun(pre.stack, bytecode1, offset) == context2.begun(
            pre.stack,
            bytecode2,
            offset,
        ),
        executes(context1, bytecode1, offset, pre, res, post),
    ensures
        executes(context2, bytecode2, offset, pre, res, post),
{
    let (r, meter) = lemma_charged(context1, bytecode1, offset, pre, res, post);
    if r is Ok {
        assert(steps(context2, bytecode2, offset, Configuration { meter, ..pre }, res, post));
    }
    assert(charges(context2.costs, pre.state, pre.meter, r, meter));
}

/// Two contexts that agree but for the order and the repeats in which function definitions list
/// the structs that they acquire.
pub open spec fn alike_but_for_listing(context1: Context, context2: Context) -> bool {
    let view1 = context1.resolver;
    let view2 = context2.resolver;
    let defs1 = view1.definitions->0;
    let defs2 = view2.definitions->0;
    &&& context1.function_view == context2.function_view
    &&& context1.name_def_map == context2.name_def_map
    &&& context1.costs == context2.costs
    &&& view1.signatures@ == view2.signatures@
    &&& view1.function_handles@ == view2.function_handles@
    &&& view1.function_instantiations@ == view2.function_instantiations@
    &&& view1.is_script() <==> view2.is_script()
    &&& !view1.is_script() ==> {
        &&& defs1.struct_defs@ == defs2.struct_defs@
        &&& defs1.struct_instantiations@ == defs2.struct_instantiations@
        &&& defs1.field_instantiations@ == defs2.field_instantiations@
        &&& defs1.function_defs@.len() == defs2.function_defs@.len()
        &&& forall|i: int|
            0 <= i < defs1.function_defs@.len() ==> {
                &&& (#[trigger] defs1.function_defs@[i]).function
                    == defs2.function_defs@[i].function
                &&& defs1.function_defs@[i].acquires_global_resources@.to_set()
                    == defs2.function_defs@[i].acquires_global_resources@.to_set()
            }
    }
}

/// Only the set of the structs that a callee acquires matters, not the order in which its
/// definition lists them nor how often: the same results, stacks, borrow states and meters are
/// possible.
pub proof fn law_listing_of_acquired_resources<S: AbstractState, M: Meter>(
    context1: Context,
    context2: Context,
    bytecode: Bytecode,
    offset: CodeOffset,
    pre: Configuration<S, M>,
    res: PartialVMResult<()>,
    post: Configuration<S, M>,
)
    requires
        alike_but_for_listing(context1, context2),
        forall|r: PartialVMResult<()>, m: M| #[trigger]
            charges(context1.costs, pre.state, pre.meter, r, m) && r is Ok
                ==> context1.executable(pre.stack, bytecode),
    ensures
        executes(context1, bytecode, offset, pre, res, post) <==> executes(
            context2,
            bytecode,
            offset,
            pre,
            res,
            post,
        ),
{
    if context1.executable(pre.stack, bytecode) {
        lemma_begun_alike(context1, context2, bytecode, offset, pre.stack);
        if executes(context1, bytecode, offset, pre, res, post) {
            lemma_executes_as_begun(context1, bytecode, context2, bytecode, offset, pre, res, post);
        }
        if executes(context2, bytecode, offset, pre, res, post) {
            lemma_executes_as_begun(context2, bytecode, context1, bytecode, offset, pre, res, post);
        }
    }
}

proof fn lemma_begun_alike(
    context1: Context,
    context2: Context,
    bytecode: Bytecode,
    offset: CodeOffset,
    stack: Seq<AbstractValue>,
)
    requires
        alike_but_for_listing(context1, context2),
        context1.executable(stack, bytecode),
    ensures
        context1.begun(stack, bytecode, offset) == context2.begun(stack, bytecode, offset),
{
    if bytecode is Call || bytecode is CallGeneric {
        let handle = context1.callee(bytecode);
        assert(handle == context2.callee(bytecode));
        if !context1.resolver.is_script() && context1.looks_up_definition(handle) {
            let idx = context1.name_def_map[handle.name];
            assert(context1.resolver.definitions->0.function_defs@[idx as int].function
                == context2.resolver.definitions->0.function_defs@[idx as int].function);
        }
        assert(!context1.refused_last(bytecode) ==> context1.acquired_resources(handle)
            == context2.acquired_resources(handle));
    }
}

/// A struct that is unpacked and packed again, or the other way round, leaves the stack as it was.
pub proof fn law_pack_and_unpack(
    context: Context,
    stack: Seq<AbstractValue>,
    offset: CodeOffset,
    idx: u16,
)
    requires
        stack.len() <= u64::MAX,
    ensures
        ({
            let unpacked = context.begun(stack, Bytecode::Unpack(idx), offset);
            unpacked.1 is Ok ==> context.begun(unpacked.0, Bytecode::Pack(idx), offset) == (
                stack,
                Ok::<ActionView, PartialVMError>(ActionView::Done),
            )
        }),
        ({
            let packed = context.begun(stack, Bytecode::Pack(idx), offset);
            packed.1 is Ok ==> context.begun(packed.0, Bytecode::Unpack(idx), offset) == (
                stack,
                Ok::<ActionView, PartialVMError>(ActionView::Done),
            )
        }),
{
    let n = context.field_count(Bytecode::Pack(idx));
    assert(n == context.field_count(Bytecode::Unpack(idx)));
    lemma_values_replaced(stack, 1, n);
    lemma_values_replaced(stack, n, 1);
    assert(Operand::Value.times(1) == seq![Operand::Value]);
}

/// A vector that is unpacked and packed again, or the other way round, leaves the stack as it was.
pub proof fn law_vec_pack_and_unpack(
    context: Context,
    stack: Seq<AbstractValue>,
    offset: CodeOffset,
    element: u16,
    n: u64,
)
    requires
        stack.len() <= u64::MAX,
    ensures
        ({
            let unpacked = context.begun(stack, Bytecode::VecUnpack(element, n), offset);
            unpacked.1 is Ok ==> context.begun(
                unpacked.0,
                Bytecode::VecPack(element, n),
                offset,
            ) == (stack, Ok::<ActionView, PartialVMError>(ActionView::Done))
        }),
        ({
            let packed = context.begun(stack, Bytecode::VecPack(element, n), offset);
            packed.1 is Ok ==> context.begun(
                packed.0,
                Bytecode::VecUnpack(element, n),
                offset,
            ) == (stack, Ok::<ActionView, PartialVMError>(ActionView::Done))
        }),
{
    lemma_values_replaced(stack, 1, n as nat);
    lemma_values_replaced(stack, n as nat, 1);
    assert(Operand::Value.times(1) == seq![Operand::Value]);
}

/// Values that are no references, replaced by others and back, are as they were.
proof fn lemma_values_replaced(stack: Seq<AbstractValue>, n: nat, k: nat)
    ensures
        ({
            let after = under(stack, n) + repeated(AbstractValue::NonReference, k);
            operands_fit(stack, Operand::Value.times(n)) ==> {
                &&& operands_fit(after, Operand::Value.times(k))
                &&& under(after, k) == under(stack, n)
                &&& under(after, k) + repeated(AbstractValue::NonReference, n) == stack
            }
        }),
{
    let after = under(stack, n) + repeated(AbstractValue::NonReference, k);
    let demands = Operand::Value.times(n);
    if operands_fit(stack, demands) {
        assert(under(after, k) == under(stack, n));
        let back = under(after, k) + repeated(AbstractValue::NonReference, n);
        assert forall|i: int| 0 <= i < stack.len() implies back[i] == stack[i] by {
            if i >= stack.len() - n {
                assert(demands[stack.len() - 1 - i].admits(stack[i]));
            }
        }
        assert(back == stack);
    }
}

} // verus!
