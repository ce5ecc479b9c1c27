//! What each instruction does, in terms of the values on the stack, the tables of the module and
//! the operations of the borrow state.

use std::collections::BTreeSet;

use vstd::prelude::*;

use crate::abstract_stack::{repeated, top_equal};
use crate::execution::{executes, steps, Configuration};
use crate::file_format::{Bytecode, CodeOffset, StructDefinitionIndex, StructFieldInformation};
use crate::state::{AbstractState, Meter, Scope};
use crate::status::{PartialVMError, PartialVMResult, StatusCode};
use crate::transfer::{
    lemma_one_operand, lemma_stops_at, lemma_three_operands, lemma_two_operands, listed,
    operands_fit, popped, returned, single, Context, Operand,
};
use crate::value::{AbstractValue, ValueKind};

verus! {

/// The result is the error for a stack that is not as earlier passes left it, and says no more.
pub open spec fn is_violation(res: PartialVMResult<()>) -> bool {
    &&& res is Err
    &&& res->Err_0.major_status == StatusCode::UnknownInvariantViolationError
    &&& res->Err_0.sub_status is None
    &&& res->Err_0.message is None
}

/// The result is the error for a definition that is looked up in a script, and says no more.
pub open spec fn is_refused_in_script(res: PartialVMResult<()>) -> bool {
    &&& res is Err
    &&& res->Err_0.major_status == StatusCode::InvalidOperationInScript
    &&& res->Err_0.sub_status is None
    &&& res->Err_0.message is None
}

/// Nothing but the stack has changed: its top `k` values are gone.
pub open spec fn only_pops<S, M>(
    k: int,
    pre: Configuration<S, M>,
    post: Configuration<S, M>,
) -> bool {
    &&& post.stack == pre.stack.take(pre.stack.len() - k)
    &&& post.state == pre.state
    &&& post.meter == pre.meter
}

/// A value is put on top of `rest`, which fails just if a 64-bit number cannot count the values.
pub open spec fn puts(
    rest: Seq<AbstractValue>,
    v: AbstractValue,
    res: PartialVMResult<()>,
    stack: Seq<AbstractValue>,
) -> bool {
    if rest.len() < 0xffff_ffff_ffff_ffff {
        res is Ok && stack == rest.push(v)
    } else {
        is_violation(res) && stack == rest
    }
}

/// The reply of the borrow state is passed on, and the stack is `rest`.
pub open spec fn passes_on(
    rest: Seq<AbstractValue>,
    reply: PartialVMResult<()>,
    res: PartialVMResult<()>,
    stack: Seq<AbstractValue>,
) -> bool {
    &&& stack == rest
    &&& match reply {
        Ok(()) => res is Ok,
        Err(e) => res == Err::<(), PartialVMError>(e),
    }
}

/// The value that the borrow state replies is put on top of `rest`, or its error is passed on.
pub open spec fn puts_reply(
    rest: Seq<AbstractValue>,
    reply: PartialVMResult<AbstractValue>,
    res: PartialVMResult<()>,
    stack: Seq<AbstractValue>,
) -> bool {
    match reply {
        Ok(v) => puts(rest, v, res, stack),
        Err(e) => res == Err::<(), PartialVMError>(e) && stack == rest,
    }
}

/// The values that the borrow state replies are put on top of `rest` one by one, as many as a
/// 64-bit number can count, or its error is passed on.
pub open spec fn puts_replies(
    rest: Seq<AbstractValue>,
    reply: PartialVMResult<Vec<AbstractValue>>,
    res: PartialVMResult<()>,
    stack: Seq<AbstractValue>,
) -> bool {
    match reply {
        Ok(values) => {
            &&& rest.is_prefix_of(stack)
            &&& forall|i: int|
                rest.len() <= i < stack.len() ==> #[trigger] stack[i] == values@[i - rest.len()]
            &&& if rest.len() + values@.len() <= 0xffff_ffff_ffff_ffff {
                res is Ok && stack.len() == rest.len() + values@.len()
            } else {
                is_violation(res) && stack.len() == 0xffff_ffff_ffff_ffff
            }
        },
        Err(e) => res == Err::<(), PartialVMError>(e) && stack == rest,
    }
}

/// `n` values that are no references are put on top of `rest`, all or none.
pub open spec fn puts_values(
    rest: Seq<AbstractValue>,
    n: int,
    res: PartialVMResult<()>,
    stack: Seq<AbstractValue>,
) -> bool {
    if rest.len() + n <= 0xffff_ffff_ffff_ffff {
        &&& res is Ok
        &&& rest.is_prefix_of(stack)
        &&& stack.len() == rest.len() + n
        &&& forall|i: int| rest.len() <= i < stack.len() ==> stack[i] is NonReference
    } else {
        is_violation(res) && stack == rest
    }
}

/// Whatever ends an instruction, the stack is what was left of it with what was put on top, and it
/// fails just if the borrow state does or if a 64-bit number cannot count the values.
pub proof fn law_ends_of_instructions<S, M>(
    rest: Seq<AbstractValue>,
    v: AbstractValue,
    n: int,
    done: PartialVMResult<()>,
    one: PartialVMResult<AbstractValue>,
    many: PartialVMResult<Vec<AbstractValue>>,
    res: PartialVMResult<()>,
    pre: Configuration<S, M>,
    post: Configuration<S, M>,
)
    requires
        rest.len() <= 0xffff_ffff_ffff_ffff,
        0 <= n,
    ensures
        is_violation(res) ==> res == Err::<(), PartialVMError>(
            PartialVMError {
                major_status: StatusCode::UnknownInvariantViolationError,
                sub_status: None,
                message: None,
            },
        ),
        is_refused_in_script(res) ==> res == Err::<(), PartialVMError>(
            PartialVMError {
                major_status: StatusCode::InvalidOperationInScript,
                sub_status: None,
                message: None,
            },
        ),
        0 <= n <= pre.stack.len() && only_pops(n, pre, post) ==> {
            &&& post.stack.len() + n == pre.stack.len()
            &&& post.stack.is_prefix_of(pre.stack)
            &&& post.state == pre.state
            &&& post.meter == pre.meter
        },
        passes_on(rest, done, res, post.stack) ==> {
            &&& post.stack == rest
            &&& res is Ok <==> done is Ok
            &&& done is Err ==> res->Err_0 == done->Err_0
        },
        puts(rest, v, res, post.stack) ==> {
            &&& res is Ok <==> rest.len() != 0xffff_ffff_ffff_ffff
            &&& res is Ok ==> post.stack.len() > 0 && post.stack.last() == v
                && post.stack.drop_last() == rest
            &&& res is Err ==> post.stack == rest && res->Err_0.major_status
                == StatusCode::UnknownInvariantViolationError && res->Err_0.sub_status is None
                && res->Err_0.message is None
        },
        puts_reply(rest, one, res, post.stack) ==> {
            &&& res is Ok <==> one is Ok && rest.len() != 0xffff_ffff_ffff_ffff
            &&& res is Ok ==> post.stack.len() > 0 && post.stack.last() == one->Ok_0
                && post.stack.drop_last() == rest
            &&& res is Err ==> post.stack == rest
            &&& one is Err ==> res->Err_0 == one->Err_0
            &&& res is Err && one is Ok ==> res->Err_0.major_status
                == StatusCode::UnknownInvariantViolationError && res->Err_0.sub_status is None
                && res->Err_0.message is None
        },
        puts_replies(rest, many, res, post.stack) ==> {
            &&& res is Ok <==> many is Ok && rest.len() + many->Ok_0@.len()
                <= 0xffff_ffff_ffff_ffff
            &&& res is Ok ==> post.stack == rest + many->Ok_0@
            &&& many is Err ==> res->Err_0 == many->Err_0 && post.stack == rest
            &&& res is Err && many is Ok ==> {
                &&& res->Err_0.major_status == StatusCode::UnknownInvariantViolationError
                &&& res->Err_0.sub_status is None
                &&& res->Err_0.message is None
                &&& post.stack.len() == 0xffff_ffff_ffff_ffff
                &&& post.stack.is_prefix_of(rest + many->Ok_0@)
            }
        },
        puts_values(rest, n, res, post.stack) ==> {
            &&& res is Ok <==> rest.len() + n <= 0xffff_ffff_ffff_ffff
            &&& res is Ok ==> post.stack == rest + Seq::new(
                n as nat,
                |i: int| AbstractValue::NonReference,
            )
            &&& res is Err ==> post.stack == rest && res->Err_0.major_status
                == StatusCode::UnknownInvariantViolationError && res->Err_0.sub_status is None
                && res->Err_0.message is None
        },
{
    if res is Ok && puts_replies(rest, many, res, post.stack) {
        assert(post.stack == rest + many->Ok_0@);
    }
    if res is Ok && puts_values(rest, n, res, post.stack) {
        let values = Seq::new(n as nat, |i: int| AbstractValue::NonReference);
        assert(post.stack == rest + values);
    }
}

/// What a reply with one value leads to.
proof fn lemma_reply(rest: Seq<AbstractValue>)
    requires
        rest.len() <= 0xffff_ffff_ffff_ffff,
    ensures
        forall|r: PartialVMResult<AbstractValue>| #[trigger]
            puts_reply(rest, r, returned(rest, single(r)).1, returned(rest, single(r)).0),
{
    assert forall|r: PartialVMResult<AbstractValue>| #[trigger]
        puts_reply(rest, r, returned(rest, single(r)).1, returned(rest, single(r)).0) by {
        if let Ok(v) = r {
            assert(rest + seq![v] == rest.push(v));
            assert(rest + seq![v].take(0) == rest);
        }
    }
}

/// What a reply with a list of values leads to.
proof fn lemma_replies(rest: Seq<AbstractValue>)
    requires
        rest.len() <= 0xffff_ffff_ffff_ffff,
    ensures
        forall|r: PartialVMResult<Vec<AbstractValue>>| #[trigger]
            puts_replies(rest, r, returned(rest, listed(r)).1, returned(rest, listed(r)).0),
{
}

/// An instruction first pays its base cost, then for each local, then for each entry of the sets
/// that the borrow state keeps. The first refusal ends it, and nothing but the meter has changed;
/// once all is paid the instruction is carried out.
pub proof fn law_charges_come_first<S: AbstractState, M: Meter>(
    context: Context,
    bytecode: Bytecode,
    offset: CodeOffset,
    pre: Configuration<S, M>,
    res: PartialVMResult<()>,
    post: Configuration<S, M>,
)
    requires
        executes(context, bytecode, offset, pre, res, post),
    ensures
        exists|r1: PartialVMResult<()>, m1: M|
            {
                &&& #[trigger] call_ensures(
                    M::add,
                    (pre.meter, Scope::Function, context.costs.base),
                    (m1, r1),
                )
                &&& r1 is Err ==> {
                    &&& res == r1
                    &&& post.stack == pre.stack
                    &&& post.state == pre.state
                    &&& post.meter == m1
                }
                &&& r1 is Ok ==> exists|count: usize, r2: PartialVMResult<()>, m2: M|
                    {
                        &&& call_ensures(S::local_count, (&pre.state,), count)
                        &&& #[trigger] call_ensures(
                            M::add_items,
                            (m1, Scope::Function, context.costs.per_local, count),
                            (m2, r2),
                        )
                        &&& r2 is Err ==> {
                            &&& res == r2
                            &&& post.stack == pre.stack
                            &&& post.state == pre.state
                            &&& post.meter == m2
                        }
                        &&& r2 is Ok ==> exists|size: usize, r3: PartialVMResult<()>, m3: M|
                            {
                                &&& call_ensures(S::total_reference_size, (&pre.state,), size)
                                &&& #[trigger] call_ensures(
                                    M::add_items,
                                    (m2, Scope::Function, context.costs.per_collection_item, size),
                                    (m3, r3),
                                )
                                &&& r3 is Err ==> {
                                    &&& res == r3
                                    &&& post.stack == pre.stack
                                    &&& post.state == pre.state
                                    &&& post.meter == m3
                                }
                                &&& r3 is Ok ==> steps(
                                    context,
                                    bytecode,
                                    offset,
                                    Configuration { meter: m3, ..pre },
                                    res,
                                    post,
                                )
                            }
                    }
            },
{
}

/// A local is copied, moved, or borrowed, mutably or not as the instruction says, whatever the
/// local, and what the borrow state replies is pushed.
pub proof fn law_reading_a_local<S: AbstractState, M: Meter>(
    context: Context,
    offset: CodeOffset,
    local: u8,
    pre: Configuration<S, M>,
    res: PartialVMResult<()>,
    post: Configuration<S, M>,
)
    requires
        pre.stack.len() <= 0xffff_ffff_ffff_ffff,
    ensures
        steps(context, Bytecode::CopyLoc(local), offset, pre, res, post) ==> {
            &&& post.meter == pre.meter
            &&& exists|r: PartialVMResult<AbstractValue>|
                #[trigger] call_ensures(
                    S::copy_loc,
                    (pre.state, offset, local),
                    (post.state, r),
                ) && puts_reply(pre.stack, r, res, post.stack)
        },
        steps(context, Bytecode::MoveLoc(local), offset, pre, res, post) ==> {
            &&& post.meter == pre.meter
            &&& exists|r: PartialVMResult<AbstractValue>|
                #[trigger] call_ensures(
                    S::move_loc,
                    (pre.state, offset, local),
                    (post.state, r),
                ) && puts_reply(pre.stack, r, res, post.stack)
        },
        steps(context, Bytecode::MutBorrowLoc(local), offset, pre, res, post) ==> {
            &&& post.meter == pre.meter
            &&& exists|r: PartialVMResult<AbstractValue>|
                #[trigger] call_ensures(
                    S::borrow_loc,
                    (pre.state, offset, true, local),
                    (post.state, r),
                ) && puts_reply(pre.stack, r, res, post.stack)
        },
        steps(context, Bytecode::ImmBorrowLoc(local), offset, pre, res, post) ==> {
            &&& post.meter == pre.meter
            &&& exists|r: PartialVMResult<AbstractValue>|
                #[trigger] call_ensures(
                    S::borrow_loc,
                    (pre.state, offset, false, local),
                    (post.state, r),
                ) && puts_reply(pre.stack, r, res, post.stack)
        },
{
    let s = pre.stack;
    assert(s.take(s.len() as int) == s);
    lemma_reply(s);
}

/// A value is popped, of any kind, and stored in the local.
pub proof fn law_storing_a_local<S: AbstractState, M: Meter>(
    context: Context,
    local: u8,
    offset: CodeOffset,
    pre: Configuration<S, M>,
    res: PartialVMResult<()>,
    post: Configuration<S, M>,
)
    requires
        pre.stack.len() <= 0xffff_ffff_ffff_ffff,
    ensures
        steps(context, Bytecode::StLoc(local), offset, pre, res, post) && pre.stack.len() == 0 ==> {
            is_violation(res) && only_pops(0, pre, post)
        },
        steps(context, Bytecode::StLoc(local), offset, pre, res, post) && pre.stack.len() > 0 ==> {
            &&& post.meter == pre.meter
            &&& exists|r: PartialVMResult<()>|
                #[trigger] call_ensures(
                    S::st_loc,
                    (pre.state, offset, local, pre.stack.last()),
                    (post.state, r),
                ) && passes_on(pre.stack.drop_last(), r, res, post.stack)
        },
{
    let s = pre.stack;
    lemma_one_operand(s, Operand::Any);
    if s.len() > 0 {
        assert(s.take(s.len() - 1) == s.drop_last());
        lemma_reply(s.take(s.len() - 1));
    }
    assert(s.take(s.len() as int) == s);
}

/// A value that is popped is released, of whatever kind it is.
pub proof fn law_popping_a_value<S: AbstractState, M: Meter>(
    context: Context,
    offset: CodeOffset,
    pre: Configuration<S, M>,
    res: PartialVMResult<()>,
    post: Configuration<S, M>,
)
    requires
        pre.stack.len() <= 0xffff_ffff_ffff_ffff,
    ensures
        steps(context, Bytecode::Pop, offset, pre, res, post) && pre.stack.len() == 0 ==> {
            is_violation(res) && only_pops(0, pre, post)
        },
        steps(context, Bytecode::Pop, offset, pre, res, post) && pre.stack.len() > 0 ==> {
            &&& res is Ok
            &&& call_ensures(S::release_value, (pre.state, pre.stack.last()), post.state)
            &&& post.stack == pre.stack.drop_last()
            &&& post.meter == pre.meter
        },
{
    let s = pre.stack;
    lemma_one_operand(s, Operand::Any);
    if s.len() > 0 {
        assert(s.take(s.len() - 1) == s.drop_last());
        lemma_reply(s.take(s.len() - 1));
    }
    assert(s.take(s.len() as int) == s);
}

/// A reference is popped, and what freezing it or reading through it gives is pushed.
pub proof fn law_freezing_and_reading<S: AbstractState, M: Meter>(
    context: Context,
    offset: CodeOffset,
    pre: Configuration<S, M>,
    res: PartialVMResult<()>,
    post: Configuration<S, M>,
)
    requires
        pre.stack.len() <= 0xffff_ffff_ffff_ffff,
    ensures
        steps(context, Bytecode::FreezeRef, offset, pre, res, post) && pre.stack.len() == 0 ==> {
            is_violation(res) && only_pops(0, pre, post)
        },
        steps(context, Bytecode::FreezeRef, offset, pre, res, post) && pre.stack.len() > 0
            && pre.stack.last() is NonReference ==> {
            is_violation(res) && only_pops(1, pre, post)
        },
        steps(context, Bytecode::FreezeRef, offset, pre, res, post) && pre.stack.len() > 0
            && pre.stack.last() is Reference ==> {
            &&& post.meter == pre.meter
            &&& exists|r: PartialVMResult<AbstractValue>|
                #[trigger] call_ensures(
                    S::freeze_ref,
                    (pre.state, offset, pre.stack.last()->Reference_0),
                    (post.state, r),
                ) && puts_reply(pre.stack.drop_last(), r, res, post.stack)
        },
        steps(context, Bytecode::ReadRef, offset, pre, res, post) && pre.stack.len() == 0 ==> {
            is_violation(res) && only_pops(0, pre, post)
        },
        steps(context, Bytecode::ReadRef, offset, pre, res, post) && pre.stack.len() > 0
            && pre.stack.last() is NonReference ==> {
            is_violation(res) && only_pops(1, pre, post)
        },
        steps(context, Bytecode::ReadRef, offset, pre, res, post) && pre.stack.len() > 0
            && pre.stack.last() is Reference ==> {
            &&& post.meter == pre.meter
            &&& exists|r: PartialVMResult<AbstractValue>|
                #[trigger] call_ensures(
                    S::read_ref,
                    (pre.state, offset, pre.stack.last()->Reference_0),
                    (post.state, r),
                ) && puts_reply(pre.stack.drop_last(), r, res, post.stack)
        },
{
    let s = pre.stack;
    lemma_one_operand(s, Operand::Reference);
    if s.len() > 0 {
        assert(s.take(s.len() - 1) == s.drop_last());
        lemma_reply(s.take(s.len() - 1));
    }
    assert(s.take(s.len() as int) == s);
}

/// A reference is popped, and under it the value that is written through it, which must not be a
/// reference itself.
pub proof fn law_writing_through_a_reference<S: AbstractState, M: Meter>(
    context: Context,
    offset: CodeOffset,
    pre: Configuration<S, M>,
    res: PartialVMResult<()>,
    post: Configuration<S, M>,
)
    requires
        pre.stack.len() <= 0xffff_ffff_ffff_ffff,
    ensures
        steps(context, Bytecode::WriteRef, offset, pre, res, post) && pre.stack.len() == 0 ==> {
            is_violation(res) && only_pops(0, pre, post)
        },
        steps(context, Bytecode::WriteRef, offset, pre, res, post) && pre.stack.len() == 1 ==> {
            is_violation(res) && only_pops(1, pre, post)
        },
        steps(context, Bytecode::WriteRef, offset, pre, res, post) && pre.stack.len() > 0
            && pre.stack.last() is NonReference ==> {
            is_violation(res) && only_pops(1, pre, post)
        },
        steps(context, Bytecode::WriteRef, offset, pre, res, post) && pre.stack.len() >= 2
            && pre.stack.last() is Reference && pre.stack[pre.stack.len() - 2] is Reference ==> {
            is_violation(res) && only_pops(2, pre, post)
        },
        steps(context, Bytecode::WriteRef, offset, pre, res, post) && pre.stack.len() >= 2
            && pre.stack.last() is Reference && pre.stack[pre.stack.len() - 2] is NonReference ==> {
            &&& post.meter == pre.meter
            &&& exists|r: PartialVMResult<()>|
                #[trigger] call_ensures(
                    S::write_ref,
                    (pre.state, offset, pre.stack.last()->Reference_0),
                    (post.state, r),
                ) && passes_on(pre.stack.take(pre.stack.len() - 2), r, res, post.stack)
        },
{
    let s = pre.stack;
    lemma_two_operands(s, Operand::Reference, Operand::Value);
    if s.len() >= 2 {
        lemma_reply(s.take(s.len() - 2));
    }
    assert(s.take(s.len() as int) == s);
}

/// Two values of any kind are compared, the top one first, and the outcome is pushed.
pub proof fn law_comparing<S: AbstractState, M: Meter>(
    context: Context,
    bytecode: Bytecode,
    offset: CodeOffset,
    pre: Configuration<S, M>,
    res: PartialVMResult<()>,
    post: Configuration<S, M>,
)
    requires
        pre.stack.len() <= 0xffff_ffff_ffff_ffff,
        bytecode is Eq || bytecode is Neq,
    ensures
        steps(context, bytecode, offset, pre, res, post) && pre.stack.len() == 0 ==> {
            is_violation(res) && only_pops(0, pre, post)
        },
        steps(context, bytecode, offset, pre, res, post) && pre.stack.len() == 1 ==> {
            is_violation(res) && only_pops(1, pre, post)
        },
        steps(context, bytecode, offset, pre, res, post) && pre.stack.len() >= 2 ==> {
            &&& post.meter == pre.meter
            &&& exists|r: PartialVMResult<AbstractValue>|
                #[trigger] call_ensures(
                    S::comparison,
                    (pre.state, offset, pre.stack.last(), pre.stack[pre.stack.len() - 2]),
                    (post.state, r),
                ) && puts_reply(pre.stack.take(pre.stack.len() - 2), r, res, post.stack)
        },
{
    let s = pre.stack;
    lemma_two_operands(s, Operand::Any, Operand::Any);
    if s.len() >= 2 {
        lemma_reply(s.take(s.len() - 2));
    }
    assert(s.take(s.len() as int) == s);
}

/// A reference is popped, and the borrow of a field behind it, mutable or not as the instruction
/// says, is pushed.
pub proof fn law_borrowing_a_field<S: AbstractState, M: Meter>(
    context: Context,
    field: u16,
    offset: CodeOffset,
    pre: Configuration<S, M>,
    res: PartialVMResult<()>,
    post: Configuration<S, M>,
)
    requires
        pre.stack.len() <= 0xffff_ffff_ffff_ffff,
    ensures
        steps(context, Bytecode::MutBorrowField(field), offset, pre, res, post)
            && pre.stack.len() == 0 ==> {
            is_violation(res) && only_pops(0, pre, post)
        },
        steps(context, Bytecode::MutBorrowField(field), offset, pre, res, post)
            && pre.stack.len() > 0 && pre.stack.last() is NonReference ==> {
            is_violation(res) && only_pops(1, pre, post)
        },
        steps(context, Bytecode::MutBorrowField(field), offset, pre, res, post)
            && pre.stack.len() > 0 && pre.stack.last() is Reference ==> {
            &&& post.meter == pre.meter
            &&& exists|r: PartialVMResult<AbstractValue>|
                #[trigger] call_ensures(
                    S::borrow_field,
                    (pre.state, offset, true, pre.stack.last()->Reference_0, field),
                    (post.state, r),
                ) && puts_reply(pre.stack.drop_last(), r, res, post.stack)
        },
        steps(context, Bytecode::ImmBorrowField(field), offset, pre, res, post)
            && pre.stack.len() == 0 ==> {
            is_violation(res) && only_pops(0, pre, post)
        },
        steps(context, Bytecode::ImmBorrowField(field), offset, pre, res, post)
            && pre.stack.len() > 0 && pre.stack.last() is NonReference ==> {
            is_violation(res) && only_pops(1, pre, post)
        },
        steps(context, Bytecode::ImmBorrowField(field), offset, pre, res, post)
            && pre.stack.len() > 0 && pre.stack.last() is Reference ==> {
            &&& post.meter == pre.meter
            &&& exists|r: PartialVMResult<AbstractValue>|
                #[trigger] call_ensures(
                    S::borrow_field,
                    (pre.state, offset, false, pre.stack.last()->Reference_0, field),
                    (post.state, r),
                ) && puts_reply(pre.stack.drop_last(), r, res, post.stack)
        },
{
    let s = pre.stack;
    lemma_one_operand(s, Operand::Reference);
    if s.len() > 0 {
        assert(s.take(s.len() - 1) == s.drop_last());
        lemma_reply(s.take(s.len() - 1));
    }
    assert(s.take(s.len() as int) == s);
}

/// The field of an instantiation is borrowed as a plain one is. A script has no instantiations, so
/// there it is refused before anything is popped.
pub proof fn law_borrowing_a_generic_field<S: AbstractState, M: Meter>(
    context: Context,
    idx: u16,
    offset: CodeOffset,
    pre: Configuration<S, M>,
    res: PartialVMResult<()>,
    post: Configuration<S, M>,
)
    requires
        pre.stack.len() <= 0xffff_ffff_ffff_ffff,
    ensures
        steps(context, Bytecode::MutBorrowFieldGeneric(idx), offset, pre, res, post)
            && context.resolver.definitions is None ==> {
            is_refused_in_script(res) && only_pops(0, pre, post)
        },
        steps(context, Bytecode::ImmBorrowFieldGeneric(idx), offset, pre, res, post)
            && context.resolver.definitions is None ==> {
            is_refused_in_script(res) && only_pops(0, pre, post)
        },
        steps(context, Bytecode::MutBorrowFieldGeneric(idx), offset, pre, res, post)
            && pre.stack.len() == 0 && context.resolver.definitions is Some ==> {
            is_violation(res) && only_pops(0, pre, post)
        },
        steps(context, Bytecode::MutBorrowFieldGeneric(idx), offset, pre, res, post)
            && pre.stack.len() > 0 && pre.stack.last() is NonReference
            && context.resolver.definitions is Some ==> {
            is_violation(res) && only_pops(1, pre, post)
        },
        steps(context, Bytecode::MutBorrowFieldGeneric(idx), offset, pre, res, post)
            && pre.stack.len() > 0 && pre.stack.last() is Reference
            && context.resolver.definitions is Some ==> {
            &&& post.meter == pre.meter
            &&& exists|r: PartialVMResult<AbstractValue>|
                #[trigger] call_ensures(
                    S::borrow_field,
                    (
                        pre.state,
                        offset,
                        true,
                        pre.stack.last()->Reference_0,
                        context.resolver.definitions->0.field_instantiations@[idx as int].handle,
                    ),
                    (post.state, r),
                ) && puts_reply(pre.stack.drop_last(), r, res, post.stack)
        },
        steps(context, Bytecode::ImmBorrowFieldGeneric(idx), offset, pre, res, post)
            && pre.stack.len() == 0 && context.resolver.definitions is Some ==> {
            is_violation(res) && only_pops(0, pre, post)
        },
        steps(context, Bytecode::ImmBorrowFieldGeneric(idx), offset, pre, res, post)
            && pre.stack.len() > 0 && pre.stack.last() is NonReference
            && context.resolver.definitions is Some ==> {
            is_violation(res) && only_pops(1, pre, post)
        },
        steps(context, Bytecode::ImmBorrowFieldGeneric(idx), offset, pre, res, post)
            && pre.stack.len() > 0 && pre.stack.last() is Reference
            && context.resolver.definitions is Some ==> {
            &&& post.meter == pre.meter
            &&& exists|r: PartialVMResult<AbstractValue>|
                #[trigger] call_ensures(
                    S::borrow_field,
                    (
                        pre.state,
                        offset,
                        false,
                        pre.stack.last()->Reference_0,
                        context.resolver.definitions->0.field_instantiations@[idx as int].handle,
                    ),
                    (post.state, r),
                ) && puts_reply(pre.stack.drop_last(), r, res, post.stack)
        },
{
    let s = pre.stack;
    lemma_one_operand(s, Operand::Reference);
    if s.len() > 0 {
        assert(s.take(s.len() - 1) == s.drop_last());
        lemma_reply(s.take(s.len() - 1));
    }
    assert(s.take(s.len() as int) == s);
}

/// An address is popped, which must not be a reference, and the borrow of the global, mutable or
/// not as the instruction says, or the global itself is pushed.
pub proof fn law_reaching_a_global<S: AbstractState, M: Meter>(
    context: Context,
    resource: u16,
    offset: CodeOffset,
    pre: Configuration<S, M>,
    res: PartialVMResult<()>,
    post: Configuration<S, M>,
)
    requires
        pre.stack.len() <= 0xffff_ffff_ffff_ffff,
    ensures
        steps(context, Bytecode::MutBorrowGlobal(resource), offset, pre, res, post)
            && pre.stack.len() == 0 ==> {
            is_violation(res) && only_pops(0, pre, post)
        },
        steps(context, Bytecode::MutBorrowGlobal(resource), offset, pre, res, post)
            && pre.stack.len() > 0 && pre.stack.last() is Reference ==> {
            is_violation(res) && only_pops(1, pre, post)
        },
        steps(context, Bytecode::MutBorrowGlobal(resource), offset, pre, res, post)
            && pre.stack.len() > 0 && pre.stack.last() is NonReference ==> {
            &&& post.meter == pre.meter
            &&& exists|r: PartialVMResult<AbstractValue>|
                #[trigger] call_ensures(
                    S::borrow_global,
                    (pre.state, offset, true, resource),
                    (post.state, r),
                ) && puts_reply(pre.stack.drop_last(), r, res, post.stack)
        },
        steps(context, Bytecode::ImmBorrowGlobal(resource), offset, pre, res, post)
            && pre.stack.len() == 0 ==> {
            is_violation(res) && only_pops(0, pre, post)
        },
        steps(context, Bytecode::ImmBorrowGlobal(resource), offset, pre, res, post)
            && pre.stack.len() > 0 && pre.stack.last() is Reference ==> {
            is_violation(res) && only_pops(1, pre, post)
        },
        steps(context, Bytecode::ImmBorrowGlobal(resource), offset, pre, res, post)
            && pre.stack.len() > 0 && pre.stack.last() is NonReference ==> {
            &&& post.meter == pre.meter
            &&& exists|r: PartialVMResult<AbstractValue>|
                #[trigger] call_ensures(
                    S::borrow_global,
                    (pre.state, offset, false, resource),
                    (post.state, r),
                ) && puts_reply(pre.stack.drop_last(), r, res, post.stack)
        },
        steps(context, Bytecode::MoveFrom(resource), offset, pre, res, post)
            && pre.stack.len() == 0 ==> {
            is_violation(res) && only_pops(0, pre, post)
        },
        steps(context, Bytecode::MoveFrom(resource), offset, pre, res, post) && pre.stack.len() > 0
            && pre.stack.last() is Reference ==> {
            is_violation(res) && only_pops(1, pre, post)
        },
        steps(context, Bytecode::MoveFrom(resource), offset, pre, res, post) && pre.stack.len() > 0
            && pre.stack.last() is NonReference ==> {
            &&& post.meter == pre.meter
            &&& exists|r: PartialVMResult<AbstractValue>|
                #[trigger] call_ensures(
                    S::move_from,
                    (pre.state, offset, resource),
                    (post.state, r),
                ) && puts_reply(pre.stack.drop_last(), r, res, post.stack)
        },
{
    let s = pre.stack;
    lemma_one_operand(s, Operand::Value);
    if s.len() > 0 {
        assert(s.take(s.len() - 1) == s.drop_last());
        lemma_reply(s.take(s.len() - 1));
    }
    assert(s.take(s.len() as int) == s);
}

/// The global of an instantiation is reached as a plain one is. A script has no instantiations, so
/// there it is refused once the address is popped.
pub proof fn law_reaching_a_generic_global<S: AbstractState, M: Meter>(
    context: Context,
    idx: u16,
    offset: CodeOffset,
    pre: Configuration<S, M>,
    res: PartialVMResult<()>,
    post: Configuration<S, M>,
)
    requires
        pre.stack.len() <= 0xffff_ffff_ffff_ffff,
    ensures
        steps(context, Bytecode::MutBorrowGlobalGeneric(idx), offset, pre, res, post)
            && pre.stack.len() == 0 ==> {
            is_violation(res) && only_pops(0, pre, post)
        },
        steps(context, Bytecode::MutBorrowGlobalGeneric(idx), offset, pre, res, post)
            && pre.stack.len() > 0 && pre.stack.last() is Reference ==> {
            is_violation(res) && only_pops(1, pre, post)
        },
        steps(context, Bytecode::MutBorrowGlobalGeneric(idx), offset, pre, res, post)
            && pre.stack.len() > 0 && pre.stack.last() is NonReference
            && context.resolver.definitions is None ==> {
            is_refused_in_script(res) && only_pops(1, pre, post)
        },
        steps(context, Bytecode::MutBorrowGlobalGeneric(idx), offset, pre, res, post)
            && pre.stack.len() > 0 && pre.stack.last() is NonReference
            && context.resolver.definitions is Some ==> {
            &&& post.meter == pre.meter
            &&& exists|r: PartialVMResult<AbstractValue>|
                #[trigger] call_ensures(
                    S::borrow_global,
                    (
                        pre.state,
                        offset,
                        true,
                        context.resolver.definitions->0.struct_instantiations@[idx as int].def,
                    ),
                    (post.state, r),
                ) && puts_reply(pre.stack.drop_last(), r, res, post.stack)
        },
        steps(context, Bytecode::ImmBorrowGlobalGeneric(idx), offset, pre, res, post)
            && pre.stack.len() == 0 ==> {
            is_violation(res) && only_pops(0, pre, post)
        },
        steps(context, Bytecode::ImmBorrowGlobalGeneric(idx), offset, pre, res, post)
            && pre.stack.len() > 0 && pre.stack.last() is Reference ==> {
            is_violation(res) && only_pops(1, pre, post)
        },
        steps(context, Bytecode::ImmBorrowGlobalGeneric(idx), offset, pre, res, post)
            && pre.stack.len() > 0 && pre.stack.last() is NonReference
            && context.resolver.definitions is None ==> {
            is_refused_in_script(res) && only_pops(1, pre, post)
        },
        steps(context, Bytecode::ImmBorrowGlobalGeneric(idx), offset, pre, res, post)
            && pre.stack.len() > 0 && pre.stack.last() is NonReference
            && context.resolver.definitions is Some ==> {
            &&& post.meter == pre.meter
            &&& exists|r: PartialVMResult<AbstractValue>|
                #[trigger] call_ensures(
                    S::borrow_global,
                    (
                        pre.state,
                        offset,
                        false,
                        context.resolver.definitions->0.struct_instantiations@[idx as int].def,
                    ),
                    (post.state, r),
                ) && puts_reply(pre.stack.drop_last(), r, res, post.stack)
        },
        steps(context, Bytecode::MoveFromGeneric(idx), offset, pre, res, post)
            && pre.stack.len() == 0 ==> {
            is_violation(res) && only_pops(0, pre, post)
        },
        steps(context, Bytecode::MoveFromGeneric(idx), offset, pre, res, post)
            && pre.stack.len() > 0 && pre.stack.last() is Reference ==> {
            is_violation(res) && only_pops(1, pre, post)
        },
        steps(context, Bytecode::MoveFromGeneric(idx), offset, pre, res, post)
            && pre.stack.len() > 0 && pre.stack.last() is NonReference
            && context.resolver.definitions is None ==> {
            is_refused_in_script(res) && only_pops(1, pre, post)
        },
        steps(context, Bytecode::MoveFromGeneric(idx), offset, pre, res, post)
            && pre.stack.len() > 0 && pre.stack.last() is NonReference
            && context.resolver.definitions is Some ==> {
            &&& post.meter == pre.meter
            &&& exists|r: PartialVMResult<AbstractValue>|
                #[trigger] call_ensures(
                    S::move_from,
                    (
                        pre.state,
                        offset,
                        context.resolver.definitions->0.struct_instantiations@[idx as int].def,
                    ),
                    (post.state, r),
                ) && puts_reply(pre.stack.drop_last(), r, res, post.stack)
        },
{
    let s = pre.stack;
    lemma_one_operand(s, Operand::Value);
    if s.len() > 0 {
        assert(s.take(s.len() - 1) == s.drop_last());
        lemma_reply(s.take(s.len() - 1));
    }
    assert(s.take(s.len() as int) == s);
}

/// The resource is popped, which must not be a reference, and the signer under it, which is
/// released.
pub proof fn law_moving_to_a_global<S: AbstractState, M: Meter>(
    context: Context,
    bytecode: Bytecode,
    offset: CodeOffset,
    pre: Configuration<S, M>,
    res: PartialVMResult<()>,
    post: Configuration<S, M>,
)
    requires
        pre.stack.len() <= 0xffff_ffff_ffff_ffff,
        bytecode is MoveTo || bytecode is MoveToGeneric,
    ensures
        steps(context, bytecode, offset, pre, res, post) && pre.stack.len() == 0 ==> {
            is_violation(res) && only_pops(0, pre, post)
        },
        steps(context, bytecode, offset, pre, res, post) && pre.stack.len() == 1 ==> {
            is_violation(res) && only_pops(1, pre, post)
        },
        steps(context, bytecode, offset, pre, res, post) && pre.stack.len() > 0
            && pre.stack.last() is Reference ==> {
            is_violation(res) && only_pops(1, pre, post)
        },
        steps(context, bytecode, offset, pre, res, post) && pre.stack.len() >= 2
            && pre.stack.last() is NonReference ==> {
            &&& res is Ok
            &&& call_ensures(
                S::release_value,
                (pre.state, pre.stack[pre.stack.len() - 2]),
                post.state,
            )
            &&& post.stack == pre.stack.take(pre.stack.len() - 2)
            &&& post.meter == pre.meter
        },
{
    let s = pre.stack;
    lemma_two_operands(s, Operand::Value, Operand::Any);
    if s.len() >= 2 {
        lemma_reply(s.take(s.len() - 2));
    }
    assert(s.take(s.len() as int) == s);
}

/// A jump, a cast, a negation and a test for a global change nothing.
pub proof fn law_idle_instructions<S: AbstractState, M: Meter>(
    context: Context,
    bytecode: Bytecode,
    offset: CodeOffset,
    pre: Configuration<S, M>,
    res: PartialVMResult<()>,
    post: Configuration<S, M>,
)
    requires
        pre.stack.len() <= 0xffff_ffff_ffff_ffff,
        match bytecode {
            Bytecode::Branch(_) | Bytecode::Nop | Bytecode::CastU8 | Bytecode::CastU16
            | Bytecode::CastU32 | Bytecode::CastU64 | Bytecode::CastU128 | Bytecode::CastU256
            | Bytecode::Not | Bytecode::Exists(_) | Bytecode::ExistsGeneric(_) => true,
            _ => false,
        },
    ensures
        steps(context, bytecode, offset, pre, res, post) ==> {
            res is Ok && only_pops(0, pre, post)
        },
{
    let s = pre.stack;
    assert(s.take(s.len() as int) == s);
}

/// A conditional jump pops its condition, which must not be a reference, and does no more.
pub proof fn law_branching<S: AbstractState, M: Meter>(
    context: Context,
    bytecode: Bytecode,
    offset: CodeOffset,
    pre: Configuration<S, M>,
    res: PartialVMResult<()>,
    post: Configuration<S, M>,
)
    requires
        pre.stack.len() <= 0xffff_ffff_ffff_ffff,
        bytecode is BrTrue || bytecode is BrFalse,
    ensures
        steps(context, bytecode, offset, pre, res, post) && pre.stack.len() == 0 ==> {
            is_violation(res) && only_pops(0, pre, post)
        },
        steps(context, bytecode, offset, pre, res, post) && pre.stack.len() > 0
            && pre.stack.last() is Reference ==> {
            is_violation(res) && only_pops(1, pre, post)
        },
        steps(context, bytecode, offset, pre, res, post) && pre.stack.len() > 0
            && pre.stack.last() is NonReference ==> {
            res is Ok && only_pops(1, pre, post)
        },
{
    let s = pre.stack;
    lemma_one_operand(s, Operand::Value);
    if s.len() > 0 {
        assert(s.take(s.len() - 1) == s.drop_last());
        lemma_reply(s.take(s.len() - 1));
    }
    assert(s.take(s.len() as int) == s);
}

/// An abort pops its code, which must not be a reference, and the borrow state gives up all that is
/// borrowed.
pub proof fn law_aborting<S: AbstractState, M: Meter>(
    context: Context,
    offset: CodeOffset,
    pre: Configuration<S, M>,
    res: PartialVMResult<()>,
    post: Configuration<S, M>,
)
    requires
        pre.stack.len() <= 0xffff_ffff_ffff_ffff,
    ensures
        steps(context, Bytecode::Abort, offset, pre, res, post) && pre.stack.len() == 0 ==> {
            is_violation(res) && only_pops(0, pre, post)
        },
        steps(context, Bytecode::Abort, offset, pre, res, post) && pre.stack.len() > 0
            && pre.stack.last() is Reference ==> {
            is_violation(res) && only_pops(1, pre, post)
        },
        steps(context, Bytecode::Abort, offset, pre, res, post) && pre.stack.len() > 0
            && pre.stack.last() is NonReference ==> {
            &&& res is Ok
            &&& call_ensures(S::abort, (pre.state,), post.state)
            &&& post.stack == pre.stack.drop_last()
            &&& post.meter == pre.meter
        },
{
    let s = pre.stack;
    lemma_one_operand(s, Operand::Value);
    if s.len() > 0 {
        assert(s.take(s.len() - 1) == s.drop_last());
        lemma_reply(s.take(s.len() - 1));
    }
    assert(s.take(s.len() as int) == s);
}

/// A load pushes one value that is no reference.
pub proof fn law_loading<S: AbstractState, M: Meter>(
    context: Context,
    bytecode: Bytecode,
    offset: CodeOffset,
    pre: Configuration<S, M>,
    res: PartialVMResult<()>,
    post: Configuration<S, M>,
)
    requires
        pre.stack.len() <= 0xffff_ffff_ffff_ffff,
        match bytecode {
            Bytecode::LdTrue | Bytecode::LdFalse | Bytecode::LdU8(_) | Bytecode::LdU16(_)
            | Bytecode::LdU32(_) | Bytecode::LdU64(_) | Bytecode::LdU128(_) | Bytecode::LdU256(_)
            | Bytecode::LdConst(_) => true,
            _ => false,
        },
    ensures
        steps(context, bytecode, offset, pre, res, post) ==> {
            &&& puts(pre.stack, AbstractValue::NonReference, res, post.stack)
            &&& post.state == pre.state
            &&& post.meter == pre.meter
        },
{
    let s = pre.stack;
    assert(s.take(s.len() as int) == s);
    assert(s + repeated(AbstractValue::NonReference, 1) == s.push(AbstractValue::NonReference));
}

/// An operator pops two values that must not be references and pushes one that is none.
pub proof fn law_operators<S: AbstractState, M: Meter>(
    context: Context,
    bytecode: Bytecode,
    offset: CodeOffset,
    pre: Configuration<S, M>,
    res: PartialVMResult<()>,
    post: Configuration<S, M>,
)
    requires
        pre.stack.len() <= 0xffff_ffff_ffff_ffff,
        match bytecode {
            Bytecode::Add | Bytecode::Sub | Bytecode::Mul | Bytecode::Mod | Bytecode::Div
            | Bytecode::BitOr | Bytecode::BitAnd | Bytecode::Xor | Bytecode::Shl | Bytecode::Shr
            | Bytecode::Or | Bytecode::And | Bytecode::Lt | Bytecode::Gt | Bytecode::Le
            | Bytecode::Ge => true,
            _ => false,
        },
    ensures
        steps(context, bytecode, offset, pre, res, post) && pre.stack.len() == 0 ==> {
            is_violation(res) && only_pops(0, pre, post)
        },
        steps(context, bytecode, offset, pre, res, post) && pre.stack.len() == 1 ==> {
            is_violation(res) && only_pops(1, pre, post)
        },
        steps(context, bytecode, offset, pre, res, post) && pre.stack.len() > 0
            && pre.stack.last() is Reference ==> {
            is_violation(res) && only_pops(1, pre, post)
        },
        steps(context, bytecode, offset, pre, res, post) && pre.stack.len() >= 2
            && pre.stack.last() is NonReference && pre.stack[pre.stack.len() - 2] is Reference ==> {
            is_violation(res) && only_pops(2, pre, post)
        },
        steps(context, bytecode, offset, pre, res, post) && pre.stack.len() >= 2
            && pre.stack.last() is NonReference
            && pre.stack[pre.stack.len() - 2] is NonReference ==> {
            &&& res is Ok
            &&& post.stack == pre.stack.take(pre.stack.len() - 2).push(AbstractValue::NonReference)
            &&& post.state == pre.state
            &&& post.meter == pre.meter
        },
{
    let s = pre.stack;
    lemma_two_operands(s, Operand::Value, Operand::Value);
    if s.len() >= 2 {
        lemma_reply(s.take(s.len() - 2));
    }
    assert(s.take(s.len() as int) == s);
    if s.len() >= 2 {
        let rest = s.take(s.len() - 2);
        assert(rest + repeated(AbstractValue::NonReference, 1) == rest.push(
            AbstractValue::NonReference,
        ));
    }
}

/// The vector behind the top value is read for its length and updated to pop an element, whatever
/// the type of its elements, and a value that is no reference is pushed.
pub proof fn law_measuring_and_shortening_a_vector<S: AbstractState, M: Meter>(
    context: Context,
    element: u16,
    offset: CodeOffset,
    pre: Configuration<S, M>,
    res: PartialVMResult<()>,
    post: Configuration<S, M>,
)
    requires
        pre.stack.len() <= 0xffff_ffff_ffff_ffff,
    ensures
        steps(context, Bytecode::VecLen(element), offset, pre, res, post)
            && pre.stack.len() == 0 ==> {
            is_violation(res) && only_pops(0, pre, post)
        },
        steps(context, Bytecode::VecLen(element), offset, pre, res, post)
            && pre.stack.len() > 0 ==> {
            &&& post.meter == pre.meter
            &&& exists|r: PartialVMResult<()>|
                #[trigger] call_ensures(
                    S::vector_op,
                    (pre.state, offset, pre.stack.last(), false),
                    (post.state, r),
                ) && match r {
                    Ok(()) => res is Ok && post.stack == pre.stack.drop_last().push(
                        AbstractValue::NonReference,
                    ),
                    Err(e) => res == r && post.stack == pre.stack.drop_last(),
                }
        },
        steps(context, Bytecode::VecPopBack(element), offset, pre, res, post)
            && pre.stack.len() == 0 ==> {
            is_violation(res) && only_pops(0, pre, post)
        },
        steps(context, Bytecode::VecPopBack(element), offset, pre, res, post)
            && pre.stack.len() > 0 ==> {
            &&& post.meter == pre.meter
            &&& exists|r: PartialVMResult<()>|
                #[trigger] call_ensures(
                    S::vector_op,
                    (pre.state, offset, pre.stack.last(), true),
                    (post.state, r),
                ) && match r {
                    Ok(()) => res is Ok && post.stack == pre.stack.drop_last().push(
                        AbstractValue::NonReference,
                    ),
                    Err(e) => res == r && post.stack == pre.stack.drop_last(),
                }
        },
{
    let s = pre.stack;
    lemma_one_operand(s, Operand::Any);
    if s.len() > 0 {
        assert(s.take(s.len() - 1) == s.drop_last());
        lemma_reply(s.take(s.len() - 1));
    }
    assert(s.take(s.len() as int) == s);
    if s.len() > 0 {
        let v = AbstractValue::NonReference;
        assert(s.drop_last() + seq![v] == s.drop_last().push(v));
    }
}

/// A value that must not be a reference is popped, and the vector behind the one under it is
/// updated, whatever the type of its elements.
pub proof fn law_lengthening_a_vector<S: AbstractState, M: Meter>(
    context: Context,
    element: u16,
    offset: CodeOffset,
    pre: Configuration<S, M>,
    res: PartialVMResult<()>,
    post: Configuration<S, M>,
)
    requires
        pre.stack.len() <= 0xffff_ffff_ffff_ffff,
    ensures
        steps(context, Bytecode::VecPushBack(element), offset, pre, res, post)
            && pre.stack.len() == 0 ==> {
            is_violation(res) && only_pops(0, pre, post)
        },
        steps(context, Bytecode::VecPushBack(element), offset, pre, res, post)
            && pre.stack.len() == 1 ==> {
            is_violation(res) && only_pops(1, pre, post)
        },
        steps(context, Bytecode::VecPushBack(element), offset, pre, res, post)
            && pre.stack.len() > 0 && pre.stack.last() is Reference ==> {
            is_violation(res) && only_pops(1, pre, post)
        },
        steps(context, Bytecode::VecPushBack(element), offset, pre, res, post)
            && pre.stack.len() >= 2 && pre.stack.last() is NonReference ==> {
            &&& post.meter == pre.meter
            &&& exists|r: PartialVMResult<()>|
                #[trigger] call_ensures(
                    S::vector_op,
                    (pre.state, offset, pre.stack[pre.stack.len() - 2], true),
                    (post.state, r),
                ) && passes_on(pre.stack.take(pre.stack.len() - 2), r, res, post.stack)
        },
{
    let s = pre.stack;
    lemma_two_operands(s, Operand::Value, Operand::Any);
    if s.len() >= 2 {
        lemma_reply(s.take(s.len() - 2));
    }
    assert(s.take(s.len() as int) == s);
}

/// Two indices that must not be references are popped, and the vector behind the value under them
/// is updated, whatever the type of its elements.
pub proof fn law_swapping_elements<S: AbstractState, M: Meter>(
    context: Context,
    element: u16,
    offset: CodeOffset,
    pre: Configuration<S, M>,
    res: PartialVMResult<()>,
    post: Configuration<S, M>,
)
    requires
        pre.stack.len() <= 0xffff_ffff_ffff_ffff,
    ensures
        steps(context, Bytecode::VecSwap(element), offset, pre, res, post)
            && pre.stack.len() == 0 ==> {
            is_violation(res) && only_pops(0, pre, post)
        },
        steps(context, Bytecode::VecSwap(element), offset, pre, res, post)
            && pre.stack.len() == 1 ==> {
            is_violation(res) && only_pops(1, pre, post)
        },
        steps(context, Bytecode::VecSwap(element), offset, pre, res, post) && pre.stack.len() > 0
            && pre.stack.last() is Reference ==> {
            is_violation(res) && only_pops(1, pre, post)
        },
        steps(context, Bytecode::VecSwap(element), offset, pre, res, post) && pre.stack.len() == 2
            && pre.stack.last() is NonReference ==> {
            is_violation(res) && only_pops(2, pre, post)
        },
        steps(context, Bytecode::VecSwap(element), offset, pre, res, post) && pre.stack.len() >= 2
            && pre.stack.last() is NonReference && pre.stack[pre.stack.len() - 2] is Reference ==> {
            is_violation(res) && only_pops(2, pre, post)
        },
        steps(context, Bytecode::VecSwap(element), offset, pre, res, post) && pre.stack.len() >= 3
            && pre.stack.last() is NonReference
            && pre.stack[pre.stack.len() - 2] is NonReference ==> {
            &&& post.meter == pre.meter
            &&& exists|r: PartialVMResult<()>|
                #[trigger] call_ensures(
                    S::vector_op,
                    (pre.state, offset, pre.stack[pre.stack.len() - 3], true),
                    (post.state, r),
                ) && passes_on(pre.stack.take(pre.stack.len() - 3), r, res, post.stack)
        },
{
    let s = pre.stack;
    lemma_three_operands(s, Operand::Value, Operand::Value, Operand::Any);
    assert(s.take(s.len() as int) == s);
}

/// An index is popped, which must not be a reference, and a vector reference under it. The borrow
/// of an element is a call that takes the vector, acquires nothing and returns one reference,
/// mutable or not as the instruction says, whatever the type of the elements.
pub proof fn law_borrowing_an_element<S: AbstractState, M: Meter>(
    context: Context,
    element: u16,
    offset: CodeOffset,
    pre: Configuration<S, M>,
    res: PartialVMResult<()>,
    post: Configuration<S, M>,
)
    requires
        pre.stack.len() <= 0xffff_ffff_ffff_ffff,
    ensures
        steps(context, Bytecode::VecImmBorrow(element), offset, pre, res, post)
            && pre.stack.len() == 0 ==> {
            is_violation(res) && only_pops(0, pre, post)
        },
        steps(context, Bytecode::VecImmBorrow(element), offset, pre, res, post)
            && pre.stack.len() == 1 ==> {
            is_violation(res) && only_pops(1, pre, post)
        },
        steps(context, Bytecode::VecImmBorrow(element), offset, pre, res, post)
            && pre.stack.len() > 0 && pre.stack.last() is Reference ==> {
            is_violation(res) && only_pops(1, pre, post)
        },
        steps(context, Bytecode::VecImmBorrow(element), offset, pre, res, post)
            && pre.stack.len() >= 2 && pre.stack.last() is NonReference ==> {
            exists|
                arguments: Vec<AbstractValue>,
                acquired: &BTreeSet<StructDefinitionIndex>,
                kinds: &Vec<ValueKind>,
                r: PartialVMResult<Vec<AbstractValue>>,
            |
                {
                    &&& arguments@.len() == 1 && arguments@[0] == pre.stack[pre.stack.len() - 2]
                    &&& acquired@.is_empty()
                    &&& kinds@.len() == 1 && kinds@[0] == ValueKind::Reference(false)
                    &&& #[trigger] call_ensures(
                        S::call::<M>,
                        (
                            pre.state,
                            offset,
                            arguments,
                            acquired,
                            kinds,
                            pre.meter,
                            StatusCode::VecBorrowElementExistsMutableBorrowError,
                        ),
                        (post.state, post.meter, r),
                    )
                    &&& puts_replies(pre.stack.take(pre.stack.len() - 2), r, res, post.stack)
                }
        },
        steps(context, Bytecode::VecMutBorrow(element), offset, pre, res, post)
            && pre.stack.len() == 0 ==> {
            is_violation(res) && only_pops(0, pre, post)
        },
        steps(context, Bytecode::VecMutBorrow(element), offset, pre, res, post)
            && pre.stack.len() == 1 ==> {
            is_violation(res) && only_pops(1, pre, post)
        },
        steps(context, Bytecode::VecMutBorrow(element), offset, pre, res, post)
            && pre.stack.len() > 0 && pre.stack.last() is Reference ==> {
            is_violation(res) && only_pops(1, pre, post)
        },
        steps(context, Bytecode::VecMutBorrow(element), offset, pre, res, post)
            && pre.stack.len() >= 2 && pre.stack.last() is NonReference ==> {
            exists|
                arguments: Vec<AbstractValue>,
                acquired: &BTreeSet<StructDefinitionIndex>,
                kinds: &Vec<ValueKind>,
                r: PartialVMResult<Vec<AbstractValue>>,
            |
                {
                    &&& arguments@.len() == 1 && arguments@[0] == pre.stack[pre.stack.len() - 2]
                    &&& acquired@.is_empty()
                    &&& kinds@.len() == 1 && kinds@[0] == ValueKind::Reference(true)
                    &&& #[trigger] call_ensures(
                        S::call::<M>,
                        (
                            pre.state,
                            offset,
                            arguments,
                            acquired,
                            kinds,
                            pre.meter,
                            StatusCode::VecBorrowElementExistsMutableBorrowError,
                        ),
                        (post.state, post.meter, r),
                    )
                    &&& puts_replies(pre.stack.take(pre.stack.len() - 2), r, res, post.stack)
                }
        },
{
    let s = pre.stack;
    lemma_two_operands(s, Operand::Value, Operand::Any);
    if s.len() >= 2 {
        lemma_reply(s.take(s.len() - 2));
    }
    assert(s.take(s.len() as int) == s);
    if s.len() >= 2 {
        lemma_replies(s.take(s.len() - 2));
    }
}

/// A call pops the arguments of its callee, the one for the last parameter first, and pushes what
/// the borrow state replies. The callee acquires a struct just if the module defines a function
/// under its name, the handle of that definition agrees with the handle that is called in module,
/// name, parameters, results and type parameters, and the definition lists the struct. A result
/// is a reference, mutable or not, or none, as its type is. A script has no definitions, so there
/// a callee whose name is known is refused once its arguments are popped.
pub proof fn law_calling<S: AbstractState, M: Meter>(
    context: Context,
    bytecode: Bytecode,
    idx: u16,
    offset: CodeOffset,
    pre: Configuration<S, M>,
    res: PartialVMResult<()>,
    post: Configuration<S, M>,
)
    requires
        pre.stack.len() <= 0xffff_ffff_ffff_ffff,
        bytecode == Bytecode::Call(idx) || (bytecode matches Bytecode::CallGeneric(inst)
            && context.resolver.function_instantiations@[inst as int].handle == idx),
        ({
            let handle = context.resolver.function_handles@[idx as int];
            context.resolver.signatures@[handle.parameters as int].0@.len() <= pre.stack.len()
        }),
        steps(context, bytecode, offset, pre, res, post),
    ensures
        ({
            let handle = context.resolver.function_handles@[idx as int];
            let parameters = context.resolver.signatures@[handle.parameters as int].0@;
            let results = context.resolver.signatures@[handle.return_ as int].0@;
            let named = context.name_def_map.contains_key(handle.name);
            let def_index = context.name_def_map[handle.name];
            let def = context.resolver.definitions->0.function_defs@[def_index as int];
            let own = context.resolver.function_handles@[def.function as int];
            if named && context.resolver.definitions is None {
                is_refused_in_script(res) && only_pops(parameters.len() as int, pre, post)
            } else {
                exists|
                    arguments: Vec<AbstractValue>,
                    acquired: &BTreeSet<StructDefinitionIndex>,
                    kinds: &Vec<ValueKind>,
                    r: PartialVMResult<Vec<AbstractValue>>,
                |
                    {
                        &&& arguments@.len() == parameters.len()
                        &&& forall|i: int|
                            0 <= i < parameters.len() ==> #[trigger] arguments@[i]
                                == pre.stack[pre.stack.len() - 1 - i]
                        &&& forall|resource: StructDefinitionIndex| #[trigger]
                            acquired@.contains(resource) <==> {
                                &&& named
                                &&& handle.module == own.module
                                &&& handle.name == own.name
                                &&& handle.parameters == own.parameters
                                &&& handle.return_ == own.return_
                                &&& handle.type_parameters@ == own.type_parameters@
                                &&& def.acquires_global_resources@.contains(resource)
                            }
                        &&& kinds@.len() == results.len()
                        &&& forall|i: int|
                            0 <= i < results.len() ==> {
                                &&& results[i] is Reference ==> #[trigger] kinds@[i]
                                    == ValueKind::Reference(false)
                                &&& results[i] is MutableReference ==> kinds@[i]
                                    == ValueKind::Reference(true)
                                &&& !(results[i] is Reference || results[i] is MutableReference)
                                    ==> kinds@[i] == ValueKind::NonReference
                            }
                        &&& #[trigger] call_ensures(
                            S::call::<M>,
                            (
                                pre.state,
                                offset,
                                arguments,
                                acquired,
                                kinds,
                                pre.meter,
                                StatusCode::CallBorrowedMutableReferenceError,
                            ),
                            (post.state, post.meter, r),
                        )
                        &&& puts_replies(
                            pre.stack.take(pre.stack.len() - parameters.len()),
                            r,
                            res,
                            post.stack,
                        )
                    }
            }
        }),
{
    let s = pre.stack;
    let handle = context.resolver.function_handles@[idx as int];
    let n = context.resolver.signatures@[handle.parameters as int].0@.len();
    assert(operands_fit(s, Operand::Any.times(n)));
    lemma_replies(s.take(s.len() - n));
}

/// A call of a function of another module acquires nothing, though the module defines a function
/// of the same name and signature.
pub proof fn law_calling_another_module<S: AbstractState, M: Meter>(
    context: Context,
    idx: u16,
    offset: CodeOffset,
    pre: Configuration<S, M>,
    res: PartialVMResult<()>,
    post: Configuration<S, M>,
)
    requires
        pre.stack.len() <= 0xffff_ffff_ffff_ffff,
        ({
            let handle = context.resolver.function_handles@[idx as int];
            context.resolver.signatures@[handle.parameters as int].0@.len() <= pre.stack.len()
        }),
        context.resolver.definitions is Some,
        ({
            let handle = context.resolver.function_handles@[idx as int];
            let def_index = context.name_def_map[handle.name];
            let def = context.resolver.definitions->0.function_defs@[def_index as int];
            context.resolver.function_handles@[def.function as int].module != handle.module
        }),
        steps(context, Bytecode::Call(idx), offset, pre, res, post),
    ensures
        exists|
            arguments: Vec<AbstractValue>,
            acquired: &BTreeSet<StructDefinitionIndex>,
            kinds: &Vec<ValueKind>,
            r: PartialVMResult<Vec<AbstractValue>>,
        |
            acquired@.is_empty() && #[trigger] call_ensures(
                S::call::<M>,
                (
                    pre.state,
                    offset,
                    arguments,
                    acquired,
                    kinds,
                    pre.meter,
                    StatusCode::CallBorrowedMutableReferenceError,
                ),
                (post.state, post.meter, r),
            ),
{
    law_calling(context, Bytecode::Call(idx), idx, offset, pre, res, post);
}

/// A return pops a value for each result type and hands them to the borrow state, the top one
/// last. If there are too few, the stack is emptied.
pub proof fn law_returning<S: AbstractState, M: Meter>(
    context: Context,
    offset: CodeOffset,
    pre: Configuration<S, M>,
    res: PartialVMResult<()>,
    post: Configuration<S, M>,
)
    requires
        steps(context, Bytecode::Ret, offset, pre, res, post),
    ensures
        ({
            let n = context.function_view.return_.0@.len();
            if n > pre.stack.len() {
                is_violation(res) && only_pops(pre.stack.len() as int, pre, post)
            } else {
                &&& post.meter == pre.meter
                &&& exists|values: Vec<AbstractValue>, r: PartialVMResult<()>|
                    {
                        &&& values@ == pre.stack.skip(pre.stack.len() - n)
                        &&& #[trigger] call_ensures(
                            S::ret,
                            (pre.state, offset, values),
                            (post.state, r),
                        )
                        &&& passes_on(pre.stack.take(pre.stack.len() - n), r, res, post.stack)
                    }
            }
        }),
{
    let s = pre.stack;
    let n = context.function_view.return_.0@.len();
    if n > s.len() {
        lemma_stops_at(s, Operand::Any.times(n), s.len());
    } else {
        assert(operands_fit(s, Operand::Any.times(n)));
        assert(popped(s, n).reverse() == s.skip(s.len() - n));
    }
}

/// Where the operands stop to fit.
proof fn lemma_where_operands_stop(s: Seq<AbstractValue>, demands: Seq<Operand>, i: nat) -> (k: nat)
    requires
        i <= demands.len(),
        i <= s.len(),
        !operands_fit(s, demands),
        forall|j: int| 0 <= j < i ==> (#[trigger] demands[j]).admits(s[s.len() - 1 - j]),
    ensures
        k < demands.len(),
        k <= s.len(),
        forall|j: int| 0 <= j < k ==> (#[trigger] demands[j]).admits(s[s.len() - 1 - j]),
        k < s.len() ==> !demands[k as int].admits(s[s.len() - 1 - k]),
    decreases demands.len() - i,
{
    if i < demands.len() && i < s.len() && demands[i as int].admits(s[s.len() - 1 - i]) {
        lemma_where_operands_stop(s, demands, i + 1)
    } else {
        i
    }
}

/// Packing a struct pops as many values as it declares fields, none of which may be a reference,
/// and pushes one that is none; a native struct has no fields. The values are popped one by one
/// until one is missing or a reference. A script has no structs, so there it is refused before
/// anything is popped.
pub proof fn law_packing<S: AbstractState, M: Meter>(
    context: Context,
    bytecode: Bytecode,
    idx: u16,
    offset: CodeOffset,
    pre: Configuration<S, M>,
    res: PartialVMResult<()>,
    post: Configuration<S, M>,
)
    requires
        pre.stack.len() <= 0xffff_ffff_ffff_ffff,
        bytecode == Bytecode::Pack(idx) || (bytecode matches Bytecode::PackGeneric(inst)
            && context.resolver.definitions->0.struct_instantiations@[inst as int].def == idx),
        steps(context, bytecode, offset, pre, res, post),
    ensures
        ({
            let s = pre.stack;
            let info = context.resolver.definitions->0.struct_defs@[idx as int].field_information;
            let n: int = match info {
                StructFieldInformation::Native => 0,
                StructFieldInformation::Declared(fields) => fields@.len() as int,
            };
            &&& post.state == pre.state
            &&& post.meter == pre.meter
            &&& if context.resolver.definitions is None {
                is_refused_in_script(res) && post.stack == s
            } else if n <= s.len() && (forall|i: int|
                s.len() - n <= i < s.len() ==> s[i] is NonReference) {
                puts(s.take(s.len() - n), AbstractValue::NonReference, res, post.stack)
            } else {
                let h = post.stack.len();
                &&& is_violation(res)
                &&& post.stack.is_prefix_of(s)
                &&& {
                    ||| h == 0 && n > s.len() && (forall|i: int|
                        0 <= i < s.len() ==> s[i] is NonReference)
                    ||| s.len() - n <= h < s.len() && s[h as int] is Reference && (forall|i: int|
                        h < i < s.len() ==> s[i] is NonReference)
                }
            }
        }),
{
    let s = pre.stack;
    assert(s.take(s.len() as int) == s);
    if context.resolver.definitions is Some {
        let n = context.resolver.definitions->0.struct_defs@[idx as int].field_count();
        let demands = Operand::Value.times(n);
        if operands_fit(s, demands) {
            assert forall|i: int| s.len() - n <= i < s.len() implies s[i] is NonReference by {
                assert(demands[s.len() - 1 - i].admits(s[i]));
            }
            let rest = s.take(s.len() - n);
            assert(rest + repeated(AbstractValue::NonReference, 1) == rest.push(
                AbstractValue::NonReference,
            ));
        } else {
            let k = lemma_where_operands_stop(s, demands, 0);
            lemma_stops_at(s, demands, k);
            if k < s.len() {
                assert(s[s.len() - 1 - k] is Reference);
            }
            assert forall|i: int| s.len() - k <= i < s.len() implies s[i] is NonReference by {
                assert(demands[s.len() - 1 - i].admits(s[i]));
            }
        }
    }
}

/// Unpacking a struct pops a value, which must not be a reference, and pushes as many values that
/// are none as the struct declares fields; a native struct has no fields. A script has no structs,
/// so there it is refused before anything is popped.
pub proof fn law_unpacking<S: AbstractState, M: Meter>(
    context: Context,
    bytecode: Bytecode,
    idx: u16,
    offset: CodeOffset,
    pre: Configuration<S, M>,
    res: PartialVMResult<()>,
    post: Configuration<S, M>,
)
    requires
        pre.stack.len() <= 0xffff_ffff_ffff_ffff,
        bytecode == Bytecode::Unpack(idx) || (bytecode matches Bytecode::UnpackGeneric(inst)
            && context.resolver.definitions->0.struct_instantiations@[inst as int].def == idx),
        steps(context, bytecode, offset, pre, res, post),
    ensures
        ({
            let s = pre.stack;
            let info = context.resolver.definitions->0.struct_defs@[idx as int].field_information;
            let n: int = match info {
                StructFieldInformation::Native => 0,
                StructFieldInformation::Declared(fields) => fields@.len() as int,
            };
            &&& post.state == pre.state
            &&& post.meter == pre.meter
            &&& if context.resolver.definitions is None {
                is_refused_in_script(res) && post.stack == s
            } else if s.len() == 0 {
                is_violation(res) && post.stack == s
            } else if s.last() is Reference {
                is_violation(res) && post.stack == s.drop_last()
            } else {
                puts_values(s.drop_last(), n, res, post.stack)
            }
        }),
{
    let s = pre.stack;
    lemma_one_operand(s, Operand::Value);
    if s.len() > 0 {
        assert(s.take(s.len() - 1) == s.drop_last());
    }
}

/// Packing a vector pops its elements together, none of which may be a reference, and pushes one
/// value that is none. If they do not fit the stack stays as it was, unless they are as many
/// copies of one reference: those are gone. It does not matter of what type the elements are.
pub proof fn law_packing_a_vector<S: AbstractState, M: Meter>(
    context: Context,
    element: u16,
    n: u64,
    offset: CodeOffset,
    pre: Configuration<S, M>,
    res: PartialVMResult<()>,
    post: Configuration<S, M>,
)
    requires
        pre.stack.len() <= 0xffff_ffff_ffff_ffff,
        steps(context, Bytecode::VecPack(element, n), offset, pre, res, post),
    ensures
        ({
            let s = pre.stack;
            &&& post.state == pre.state
            &&& post.meter == pre.meter
            &&& if n <= s.len() && (forall|i: int|
                s.len() - n <= i < s.len() ==> s[i] is NonReference) {
                puts(s.take(s.len() - n), AbstractValue::NonReference, res, post.stack)
            } else if n <= s.len() && (forall|i: int|
                s.len() - n <= i < s.len() ==> s[i] == s.last()) {
                is_violation(res) && post.stack == s.take(s.len() - n)
            } else {
                is_violation(res) && post.stack == s
            }
        }),
{
    let s = pre.stack;
    let demands = Operand::Value.times(n as nat);
    assert(s.take(s.len() as int) == s);
    if n <= s.len() && (forall|i: int| s.len() - n <= i < s.len() ==> s[i] is NonReference) {
        assert(operands_fit(s, demands));
        let rest = s.take(s.len() - n);
        assert(rest + repeated(AbstractValue::NonReference, 1) == rest.push(
            AbstractValue::NonReference,
        ));
    } else {
        if operands_fit(s, demands) {
            assert forall|i: int| s.len() - n <= i < s.len() implies s[i] is NonReference by {
                assert(demands[s.len() - 1 - i].admits(s[i]));
            }
        }
        if top_equal(s, n as nat) {
            assert(forall|i: int| s.len() - n <= i < s.len() ==> s[i] == s.last());
        }
    }
}

/// Unpacking a vector pops a value, which must not be a reference, and pushes as many values that
/// are none as the instruction says, whatever the type of the elements.
pub proof fn law_unpacking_a_vector<S: AbstractState, M: Meter>(
    context: Context,
    element: u16,
    n: u64,
    offset: CodeOffset,
    pre: Configuration<S, M>,
    res: PartialVMResult<()>,
    post: Configuration<S, M>,
)
    requires
        steps(context, Bytecode::VecUnpack(element, n), offset, pre, res, post),
    ensures
        ({
            let s = pre.stack;
            &&& post.state == pre.state
            &&& post.meter == pre.meter
            &&& if s.len() == 0 {
                is_violation(res) && post.stack == s
            } else if s.last() is Reference {
                is_violation(res) && post.stack == s.drop_last()
            } else {
                puts_values(s.drop_last(), n as int, res, post.stack)
            }
        }),
{
    let s = pre.stack;
    lemma_one_operand(s, Operand::Value);
    if s.len() > 0 {
        assert(s.take(s.len() - 1) == s.drop_last());
    }
}

} // verus!
