//! The transfer function of each instruction, as a function on sequences.

use vstd::prelude::*;

use crate::abstract_stack::{repeated, top_equal};
use crate::action::{ActionView, CallView, StateQuery, StateUpdate};
use crate::binary_view::{BinaryIndexedView, FunctionView};
use crate::file_format::{
    Bytecode, CodeOffset, FieldHandleIndex, FunctionDefinitionIndex, FunctionHandle,
    FunctionHandleIndex, IdentifierIndex, StructDefinitionIndex,
};
use crate::state::StepCosts;
use crate::status::{PartialVMError, PartialVMResult, StatusCode};
use crate::value::{AbstractValue, ValueKind};

verus! {

/// What an instruction demands of an operand.
pub ghost enum Operand {
    /// Nothing.
    Any,
    /// That it is no reference.
    Value,
    /// That it is a reference.
    Reference,
}

impl Operand {
    pub open spec fn admits(self, v: AbstractValue) -> bool {
        match self {
            Operand::Any => true,
            Operand::Value => v is NonReference,
            Operand::Reference => v is Reference,
        }
    }

    /// The same demand on each of `n` operands.
    pub open spec fn times(self, n: nat) -> Seq<Operand> {
        Seq::new(n, |i: int| self)
    }
}

/// The top `n` values of a stack, the topmost first.
pub open spec fn popped(stack: Seq<AbstractValue>, n: nat) -> Seq<AbstractValue> {
    Seq::new(n, |i: int| stack[stack.len() - 1 - i])
}

/// The stack under its top `n` values.
pub open spec fn under(stack: Seq<AbstractValue>, n: nat) -> Seq<AbstractValue> {
    stack.take(stack.len() - n)
}

/// Whether the operands that are demanded, the topmost first, are on the stack.
pub open spec fn operands_fit(stack: Seq<AbstractValue>, demands: Seq<Operand>) -> bool {
    &&& demands.len() <= stack.len()
    &&& forall|i: int|
        0 <= i < demands.len() ==> (#[trigger] demands[i]).admits(stack[stack.len() - 1 - i])
}

/// The position, from `i` on, of the first operand that is missing or not as demanded; the number
/// of demands if there is none.
pub open spec fn first_misfit(stack: Seq<AbstractValue>, demands: Seq<Operand>, i: nat) -> nat
    decreases demands.len() - i,
{
    if i < demands.len() && i < stack.len() && demands[i as int].admits(
        stack[stack.len() - 1 - i],
    ) {
        first_misfit(stack, demands, i + 1)
    } else {
        i
    }
}

/// The stack that is left when operands are popped one by one until one is missing or, once it is
/// popped, found not to be as demanded.
pub open spec fn stopped(stack: Seq<AbstractValue>, demands: Seq<Operand>) -> Seq<AbstractValue> {
    let i = first_misfit(stack, demands, 0);
    if i < stack.len() {
        under(stack, i + 1)
    } else {
        under(stack, stack.len())
    }
}

/// The stack once the operands that are demanded are popped, or as far as they could be.
pub open spec fn left(stack: Seq<AbstractValue>, demands: Seq<Operand>) -> Seq<AbstractValue> {
    if operands_fit(stack, demands) {
        under(stack, demands.len())
    } else {
        stopped(stack, demands)
    }
}

/// Operands are taken from `stack`: `after` is left, and `res` is `value` if they fit.
pub open spec fn takes<T>(
    stack: Seq<AbstractValue>,
    demands: Seq<Operand>,
    after: Seq<AbstractValue>,
    res: PartialVMResult<T>,
    value: T,
) -> bool {
    &&& after == left(stack, demands)
    &&& res == if operands_fit(stack, demands) {
        Ok(value)
    } else {
        Err(PartialVMError::invariant_violation())
    }
}

/// A stack after `values` are pushed one by one, and whether all of them found room.
pub open spec fn pushed(stack: Seq<AbstractValue>, values: Seq<AbstractValue>) -> (
    Seq<AbstractValue>,
    PartialVMResult<()>,
) {
    if stack.len() + values.len() <= u64::MAX {
        (stack + values, Ok(()))
    } else {
        (stack + values.take(u64::MAX - stack.len()), Err(PartialVMError::invariant_violation()))
    }
}

/// The second half of an instruction whose operation returns no value: the stack, and the result,
/// for each reply.
pub open spec fn updated(
    stack: Seq<AbstractValue>,
    pushes_value: bool,
    reply: PartialVMResult<()>,
) -> (Seq<AbstractValue>, PartialVMResult<()>) {
    match reply {
        Ok(()) => if pushes_value {
            pushed(stack, seq![AbstractValue::NonReference])
        } else {
            (stack, Ok(()))
        },
        Err(e) => (stack, Err(e)),
    }
}

/// A reply with one value, as a reply with a sequence of values.
pub open spec fn single(reply: PartialVMResult<AbstractValue>) -> PartialVMResult<
    Seq<AbstractValue>,
> {
    match reply {
        Ok(value) => Ok(seq![value]),
        Err(e) => Err(e),
    }
}

/// A reply with a list of values, as a reply with a sequence of values.
pub open spec fn listed(reply: PartialVMResult<Vec<AbstractValue>>) -> PartialVMResult<
    Seq<AbstractValue>,
> {
    match reply {
        Ok(values) => Ok(values@),
        Err(e) => Err(e),
    }
}

/// The second half of an instruction whose operation returns values: the stack, and the result,
/// for each reply.
pub open spec fn returned(
    stack: Seq<AbstractValue>,
    reply: PartialVMResult<Seq<AbstractValue>>,
) -> (Seq<AbstractValue>, PartialVMResult<()>) {
    match reply {
        Ok(values) => pushed(stack, values),
        Err(e) => (stack, Err(e)),
    }
}

/// An instruction that is done once `n` values that are no references are pushed, all or none.
pub open spec fn done_with(stack: Seq<AbstractValue>, n: nat) -> (
    Seq<AbstractValue>,
    PartialVMResult<ActionView>,
) {
    if stack.len() + n <= u64::MAX {
        (stack + repeated(AbstractValue::NonReference, n), Ok(ActionView::Done))
    } else {
        (stack, Err(PartialVMError::invariant_violation()))
    }
}

/// An instruction that pops its operands and is done once `n` values that are no references are
/// pushed in their place.
pub open spec fn replaced(stack: Seq<AbstractValue>, demands: Seq<Operand>, n: nat) -> (
    Seq<AbstractValue>,
    PartialVMResult<ActionView>,
) {
    if operands_fit(stack, demands) {
        done_with(under(stack, demands.len()), n)
    } else {
        (stopped(stack, demands), Err(PartialVMError::invariant_violation()))
    }
}

/// What the transfer functions read besides the stack.
pub ghost struct Context {
    pub resolver: BinaryIndexedView,
    pub function_view: FunctionView,
    /// The functions that the module defines, by name.
    pub name_def_map: Map<IdentifierIndex, FunctionDefinitionIndex>,
    pub costs: StepCosts,
}

impl Context {
    /// The definition of the function that a handle refers to is looked up only if the module
    /// defines a function of that name.
    pub open spec fn looks_up_definition(self, handle: FunctionHandle) -> bool {
        self.name_def_map.contains_key(handle.name)
    }

    /// The structs that a callee acquires: those its definition declares, if the module defines
    /// the very function that the handle refers to.
    pub open spec fn acquired_resources(self, handle: FunctionHandle) -> Set<
        StructDefinitionIndex,
    > {
        let def = self.resolver.function_def(self.name_def_map[handle.name]);
        if self.looks_up_definition(handle) && handle.same(
            &self.resolver.function_handles@[def.function as int],
        ) {
            def.acquires_global_resources@.to_set()
        } else {
            Set::empty()
        }
    }

    /// The handle that a call instruction refers to.
    pub open spec fn callee_index(self, bytecode: Bytecode) -> FunctionHandleIndex {
        match bytecode {
            Bytecode::CallGeneric(idx) => self.resolver.function_instantiations@[idx as int].handle,
            Bytecode::Call(idx) => idx,
            _ => 0,
        }
    }

    pub open spec fn callee(self, bytecode: Bytecode) -> FunctionHandle {
        self.resolver.function_handles@[self.callee_index(bytecode) as int]
    }

    pub open spec fn parameter_count(self, handle: FunctionHandle) -> nat {
        self.resolver.signatures@[handle.parameters as int].0@.len()
    }

    /// The struct that an instruction packs, unpacks, borrows or moves.
    pub open spec fn struct_index(self, bytecode: Bytecode) -> StructDefinitionIndex {
        match bytecode {
            Bytecode::Pack(idx) | Bytecode::Unpack(idx) | Bytecode::MutBorrowGlobal(idx)
            | Bytecode::ImmBorrowGlobal(idx) | Bytecode::MoveFrom(idx) => idx,
            Bytecode::PackGeneric(idx) | Bytecode::UnpackGeneric(idx)
            | Bytecode::MutBorrowGlobalGeneric(idx) | Bytecode::ImmBorrowGlobalGeneric(idx)
            | Bytecode::MoveFromGeneric(idx) => self.resolver.struct_instantiation(idx).def,
            _ => 0,
        }
    }

    pub open spec fn field_count(self, bytecode: Bytecode) -> nat {
        self.resolver.struct_def(self.struct_index(bytecode)).field_count()
    }

    /// What an instruction demands of its operands, the topmost first.
    pub open spec fn operands(self, bytecode: Bytecode) -> Seq<Operand> {
        match bytecode {
            Bytecode::Pop | Bytecode::StLoc(_) | Bytecode::VecLen(_) | Bytecode::VecPopBack(_) =>
                seq![Operand::Any],
            Bytecode::Eq | Bytecode::Neq => seq![Operand::Any, Operand::Any],
            Bytecode::FreezeRef | Bytecode::ReadRef | Bytecode::MutBorrowField(_)
            | Bytecode::MutBorrowFieldGeneric(_) | Bytecode::ImmBorrowField(_)
            | Bytecode::ImmBorrowFieldGeneric(_) => seq![Operand::Reference],
            Bytecode::WriteRef => seq![Operand::Reference, Operand::Value],
            Bytecode::MutBorrowGlobal(_) | Bytecode::MutBorrowGlobalGeneric(_)
            | Bytecode::ImmBorrowGlobal(_) | Bytecode::ImmBorrowGlobalGeneric(_)
            | Bytecode::MoveFrom(_) | Bytecode::MoveFromGeneric(_) | Bytecode::BrTrue(_)
            | Bytecode::BrFalse(_) | Bytecode::Abort | Bytecode::Unpack(_)
            | Bytecode::UnpackGeneric(_) | Bytecode::VecUnpack(_, _) => seq![Operand::Value],
            Bytecode::MoveTo(_) | Bytecode::MoveToGeneric(_) | Bytecode::VecImmBorrow(_)
            | Bytecode::VecMutBorrow(_) | Bytecode::VecPushBack(_) => seq![
                Operand::Value,
                Operand::Any,
            ],
            Bytecode::VecSwap(_) => seq![Operand::Value, Operand::Value, Operand::Any],
            Bytecode::Add | Bytecode::Sub | Bytecode::Mul | Bytecode::Mod | Bytecode::Div
            | Bytecode::BitOr | Bytecode::BitAnd | Bytecode::Xor | Bytecode::Shl | Bytecode::Shr
            | Bytecode::Or | Bytecode::And | Bytecode::Lt | Bytecode::Gt | Bytecode::Le
            | Bytecode::Ge => seq![Operand::Value, Operand::Value],
            Bytecode::Pack(_) | Bytecode::PackGeneric(_) => Operand::Value.times(
                self.field_count(bytecode),
            ),
            Bytecode::VecPack(_, n) => Operand::Value.times(n as nat),
            Bytecode::Call(_) | Bytecode::CallGeneric(_) => Operand::Any.times(
                self.parameter_count(self.callee(bytecode)),
            ),
            Bytecode::Ret => Operand::Any.times(self.function_view.return_.0@.len()),
            Bytecode::CopyLoc(_) | Bytecode::MoveLoc(_) | Bytecode::MutBorrowLoc(_)
            | Bytecode::ImmBorrowLoc(_) | Bytecode::Branch(_) | Bytecode::Nop | Bytecode::CastU8
            | Bytecode::CastU16 | Bytecode::CastU32 | Bytecode::CastU64 | Bytecode::CastU128
            | Bytecode::CastU256 | Bytecode::Not | Bytecode::Exists(_)
            | Bytecode::ExistsGeneric(_) | Bytecode::LdTrue | Bytecode::LdFalse | Bytecode::LdU8(_)
            | Bytecode::LdU16(_) | Bytecode::LdU32(_) | Bytecode::LdU64(_) | Bytecode::LdU128(_)
            | Bytecode::LdU256(_) | Bytecode::LdConst(_) => Seq::empty(),
        }
    }

    /// How many values that are no references an instruction pushes by itself, if it asks nothing
    /// of the borrow state.
    pub open spec fn own_pushes(self, bytecode: Bytecode) -> Option<nat> {
        match bytecode {
            // The operand is replaced by a value of the same kind, or there is none.
            Bytecode::Branch(_) | Bytecode::Nop | Bytecode::CastU8 | Bytecode::CastU16
            | Bytecode::CastU32 | Bytecode::CastU64 | Bytecode::CastU128 | Bytecode::CastU256
            | Bytecode::Not | Bytecode::Exists(_) | Bytecode::ExistsGeneric(_) => Some(0),
            Bytecode::BrTrue(_) | Bytecode::BrFalse(_) => Some(0),
            Bytecode::LdTrue | Bytecode::LdFalse | Bytecode::LdU8(_) | Bytecode::LdU16(_)
            | Bytecode::LdU32(_) | Bytecode::LdU64(_) | Bytecode::LdU128(_) | Bytecode::LdU256(_)
            | Bytecode::LdConst(_) => Some(1),
            Bytecode::Add | Bytecode::Sub | Bytecode::Mul | Bytecode::Mod | Bytecode::Div
            | Bytecode::BitOr | Bytecode::BitAnd | Bytecode::Xor | Bytecode::Shl | Bytecode::Shr
            | Bytecode::Or | Bytecode::And | Bytecode::Lt | Bytecode::Gt | Bytecode::Le
            | Bytecode::Ge => Some(1),
            Bytecode::Pack(_) | Bytecode::PackGeneric(_) | Bytecode::VecPack(_, _) => Some(1),
            Bytecode::Unpack(_) | Bytecode::UnpackGeneric(_) => Some(self.field_count(bytecode)),
            Bytecode::VecUnpack(_, n) => Some(n as nat),
            _ => None,
        }
    }

    /// The call of a function, given its arguments as they are popped: the one for the last
    /// parameter first.
    pub open spec fn call_of(
        self,
        handle: FunctionHandle,
        offset: CodeOffset,
        args: Seq<AbstractValue>,
    ) -> ActionView {
        ActionView::Call(
            CallView {
                offset,
                arguments: args,
                acquired_resources: self.acquired_resources(handle),
                return_kinds: ValueKind::of_signature(
                    self.resolver.signatures@[handle.return_ as int],
                ),
                code: StatusCode::CallBorrowedMutableReferenceError,
            },
        )
    }

    /// What an instruction that does not push values by itself asks of the borrow state, given its
    /// operands, the topmost first.
    pub open spec fn request(
        self,
        bytecode: Bytecode,
        offset: CodeOffset,
        args: Seq<AbstractValue>,
    ) -> ActionView {
        match bytecode {
            Bytecode::Pop => update(StateUpdate::ReleaseValue(args[0]), false),
            Bytecode::StLoc(local) => update(
                StateUpdate::StLoc { offset, local, value: args[0] },
                false,
            ),
            Bytecode::WriteRef => update(
                StateUpdate::WriteRef { offset, id: args[0]->Reference_0 },
                false,
            ),
            Bytecode::Abort => update(StateUpdate::Abort, false),
            Bytecode::MoveTo(_) | Bytecode::MoveToGeneric(_) => update(
                StateUpdate::ReleaseValue(args[1]),
                false,
            ),
            Bytecode::VecLen(_) => update(
                StateUpdate::VectorOp { offset, vector: args[0], mutable: false },
                true,
            ),
            Bytecode::VecPopBack(_) => update(
                StateUpdate::VectorOp { offset, vector: args[0], mutable: true },
                true,
            ),
            Bytecode::VecPushBack(_) => update(
                StateUpdate::VectorOp { offset, vector: args[1], mutable: true },
                false,
            ),
            Bytecode::VecSwap(_) => update(
                StateUpdate::VectorOp { offset, vector: args[2], mutable: true },
                false,
            ),
            Bytecode::CopyLoc(local) => ActionView::Query(StateQuery::CopyLoc { offset, local }),
            Bytecode::MoveLoc(local) => ActionView::Query(StateQuery::MoveLoc { offset, local }),
            Bytecode::FreezeRef => ActionView::Query(
                StateQuery::FreezeRef { offset, id: args[0]->Reference_0 },
            ),
            Bytecode::Eq | Bytecode::Neq => ActionView::Query(
                StateQuery::Comparison { offset, first: args[0], second: args[1] },
            ),
            Bytecode::ReadRef => ActionView::Query(
                StateQuery::ReadRef { offset, id: args[0]->Reference_0 },
            ),
            Bytecode::MutBorrowLoc(local) => ActionView::Query(
                StateQuery::BorrowLoc { offset, mutable: true, local },
            ),
            Bytecode::ImmBorrowLoc(local) => ActionView::Query(
                StateQuery::BorrowLoc { offset, mutable: false, local },
            ),
            Bytecode::MutBorrowField(field) => borrow_field(offset, true, args[0], field),
            Bytecode::MutBorrowFieldGeneric(idx) => borrow_field(
                offset,
                true,
                args[0],
                self.resolver.field_instantiation(idx).handle,
            ),
            Bytecode::ImmBorrowField(field) => borrow_field(offset, false, args[0], field),
            Bytecode::ImmBorrowFieldGeneric(idx) => borrow_field(
                offset,
                false,
                args[0],
                self.resolver.field_instantiation(idx).handle,
            ),
            Bytecode::MutBorrowGlobal(_) | Bytecode::MutBorrowGlobalGeneric(_) =>
                ActionView::Query(
                StateQuery::BorrowGlobal {
                    offset,
                    mutable: true,
                    resource: self.struct_index(bytecode),
                },
            ),
            Bytecode::ImmBorrowGlobal(_) | Bytecode::ImmBorrowGlobalGeneric(_) =>
                ActionView::Query(
                StateQuery::BorrowGlobal {
                    offset,
                    mutable: false,
                    resource: self.struct_index(bytecode),
                },
            ),
            Bytecode::MoveFrom(_) | Bytecode::MoveFromGeneric(_) => ActionView::Query(
                StateQuery::MoveFrom { offset, resource: self.struct_index(bytecode) },
            ),
            Bytecode::Ret => ActionView::Return { offset, values: args.reverse() },
            Bytecode::Call(_) | Bytecode::CallGeneric(_) => self.call_of(
                self.callee(bytecode),
                offset,
                args,
            ),
            Bytecode::VecImmBorrow(_) => borrow_element(offset, args[1], false),
            Bytecode::VecMutBorrow(_) => borrow_element(offset, args[1], true),
            _ => ActionView::Done,
        }
    }

    /// Whether an instruction is refused in a script before its operands are looked at.
    pub open spec fn refused_first(self, bytecode: Bytecode) -> bool {
        self.resolver.is_script() && match bytecode {
            Bytecode::MutBorrowFieldGeneric(_) | Bytecode::ImmBorrowFieldGeneric(_)
            | Bytecode::Pack(_) | Bytecode::PackGeneric(_) | Bytecode::Unpack(_)
            | Bytecode::UnpackGeneric(_) => true,
            _ => false,
        }
    }

    /// Whether an instruction is refused in a script once its operands are popped.
    pub open spec fn refused_last(self, bytecode: Bytecode) -> bool {
        self.resolver.is_script() && match bytecode {
            Bytecode::MutBorrowGlobalGeneric(_) | Bytecode::ImmBorrowGlobalGeneric(_)
            | Bytecode::MoveFromGeneric(_) => true,
            Bytecode::Call(_) | Bytecode::CallGeneric(_) => self.looks_up_definition(
                self.callee(bytecode),
            ),
            _ => false,
        }
    }

    /// A function can be called: the arguments are on the stack, and what its handle refers to
    /// exists.
    pub open spec fn callable(self, stack: Seq<AbstractValue>, handle: FunctionHandle) -> bool {
        let def = self.name_def_map[handle.name];
        &&& handle.parameters < self.resolver.signatures@.len()
        &&& !(self.looks_up_definition(handle) && self.resolver.is_script()) ==> handle.return_
            < self.resolver.signatures@.len()
        &&& self.parameter_count(handle) <= stack.len()
        &&& self.looks_up_definition(handle) && !self.resolver.is_script() ==> {
            &&& self.resolver.has_function_def(def)
            &&& self.resolver.function_def(def).function < self.resolver.function_handles@.len()
        }
    }

    /// An instruction can be executed: each index that it reads is within its table, and a call
    /// finds its arguments on the stack.
    pub open spec fn executable(self, stack: Seq<AbstractValue>, bytecode: Bytecode) -> bool {
        match bytecode {
            Bytecode::Call(idx) => {
                &&& idx < self.resolver.function_handles@.len()
                &&& self.callable(stack, self.callee(bytecode))
            },
            Bytecode::CallGeneric(idx) => {
                &&& idx < self.resolver.function_instantiations@.len()
                &&& self.callee_index(bytecode) < self.resolver.function_handles@.len()
                &&& self.callable(stack, self.callee(bytecode))
            },
            Bytecode::MutBorrowFieldGeneric(idx) | Bytecode::ImmBorrowFieldGeneric(idx) =>
                self.resolver.has_field_instantiation(idx),
            Bytecode::Pack(idx) | Bytecode::Unpack(idx) => self.resolver.has_struct_def(idx),
            Bytecode::PackGeneric(idx) | Bytecode::UnpackGeneric(idx) => {
                &&& self.resolver.has_struct_instantiation(idx)
                &&& self.resolver.has_struct_def(self.struct_index(bytecode))
            },
            Bytecode::MutBorrowGlobalGeneric(idx) | Bytecode::ImmBorrowGlobalGeneric(idx)
            | Bytecode::MoveFromGeneric(idx) => stack.len() > 0 && stack.last() is NonReference
                ==> self.resolver.has_struct_instantiation(idx),
            _ => true,
        }
    }

    /// The stack that is left when the operands do not fit. The elements of a vector are popped
    /// together, all others one by one.
    pub open spec fn misfitted(
        self,
        stack: Seq<AbstractValue>,
        bytecode: Bytecode,
    ) -> Seq<AbstractValue> {
        match bytecode {
            Bytecode::VecPack(_, n) => if top_equal(stack, n as nat) {
                under(stack, n as nat)
            } else {
                stack
            },
            _ => stopped(stack, self.operands(bytecode)),
        }
    }

    /// The first half of an instruction: the stack once its operands are popped and, if it needs
    /// no reply, its results pushed; and what is left to do, or the error.
    pub open spec fn begun(
        self,
        stack: Seq<AbstractValue>,
        bytecode: Bytecode,
        offset: CodeOffset,
    ) -> (Seq<AbstractValue>, PartialVMResult<ActionView>) {
        let n = self.operands(bytecode).len();
        let rest = under(stack, n);
        if self.refused_first(bytecode) {
            (stack, Err(PartialVMError::in_script()))
        } else if !operands_fit(stack, self.operands(bytecode)) {
            (self.misfitted(stack, bytecode), Err(PartialVMError::invariant_violation()))
        } else if self.refused_last(bytecode) {
            (rest, Err(PartialVMError::in_script()))
        } else {
            match self.own_pushes(bytecode) {
                Some(k) => done_with(rest, k),
                None => (rest, Ok(self.request(bytecode, offset, popped(stack, n)))),
            }
        }
    }

    /// The first half of an instruction leaves the stack `after` and ends in `res`.
    pub open spec fn begins(
        self,
        stack: Seq<AbstractValue>,
        bytecode: Bytecode,
        offset: CodeOffset,
        after: Seq<AbstractValue>,
        res: PartialVMResult<ActionView>,
    ) -> bool {
        (after, res) == self.begun(stack, bytecode, offset)
    }
}

/// Operands that fit up to position `k`, and not there, stop at `k`.
pub(crate) proof fn lemma_stops_at(stack: Seq<AbstractValue>, demands: Seq<Operand>, k: nat)
    requires
        k < demands.len(),
        k <= stack.len(),
        forall|j: int| 0 <= j < k ==> (#[trigger] demands[j]).admits(stack[stack.len() - 1 - j]),
        k < stack.len() ==> !demands[k as int].admits(stack[stack.len() - 1 - k]),
    ensures
        !operands_fit(stack, demands),
        first_misfit(stack, demands, 0) == k,
        stopped(stack, demands) == under(
            stack,
            if k < stack.len() {
                k + 1
            } else {
                k
            },
        ),
{
    lemma_stops_from(stack, demands, k, 0);
}

proof fn lemma_stops_from(stack: Seq<AbstractValue>, demands: Seq<Operand>, k: nat, i: nat)
    requires
        i <= k < demands.len(),
        k <= stack.len(),
        forall|j: int| 0 <= j < k ==> (#[trigger] demands[j]).admits(stack[stack.len() - 1 - j]),
        k < stack.len() ==> !demands[k as int].admits(stack[stack.len() - 1 - k]),
    ensures
        first_misfit(stack, demands, i) == k,
    decreases k - i,
{
    if i < k {
        assert(demands[i as int].admits(stack[stack.len() - 1 - i]));
        lemma_stops_from(stack, demands, k, i + 1);
    }
}

/// How a single operand is popped.
pub(crate) proof fn lemma_one_operand(stack: Seq<AbstractValue>, a: Operand)
    ensures
        operands_fit(stack, seq![a]) <==> stack.len() >= 1 && a.admits(stack.last()),
        !operands_fit(stack, seq![a]) && stack.len() == 0 ==> stopped(stack, seq![a]) == stack,
        !operands_fit(stack, seq![a]) && stack.len() >= 1 ==> stopped(stack, seq![a]) == under(
            stack,
            1,
        ),
{
    let demands = seq![a];
    assert(demands[0] == a);
    if stack.len() == 0 || !a.admits(stack.last()) {
        lemma_stops_at(stack, demands, 0);
        assert(stack.len() == 0 ==> under(stack, 0) == stack);
    }
}

/// How two operands are popped.
pub(crate) proof fn lemma_two_operands(stack: Seq<AbstractValue>, a: Operand, b: Operand)
    ensures
        operands_fit(stack, seq![a, b]) <==> stack.len() >= 2 && a.admits(stack.last())
            && b.admits(stack[stack.len() - 2]),
        stack.len() == 0 ==> stopped(stack, seq![a, b]) == stack,
        stack.len() >= 1 && (stack.len() == 1 || !a.admits(stack.last())) ==> stopped(
            stack,
            seq![a, b],
        ) == under(stack, 1),
        stack.len() >= 2 && a.admits(stack.last()) && !b.admits(stack[stack.len() - 2])
            ==> stopped(stack, seq![a, b]) == under(stack, 2),
        stack.len() >= 2 ==> under(under(stack, 1), 1) == under(stack, 2) && under(
            stack,
            1,
        ).last() == stack[stack.len() - 2],
{
    let demands = seq![a, b];
    assert(demands[0] == a && demands[1] == b);
    if stack.len() == 0 || !a.admits(stack.last()) {
        lemma_stops_at(stack, demands, 0);
        assert(stack.len() == 0 ==> under(stack, 0) == stack);
    } else if stack.len() == 1 || !b.admits(stack[stack.len() - 2]) {
        lemma_stops_at(stack, demands, 1);
    }
    if stack.len() >= 2 {
        assert(under(under(stack, 1), 1) == under(stack, 2));
    }
}

/// How three operands are popped.
pub(crate) proof fn lemma_three_operands(
    stack: Seq<AbstractValue>,
    a: Operand,
    b: Operand,
    c: Operand,
)
    ensures
        operands_fit(stack, seq![a, b, c]) <==> stack.len() >= 3 && a.admits(stack.last())
            && b.admits(stack[stack.len() - 2]) && c.admits(stack[stack.len() - 3]),
        stack.len() == 0 ==> stopped(stack, seq![a, b, c]) == stack,
        stack.len() >= 1 && (stack.len() == 1 || !a.admits(stack.last())) ==> stopped(
            stack,
            seq![a, b, c],
        ) == under(stack, 1),
        stack.len() >= 2 && a.admits(stack.last()) && (stack.len() == 2 || !b.admits(
            stack[stack.len() - 2],
        )) ==> stopped(stack, seq![a, b, c]) == under(stack, 2),
        stack.len() >= 3 && a.admits(stack.last()) && b.admits(stack[stack.len() - 2])
            && !c.admits(stack[stack.len() - 3]) ==> stopped(stack, seq![a, b, c]) == under(
            stack,
            3,
        ),
        stack.len() >= 2 ==> under(under(stack, 1), 1) == under(stack, 2) && under(
            stack,
            1,
        ).last() == stack[stack.len() - 2],
        stack.len() >= 3 ==> under(under(stack, 2), 1) == under(stack, 3) && under(
            stack,
            2,
        ).last() == stack[stack.len() - 3],
{
    let demands = seq![a, b, c];
    assert(demands[0] == a && demands[1] == b && demands[2] == c);
    if stack.len() == 0 || !a.admits(stack.last()) {
        lemma_stops_at(stack, demands, 0);
        assert(stack.len() == 0 ==> under(stack, 0) == stack);
    } else if stack.len() == 1 || !b.admits(stack[stack.len() - 2]) {
        lemma_stops_at(stack, demands, 1);
    } else if stack.len() == 2 || !c.admits(stack[stack.len() - 3]) {
        lemma_stops_at(stack, demands, 2);
    }
    if stack.len() >= 2 {
        assert(under(under(stack, 1), 1) == under(stack, 2));
    }
    if stack.len() >= 3 {
        assert(under(under(stack, 2), 1) == under(stack, 3));
    }
}

pub open spec fn update(op: StateUpdate, pushes_value: bool) -> ActionView {
    ActionView::Update { op, pushes_value }
}

pub open spec fn borrow_field(
    offset: CodeOffset,
    mutable: bool,
    parent: AbstractValue,
    field: FieldHandleIndex,
) -> ActionView {
    ActionView::Query(
        StateQuery::BorrowField { offset, mutable, id: parent->Reference_0, field },
    )
}

/// Borrowing an element of a vector is a call that takes the vector and returns a reference.
pub open spec fn borrow_element(
    offset: CodeOffset,
    vector: AbstractValue,
    mutable: bool,
) -> ActionView {
    ActionView::Call(
        CallView {
            offset,
            arguments: seq![vector],
            acquired_resources: Set::empty(),
            return_kinds: seq![ValueKind::Reference(mutable)],
            code: StatusCode::VecBorrowElementExistsMutableBorrowError,
        },
    )
}

} // verus!
