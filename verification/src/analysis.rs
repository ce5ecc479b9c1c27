//! The analysis of a function body, instruction by instruction.

use std::collections::{BTreeSet, HashMap};

use vstd::prelude::*;

use crate::abstract_stack::{repeated, top_equal, AbstractStack};
use crate::action::{Action, ActionView, StateCall, StateQuery, StateUpdate};
use crate::binary_view::{BinaryIndexedView, FunctionView};
use crate::file_format::{
    Bytecode, CodeOffset, FieldHandleIndex, FunctionDefinitionIndex, FunctionHandle,
    FunctionHandleIndex, IdentifierIndex, StructDefinition, StructDefinitionIndex,
    StructFieldInformation,
};
use crate::state::StepCosts;
use crate::status::{PartialVMError, PartialVMResult, StatusCode};
use crate::transfer;
use crate::transfer::{
    done_with, lemma_one_operand, lemma_stops_at, lemma_three_operands, lemma_two_operands, listed,
    operands_fit, popped, pushed, replaced, returned, single, takes, under, updated, Context,
    Operand,
};
use crate::value::{AbstractValue, RefID, ValueKind};

verus! {

/// The analysis of one function body: the tables that it reads, and the operand stack.
pub struct ReferenceSafetyAnalysis<'a> {
    resolver: &'a BinaryIndexedView,
    function_view: &'a FunctionView,
    name_def_map: &'a HashMap<IdentifierIndex, FunctionDefinitionIndex>,
    costs: StepCosts,
    stack: AbstractStack,
}

/// What an instruction may be followed by.
#[derive(Clone, Copy, Debug, PartialEq, Eq, Structural)]
pub enum StepEnd {
    /// The next instruction of the block.
    Continue,
    /// The end of the block: the borrow state is brought into canonical form.
    Canonicalize,
}

impl<'a> View for ReferenceSafetyAnalysis<'a> {
    type V = Seq<AbstractValue>;

    closed spec fn view(&self) -> Seq<AbstractValue> {
        self.stack@
    }
}

/// How many fields a struct declares.
pub fn num_fields(struct_def: &StructDefinition) -> (n: usize)
    ensures
        n == struct_def.field_count(),
{
    match &struct_def.field_information {
        StructFieldInformation::Native => 0,
        StructFieldInformation::Declared(fields) => fields.len(),
    }
}

/// The values in reverse order.
fn reversed(values: Vec<AbstractValue>) -> (res: Vec<AbstractValue>)
    ensures
        res@ == values@.reverse(),
{
    let mut res: Vec<AbstractValue> = Vec::new();
    let n = values.len();
    for i in 0..n
        invariant
            n == values@.len(),
            res@ == values@.reverse().take(i as int),
    {
        res.push(values[n - 1 - i]);
    }
    assert(values@.reverse().take(n as int) == values@.reverse());
    res
}

impl<'a> ReferenceSafetyAnalysis<'a> {
    /// The analysis is well formed. A 64-bit number counts the values on its stack.
    pub open spec fn wf(&self) -> bool {
        &&& self@.len() <= u64::MAX
        &&& self.stack_wf()
    }

    pub closed spec fn stack_wf(&self) -> bool {
        self.stack.wf()
    }

    /// What the analysis reads besides its stack.
    pub closed spec fn context(&self) -> Context {
        Context {
            resolver: *self.resolver,
            function_view: *self.function_view,
            name_def_map: self.name_def_map@,
            costs: self.costs,
        }
    }

    /// An analysis that has executed no instruction: its stack is empty.
    pub fn new(
        resolver: &'a BinaryIndexedView,
        function_view: &'a FunctionView,
        name_def_map: &'a HashMap<IdentifierIndex, FunctionDefinitionIndex>,
        costs: StepCosts,
    ) -> (analysis: ReferenceSafetyAnalysis<'a>)
        ensures
            analysis.wf(),
            analysis@ == Seq::<AbstractValue>::empty(),
            analysis.context() == (Context {
                resolver: *resolver,
                function_view: *function_view,
                name_def_map: name_def_map@,
                costs,
            }),
    {
        ReferenceSafetyAnalysis {
            resolver,
            function_view,
            name_def_map,
            costs,
            stack: AbstractStack::new(),
        }
    }

    /// What an instruction costs.
    pub fn step_costs(&self) -> (costs: StepCosts)
        ensures
            costs == self.context().costs,
    {
        self.costs
    }

    /// Pushes a value.
    pub fn push(&mut self, v: AbstractValue) -> (res: PartialVMResult<()>)
        requires
            old(self).wf(),
        ensures
            final(self).wf(),
            final(self).context() == old(self).context(),
            final(self)@ == pushed(old(self)@, seq![v]).0,
            res == pushed(old(self)@, seq![v]).1,
    {
        proof {
            assert(self@ + seq![v] == self@.push(v));
            assert(self@ + seq![v].take(0) == self@);
        }
        match self.stack.push(v) {
            Ok(()) => Ok(()),
            Err(_) => Err(PartialVMError::new(StatusCode::UnknownInvariantViolationError)),
        }
    }

    /// Pushes `n` copies of a value, or none if there is no room for all.
    pub fn push_n(&mut self, v: AbstractValue, n: u64) -> (res: PartialVMResult<()>)
        requires
            old(self).wf(),
        ensures
            final(self).wf(),
            final(self).context() == old(self).context(),
            old(self)@.len() + n <= u64::MAX ==> res == Ok::<(), PartialVMError>(()) && final(self)@
                == old(self)@ + repeated(v, n as nat),
            old(self)@.len() + n > u64::MAX ==> res == Err::<(), PartialVMError>(
                PartialVMError::invariant_violation(),
            ) && final(self)@ == old(self)@,
    {
        match self.stack.push_n(v, n) {
            Ok(()) => Ok(()),
            Err(_) => Err(PartialVMError::new(StatusCode::UnknownInvariantViolationError)),
        }
    }

    /// The second half of an instruction that returned [`Action::Update`] or [`Action::Return`],
    /// given what the borrow state replied; the latter pushes no value.
    pub fn complete_update(&mut self, pushes_value: bool, reply: PartialVMResult<()>) -> (res:
        PartialVMResult<()>)
        requires
            old(self).wf(),
        ensures
            final(self).wf(),
            final(self).context() == old(self).context(),
            final(self)@ == updated(old(self)@, pushes_value, reply).0,
            res == updated(old(self)@, pushes_value, reply).1,
    {
        reply?;
        if pushes_value {
            self.push(AbstractValue::NonReference)?;
        }
        Ok(())
    }

    /// The second half of an instruction that returned [`Action::Query`], given what the borrow
    /// state replied.
    pub fn complete_query(&mut self, reply: PartialVMResult<AbstractValue>) -> (res:
        PartialVMResult<()>)
        requires
            old(self).wf(),
        ensures
            final(self).wf(),
            final(self).context() == old(self).context(),
            final(self)@ == returned(old(self)@, single(reply)).0,
            res == returned(old(self)@, single(reply)).1,
    {
        let value = reply?;
        self.push(value)
    }

    /// The second half of an instruction that returned [`Action::Call`], given what the borrow
    /// state replied.
    pub fn complete_call(&mut self, reply: PartialVMResult<Vec<AbstractValue>>) -> (res:
        PartialVMResult<()>)
        requires
            old(self).wf(),
        ensures
            final(self).wf(),
            final(self).context() == old(self).context(),
            final(self)@ == returned(old(self)@, listed(reply)).0,
            res == returned(old(self)@, listed(reply)).1,
    {
        let values = reply?;
        let ghost stack = self@;
        assert(stack + values@.take(0) == stack);
        for i in 0..values.len()
            invariant
                self.wf(),
                self.context() == old(self).context(),
                stack == old(self)@,
                reply == Ok::<Vec<AbstractValue>, PartialVMError>(values),
                stack.len() + i <= u64::MAX,
                self@ == stack + values@.take(i as int),
        {
            proof {
                let next = seq![values@[i as int]];
                assert(self@ + next == stack + values@.take(i + 1));
                assert(self@ + next.take(0) == self@);
                assert(stack.len() + i == u64::MAX ==> u64::MAX - stack.len() == i);
            }
            self.push(values[i])?;
        }
        assert(values@.take(values@.len() as int) == values@);
        Ok(())
    }

    /// The end of an instruction, given the result of its two halves: at the end of a block
    /// nothing may be left on the stack.
    pub fn end_step(
        &self,
        inner: PartialVMResult<()>,
        index: CodeOffset,
        last_index: CodeOffset,
    ) -> (res: PartialVMResult<StepEnd>)
        requires
            self.wf(),
        ensures
            res == match inner {
                Err(e) => Err(e),
                Ok(()) => if index != last_index {
                    Ok(StepEnd::Continue)
                } else if self@.len() == 0 {
                    Ok(StepEnd::Canonicalize)
                } else {
                    Err(PartialVMError::invariant_violation())
                },
            },
    {
        inner?;
        if index == last_index {
            if !self.stack.is_empty() {
                return Err(PartialVMError::new(StatusCode::UnknownInvariantViolationError));
            }
            return Ok(StepEnd::Canonicalize);
        }
        Ok(StepEnd::Continue)
    }

    /// Whether an instruction can be executed.
    pub fn is_executable(&self, bytecode: &Bytecode) -> (b: bool)
        requires
            self.wf(),
        ensures
            b <==> self.context().executable(self@, *bytecode),
    {
        match bytecode {
            Bytecode::Call(idx) => self.is_callable(*idx),
            Bytecode::CallGeneric(idx) => (*idx as usize)
                < self.resolver.function_instantiations.len() && self.is_callable(
                self.resolver.function_instantiations[*idx as usize].handle,
            ),
            Bytecode::MutBorrowFieldGeneric(idx) | Bytecode::ImmBorrowFieldGeneric(idx) => {
                match &self.resolver.definitions {
                    Some(definitions) => (*idx as usize) < definitions.field_instantiations.len(),
                    None => true,
                }
            },
            Bytecode::Pack(idx) | Bytecode::Unpack(idx) => {
                match &self.resolver.definitions {
                    Some(definitions) => (*idx as usize) < definitions.struct_defs.len(),
                    None => true,
                }
            },
            Bytecode::PackGeneric(idx) | Bytecode::UnpackGeneric(idx) => {
                match &self.resolver.definitions {
                    Some(definitions) => (*idx as usize) < definitions.struct_instantiations.len()
                        && (definitions.struct_instantiations[*idx as usize].def as usize)
                        < definitions.struct_defs.len(),
                    None => true,
                }
            },
            Bytecode::MutBorrowGlobalGeneric(idx)
            | Bytecode::ImmBorrowGlobalGeneric(idx)
            | Bytecode::MoveFromGeneric(idx) => {
                match (self.stack.last(), &self.resolver.definitions) {
                    (Some(AbstractValue::NonReference), Some(definitions)) => (*idx as usize)
                        < definitions.struct_instantiations.len(),
                    _ => true,
                }
            },
            _ => true,
        }
    }

    /// Whether the function of a handle can be called.
    fn is_callable(&self, idx: FunctionHandleIndex) -> (b: bool)
        requires
            self.wf(),
        ensures
            b <==> idx < self.context().resolver.function_handles@.len()
                && self.context().callable(
                self@,
                self.context().resolver.function_handles@[idx as int],
            ),
    {
        broadcast use vstd::std_specs::hash::group_hash_axioms;

        let resolver = self.resolver;
        if (idx as usize) >= resolver.function_handles.len() {
            return false;
        }
        let handle = &resolver.function_handles[idx as usize];
        if (handle.parameters as usize) >= resolver.signatures.len() {
            return false;
        }
        if (resolver.signatures[handle.parameters as usize].len() as u64) > self.stack.len() {
            return false;
        }
        let has_return = (handle.return_ as usize) < resolver.signatures.len();
        match (self.name_def_map.get(&handle.name), &resolver.definitions) {
            (Some(def), Some(definitions)) => has_return && (*def as usize)
                < definitions.function_defs.len() && (
            definitions.function_defs[*def as usize].function as usize)
                < resolver.function_handles.len(),
            (Some(_), None) => true,
            (None, _) => has_return,
        }
    }

    /// Pushes `n` values that are no references, after which the instruction is done.
    fn push_values(&mut self, n: u64) -> (res: PartialVMResult<Action>)
        requires
            old(self).wf(),
        ensures
            final(self).wf(),
            final(self).context() == old(self).context(),
            final(self)@ == done_with(old(self)@, n as nat).0,
            viewed(res) == done_with(old(self)@, n as nat).1,
    {
        self.push_n(AbstractValue::NonReference, n)?;
        Ok(Action::Done)
    }

    /// Pops a value.
    fn pop(&mut self) -> (res: PartialVMResult<AbstractValue>)
        requires
            old(self).wf(),
        ensures
            final(self).wf(),
            final(self).context() == old(self).context(),
            old(self)@.len() > 0 ==> res == Ok::<AbstractValue, PartialVMError>(old(self)@.last())
                && final(self)@ == under(old(self)@, 1),
            old(self)@.len() == 0 ==> res == Err::<AbstractValue, PartialVMError>(
                PartialVMError::invariant_violation(),
            ) && final(self)@ == old(self)@,
    {
        match self.stack.pop() {
            Ok(v) => Ok(v),
            Err(_) => Err(PartialVMError::new(StatusCode::UnknownInvariantViolationError)),
        }
    }

    /// Pops a value that must not be a reference.
    fn pop_value(&mut self) -> (res: PartialVMResult<()>)
        requires
            old(self).wf(),
        ensures
            final(self).wf(),
            final(self).context() == old(self).context(),
            old(self)@.len() > 0 ==> final(self)@ == under(old(self)@, 1) && res == (if old(
                self,
            )@.last() is NonReference {
                Ok::<(), PartialVMError>(())
            } else {
                Err(PartialVMError::invariant_violation())
            }),
            old(self)@.len() == 0 ==> res == Err::<(), PartialVMError>(
                PartialVMError::invariant_violation(),
            ) && final(self)@ == old(self)@,
    {
        if self.pop()?.is_value() {
            Ok(())
        } else {
            Err(PartialVMError::new(StatusCode::UnknownInvariantViolationError))
        }
    }

    /// Pops a reference.
    fn pop_reference(&mut self) -> (res: PartialVMResult<RefID>)
        requires
            old(self).wf(),
        ensures
            final(self).wf(),
            final(self).context() == old(self).context(),
            old(self)@.len() > 0 ==> final(self)@ == under(old(self)@, 1) && res == (match old(
                self,
            )@.last() {
                AbstractValue::Reference(id) => Ok::<RefID, PartialVMError>(id),
                AbstractValue::NonReference => Err(PartialVMError::invariant_violation()),
            }),
            old(self)@.len() == 0 ==> res == Err::<RefID, PartialVMError>(
                PartialVMError::invariant_violation(),
            ) && final(self)@ == old(self)@,
    {
        match self.pop()?.ref_id() {
            Some(id) => Ok(id),
            None => Err(PartialVMError::new(StatusCode::UnknownInvariantViolationError)),
        }
    }

    /// Pops `n` values and returns them as they are popped, the top one first.
    fn pop_n(&mut self, n: usize) -> (res: PartialVMResult<Vec<AbstractValue>>)
        requires
            old(self).wf(),
        ensures
            final(self).wf(),
            final(self).context() == old(self).context(),
            res is Ok <==> n <= old(self)@.len(),
            res matches Ok(values) ==> values@ == popped(old(self)@, n as nat) && final(self)@
                == under(old(self)@, n as nat),
            res matches Err(e) ==> e == PartialVMError::invariant_violation() && final(self)@
                == under(old(self)@, old(self)@.len()),
    {
        let ghost stack = self@;
        let mut values: Vec<AbstractValue> = Vec::new();
        proof {
            assert(under(stack, 0) == stack);
        }
        for i in 0..n
            invariant
                self.wf(),
                self.context() == old(self).context(),
                stack == old(self)@,
                i <= stack.len(),
                self@ == under(stack, i as nat),
                values@ == popped(stack, i as nat),
        {
            proof {
                if i < stack.len() {
                    assert(under(under(stack, i as nat), 1) == under(stack, (i + 1) as nat));
                    assert(popped(stack, i as nat).push(stack[stack.len() - 1 - i]) == popped(
                        stack,
                        (i + 1) as nat,
                    ));
                }
            }
            values.push(self.pop()?);
        }
        Ok(values)
    }

    /// Takes an operand of any kind.
    fn take_any(&mut self) -> (res: PartialVMResult<AbstractValue>)
        requires
            old(self).wf(),
        ensures
            final(self).wf(),
            final(self).context() == old(self).context(),
            takes(old(self)@, seq![Operand::Any], final(self)@, res, popped(old(self)@, 1)[0]),
    {
        proof {
            lemma_one_operand(self@, Operand::Any);
        }
        self.pop()
    }

    /// Takes an operand that must not be a reference.
    fn take_value(&mut self) -> (res: PartialVMResult<()>)
        requires
            old(self).wf(),
        ensures
            final(self).wf(),
            final(self).context() == old(self).context(),
            takes(old(self)@, seq![Operand::Value], final(self)@, res, ()),
    {
        proof {
            lemma_one_operand(self@, Operand::Value);
        }
        self.pop_value()
    }

    /// Takes an operand that must be a reference.
    fn take_reference(&mut self) -> (res: PartialVMResult<RefID>)
        requires
            old(self).wf(),
        ensures
            final(self).wf(),
            final(self).context() == old(self).context(),
            takes(
                old(self)@,
                seq![Operand::Reference],
                final(self)@,
                res,
                popped(old(self)@, 1)[0]->Reference_0,
            ),
    {
        proof {
            lemma_one_operand(self@, Operand::Reference);
        }
        self.pop_reference()
    }

    /// Takes two operands of any kind, the top one first.
    fn take_two(&mut self) -> (res: PartialVMResult<(AbstractValue, AbstractValue)>)
        requires
            old(self).wf(),
        ensures
            final(self).wf(),
            final(self).context() == old(self).context(),
            takes(
                old(self)@,
                seq![Operand::Any, Operand::Any],
                final(self)@,
                res,
                (popped(old(self)@, 2)[0], popped(old(self)@, 2)[1]),
            ),
    {
        proof {
            lemma_two_operands(self@, Operand::Any, Operand::Any);
        }
        let first = self.pop()?;
        let second = self.pop()?;
        Ok((first, second))
    }

    /// Takes a reference, and under it an operand that must not be one.
    fn take_reference_and_value(&mut self) -> (res: PartialVMResult<RefID>)
        requires
            old(self).wf(),
        ensures
            final(self).wf(),
            final(self).context() == old(self).context(),
            takes(
                old(self)@,
                seq![Operand::Reference, Operand::Value],
                final(self)@,
                res,
                popped(old(self)@, 2)[0]->Reference_0,
            ),
    {
        proof {
            lemma_two_operands(self@, Operand::Reference, Operand::Value);
        }
        let id = self.pop_reference()?;
        self.pop_value()?;
        Ok(id)
    }

    /// Takes two operands that must not be references.
    fn take_two_values(&mut self) -> (res: PartialVMResult<()>)
        requires
            old(self).wf(),
        ensures
            final(self).wf(),
            final(self).context() == old(self).context(),
            takes(old(self)@, seq![Operand::Value, Operand::Value], final(self)@, res, ()),
    {
        proof {
            lemma_two_operands(self@, Operand::Value, Operand::Value);
        }
        self.pop_value()?;
        self.pop_value()
    }

    /// Takes an operand that must not be a reference, and under it one of any kind.
    fn take_value_and_any(&mut self) -> (res: PartialVMResult<AbstractValue>)
        requires
            old(self).wf(),
        ensures
            final(self).wf(),
            final(self).context() == old(self).context(),
            takes(
                old(self)@,
                seq![Operand::Value, Operand::Any],
                final(self)@,
                res,
                popped(old(self)@, 2)[1],
            ),
    {
        proof {
            lemma_two_operands(self@, Operand::Value, Operand::Any);
        }
        self.pop_value()?;
        self.pop()
    }

    /// Takes two operands that must not be references, and under them one of any kind.
    fn take_two_values_and_any(&mut self) -> (res: PartialVMResult<AbstractValue>)
        requires
            old(self).wf(),
        ensures
            final(self).wf(),
            final(self).context() == old(self).context(),
            takes(
                old(self)@,
                seq![Operand::Value, Operand::Value, Operand::Any],
                final(self)@,
                res,
                popped(old(self)@, 3)[2],
            ),
    {
        proof {
            lemma_three_operands(self@, Operand::Value, Operand::Value, Operand::Any);
        }
        self.pop_value()?;
        self.pop_value()?;
        self.pop()
    }

    /// Pops `n` equal values that must not be references.
    fn pop_equal_values(&mut self, n: u64) -> (res: PartialVMResult<()>)
        requires
            old(self).wf(),
            n > 0,
        ensures
            final(self).wf(),
            final(self).context() == old(self).context(),
            final(self)@ == (if top_equal(old(self)@, n as nat) {
                under(old(self)@, n as nat)
            } else {
                old(self)@
            }),
            res == (if top_equal(old(self)@, n as nat) && old(self)@.last() is NonReference {
                Ok::<(), PartialVMError>(())
            } else {
                Err(PartialVMError::invariant_violation())
            }),
    {
        match self.stack.pop_eq_n(n) {
            Ok(v) => if v.is_value() {
                Ok(())
            } else {
                Err(PartialVMError::new(StatusCode::UnknownInvariantViolationError))
            },
            Err(_) => Err(PartialVMError::new(StatusCode::UnknownInvariantViolationError)),
        }
    }

    /// Pops a reference and states the borrow of a field behind it.
    fn borrow_field(
        &mut self,
        offset: CodeOffset,
        mutable: bool,
        field: FieldHandleIndex,
    ) -> (res: PartialVMResult<Action>)
        requires
            old(self).wf(),
        ensures
            final(self).wf(),
            final(self).context() == old(self).context(),
            takes(
                old(self)@,
                seq![Operand::Reference],
                final(self)@,
                viewed(res),
                transfer::borrow_field(offset, mutable, popped(old(self)@, 1)[0], field),
            ),
    {
        let id = self.take_reference()?;
        Ok(Action::Query(StateQuery::BorrowField { offset, mutable, id, field }))
    }

    /// Pops an index and a vector reference and states the borrow of the element.
    fn borrow_element(&mut self, offset: CodeOffset, mutable: bool) -> (res: PartialVMResult<
        Action,
    >)
        requires
            old(self).wf(),
        ensures
            final(self).wf(),
            final(self).context() == old(self).context(),
            takes(
                old(self)@,
                seq![Operand::Value, Operand::Any],
                final(self)@,
                viewed(res),
                transfer::borrow_element(offset, popped(old(self)@, 2)[1], mutable),
            ),
    {
        let vector = self.take_value_and_any()?;
        let mut arguments: Vec<AbstractValue> = Vec::new();
        arguments.push(vector);
        let mut return_kinds: Vec<ValueKind> = Vec::new();
        return_kinds.push(ValueKind::Reference(mutable));
        assert(arguments@ == seq![vector]);
        assert(return_kinds@ == seq![ValueKind::Reference(mutable)]);
        Ok(
            Action::Call(
                StateCall {
                    offset,
                    arguments,
                    acquired_resources: BTreeSet::new(),
                    return_kinds,
                    code: StatusCode::VecBorrowElementExistsMutableBorrowError,
                },
            ),
        )
    }
}

/// Pops the fields of a struct, which must not be references, and pushes the struct.
pub fn pack(verifier: &mut ReferenceSafetyAnalysis, struct_def: &StructDefinition) -> (res:
    PartialVMResult<Action>)
    requires
        old(verifier).wf(),
    ensures
        final(verifier).wf(),
        final(verifier).context() == old(verifier).context(),
        final(verifier)@ == replaced(
            old(verifier)@,
            Operand::Value.times(struct_def.field_count()),
            1,
        ).0,
        viewed(res) == replaced(
            old(verifier)@,
            Operand::Value.times(struct_def.field_count()),
            1,
        ).1,
{
    let ghost stack = verifier@;
    let ghost demands = Operand::Value.times(struct_def.field_count());
    let n = num_fields(struct_def);
    proof {
        assert(under(stack, 0) == stack);
    }
    for i in 0..n
        invariant
            n == struct_def.field_count(),
            verifier.wf(),
            verifier.context() == old(verifier).context(),
            stack == old(verifier)@,
            demands == Operand::Value.times(struct_def.field_count()),
            i <= stack.len(),
            verifier@ == under(stack, i as nat),
            forall|j: int|
                0 <= j < i ==> (#[trigger] demands[j]).admits(stack[stack.len() - 1 - j]),
    {
        proof {
            if i == stack.len() || stack[stack.len() - 1 - i] is Reference {
                lemma_stops_at(stack, demands, i as nat);
            } else {
                assert(under(under(stack, i as nat), 1) == under(stack, (i + 1) as nat));
            }
        }
        verifier.pop_value()?;
    }
    verifier.push_values(1)
}

/// Pops a struct, which must not be a reference, and pushes its fields.
pub fn unpack(verifier: &mut ReferenceSafetyAnalysis, struct_def: &StructDefinition) -> (res:
    PartialVMResult<Action>)
    requires
        old(verifier).wf(),
    ensures
        final(verifier).wf(),
        final(verifier).context() == old(verifier).context(),
        final(verifier)@ == replaced(
            old(verifier)@,
            seq![Operand::Value],
            struct_def.field_count(),
        ).0,
        viewed(res) == replaced(
            old(verifier)@,
            seq![Operand::Value],
            struct_def.field_count(),
        ).1,
{
    proof {
        lemma_one_operand(verifier@, Operand::Value);
    }
    verifier.pop_value()?;
    verifier.push_values(num_fields(struct_def) as u64)
}

/// Pops the arguments of a function and states the call.
pub fn call(
    verifier: &mut ReferenceSafetyAnalysis,
    offset: CodeOffset,
    function_handle: &FunctionHandle,
) -> (res: PartialVMResult<Action>)
    requires
        old(verifier).wf(),
        old(verifier).context().callable(old(verifier)@, *function_handle),
    ensures
        final(verifier).wf(),
        final(verifier).context() == old(verifier).context(),
        ({
            let context = old(verifier).context();
            let n = context.parameter_count(*function_handle);
            &&& final(verifier)@ == under(old(verifier)@, n)
            &&& res is Err <==> context.resolver.is_script() && context.looks_up_definition(
                *function_handle,
            )
            &&& res matches Ok(action) ==> action@ == context.call_of(
                *function_handle,
                offset,
                popped(old(verifier)@, n),
            )
            &&& res matches Err(e) ==> e == PartialVMError::in_script()
        }),
{
    broadcast use vstd::std_specs::hash::group_hash_axioms;

    let resolver = verifier.resolver;
    let parameters = resolver.signature_at(function_handle.parameters);
    let arguments = verifier.pop_n(parameters.len())?;

    let acquired_resources = match verifier.name_def_map.get(&function_handle.name) {
        Some(idx) => {
            let func_def = resolver.function_def_at(*idx)?;
            let fh = resolver.function_handle_at(func_def.function);
            if function_handle.is_same(fh) {
                collected(&func_def.acquires_global_resources)
            } else {
                BTreeSet::new()
            }
        },
        None => BTreeSet::new(),
    };
    let return_ = resolver.signature_at(function_handle.return_);
    let return_kinds = ValueKind::for_signature(return_);
    Ok(
        Action::Call(
            StateCall {
                offset,
                arguments,
                acquired_resources,
                return_kinds,
                code: StatusCode::CallBorrowedMutableReferenceError,
            },
        ),
    )
}

/// The set of the listed structs.
fn collected(list: &Vec<StructDefinitionIndex>) -> (set: BTreeSet<StructDefinitionIndex>)
    ensures
        set@ == list@.to_set(),
{
    broadcast use vstd::std_specs::btree::group_btree_axioms;

    let mut set: BTreeSet<StructDefinitionIndex> = BTreeSet::new();
    assert(list@.take(0).to_set() == Set::<StructDefinitionIndex>::empty());
    for i in 0..list.len()
        invariant
            set@ == list@.take(i as int).to_set(),
    {
        set.insert(list[i]);
        proof {
            let before = list@.take(i as int);
            let after = list@.take(i + 1);
            assert(after == before.push(list@[i as int]));
            assert forall|x: StructDefinitionIndex| after.to_set().contains(x)
                == before.to_set().insert(list@[i as int]).contains(x) by {
                if before.contains(x) {
                    let k = choose|k: int| 0 <= k < before.len() && before[k] == x;
                    assert(after[k] == x);
                }
                if x == list@[i as int] {
                    assert(after[i as int] == x);
                }
            }
            assert(after.to_set() == before.to_set().insert(list@[i as int]));
        }
    }
    assert(list@.take(list@.len() as int) == list@);
    set
}

/// The model of the result of the first half of an instruction.
pub open spec fn viewed(res: PartialVMResult<Action>) -> PartialVMResult<ActionView> {
    match res {
        Ok(action) => Ok(action@),
        Err(e) => Err(e),
    }
}

/// The first half of an instruction: its operands are popped, and what is left to do is returned.
#[verifier::rlimit(60)]
#[verifier::spinoff_prover]
pub fn begin(
    verifier: &mut ReferenceSafetyAnalysis,
    bytecode: &Bytecode,
    offset: CodeOffset,
) -> (res: PartialVMResult<Action>)
    requires
        old(verifier).wf(),
        old(verifier).context().executable(old(verifier)@, *bytecode),
    ensures
        final(verifier).wf(),
        final(verifier).context() == old(verifier).context(),
        old(verifier).context().begins(
            old(verifier)@,
            *bytecode,
            offset,
            final(verifier)@,
            viewed(res),
        ),
{
    let ghost stack = verifier@;
    let resolver = verifier.resolver;
    proof {
        assert(under(stack, 0) == stack);
    }

    match bytecode {
        Bytecode::Pop => {
            let value = verifier.take_any()?;
            Ok(update(StateUpdate::ReleaseValue(value)))
        },
        Bytecode::CopyLoc(local) => Ok(
            Action::Query(StateQuery::CopyLoc { offset, local: *local }),
        ),
        Bytecode::MoveLoc(local) => Ok(
            Action::Query(StateQuery::MoveLoc { offset, local: *local }),
        ),
        Bytecode::StLoc(local) => {
            let value = verifier.take_any()?;
            Ok(update(StateUpdate::StLoc { offset, local: *local, value }))
        },
        Bytecode::FreezeRef => {
            let id = verifier.take_reference()?;
            Ok(Action::Query(StateQuery::FreezeRef { offset, id }))
        },
        Bytecode::Eq | Bytecode::Neq => {
            let (first, second) = verifier.take_two()?;
            Ok(Action::Query(StateQuery::Comparison { offset, first, second }))
        },
        Bytecode::ReadRef => {
            let id = verifier.take_reference()?;
            Ok(Action::Query(StateQuery::ReadRef { offset, id }))
        },
        Bytecode::WriteRef => {
            let id = verifier.take_reference_and_value()?;
            Ok(update(StateUpdate::WriteRef { offset, id }))
        },
        Bytecode::MutBorrowLoc(local) => Ok(
            Action::Query(StateQuery::BorrowLoc { offset, mutable: true, local: *local }),
        ),
        Bytecode::ImmBorrowLoc(local) => Ok(
            Action::Query(StateQuery::BorrowLoc { offset, mutable: false, local: *local }),
        ),
        Bytecode::MutBorrowField(field) => verifier.borrow_field(offset, true, *field),
        Bytecode::MutBorrowFieldGeneric(field_inst_index) => {
            let field_inst = resolver.field_instantiation_at(*field_inst_index)?;
            verifier.borrow_field(offset, true, field_inst.handle)
        },
        Bytecode::ImmBorrowField(field) => verifier.borrow_field(offset, false, *field),
        Bytecode::ImmBorrowFieldGeneric(field_inst_index) => {
            let field_inst = resolver.field_instantiation_at(*field_inst_index)?;
            verifier.borrow_field(offset, false, field_inst.handle)
        },
        Bytecode::MutBorrowGlobal(idx) => {
            verifier.take_value()?;
            Ok(Action::Query(StateQuery::BorrowGlobal { offset, mutable: true, resource: *idx }))
        },
        Bytecode::MutBorrowGlobalGeneric(idx) => {
            proof {
                lemma_one_operand(stack, Operand::Value);
            }
            verifier.take_value()?;
            let resource = resolver.struct_instantiation_at(*idx)?.def;
            Ok(Action::Query(StateQuery::BorrowGlobal { offset, mutable: true, resource }))
        },
        Bytecode::ImmBorrowGlobal(idx) => {
            verifier.take_value()?;
            Ok(Action::Query(StateQuery::BorrowGlobal { offset, mutable: false, resource: *idx }))
        },
        Bytecode::ImmBorrowGlobalGeneric(idx) => {
            proof {
                lemma_one_operand(stack, Operand::Value);
            }
            verifier.take_value()?;
            let resource = resolver.struct_instantiation_at(*idx)?.def;
            Ok(Action::Query(StateQuery::BorrowGlobal { offset, mutable: false, resource }))
        },
        Bytecode::MoveFrom(idx) => {
            verifier.take_value()?;
            Ok(Action::Query(StateQuery::MoveFrom { offset, resource: *idx }))
        },
        Bytecode::MoveFromGeneric(idx) => {
            proof {
                lemma_one_operand(stack, Operand::Value);
            }
            verifier.take_value()?;
            let resource = resolver.struct_instantiation_at(*idx)?.def;
            Ok(Action::Query(StateQuery::MoveFrom { offset, resource }))
        },
        Bytecode::Call(idx) => {
            let function_handle = resolver.function_handle_at(*idx);
            call(verifier, offset, function_handle)
        },
        Bytecode::CallGeneric(idx) => {
            let func_inst = resolver.function_instantiation_at(*idx);
            let function_handle = resolver.function_handle_at(func_inst.handle);
            call(verifier, offset, function_handle)
        },
        Bytecode::Ret => {
            let n = verifier.function_view.return_().len();
            proof {
                if n > stack.len() {
                    lemma_stops_at(stack, Operand::Any.times(n as nat), stack.len());
                }
            }
            let values = reversed(verifier.pop_n(n)?);
            Ok(Action::Return { offset, values })
        },
        Bytecode::Branch(_)
        | Bytecode::Nop
        | Bytecode::CastU8
        | Bytecode::CastU16
        | Bytecode::CastU32
        | Bytecode::CastU64
        | Bytecode::CastU128
        | Bytecode::CastU256
        | Bytecode::Not
        | Bytecode::Exists(_)
        | Bytecode::ExistsGeneric(_) => verifier.push_values(0),
        Bytecode::BrTrue(_) | Bytecode::BrFalse(_) => {
            verifier.take_value()?;
            verifier.push_values(0)
        },
        Bytecode::Abort => {
            verifier.take_value()?;
            Ok(update(StateUpdate::Abort))
        },
        Bytecode::MoveTo(_) | Bytecode::MoveToGeneric(_) => {
            // The resource, and the reference to the signer.
            let signer = verifier.take_value_and_any()?;
            Ok(update(StateUpdate::ReleaseValue(signer)))
        },
        Bytecode::LdTrue
        | Bytecode::LdFalse
        | Bytecode::LdU8(_)
        | Bytecode::LdU16(_)
        | Bytecode::LdU32(_)
        | Bytecode::LdU64(_)
        | Bytecode::LdU128(_)
        | Bytecode::LdU256(_)
        | Bytecode::LdConst(_) => {
            verifier.push_values(1)
        },
        Bytecode::Add
        | Bytecode::Sub
        | Bytecode::Mul
        | Bytecode::Mod
        | Bytecode::Div
        | Bytecode::BitOr
        | Bytecode::BitAnd
        | Bytecode::Xor
        | Bytecode::Shl
        | Bytecode::Shr
        | Bytecode::Or
        | Bytecode::And
        | Bytecode::Lt
        | Bytecode::Gt
        | Bytecode::Le
        | Bytecode::Ge => {
            verifier.take_two_values()?;
            verifier.push_values(1)
        },
        Bytecode::Pack(idx) => {
            let struct_def = resolver.struct_def_at(*idx)?;
            pack(verifier, struct_def)
        },
        Bytecode::PackGeneric(idx) => {
            let struct_inst = resolver.struct_instantiation_at(*idx)?;
            let struct_def = resolver.struct_def_at(struct_inst.def)?;
            pack(verifier, struct_def)
        },
        Bytecode::Unpack(idx) => {
            let struct_def = resolver.struct_def_at(*idx)?;
            unpack(verifier, struct_def)
        },
        Bytecode::UnpackGeneric(idx) => {
            let struct_inst = resolver.struct_instantiation_at(*idx)?;
            let struct_def = resolver.struct_def_at(struct_inst.def)?;
            unpack(verifier, struct_def)
        },
        Bytecode::VecPack(_, num) => {
            if *num > 0 {
                proof {
                    lemma_equal_values(stack, *num as nat);
                }
                verifier.pop_equal_values(*num)?;
            }
            verifier.push_values(1)
        },
        Bytecode::VecLen(_) => {
            let vector = verifier.take_any()?;
            Ok(
                Action::Update {
                    op: StateUpdate::VectorOp { offset, vector, mutable: false },
                    pushes_value: true,
                },
            )
        },
        Bytecode::VecImmBorrow(_) => verifier.borrow_element(offset, false),
        Bytecode::VecMutBorrow(_) => verifier.borrow_element(offset, true),
        Bytecode::VecPushBack(_) => {
            let vector = verifier.take_value_and_any()?;
            Ok(update(StateUpdate::VectorOp { offset, vector, mutable: true }))
        },
        Bytecode::VecPopBack(_) => {
            let vector = verifier.take_any()?;
            Ok(
                Action::Update {
                    op: StateUpdate::VectorOp { offset, vector, mutable: true },
                    pushes_value: true,
                },
            )
        },
        Bytecode::VecUnpack(_, num) => {
            verifier.take_value()?;
            verifier.push_values(*num)
        },
        Bytecode::VecSwap(_) => {
            let vector = verifier.take_two_values_and_any()?;
            Ok(update(StateUpdate::VectorOp { offset, vector, mutable: true }))
        },
    }
}

/// An operation after which nothing is pushed.
fn update(op: StateUpdate) -> (action: Action)
    ensures
        action@ == transfer::update(op, false),
{
    Action::Update { op, pushes_value: false }
}

/// Values that are no references are all equal.
proof fn lemma_equal_values(stack: Seq<AbstractValue>, n: nat)
    requires
        n > 0,
    ensures
        operands_fit(stack, Operand::Value.times(n)) <==> top_equal(stack, n)
            && stack.last() is NonReference,
{
    let demands = Operand::Value.times(n);
    if operands_fit(stack, demands) {
        assert forall|i: int| stack.len() - n <= i < stack.len() implies stack[i]
            == AbstractValue::NonReference by {
            assert(demands[stack.len() - 1 - i].admits(stack[i]));
        }
    }
    if top_equal(stack, n) && stack.last() is NonReference {
        assert forall|i: int| 0 <= i < demands.len() implies (#[trigger] demands[i]).admits(
            stack[stack.len() - 1 - i],
        ) by {
            assert(stack[stack.len() - 1 - i] == stack[stack.len() - 1]);
        }
    }
}

} // verus!
