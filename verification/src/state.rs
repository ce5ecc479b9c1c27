//! The meter and the borrow state, which the caller provides, and what their operations return.

use std::collections::BTreeSet;

use vstd::prelude::*;

use crate::action::{CallView, StateCall, StateQuery, StateUpdate};
use crate::binary_view::FunctionView;
use crate::file_format::{CodeOffset, FieldHandleIndex, LocalIndex, StructDefinitionIndex};
use crate::status::{PartialVMResult, StatusCode};
use crate::value::{AbstractValue, RefID, ValueKind};

verus! {

/// The account that a charge is booked on.
#[derive(Clone, Copy, Debug, PartialEq, Eq, Structural)]
pub enum Scope {
    /// The function that is analysed.
    Function,
}

/// What one instruction costs.
#[derive(Clone, Copy, Debug, PartialEq, Eq, Structural)]
pub struct StepCosts {
    pub base: u128,
    /// For each local of the function.
    pub per_local: u128,
    /// For each entry of the sets that the borrow state keeps.
    pub per_collection_item: u128,
}

/// Limits how much work the verification of a module may take.
///
/// Each operation takes the meter and hands it back with its reply. A meter that is changed in
/// place is provided by implementing the trait for a mutable reference to it.
pub trait Meter: Sized {
    /// Charges a number of units; an error ends the verification.
    fn add(self, scope: Scope, units: u128) -> (Self, PartialVMResult<()>);

    /// Charges a number of units for each of a number of items.
    fn add_items(self, scope: Scope, units_per_item: u128, items: usize) -> (
        Self,
        PartialVMResult<()>,
    );
}

/// The borrow state: which reference borrows from which local, field or global, and by which
/// identifier it is known. An operation that would break reference safety is an error.
///
/// Each operation takes the state and hands it back with its reply.
pub trait AbstractState: Sized {
    /// The state in which the body of a function starts.
    fn new(function_view: &FunctionView) -> Self;

    /// How many locals the function has.
    fn local_count(&self) -> usize;

    /// How many entries the sets of references and borrows hold.
    fn total_reference_size(&self) -> usize;

    fn release_value(self, value: AbstractValue) -> Self;

    fn copy_loc(self, offset: CodeOffset, local: LocalIndex) -> (
        Self,
        PartialVMResult<AbstractValue>,
    );

    fn move_loc(self, offset: CodeOffset, local: LocalIndex) -> (
        Self,
        PartialVMResult<AbstractValue>,
    );

    fn st_loc(self, offset: CodeOffset, local: LocalIndex, value: AbstractValue) -> (
        Self,
        PartialVMResult<()>,
    );

    fn freeze_ref(self, offset: CodeOffset, id: RefID) -> (Self, PartialVMResult<AbstractValue>);

    fn comparison(self, offset: CodeOffset, first: AbstractValue, second: AbstractValue) -> (
        Self,
        PartialVMResult<AbstractValue>,
    );

    fn read_ref(self, offset: CodeOffset, id: RefID) -> (Self, PartialVMResult<AbstractValue>);

    fn write_ref(self, offset: CodeOffset, id: RefID) -> (Self, PartialVMResult<()>);

    fn borrow_loc(self, offset: CodeOffset, mutable: bool, local: LocalIndex) -> (
        Self,
        PartialVMResult<AbstractValue>,
    );

    fn borrow_field(
        self,
        offset: CodeOffset,
        mutable: bool,
        id: RefID,
        field: FieldHandleIndex,
    ) -> (Self, PartialVMResult<AbstractValue>);

    fn borrow_global(self, offset: CodeOffset, mutable: bool, resource: StructDefinitionIndex) -> (
        Self,
        PartialVMResult<AbstractValue>,
    );

    fn move_from(self, offset: CodeOffset, resource: StructDefinitionIndex) -> (
        Self,
        PartialVMResult<AbstractValue>,
    );

    /// The effect of a call, which depends on the signature of the callee alone. It may make
    /// charges of its own. `code` is the status to report if an argument is borrowed and must not
    /// be.
    fn call<M: Meter>(
        self,
        offset: CodeOffset,
        arguments: Vec<AbstractValue>,
        acquired_resources: &BTreeSet<StructDefinitionIndex>,
        return_kinds: &Vec<ValueKind>,
        meter: M,
        code: StatusCode,
    ) -> (Self, M, PartialVMResult<Vec<AbstractValue>>);

    /// Reads, or updates if `mutable`, the vector behind a reference.
    fn vector_op(self, offset: CodeOffset, vector: AbstractValue, mutable: bool) -> (
        Self,
        PartialVMResult<()>,
    );

    fn ret(self, offset: CodeOffset, values: Vec<AbstractValue>) -> (Self, PartialVMResult<()>);

    fn abort(self) -> Self;

    /// Renames what the state holds so that equal states at the end of a block are the same.
    fn canonicalize(self) -> Self;
}

/// `state` may reply `r` to an operation without a value and become `after`.
pub open spec fn updates<S: AbstractState>(
    state: S,
    op: StateUpdate,
    r: PartialVMResult<()>,
    after: S,
) -> bool {
    match op {
        StateUpdate::ReleaseValue(value) => call_ensures(S::release_value, (state, value), after)
            && r is Ok,
        StateUpdate::StLoc { offset, local, value } => call_ensures(
            S::st_loc,
            (state, offset, local, value),
            (after, r),
        ),
        StateUpdate::WriteRef { offset, id } => call_ensures(
            S::write_ref,
            (state, offset, id),
            (after, r),
        ),
        StateUpdate::VectorOp { offset, vector, mutable } => call_ensures(
            S::vector_op,
            (state, offset, vector, mutable),
            (after, r),
        ),
        StateUpdate::Abort => call_ensures(S::abort, (state,), after) && r is Ok,
    }
}

/// `state` may reply `r` to an operation with a value and become `after`.
pub open spec fn produces<S: AbstractState>(
    state: S,
    op: StateQuery,
    r: PartialVMResult<AbstractValue>,
    after: S,
) -> bool {
    match op {
        StateQuery::CopyLoc { offset, local } => call_ensures(
            S::copy_loc,
            (state, offset, local),
            (after, r),
        ),
        StateQuery::MoveLoc { offset, local } => call_ensures(
            S::move_loc,
            (state, offset, local),
            (after, r),
        ),
        StateQuery::FreezeRef { offset, id } => call_ensures(
            S::freeze_ref,
            (state, offset, id),
            (after, r),
        ),
        StateQuery::Comparison { offset, first, second } => call_ensures(
            S::comparison,
            (state, offset, first, second),
            (after, r),
        ),
        StateQuery::ReadRef { offset, id } => call_ensures(
            S::read_ref,
            (state, offset, id),
            (after, r),
        ),
        StateQuery::BorrowLoc { offset, mutable, local } => call_ensures(
            S::borrow_loc,
            (state, offset, mutable, local),
            (after, r),
        ),
        StateQuery::BorrowField { offset, mutable, id, field } => call_ensures(
            S::borrow_field,
            (state, offset, mutable, id, field),
            (after, r),
        ),
        StateQuery::BorrowGlobal { offset, mutable, resource } => call_ensures(
            S::borrow_global,
            (state, offset, mutable, resource),
            (after, r),
        ),
        StateQuery::MoveFrom { offset, resource } => call_ensures(
            S::move_from,
            (state, offset, resource),
            (after, r),
        ),
    }
}

/// `state` may reply `r` to the return from the function with `values` and become `after`.
pub open spec fn leaves<S: AbstractState>(
    state: S,
    offset: CodeOffset,
    values: Seq<AbstractValue>,
    r: PartialVMResult<()>,
    after: S,
) -> bool {
    exists|v: Vec<AbstractValue>|
        v@ == values && #[trigger] call_ensures(S::ret, (state, offset, v), (after, r))
}

/// `state` may reply `r` to a call and become `after`, while `meter` becomes `meter_after`.
pub open spec fn calls<S: AbstractState, M: Meter>(
    state: S,
    meter: M,
    call: CallView,
    r: PartialVMResult<Vec<AbstractValue>>,
    after: S,
    meter_after: M,
) -> bool {
    exists|
        arguments: Vec<AbstractValue>,
        acquired_resources: &BTreeSet<StructDefinitionIndex>,
        return_kinds: &Vec<ValueKind>,
    |
        {
            &&& arguments@ == call.arguments
            &&& acquired_resources@ == call.acquired_resources
            &&& return_kinds@ == call.return_kinds
            &&& #[trigger] call_ensures(
                S::call::<M>,
                (
                    state,
                    call.offset,
                    arguments,
                    acquired_resources,
                    return_kinds,
                    meter,
                    call.code,
                ),
                (after, meter_after, r),
            )
        }
}

/// Performs an operation without a value.
pub(crate) fn perform_update<S: AbstractState>(state: S, op: StateUpdate) -> (res: (
    S,
    PartialVMResult<()>,
))
    ensures
        updates(state, op, res.1, res.0),
{
    match op {
        StateUpdate::ReleaseValue(value) => (state.release_value(value), Ok(())),
        StateUpdate::StLoc { offset, local, value } => state.st_loc(offset, local, value),
        StateUpdate::WriteRef { offset, id } => state.write_ref(offset, id),
        StateUpdate::VectorOp { offset, vector, mutable } => state.vector_op(
            offset,
            vector,
            mutable,
        ),
        StateUpdate::Abort => (state.abort(), Ok(())),
    }
}

/// Performs an operation with a value.
pub(crate) fn perform_query<S: AbstractState>(state: S, op: StateQuery) -> (res: (
    S,
    PartialVMResult<AbstractValue>,
))
    ensures
        produces(state, op, res.1, res.0),
{
    match op {
        StateQuery::CopyLoc { offset, local } => state.copy_loc(offset, local),
        StateQuery::MoveLoc { offset, local } => state.move_loc(offset, local),
        StateQuery::FreezeRef { offset, id } => state.freeze_ref(offset, id),
        StateQuery::Comparison { offset, first, second } => state.comparison(
            offset,
            first,
            second,
        ),
        StateQuery::ReadRef { offset, id } => state.read_ref(offset, id),
        StateQuery::BorrowLoc { offset, mutable, local } => state.borrow_loc(
            offset,
            mutable,
            local,
        ),
        StateQuery::BorrowField { offset, mutable, id, field } => state.borrow_field(
            offset,
            mutable,
            id,
            field,
        ),
        StateQuery::BorrowGlobal { offset, mutable, resource } => state.borrow_global(
            offset,
            mutable,
            resource,
        ),
        StateQuery::MoveFrom { offset, resource } => state.move_from(offset, resource),
    }
}

/// Performs a call.
pub(crate) fn perform_call<S: AbstractState, M: Meter>(
    state: S,
    call: StateCall,
    meter: M,
) -> (res: (S, M, PartialVMResult<Vec<AbstractValue>>))
    ensures
        calls(state, meter, call@, res.2, res.0, res.1),
{
    state.call(
        call.offset,
        call.arguments,
        &call.acquired_resources,
        &call.return_kinds,
        meter,
        call.code,
    )
}

} // verus!
