//! What the analysis asks of the borrow state.

use std::collections::BTreeSet;

use vstd::prelude::*;

use crate::file_format::{CodeOffset, FieldHandleIndex, LocalIndex, StructDefinitionIndex};
use crate::status::StatusCode;
use crate::value::{AbstractValue, RefID, ValueKind};

verus! {

/// An operation of the borrow state that returns no value.
#[derive(Clone, Copy, Debug, PartialEq, Eq, Structural)]
pub enum StateUpdate {
    /// Drops a value.
    ReleaseValue(AbstractValue),
    /// Stores a value in a local.
    StLoc { offset: CodeOffset, local: LocalIndex, value: AbstractValue },
    /// Writes through a reference.
    WriteRef { offset: CodeOffset, id: RefID },
    /// Reads, or updates if `mutable`, the vector behind a reference.
    VectorOp { offset: CodeOffset, vector: AbstractValue, mutable: bool },
    /// Gives up all that is borrowed.
    Abort,
}

/// An operation of the borrow state that returns one value.
#[derive(Clone, Copy, Debug, PartialEq, Eq, Structural)]
pub enum StateQuery {
    CopyLoc { offset: CodeOffset, local: LocalIndex },
    MoveLoc { offset: CodeOffset, local: LocalIndex },
    FreezeRef { offset: CodeOffset, id: RefID },
    /// Compares two values; `first` was on top of the stack.
    Comparison { offset: CodeOffset, first: AbstractValue, second: AbstractValue },
    ReadRef { offset: CodeOffset, id: RefID },
    BorrowLoc { offset: CodeOffset, mutable: bool, local: LocalIndex },
    BorrowField { offset: CodeOffset, mutable: bool, id: RefID, field: FieldHandleIndex },
    BorrowGlobal { offset: CodeOffset, mutable: bool, resource: StructDefinitionIndex },
    MoveFrom { offset: CodeOffset, resource: StructDefinitionIndex },
}

/// A call, whose effect on the borrow state depends on its signature alone.
#[derive(Debug)]
pub struct StateCall {
    pub offset: CodeOffset,
    /// The arguments as they are popped: the one for the last parameter first.
    pub arguments: Vec<AbstractValue>,
    /// The structs that the callee borrows or moves from global storage.
    pub acquired_resources: BTreeSet<StructDefinitionIndex>,
    /// The kinds of the results.
    pub return_kinds: Vec<ValueKind>,
    /// The status to report if an argument is borrowed and must not be.
    pub code: StatusCode,
}

/// What is left to do for an instruction once its operands are off the stack.
#[derive(Debug)]
pub enum Action {
    /// Nothing.
    Done,
    /// Perform an operation that returns no value; if `pushes_value`, the instruction then pushes
    /// a value that is no reference.
    Update { op: StateUpdate, pushes_value: bool },
    /// Perform an operation whose value is pushed.
    Query(StateQuery),
    /// Return from the function with these values, in the order of its result types.
    Return { offset: CodeOffset, values: Vec<AbstractValue> },
    /// Perform a call whose results are pushed.
    Call(StateCall),
}

/// The model of a [`StateCall`].
#[verifier::ext_equal]
pub ghost struct CallView {
    pub offset: CodeOffset,
    pub arguments: Seq<AbstractValue>,
    pub acquired_resources: Set<StructDefinitionIndex>,
    pub return_kinds: Seq<ValueKind>,
    pub code: StatusCode,
}

/// The model of an [`Action`].
#[verifier::ext_equal]
pub ghost enum ActionView {
    Done,
    Update { op: StateUpdate, pushes_value: bool },
    Query(StateQuery),
    Return { offset: CodeOffset, values: Seq<AbstractValue> },
    Call(CallView),
}

impl View for StateCall {
    type V = CallView;

    open spec fn view(&self) -> CallView {
        CallView {
            offset: self.offset,
            arguments: self.arguments@,
            acquired_resources: self.acquired_resources@,
            return_kinds: self.return_kinds@,
            code: self.code,
        }
    }
}

impl View for Action {
    type V = ActionView;

    open spec fn view(&self) -> ActionView {
        match self {
            Action::Done => ActionView::Done,
            Action::Update { op, pushes_value } => ActionView::Update {
                op: *op,
                pushes_value: *pushes_value,
            },
            Action::Query(op) => ActionView::Query(*op),
            Action::Return { offset, values } => ActionView::Return {
                offset: *offset,
                values: values@,
            },
            Action::Call(call) => ActionView::Call(call@),
        }
    }
}

} // verus!
