use std::cell::RefCell;
use std::collections::{BTreeSet, HashMap};

use reference_safety::analysis::ReferenceSafetyAnalysis;
use reference_safety::binary_view::{BinaryIndexedView, FunctionView, ModuleDefinitions};
use reference_safety::execution::{execute_inner, verify, AbstractInterpreter};
use reference_safety::file_format::{
    AbilitySet, Bytecode, FieldDefinition, FieldInstantiation, FunctionDefinition, FunctionHandle,
    FunctionInstantiation, Signature, SignatureToken, StructDefInstantiation, StructDefinition,
    StructFieldInformation,
};
use reference_safety::state::{AbstractState, Meter, Scope, StepCosts};
use reference_safety::status::{PartialVMError, PartialVMResult, StatusCode};
use reference_safety::value::{AbstractValue, RefID, ValueKind};

const VALUE: AbstractValue = AbstractValue::NonReference;
const COSTS: StepCosts = StepCosts { base: 10, per_local: 20, per_collection_item: 50 };

fn reference(id: u64) -> AbstractValue {
    AbstractValue::Reference(RefID(id))
}

fn error(code: StatusCode) -> PartialVMError {
    PartialVMError::new(code)
}

/// An error as a borrow state may raise it.
fn refusal(code: StatusCode) -> PartialVMError {
    PartialVMError {
        major_status: code,
        sub_status: Some(5),
        message: Some(String::from("still borrowed")),
    }
}

fn invariant_violation() -> PartialVMResult<()> {
    Err(error(StatusCode::UnknownInvariantViolationError))
}

fn in_script() -> PartialVMResult<()> {
    Err(error(StatusCode::InvalidOperationInScript))
}

/// A borrow state that writes down what it is asked and replies what it is told to.
struct Recorder {
    log: Vec<String>,
    value: AbstractValue,
    values: Vec<AbstractValue>,
    failure: Option<StatusCode>,
}

impl Recorder {
    fn quiet() -> Recorder {
        Recorder { log: vec![], value: reference(9), values: vec![], failure: None }
    }

    fn unit(&mut self, entry: String) -> PartialVMResult<()> {
        self.log.push(entry);
        match self.failure {
            Some(code) => Err(refusal(code)),
            None => Ok(()),
        }
    }

    fn one(&mut self, entry: String) -> PartialVMResult<AbstractValue> {
        self.unit(entry)?;
        Ok(self.value)
    }
}

impl AbstractState for Recorder {
    fn new(function_view: &FunctionView) -> Self {
        let mut recorder = Recorder::quiet();
        recorder.log.push(format!("new {}", function_view.locals.len()));
        recorder
    }

    fn local_count(&self) -> usize {
        3
    }

    fn total_reference_size(&self) -> usize {
        7
    }

    fn release_value(mut self, value: AbstractValue) -> Self {
        self.log.push(format!("release {:?}", value));
        self
    }

    fn copy_loc(mut self, offset: u16, local: u8) -> (Self, PartialVMResult<AbstractValue>) {
        let r = self.one(format!("copy_loc {} {}", offset, local));
        (self, r)
    }

    fn move_loc(mut self, offset: u16, local: u8) -> (Self, PartialVMResult<AbstractValue>) {
        let r = self.one(format!("move_loc {} {}", offset, local));
        (self, r)
    }

    fn st_loc(
        mut self,
        offset: u16,
        local: u8,
        value: AbstractValue,
    ) -> (Self, PartialVMResult<()>) {
        let r = self.unit(format!("st_loc {} {} {:?}", offset, local, value));
        (self, r)
    }

    fn freeze_ref(mut self, offset: u16, id: RefID) -> (Self, PartialVMResult<AbstractValue>) {
        let r = self.one(format!("freeze_ref {} {}", offset, id.0));
        (self, r)
    }

    fn comparison(
        mut self,
        offset: u16,
        first: AbstractValue,
        second: AbstractValue,
    ) -> (Self, PartialVMResult<AbstractValue>) {
        let r = self.one(format!("comparison {} {:?} {:?}", offset, first, second));
        (self, r)
    }

    fn read_ref(mut self, offset: u16, id: RefID) -> (Self, PartialVMResult<AbstractValue>) {
        let r = self.one(format!("read_ref {} {}", offset, id.0));
        (self, r)
    }

    fn write_ref(mut self, offset: u16, id: RefID) -> (Self, PartialVMResult<()>) {
        let r = self.unit(format!("write_ref {} {}", offset, id.0));
        (self, r)
    }

    fn borrow_loc(
        mut self,
        offset: u16,
        mutable: bool,
        local: u8,
    ) -> (Self, PartialVMResult<AbstractValue>) {
        let r = self.one(format!("borrow_loc {} {} {}", offset, mutable, local));
        (self, r)
    }

    fn borrow_field(
        mut self,
        offset: u16,
        mutable: bool,
        id: RefID,
        field: u16,
    ) -> (Self, PartialVMResult<AbstractValue>) {
        let r = self.one(format!("borrow_field {} {} {} {}", offset, mutable, id.0, field));
        (self, r)
    }

    fn borrow_global(
        mut self,
        offset: u16,
        mutable: bool,
        resource: u16,
    ) -> (Self, PartialVMResult<AbstractValue>) {
        let r = self.one(format!("borrow_global {} {} {}", offset, mutable, resource));
        (self, r)
    }

    fn move_from(mut self, offset: u16, resource: u16) -> (Self, PartialVMResult<AbstractValue>) {
        let r = self.one(format!("move_from {} {}", offset, resource));
        (self, r)
    }

    fn call<M: Meter>(
        mut self,
        offset: u16,
        arguments: Vec<AbstractValue>,
        acquired_resources: &BTreeSet<u16>,
        return_kinds: &Vec<ValueKind>,
        meter: M,
        code: StatusCode,
    ) -> (Self, M, PartialVMResult<Vec<AbstractValue>>) {
        let r = self.unit(format!(
            "call {} {:?} {:?} {:?} {:?}",
            offset, arguments, acquired_resources, return_kinds, code
        ));
        let (meter, charged) = meter.add(Scope::Function, 1);
        let values = self.values.clone();
        (self, meter, r.and(charged).and(Ok(values)))
    }

    fn vector_op(
        mut self,
        offset: u16,
        vector: AbstractValue,
        mutable: bool,
    ) -> (Self, PartialVMResult<()>) {
        let r = self.unit(format!("vector_op {} {:?} {}", offset, vector, mutable));
        (self, r)
    }

    fn ret(mut self, offset: u16, values: Vec<AbstractValue>) -> (Self, PartialVMResult<()>) {
        let r = self.unit(format!("ret {} {:?}", offset, values));
        (self, r)
    }

    fn abort(mut self) -> Self {
        self.log.push(format!("abort"));
        self
    }

    fn canonicalize(mut self) -> Self {
        self.log.push(format!("canonicalize"));
        self
    }
}

/// A meter that allows a number of charges and writes them down.
struct Budget {
    charges: Vec<(u128, usize)>,
    allowed: usize,
}

impl Budget {
    fn new() -> Budget {
        Budget { charges: vec![], allowed: 1_000_000 }
    }

    fn book(&mut self, units: u128, items: usize) -> PartialVMResult<()> {
        if self.charges.len() == self.allowed {
            return Err(error(StatusCode::Other(1121)));
        }
        self.charges.push((units, items));
        Ok(())
    }
}

impl<'m> Meter for &'m mut Budget {
    fn add(self, scope: Scope, units: u128) -> (Self, PartialVMResult<()>) {
        assert_eq!(scope, Scope::Function);
        let r = self.book(units, 1);
        (self, r)
    }

    fn add_items(
        self,
        scope: Scope,
        units_per_item: u128,
        items: usize,
    ) -> (Self, PartialVMResult<()>) {
        assert_eq!(scope, Scope::Function);
        let r = self.book(units_per_item, items);
        (self, r)
    }
}

fn handle(name: u16, parameters: u16, return_: u16) -> FunctionHandle {
    FunctionHandle { module: 0, name, parameters, return_, type_parameters: vec![AbilitySet(3)] }
}

fn field(name: u16) -> FieldDefinition {
    FieldDefinition { name, signature: SignatureToken::U64 }
}

/// A module with three functions. The first is defined by the module and acquires structs; the
/// second has the name of a defined function but another handle; the third is not defined.
fn module() -> BinaryIndexedView {
    let empty = Signature(vec![]);
    let two = Signature(vec![
        SignatureToken::Reference(Box::new(SignatureToken::U8)),
        SignatureToken::U64,
    ]);
    let results = Signature(vec![
        SignatureToken::MutableReference(Box::new(SignatureToken::Bool)),
        SignatureToken::Reference(Box::new(SignatureToken::Struct(0))),
        SignatureToken::Vector(Box::new(SignatureToken::Address)),
    ]);
    let mut other = handle(1, 0, 0);
    other.type_parameters = vec![AbilitySet(4)];
    BinaryIndexedView {
        signatures: vec![empty, two, results],
        function_handles: vec![handle(0, 1, 2), handle(1, 0, 0), handle(2, 1, 0), other],
        function_instantiations: vec![
            FunctionInstantiation { handle: 2 },
            FunctionInstantiation { handle: 0 },
        ],
        definitions: Some(ModuleDefinitions {
            struct_defs: vec![
                StructDefinition { field_information: StructFieldInformation::Native },
                StructDefinition {
                    field_information: StructFieldInformation::Declared(vec![
                        field(0),
                        field(1),
                        field(2),
                    ]),
                },
            ],
            struct_instantiations: vec![
                StructDefInstantiation { def: 1 },
                StructDefInstantiation { def: 0 },
            ],
            field_instantiations: vec![FieldInstantiation { handle: 77 }],
            function_defs: vec![
                FunctionDefinition {
                    function: 0,
                    acquires_global_resources: vec![5, 1, 5],
                },
                FunctionDefinition { function: 3, acquires_global_resources: vec![4] },
            ],
        }),
    }
}

fn script() -> BinaryIndexedView {
    let mut view = module();
    view.definitions = None;
    view
}

fn function(results: usize) -> FunctionView {
    let mut tokens = vec![];
    for _ in 0..results {
        tokens.push(SignatureToken::Bool);
    }
    FunctionView {
        parameters: Signature(vec![]),
        locals: Signature(vec![SignatureToken::U8, SignatureToken::U8]),
        return_: Signature(tokens),
    }
}

fn names() -> HashMap<u16, u16> {
    HashMap::from([(0, 0), (1, 1)])
}

/// Executes instructions on a stack with the given values, the top one last, and returns the
/// result of the first that fails, what the borrow state was asked, and the stack.
fn run_in(
    view: &BinaryIndexedView,
    start: &[AbstractValue],
    code: &[Bytecode],
    recorder: Recorder,
) -> (PartialVMResult<()>, Vec<String>, Vec<AbstractValue>) {
    let function = function(2);
    let names = names();
    let mut analysis = ReferenceSafetyAnalysis::new(view, &function, &names, COSTS);
    for v in start {
        assert_eq!(analysis.push(*v), Ok(()));
    }
    let mut recorder = recorder;
    let mut budget = Budget::new();
    let mut res = Ok(());
    for (i, bytecode) in code.iter().enumerate() {
        assert!(analysis.is_executable(bytecode));
        let (state, _, r) =
            execute_inner(&mut analysis, recorder, bytecode, i as u16 + 40, &mut budget);
        recorder = state;
        if r.is_err() {
            res = r;
            break;
        }
    }
    let asked = std::mem::take(&mut recorder.log);
    recorder.failure = None;
    let mut stack = vec![];
    loop {
        let (state, _, r) =
            execute_inner(&mut analysis, recorder, &Bytecode::Pop, 0, &mut budget);
        recorder = state;
        match recorder.log.pop() {
            Some(entry) => {
                assert_eq!(r, Ok(()));
                let mut v = VALUE;
                for id in 0..20 {
                    if entry == format!("release {:?}", reference(id)) {
                        v = reference(id);
                    }
                }
                stack.insert(0, v);
            }
            None => {
                assert_eq!(r, invariant_violation());
                return (res, asked, stack);
            }
        }
    }
}

fn run(
    start: &[AbstractValue],
    code: &[Bytecode],
) -> (PartialVMResult<()>, Vec<String>, Vec<AbstractValue>) {
    run_in(&module(), start, code, Recorder::quiet())
}

#[test]
fn charges_come_first() {
    let view = module();
    let function = function(0);
    let names = names();
    let mut analysis = ReferenceSafetyAnalysis::new(&view, &function, &names, COSTS);
    let mut budget = Budget::new();
    let (_, _, r) =
        execute_inner(&mut analysis, Recorder::quiet(), &Bytecode::Nop, 0, &mut budget);
    assert_eq!(r, Ok(()));
    assert_eq!(budget.charges, vec![(10, 1), (20, 3), (50, 7)]);
}

#[test]
fn an_instruction_that_cannot_be_paid_for_changes_nothing() {
    let view = module();
    let function = function(0);
    let names = names();
    for allowed in 0..3 {
        let mut analysis = ReferenceSafetyAnalysis::new(&view, &function, &names, COSTS);
        // What the last two read does not exist.
        for bytecode in [Bytecode::LdTrue, Bytecode::Call(0), Bytecode::Pack(200)] {
            let mut budget = Budget::new();
            budget.allowed = allowed;
            let (recorder, _, r) =
                execute_inner(&mut analysis, Recorder::quiet(), &bytecode, 0, &mut budget);
            assert_eq!(r, Err(error(StatusCode::Other(1121))));
            assert_eq!(budget.charges.len(), allowed);
            assert!(recorder.log.is_empty());
            assert!(analysis.end_step(Ok(()), 1, 1).is_ok());
        }
    }
}

#[test]
fn locals_are_copied_moved_stored_and_borrowed() {
    assert_eq!(
        run(&[], &[Bytecode::CopyLoc(4)]),
        (Ok(()), vec![format!("copy_loc 40 4")], vec![reference(9)])
    );
    assert_eq!(
        run(&[], &[Bytecode::MoveLoc(4)]),
        (Ok(()), vec![format!("move_loc 40 4")], vec![reference(9)])
    );
    assert_eq!(
        run(&[VALUE, reference(2)], &[Bytecode::StLoc(6)]),
        (Ok(()), vec![format!("st_loc 40 6 {:?}", reference(2))], vec![VALUE])
    );
    assert_eq!(
        run(&[], &[Bytecode::MutBorrowLoc(1), Bytecode::ImmBorrowLoc(2)]),
        (
            Ok(()),
            vec![format!("borrow_loc 40 true 1"), format!("borrow_loc 41 false 2")],
            vec![reference(9), reference(9)]
        )
    );
    assert_eq!(run(&[], &[Bytecode::StLoc(0)]), (invariant_violation(), vec![], vec![]));
}

#[test]
fn references_are_frozen_read_and_written() {
    assert_eq!(
        run(&[VALUE, reference(5)], &[Bytecode::FreezeRef]),
        (Ok(()), vec![format!("freeze_ref 40 5")], vec![VALUE, reference(9)])
    );
    assert_eq!(
        run(&[reference(5)], &[Bytecode::ReadRef]),
        (Ok(()), vec![format!("read_ref 40 5")], vec![reference(9)])
    );
    assert_eq!(
        run(&[VALUE, reference(5)], &[Bytecode::WriteRef]),
        (Ok(()), vec![format!("write_ref 40 5")], vec![])
    );
    // A misfit is popped before it is found out.
    assert_eq!(
        run(&[reference(1), VALUE], &[Bytecode::ReadRef]),
        (invariant_violation(), vec![], vec![reference(1)])
    );
    assert_eq!(
        run(&[VALUE, reference(1), reference(5)], &[Bytecode::WriteRef]),
        (invariant_violation(), vec![], vec![VALUE])
    );
    assert_eq!(
        run(&[reference(5)], &[Bytecode::WriteRef]),
        (invariant_violation(), vec![], vec![])
    );
}

#[test]
fn comparisons_take_the_top_value_first() {
    for bytecode in [Bytecode::Eq, Bytecode::Neq] {
        let mut recorder = Recorder::quiet();
        recorder.value = VALUE;
        assert_eq!(
            run_in(&module(), &[reference(1), reference(2)], &[bytecode], recorder),
            (
                Ok(()),
                vec![format!("comparison 40 {:?} {:?}", reference(2), reference(1))],
                vec![VALUE]
            )
        );
    }
}

#[test]
fn fields_and_globals_are_borrowed() {
    assert_eq!(
        run(
            &[reference(1)],
            &[
                Bytecode::MutBorrowField(3),
                Bytecode::MutBorrowFieldGeneric(0),
                Bytecode::ImmBorrowField(4),
                Bytecode::ImmBorrowFieldGeneric(0),
            ]
        ),
        (
            Ok(()),
            vec![
                format!("borrow_field 40 true 1 3"),
                format!("borrow_field 41 true 9 77"),
                format!("borrow_field 42 false 9 4"),
                format!("borrow_field 43 false 9 77"),
            ],
            vec![reference(9)]
        )
    );
    let mut recorder = Recorder::quiet();
    recorder.value = VALUE;
    assert_eq!(
        run_in(
            &module(),
            &[VALUE],
            &[
                Bytecode::MutBorrowGlobal(3),
                Bytecode::MutBorrowGlobalGeneric(0),
                Bytecode::ImmBorrowGlobal(4),
                Bytecode::ImmBorrowGlobalGeneric(1),
                Bytecode::MoveFrom(5),
                Bytecode::MoveFromGeneric(0),
            ],
            recorder
        ),
        (
            Ok(()),
            vec![
                format!("borrow_global 40 true 3"),
                format!("borrow_global 41 true 1"),
                format!("borrow_global 42 false 4"),
                format!("borrow_global 43 false 0"),
                format!("move_from 44 5"),
                format!("move_from 45 1"),
            ],
            vec![VALUE]
        )
    );
    assert_eq!(
        run(&[VALUE, reference(1)], &[Bytecode::MoveFrom(0)]),
        (invariant_violation(), vec![], vec![VALUE])
    );
    assert_eq!(
        run(&[reference(3), VALUE], &[Bytecode::MoveTo(0), Bytecode::Nop]),
        (Ok(()), vec![format!("release {:?}", reference(3))], vec![])
    );
    assert_eq!(
        run(&[reference(3), VALUE], &[Bytecode::MoveToGeneric(0)]),
        (Ok(()), vec![format!("release {:?}", reference(3))], vec![])
    );
    assert_eq!(
        run(&[VALUE], &[Bytecode::MoveTo(0)]),
        (invariant_violation(), vec![], vec![])
    );
}

#[test]
fn a_script_has_no_definitions() {
    let run = |start: &[AbstractValue], bytecode: Bytecode| {
        run_in(&script(), start, &[bytecode], Recorder::quiet())
    };
    // Looked up before the operands are popped.
    for bytecode in [
        Bytecode::MutBorrowFieldGeneric(0),
        Bytecode::ImmBorrowFieldGeneric(0),
        Bytecode::Pack(1),
        Bytecode::PackGeneric(0),
        Bytecode::Unpack(1),
        Bytecode::UnpackGeneric(0),
    ] {
        assert_eq!(run(&[reference(1)], bytecode), (in_script(), vec![], vec![reference(1)]));
        assert_eq!(run(&[], bytecode), (in_script(), vec![], vec![]));
    }
    // Looked up after they are.
    for bytecode in [
        Bytecode::MutBorrowGlobalGeneric(0),
        Bytecode::ImmBorrowGlobalGeneric(0),
        Bytecode::MoveFromGeneric(0),
    ] {
        assert_eq!(run(&[VALUE, VALUE], bytecode), (in_script(), vec![], vec![VALUE]));
        assert_eq!(run(&[reference(1)], bytecode), (invariant_violation(), vec![], vec![]));
    }
    let arguments = [VALUE, reference(1), VALUE];
    assert_eq!(run(&arguments, Bytecode::Call(0)), (in_script(), vec![], vec![VALUE]));
    assert_eq!(run(&arguments, Bytecode::Call(2)).0, Ok(()));
}

#[test]
fn a_callee_that_the_module_defines_acquires_resources() {
    let mut recorder = Recorder::quiet();
    recorder.values = vec![reference(11), reference(12), VALUE];
    assert_eq!(
        run_in(&module(), &[VALUE, reference(1), VALUE], &[Bytecode::Call(0)], recorder),
        (
            Ok(()),
            vec![format!(
                "call 40 {:?} {{1, 5}} {:?} {:?}",
                // As they are popped.
                vec![VALUE, reference(1)],
                vec![
                    ValueKind::Reference(true),
                    ValueKind::Reference(false),
                    ValueKind::NonReference
                ],
                StatusCode::CallBorrowedMutableReferenceError
            )],
            vec![VALUE, reference(11), reference(12), VALUE]
        )
    );
}

#[test]
fn other_callees_acquire_nothing() {
    let no_values: Vec<AbstractValue> = vec![];
    let no_kinds: Vec<ValueKind> = vec![];
    // The name is defined, under another handle.
    assert_eq!(
        run(&[VALUE], &[Bytecode::Call(1)]),
        (
            Ok(()),
            vec![format!(
                "call 40 {:?} {{}} {:?} {:?}",
                no_values,
                no_kinds,
                StatusCode::CallBorrowedMutableReferenceError
            )],
            vec![VALUE]
        )
    );
    // The name is not defined.
    for bytecode in [Bytecode::Call(2), Bytecode::CallGeneric(0)] {
        assert_eq!(
            run(&[VALUE, reference(6), reference(7)], &[bytecode]),
            (
                Ok(()),
                vec![format!(
                    "call 40 {:?} {{}} {:?} {:?}",
                    vec![reference(7), reference(6)],
                    no_kinds,
                    StatusCode::CallBorrowedMutableReferenceError
                )],
                vec![VALUE]
            )
        );
    }
    // The very handle that is defined.
    assert_eq!(
        run(&[], &[Bytecode::Call(3)]).1,
        vec![format!(
            "call 40 {:?} {{4}} {:?} {:?}",
            no_values,
            no_kinds,
            StatusCode::CallBorrowedMutableReferenceError
        )]
    );
}

#[test]
fn values_are_returned_in_order() {
    assert_eq!(
        run(&[VALUE, reference(1), reference(2)], &[Bytecode::Ret]),
        (
            Ok(()),
            vec![format!("ret 40 {:?}", vec![reference(1), reference(2)])],
            vec![VALUE]
        )
    );
    assert_eq!(run(&[VALUE], &[Bytecode::Ret]), (invariant_violation(), vec![], vec![]));
}

#[test]
fn some_instructions_leave_the_stack_alone() {
    for bytecode in [
        Bytecode::Branch(3),
        Bytecode::Nop,
        Bytecode::CastU8,
        Bytecode::CastU16,
        Bytecode::CastU32,
        Bytecode::CastU64,
        Bytecode::CastU128,
        Bytecode::CastU256,
        Bytecode::Not,
        Bytecode::Exists(0),
        Bytecode::ExistsGeneric(0),
    ] {
        assert_eq!(run(&[reference(1)], &[bytecode]), (Ok(()), vec![], vec![reference(1)]));
        assert_eq!(run(&[], &[bytecode]), (Ok(()), vec![], vec![]));
    }
}

#[test]
fn conditional_branches_and_abort_take_a_value() {
    for bytecode in [Bytecode::BrTrue(3), Bytecode::BrFalse(3)] {
        assert_eq!(run(&[reference(1), VALUE], &[bytecode]), (Ok(()), vec![], vec![reference(1)]));
        assert_eq!(run(&[reference(1)], &[bytecode]), (invariant_violation(), vec![], vec![]));
        assert_eq!(run(&[], &[bytecode]), (invariant_violation(), vec![], vec![]));
    }
    assert_eq!(run(&[VALUE], &[Bytecode::Abort]), (Ok(()), vec![format!("abort")], vec![]));
    assert_eq!(run(&[reference(1)], &[Bytecode::Abort]).0, invariant_violation());
}

#[test]
fn loads_push_a_value() {
    for bytecode in [
        Bytecode::LdTrue,
        Bytecode::LdFalse,
        Bytecode::LdU8(1),
        Bytecode::LdU16(1),
        Bytecode::LdU32(1),
        Bytecode::LdU64(1),
        Bytecode::LdU128(1),
        Bytecode::LdU256([1; 32]),
        Bytecode::LdConst(1),
    ] {
        assert_eq!(
            run(&[reference(1)], &[bytecode]),
            (Ok(()), vec![], vec![reference(1), VALUE])
        );
    }
}

#[test]
fn binary_operators_take_two_values() {
    for bytecode in [
        Bytecode::Add,
        Bytecode::Sub,
        Bytecode::Mul,
        Bytecode::Mod,
        Bytecode::Div,
        Bytecode::BitOr,
        Bytecode::BitAnd,
        Bytecode::Xor,
        Bytecode::Shl,
        Bytecode::Shr,
        Bytecode::Or,
        Bytecode::And,
        Bytecode::Lt,
        Bytecode::Gt,
        Bytecode::Le,
        Bytecode::Ge,
    ] {
        assert_eq!(
            run(&[reference(1), VALUE, VALUE], &[bytecode]),
            (Ok(()), vec![], vec![reference(1), VALUE])
        );
        assert_eq!(
            run(&[VALUE, reference(1), VALUE], &[bytecode]),
            (invariant_violation(), vec![], vec![VALUE])
        );
        assert_eq!(run(&[VALUE], &[bytecode]), (invariant_violation(), vec![], vec![]));
    }
}

#[test]
fn structs_are_packed_and_unpacked() {
    for (pack, unpack) in [
        (Bytecode::Pack(1), Bytecode::Unpack(1)),
        (Bytecode::PackGeneric(0), Bytecode::UnpackGeneric(0)),
    ] {
        let fields = [reference(1), VALUE, VALUE, VALUE];
        assert_eq!(run(&fields, &[pack]), (Ok(()), vec![], vec![reference(1), VALUE]));
        assert_eq!(run(&fields, &[pack, unpack]), (Ok(()), vec![], fields.to_vec()));
        assert_eq!(run(&[VALUE], &[unpack]), (Ok(()), vec![], vec![VALUE; 3]));
        assert_eq!(run(&[VALUE], &[unpack, pack]), (Ok(()), vec![], vec![VALUE]));
        assert_eq!(
            run(&[reference(2), reference(1), VALUE], &[pack]),
            (invariant_violation(), vec![], vec![reference(2)])
        );
        assert_eq!(run(&[VALUE, VALUE], &[pack]), (invariant_violation(), vec![], vec![]));
        assert_eq!(run(&[reference(1)], &[unpack]), (invariant_violation(), vec![], vec![]));
    }
    // A native struct has no fields.
    assert_eq!(run(&[], &[Bytecode::Pack(0)]), (Ok(()), vec![], vec![VALUE]));
    assert_eq!(run(&[VALUE], &[Bytecode::Unpack(0)]), (Ok(()), vec![], vec![]));
}

#[test]
fn vectors_are_packed_and_unpacked() {
    assert_eq!(run(&[], &[Bytecode::VecPack(0, 0)]), (Ok(()), vec![], vec![VALUE]));
    assert_eq!(
        run(&[reference(1), VALUE, VALUE], &[Bytecode::VecPack(0, 2)]),
        (Ok(()), vec![], vec![reference(1), VALUE])
    );
    assert_eq!(
        run(&[VALUE], &[Bytecode::VecUnpack(0, 4)]),
        (Ok(()), vec![], vec![VALUE; 4])
    );
    assert_eq!(
        run(&[VALUE], &[Bytecode::VecUnpack(0, u64::MAX), Bytecode::VecPack(0, u64::MAX)]),
        (Ok(()), vec![], vec![VALUE])
    );
    // Elements that are not all equal, or too few, are not popped at all.
    assert_eq!(
        run(&[reference(1), VALUE], &[Bytecode::VecPack(0, 2)]),
        (invariant_violation(), vec![], vec![reference(1), VALUE])
    );
    assert_eq!(
        run(&[VALUE], &[Bytecode::VecPack(0, 2)]),
        (invariant_violation(), vec![], vec![VALUE])
    );
    // Equal references are popped and then found out.
    assert_eq!(
        run(&[VALUE, reference(1), reference(1)], &[Bytecode::VecPack(0, 2)]),
        (invariant_violation(), vec![], vec![VALUE])
    );
    assert_eq!(
        run(&[VALUE, reference(1)], &[Bytecode::VecUnpack(0, 2)]),
        (invariant_violation(), vec![], vec![VALUE])
    );
}

#[test]
fn a_stack_that_is_full_takes_no_more() {
    let view = module();
    let function = function(0);
    let names = names();
    let mut analysis = ReferenceSafetyAnalysis::new(&view, &function, &names, COSTS);
    let mut recorder = Recorder::quiet();
    recorder.values = vec![reference(1), reference(2)];
    let mut budget = Budget::new();
    let mut state = Some(recorder);
    let mut step = |bytecode: Bytecode| {
        let recorder = state.take().unwrap();
        let (recorder, _, r) = execute_inner(&mut analysis, recorder, &bytecode, 0, &mut budget);
        state = Some(recorder);
        r
    };
    assert_eq!(step(Bytecode::LdTrue), Ok(()));
    assert_eq!(step(Bytecode::LdTrue), Ok(()));
    assert_eq!(step(Bytecode::VecUnpack(0, u64::MAX)), invariant_violation());
    assert_eq!(step(Bytecode::VecUnpack(0, u64::MAX)), Ok(()));
    assert_eq!(step(Bytecode::LdTrue), invariant_violation());
    assert_eq!(step(Bytecode::CopyLoc(0)), invariant_violation());
    assert_eq!(step(Bytecode::Call(1)), invariant_violation());
    assert_eq!(step(Bytecode::BrTrue(0)), Ok(()));
    // One of the two results finds room.
    assert_eq!(step(Bytecode::Call(1)), invariant_violation());
    assert_eq!(step(Bytecode::LdTrue), invariant_violation());
    assert_eq!(step(Bytecode::ReadRef), Ok(()));
}

#[test]
fn vector_operations() {
    assert_eq!(
        run(&[reference(1)], &[Bytecode::VecLen(0)]),
        (Ok(()), vec![format!("vector_op 40 {:?} false", reference(1))], vec![VALUE])
    );
    assert_eq!(
        run(&[reference(1), VALUE], &[Bytecode::VecPushBack(0)]),
        (Ok(()), vec![format!("vector_op 40 {:?} true", reference(1))], vec![])
    );
    assert_eq!(
        run(&[reference(1)], &[Bytecode::VecPopBack(0)]),
        (Ok(()), vec![format!("vector_op 40 {:?} true", reference(1))], vec![VALUE])
    );
    assert_eq!(
        run(&[VALUE, reference(1), VALUE, VALUE], &[Bytecode::VecSwap(0)]),
        (Ok(()), vec![format!("vector_op 40 {:?} true", reference(1))], vec![VALUE])
    );
    assert_eq!(
        run(&[reference(1), reference(2), VALUE], &[Bytecode::VecSwap(0)]),
        (invariant_violation(), vec![], vec![reference(1)])
    );
    assert_eq!(run(&[VALUE, VALUE], &[Bytecode::VecSwap(0)]).0, invariant_violation());
    for (bytecode, mutable) in
        [(Bytecode::VecImmBorrow(0), false), (Bytecode::VecMutBorrow(0), true)]
    {
        let mut recorder = Recorder::quiet();
        recorder.values = vec![reference(8)];
        assert_eq!(
            run_in(&module(), &[reference(1), VALUE], &[bytecode], recorder),
            (
                Ok(()),
                vec![format!(
                    "call 40 {:?} {{}} {:?} {:?}",
                    vec![reference(1)],
                    vec![ValueKind::Reference(mutable)],
                    StatusCode::VecBorrowElementExistsMutableBorrowError
                )],
                vec![reference(8)]
            )
        );
    }
}

#[test]
fn an_error_of_the_borrow_state_is_passed_on() {
    let failure = StatusCode::Other(1041);
    for (start, bytecode) in [
        (vec![], Bytecode::MoveLoc(0)),
        (vec![VALUE], Bytecode::StLoc(0)),
        (vec![reference(1)], Bytecode::VecLen(0)),
        (vec![], Bytecode::Call(1)),
        (vec![VALUE, VALUE], Bytecode::Ret),
    ] {
        let mut recorder = Recorder::quiet();
        recorder.failure = Some(failure);
        let (res, asked, stack) = run_in(&module(), &start, &[bytecode], recorder);
        assert_eq!(res, Err(refusal(failure)));
        assert_eq!(asked.len(), 1);
        assert!(stack.is_empty());
    }
}

#[test]
fn released_values_leave_the_stack() {
    assert_eq!(
        run(&[VALUE, reference(4)], &[Bytecode::Pop]),
        (Ok(()), vec![format!("release {:?}", reference(4))], vec![VALUE])
    );
}

#[test]
fn a_block_ends_with_an_empty_stack() {
    let view = module();
    let function = function(0);
    let names = names();
    let mut analysis = ReferenceSafetyAnalysis::new(&view, &function, &names, COSTS);
    let recorder = Recorder::quiet();
    let mut budget = Budget::new();
    let (recorder, _, r) = analysis.execute(recorder, &Bytecode::LdTrue, 0, 1, &mut budget);
    assert_eq!(r, Ok(()));
    assert!(recorder.log.is_empty());
    let (recorder, _, r) = analysis.execute(recorder, &Bytecode::BrTrue(7), 1, 1, &mut budget);
    assert_eq!(r, Ok(()));
    assert_eq!(recorder.log, vec![format!("canonicalize")]);
    let (recorder, _, r) = analysis.execute(recorder, &Bytecode::LdTrue, 7, 7, &mut budget);
    assert_eq!(r, invariant_violation());
    assert_eq!(recorder.log, vec![format!("canonicalize")]);
    let (recorder, _, r) = analysis.execute(recorder, &Bytecode::ReadRef, 8, 8, &mut budget);
    assert_eq!(r, invariant_violation());
    assert_eq!(recorder.log, vec![format!("canonicalize")]);
}

#[test]
fn what_an_instruction_reads_must_exist() {
    let view = module();
    let function = function(0);
    let names = names();
    let mut analysis = ReferenceSafetyAnalysis::new(&view, &function, &names, COSTS);
    for bytecode in [
        Bytecode::Call(4),
        Bytecode::CallGeneric(2),
        // The arguments are missing.
        Bytecode::Call(0),
        Bytecode::CallGeneric(0),
        Bytecode::MutBorrowFieldGeneric(1),
        Bytecode::ImmBorrowFieldGeneric(1),
        Bytecode::Pack(2),
        Bytecode::PackGeneric(2),
        Bytecode::Unpack(2),
        Bytecode::UnpackGeneric(2),
    ] {
        assert!(!analysis.is_executable(&bytecode));
    }
    // The instantiation is not looked up unless there is a value on the stack.
    assert!(analysis.is_executable(&Bytecode::MoveFromGeneric(2)));
    assert_eq!(analysis.push(VALUE), Ok(()));
    assert!(!analysis.is_executable(&Bytecode::MoveFromGeneric(2)));
    assert!(!analysis.is_executable(&Bytecode::MutBorrowGlobalGeneric(2)));
    assert!(!analysis.is_executable(&Bytecode::ImmBorrowGlobalGeneric(2)));
    assert!(analysis.is_executable(&Bytecode::MoveFromGeneric(1)));
    assert!(analysis.is_executable(&Bytecode::Call(1)));
}

/// Interprets a single block, and keeps what its borrow state was asked.
struct StraightLine {
    code: Vec<Bytecode>,
    asked: RefCell<Vec<String>>,
}

impl<'m> AbstractInterpreter<Recorder, &'m mut Budget> for StraightLine {
    fn analyze_function(
        &self,
        mut verifier: ReferenceSafetyAnalysis,
        initial_state: Recorder,
        _function_view: &FunctionView,
        meter: &'m mut Budget,
    ) -> (&'m mut Budget, PartialVMResult<()>) {
        let last = self.code.len() as u16 - 1;
        let mut state = initial_state;
        let mut meter = meter;
        let mut res = Ok(());
        for (i, bytecode) in self.code.iter().enumerate() {
            assert!(verifier.is_executable(bytecode));
            let (s, m, r) = verifier.execute(state, bytecode, i as u16, last, meter);
            state = s;
            meter = m;
            if r.is_err() {
                res = r;
                break;
            }
        }
        *self.asked.borrow_mut() = state.log;
        (meter, res)
    }
}

#[test]
fn a_function_is_verified_from_its_start() {
    let view = module();
    let function = function(1);
    let names = names();
    let body = StraightLine {
        code: vec![Bytecode::MutBorrowLoc(0), Bytecode::FreezeRef, Bytecode::Ret],
        asked: RefCell::new(vec![]),
    };
    let mut budget = Budget::new();
    let (_, r) = verify(&body, &view, &function, &names, COSTS, &mut budget);
    assert_eq!(r, Ok(()));
    assert_eq!(
        body.asked.take(),
        vec![
            format!("new 2"),
            format!("borrow_loc 0 true 0"),
            format!("freeze_ref 1 9"),
            format!("ret 2 {:?}", vec![reference(9)]),
            format!("canonicalize"),
        ]
    );
    assert_eq!(budget.charges.len(), 9);

    let body = StraightLine { code: vec![Bytecode::Pop], asked: RefCell::new(vec![]) };
    let (_, r) = verify(&body, &view, &function, &names, COSTS, &mut budget);
    assert_eq!(r, invariant_violation());
}

#[test]
fn a_refused_lookup_comes_before_the_results() {
    let mut view = script();
    view.function_handles[0].return_ = 99;
    let arguments = [VALUE, reference(1), VALUE];
    assert_eq!(
        run_in(&view, &arguments, &[Bytecode::Call(0)], Recorder::quiet()),
        (in_script(), vec![], vec![VALUE])
    );
    let mut view = module();
    view.function_handles[0].return_ = 99;
    let function = function(0);
    let names = names();
    let mut analysis = ReferenceSafetyAnalysis::new(&view, &function, &names, COSTS);
    assert_eq!(analysis.push_n(VALUE, 2), Ok(()));
    assert!(!analysis.is_executable(&Bytecode::Call(0)));
    assert!(analysis.is_executable(&Bytecode::Call(2)));
}

#[test]
fn the_listing_of_acquired_resources_does_not_matter() {
    let mut asked = vec![];
    for list in [vec![5, 1, 5], vec![1, 5], vec![5, 1]] {
        let mut view = module();
        if let Some(definitions) = &mut view.definitions {
            definitions.function_defs[0].acquires_global_resources = list;
        }
        asked.push(run_in(&view, &[VALUE, VALUE], &[Bytecode::Call(0)], Recorder::quiet()));
    }
    assert_eq!(asked[0], asked[1]);
    assert_eq!(asked[0], asked[2]);
}

#[test]
fn generic_instructions_do_what_plain_ones_do() {
    let arguments = [VALUE, reference(1), VALUE];
    for (generic, plain) in [
        (Bytecode::CallGeneric(1), Bytecode::Call(0)),
        (Bytecode::CallGeneric(0), Bytecode::Call(2)),
        (Bytecode::MoveToGeneric(8), Bytecode::MoveTo(9)),
        (Bytecode::MoveFromGeneric(0), Bytecode::MoveFrom(1)),
        (Bytecode::ExistsGeneric(8), Bytecode::Exists(9)),
    ] {
        assert_eq!(run(&arguments, &[generic]), run(&arguments, &[plain]));
    }
    for (generic, plain) in [
        (Bytecode::CallGeneric(1), Bytecode::Call(0)),
        (Bytecode::MoveToGeneric(8), Bytecode::MoveTo(9)),
    ] {
        assert_eq!(
            run_in(&script(), &arguments, &[generic], Recorder::quiet()),
            run_in(&script(), &arguments, &[plain], Recorder::quiet())
        );
    }
}

#[test]
fn an_invariant_of_the_borrow_state_is_kept() {
    // Every operation only adds to the log, so its first entry stays.
    let invariant = |state: &Recorder| state.log.first() == Some(&format!("new 0"));
    let view = module();
    let function = FunctionView {
        parameters: Signature(vec![]),
        locals: Signature(vec![]),
        return_: Signature(vec![SignatureToken::U64]),
    };
    let names = names();
    let mut analysis = ReferenceSafetyAnalysis::new(&view, &function, &names, COSTS);
    let mut state = Recorder::new(&function);
    let mut budget = Budget::new();
    assert!(invariant(&state));
    let block = [
        Bytecode::MutBorrowLoc(0),
        Bytecode::ReadRef,
        Bytecode::StLoc(1),
        Bytecode::LdU64(4),
        Bytecode::LdU64(5),
        Bytecode::Call(0),
        Bytecode::LdTrue,
        Bytecode::Ret,
    ];
    for (i, bytecode) in block.iter().enumerate() {
        let asked = state.log.len();
        let (after, _, r) = analysis.execute(state, bytecode, i as u16, 7, &mut budget);
        assert_eq!(r, Ok(()));
        assert!(invariant(&after));
        assert!(after.log.len() >= asked);
        state = after;
    }
    assert_eq!(state.log.len(), 7);
    assert_eq!(state.log.last(), Some(&format!("canonicalize")));
}

#[test]
fn operand_counts_are_fixed() {
    let value = [VALUE; 5];
    let borrowed = [VALUE, VALUE, VALUE, VALUE, reference(1)];
    for (bytecode, start, left) in [
        (Bytecode::Pop, value, 4),
        (Bytecode::StLoc(0), value, 4),
        (Bytecode::BrFalse(0), value, 4),
        (Bytecode::Abort, value, 4),
        (Bytecode::CopyLoc(0), value, 6),
        (Bytecode::ImmBorrowLoc(0), value, 6),
        (Bytecode::LdU16(3), value, 6),
        (Bytecode::FreezeRef, borrowed, 5),
        (Bytecode::ImmBorrowField(0), borrowed, 5),
        (Bytecode::MutBorrowGlobal(0), value, 5),
        (Bytecode::VecLen(0), borrowed, 5),
        (Bytecode::VecPopBack(0), borrowed, 5),
        (Bytecode::Neq, value, 4),
        (Bytecode::Shl, value, 4),
        (Bytecode::WriteRef, borrowed, 3),
        (Bytecode::VecPushBack(0), value, 3),
        (Bytecode::VecSwap(0), value, 2),
        (Bytecode::Nop, value, 5),
    ] {
        let (r, _, stack) = run(&start, &[bytecode]);
        assert_eq!(r, Ok(()));
        assert_eq!(stack.len(), left);
    }
    for bytecode in [Bytecode::VecImmBorrow(0), Bytecode::VecMutBorrow(0)] {
        let recorder = Recorder { values: vec![reference(2)], ..Recorder::quiet() };
        let (r, _, stack) = run_in(&module(), &value, &[bytecode], recorder);
        assert_eq!(r, Ok(()));
        assert_eq!(stack, vec![VALUE, VALUE, VALUE, reference(2)]);
    }
}
