//! The tables of a compiled module or script, as plain values. They are this crate's own because
//! no crate with the binary format is published.

use vstd::prelude::*;

use crate::file_format::{
    FieldInstantiation, FieldInstantiationIndex, FunctionDefinition, FunctionDefinitionIndex,
    FunctionHandle, FunctionHandleIndex, FunctionInstantiation, FunctionInstantiationIndex,
    Signature, SignatureIndex, StructDefInstantiation, StructDefInstantiationIndex,
    StructDefinition, StructDefinitionIndex,
};
use crate::status::{PartialVMError, PartialVMResult, StatusCode};

verus! {

/// The tables that a module has and a script does not.
#[derive(Debug)]
pub struct ModuleDefinitions {
    pub struct_defs: Vec<StructDefinition>,
    pub struct_instantiations: Vec<StructDefInstantiation>,
    pub field_instantiations: Vec<FieldInstantiation>,
    pub function_defs: Vec<FunctionDefinition>,
}

/// The tables of a module or of a script.
#[derive(Debug)]
pub struct BinaryIndexedView {
    pub signatures: Vec<Signature>,
    pub function_handles: Vec<FunctionHandle>,
    pub function_instantiations: Vec<FunctionInstantiation>,
    /// `None` for a script.
    pub definitions: Option<ModuleDefinitions>,
}

/// The function whose body is analysed.
#[derive(Debug)]
pub struct FunctionView {
    pub parameters: Signature,
    /// The locals that are not parameters.
    pub locals: Signature,
    pub return_: Signature,
}

impl FunctionView {
    /// The result types of the function.
    pub fn return_(&self) -> (signature: &Signature)
        ensures
            *signature == self.return_,
    {
        &self.return_
    }
}

impl BinaryIndexedView {
    pub open spec fn is_script(&self) -> bool {
        self.definitions is None
    }

    pub open spec fn struct_def(&self, idx: StructDefinitionIndex) -> StructDefinition {
        self.definitions->0.struct_defs@[idx as int]
    }

    pub open spec fn struct_instantiation(
        &self,
        idx: StructDefInstantiationIndex,
    ) -> StructDefInstantiation {
        self.definitions->0.struct_instantiations@[idx as int]
    }

    pub open spec fn field_instantiation(
        &self,
        idx: FieldInstantiationIndex,
    ) -> FieldInstantiation {
        self.definitions->0.field_instantiations@[idx as int]
    }

    pub open spec fn function_def(&self, idx: FunctionDefinitionIndex) -> FunctionDefinition {
        self.definitions->0.function_defs@[idx as int]
    }

    /// The struct definition can be looked up: it exists, or the lookup is refused in a script.
    pub open spec fn has_struct_def(&self, idx: StructDefinitionIndex) -> bool {
        self.definitions is Some ==> idx < self.definitions->0.struct_defs@.len()
    }

    pub open spec fn has_struct_instantiation(&self, idx: StructDefInstantiationIndex) -> bool {
        self.definitions is Some ==> idx < self.definitions->0.struct_instantiations@.len()
    }

    pub open spec fn has_field_instantiation(&self, idx: FieldInstantiationIndex) -> bool {
        self.definitions is Some ==> idx < self.definitions->0.field_instantiations@.len()
    }

    pub open spec fn has_function_def(&self, idx: FunctionDefinitionIndex) -> bool {
        self.definitions is Some ==> idx < self.definitions->0.function_defs@.len()
    }

    pub fn signature_at(&self, idx: SignatureIndex) -> (signature: &Signature)
        requires
            idx < self.signatures@.len(),
        ensures
            *signature == self.signatures@[idx as int],
    {
        &self.signatures[idx as usize]
    }

    pub fn function_handle_at(&self, idx: FunctionHandleIndex) -> (handle: &FunctionHandle)
        requires
            idx < self.function_handles@.len(),
        ensures
            *handle == self.function_handles@[idx as int],
    {
        &self.function_handles[idx as usize]
    }

    pub fn function_instantiation_at(&self, idx: FunctionInstantiationIndex) -> (inst:
        &FunctionInstantiation)
        requires
            idx < self.function_instantiations@.len(),
        ensures
            *inst == self.function_instantiations@[idx as int],
    {
        &self.function_instantiations[idx as usize]
    }

    /// A script has no field instantiations.
    pub fn field_instantiation_at(&self, idx: FieldInstantiationIndex) -> (res: PartialVMResult<
        &FieldInstantiation,
    >)
        requires
            self.has_field_instantiation(idx),
        ensures
            self.is_script() <==> res is Err,
            res matches Ok(inst) ==> *inst == self.field_instantiation(idx),
            res matches Err(e) ==> e == PartialVMError::in_script(),
    {
        match &self.definitions {
            Some(definitions) => Ok(&definitions.field_instantiations[idx as usize]),
            None => Err(PartialVMError::new(StatusCode::InvalidOperationInScript)),
        }
    }

    /// A script has no struct instantiations.
    pub fn struct_instantiation_at(&self, idx: StructDefInstantiationIndex) -> (res:
        PartialVMResult<&StructDefInstantiation>)
        requires
            self.has_struct_instantiation(idx),
        ensures
            self.is_script() <==> res is Err,
            res matches Ok(inst) ==> *inst == self.struct_instantiation(idx),
            res matches Err(e) ==> e == PartialVMError::in_script(),
    {
        match &self.definitions {
            Some(definitions) => Ok(&definitions.struct_instantiations[idx as usize]),
            None => Err(PartialVMError::new(StatusCode::InvalidOperationInScript)),
        }
    }

    /// A script has no struct definitions.
    pub fn struct_def_at(&self, idx: StructDefinitionIndex) -> (res: PartialVMResult<
        &StructDefinition,
    >)
        requires
            self.has_struct_def(idx),
        ensures
            self.is_script() <==> res is Err,
            res matches Ok(def) ==> *def == self.struct_def(idx),
            res matches Err(e) ==> e == PartialVMError::in_script(),
    {
        match &self.definitions {
            Some(definitions) => Ok(&definitions.struct_defs[idx as usize]),
            None => Err(PartialVMError::new(StatusCode::InvalidOperationInScript)),
        }
    }

    /// A script has no function definitions.
    pub fn function_def_at(&self, idx: FunctionDefinitionIndex) -> (res: PartialVMResult<
        &FunctionDefinition,
    >)
        requires
            self.has_function_def(idx),
        ensures
            self.is_script() <==> res is Err,
            res matches Ok(def) ==> *def == self.function_def(idx),
            res matches Err(e) ==> e == PartialVMError::in_script(),
    {
        match &self.definitions {
            Some(definitions) => Ok(&definitions.function_defs[idx as usize]),
            None => Err(PartialVMError::new(StatusCode::InvalidOperationInScript)),
        }
    }
}

} // verus!
