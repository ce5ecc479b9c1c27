//! The parts of a compiled module or script that the analysis reads.

use vstd::prelude::*;

verus! {

pub type TableIndex = u16;

pub type CodeOffset = u16;

pub type LocalIndex = u8;

pub type ModuleHandleIndex = TableIndex;

pub type IdentifierIndex = TableIndex;

pub type SignatureIndex = TableIndex;

pub type ConstantPoolIndex = TableIndex;

pub type FieldHandleIndex = TableIndex;

pub type FieldInstantiationIndex = TableIndex;

pub type StructDefinitionIndex = TableIndex;

pub type StructDefInstantiationIndex = TableIndex;

pub type FunctionHandleIndex = TableIndex;

pub type FunctionInstantiationIndex = TableIndex;

pub type FunctionDefinitionIndex = TableIndex;

/// An instruction.
#[derive(Clone, Copy, Debug, PartialEq, Eq)]
pub enum Bytecode {
    Pop,
    Ret,
    BrTrue(CodeOffset),
    BrFalse(CodeOffset),
    Branch(CodeOffset),
    LdU8(u8),
    LdU16(u16),
    LdU32(u32),
    LdU64(u64),
    LdU128(u128),
    /// Loads a 256-bit integer, given by its bytes, the least significant one first.
    LdU256([u8; 32]),
    LdConst(ConstantPoolIndex),
    LdTrue,
    LdFalse,
    CastU8,
    CastU16,
    CastU32,
    CastU64,
    CastU128,
    CastU256,
    CopyLoc(LocalIndex),
    MoveLoc(LocalIndex),
    StLoc(LocalIndex),
    Call(FunctionHandleIndex),
    CallGeneric(FunctionInstantiationIndex),
    Pack(StructDefinitionIndex),
    PackGeneric(StructDefInstantiationIndex),
    Unpack(StructDefinitionIndex),
    UnpackGeneric(StructDefInstantiationIndex),
    ReadRef,
    WriteRef,
    FreezeRef,
    MutBorrowLoc(LocalIndex),
    ImmBorrowLoc(LocalIndex),
    MutBorrowField(FieldHandleIndex),
    MutBorrowFieldGeneric(FieldInstantiationIndex),
    ImmBorrowField(FieldHandleIndex),
    ImmBorrowFieldGeneric(FieldInstantiationIndex),
    MutBorrowGlobal(StructDefinitionIndex),
    MutBorrowGlobalGeneric(StructDefInstantiationIndex),
    ImmBorrowGlobal(StructDefinitionIndex),
    ImmBorrowGlobalGeneric(StructDefInstantiationIndex),
    Add,
    Sub,
    Mul,
    Mod,
    Div,
    BitOr,
    BitAnd,
    Xor,
    Or,
    And,
    Not,
    Eq,
    Neq,
    Lt,
    Gt,
    Le,
    Ge,
    Abort,
    Nop,
    Exists(StructDefinitionIndex),
    ExistsGeneric(StructDefInstantiationIndex),
    MoveFrom(StructDefinitionIndex),
    MoveFromGeneric(StructDefInstantiationIndex),
    MoveTo(StructDefinitionIndex),
    MoveToGeneric(StructDefInstantiationIndex),
    Shl,
    Shr,
    VecPack(SignatureIndex, u64),
    VecLen(SignatureIndex),
    VecImmBorrow(SignatureIndex),
    VecMutBorrow(SignatureIndex),
    VecPushBack(SignatureIndex),
    VecPopBack(SignatureIndex),
    VecUnpack(SignatureIndex, u64),
    VecSwap(SignatureIndex),
}

/// A type, as a signature writes it.
#[derive(Debug)]
pub enum SignatureToken {
    Bool,
    U8,
    U16,
    U32,
    U64,
    U128,
    U256,
    Address,
    Signer,
    Vector(Box<SignatureToken>),
    Struct(TableIndex),
    StructInstantiation(TableIndex, Vec<SignatureToken>),
    Reference(Box<SignatureToken>),
    MutableReference(Box<SignatureToken>),
    TypeParameter(TableIndex),
}

/// A list of types: those of the parameters or of the results of a function.
#[derive(Debug)]
pub struct Signature(pub Vec<SignatureToken>);

impl Signature {
    pub fn len(&self) -> (n: usize)
        ensures
            n == self.0@.len(),
    {
        self.0.len()
    }
}

/// The abilities that a type parameter is constrained to, as a bit set.
#[derive(Clone, Copy, Debug, PartialEq, Eq, Structural)]
pub struct AbilitySet(pub u8);

/// How a module or script refers to a function, its own or another module's.
#[derive(Debug)]
pub struct FunctionHandle {
    pub module: ModuleHandleIndex,
    pub name: IdentifierIndex,
    pub parameters: SignatureIndex,
    pub return_: SignatureIndex,
    pub type_parameters: Vec<AbilitySet>,
}

impl FunctionHandle {
    /// Whether two handles agree in every part.
    pub open spec fn same(&self, other: &FunctionHandle) -> bool {
        &&& self.module == other.module
        &&& self.name == other.name
        &&& self.parameters == other.parameters
        &&& self.return_ == other.return_
        &&& self.type_parameters@ == other.type_parameters@
    }

    /// Whether two handles agree in every part.
    pub fn is_same(&self, other: &FunctionHandle) -> (b: bool)
        ensures
            b <==> self.same(other),
    {
        if self.module != other.module || self.name != other.name || self.parameters
            != other.parameters || self.return_ != other.return_ || self.type_parameters.len()
            != other.type_parameters.len() {
            return false;
        }
        for i in 0..self.type_parameters.len()
            invariant
                self.type_parameters@.len() == other.type_parameters@.len(),
                forall|j: int|
                    0 <= j < i ==> self.type_parameters@[j] == other.type_parameters@[j],
        {
            if self.type_parameters[i] != other.type_parameters[i] {
                return false;
            }
        }
        assert(self.type_parameters@ == other.type_parameters@);
        true
    }
}

/// A generic function applied to types.
#[derive(Clone, Copy, Debug, PartialEq, Eq)]
pub struct FunctionInstantiation {
    pub handle: FunctionHandleIndex,
}

/// A field of a generic struct applied to types.
#[derive(Clone, Copy, Debug, PartialEq, Eq)]
pub struct FieldInstantiation {
    pub handle: FieldHandleIndex,
}

/// A generic struct applied to types.
#[derive(Clone, Copy, Debug, PartialEq, Eq)]
pub struct StructDefInstantiation {
    pub def: StructDefinitionIndex,
}

/// A function that the module defines.
#[derive(Debug)]
pub struct FunctionDefinition {
    pub function: FunctionHandleIndex,
    /// The structs that the function borrows or moves from global storage.
    pub acquires_global_resources: Vec<StructDefinitionIndex>,
}

/// A field that a struct declares.
#[derive(Debug)]
pub struct FieldDefinition {
    pub name: IdentifierIndex,
    pub signature: SignatureToken,
}

/// The fields of a struct.
#[derive(Debug)]
pub enum StructFieldInformation {
    Native,
    Declared(Vec<FieldDefinition>),
}

/// A struct that the module defines.
#[derive(Debug)]
pub struct StructDefinition {
    pub field_information: StructFieldInformation,
}

impl StructDefinition {
    /// How many fields the struct declares: none if it is native.
    pub open spec fn field_count(&self) -> nat {
        match self.field_information {
            StructFieldInformation::Native => 0,
            StructFieldInformation::Declared(fields) => fields@.len(),
        }
    }
}

} // verus!
