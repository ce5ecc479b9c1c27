//! Abstract values: what the analysis knows of a value on the operand stack.

use vstd::prelude::*;

use crate::file_format::{Signature, SignatureToken};

verus! {

/// The identifier under which the borrow state keeps a reference.
#[derive(Clone, Copy, Debug, PartialEq, Eq, Structural)]
pub struct RefID(pub u64);

/// A value on the operand stack.
#[derive(Clone, Copy, Debug, PartialEq, Eq, Structural)]
pub enum AbstractValue {
    Reference(RefID),
    NonReference,
}

impl AbstractValue {
    /// Whether this is anything but a reference.
    pub fn is_value(&self) -> (b: bool)
        ensures
            b <==> *self is NonReference,
    {
        match self {
            AbstractValue::NonReference => true,
            AbstractValue::Reference(_) => false,
        }
    }

    /// The identifier of a reference.
    pub fn ref_id(&self) -> (id: Option<RefID>)
        ensures
            id == match *self {
                AbstractValue::Reference(id) => Some(id),
                AbstractValue::NonReference => None,
            },
    {
        match self {
            AbstractValue::Reference(id) => Some(*id),
            AbstractValue::NonReference => None,
        }
    }
}

/// What kind of value a call returns: a reference, mutable or not, or something else.
#[derive(Clone, Copy, Debug, PartialEq, Eq, Structural)]
pub enum ValueKind {
    /// A reference; `true` for a mutable one.
    Reference(bool),
    NonReference,
}

impl ValueKind {
    /// The kind of the values of a type.
    pub open spec fn of(token: SignatureToken) -> ValueKind {
        match token {
            SignatureToken::Reference(_) => ValueKind::Reference(false),
            SignatureToken::MutableReference(_) => ValueKind::Reference(true),
            _ => ValueKind::NonReference,
        }
    }

    /// The kinds of the values of each type of a signature, in order.
    pub open spec fn of_signature(signature: Signature) -> Seq<ValueKind> {
        Seq::new(signature.0@.len(), |i: int| ValueKind::of(signature.0@[i]))
    }

    /// The kind of the values of a type.
    pub fn for_type(token: &SignatureToken) -> (kind: ValueKind)
        ensures
            kind == ValueKind::of(*token),
    {
        match token {
            SignatureToken::Reference(_) => ValueKind::Reference(false),
            SignatureToken::MutableReference(_) => ValueKind::Reference(true),
            _ => ValueKind::NonReference,
        }
    }

    /// The kinds of the values of each type of a signature, in order.
    pub fn for_signature(signature: &Signature) -> (kinds: Vec<ValueKind>)
        ensures
            kinds@ == ValueKind::of_signature(*signature),
    {
        let mut kinds: Vec<ValueKind> = Vec::new();
        for i in 0..signature.0.len()
            invariant
                kinds@ == ValueKind::of_signature(*signature).take(i as int),
        {
            kinds.push(ValueKind::for_type(&signature.0[i]));
        }
        assert(kinds@ == ValueKind::of_signature(*signature));
        kinds
    }
}

} // verus!
