//! Transfer functions for the reference safety analysis of Move bytecode.
//!
//! The analysis interprets a function body over an operand stack of abstract values: a value is
//! either a reference, known by its identifier, or something that is not a reference. This crate
//! decides, instruction by instruction, which operands leave that stack, which operation the
//! borrow state is asked to perform with them, what is pushed when the reply is in, and which
//! error is reported when the operands do not fit.
//!
//! The borrow state, the meter and the fixed-point interpreter are traits that the caller
//! implements. Their methods promise nothing, so what is proved of an instruction holds whatever
//! they reply.

pub mod abstract_stack;
pub mod action;
pub mod analysis;
pub mod binary_view;
pub mod execution;
pub mod file_format;
pub mod instructions;
pub mod laws;
pub mod state;
pub mod status;
pub mod transfer;
pub mod value;
