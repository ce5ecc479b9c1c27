# reference_safety

Transfer functions for the reference safety analysis of Move bytecode, verified with Verus.

The analysis interprets a function body over an operand stack of abstract values, each a reference
or something else. For every instruction the library decides which operands leave the stack, what
the borrow state is asked to do with them, what is pushed when it has replied, and which error is
reported when the operands do not fit. The borrow state, the meter and the fixed-point interpreter
are traits that the caller implements; nothing is assumed of their replies.

- `src/value.rs`, `src/file_format.rs`, `src/binary_view.rs`, `src/status.rs`: abstract values, the
  tables of a module or script, and errors.
- `src/abstract_stack.rs`: the run-length encoded operand stack.
- `src/transfer.rs`: the transfer functions on sequences; what the contracts speak of.
- `src/action.rs`, `src/analysis.rs`: the two halves of an instruction, before and after the borrow
  state replies.
- `src/state.rs`, `src/execution.rs`: the traits, and the execution of instructions against them.
- `src/laws.rs`: what holds of the analysis as a whole.
- `app/`: conversion between the library's statuses and those of the virtual machine.

The operand stack and the tables are the crate's own: `move-abstract-stack` and
`move-binary-format` are not published on crates.io. For the same reason there is no adapter from
the tables of the binary format to those of `src/binary_view.rs`.
