# mips_witness

Witness generation for a MIPS virtual machine, verified with Verus.

- `src/witness.rs`: the environment: memory, registers and the columns of the witness.
- `src/interpreter.rs`: the operations on which the execution of an instruction builds.
- `src/step.rs`: the steps of a run.
- `src/machine.rs`: the mathematical model that the contracts of the environment speak of.
- `src/laws.rs`: what holds across operations, such as that memory gives back what was written.
- `src/paging.rs`: lemmas on pages and the slots that hold them.
- `src/instruction.rs`: instruction encodings.
- `src/words.rs`: arithmetic on 32-bit words.
- `src/units.rs`: human-readable memory sizes.
- `src/field.rs`, `src/bn254.rs`: fields, and the scalar field of BN254 by way of `ark_ff`.
- `src/registers.rs`, `src/column.rs`, `src/cannon.rs`: registers, columns, states and
  configurations.
- `app/`: logging, timing, and the panics of checks that fail.

A machine whose memory and write index hold the same pages is well-formed (`Machine::wf`). An
access to memory that allocates a page has to be followed by one to the write index of the same
page before memory is looked up again; `law_paired_lookups_keep_wf` states this.
