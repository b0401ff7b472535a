//! Witness generation for a MIPS virtual machine.
//!
//! The machine executes a program one instruction at a time, and the environment in [`witness`]
//! records, in columns of field elements, the values that each instruction went through.
//! [`interpreter`] adds the operations on which the execution of an instruction builds, and
//! [`step`] the steps of a run. [`machine`] is the mathematical model: every operation of the
//! environment is specified as a function on it. What is proved of these functions is in [`laws`],
//! in [`memory_laws`] for the pages of memory, and in [`run_laws`] for the steps of a run.

pub mod bn254;
pub mod cannon;
pub mod column;
pub mod field;
pub mod instruction;
pub mod interpreter;
pub mod laws;
pub mod machine;
pub mod memory_laws;
pub mod paging;
pub mod registers;
pub mod run_laws;
pub mod step;
pub mod units;
pub mod witness;
pub mod words;
