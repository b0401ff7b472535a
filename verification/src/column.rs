//! The columns of the witness.

use vstd::prelude::*;

verus! {

/// A place in the witness.
#[derive(Clone, Copy, Debug, PartialEq, Eq, Structural)]
pub enum Column {
    /// A cell of the scratch state, by its index.
    ScratchState(usize),
    /// A column of the Keccak environment, by its position in the Keccak state.
    KeccakState(usize),
}

} // verus!
