//! The registers of the machine.

use vstd::prelude::*;

verus! {

/// The number of general-purpose registers.
pub const NUM_GENERAL_PURPOSE: usize = 32;

/// The index of the high word of a product, or of a remainder.
pub const REGISTER_HI: usize = 32;

/// The index of the low word of a product, or of a quotient.
pub const REGISTER_LO: usize = 33;

/// The index of the address of the instruction at hand.
pub const REGISTER_CURRENT_IP: usize = 34;

/// The index of the address of the instruction that follows.
pub const REGISTER_NEXT_IP: usize = 35;

/// The index of the heap pointer.
pub const REGISTER_HEAP_POINTER: usize = 36;

/// The index of the first word of the preimage key.
pub const REGISTER_PREIMAGE_KEY_START: usize = 37;

/// The index of the preimage offset, next to the last word of the preimage key.
pub const REGISTER_PREIMAGE_OFFSET: usize = 45;

/// The number of registers of all kinds.
pub const NUM_REGISTERS: usize = 46;

/// A value for each register.
#[derive(Clone, Debug, PartialEq, Eq)]
pub struct Registers<T> {
    pub general_purpose: [T; 32],
    pub hi: T,
    pub lo: T,
    pub current_instruction_pointer: T,
    pub next_instruction_pointer: T,
    pub heap_pointer: T,
    pub preimage_key: [T; 8],
    pub preimage_offset: T,
}

impl<T> View for Registers<T> {
    type V = Seq<T>;

    /// The values in the order of the indices of their registers.
    open spec fn view(&self) -> Seq<T> {
        self.general_purpose@ + seq![
            self.hi,
            self.lo,
            self.current_instruction_pointer,
            self.next_instruction_pointer,
            self.heap_pointer,
        ] + self.preimage_key@ + seq![self.preimage_offset]
    }
}

impl Default for Registers<u32> {
    /// Returns registers that all hold zero.
    fn default() -> (registers: Registers<u32>)
        ensures
            registers@ == Seq::new(NUM_REGISTERS as nat, |i: int| 0u32),
    {
        let registers = Registers {
            general_purpose: [0; 32],
            hi: 0,
            lo: 0,
            current_instruction_pointer: 0,
            next_instruction_pointer: 0,
            heap_pointer: 0,
            preimage_key: [0; 8],
            preimage_offset: 0,
        };
        assert(registers@ =~= Seq::new(NUM_REGISTERS as nat, |i: int| 0u32));
        registers
    }
}

impl Registers<u32> {
    /// Returns the value of the register with the given index.
    pub fn get(&self, index: usize) -> (value: u32)
        requires
            index < NUM_REGISTERS,
        ensures
            value == self@[index as int],
    {
        if index < NUM_GENERAL_PURPOSE {
            self.general_purpose[index]
        } else if index == REGISTER_HI {
            self.hi
        } else if index == REGISTER_LO {
            self.lo
        } else if index == REGISTER_CURRENT_IP {
            self.current_instruction_pointer
        } else if index == REGISTER_NEXT_IP {
            self.next_instruction_pointer
        } else if index == REGISTER_HEAP_POINTER {
            self.heap_pointer
        } else if index < REGISTER_PREIMAGE_OFFSET {
            self.preimage_key[index - REGISTER_PREIMAGE_KEY_START]
        } else {
            self.preimage_offset
        }
    }

    /// Sets the register with the given index.
    pub fn set(&mut self, index: usize, value: u32)
        requires
            index < NUM_REGISTERS,
        ensures
            final(self)@ == old(self)@.update(index as int, value),
    {
        if index < NUM_GENERAL_PURPOSE {
            self.general_purpose[index] = value;
        } else if index == REGISTER_HI {
            self.hi = value;
        } else if index == REGISTER_LO {
            self.lo = value;
        } else if index == REGISTER_CURRENT_IP {
            self.current_instruction_pointer = value;
        } else if index == REGISTER_NEXT_IP {
            self.next_instruction_pointer = value;
        } else if index == REGISTER_HEAP_POINTER {
            self.heap_pointer = value;
        } else if index < REGISTER_PREIMAGE_OFFSET {
            self.preimage_key[index - REGISTER_PREIMAGE_KEY_START] = value;
        } else {
            self.preimage_offset = value;
        }
        assert(self@ =~= old(self)@.update(index as int, value));
    }
}

/// The general-purpose registers have the indices below 32. The others follow: `hi`, `lo`, the two
/// instruction pointers, the heap pointer, the eight words of the preimage key, and the preimage
/// offset.
pub proof fn law_registers_by_index<T>(registers: Registers<T>, i: int)
    ensures
        registers@.len() == 46,
        0 <= i < 32 ==> registers@[i] == registers.general_purpose@[i],
        registers@[32] == registers.hi,
        registers@[33] == registers.lo,
        registers@[34] == registers.current_instruction_pointer,
        registers@[35] == registers.next_instruction_pointer,
        registers@[36] == registers.heap_pointer,
        0 <= i < 8 ==> registers@[37 + i] == registers.preimage_key@[i],
        registers@[45] == registers.preimage_offset,
{
}

} // verus!
