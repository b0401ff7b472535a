//! The mathematical model of the machine and of what each operation does to it.

use crate::cannon::{Start, State, VmConfiguration, PAGE_SIZE};
use crate::column::Column;
use crate::field::Field;
use crate::instruction::Instruction;
use crate::registers::{NUM_REGISTERS, REGISTER_CURRENT_IP};
use crate::step::StepError;
use crate::witness::SCRATCH_SIZE;
use vstd::prelude::*;

verus! {

/// The page that an address lies in.
pub open spec fn page_of(addr: u32) -> u32 {
    addr / PAGE_SIZE
}

/// The place of an address within its page.
pub open spec fn offset_of(addr: u32) -> int {
    addr as int % PAGE_SIZE as int
}

/// The indices of the pages in `pages`, slot by slot.
pub open spec fn page_ids<T>(pages: Seq<(u32, Seq<T>)>) -> Seq<u32> {
    Seq::new(pages.len(), |i: int| pages[i].0)
}

/// The contents of a page all of whose places hold `value`.
pub open spec fn blank<T>(value: T) -> Seq<T> {
    Seq::new(PAGE_SIZE as nat, |i: int| value)
}

/// `pages` with a blank page `page` at the end if it holds no such page.
pub open spec fn with_page<T>(pages: Seq<(u32, Seq<T>)>, page: u32, value: T) -> Seq<
    (u32, Seq<T>),
> {
    if page_ids(pages).contains(page) {
        pages
    } else {
        pages.push((page, blank(value)))
    }
}

/// `pages` with `value` at the place `offset` of the page in slot `slot`.
pub open spec fn with_value<T>(
    pages: Seq<(u32, Seq<T>)>,
    slot: int,
    offset: int,
    value: T,
) -> Seq<(u32, Seq<T>)> {
    pages.update(slot, (pages[slot].0, pages[slot].1.update(offset, value)))
}

/// The pages that the slots `recent` hold, going by the page indices `ids`.
pub open spec fn held(recent: Seq<usize>, ids: Seq<u32>) -> Seq<u32> {
    Seq::new(recent.len(), |k: int| ids[recent[k] as int])
}

/// The first of the slots `recent` that holds `page`.
pub open spec fn recent_slot(recent: Seq<usize>, ids: Seq<u32>, page: u32) -> Option<int> {
    match held(recent, ids).index_of_first(page) {
        Some(k) => Some(recent[k] as int),
        None => None,
    }
}

/// Whether `ids` has each of the slots `recent` up to the first one that holds `page`.
pub open spec fn recent_in_range(recent: Seq<usize>, ids: Seq<u32>, page: u32) -> bool {
    forall|k: int|
        0 <= k < recent.len() && (forall|j: int| 0 <= j < k ==> held(recent, ids)[j] != page)
            ==> (#[trigger] recent[k]) < ids.len()
}

/// The first slot that holds `page`, or else the slot after the last one.
pub open spec fn first_slot(ids: Seq<u32>, page: u32) -> int {
    match ids.index_of_first(page) {
        Some(i) => i,
        None => ids.len() as int,
    }
}

/// The slots `recent` after a use of `slot`.
pub open spec fn renewed(recent: Seq<usize>, slot: int) -> Seq<usize> {
    seq![slot as usize, recent[0], recent[1]]
}

/// Whether `slot` is the first one that holds its page.
pub open spec fn is_first_slot(ids: Seq<u32>, slot: usize) -> bool {
    slot < ids.len() && first_slot(ids, ids[slot as int]) == slot
}

/// What `pages` holds at an address; `value` where it has no page for it.
pub open spec fn content_at<T>(pages: Seq<(u32, Seq<T>)>, addr: u32, value: T) -> T {
    let slot = first_slot(page_ids(pages), page_of(addr));
    if slot < pages.len() {
        pages[slot].1[offset_of(addr)]
    } else {
        value
    }
}

/// Whether there are three slots `recent` and each is the first one that holds its page.
pub open spec fn recent_are_first(recent: Seq<usize>, ids: Seq<u32>) -> bool {
    &&& recent.len() == 3
    &&& forall|k: int| 0 <= k < 3 ==> is_first_slot(ids, #[trigger] recent[k])
}

/// Whether each page is complete.
pub open spec fn pages_are_full<T>(pages: Seq<(u32, Seq<T>)>) -> bool {
    forall|i: int| 0 <= i < pages.len() ==> (#[trigger] pages[i]).1.len() == PAGE_SIZE
}

/// `data` with zeros up to the length `size`.
pub open spec fn padded(data: Seq<u8>, size: nat) -> Seq<u8> {
    Seq::new(
        size,
        |i: int|
            if i < data.len() {
                data[i]
            } else {
                0u8
            },
    )
}

/// The indices of the pages of a state.
pub open spec fn state_page_ids(state: State) -> Seq<u32> {
    Seq::new(state.memory@.len(), |i: int| state.memory@[i].index)
}

/// The word at `index` of a key, the most significant byte first.
pub open spec fn key_word(key: Seq<u8>, index: int) -> u32 {
    crate::words::big_endian(
        key[4 * index],
        key[4 * index + 1],
        key[4 * index + 2],
        key[4 * index + 3],
    )
}

/// A hint as a sequence of bytes.
pub open spec fn hint_bytes(hint: Option<Vec<u8>>) -> Option<Seq<u8>> {
    match hint {
        Some(bytes) => Some(bytes@),
        None => None,
    }
}

/// The machine together with the witness of the step at hand.
#[verifier::ext_equal]
pub struct Machine<Fp, O> {
    pub instruction_counter: u32,
    pub memory: Seq<(u32, Seq<u8>)>,
    pub last_memory_accesses: Seq<usize>,
    pub memory_write_index: Seq<(u32, Seq<u32>)>,
    pub last_memory_write_index_accesses: Seq<usize>,
    pub registers: Seq<u32>,
    pub registers_write_index: Seq<u32>,
    pub scratch_state_idx: usize,
    pub scratch_state: Seq<Fp>,
    pub halt: bool,
    pub last_hint: Option<Seq<u8>>,
    pub preimage_oracle: O,
    pub keccak_state: Option<Seq<Fp>>,
}

impl<Fp, O> Machine<Fp, O> {
    /// The address of the instruction at hand.
    pub open spec fn pc(self) -> u32 {
        self.registers[REGISTER_CURRENT_IP as int]
    }

    /// Whether the slots of memory that were used last can be looked through for `page`.
    pub open spec fn can_look_up(self, page: u32) -> bool {
        recent_in_range(self.last_memory_accesses, page_ids(self.memory_write_index), page)
    }

    /// The slot in which memory is looked up for `page`. The slots that were used last are told
    /// by the pages of the write index.
    pub open spec fn memory_slot(self, page: u32) -> int {
        match recent_slot(self.last_memory_accesses, page_ids(self.memory_write_index), page) {
            Some(slot) => slot,
            None => first_slot(page_ids(self.memory), page),
        }
    }

    /// The machine after memory was looked up for `page`.
    pub open spec fn memory_looked_up(self, page: u32) -> Self {
        if recent_slot(
            self.last_memory_accesses,
            page_ids(self.memory_write_index),
            page,
        ) is Some {
            self
        } else {
            Machine {
                memory: with_page(self.memory, page, 0u8),
                last_memory_accesses: renewed(self.last_memory_accesses, self.memory_slot(page)),
                ..self
            }
        }
    }

    /// Whether memory can be read and written at the address.
    pub open spec fn can_access_memory(self, addr: u32) -> bool {
        let page = page_of(addr);
        let memory = self.memory_looked_up(page).memory;
        &&& self.can_look_up(page)
        &&& self.memory_slot(page) < memory.len()
        &&& offset_of(addr) < memory[self.memory_slot(page)].1.len()
    }

    /// The byte that is read at the address.
    pub open spec fn byte_read(self, addr: u32) -> u8 {
        self.memory_looked_up(page_of(addr)).memory[self.memory_slot(page_of(addr))].1[offset_of(
            addr,
        )]
    }

    /// The machine after `value` was written at the address.
    pub open spec fn memory_pushed(self, addr: u32, value: u8) -> Self {
        let looked_up = self.memory_looked_up(page_of(addr));
        Machine {
            memory: with_value(
                looked_up.memory,
                self.memory_slot(page_of(addr)),
                offset_of(addr),
                value,
            ),
            ..looked_up
        }
    }

    /// Whether the slots of the write index that were used last can be looked through for `page`.
    pub open spec fn can_look_up_access(self, page: u32) -> bool {
        recent_in_range(
            self.last_memory_write_index_accesses,
            page_ids(self.memory_write_index),
            page,
        )
    }

    /// The slot in which the write index is looked up for `page`.
    pub open spec fn access_slot(self, page: u32) -> int {
        match recent_slot(
            self.last_memory_write_index_accesses,
            page_ids(self.memory_write_index),
            page,
        ) {
            Some(slot) => slot,
            None => first_slot(page_ids(self.memory_write_index), page),
        }
    }

    /// The machine after the write index was looked up for `page`.
    pub open spec fn access_looked_up(self, page: u32) -> Self {
        if recent_slot(
            self.last_memory_write_index_accesses,
            page_ids(self.memory_write_index),
            page,
        ) is Some {
            self
        } else {
            Machine {
                memory_write_index: with_page(self.memory_write_index, page, 0u32),
                last_memory_write_index_accesses: renewed(
                    self.last_memory_write_index_accesses,
                    self.access_slot(page),
                ),
                ..self
            }
        }
    }

    /// Whether the write index can be read and written at the address.
    pub open spec fn can_access_write_index(self, addr: u32) -> bool {
        let page = page_of(addr);
        let write_index = self.access_looked_up(page).memory_write_index;
        &&& self.can_look_up_access(page)
        &&& offset_of(addr) < write_index[self.access_slot(page)].1.len()
    }

    /// The entry of the write index that is read at the address.
    pub open spec fn access_read(self, addr: u32) -> u32 {
        self.access_looked_up(page_of(addr)).memory_write_index[self.access_slot(
            page_of(addr),
        )].1[offset_of(addr)]
    }

    /// The machine after `value` was written to the write index at the address.
    pub open spec fn access_pushed(self, addr: u32, value: u32) -> Self {
        let looked_up = self.access_looked_up(page_of(addr));
        Machine {
            memory_write_index: with_value(
                looked_up.memory_write_index,
                self.access_slot(page_of(addr)),
                offset_of(addr),
                value,
            ),
            ..looked_up
        }
    }

    /// The machine after the byte at the address was read.
    pub open spec fn byte_taken(self, addr: u32) -> Self {
        self.memory_looked_up(page_of(addr))
    }

    /// The machine after the first `n` bytes of the instruction at hand were read.
    pub open spec fn bytes_taken(self, n: nat) -> Self
        decreases n,
    {
        if n == 0 {
            self
        } else {
            self.bytes_taken((n - 1) as nat).byte_taken((self.pc() + n - 1) as u32)
        }
    }

    /// The byte of the instruction at hand that is read after `n` others.
    pub open spec fn instruction_byte(self, n: nat) -> u8 {
        self.bytes_taken(n).byte_read((self.pc() + n) as u32)
    }

    /// The word of the instruction at hand, as it is read byte by byte.
    pub open spec fn instruction_word(self) -> u32 {
        crate::words::big_endian(
            self.instruction_byte(0),
            self.instruction_byte(1),
            self.instruction_byte(2),
            self.instruction_byte(3),
        )
    }

    /// The instruction at hand, if its word encodes one. A system call is told by the registers 2,
    /// which holds its number, and 4, which holds its first argument.
    pub open spec fn decoded(self) -> Option<Instruction> {
        crate::instruction::instruction_of(
            self.instruction_word(),
            self.registers[2],
            self.registers[4],
        )
    }

    /// The machine after the instruction at hand was read.
    pub open spec fn instruction_taken(self) -> Self {
        self.bytes_taken(4)
    }

    /// Whether the instruction at hand can be read.
    pub open spec fn can_take_instruction(self) -> bool {
        &&& self.pc() + 3 <= u32::MAX
        &&& forall|n: nat|
            n < 4 ==> (#[trigger] self.bytes_taken(n)).can_access_memory((self.pc() + n) as u32)
    }

    /// Whether the byte of the instruction at hand that comes after `n` others can be read.
    pub open spec fn can_take_byte(self, n: nat) -> bool {
        &&& self.pc() + n <= u32::MAX
        &&& self.bytes_taken(n).can_access_memory((self.pc() + n) as u32)
    }

    /// The number of bytes of the instruction at hand that can be read one after the other.
    pub open spec fn readable_bytes(self) -> nat {
        if !self.can_take_byte(0) {
            0
        } else if !self.can_take_byte(1) {
            1
        } else if !self.can_take_byte(2) {
            2
        } else if !self.can_take_byte(3) {
            3
        } else {
            4
        }
    }

    /// The machine after an attempt to read the instruction at hand. The attempt ends with the
    /// first byte that cannot be read; the page of that byte is looked up where that is possible.
    pub open spec fn instruction_tried(self) -> Self {
        let n = self.readable_bytes();
        let page = page_of((self.pc() + n) as u32);
        if n < 4 && self.pc() + n <= u32::MAX && self.bytes_taken(n).can_look_up(page) {
            self.bytes_taken(n + 1)
        } else {
            self.bytes_taken(n)
        }
    }

    /// The scratch column that is allocated next.
    pub open spec fn next_scratch(self) -> Column {
        Column::ScratchState(self.scratch_state_idx)
    }

    /// The machine after `n` scratch columns were allocated.
    pub open spec fn scratch_allocated(self, n: nat) -> Self {
        Machine { scratch_state_idx: (self.scratch_state_idx + n) as usize, ..self }
    }

    /// Whether the column is a place of the witness.
    pub open spec fn has_column(self, column: Column) -> bool {
        match column {
            Column::ScratchState(idx) => idx < self.scratch_state.len(),
            Column::KeccakState(col) => self.keccak_state matches Some(state) && col < state.len(),
        }
    }

    /// The machine with `value` in the column.
    pub open spec fn with_column(self, column: Column, value: Fp) -> Self {
        match column {
            Column::ScratchState(idx) => Machine {
                scratch_state: self.scratch_state.update(idx as int, value),
                ..self
            },
            Column::KeccakState(col) => Machine {
                keccak_state: match self.keccak_state {
                    Some(state) => Some(state.update(col as int, value)),
                    None => None,
                },
                ..self
            },
        }
    }

    /// What is in the column.
    pub open spec fn column_value(self, column: Column) -> Fp {
        match column {
            Column::ScratchState(idx) => self.scratch_state[idx as int],
            Column::KeccakState(col) => self.keccak_state->0[col as int],
        }
    }

    /// The slot that memory has for the page of the instruction at hand.
    pub open spec fn opcode_slot(self) -> int {
        first_slot(page_ids(self.memory), page_of(self.pc()))
    }

    /// Whether the page of the instruction at hand, if memory has it, holds the whole word.
    pub open spec fn can_get_opcode(self) -> bool {
        self.opcode_slot() < self.memory.len() ==> offset_of(self.pc()) + 4
            <= self.memory[self.opcode_slot()].1.len()
    }

    /// The word at the address of the instruction at hand, if memory has its page.
    pub open spec fn opcode(self) -> Option<u32> {
        if self.opcode_slot() < self.memory.len() {
            let data = self.memory[self.opcode_slot()].1;
            let offset = offset_of(self.pc());
            Some(
                crate::words::big_endian(
                    data[offset],
                    data[offset + 1],
                    data[offset + 2],
                    data[offset + 3],
                ),
            )
        } else {
            None
        }
    }

    /// Whether information can be given on the step at hand of a run that began with the step
    /// `start`.
    pub open spec fn can_report(self, start: nat) -> bool {
        &&& self.can_get_opcode()
        &&& self.opcode() is Some
        &&& start <= self.instruction_counter
        &&& self.memory.len() * PAGE_SIZE <= usize::MAX
    }

    /// Whether the pages of memory and of its write index agree and are complete, and the slots
    /// that were used last are the first ones of their pages.
    pub open spec fn wf(self) -> bool {
        let ids = page_ids(self.memory);
        &&& self.memory.len() <= usize::MAX
        &&& page_ids(self.memory_write_index) == ids
        &&& pages_are_full(self.memory)
        &&& pages_are_full(self.memory_write_index)
        &&& recent_are_first(self.last_memory_accesses, ids)
        &&& recent_are_first(self.last_memory_write_index_accesses, ids)
    }

    /// Whether memory has a page for the address.
    pub open spec fn is_allocated(self, addr: u32) -> bool {
        page_ids(self.memory).contains(page_of(addr))
    }

    /// The byte at the address. Memory that has not been allocated is zero.
    pub open spec fn byte_at(self, addr: u32) -> u8 {
        content_at(self.memory, addr, 0)
    }

    /// The entry of the write index at the address; zero where it has not been allocated.
    pub open spec fn write_index_at(self, addr: u32) -> u32 {
        content_at(self.memory_write_index, addr, 0)
    }
}

impl<Fp, O> Machine<Fp, O> {
    /// Whether the two machines are at the same step and have the same oracle and hint.
    pub open spec fn same_step(self, other: Self) -> bool {
        &&& self.instruction_counter == other.instruction_counter
        &&& self.last_hint == other.last_hint
        &&& self.preimage_oracle == other.preimage_oracle
    }

    /// Whether the two machines have the same memory and write index, looked up in the same way.
    pub open spec fn same_memory(self, other: Self) -> bool {
        &&& self.memory == other.memory
        &&& self.last_memory_accesses == other.last_memory_accesses
        &&& self.memory_write_index == other.memory_write_index
        &&& self.last_memory_write_index_accesses == other.last_memory_write_index_accesses
    }

    /// The machine at the next step.
    pub open spec fn advanced(self) -> Self {
        Machine { instruction_counter: (self.instruction_counter + 1) as u32, ..self }
    }
}

impl<Fp: Field, O> Machine<Fp, O> {
    /// The machine with the element for `value` in the column.
    pub open spec fn with_number(self, column: Column, value: u64) -> Self {
        self.with_column(column, Fp::embed(value))
    }

    /// The machine with an empty scratch state.
    pub open spec fn scratch_reset(self) -> Self {
        Machine {
            scratch_state_idx: 0,
            scratch_state: Seq::new(SCRATCH_SIZE as nat, |i: int| Fp::zero_element()),
            ..self
        }
    }

    /// The machine that is ready to execute the instruction at hand: its scratch state is empty,
    /// and the instruction was read.
    pub open spec fn readied(self) -> Self {
        self.scratch_reset().instruction_taken()
    }

    /// Whether a step can begin.
    pub open spec fn can_begin_step(self, config: VmConfiguration, start: Start) -> bool {
        &&& self.scratch_reset().can_take_instruction()
        &&& self.scratch_reset().decoded() is Some
        &&& config.info_at.valid()
        &&& config.stop_at.valid()
        &&& config.info_at.triggers(self.instruction_counter as nat)
            ==> self.readied().can_report(start.step as nat)
    }

    /// What stands first in the way of a step, if anything does.
    pub open spec fn step_error(self, config: VmConfiguration, start: Start) -> Option<StepError> {
        let reset = self.scratch_reset();
        if !reset.can_take_instruction() {
            Some(StepError::UnreadableInstruction)
        } else if reset.decoded() is None {
            Some(StepError::UnhandledInstruction(reset.instruction_word()))
        } else {
            let opcode = reset.decoded()->0;
            let instruction = reset.instruction_word();
            if !config.info_at.valid() {
                Some(StepError::UndefinedInfoFrequency(opcode, instruction))
            } else if config.info_at.triggers(self.instruction_counter as nat)
                && !self.readied().can_report(start.step as nat) {
                Some(StepError::NoInformation(opcode, instruction))
            } else if !config.stop_at.valid() {
                Some(StepError::UndefinedStopFrequency(opcode, instruction))
            } else {
                None
            }
        }
    }

    /// Whether a step executes the instruction `opcode`: it is the one at hand, and the run does
    /// not stop here.
    pub open spec fn executes(self, config: VmConfiguration, opcode: Instruction) -> bool {
        &&& !config.stop_at.triggers(self.instruction_counter as nat)
        &&& self.scratch_reset().decoded() == Some(opcode)
    }

    /// The machine after a step has begun: it is ready for the instruction at hand, and halted if
    /// the run stops here.
    pub open spec fn begun(self, config: VmConfiguration) -> Self {
        if config.stop_at.triggers(self.instruction_counter as nat) {
            Machine { halt: true, ..self.readied() }
        } else {
            self.readied()
        }
    }

    /// The machine that starts from `state` with pages of `page_size` bytes.
    pub open spec fn initial(page_size: usize, state: State, preimage_oracle: O) -> Self {
        Machine {
            instruction_counter: crate::words::low_word(state.step as int),
            memory: Seq::new(
                state.memory@.len(),
                |i: int|
                    (state.memory@[i].index, padded(state.memory@[i].data@, page_size as nat)),
            ),
            last_memory_accesses: seq![0usize, 0, 0],
            memory_write_index: Seq::new(
                state.memory@.len(),
                |i: int| (state.memory@[i].index, Seq::new(page_size as nat, |j: int| 0u32)),
            ),
            last_memory_write_index_accesses: seq![0usize, 0, 0],
            registers: state.registers@ + seq![
                state.hi,
                state.lo,
                state.pc,
                state.next_pc,
                state.heap,
            ] + Seq::new(8, |i: int| key_word(state.preimage_key@, i)) + seq![
                state.preimage_offset,
            ],
            registers_write_index: Seq::new(NUM_REGISTERS as nat, |i: int| 0u32),
            scratch_state_idx: 0,
            scratch_state: Seq::new(SCRATCH_SIZE as nat, |i: int| Fp::zero_element()),
            halt: state.exited,
            last_hint: hint_bytes(state.last_hint),
            preimage_oracle,
            keccak_state: None,
        }
    }
}

} // verus!
