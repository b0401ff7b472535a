//! The environment in which the witness of an execution is generated.

use crate::cannon::{State, StepFrequency, PAGE_ADDRESS_MASK, PAGE_ADDRESS_SIZE, PAGE_SIZE};
use crate::column::Column;
use crate::field::Field;
use crate::instruction::{decode_word, Instruction};
use crate::laws;
use crate::machine;
use crate::machine::Machine;
use crate::registers::Registers;
use crate::step::StepError;
use crate::units;
use crate::words;
use vstd::prelude::*;

verus! {

pub const NUM_GLOBAL_LOOKUP_TERMS: usize = 1;

pub const NUM_DECODING_LOOKUP_TERMS: usize = 2;

pub const NUM_INSTRUCTION_LOOKUP_TERMS: usize = 5;

pub const NUM_LOOKUP_TERMS: usize = NUM_GLOBAL_LOOKUP_TERMS + NUM_DECODING_LOOKUP_TERMS
    + NUM_INSTRUCTION_LOOKUP_TERMS;

/// The number of cells of the scratch state.
pub const SCRATCH_SIZE: usize = 80;

/// What system calls leave for later ones.
#[derive(Clone)]
pub struct SyscallEnv {
    pub last_hint: Option<Vec<u8>>,
}

impl Default for SyscallEnv {
    fn default() -> (env: SyscallEnv)
        ensures
            env.last_hint is None,
    {
        SyscallEnv { last_hint: None }
    }
}

impl SyscallEnv {
    /// Takes what `state` holds of earlier system calls.
    pub fn create(state: &State) -> (env: SyscallEnv)
        ensures
            machine::hint_bytes(env.last_hint) == machine::hint_bytes(state.last_hint),
    {
        let last_hint = match &state.last_hint {
            Some(bytes) => {
                let copy = bytes.clone();
                assert(copy@ =~= bytes@);
                Some(copy)
            },
            None => None,
        };
        SyscallEnv { last_hint }
    }
}

/// The part of the witness that belongs to the Keccak permutation.
pub struct KeccakEnv<Fp> {
    /// The constant in each column, by position.
    pub keccak_state: Vec<Fp>,
}

/// The machine together with the witness of the step at hand. `O` is the type of the oracle from
/// which preimages are had.
pub struct Env<Fp, O> {
    pub instruction_counter: u32,
    pub memory: Vec<(u32, Vec<u8>)>,
    pub last_memory_accesses: [usize; 3],
    pub memory_write_index: Vec<(u32, Vec<u32>)>,
    pub last_memory_write_index_accesses: [usize; 3],
    pub registers: Registers<u32>,
    pub registers_write_index: Registers<u32>,
    pub scratch_state_idx: usize,
    pub scratch_state: [Fp; SCRATCH_SIZE],
    pub halt: bool,
    pub syscall_env: SyscallEnv,
    pub preimage_oracle: O,
    pub keccak_env: Option<KeccakEnv<Fp>>,
}

impl<Fp, O> View for Env<Fp, O> {
    type V = Machine<Fp, O>;

    open spec fn view(&self) -> Machine<Fp, O> {
        Machine {
            instruction_counter: self.instruction_counter,
            memory: Seq::new(
                self.memory@.len(),
                |i: int| (self.memory@[i].0, self.memory@[i].1@),
            ),
            last_memory_accesses: self.last_memory_accesses@,
            memory_write_index: Seq::new(
                self.memory_write_index@.len(),
                |i: int| (self.memory_write_index@[i].0, self.memory_write_index@[i].1@),
            ),
            last_memory_write_index_accesses: self.last_memory_write_index_accesses@,
            registers: self.registers@,
            registers_write_index: self.registers_write_index@,
            scratch_state_idx: self.scratch_state_idx,
            scratch_state: self.scratch_state@,
            halt: self.halt,
            last_hint: machine::hint_bytes(self.syscall_env.last_hint),
            preimage_oracle: self.preimage_oracle,
            keccak_state: match self.keccak_env {
                Some(env) => Some(env.keccak_state@),
                None => None,
            },
        }
    }
}

/// Splits an address into its page and its place within the page.
pub(crate) fn split_address(addr: u32) -> (parts: (u32, usize))
    ensures
        parts.0 == machine::page_of(addr),
        parts.1 == machine::offset_of(addr),
{
    proof {
        assert(addr >> 12 == addr / 4096) by (bit_vector);
        assert(addr & 4095 == addr % 4096) by (bit_vector);
    }
    (addr >> PAGE_ADDRESS_SIZE, (addr & PAGE_ADDRESS_MASK) as usize)
}

/// Returns a scratch state of zeros.
fn fresh_scratch_state<Fp: Field>() -> (scratch: [Fp; SCRATCH_SIZE])
    ensures
        scratch@ == Seq::new(SCRATCH_SIZE as nat, |i: int| Fp::zero_element()),
{
    let scratch = [Fp::zero(); SCRATCH_SIZE];
    assert(scratch@ =~= Seq::new(SCRATCH_SIZE as nat, |i: int| Fp::zero_element()));
    scratch
}

/// Returns the bytes of `data` with zeros up to the length `size`.
fn pad(data: Vec<u8>, size: usize) -> (bytes: Vec<u8>)
    requires
        data@.len() <= size,
    ensures
        bytes@ == machine::padded(data@, size as nat),
{
    let mut bytes = data;
    while bytes.len() < size
        invariant
            data@.len() <= bytes@.len() <= size,
            forall|i: int| 0 <= i < data@.len() ==> bytes@[i] == data@[i],
            forall|i: int| data@.len() <= i < bytes@.len() ==> bytes@[i] == 0,
        decreases size - bytes@.len(),
    {
        bytes.push(0);
    }
    assert(bytes@ =~= machine::padded(data@, size as nat));
    bytes
}

impl<Fp: Field, O> Env<Fp, O> {
    /// Sets up the machine that `state` describes, with pages of `page_size` bytes.
    pub fn create(page_size: usize, state: State, preimage_oracle: O) -> (env: Self)
        requires
            forall|i: int|
                0 <= i < state.memory@.len() ==> (#[trigger] state.memory@[i]).data@.len()
                    <= page_size,
        ensures
            env@ == Machine::<Fp, O>::initial(page_size, state, preimage_oracle),
    {
        let syscall_env = SyscallEnv::create(&state);

        let mut memory: Vec<(u32, Vec<u8>)> = Vec::new();
        let mut memory_write_index: Vec<(u32, Vec<u32>)> = Vec::new();
        let mut i: usize = 0;
        while i < state.memory.len()
            invariant
                i <= state.memory@.len(),
                forall|j: int|
                    0 <= j < state.memory@.len() ==> (#[trigger] state.memory@[j]).data@.len()
                        <= page_size,
                memory@.len() == i,
                memory_write_index@.len() == i,
                forall|j: int|
                    0 <= j < i ==> {
                        &&& (#[trigger] memory@[j]).0 == state.memory@[j].index
                        &&& memory@[j].1@ == machine::padded(
                            state.memory@[j].data@,
                            page_size as nat,
                        )
                    },
                forall|j: int|
                    0 <= j < i ==> {
                        &&& (#[trigger] memory_write_index@[j]).0 == state.memory@[j].index
                        &&& memory_write_index@[j].1@ == Seq::new(page_size as nat, |k: int| 0u32)
                    },
            decreases state.memory@.len() - i,
        {
            let page = &state.memory[i];
            let data = page.data.clone();
            assert(data@ =~= page.data@);
            memory.push((page.index, pad(data, page_size)));
            let untouched = vec![0u32; page_size];
            assert(untouched@ =~= Seq::new(page_size as nat, |k: int| 0u32));
            memory_write_index.push((page.index, untouched));
            i = i + 1;
        }

        let mut preimage_key: [u32; 8] = [0; 8];
        let mut i: usize = 0;
        while i < 8
            invariant
                i <= 8,
                forall|j: int|
                    0 <= j < i ==> preimage_key@[j] == machine::key_word(state.preimage_key@, j),
            decreases 8 - i,
        {
            preimage_key[i] = words::join_bytes(
                state.preimage_key[4 * i],
                state.preimage_key[4 * i + 1],
                state.preimage_key[4 * i + 2],
                state.preimage_key[4 * i + 3],
            );
            i = i + 1;
        }

        let registers = Registers {
            general_purpose: state.registers,
            hi: state.hi,
            lo: state.lo,
            current_instruction_pointer: state.pc,
            next_instruction_pointer: state.next_pc,
            heap_pointer: state.heap,
            preimage_key,
            preimage_offset: state.preimage_offset,
        };

        proof {
            let step = state.step;
            assert(step as u32 == step % 0x1_0000_0000) by (bit_vector);
        }
        let env = Env {
            instruction_counter: state.step as u32,
            memory,
            last_memory_accesses: [0; 3],
            memory_write_index,
            last_memory_write_index_accesses: [0; 3],
            registers,
            registers_write_index: Registers::default(),
            scratch_state_idx: 0,
            scratch_state: fresh_scratch_state(),
            halt: state.exited,
            syscall_env,
            preimage_oracle,
            keccak_env: None,
        };
        proof {
            let model = Machine::<Fp, O>::initial(page_size, state, preimage_oracle);
            assert(env@.memory =~= model.memory);
            assert(env@.memory_write_index =~= model.memory_write_index);
            assert(env@.registers =~= model.registers);
            assert(env@ =~= model);
        }
        env
    }

    /// Empties the scratch state.
    pub fn reset_scratch_state(&mut self)
        ensures
            final(self)@ == old(self)@.scratch_reset(),
    {
        self.scratch_state_idx = 0;
        self.scratch_state = fresh_scratch_state();
    }

    /// Writes the element for `value` to the column.
    pub fn write_column(&mut self, column: Column, value: u64)
        requires
            old(self)@.has_column(column),
        ensures
            final(self)@ == old(self)@.with_number(column, value),
    {
        self.write_field_column(column, Fp::from_u64(value))
    }

    /// Writes `value` to the column.
    pub fn write_field_column(&mut self, column: Column, value: Fp)
        requires
            old(self)@.has_column(column),
        ensures
            final(self)@ == old(self)@.with_column(column, value),
    {
        match column {
            Column::ScratchState(idx) => {
                self.scratch_state[idx] = value;
            },
            Column::KeccakState(col) => {
                if let Some(keccak_env) = &mut self.keccak_env {
                    keccak_env.keccak_state[col] = value;
                }
            },
        }
        assert(self@ =~= old(self)@.with_column(column, value));
    }

    /// Notes that slot `i` of memory was used.
    pub fn update_last_memory_access(&mut self, i: usize)
        ensures
            final(self)@ == (Machine {
                last_memory_accesses: machine::renewed(old(self)@.last_memory_accesses, i as int),
                ..old(self)@
            }),
    {
        let i_0: usize = self.last_memory_accesses[0];
        let i_1: usize = self.last_memory_accesses[1];
        self.last_memory_accesses = [i, i_0, i_1];
        assert(self@.last_memory_accesses =~= machine::renewed(
            old(self)@.last_memory_accesses,
            i as int,
        ));
    }

    /// Returns the slot of memory for `page`. The slots that were used last come first; a page
    /// that memory does not have is allocated, with zeros.
    pub fn get_memory_page_index(&mut self, page: u32) -> (slot: usize)
        requires
            old(self)@.can_look_up(page),
        ensures
            slot == old(self)@.memory_slot(page),
            final(self)@ == old(self)@.memory_looked_up(page),
    {
        let ghost m = self@;
        let ghost recent = m.last_memory_accesses;
        let ghost ids = machine::page_ids(m.memory_write_index);
        proof {
            machine::held(recent, ids).index_of_first_ensures(page);
            machine::page_ids(m.memory).index_of_first_ensures(page);
        }
        let mut k: usize = 0;
        while k < 3
            invariant
                k <= 3,
                self@ == m,
                m == old(self)@,
                recent == m.last_memory_accesses,
                ids == machine::page_ids(m.memory_write_index),
                m.can_look_up(page),
                forall|j: int| 0 <= j < k ==> machine::held(recent, ids)[j] != page,
            decreases 3 - k,
        {
            let i: usize = self.last_memory_accesses[k];
            assert(recent[k as int] == i);
            if self.memory_write_index[i].0 == page {
                proof {
                    machine::held(recent, ids).index_of_first_ensures(page);
                    assert(machine::held(recent, ids)[k as int] == page);
                }
                return i;
            }
            k = k + 1;
        }
        assert(!machine::held(recent, ids).contains(page));
        let mut i: usize = 0;
        while i < self.memory.len()
            invariant
                i <= self.memory@.len(),
                self@ == m,
                m == old(self)@,
                machine::recent_slot(
                    m.last_memory_accesses,
                    machine::page_ids(m.memory_write_index),
                    page,
                ) is None,
                forall|j: int| 0 <= j < i ==> machine::page_ids(m.memory)[j] != page,
            decreases self.memory@.len() - i,
        {
            if self.memory[i].0 == page {
                proof {
                    machine::page_ids(m.memory).index_of_first_ensures(page);
                    assert(machine::page_ids(m.memory)[i as int] == page);
                }
                self.update_last_memory_access(i);
                return i;
            }
            i = i + 1;
        }
        assert(!machine::page_ids(m.memory).contains(page));
        // Memory not found; dynamically allocate
        let memory = vec![0u8; PAGE_SIZE as usize];
        assert(memory@ =~= machine::blank(0u8));
        self.memory.push((page, memory));
        assert(self@.memory =~= m.memory.push((page, machine::blank(0u8))));
        let i: usize = self.memory.len() - 1;
        self.update_last_memory_access(i);
        i
    }

    /// Notes that slot `i` of the write index was used.
    pub fn update_last_memory_write_index_access(&mut self, i: usize)
        ensures
            final(self)@ == (Machine {
                last_memory_write_index_accesses: machine::renewed(
                    old(self)@.last_memory_write_index_accesses,
                    i as int,
                ),
                ..old(self)@
            }),
    {
        let i_0: usize = self.last_memory_write_index_accesses[0];
        let i_1: usize = self.last_memory_write_index_accesses[1];
        self.last_memory_write_index_accesses = [i, i_0, i_1];
        assert(self@.last_memory_write_index_accesses =~= machine::renewed(
            old(self)@.last_memory_write_index_accesses,
            i as int,
        ));
    }

    /// Returns the slot of the write index for `page`. The slots that were used last come first; a
    /// page that the write index does not have is allocated, with zeros.
    pub fn get_memory_access_page_index(&mut self, page: u32) -> (slot: usize)
        requires
            old(self)@.can_look_up_access(page),
        ensures
            slot == old(self)@.access_slot(page),
            final(self)@ == old(self)@.access_looked_up(page),
            slot < final(self)@.memory_write_index.len(),
    {
        let ghost m = self@;
        let ghost recent = m.last_memory_write_index_accesses;
        let ghost ids = machine::page_ids(m.memory_write_index);
        proof {
            machine::held(recent, ids).index_of_first_ensures(page);
            ids.index_of_first_ensures(page);
        }
        let mut k: usize = 0;
        while k < 3
            invariant
                k <= 3,
                self@ == m,
                m == old(self)@,
                recent == m.last_memory_write_index_accesses,
                ids == machine::page_ids(m.memory_write_index),
                m.can_look_up_access(page),
                forall|j: int| 0 <= j < k ==> machine::held(recent, ids)[j] != page,
            decreases 3 - k,
        {
            let i: usize = self.last_memory_write_index_accesses[k];
            assert(recent[k as int] == i);
            if self.memory_write_index[i].0 == page {
                proof {
                    machine::held(recent, ids).index_of_first_ensures(page);
                    assert(machine::held(recent, ids)[k as int] == page);
                }
                return i;
            }
            k = k + 1;
        }
        assert(!machine::held(recent, ids).contains(page));
        let mut i: usize = 0;
        while i < self.memory_write_index.len()
            invariant
                i <= self.memory_write_index@.len(),
                self@ == m,
                m == old(self)@,
                ids == machine::page_ids(m.memory_write_index),
                machine::recent_slot(m.last_memory_write_index_accesses, ids, page) is None,
                forall|j: int| 0 <= j < i ==> ids[j] != page,
            decreases self.memory_write_index@.len() - i,
        {
            if self.memory_write_index[i].0 == page {
                proof {
                    ids.index_of_first_ensures(page);
                    assert(ids[i as int] == page);
                }
                self.update_last_memory_write_index_access(i);
                return i;
            }
            i = i + 1;
        }
        assert(!ids.contains(page));
        // Memory not found; dynamically allocate
        let memory_write_index = vec![0u32; PAGE_SIZE as usize];
        assert(memory_write_index@ =~= machine::blank(0u32));
        self.memory_write_index.push((page, memory_write_index));
        assert(self@.memory_write_index =~= m.memory_write_index.push(
            (page, machine::blank(0u32)),
        ));
        let i: usize = self.memory_write_index.len() - 1;
        self.update_last_memory_write_index_access(i);
        i
    }

    /// Reads the byte at the address, beside the witness.
    pub fn get_memory_direct(&mut self, addr: u32) -> (byte: u8)
        requires
            old(self)@.can_access_memory(addr),
        ensures
            byte == old(self)@.byte_read(addr),
            final(self)@ == old(self)@.byte_taken(addr),
    {
        let (page, page_address) = split_address(addr);
        let memory_idx: usize = self.get_memory_page_index(page);
        assert(self@.memory[memory_idx as int].1 == self.memory@[memory_idx as int].1@);
        self.memory[memory_idx].1[page_address]
    }

    /// Reads and decodes the instruction at hand. Returns it together with its word.
    pub fn decode_instruction(&mut self) -> (decoded: (Instruction, u32))
        requires
            old(self)@.can_take_instruction(),
            old(self)@.decoded() is Some,
        ensures
            decoded.0 == old(self)@.decoded()->0,
            decoded.1 == old(self)@.instruction_word(),
            final(self)@ == old(self)@.instruction_taken(),
    {
        self.try_decode_instruction().unwrap()
    }

    /// Whether the slots of memory that were used last can be looked through for `page`.
    fn can_look_up(&self, page: u32) -> (possible: bool)
        ensures
            possible == self@.can_look_up(page),
    {
        let ghost recent = self@.last_memory_accesses;
        let ghost ids = machine::page_ids(self@.memory_write_index);
        let mut k: usize = 0;
        while k < 3
            invariant
                k <= 3,
                recent == self@.last_memory_accesses,
                ids == machine::page_ids(self@.memory_write_index),
                forall|j: int| 0 <= j < k ==> machine::held(recent, ids)[j] != page,
                forall|j: int| 0 <= j < k ==> (#[trigger] recent[j]) < ids.len(),
            decreases 3 - k,
        {
            let i: usize = self.last_memory_accesses[k];
            assert(recent[k as int] == i);
            if i >= self.memory_write_index.len() {
                return false;
            }
            if self.memory_write_index[i].0 == page {
                assert(machine::held(recent, ids)[k as int] == page);
                return true;
            }
            k = k + 1;
        }
        true
    }

    /// Reads the byte at the address, beside the witness, where that is possible. The page is
    /// looked up in any case in which it can be.
    fn try_get_memory_direct(&mut self, addr: u32) -> (byte: Option<u8>)
        ensures
            byte is Some <==> old(self)@.can_access_memory(addr),
            byte matches Some(byte) ==> byte == old(self)@.byte_read(addr),
            final(self)@ == (if old(self)@.can_look_up(machine::page_of(addr)) {
                old(self)@.byte_taken(addr)
            } else {
                old(self)@
            }),
    {
        let (page, page_address) = split_address(addr);
        if !self.can_look_up(page) {
            return None;
        }
        let memory_idx: usize = self.get_memory_page_index(page);
        if memory_idx < self.memory.len() {
            assert(self@.memory[memory_idx as int].1 == self.memory@[memory_idx as int].1@);
            if page_address < self.memory[memory_idx].1.len() {
                return Some(self.memory[memory_idx].1[page_address]);
            }
        }
        None
    }

    /// Reads and decodes the instruction at hand, where that is possible. Returns it together with
    /// its word.
    pub fn try_decode_instruction(&mut self) -> (decoded: Result<(Instruction, u32), StepError>)
        ensures
            match decoded {
                Ok((opcode, instruction)) => {
                    &&& old(self)@.can_take_instruction()
                    &&& old(self)@.decoded() == Some(opcode)
                    &&& instruction == old(self)@.instruction_word()
                    &&& final(self)@ == old(self)@.instruction_taken()
                },
                Err(StepError::UnhandledInstruction(word)) => {
                    &&& old(self)@.can_take_instruction()
                    &&& old(self)@.decoded() is None
                    &&& word == old(self)@.instruction_word()
                    &&& final(self)@ == old(self)@.instruction_taken()
                },
                Err(error) => {
                    &&& error == StepError::UnreadableInstruction
                    &&& !old(self)@.can_take_instruction()
                },
            },
            final(self)@ == old(self)@.instruction_tried(),
    {
        let ghost m = self@;
        let pc: u32 = self.registers.current_instruction_pointer;
        let mut bytes: [u8; 4] = [0; 4];
        let mut n: usize = 0;
        while n < 4
            invariant
                n <= 4,
                pc == m.pc(),
                m == old(self)@,
                self@ == m.bytes_taken(n as nat),
                forall|k: nat| k < n ==> #[trigger] m.can_take_byte(k),
                forall|k: int| 0 <= k < n ==> bytes@[k] == #[trigger] m.instruction_byte(k as nat),
            decreases 4 - n,
        {
            if pc > u32::MAX - n as u32 {
                proof {
                    assert(!m.can_take_byte(n as nat));
                    laws::law_attempt_to_read_the_instruction(m);
                }
                return Err(StepError::UnreadableInstruction);
            }
            match self.try_get_memory_direct(pc + n as u32) {
                Some(byte) => {
                    assert(m.can_take_byte(n as nat));
                    bytes[n] = byte;
                },
                None => {
                    proof {
                        assert(!m.can_take_byte(n as nat));
                        laws::law_attempt_to_read_the_instruction(m);
                    }
                    return Err(StepError::UnreadableInstruction);
                },
            }
            n = n + 1;
        }
        proof {
            assert(bytes@[0] == m.instruction_byte(0));
            assert(bytes@[1] == m.instruction_byte(1));
            assert(bytes@[2] == m.instruction_byte(2));
            assert(bytes@[3] == m.instruction_byte(3));
            laws::lemma_taking_stays_in_the_step(m, 4);
            laws::law_attempt_to_read_the_instruction(m);
        }
        let instruction: u32 = words::join_bytes(bytes[0], bytes[1], bytes[2], bytes[3]);
        let number: u32 = self.registers.general_purpose[2];
        let fd: u32 = self.registers.general_purpose[4];
        assert(self@.registers[2] == number && self@.registers[4] == fd);
        match decode_word(instruction, number, fd) {
            Some(opcode) => Ok((opcode, instruction)),
            None => Err(StepError::UnhandledInstruction(instruction)),
        }
    }

    /// Whether the frequency includes the step at hand.
    pub fn should_trigger_at(&self, at: &StepFrequency) -> (triggered: bool)
        requires
            at.valid(),
        ensures
            triggered == at.triggers(self@.instruction_counter as nat),
    {
        let m: u64 = self.instruction_counter as u64;
        match at {
            StepFrequency::Never => false,
            StepFrequency::Always => true,
            StepFrequency::Exactly(n) => *n == m,
            StepFrequency::Every(n) => m % *n == 0,
        }
    }

    /// Says how much memory there is.
    pub fn memory_usage(&self) -> (text: String)
        requires
            self@.memory.len() * PAGE_SIZE <= usize::MAX,
        ensures
            text@ == units::memory_size_text(self@.memory.len() * PAGE_SIZE as nat),
    {
        let total: usize = self.memory.len() * PAGE_SIZE as usize;
        units::memory_size(total)
    }

    /// Returns the page of the instruction at hand and its place within the page.
    pub fn page_address(&self) -> (parts: (u32, usize))
        ensures
            parts.0 == machine::page_of(self@.pc()),
            parts.1 == machine::offset_of(self@.pc()),
    {
        split_address(self.registers.current_instruction_pointer)
    }

    /// Returns the word of the instruction at hand, if memory has its page.
    pub fn get_opcode(&self) -> (word: Option<u32>)
        requires
            self@.can_get_opcode(),
        ensures
            word == self@.opcode(),
    {
        let (page_id, page_address) = self.page_address();
        let ghost ids = machine::page_ids(self@.memory);
        proof {
            ids.index_of_first_ensures(page_id);
        }
        let mut i: usize = 0;
        while i < self.memory.len()
            invariant
                i <= self.memory@.len(),
                ids == machine::page_ids(self@.memory),
                page_id == machine::page_of(self@.pc()),
                page_address == machine::offset_of(self@.pc()),
                self@.can_get_opcode(),
                forall|j: int| 0 <= j < i ==> ids[j] != page_id,
            decreases self.memory@.len() - i,
        {
            if page_id == self.memory[i].0 {
                proof {
                    ids.index_of_first_ensures(page_id);
                    assert(ids[i as int] == page_id);
                    assert(self@.memory[i as int].1 == self.memory@[i as int].1@);
                }
                let memory = &self.memory[i].1;
                return Some(
                    words::join_bytes(
                        memory[page_address],
                        memory[page_address + 1],
                        memory[page_address + 2],
                        memory[page_address + 3],
                    ),
                );
            }
            i = i + 1;
        }
        assert(!ids.contains(page_id));
        None
    }
}

} // verus!
