//! What holds of the state that a run starts from, of the witness, and of the steps of a run.

use crate::bn254;
use crate::cannon::{Meta, Start, State, StepFrequency, VmConfiguration};
use crate::column::Column;
use crate::field::Field;
use crate::instruction;
use crate::instruction::Instruction;
use crate::laws;
use crate::machine;
use crate::machine::Machine;
use crate::memory_laws;
use crate::paging;
use crate::registers;
use crate::step::{StepError, StepInfo, StepReport};
use crate::units;
use crate::witness::Env;
use crate::words;
use vstd::prelude::*;

verus! {

/// The model of an environment shows each of its fields as it is: every page with its index and its
/// contents, slot by slot, every register, and every column.
pub proof fn law_model_of_an_environment<Fp, O>(env: Env<Fp, O>, i: int)
    ensures
        env@.instruction_counter == env.instruction_counter,
        env@.memory.len() == env.memory@.len(),
        0 <= i < env.memory@.len() ==> env@.memory[i].0 == env.memory@[i].0 && env@.memory[i].1
            == env.memory@[i].1@,
        env@.last_memory_accesses == env.last_memory_accesses@,
        env@.memory_write_index.len() == env.memory_write_index@.len(),
        0 <= i < env.memory_write_index@.len() ==> env@.memory_write_index[i].0
            == env.memory_write_index@[i].0 && env@.memory_write_index[i].1
            == env.memory_write_index@[i].1@,
        env@.last_memory_write_index_accesses == env.last_memory_write_index_accesses@,
        env@.registers == env.registers@,
        env@.registers_write_index == env.registers_write_index@,
        env@.scratch_state_idx == env.scratch_state_idx,
        env@.scratch_state == env.scratch_state@,
        env@.halt == env.halt,
        env@.preimage_oracle == env.preimage_oracle,
        env.syscall_env.last_hint is None <==> env@.last_hint is None,
        env.syscall_env.last_hint matches Some(hint) ==> env@.last_hint == Some(hint@),
        env.keccak_env is None <==> env@.keccak_state is None,
        env.keccak_env matches Some(keccak_env) ==> env@.keccak_state == Some(
            keccak_env.keccak_state@,
        ),
        env@.pc() == env.registers.current_instruction_pointer,
        env@.pc() == env@.registers[34],
{
    registers::law_registers_by_index(env.registers, 0);
}

/// A hint is seen byte by byte.
pub proof fn law_hint(hint: Option<Vec<u8>>)
    ensures
        hint is None <==> machine::hint_bytes(hint) is None,
        hint matches Some(bytes) ==> machine::hint_bytes(hint) == Some(bytes@),
{
}

/// The columns are the cells of the scratch state and, where there is one, of the Keccak state. An
/// element that is written to a column is in the cell of that column afterwards; all other cells
/// and all else stay as they were.
pub proof fn law_element_in_a_column<Fp, O>(m: Machine<Fp, O>, idx: usize, value: Fp, other: int)
    ensures
        m.has_column(Column::ScratchState(idx)) <==> idx < m.scratch_state.len(),
        m.has_column(Column::KeccakState(idx)) <==> m.keccak_state is Some && idx
            < m.keccak_state->0.len(),
        m.has_column(Column::ScratchState(idx)) ==> ({
            let written = m.with_column(Column::ScratchState(idx), value);
            &&& written.scratch_state.len() == m.scratch_state.len()
            &&& written.scratch_state[idx as int] == value
            &&& 0 <= other < m.scratch_state.len() && other != idx ==> written.scratch_state[other]
                == m.scratch_state[other]
            &&& written == (Machine { scratch_state: written.scratch_state, ..m })
        }),
        m.has_column(Column::KeccakState(idx)) ==> ({
            let written = m.with_column(Column::KeccakState(idx), value);
            let (before, after) = (m.keccak_state->0, written.keccak_state->0);
            &&& written.keccak_state is Some
            &&& after.len() == before.len()
            &&& after[idx as int] == value
            &&& 0 <= other < before.len() && other != idx ==> after[other] == before[other]
            &&& written == (Machine { keccak_state: written.keccak_state, ..m })
        }),
{
}

/// A number that is written to a column is there as the element that stands for it, whatever the
/// number; all other cells and all else stay as they were.
pub proof fn law_number_in_a_column<Fp: Field, O>(
    m: Machine<Fp, O>,
    idx: usize,
    value: u64,
    other: int,
)
    ensures
        m.has_column(Column::ScratchState(idx)) ==> ({
            let written = m.with_number(Column::ScratchState(idx), value);
            &&& written.scratch_state.len() == m.scratch_state.len()
            &&& written.scratch_state[idx as int] == Fp::embed(value)
            &&& 0 <= other < m.scratch_state.len() && other != idx ==> written.scratch_state[other]
                == m.scratch_state[other]
            &&& written == (Machine { scratch_state: written.scratch_state, ..m })
        }),
        m.has_column(Column::KeccakState(idx)) ==> ({
            let written = m.with_number(Column::KeccakState(idx), value);
            let (before, after) = (m.keccak_state->0, written.keccak_state->0);
            &&& written.keccak_state is Some
            &&& after.len() == before.len()
            &&& after[idx as int] == Fp::embed(value)
            &&& 0 <= other < before.len() && other != idx ==> after[other] == before[other]
            &&& written == (Machine { keccak_state: written.keccak_state, ..m })
        }),
{
}

/// Over the scalar field of BN254 the cell that a number is written to has that number as its
/// value.
pub proof fn law_number_in_a_cell<O>(m: Machine<bn254::Fp, O>, idx: usize, value: u64)
    requires
        idx < m.scratch_state.len(),
    ensures
        m.with_number(Column::ScratchState(idx), value).scratch_state[idx as int].value() == value,
{
    bn254::law_embed_is_injective(value, value);
}

/// The scratch column that is allocated is the one after those allocated since the scratch state
/// was emptied. Allocation counts and does nothing else. An empty scratch state has 80 cells, all
/// zero, and emptying it changes nothing else.
pub proof fn law_scratch_columns<Fp: Field, O>(m: Machine<Fp, O>, n: nat, i: int)
    requires
        m.scratch_state_idx + n <= usize::MAX,
    ensures
        m.next_scratch() == Column::ScratchState(m.scratch_state_idx),
        m.scratch_allocated(n).scratch_state_idx == m.scratch_state_idx + n,
        m.scratch_allocated(n) == (Machine {
            scratch_state_idx: m.scratch_allocated(n).scratch_state_idx,
            ..m
        }),
        m.scratch_reset().scratch_state_idx == 0,
        m.scratch_reset().scratch_state.len() == 80,
        0 <= i < 80 ==> m.scratch_reset().scratch_state[i] == Fp::zero_element(),
        m.scratch_reset() == (Machine {
            scratch_state_idx: 0,
            scratch_state: m.scratch_reset().scratch_state,
            ..m
        }),
{
}

/// The machine made from a state is at the step of the state, up to a multiple of `2^32`. Each
/// register holds what the state gives for it, the words of the preimage key being made of four
/// bytes each, the most significant one first. Nothing has been written yet, the scratch state is
/// empty, and there is no Keccak state.
pub proof fn law_registers_of_a_state<Fp: Field, O>(
    page_size: usize,
    state: State,
    preimage_oracle: O,
    i: int,
)
    ensures
        ({
            let m = Machine::<Fp, O>::initial(page_size, state, preimage_oracle);
            let key = state.preimage_key@;
            &&& state.step <= u32::MAX ==> m.instruction_counter == state.step
            &&& (state.step - m.instruction_counter) % 0x1_0000_0000 == 0
            &&& m.registers.len() == 46
            &&& 0 <= i < 32 ==> m.registers[i] == state.registers@[i]
            &&& m.registers[32] == state.hi
            &&& m.registers[33] == state.lo
            &&& m.registers[34] == state.pc
            &&& m.registers[35] == state.next_pc
            &&& m.registers[36] == state.heap
            &&& 0 <= i < 8 ==> m.registers[37 + i] == key[4 * i] * 0x100_0000 + key[4 * i + 1]
                * 0x1_0000 + key[4 * i + 2] * 0x100 + key[4 * i + 3]
            &&& m.registers[45] == state.preimage_offset
            &&& m.registers_write_index.len() == 46
            &&& 0 <= i < 46 ==> m.registers_write_index[i] == 0
            &&& m.scratch_state_idx == 0
            &&& m.scratch_state.len() == 80
            &&& 0 <= i < 80 ==> m.scratch_state[i] == Fp::zero_element()
            &&& m.halt == state.exited
            &&& m.preimage_oracle == preimage_oracle
            &&& m.keccak_state is None
            &&& state.last_hint is None <==> m.last_hint is None
            &&& state.last_hint matches Some(hint) ==> m.last_hint == Some(hint@)
        }),
{
}

/// The machine made from a state has the pages of the state, slot by slot, each with its index and
/// its contents, followed by zeros up to the size of a page. Its write index has the same pages and
/// is zero everywhere. The slots used last are all the first one.
pub proof fn law_pages_of_a_state<Fp: Field, O>(
    page_size: usize,
    state: State,
    preimage_oracle: O,
    i: int,
    k: int,
)
    ensures
        ({
            let m = Machine::<Fp, O>::initial(page_size, state, preimage_oracle);
            let data = state.memory@[i].data@;
            &&& m.memory.len() == state.memory@.len()
            &&& m.memory_write_index.len() == state.memory@.len()
            &&& m.last_memory_accesses == seq![0usize, 0, 0]
            &&& m.last_memory_write_index_accesses == seq![0usize, 0, 0]
            &&& 0 <= i < state.memory@.len() ==> {
                &&& m.memory[i].0 == state.memory@[i].index
                &&& m.memory[i].1.len() == page_size
                &&& 0 <= k < data.len() && k < page_size ==> m.memory[i].1[k] == data[k]
                &&& data.len() <= k < page_size ==> m.memory[i].1[k] == 0
                &&& m.memory_write_index[i].0 == state.memory@[i].index
                &&& m.memory_write_index[i].1.len() == page_size
                &&& 0 <= k < page_size ==> m.memory_write_index[i].1[k] == 0
            }
        }),
{
}

/// In a machine made from a state, the byte at place `k` of a page of the state is read at 4096
/// times the index of the page plus `k`: what the page holds there, or zero after its end. Where
/// several pages have the same index, the first one counts.
pub proof fn law_bytes_of_a_state<Fp: Field, O>(
    state: State,
    preimage_oracle: O,
    i: int,
    k: int,
    addr: u32,
)
    requires
        forall|j: int|
            0 <= j < state.memory@.len() ==> (#[trigger] state.memory@[j]).data@.len() <= 4096,
        0 <= i < state.memory@.len(),
        forall|j: int|
            0 <= j < i ==> (#[trigger] state.memory@[j]).index != state.memory@[i].index,
        0 <= k < 4096,
        addr == state.memory@[i].index * 4096 + k,
    ensures
        ({
            let m = Machine::<Fp, O>::initial(4096, state, preimage_oracle);
            &&& m.can_access_memory(addr)
            &&& m.byte_read(addr) == (if k < state.memory@[i].data@.len() {
                state.memory@[i].data@[k]
            } else {
                0
            })
            &&& m.can_access_write_index(addr)
            &&& m.access_read(addr) == 0
        }),
{
    let m = Machine::<Fp, O>::initial(4096, state, preimage_oracle);
    laws::law_initial_machine::<Fp, O>(state, preimage_oracle, addr);
    assert forall|j: int| 0 <= j < i implies (#[trigger] m.memory[j]).0 != m.memory[i].0 by {
        assert(state.memory@[j].index != state.memory@[i].index);
    }
    memory_laws::law_byte_of_an_address(m, i, k, addr, 0);
    laws::law_read_gives_the_content(m, addr);
}

/// The instruction at hand is read byte by byte, from its address on, each byte after the page that
/// it lies in has been looked up. The first byte is worth the most. What the word encodes is decoded
/// with the number in register 2 and the file descriptor in register 4.
pub proof fn law_bytes_of_the_instruction<Fp, O>(m: Machine<Fp, O>)
    requires
        m.registers[34] + 3 <= u32::MAX,
    ensures
        ({
            let pc = m.registers[34];
            let m1 = m.memory_looked_up(pc / 4096);
            let m2 = m1.memory_looked_up(((pc + 1) / 4096) as u32);
            let m3 = m2.memory_looked_up(((pc + 2) / 4096) as u32);
            let m4 = m3.memory_looked_up(((pc + 3) / 4096) as u32);
            &&& m.instruction_taken() == m4
            &&& m.instruction_word() == m.byte_read(pc) * 0x100_0000 + m1.byte_read((pc + 1) as u32)
                * 0x1_0000 + m2.byte_read((pc + 2) as u32) * 0x100 + m3.byte_read((pc + 3) as u32)
            &&& m.decoded() == instruction::instruction_of(
                m.instruction_word(),
                m.registers[2],
                m.registers[4],
            )
            &&& m.can_take_instruction() <==> {
                &&& m.can_access_memory(pc)
                &&& m1.can_access_memory((pc + 1) as u32)
                &&& m2.can_access_memory((pc + 2) as u32)
                &&& m3.can_access_memory((pc + 3) as u32)
            }
        }),
{
    reveal_with_fuel(Machine::bytes_taken, 5);
    let pc = m.pc();
    words::law_big_endian(
        m.instruction_byte(0),
        m.instruction_byte(1),
        m.instruction_byte(2),
        m.instruction_byte(3),
    );
    if m.can_take_instruction() {
        assert(m.bytes_taken(0).can_access_memory((pc + 0) as u32));
        assert(m.bytes_taken(1).can_access_memory((pc + 1) as u32));
        assert(m.bytes_taken(2).can_access_memory((pc + 2) as u32));
        assert(m.bytes_taken(3).can_access_memory((pc + 3) as u32));
    } else {
        let n = choose|n: nat|
            n < 4 && !(#[trigger] m.bytes_taken(n)).can_access_memory((pc + n) as u32);
        assert(n == 0 || n == 1 || n == 2 || n == 3);
    }
}

/// An attempt to read the instruction at hand that fails ends with the first byte that cannot be
/// read: the bytes before have been read, and the page of that byte has been looked up if it can
/// be.
pub proof fn law_attempt_that_fails<Fp, O>(m: Machine<Fp, O>, n: nat)
    requires
        n < 4,
        forall|k: nat|
            k < n ==> m.registers[34] + k <= u32::MAX && (#[trigger] m.bytes_taken(
                k,
            )).can_access_memory((m.registers[34] + k) as u32),
        m.registers[34] + n <= u32::MAX ==> !m.bytes_taken(n).can_access_memory(
            (m.registers[34] + n) as u32,
        ),
    ensures
        !m.can_take_instruction(),
        m.bytes_taken(0) == m,
        n > 0 ==> m.bytes_taken(n) == m.bytes_taken((n - 1) as nat).memory_looked_up(
            ((m.registers[34] + n - 1) / 4096) as u32,
        ),
        ({
            let (before, addr) = (m.bytes_taken(n), m.registers[34] + n);
            let page = (addr / 4096) as u32;
            m.instruction_tried() == (if addr <= u32::MAX && before.can_look_up(page) {
                before.memory_looked_up(page)
            } else {
                before
            })
        }),
{
    assert forall|k: nat| k < n implies #[trigger] m.can_take_byte(k) by {
        assert(m.bytes_taken(k).can_access_memory((m.registers[34] + k) as u32));
    }
    assert(!m.can_take_byte(n));
    assert(m.readable_bytes() == n) by {
        assert(n == 0 || n == 1 || n == 2 || n == 3);
        assert(n > 0 ==> m.can_take_byte(0));
        assert(n > 1 ==> m.can_take_byte(1));
        assert(n > 2 ==> m.can_take_byte(2));
    }
    laws::law_attempt_to_read_the_instruction(m);
}

/// The word that information shows is made of the four bytes from the address of the instruction
/// on, in the first page that has the address, the most significant byte first.
pub proof fn law_word_of_the_instruction<Fp, O>(m: Machine<Fp, O>, slot: int, k: int)
    requires
        0 <= slot < m.memory.len(),
        forall|j: int| 0 <= j < slot ==> (#[trigger] m.memory[j]).0 != m.memory[slot].0,
        0 <= k < 4096,
        m.registers[34] == m.memory[slot].0 * 4096 + k,
    ensures
        m.can_get_opcode() <==> k + 4 <= m.memory[slot].1.len(),
        m.opcode() is Some,
        m.opcode()->0 == m.memory[slot].1[k] * 0x100_0000 + m.memory[slot].1[k + 1] * 0x1_0000
            + m.memory[slot].1[k + 2] * 0x100 + m.memory[slot].1[k + 3],
{
    let ids = machine::page_ids(m.memory);
    let page = m.memory[slot].0;
    let data = m.memory[slot].1;
    memory_laws::law_parts_of_an_address(m.pc(), page, k);
    assert(ids[slot] == page);
    assert forall|j: int| 0 <= j < slot implies ids[j] != page by {
        assert(m.memory[j].0 != page);
    }
    paging::lemma_first_slot_is(ids, page, slot);
    words::law_big_endian(data[k], data[k + 1], data[k + 2], data[k + 3]);
}

/// There is no word to show where no page has the address of the instruction.
pub proof fn law_no_word_without_page<Fp, O>(m: Machine<Fp, O>)
    requires
        forall|j: int|
            0 <= j < m.memory.len() ==> m.registers[34] < (#[trigger] m.memory[j]).0 * 4096
                || m.memory[j].0 * 4096 + 4096 <= m.registers[34],
    ensures
        m.can_get_opcode(),
        m.opcode() is None,
{
    let ids = machine::page_ids(m.memory);
    let page = machine::page_of(m.pc());
    memory_laws::law_address_of_parts(m.pc());
    assert forall|j: int| 0 <= j < ids.len() implies ids[j] != page by {
        assert(m.pc() < m.memory[j].0 * 4096 || m.memory[j].0 * 4096 + 4096 <= m.pc());
    }
    assert(!ids.contains(page));
    paging::lemma_first_slot(ids, page);
}

/// Information on a step gives its number and its address, the word of the instruction, how many
/// steps of the run came before, the number of pages and the size of memory, at 4096 bytes for each
/// page, and the symbol of the address, or `n/a` if there is none.
pub proof fn law_information_on_a_step<Fp, O>(
    info: StepInfo,
    m: Machine<Fp, O>,
    meta: Meta,
    start: Start,
)
    requires
        info.is_about(m, meta, start),
    ensures
        info.step == m.instruction_counter,
        info.pc == m.registers[34],
        m.opcode() == Some(info.insn),
        start.step + info.how_many_steps == m.instruction_counter,
        info.pages == m.memory.len(),
        info.mem@ == units::memory_size_text((m.memory.len() * 4096) as nat),
        meta.symbol_at(m.registers[34]) matches Some(name) ==> info.name@ == name,
        meta.symbol_at(m.registers[34]) is None ==> info.name@ == seq!['n', '/', 'a'],
{
    reveal_strlit("n/a");
    assert("n/a"@ =~= seq!['n', '/', 'a']);
}

/// The report of a step gives the word at hand, the instruction that it encodes and its fields,
/// which make up the word. It holds information, on the step as it is after the word was read, if
/// and only if the frequency for it includes the step, and says that the run stops if and only if
/// the frequency for that does.
pub proof fn law_report_of_a_step<Fp: Field, O>(
    report: StepReport,
    m: Machine<Fp, O>,
    config: VmConfiguration,
    meta: Meta,
    start: Start,
)
    requires
        report.is_about(m, config, meta, start),
    ensures
        report.instruction == m.scratch_reset().instruction_word(),
        instruction::instruction_of(report.instruction, m.registers[2], m.registers[4]) == Some(
            report.opcode,
        ),
        ({
            let parts = report.instruction_parts;
            &&& report.instruction == parts.op_code * 0x400_0000 + parts.rs * 0x20_0000 + parts.rt
                * 0x1_0000 + parts.rd * 0x800 + parts.shamt * 0x40 + parts.funct
            &&& parts.op_code < 64 && parts.rs < 32 && parts.rt < 32 && parts.rd < 32 && parts.shamt
                < 32 && parts.funct < 64
        }),
        report.info is Some <==> config.info_at.triggers(m.instruction_counter as nat),
        report.info matches Some(info) ==> info.is_about(
            m.scratch_reset().instruction_taken(),
            meta,
            start,
        ),
        report.stopped <==> config.stop_at.triggers(m.instruction_counter as nat),
{
    instruction::law_parts_make_up_the_word(report.instruction);
    instruction::law_parts_are_in_range(report.instruction);
}

/// A step that begins empties the scratch state and reads the instruction at hand, and halts the
/// machine if and only if the run stops there. Beside memory and its slots used last nothing else
/// changes. The end of a step adds one to its number and changes nothing else.
pub proof fn law_machine_of_a_step<Fp: Field, O>(m: Machine<Fp, O>, config: VmConfiguration, i: int)
    requires
        m.instruction_counter < u32::MAX,
    ensures
        ({
            let begun = m.begun(config);
            let taken = m.scratch_reset().instruction_taken();
            &&& begun == (Machine {
                memory: taken.memory,
                last_memory_accesses: taken.last_memory_accesses,
                scratch_state_idx: 0,
                scratch_state: begun.scratch_state,
                halt: m.halt || config.stop_at.triggers(m.instruction_counter as nat),
                ..m
            })
            &&& begun.scratch_state.len() == 80
            &&& 0 <= i < 80 ==> begun.scratch_state[i] == Fp::zero_element()
            &&& m.readied() == taken
            &&& m.advanced().instruction_counter == m.instruction_counter + 1
            &&& m.advanced() == (Machine {
                instruction_counter: m.advanced().instruction_counter,
                ..m
            })
        }),
{
    laws::lemma_taking_stays_in_the_step(m.scratch_reset(), 4);
}

/// A step executes an instruction if and only if that is the one at hand and the run does not stop
/// there.
pub proof fn law_executed_instruction<Fp: Field, O>(
    m: Machine<Fp, O>,
    config: VmConfiguration,
    opcode: Instruction,
)
    ensures
        m.executes(config, opcode) <==> !config.stop_at.triggers(m.instruction_counter as nat)
            && m.scratch_reset().decoded() == Some(opcode),
{
}

/// A step can begin if and only if the instruction at hand can be read and decoded, no period is
/// zero, and information can be given if it is asked for: the word lies in a page, the run did not
/// begin later, and the size of memory is a `usize`. What stands in the way is said in this order.
pub proof fn law_what_stands_in_the_way<Fp: Field, O>(
    m: Machine<Fp, O>,
    config: VmConfiguration,
    start: Start,
)
    ensures
        ({
            let reset = m.scratch_reset();
            let taken = reset.instruction_taken();
            let asked = config.info_at.triggers(m.instruction_counter as nat);
            let given = taken.can_get_opcode() && taken.opcode() is Some && start.step
                <= m.instruction_counter && taken.memory.len() * 4096 <= usize::MAX;
            let error = m.step_error(config, start);
            &&& m.can_begin_step(config, start) <==> {
                &&& reset.can_take_instruction()
                &&& reset.decoded() is Some
                &&& config.info_at != StepFrequency::Every(0)
                &&& config.stop_at != StepFrequency::Every(0)
                &&& asked ==> given
            }
            &&& m.can_begin_step(config, start) <==> error is None
            &&& error == Some(StepError::UnreadableInstruction) <==> !reset.can_take_instruction()
            &&& error matches Some(StepError::UnhandledInstruction(word)) ==> {
                &&& reset.decoded() is None
                &&& word == reset.instruction_word()
            }
            &&& error matches Some(StepError::UndefinedInfoFrequency(opcode, word)) ==> {
                &&& config.info_at == StepFrequency::Every(0)
                &&& reset.decoded() == Some(opcode)
                &&& word == reset.instruction_word()
            }
            &&& error matches Some(StepError::NoInformation(opcode, word)) ==> {
                &&& asked && !given
                &&& reset.decoded() == Some(opcode)
                &&& word == reset.instruction_word()
            }
            &&& error matches Some(StepError::UndefinedStopFrequency(opcode, word)) ==> {
                &&& config.stop_at == StepFrequency::Every(0)
                &&& config.info_at != StepFrequency::Every(0)
                &&& asked ==> given
                &&& reset.decoded() == Some(opcode)
                &&& word == reset.instruction_word()
            }
        }),
{
    laws::lemma_taking_stays_in_the_step(m.scratch_reset(), 4);
}

} // verus!
