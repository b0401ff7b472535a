//! What holds of the machine across operations.

use crate::cannon::{Start, State, VmConfiguration};
use crate::column::Column;
use crate::field::Field;
use crate::machine;
use crate::machine::Machine;
use crate::paging;
use crate::witness::SCRATCH_SIZE;
use crate::words;
use vstd::prelude::*;

verus! {

/// In a well-formed machine every page can be looked up, in memory and in the write index, and is
/// found in the first slot that holds it, or else allocated in a new slot.
pub proof fn law_lookup_finds_the_page<Fp, O>(m: Machine<Fp, O>, page: u32)
    requires
        m.wf(),
    ensures
        m.can_look_up(page),
        m.can_look_up_access(page),
        m.memory_slot(page) == machine::first_slot(machine::page_ids(m.memory), page),
        m.access_slot(page) == machine::first_slot(machine::page_ids(m.memory), page),
        m.memory_looked_up(page).memory == machine::with_page(m.memory, page, 0),
        m.access_looked_up(page).memory_write_index == machine::with_page(
            m.memory_write_index,
            page,
            0,
        ),
        m.memory_looked_up(page).memory[m.memory_slot(page)].0 == page,
        m.access_looked_up(page).memory_write_index[m.access_slot(page)].0 == page,
{
    let ids = machine::page_ids(m.memory);
    paging::lemma_first_slot(ids, page);
    paging::lemma_recent(m.last_memory_accesses, ids, page);
    paging::lemma_recent(m.last_memory_write_index_accesses, ids, page);
    assert(m.memory.len() == ids.len() && m.memory_write_index.len() == ids.len());
    if ids.contains(page) {
        assert(ids[machine::first_slot(ids, page)] == page);
    }
}

/// Looking up a page, which may allocate it, changes no content.
pub proof fn law_lookup_keeps_contents<Fp, O>(m: Machine<Fp, O>, page: u32, addr: u32)
    requires
        m.wf(),
    ensures
        m.memory_looked_up(page).byte_at(addr) == m.byte_at(addr),
        m.memory_looked_up(page).write_index_at(addr) == m.write_index_at(addr),
        m.access_looked_up(page).byte_at(addr) == m.byte_at(addr),
        m.access_looked_up(page).write_index_at(addr) == m.write_index_at(addr),
{
    law_lookup_finds_the_page(m, page);
    paging::lemma_content_with_page(m.memory, page, 0, addr);
    paging::lemma_content_with_page(m.memory_write_index, page, 0, addr);
}

/// Looking up a page that has been allocated keeps the machine well-formed.
pub proof fn law_lookup_of_an_allocated_page_keeps_wf<Fp, O>(m: Machine<Fp, O>, page: u32)
    requires
        m.wf(),
        machine::page_ids(m.memory).contains(page),
    ensures
        m.memory_looked_up(page).wf(),
        m.access_looked_up(page).wf(),
        m.memory_looked_up(page).memory == m.memory,
        m.access_looked_up(page).memory_write_index == m.memory_write_index,
{
    let ids = machine::page_ids(m.memory);
    law_lookup_finds_the_page(m, page);
    assert(ids.len() == m.memory.len());
    paging::lemma_recent_renewed(m.last_memory_accesses, ids, page);
    paging::lemma_recent_renewed(m.last_memory_write_index_accesses, ids, page);
}

/// Looking up a page in memory and in the write index, in either order, keeps the machine
/// well-formed, whether or not the page had been allocated. Afterwards it is.
pub proof fn law_paired_lookups_keep_wf<Fp, O>(m: Machine<Fp, O>, page: u32)
    requires
        m.wf(),
        m.memory.len() < usize::MAX,
    ensures
        m.memory_looked_up(page).access_looked_up(page).wf(),
        m.access_looked_up(page).memory_looked_up(page).wf(),
        m.memory_looked_up(page).access_looked_up(page) == m.access_looked_up(
            page,
        ).memory_looked_up(page),
        machine::page_ids(m.memory_looked_up(page).access_looked_up(page).memory).contains(page),
        m.memory_looked_up(page).can_look_up_access(page),
        m.memory_looked_up(page).access_slot(page) == m.access_slot(page),
        m.access_looked_up(page).can_look_up(page),
        m.access_looked_up(page).memory_slot(page) == m.memory_slot(page),
{
    let ids = machine::page_ids(m.memory);
    assert(ids.len() == m.memory.len());
    law_lookup_finds_the_page(m, page);
    let read_first = m.memory_looked_up(page);
    let noted_first = m.access_looked_up(page);
    if ids.contains(page) {
        law_lookup_of_an_allocated_page_keeps_wf(m, page);
        law_lookup_of_an_allocated_page_keeps_wf(read_first, page);
        law_lookup_of_an_allocated_page_keeps_wf(noted_first, page);
        law_lookup_finds_the_page(read_first, page);
        law_lookup_finds_the_page(noted_first, page);
    } else {
        let pushed = ids.push(page);
        paging::lemma_page_ids_push(m.memory, page, machine::blank(0u8));
        paging::lemma_page_ids_push(m.memory_write_index, page, machine::blank(0u32));
        paging::lemma_recent_push(m.last_memory_accesses, ids, page);
        paging::lemma_recent_push(m.last_memory_write_index_accesses, ids, page);
        paging::lemma_recent(m.last_memory_accesses, ids, page);
        paging::lemma_recent(m.last_memory_write_index_accesses, ids, page);
        // The new page of the write index is in none of the slots that memory used last.
        assert(machine::held(m.last_memory_accesses, pushed) =~= machine::held(
            m.last_memory_accesses,
            ids,
        )) by {
            assert forall|k: int| 0 <= k < 3 implies (#[trigger] m.last_memory_accesses[k])
                < ids.len() by {
                assert(machine::is_first_slot(ids, m.last_memory_accesses[k]));
            }
        }
        paging::lemma_recent(m.last_memory_accesses, pushed, page);
        paging::lemma_first_slot(ids, page);
        paging::lemma_first_slot_push(ids, page, page);
        let both = read_first.access_looked_up(page);
        assert(machine::pages_are_full(both.memory)) by {
            assert forall|i: int| 0 <= i < both.memory.len() implies (
            #[trigger] both.memory[i]).1.len() == 4096 by {
                if i < m.memory.len() {
                    assert(both.memory[i] == m.memory[i]);
                }
            }
        }
        assert(machine::pages_are_full(both.memory_write_index)) by {
            assert forall|i: int| 0 <= i < both.memory_write_index.len() implies (
            #[trigger] both.memory_write_index[i]).1.len() == 4096 by {
                if i < m.memory_write_index.len() {
                    assert(both.memory_write_index[i] == m.memory_write_index[i]);
                }
            }
        }
    }
}

/// In a well-formed machine every address can be read and written, and what is read is the content
/// of the address: zero where no page has been allocated for it.
pub proof fn law_read_gives_the_content<Fp, O>(m: Machine<Fp, O>, addr: u32)
    requires
        m.wf(),
    ensures
        m.can_access_memory(addr),
        m.can_access_write_index(addr),
        m.byte_read(addr) == m.byte_at(addr),
        m.access_read(addr) == m.write_index_at(addr),
{
    let page = machine::page_of(addr);
    law_lookup_finds_the_page(m, page);
    paging::lemma_first_slot(machine::page_ids(m.memory), page);
    paging::lemma_address_parts(addr, addr);
    assert(machine::page_ids(m.memory_write_index).len() == m.memory_write_index.len());
    if machine::page_ids(m.memory).contains(page) {
        assert(m.memory[m.memory_slot(page)].1.len() == 4096);
        assert(m.memory_write_index[m.access_slot(page)].1.len() == 4096);
    }
}

/// A write to memory changes the content of its address alone, and nothing of the write index.
pub proof fn law_write_changes_one_byte<Fp, O>(
    m: Machine<Fp, O>,
    addr: u32,
    value: u8,
    other: u32,
)
    requires
        m.wf(),
    ensures
        m.memory_pushed(addr, value).byte_at(other) == (if other == addr {
            value
        } else {
            m.byte_at(other)
        }),
        m.memory_pushed(addr, value).write_index_at(other) == m.write_index_at(other),
        m.is_allocated(addr) ==> m.memory_pushed(addr, value).wf(),
{
    let page = machine::page_of(addr);
    let looked_up = m.memory_looked_up(page);
    law_lookup_finds_the_page(m, page);
    law_lookup_keeps_contents(m, page, other);
    lemma_with_page(m.memory, page, 0);
    paging::lemma_content_with_value(looked_up.memory, addr, value, 0, other);
    if m.is_allocated(addr) {
        law_lookup_of_an_allocated_page_keeps_wf(m, page);
    }
}

/// A write to the write index changes the entry of its address alone, and nothing of memory.
pub proof fn law_write_changes_one_index<Fp, O>(
    m: Machine<Fp, O>,
    addr: u32,
    value: u32,
    other: u32,
)
    requires
        m.wf(),
    ensures
        m.access_pushed(addr, value).write_index_at(other) == (if other == addr {
            value
        } else {
            m.write_index_at(other)
        }),
        m.access_pushed(addr, value).byte_at(other) == m.byte_at(other),
        m.is_allocated(addr) ==> m.access_pushed(addr, value).wf(),
{
    let page = machine::page_of(addr);
    let looked_up = m.access_looked_up(page);
    law_lookup_finds_the_page(m, page);
    law_lookup_keeps_contents(m, page, other);
    lemma_with_page(m.memory_write_index, page, 0);
    paging::lemma_content_with_value(looked_up.memory_write_index, addr, value, 0, other);
    if m.is_allocated(addr) {
        law_lookup_of_an_allocated_page_keeps_wf(m, page);
    }
}

/// After a page is added, if need be, it is there, in its first slot, and the pages are complete
/// if they were.
proof fn lemma_with_page<T>(pages: Seq<(u32, Seq<T>)>, page: u32, value: T)
    requires
        machine::pages_are_full(pages),
    ensures
        machine::page_ids(machine::with_page(pages, page, value)).contains(page),
        machine::first_slot(machine::page_ids(machine::with_page(pages, page, value)), page)
            == machine::first_slot(machine::page_ids(pages), page),
        machine::pages_are_full(machine::with_page(pages, page, value)),
{
    let ids = machine::page_ids(pages);
    if !ids.contains(page) {
        paging::lemma_page_ids_push(pages, page, machine::blank(value));
        paging::lemma_first_slot_push(ids, page, page);
        paging::lemma_first_slot(ids, page);
        let pushed = machine::with_page(pages, page, value);
        assert forall|i: int| 0 <= i < pushed.len() implies (#[trigger] pushed[i]).1.len()
            == 4096 by {
            if i < pages.len() {
                assert(pushed[i] == pages[i]);
            }
        }
    }
}

/// What was written is read back: right after the write if the page had been allocated.
pub proof fn law_read_after_write<Fp, O>(m: Machine<Fp, O>, addr: u32, value: u8)
    requires
        m.wf(),
        m.is_allocated(addr),
    ensures
        m.memory_pushed(addr, value).can_access_memory(addr),
        m.memory_pushed(addr, value).byte_read(addr) == value,
{
    law_write_changes_one_byte(m, addr, value, addr);
    law_read_gives_the_content(m.memory_pushed(addr, value), addr);
}

/// The write index gives the entries of all addresses where its pages are complete and its slots
/// that were used last are the first ones of their pages, whatever memory holds.
proof fn lemma_access_read<Fp, O>(m: Machine<Fp, O>, addr: u32)
    requires
        machine::pages_are_full(m.memory_write_index),
        machine::recent_are_first(
            m.last_memory_write_index_accesses,
            machine::page_ids(m.memory_write_index),
        ),
    ensures
        m.can_access_write_index(addr),
        m.access_read(addr) == m.write_index_at(addr),
{
    let page = machine::page_of(addr);
    let ids = machine::page_ids(m.memory_write_index);
    paging::lemma_recent(m.last_memory_write_index_accesses, ids, page);
    paging::lemma_first_slot(ids, page);
    paging::lemma_address_parts(addr, addr);
    assert(ids.len() == m.memory_write_index.len());
    if ids.contains(page) {
        assert(m.memory_write_index[m.access_slot(page)].1.len() == 4096);
    }
}

/// What was written to the write index is read back right after the write, whether or not the page
/// had been allocated. All other entries, and all bytes of memory, are read as they were.
pub proof fn law_index_read_after_write<Fp, O>(
    m: Machine<Fp, O>,
    addr: u32,
    value: u32,
    other: u32,
)
    requires
        m.wf(),
    ensures
        ({
            let written = m.access_pushed(addr, value);
            &&& m.can_access_write_index(addr)
            &&& written.can_access_write_index(addr)
            &&& written.access_read(addr) == value
            &&& written.can_access_write_index(other)
            &&& other != addr ==> written.access_read(other) == m.write_index_at(other)
            &&& written.can_access_memory(other)
            &&& written.byte_read(other) == m.byte_at(other)
        }),
{
    let page = machine::page_of(addr);
    let written = m.access_pushed(addr, value);
    let ids = machine::page_ids(m.memory);
    let known = machine::page_ids(written.memory_write_index);
    law_read_gives_the_content(m, addr);
    law_read_gives_the_content(m, other);
    law_lookup_finds_the_page(m, page);
    law_write_changes_one_index(m, addr, value, addr);
    law_write_changes_one_index(m, addr, value, other);
    lemma_with_page(m.memory_write_index, page, 0);
    paging::lemma_content_with_value(
        m.access_looked_up(page).memory_write_index,
        addr,
        value,
        0,
        addr,
    );
    assert(ids.len() == m.memory.len());
    if ids.contains(page) {
        paging::lemma_recent_renewed(m.last_memory_write_index_accesses, ids, page);
    } else {
        paging::lemma_first_slot(ids, page);
        paging::lemma_page_ids_push(m.memory_write_index, page, machine::blank(0u32));
        paging::lemma_recent(m.last_memory_write_index_accesses, ids, page);
        paging::lemma_recent_push(m.last_memory_write_index_accesses, ids, page);
        paging::lemma_recent_push(m.last_memory_accesses, ids, page);
    }
    lemma_access_read(written, addr);
    lemma_access_read(written, other);
    // A new page of the write index is in none of the slots that memory used last.
    paging::lemma_recent(m.last_memory_accesses, known, machine::page_of(other));
    assert(machine::held(m.last_memory_accesses, known) =~= machine::held(
        m.last_memory_accesses,
        ids,
    )) by {
        assert forall|k: int| 0 <= k < 3 implies (#[trigger] m.last_memory_accesses[k])
            < ids.len() by {
            assert(machine::is_first_slot(ids, m.last_memory_accesses[k]));
        }
    }
}

/// A second lookup of a page finds it in the same slot and changes nothing: in the write index
/// whether or not the page had been allocated, in memory if it had been, and in both after the page
/// was looked up in both.
pub proof fn law_second_lookup<Fp, O>(m: Machine<Fp, O>, page: u32)
    requires
        m.wf(),
    ensures
        ({
            let noted = m.access_looked_up(page);
            &&& noted.can_look_up_access(page)
            &&& noted.access_slot(page) == m.access_slot(page)
            &&& noted.access_looked_up(page) == noted
        }),
        machine::page_ids(m.memory).contains(page) ==> ({
            let read = m.memory_looked_up(page);
            &&& read.can_look_up(page)
            &&& read.memory_slot(page) == m.memory_slot(page)
            &&& read.memory_looked_up(page) == read
        }),
        m.memory.len() < usize::MAX ==> ({
            let both = m.memory_looked_up(page).access_looked_up(page);
            &&& both.can_look_up(page)
            &&& both.memory_slot(page) == m.memory_slot(page)
            &&& both.memory_looked_up(page) == both
            &&& both.can_look_up_access(page)
            &&& both.access_slot(page) == m.access_slot(page)
            &&& both.access_looked_up(page) == both
        }),
{
    let ids = machine::page_ids(m.memory);
    law_lookup_finds_the_page(m, page);
    paging::lemma_first_slot(ids, page);
    paging::lemma_used_slot(m.last_memory_accesses, ids, page);
    paging::lemma_used_slot(m.last_memory_write_index_accesses, ids, page);
    if !ids.contains(page) {
        paging::lemma_page_ids_push(m.memory, page, machine::blank(0u8));
        paging::lemma_page_ids_push(m.memory_write_index, page, machine::blank(0u32));
    }
    if m.memory.len() < usize::MAX {
        law_paired_lookups_keep_wf(m, page);
    }
}

/// What was written to memory together with its write index is read back from both, and the
/// machine stays well-formed, whether or not the page had been allocated. The contents of all
/// other addresses are unchanged.
pub proof fn law_read_after_paired_write<Fp, O>(
    m: Machine<Fp, O>,
    addr: u32,
    value: u8,
    index: u32,
    other: u32,
)
    requires
        m.wf(),
        m.memory.len() < usize::MAX,
    ensures
        ({
            let written = m.memory_pushed(addr, value).access_pushed(addr, index);
            &&& m.memory_pushed(addr, value).can_access_write_index(addr)
            &&& written.wf()
            &&& written.is_allocated(addr)
            &&& written.byte_read(addr) == value
            &&& written.access_read(addr) == index
            &&& other != addr ==> written.byte_at(other) == m.byte_at(other)
            &&& other != addr ==> written.write_index_at(other) == m.write_index_at(other)
        }),
{
    let page = machine::page_of(addr);
    let pushed = m.memory_pushed(addr, value);
    let written = pushed.access_pushed(addr, index);
    law_paired_lookups_keep_wf(m, page);
    law_lookup_finds_the_page(m, page);
    law_write_changes_one_byte(m, addr, value, addr);
    law_write_changes_one_byte(m, addr, value, other);
    law_write_changes_one_index(m, addr, index, addr);
    law_write_changes_one_index(m, addr, index, other);
    // Memory plays no part in how the write index is looked up and written.
    let noted = m.access_pushed(addr, index);
    assert(written.memory == pushed.memory);
    assert(written.memory_write_index == noted.memory_write_index);
    let both = m.memory_looked_up(page).access_looked_up(page);
    lemma_with_page(m.memory, page, 0);
    lemma_with_page(m.memory_write_index, page, 0);
    paging::lemma_content_with_value(both.memory, addr, value, 0, addr);
    paging::lemma_content_with_value(both.memory_write_index, addr, index, 0, addr);
    law_read_gives_the_content(m, addr);
    assert(written.wf());
    law_read_gives_the_content(written, addr);
}

/// Whether the page of the byte at `n` of the instruction at hand has been allocated.
spec fn byte_allocated<Fp, O>(m: Machine<Fp, O>, n: nat) -> bool {
    m.is_allocated((m.pc() + n) as u32)
}

/// The instruction at hand can be read where its pages have been allocated. Its word is made of
/// the four bytes from its address on, the most significant one first, and reading it changes
/// neither the contents of memory nor the registers, nor is the machine any less well-formed.
pub proof fn law_instruction_is_in_memory<Fp, O>(m: Machine<Fp, O>, addr: u32)
    requires
        m.wf(),
        m.pc() + 3 <= u32::MAX,
        m.is_allocated(m.pc()),
        m.is_allocated((m.pc() + 3) as u32),
    ensures
        m.can_take_instruction(),
        m.instruction_word() == words::big_endian(
            m.byte_at(m.pc()),
            m.byte_at((m.pc() + 1) as u32),
            m.byte_at((m.pc() + 2) as u32),
            m.byte_at((m.pc() + 3) as u32),
        ),
        m.instruction_taken().wf(),
        m.instruction_taken().registers == m.registers,
        m.instruction_taken().instruction_counter == m.instruction_counter,
        m.instruction_taken().scratch_state == m.scratch_state,
        m.instruction_taken().halt == m.halt,
        m.instruction_taken().memory == m.memory,
        m.instruction_taken().memory_write_index == m.memory_write_index,
        m.instruction_taken().byte_at(addr) == m.byte_at(addr),
        m.instruction_taken().write_index_at(addr) == m.write_index_at(addr),
{
    let pc = m.pc();
    assert forall|n: nat| n < 4 implies #[trigger] byte_allocated(m, n) by {
        assert(machine::page_of((pc + n) as u32) == machine::page_of(pc) || machine::page_of(
            (pc + n) as u32,
        ) == machine::page_of((pc + 3) as u32));
    }
    lemma_bytes_taken(m, 4);
    assert forall|n: nat| n < 4 implies {
        &&& (#[trigger] m.bytes_taken(n)).can_access_memory((pc + n) as u32)
        &&& m.instruction_byte(n) == m.byte_at((pc + n) as u32)
    } by {
        lemma_bytes_taken(m, n);
        law_read_gives_the_content(m.bytes_taken(n), (pc + n) as u32);
    }
    assert(m.bytes_taken(0) == m);
    assert(m.instruction_byte(0) == m.byte_at(pc)) by {
        assert(m.bytes_taken(0).can_access_memory((pc + 0) as u32));
    }
    assert(m.instruction_byte(1) == m.byte_at((pc + 1) as u32)) by {
        assert(m.bytes_taken(1).can_access_memory((pc + 1) as u32));
    }
    assert(m.instruction_byte(2) == m.byte_at((pc + 2) as u32)) by {
        assert(m.bytes_taken(2).can_access_memory((pc + 2) as u32));
    }
    assert(m.instruction_byte(3) == m.byte_at((pc + 3) as u32)) by {
        assert(m.bytes_taken(3).can_access_memory((pc + 3) as u32));
    }
}

/// Reading bytes of the instruction at hand from pages that have been allocated changes at most
/// which slots of memory were used last.
proof fn lemma_bytes_taken<Fp, O>(m: Machine<Fp, O>, n: nat)
    requires
        m.wf(),
        n <= 4,
        m.pc() + 3 <= u32::MAX,
        forall|k: nat| k < 4 ==> #[trigger] byte_allocated(m, k),
    ensures
        m.bytes_taken(n).wf(),
        m.bytes_taken(n) == (Machine {
            last_memory_accesses: m.bytes_taken(n).last_memory_accesses,
            ..m
        }),
    decreases n,
{
    if n > 0 {
        let before = m.bytes_taken((n - 1) as nat);
        lemma_bytes_taken(m, (n - 1) as nat);
        let addr = (m.pc() + (n - 1)) as u32;
        assert(byte_allocated(m, (n - 1) as nat));
        law_lookup_of_an_allocated_page_keeps_wf(before, machine::page_of(addr));
    }
}

/// The word that information on a step shows is the word that is decoded, unless it crosses into
/// another page.
pub proof fn law_reported_word_is_the_decoded_one<Fp, O>(m: Machine<Fp, O>)
    requires
        m.wf(),
        m.is_allocated(m.pc()),
        machine::offset_of(m.pc()) + 3 < 4096,
    ensures
        m.can_get_opcode(),
        m.opcode() == Some(m.instruction_word()),
        m.instruction_taken().opcode() == m.opcode(),
{
    let pc = m.pc();
    assert(pc + 3 <= u32::MAX);
    assert(machine::page_of((pc + 3) as u32) == machine::page_of(pc));
    assert(machine::page_of((pc + 1) as u32) == machine::page_of(pc));
    assert(machine::page_of((pc + 2) as u32) == machine::page_of(pc));
    law_instruction_is_in_memory(m, pc);
    paging::lemma_first_slot(machine::page_ids(m.memory), machine::page_of(pc));
    assert(m.memory[m.opcode_slot()].1.len() == 4096);
}

/// A machine that starts from a state with at least one page, in pages of the size that memory
/// has, is well-formed. Its memory holds the pages of the state, followed by zeros, and nothing
/// has been written yet.
pub proof fn law_initial_machine<Fp: Field, O>(state: State, preimage_oracle: O, addr: u32)
    requires
        state.memory@.len() > 0,
        forall|i: int|
            0 <= i < state.memory@.len() ==> (#[trigger] state.memory@[i]).data@.len() <= 4096,
    ensures
        ({
            let m = Machine::<Fp, O>::initial(4096, state, preimage_oracle);
            let ids = machine::state_page_ids(state);
            let slot = machine::first_slot(ids, machine::page_of(addr));
            let offset = machine::offset_of(addr);
            &&& m.wf()
            &&& m.byte_at(addr) == (if slot < ids.len() && offset
                < state.memory@[slot].data@.len() {
                state.memory@[slot].data@[offset]
            } else {
                0
            })
            &&& m.write_index_at(addr) == 0
            &&& m.pc() == state.pc
        }),
{
    let m = Machine::<Fp, O>::initial(4096, state, preimage_oracle);
    let ids = machine::state_page_ids(state);
    assert(state.memory.len() == state.memory@.len());
    assert(machine::page_ids(m.memory) =~= ids);
    assert(machine::page_ids(m.memory_write_index) =~= ids);
    paging::lemma_first_slot(ids, machine::page_of(addr));
    paging::lemma_first_slot_is(ids, ids[0], 0);
    assert(machine::is_first_slot(ids, 0));
}

/// A column holds what was last written to it, and a write to one column leaves all others and
/// the rest of the machine as they were.
pub proof fn law_column_write<Fp, O>(m: Machine<Fp, O>, column: Column, value: Fp, other: Column)
    requires
        m.has_column(column),
        m.has_column(other),
    ensures
        m.with_column(column, value).has_column(other),
        m.with_column(column, value).column_value(other) == (if other == column {
            value
        } else {
            m.column_value(other)
        }),
        m.with_column(column, value) == (Machine {
            scratch_state: m.with_column(column, value).scratch_state,
            keccak_state: m.with_column(column, value).keccak_state,
            ..m
        }),
        m.wf() ==> m.with_column(column, value).wf(),
{
}

/// Scratch columns that are allocated one after the other are different, and the first one after
/// a reset is the first cell of a scratch state of zeros.
pub proof fn law_scratch_allocation<Fp: Field, O>(m: Machine<Fp, O>, i: nat, j: nat)
    requires
        i < j,
        m.scratch_state_idx + j < usize::MAX,
    ensures
        m.scratch_allocated(i).next_scratch() != m.scratch_allocated(j).next_scratch(),
        m.scratch_reset().next_scratch() == Column::ScratchState(0),
        m.scratch_reset().scratch_reset() == m.scratch_reset(),
        m.scratch_reset().column_value(Column::ScratchState(0)) == Fp::zero_element(),
{
}

/// The beginning of a step changes neither registers nor the contents of memory, nor the number of
/// the step. It leaves a scratch state of zeros, and it halts the machine where the run stops.
pub proof fn law_beginning_of_a_step<Fp: Field, O>(
    m: Machine<Fp, O>,
    config: VmConfiguration,
    addr: u32,
)
    requires
        m.wf(),
        m.pc() + 3 <= u32::MAX,
        m.is_allocated(m.pc()),
        m.is_allocated((m.pc() + 3) as u32),
    ensures
        m.scratch_reset().can_take_instruction(),
        m.begun(config).wf(),
        m.begun(config).registers == m.registers,
        m.begun(config).instruction_counter == m.instruction_counter,
        m.begun(config).byte_at(addr) == m.byte_at(addr),
        m.begun(config).write_index_at(addr) == m.write_index_at(addr),
        m.begun(config).scratch_state == Seq::new(SCRATCH_SIZE as nat, |i: int| Fp::zero_element()),
        m.begun(config).halt == (m.halt || config.stop_at.triggers(m.instruction_counter as nat)),
{
    let reset = m.scratch_reset();
    assert(reset.pc() == m.pc());
    assert(reset.wf());
    law_instruction_is_in_memory(reset, addr);
}

/// A step can begin wherever the word at hand lies in pages that have been allocated and encodes an
/// instruction. Where information is asked for, the word must not cross into another page, the run
/// must not have begun later than the step, and the size of memory must be a `usize`.
pub proof fn law_step_can_begin<Fp: Field, O>(
    m: Machine<Fp, O>,
    config: VmConfiguration,
    start: Start,
)
    requires
        m.wf(),
        m.pc() + 3 <= u32::MAX,
        m.is_allocated(m.pc()),
        m.is_allocated((m.pc() + 3) as u32),
        m.decoded() is Some,
        config.stop_at.valid(),
        config.info_at.valid(),
        config.info_at.triggers(m.instruction_counter as nat) ==> {
            &&& machine::offset_of(m.pc()) + 3 < 4096
            &&& start.step <= m.instruction_counter
            &&& m.memory.len() * 4096 <= usize::MAX
        },
    ensures
        m.can_begin_step(config, start),
        m.scratch_reset().decoded() == m.decoded(),
        m.scratch_reset().instruction_word() == m.instruction_word(),
{
    let reset = m.scratch_reset();
    let pc = m.pc();
    assert(reset.pc() == pc);
    assert(reset.wf());
    law_instruction_is_in_memory(m, pc);
    law_instruction_is_in_memory(reset, pc);
    if config.info_at.triggers(m.instruction_counter as nat) {
        law_reported_word_is_the_decoded_one(reset);
    }
    assert(m.readied().memory == m.memory);
    assert(m.readied().registers == m.registers);
}

/// Reading bytes of the instruction at hand changes memory and its slots that were used last
/// alone.
pub proof fn lemma_taking_stays_in_the_step<Fp, O>(m: Machine<Fp, O>, n: nat)
    ensures
        m.bytes_taken(n) == (Machine {
            memory: m.bytes_taken(n).memory,
            last_memory_accesses: m.bytes_taken(n).last_memory_accesses,
            ..m
        }),
    decreases n,
{
    if n > 0 {
        lemma_taking_stays_in_the_step(m, (n - 1) as nat);
    }
}

/// An attempt to read the instruction at hand succeeds exactly where all four of its bytes can be
/// read one after the other, and then it leaves the machine as reading the instruction does.
pub proof fn law_attempt_to_read_the_instruction<Fp, O>(m: Machine<Fp, O>)
    ensures
        m.can_take_instruction() <==> m.readable_bytes() == 4,
        m.can_take_instruction() ==> m.instruction_tried() == m.instruction_taken(),
{
    if m.can_take_instruction() {
        assert(m.bytes_taken(0).can_access_memory((m.pc() + 0) as u32));
        assert(m.bytes_taken(1).can_access_memory((m.pc() + 1) as u32));
        assert(m.bytes_taken(2).can_access_memory((m.pc() + 2) as u32));
        assert(m.bytes_taken(3).can_access_memory((m.pc() + 3) as u32));
    }
    if m.readable_bytes() == 4 {
        assert forall|n: nat| n < 4 implies (#[trigger] m.bytes_taken(n)).can_access_memory(
            (m.pc() + n) as u32,
        ) by {
            assert(m.can_take_byte(n));
        }
    }
}

/// Reading bytes of the instruction at hand changes no content, whatever the machine.
proof fn lemma_taking_keeps_contents<Fp, O>(m: Machine<Fp, O>, n: nat, addr: u32)
    ensures
        m.bytes_taken(n).byte_at(addr) == m.byte_at(addr),
    decreases n,
{
    if n > 0 {
        let before = m.bytes_taken((n - 1) as nat);
        lemma_taking_keeps_contents(m, (n - 1) as nat, addr);
        paging::lemma_content_with_page(
            before.memory,
            machine::page_of((m.pc() + n - 1) as u32),
            0,
            addr,
        );
    }
}

/// A step that cannot begin leaves the machine at the same step, with the same registers and the
/// same contents, whatever stood in its way, and does not halt it. It can begin exactly where
/// nothing does.
pub proof fn law_step_that_cannot_begin<Fp: Field, O>(
    m: Machine<Fp, O>,
    config: VmConfiguration,
    start: Start,
    addr: u32,
)
    ensures
        m.step_error(config, start) is None <==> m.can_begin_step(config, start),
        ({
            let left = m.scratch_reset().instruction_tried();
            &&& left.same_step(m)
            &&& left.registers == m.registers
            &&& left.registers_write_index == m.registers_write_index
            &&& left.memory_write_index == m.memory_write_index
            &&& left.halt == m.halt
            &&& left.keccak_state == m.keccak_state
            &&& left.byte_at(addr) == m.byte_at(addr)
            &&& left.write_index_at(addr) == m.write_index_at(addr)
        }),
{
    let reset = m.scratch_reset();
    let n = reset.readable_bytes();
    lemma_taking_stays_in_the_step(reset, n);
    lemma_taking_stays_in_the_step(reset, n + 1);
    lemma_taking_keeps_contents(reset, n, addr);
    lemma_taking_keeps_contents(reset, n + 1, addr);
}

/// Neither the beginning of a step nor any operation of the interpreter goes on to another
/// step, and none touches what system calls left or the oracle: only the end of a step advances
/// the counter, by one.
pub proof fn law_operations_stay_in_the_step<Fp: Field, O>(
    m: Machine<Fp, O>,
    addr: u32,
    byte: u8,
    word: u32,
    column: Column,
    value: Fp,
    config: VmConfiguration,
)
    requires
        m.instruction_counter < u32::MAX,
    ensures
        m.memory_looked_up(machine::page_of(addr)).same_step(m),
        m.memory_pushed(addr, byte).same_step(m),
        m.access_looked_up(machine::page_of(addr)).same_step(m),
        m.access_pushed(addr, word).same_step(m),
        m.with_column(column, value).same_step(m),
        m.scratch_allocated(1).same_step(m),
        m.begun(config).same_step(m),
        m.advanced().instruction_counter == m.instruction_counter + 1,
        m.advanced() == (Machine {
            instruction_counter: m.advanced().instruction_counter,
            ..m
        }),
{
    lemma_taking_stays_in_the_step(m.scratch_reset(), 4);
}

/// What does not concern memory leaves the contents of memory and of its write index alone, and the
/// machine as well-formed as it was.
pub proof fn law_other_operations_keep_memory<Fp: Field, O>(
    m: Machine<Fp, O>,
    column: Column,
    value: Fp,
    idx: int,
    word: u32,
    halt: bool,
    addr: u32,
)
    ensures
        m.with_column(column, value).same_memory(m),
        m.scratch_allocated(1).same_memory(m),
        m.scratch_reset().same_memory(m),
        (Machine { registers: m.registers.update(idx, word), ..m }).same_memory(m),
        (Machine {
            registers_write_index: m.registers_write_index.update(idx, word),
            ..m
        }).same_memory(m),
        (Machine { halt, ..m }).same_memory(m),
        m.advanced().same_memory(m),
        forall|other: Machine<Fp, O>| #[trigger]
            other.same_memory(m) ==> other.wf() == m.wf() && other.byte_at(addr) == m.byte_at(addr)
                && other.write_index_at(addr) == m.write_index_at(addr),
{
}

/// A register holds what was last written to it, and a write to one register leaves all others as
/// they were.
pub proof fn law_register_write(registers: Seq<u32>, idx: int, value: u32, other: int)
    requires
        0 <= idx < registers.len(),
        0 <= other < registers.len(),
    ensures
        registers.update(idx, value)[other] == (if other == idx {
            value
        } else {
            registers[other]
        }),
{
}

} // verus!
