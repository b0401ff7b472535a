//! What holds of the paged memory: which page and which place in it an address stands for, and how
//! pages are found.

use crate::laws;
use crate::machine;
use crate::machine::Machine;
use crate::paging;
use vstd::prelude::*;

verus! {

/// An address is 4096 times the index of its page plus its place within the page.
pub proof fn law_address_of_parts(addr: u32)
    ensures
        machine::page_of(addr) * 4096 + machine::offset_of(addr) == addr,
        0 <= machine::offset_of(addr) < 4096,
{
}

/// Each place of each page has an address of its own.
pub proof fn law_parts_of_an_address(addr: u32, page: u32, place: int)
    requires
        addr == page * 4096 + place,
        0 <= place < 4096,
    ensures
        machine::page_of(addr) == page,
        machine::offset_of(addr) == place,
{
}

/// The slot that was used becomes the first of the three that were used last, and the third one is
/// forgotten.
pub proof fn law_recent_slots(recent: Seq<usize>, slot: usize)
    requires
        recent.len() == 3,
    ensures
        machine::renewed(recent, slot as int) == seq![slot, recent[0], recent[1]],
{
}

/// A page that none of the slots used last holds is not found by looking through them.
proof fn lemma_not_recent(recent: Seq<usize>, ids: Seq<u32>, page: u32)
    requires
        recent.len() == 3,
        forall|j: int| 0 <= j < 3 ==> (#[trigger] recent[j]) < ids.len() && ids[recent[j] as int] != page,
    ensures
        machine::recent_in_range(recent, ids, page),
        machine::recent_slot(recent, ids, page) is None,
{
    let held = machine::held(recent, ids);
    held.index_of_first_ensures(page);
    assert forall|j: int| 0 <= j < 3 implies held[j] != page by {
        assert(recent[j] < ids.len());
    }
    assert(!held.contains(page));
}

/// Looking up memory for a page that is in one of the slots used last gives the first of these and
/// changes nothing.
/// The pages of these slots are told by the write index.
pub proof fn law_lookup_of_a_recent_page<Fp, O>(m: Machine<Fp, O>, page: u32, k: int)
    requires
        0 <= k < m.last_memory_accesses.len(),
        forall|j: int|
            0 <= j <= k ==> (#[trigger] m.last_memory_accesses[j]) < m.memory_write_index.len(),
        forall|j: int|
            0 <= j < k ==> m.memory_write_index[#[trigger] m.last_memory_accesses[j] as int].0 != page,
        m.memory_write_index[m.last_memory_accesses[k] as int].0 == page,
    ensures
        m.can_look_up(page),
        m.memory_slot(page) == m.last_memory_accesses[k],
        m.memory_looked_up(page) == m,
{
    let recent = m.last_memory_accesses;
    let ids = machine::page_ids(m.memory_write_index);
    let held = machine::held(recent, ids);
    held.index_of_first_ensures(page);
    assert(held[k] == page);
    assert forall|j: int| 0 <= j < k implies held[j] != page by {
        assert(recent[j] < m.memory_write_index.len());
    }
    assert(held.index_of_first(page) == Some(k));
    assert forall|i: int|
        0 <= i < recent.len() && (forall|j: int| 0 <= j < i ==> held[j] != page) implies (
    #[trigger] recent[i]) < ids.len() by {
        if i > k {
            assert(held[k] == page);
        }
    }
}

/// Looking up memory for a page that is in none of the slots used last gives the first slot that holds
/// it, if there is one. That slot becomes the one used last; nothing else changes.
pub proof fn law_lookup_of_a_held_page<Fp, O>(m: Machine<Fp, O>, page: u32, i: int)
    requires
        m.last_memory_accesses.len() == 3,
        forall|j: int|
            0 <= j < 3 ==> (#[trigger] m.last_memory_accesses[j]) < m.memory_write_index.len()
                && m.memory_write_index[m.last_memory_accesses[j] as int].0 != page,
        0 <= i < m.memory.len() <= usize::MAX,
        m.memory[i].0 == page,
        forall|j: int| 0 <= j < i ==> (#[trigger] m.memory[j]).0 != page,
    ensures
        m.can_look_up(page),
        m.memory_slot(page) == i,
        m.memory_looked_up(page) == (Machine {
            last_memory_accesses: seq![
                i as usize,
                m.last_memory_accesses[0],
                m.last_memory_accesses[1],
            ],
            ..m
        }),
{
    lemma_not_recent(
        m.last_memory_accesses,
        machine::page_ids(m.memory_write_index),
        page,
    );
    let ids = machine::page_ids(m.memory);
    assert(ids[i] == page);
    assert forall|j: int| 0 <= j < i implies ids[j] != page by {
        assert(m.memory[j].0 != page);
    }
    paging::lemma_first_slot_is(ids, page, i);
}

/// Looking up memory for a page that it does not hold allocates the page after all others: 4096
/// zeros. Its slot becomes the one used last; nothing else changes.
pub proof fn law_lookup_of_a_missing_page<Fp, O>(m: Machine<Fp, O>, page: u32)
    requires
        m.last_memory_accesses.len() == 3,
        forall|j: int|
            0 <= j < 3 ==> (#[trigger] m.last_memory_accesses[j]) < m.memory_write_index.len()
                && m.memory_write_index[m.last_memory_accesses[j] as int].0 != page,
        m.memory.len() <= usize::MAX,
        forall|j: int| 0 <= j < m.memory.len() ==> (#[trigger] m.memory[j]).0 != page,
    ensures
        m.can_look_up(page),
        m.memory_slot(page) == m.memory.len(),
        ({
            let after = m.memory_looked_up(page);
            let last = m.memory.len() as int;
            &&& after.memory.len() == last + 1
            &&& after.memory.take(last) == m.memory
            &&& after.memory[last].0 == page
            &&& after.memory[last].1.len() == 4096
            &&& forall|k: int| 0 <= k < 4096 ==> (#[trigger] after.memory[last].1[k]) == 0
            &&& after == (Machine {
                memory: after.memory,
                last_memory_accesses: seq![
                    last as usize,
                    m.last_memory_accesses[0],
                    m.last_memory_accesses[1],
                ],
                ..m
            })
        }),
{
    lemma_not_recent(
        m.last_memory_accesses,
        machine::page_ids(m.memory_write_index),
        page,
    );
    let ids = machine::page_ids(m.memory);
    assert forall|j: int| 0 <= j < ids.len() implies ids[j] != page by {
        assert(m.memory[j].0 != page);
    }
    assert(!ids.contains(page));
    paging::lemma_first_slot(ids, page);
    let after = m.memory_looked_up(page);
    assert(after.memory.take(m.memory.len() as int) =~= m.memory);
}

/// Looking up the write index for a page that is in one of the slots used last gives the first of these and
/// changes nothing.
pub proof fn law_index_lookup_of_a_recent_page<Fp, O>(m: Machine<Fp, O>, page: u32, k: int)
    requires
        0 <= k < m.last_memory_write_index_accesses.len(),
        forall|j: int|
            0 <= j <= k ==> (#[trigger] m.last_memory_write_index_accesses[j]) < m.memory_write_index.len(),
        forall|j: int|
            0 <= j < k ==> m.memory_write_index[#[trigger] m.last_memory_write_index_accesses[j] as int].0 != page,
        m.memory_write_index[m.last_memory_write_index_accesses[k] as int].0 == page,
    ensures
        m.can_look_up_access(page),
        m.access_slot(page) == m.last_memory_write_index_accesses[k],
        m.access_looked_up(page) == m,
{
    let recent = m.last_memory_write_index_accesses;
    let ids = machine::page_ids(m.memory_write_index);
    let held = machine::held(recent, ids);
    held.index_of_first_ensures(page);
    assert(held[k] == page);
    assert forall|j: int| 0 <= j < k implies held[j] != page by {
        assert(recent[j] < m.memory_write_index.len());
    }
    assert(held.index_of_first(page) == Some(k));
    assert forall|i: int|
        0 <= i < recent.len() && (forall|j: int| 0 <= j < i ==> held[j] != page) implies (
    #[trigger] recent[i]) < ids.len() by {
        if i > k {
            assert(held[k] == page);
        }
    }
}

/// Looking up the write index for a page that is in none of the slots used last gives the first slot that holds
/// it, if there is one. That slot becomes the one used last; nothing else changes.
pub proof fn law_index_lookup_of_a_held_page<Fp, O>(m: Machine<Fp, O>, page: u32, i: int)
    requires
        m.last_memory_write_index_accesses.len() == 3,
        forall|j: int|
            0 <= j < 3 ==> (#[trigger] m.last_memory_write_index_accesses[j]) < m.memory_write_index.len()
                && m.memory_write_index[m.last_memory_write_index_accesses[j] as int].0 != page,
        0 <= i < m.memory_write_index.len() <= usize::MAX,
        m.memory_write_index[i].0 == page,
        forall|j: int| 0 <= j < i ==> (#[trigger] m.memory_write_index[j]).0 != page,
    ensures
        m.can_look_up_access(page),
        m.access_slot(page) == i,
        m.access_looked_up(page) == (Machine {
            last_memory_write_index_accesses: seq![
                i as usize,
                m.last_memory_write_index_accesses[0],
                m.last_memory_write_index_accesses[1],
            ],
            ..m
        }),
{
    lemma_not_recent(
        m.last_memory_write_index_accesses,
        machine::page_ids(m.memory_write_index),
        page,
    );
    let ids = machine::page_ids(m.memory_write_index);
    assert(ids[i] == page);
    assert forall|j: int| 0 <= j < i implies ids[j] != page by {
        assert(m.memory_write_index[j].0 != page);
    }
    paging::lemma_first_slot_is(ids, page, i);
}

/// Looking up the write index for a page that it does not hold allocates the page after all others: 4096
/// zeros. Its slot becomes the one used last; nothing else changes.
pub proof fn law_index_lookup_of_a_missing_page<Fp, O>(m: Machine<Fp, O>, page: u32)
    requires
        m.last_memory_write_index_accesses.len() == 3,
        forall|j: int|
            0 <= j < 3 ==> (#[trigger] m.last_memory_write_index_accesses[j]) < m.memory_write_index.len()
                && m.memory_write_index[m.last_memory_write_index_accesses[j] as int].0 != page,
        m.memory_write_index.len() <= usize::MAX,
        forall|j: int| 0 <= j < m.memory_write_index.len() ==> (#[trigger] m.memory_write_index[j]).0 != page,
    ensures
        m.can_look_up_access(page),
        m.access_slot(page) == m.memory_write_index.len(),
        ({
            let after = m.access_looked_up(page);
            let last = m.memory_write_index.len() as int;
            &&& after.memory_write_index.len() == last + 1
            &&& after.memory_write_index.take(last) == m.memory_write_index
            &&& after.memory_write_index[last].0 == page
            &&& after.memory_write_index[last].1.len() == 4096
            &&& forall|k: int| 0 <= k < 4096 ==> (#[trigger] after.memory_write_index[last].1[k]) == 0
            &&& after == (Machine {
                memory_write_index: after.memory_write_index,
                last_memory_write_index_accesses: seq![
                    last as usize,
                    m.last_memory_write_index_accesses[0],
                    m.last_memory_write_index_accesses[1],
                ],
                ..m
            })
        }),
{
    lemma_not_recent(
        m.last_memory_write_index_accesses,
        machine::page_ids(m.memory_write_index),
        page,
    );
    let ids = machine::page_ids(m.memory_write_index);
    assert forall|j: int| 0 <= j < ids.len() implies ids[j] != page by {
        assert(m.memory_write_index[j].0 != page);
    }
    assert(!ids.contains(page));
    paging::lemma_first_slot(ids, page);
    let after = m.access_looked_up(page);
    assert(after.memory_write_index.take(m.memory_write_index.len() as int) =~= m.memory_write_index);
}

/// An access to memory at an address goes to the page and to the place within it that make up the address. A read
/// gives what is there, and a write changes what is there and nothing else.
pub proof fn law_memory_access<Fp, O>(
    m: Machine<Fp, O>,
    addr: u32,
    page: u32,
    place: int,
    value: u8,
    i: int,
    k: int,
)
    requires
        addr == page * 4096 + place,
        0 <= place < 4096,
    ensures
        ({
            let slot = m.memory_slot(page);
            let looked_up = m.memory_looked_up(page);
            let written = m.memory_pushed(addr, value);
            &&& m.can_access_memory(addr) <==> m.can_look_up(page) && 0 <= slot < looked_up.memory.len()
                && place < looked_up.memory[slot].1.len()
            &&& m.byte_read(addr) == looked_up.memory[slot].1[place]
            &&& written == (Machine { memory: written.memory, ..looked_up })
            &&& m.can_access_memory(addr) ==> written.memory.len() == looked_up.memory.len()
            &&& m.can_access_memory(addr) && 0 <= i < looked_up.memory.len() ==> {
                &&& written.memory[i].0 == looked_up.memory[i].0
                &&& written.memory[i].1.len() == looked_up.memory[i].1.len()
                &&& 0 <= k < looked_up.memory[i].1.len() ==> written.memory[i].1[k] == (if i
                    == slot && k == place {
                    value
                } else {
                    looked_up.memory[i].1[k]
                })
            }
        }),
{
    law_parts_of_an_address(addr, page, place);
    let recent = m.last_memory_accesses;
    let ids = machine::page_ids(m.memory_write_index);
    machine::held(recent, ids).index_of_first_ensures(page);
    paging::lemma_first_slot(machine::page_ids(m.memory), page);
    if m.can_look_up(page) {
        if let Some(j) = machine::held(recent, ids).index_of_first(page) {
            assert(recent[j] < ids.len());
        }
    }
}

/// An access to the write index at an address goes to the page and to the place within it that make up the address. A read
/// gives what is there, and a write changes what is there and nothing else.
pub proof fn law_index_access<Fp, O>(
    m: Machine<Fp, O>,
    addr: u32,
    page: u32,
    place: int,
    value: u32,
    i: int,
    k: int,
)
    requires
        addr == page * 4096 + place,
        0 <= place < 4096,
    ensures
        ({
            let slot = m.access_slot(page);
            let looked_up = m.access_looked_up(page);
            let written = m.access_pushed(addr, value);
            &&& m.can_access_write_index(addr) <==> m.can_look_up_access(page) && 0 <= slot < looked_up.memory_write_index.len()
                && place < looked_up.memory_write_index[slot].1.len()
            &&& m.access_read(addr) == looked_up.memory_write_index[slot].1[place]
            &&& written == (Machine { memory_write_index: written.memory_write_index, ..looked_up })
            &&& m.can_access_write_index(addr) ==> written.memory_write_index.len() == looked_up.memory_write_index.len()
            &&& m.can_access_write_index(addr) && 0 <= i < looked_up.memory_write_index.len() ==> {
                &&& written.memory_write_index[i].0 == looked_up.memory_write_index[i].0
                &&& written.memory_write_index[i].1.len() == looked_up.memory_write_index[i].1.len()
                &&& 0 <= k < looked_up.memory_write_index[i].1.len() ==> written.memory_write_index[i].1[k] == (if i
                    == slot && k == place {
                    value
                } else {
                    looked_up.memory_write_index[i].1[k]
                })
            }
        }),
{
    law_parts_of_an_address(addr, page, place);
    let recent = m.last_memory_write_index_accesses;
    let ids = machine::page_ids(m.memory_write_index);
    machine::held(recent, ids).index_of_first_ensures(page);
    paging::lemma_first_slot(machine::page_ids(m.memory_write_index), page);
    if m.can_look_up_access(page) {
        if let Some(j) = machine::held(recent, ids).index_of_first(page) {
            assert(recent[j] < ids.len());
        }
    }
}

/// In a well-formed machine the byte at place `k` of a page belongs to the address that is 4096
/// times the index of the page plus `k`: it is read there, and a write there changes it. Where
/// several pages have the same index, the first one counts.
pub proof fn law_byte_of_an_address<Fp, O>(
    m: Machine<Fp, O>,
    slot: int,
    k: int,
    addr: u32,
    value: u8,
)
    requires
        m.wf(),
        0 <= slot < m.memory.len(),
        forall|j: int|
            0 <= j < slot ==> (#[trigger] m.memory[j]).0 != m.memory[slot].0,
        0 <= k < 4096,
        addr == m.memory[slot].0 * 4096 + k,
    ensures
        m.can_access_memory(addr),
        m.byte_read(addr) == m.memory[slot].1[k],
        m.byte_at(addr) == m.memory[slot].1[k],
        m.memory_pushed(addr, value).memory[slot].1[k] == value,
        m.memory_pushed(addr, value).byte_at(addr) == value,
        m.memory_pushed(addr, value).memory.len() == m.memory.len(),
{
    let page = m.memory[slot].0;
    let ids = machine::page_ids(m.memory);
    law_parts_of_an_address(addr, page, k);
    assert(ids[slot] == page);
    assert forall|j: int| 0 <= j < slot implies ids[j] != page by {
        assert(m.memory[j].0 != page);
    }
    paging::lemma_first_slot_is(ids, page, slot);
    laws::law_lookup_finds_the_page(m, page);
    laws::law_read_gives_the_content(m, addr);
    laws::law_write_changes_one_byte(m, addr, value, addr);
    assert(m.memory[slot].1.len() == 4096);
}

/// In a well-formed machine an address that lies in no page is read as zero.
pub proof fn law_byte_without_page<Fp, O>(m: Machine<Fp, O>, addr: u32)
    requires
        m.wf(),
        forall|j: int|
            0 <= j < m.memory.len() ==> addr < (#[trigger] m.memory[j]).0 * 4096
                || m.memory[j].0 * 4096 + 4096 <= addr,
    ensures
        m.can_access_memory(addr),
        m.byte_read(addr) == 0,
        m.byte_at(addr) == 0,
{
    let ids = machine::page_ids(m.memory);
    let page = machine::page_of(addr);
    law_address_of_parts(addr);
    assert forall|j: int| 0 <= j < ids.len() implies ids[j] != page by {
        assert(addr < m.memory[j].0 * 4096 || m.memory[j].0 * 4096 + 4096 <= addr);
    }
    assert(!ids.contains(page));
    paging::lemma_first_slot(ids, page);
    laws::law_read_gives_the_content(m, addr);
}

/// In a well-formed machine the entry at place `k` of a page belongs to the address that is 4096
/// times the index of the page plus `k`: it is read there, and a write there changes it. Where
/// several pages have the same index, the first one counts.
pub proof fn law_entry_of_an_address<Fp, O>(
    m: Machine<Fp, O>,
    slot: int,
    k: int,
    addr: u32,
    value: u32,
)
    requires
        m.wf(),
        0 <= slot < m.memory_write_index.len(),
        forall|j: int|
            0 <= j < slot ==> (#[trigger] m.memory_write_index[j]).0 != m.memory_write_index[slot].0,
        0 <= k < 4096,
        addr == m.memory_write_index[slot].0 * 4096 + k,
    ensures
        m.can_access_write_index(addr),
        m.access_read(addr) == m.memory_write_index[slot].1[k],
        m.write_index_at(addr) == m.memory_write_index[slot].1[k],
        m.access_pushed(addr, value).memory_write_index[slot].1[k] == value,
        m.access_pushed(addr, value).write_index_at(addr) == value,
        m.access_pushed(addr, value).memory_write_index.len() == m.memory_write_index.len(),
{
    let page = m.memory_write_index[slot].0;
    let ids = machine::page_ids(m.memory_write_index);
    law_parts_of_an_address(addr, page, k);
    assert(ids[slot] == page);
    assert forall|j: int| 0 <= j < slot implies ids[j] != page by {
        assert(m.memory_write_index[j].0 != page);
    }
    paging::lemma_first_slot_is(ids, page, slot);
    laws::law_lookup_finds_the_page(m, page);
    laws::law_read_gives_the_content(m, addr);
    laws::law_write_changes_one_index(m, addr, value, addr);
    assert(m.memory_write_index[slot].1.len() == 4096);
}

/// In a well-formed machine an address that lies in no page is read as zero.
pub proof fn law_entry_without_page<Fp, O>(m: Machine<Fp, O>, addr: u32)
    requires
        m.wf(),
        forall|j: int|
            0 <= j < m.memory_write_index.len() ==> addr < (#[trigger] m.memory_write_index[j]).0 * 4096
                || m.memory_write_index[j].0 * 4096 + 4096 <= addr,
    ensures
        m.can_access_write_index(addr),
        m.access_read(addr) == 0,
        m.write_index_at(addr) == 0,
{
    let ids = machine::page_ids(m.memory_write_index);
    let page = machine::page_of(addr);
    law_address_of_parts(addr);
    assert forall|j: int| 0 <= j < ids.len() implies ids[j] != page by {
        assert(addr < m.memory_write_index[j].0 * 4096 || m.memory_write_index[j].0 * 4096 + 4096 <= addr);
    }
    assert(!ids.contains(page));
    paging::lemma_first_slot(ids, page);
    laws::law_read_gives_the_content(m, addr);
}

} // verus!
