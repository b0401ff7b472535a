//! Facts on the pages of memory and the slots that hold them.

use crate::machine;
use vstd::prelude::*;

verus! {

/// The first slot that holds a page is a slot, holds the page, and comes before all others that
/// do.
pub proof fn lemma_first_slot(ids: Seq<u32>, page: u32)
    ensures
        0 <= machine::first_slot(ids, page) <= ids.len(),
        machine::first_slot(ids, page) < ids.len() <==> ids.contains(page),
        machine::first_slot(ids, page) < ids.len() ==> ids[machine::first_slot(ids, page)] == page,
        forall|j: int| 0 <= j < machine::first_slot(ids, page) ==> ids[j] != page,
{
    ids.index_of_first_ensures(page);
}

/// A slot that holds a page and comes before all others that do is the first one.
pub proof fn lemma_first_slot_is(ids: Seq<u32>, page: u32, slot: int)
    requires
        0 <= slot < ids.len(),
        ids[slot] == page,
        forall|j: int| 0 <= j < slot ==> ids[j] != page,
    ensures
        machine::first_slot(ids, page) == slot,
{
    lemma_first_slot(ids, page);
}

/// A new page is found in its own slot, and every other page where it was.
pub proof fn lemma_first_slot_push(ids: Seq<u32>, new: u32, page: u32)
    requires
        !ids.contains(new),
    ensures
        ids.push(new).contains(page) <==> ids.contains(page) || page == new,
        ids.contains(page) ==> machine::first_slot(ids.push(new), page) == machine::first_slot(
            ids,
            page,
        ),
        page == new ==> machine::first_slot(ids.push(new), page) == ids.len(),
{
    lemma_first_slot(ids, page);
    lemma_first_slot(ids.push(new), page);
    let pushed = ids.push(new);
    if ids.contains(page) {
        let slot = machine::first_slot(ids, page);
        assert(pushed[slot] == page);
        assert forall|j: int| 0 <= j < slot implies pushed[j] != page by {
            assert(pushed[j] == ids[j]);
        }
        lemma_first_slot_is(pushed, page, slot);
    } else if page == new {
        assert(pushed[ids.len() as int] == page);
        assert forall|j: int| 0 <= j < ids.len() implies pushed[j] != page by {
            assert(pushed[j] == ids[j]);
        }
        lemma_first_slot_is(pushed, page, ids.len() as int);
    } else if pushed.contains(page) {
        let j = choose|j: int| 0 <= j < pushed.len() && pushed[j] == page;
        assert(ids[j] == page);
    }
}

/// Where the slots that were used last are the first ones of their pages, looking through them
/// stays in range and finds a page, if at all, in its first slot.
pub proof fn lemma_recent(recent: Seq<usize>, ids: Seq<u32>, page: u32)
    requires
        machine::recent_are_first(recent, ids),
    ensures
        machine::recent_in_range(recent, ids, page),
        machine::recent_slot(recent, ids, page) matches Some(slot) ==> ids.contains(page) && slot
            == machine::first_slot(ids, page),
{
    machine::held(recent, ids).index_of_first_ensures(page);
    assert forall|k: int| 0 <= k < recent.len() implies (#[trigger] recent[k]) < ids.len() by {
        assert(machine::is_first_slot(ids, recent[k]));
    }
    if let Some(k) = machine::held(recent, ids).index_of_first(page) {
        assert(machine::is_first_slot(ids, recent[k]));
        assert(ids[recent[k] as int] == page);
    }
}

/// After the use of the first slot of a page, the slots that were used last are still the first
/// ones of their pages.
pub proof fn lemma_recent_renewed(recent: Seq<usize>, ids: Seq<u32>, page: u32)
    requires
        machine::recent_are_first(recent, ids),
        ids.contains(page),
        ids.len() <= usize::MAX,
    ensures
        machine::recent_are_first(
            machine::renewed(recent, machine::first_slot(ids, page)),
            ids,
        ),
{
    lemma_first_slot(ids, page);
    assert(machine::is_first_slot(ids, recent[0]) && machine::is_first_slot(ids, recent[1]));
    assert(machine::is_first_slot(ids, machine::first_slot(ids, page) as usize));
}

/// The slots that were used last stay the first ones of their pages when a page is added, and so
/// they do when the slot of the new page is used.
pub proof fn lemma_recent_push(recent: Seq<usize>, ids: Seq<u32>, new: u32)
    requires
        machine::recent_are_first(recent, ids),
        !ids.contains(new),
        ids.len() <= usize::MAX,
    ensures
        machine::recent_are_first(recent, ids.push(new)),
        machine::recent_are_first(machine::renewed(recent, ids.len() as int), ids.push(new)),
{
    let pushed = ids.push(new);
    assert forall|k: int| 0 <= k < 3 implies machine::is_first_slot(
        pushed,
        #[trigger] recent[k],
    ) by {
        assert(machine::is_first_slot(ids, recent[k]));
        assert(pushed[recent[k] as int] == ids[recent[k] as int]);
        lemma_first_slot_push(ids, new, ids[recent[k] as int]);
    }
    lemma_first_slot_push(ids, new, new);
    assert(machine::is_first_slot(pushed, ids.len() as usize));
    assert(machine::is_first_slot(pushed, recent[0]) && machine::is_first_slot(pushed, recent[1]));
}

/// Once the slot of a page has been used, looking through the slots that were used last finds the
/// page there, whether it was held before or has been added.
pub proof fn lemma_used_slot(recent: Seq<usize>, ids: Seq<u32>, page: u32)
    requires
        machine::recent_are_first(recent, ids),
        ids.len() <= usize::MAX,
    ensures
        ({
            let slot = machine::first_slot(ids, page);
            let known = if ids.contains(page) {
                ids
            } else {
                ids.push(page)
            };
            let used = machine::renewed(recent, slot);
            &&& machine::recent_in_range(used, known, page)
            &&& machine::recent_slot(used, known, page) == Some(slot)
        }),
{
    let slot = machine::first_slot(ids, page);
    let known = if ids.contains(page) {
        ids
    } else {
        ids.push(page)
    };
    let used = machine::renewed(recent, slot);
    lemma_first_slot(ids, page);
    machine::held(used, known).index_of_first_ensures(page);
    assert(used[0] == slot);
    assert(machine::held(used, known)[0] == page);
}

/// Adding a page adds its index.
pub proof fn lemma_page_ids_push<T>(pages: Seq<(u32, Seq<T>)>, page: u32, data: Seq<T>)
    ensures
        machine::page_ids(pages.push((page, data))) == machine::page_ids(pages).push(page),
{
    assert(machine::page_ids(pages.push((page, data))) =~= machine::page_ids(pages).push(page));
}

/// Adding a blank page changes no content.
pub proof fn lemma_content_with_page<T>(
    pages: Seq<(u32, Seq<T>)>,
    page: u32,
    value: T,
    addr: u32,
)
    ensures
        machine::content_at(machine::with_page(pages, page, value), addr, value)
            == machine::content_at(pages, addr, value),
{
    let ids = machine::page_ids(pages);
    if !ids.contains(page) {
        lemma_page_ids_push(pages, page, machine::blank(value));
        lemma_first_slot_push(ids, page, machine::page_of(addr));
        lemma_first_slot(ids, machine::page_of(addr));
        lemma_first_slot(ids.push(page), machine::page_of(addr));
    }
}

/// Two addresses are equal if their pages and their places within them are.
pub proof fn lemma_address_parts(a: u32, b: u32)
    ensures
        machine::page_of(a) == machine::page_of(b) && machine::offset_of(a) == machine::offset_of(b)
            <==> a == b,
        0 <= machine::offset_of(a) < 4096,
{
}

/// Writing a value in the first slot of its page changes the content of that address alone, and
/// no page index.
pub proof fn lemma_content_with_value<T>(
    pages: Seq<(u32, Seq<T>)>,
    addr: u32,
    value: T,
    absent: T,
    other: u32,
)
    requires
        machine::page_ids(pages).contains(machine::page_of(addr)),
        machine::pages_are_full(pages),
    ensures
        ({
            let slot = machine::first_slot(machine::page_ids(pages), machine::page_of(addr));
            let written = machine::with_value(pages, slot, machine::offset_of(addr), value);
            &&& machine::page_ids(written) == machine::page_ids(pages)
            &&& machine::pages_are_full(written)
            &&& machine::content_at(written, other, absent) == if other == addr {
                value
            } else {
                machine::content_at(pages, other, absent)
            }
        }),
{
    let ids = machine::page_ids(pages);
    let slot = machine::first_slot(ids, machine::page_of(addr));
    let written = machine::with_value(pages, slot, machine::offset_of(addr), value);
    lemma_first_slot(ids, machine::page_of(addr));
    lemma_first_slot(ids, machine::page_of(other));
    lemma_address_parts(addr, other);
    lemma_address_parts(other, addr);
    assert(machine::page_ids(written) =~= ids);
    assert forall|i: int| 0 <= i < written.len() implies (#[trigger] written[i]).1.len()
        == 4096 by {
        assert(pages[i].1.len() == 4096);
    }
}

} // verus!
