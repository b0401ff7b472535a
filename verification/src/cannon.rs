//! The state that the machine starts from, and how a run is configured.

use vstd::arithmetic::div_mod::*;
use vstd::prelude::*;

verus! {

/// The number of bits of an address that tell the place within a page.
pub const PAGE_ADDRESS_SIZE: u32 = 12;

/// The number of addresses of a page.
pub const PAGE_SIZE: u32 = 4096;

/// The bits of an address that tell the place within a page.
pub const PAGE_ADDRESS_MASK: u32 = 4095;

/// A page of memory. What `data` leaves out at its end is zero.
#[derive(Debug)]
pub struct Page {
    pub index: u32,
    pub data: Vec<u8>,
}

/// A snapshot of the machine.
#[derive(Debug)]
pub struct State {
    pub memory: Vec<Page>,
    pub preimage_key: [u8; 32],
    pub preimage_offset: u32,
    pub pc: u32,
    pub next_pc: u32,
    pub lo: u32,
    pub hi: u32,
    pub heap: u32,
    pub exited: bool,
    pub step: u64,
    pub registers: [u32; 32],
    pub last_hint: Option<Vec<u8>>,
}

/// The steps at which something is to be done.
#[derive(Clone, Copy, Debug, PartialEq, Eq, Structural)]
pub enum StepFrequency {
    Never,
    Always,
    Exactly(u64),
    Every(u64),
}

impl StepFrequency {
    /// Whether the frequency is defined: a period of zero is not.
    pub open spec fn valid(self) -> bool {
        self != StepFrequency::Every(0)
    }

    /// Whether the frequency includes the step `m`.
    pub open spec fn triggers(self, m: nat) -> bool {
        match self {
            StepFrequency::Never => false,
            StepFrequency::Always => true,
            StepFrequency::Exactly(n) => m == n,
            StepFrequency::Every(n) => m % n as nat == 0,
        }
    }
}

/// What a run does beside executing instructions.
#[derive(Debug)]
pub struct VmConfiguration {
    /// The steps at which the run is stopped.
    pub stop_at: StepFrequency,
    /// The steps at which information is given on the run.
    pub info_at: StepFrequency,
}

/// The name of a range of addresses.
#[derive(Debug)]
pub struct Symbol {
    pub name: String,
    pub start: u32,
    pub size: usize,
}

impl Symbol {
    /// Whether the symbol names the address.
    pub open spec fn covers(self, address: u32) -> bool {
        self.start <= address < self.start + self.size
    }
}

/// What is known of the program that the machine executes.
#[derive(Debug)]
pub struct Meta {
    /// The symbols of the program, in the order of the addresses they start at.
    pub symbols: Vec<Symbol>,
}

impl Meta {
    /// The name of the address: that of the first symbol that covers it.
    pub open spec fn symbol_at(self, address: u32) -> Option<Seq<char>> {
        if exists|i: int| self.first_covering(address, i) {
            let i = choose|i: int| self.first_covering(address, i);
            Some(self.symbols@[i].name@)
        } else {
            None
        }
    }

    /// Whether the symbol at `i` is the first one that covers the address.
    pub open spec fn first_covering(self, address: u32, i: int) -> bool {
        &&& 0 <= i < self.symbols@.len()
        &&& self.symbols@[i].covers(address)
        &&& forall|j: int| 0 <= j < i ==> !(#[trigger] self.symbols@[j]).covers(address)
    }

    /// Finds the symbol that an address belongs to.
    pub fn find_address_symbol(&self, address: u32) -> (name: Option<String>)
        ensures
            self.symbol_at(address) == (match name {
                Some(name) => Some(name@),
                None => None,
            }),
    {
        let mut i: usize = 0;
        while i < self.symbols.len()
            invariant
                i <= self.symbols@.len(),
                forall|j: int| 0 <= j < i ==> !(#[trigger] self.symbols@[j]).covers(address),
            decreases self.symbols@.len() - i,
        {
            let symbol = &self.symbols[i];
            if symbol.start <= address && ((address - symbol.start) as usize) < symbol.size {
                assert(self.first_covering(address, i as int));
                assert forall|k: int| self.first_covering(address, k) implies k == i by {
                    if k < i {
                        assert(!self.symbols@[k].covers(address));
                    } else if i < k {
                        assert(!self.symbols@[i as int].covers(address));
                    }
                }
                return Some(symbol.name.clone());
            }
            i = i + 1;
        }
        assert forall|k: int| !self.first_covering(address, k) by {
            if 0 <= k < self.symbols@.len() {
                assert(!self.symbols@[k].covers(address));
            }
        }
        None
    }
}

/// Where a run began.
#[derive(Clone, Copy, Debug)]
pub struct Start {
    /// The step that the run began with.
    pub step: usize,
}

/// A period of `n` steps includes the multiples of `n` and none of the steps between two of them.
/// A period of zero steps alone is not defined. The other frequencies include no step, every step
/// and the one step that they name.
pub proof fn law_frequencies(n: u64, k: nat, m: nat)
    ensures
        StepFrequency::Never.valid() && StepFrequency::Always.valid(),
        StepFrequency::Exactly(n).valid(),
        StepFrequency::Every(n).valid() <==> n > 0,
        !StepFrequency::Never.triggers(m),
        StepFrequency::Always.triggers(m),
        StepFrequency::Exactly(n).triggers(m) <==> m == n,
        n > 0 ==> StepFrequency::Every(n).triggers(k * n as nat),
        n > 0 && k * n < m < (k + 1) * n ==> !StepFrequency::Every(n).triggers(m),
{
    if n > 0 {
        lemma_mod_multiples_basic(k as int, n as int);
        if k * n < m < (k + 1) * n {
            let r = m - k * n;
            assert(r < n) by (nonlinear_arith)
                requires
                    m < (k + 1) * n,
                    r == m - k * n,
            ;
            lemma_fundamental_div_mod_converse(m as int, n as int, k as int, r);
        }
    }
}

/// An address has the name of the first symbol whose range it lies in, from the start of the symbol
/// for as many addresses as its size.
pub proof fn law_symbol_of_an_address(meta: Meta, i: int, address: u32)
    requires
        0 <= i < meta.symbols@.len(),
        meta.symbols@[i].start <= address < meta.symbols@[i].start + meta.symbols@[i].size,
        forall|j: int|
            0 <= j < i ==> address < (#[trigger] meta.symbols@[j]).start || meta.symbols@[j].start
                + meta.symbols@[j].size <= address,
    ensures
        meta.symbol_at(address) == Some(meta.symbols@[i].name@),
{
    assert(meta.first_covering(address, i));
    assert forall|k: int| meta.first_covering(address, k) implies k == i by {
        if k < i {
            assert(meta.symbols@[k].covers(address));
        } else if i < k {
            assert(!meta.symbols@[i].covers(address));
        }
    }
}

/// An address that lies in the range of no symbol has no name.
pub proof fn law_address_without_symbol(meta: Meta, address: u32)
    requires
        forall|j: int|
            0 <= j < meta.symbols@.len() ==> address < (#[trigger] meta.symbols@[j]).start
                || meta.symbols@[j].start + meta.symbols@[j].size <= address,
    ensures
        meta.symbol_at(address) is None,
{
    assert forall|k: int| !meta.first_covering(address, k) by {
        if 0 <= k < meta.symbols@.len() {
            assert(!meta.symbols@[k].covers(address));
        }
    }
}

} // verus!
