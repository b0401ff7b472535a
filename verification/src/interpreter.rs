//! The operations on which the interpreter of instructions builds.

use crate::column::Column;
use crate::field::Field;
use crate::machine;
use crate::machine::Machine;
use crate::registers::NUM_REGISTERS;
use crate::units;
use crate::witness::{split_address, Env};
use crate::words;
use vstd::arithmetic::power2::*;
use vstd::bits::*;
use vstd::prelude::*;

verus! {

/// What the interpreter of instructions asks of the environment. Words go in and out by value;
/// what they are worth is also written to the columns of the witness.
impl<Fp: Field, O> Env<Fp, O> {
    /// Returns a scratch column that is not in use.
    pub fn alloc_scratch(&mut self) -> (column: Column)
        requires
            old(self)@.scratch_state_idx < usize::MAX,
        ensures
            column == old(self)@.next_scratch(),
            final(self)@ == old(self)@.scratch_allocated(1),
    {
        let scratch_idx: usize = self.scratch_state_idx;
        self.scratch_state_idx = self.scratch_state_idx + 1;
        Column::ScratchState(scratch_idx)
    }

    /// Leaves the environment as it is: the witness states no constraints, and some words are
    /// placeholders that do not meet them.
    pub fn add_constraint(&mut self, _assert_equals_zero: u32)
        ensures
            final(self)@ == old(self)@,
    {
    }

    /// Says whether a word that must be zero is.
    #[must_use]
    pub fn check_is_zero(assert_equals_zero: &u32) -> (holds: bool)
        ensures
            holds == (*assert_equals_zero == 0),
    {
        *assert_equals_zero == 0
    }

    /// Says whether two words that must be equal are.
    #[must_use]
    pub fn check_equal(x: &u32, y: &u32) -> (holds: bool)
        ensures
            holds == (*x == *y),
    {
        *x == *y
    }

    /// Says whether a word that must be zero or one is.
    #[must_use]
    pub fn check_boolean(x: &u32) -> (holds: bool)
        ensures
            holds == (*x == 0 || *x == 1),
    {
        *x == 0 || *x == 1
    }

    /// Leaves the environment as it is: lookups are not recorded.
    pub fn add_lookup<L>(&mut self, _lookup: L)
        ensures
            final(self)@ == old(self)@,
    {
    }

    /// Returns the number of the step at hand.
    pub fn instruction_counter(&self) -> (counter: u32)
        ensures
            counter == self@.instruction_counter,
    {
        self.instruction_counter
    }

    /// Reads a register.
    pub fn fetch_register(&mut self, idx: &u32, output: Column) -> (value: u32)
        requires
            *idx < NUM_REGISTERS,
            old(self)@.has_column(output),
        ensures
            value == old(self)@.registers[*idx as int],
            final(self)@ == old(self)@.with_number(output, value as u64),
    {
        let res: u32 = self.registers.get(*idx as usize);
        self.write_column(output, res as u64);
        res
    }

    /// Writes a register if the flag is one.
    pub fn push_register_if(&mut self, idx: &u32, value: u32, if_is_true: &u32)
        requires
            *if_is_true == 0 || *if_is_true == 1,
            *if_is_true == 1 ==> *idx < NUM_REGISTERS,
        ensures
            *if_is_true == 1 ==> final(self)@ == (Machine {
                registers: old(self)@.registers.update(*idx as int, value),
                ..old(self)@
            }),
            *if_is_true == 0 ==> final(self)@ == old(self)@,
    {
        if *if_is_true == 1 {
            self.registers.set(*idx as usize, value);
        }
    }

    /// Reads the step at which a register was last written.
    pub fn fetch_register_access(&mut self, idx: &u32, output: Column) -> (value: u32)
        requires
            *idx < NUM_REGISTERS,
            old(self)@.has_column(output),
        ensures
            value == old(self)@.registers_write_index[*idx as int],
            final(self)@ == old(self)@.with_number(output, value as u64),
    {
        let res: u32 = self.registers_write_index.get(*idx as usize);
        self.write_column(output, res as u64);
        res
    }

    /// Sets the step at which a register was last written if the flag is one.
    pub fn push_register_access_if(&mut self, idx: &u32, value: u32, if_is_true: &u32)
        requires
            *if_is_true == 0 || *if_is_true == 1,
            *if_is_true == 1 ==> *idx < NUM_REGISTERS,
        ensures
            *if_is_true == 1 ==> final(self)@ == (Machine {
                registers_write_index: old(self)@.registers_write_index.update(*idx as int, value),
                ..old(self)@
            }),
            *if_is_true == 0 ==> final(self)@ == old(self)@,
    {
        if *if_is_true == 1 {
            self.registers_write_index.set(*idx as usize, value);
        }
    }

    /// Reads a byte of memory.
    pub fn fetch_memory(&mut self, addr: &u32, output: Column) -> (value: u32)
        requires
            old(self)@.can_access_memory(*addr),
            old(self)@.has_column(output),
        ensures
            value == old(self)@.byte_read(*addr),
            final(self)@ == old(self)@.byte_taken(*addr).with_number(output, value as u64),
    {
        let value: u8 = self.get_memory_direct(*addr);
        self.write_column(output, value as u64);
        value as u32
    }

    /// Writes a byte of memory.
    pub fn push_memory(&mut self, addr: &u32, value: u32)
        requires
            old(self)@.can_access_memory(*addr),
            value <= u8::MAX,
        ensures
            final(self)@ == old(self)@.memory_pushed(*addr, value as u8),
    {
        let (page, page_address) = split_address(*addr);
        let memory_page_idx: usize = self.get_memory_page_index(page);
        let ghost m = self@;
        assert(m.memory[memory_page_idx as int].1 == self.memory@[memory_page_idx as int].1@);
        self.memory[memory_page_idx].1[page_address] = value as u8;
        assert(self@.memory =~= machine::with_value(
            m.memory,
            memory_page_idx as int,
            page_address as int,
            value as u8,
        ));
    }

    /// Reads the step at which a byte of memory was last written.
    pub fn fetch_memory_access(&mut self, addr: &u32, output: Column) -> (value: u32)
        requires
            old(self)@.can_access_write_index(*addr),
            old(self)@.has_column(output),
        ensures
            value == old(self)@.access_read(*addr),
            final(self)@ == old(self)@.access_looked_up(machine::page_of(*addr)).with_number(
                output,
                value as u64,
            ),
    {
        let (page, page_address) = split_address(*addr);
        let memory_write_index_page_idx: usize = self.get_memory_access_page_index(page);
        assert(self@.memory_write_index[memory_write_index_page_idx as int].1
            == self.memory_write_index@[memory_write_index_page_idx as int].1@);
        let value: u32 = self.memory_write_index[memory_write_index_page_idx].1[page_address];
        self.write_column(output, value as u64);
        value
    }

    /// Sets the step at which a byte of memory was last written.
    pub fn push_memory_access(&mut self, addr: &u32, value: u32)
        requires
            old(self)@.can_access_write_index(*addr),
        ensures
            final(self)@ == old(self)@.access_pushed(*addr, value),
    {
        let (page, page_address) = split_address(*addr);
        let memory_write_index_page_idx: usize = self.get_memory_access_page_index(page);
        let ghost m = self@;
        assert(m.memory_write_index[memory_write_index_page_idx as int].1
            == self.memory_write_index@[memory_write_index_page_idx as int].1@);
        self.memory_write_index[memory_write_index_page_idx].1[page_address] = value;
        assert(self@.memory_write_index =~= machine::with_value(
            m.memory_write_index,
            memory_write_index_page_idx as int,
            page_address as int,
            value,
        ));
    }

    /// Returns the word for a constant.
    pub fn constant(x: u32) -> (word: u32)
        ensures
            word == x,
    {
        x
    }

    /// Takes bits `lowest_bit` to `highest_bit - 1` of a word.
    pub fn bitmask(
        &mut self,
        x: &u32,
        highest_bit: u32,
        lowest_bit: u32,
        position: Column,
    ) -> (res: u32)
        requires
            lowest_bit <= highest_bit,
            lowest_bit < 32,
            highest_bit - lowest_bit < 32,
            old(self)@.has_column(position),
        ensures
            res == (*x as nat / pow2(lowest_bit as nat)) % pow2((highest_bit - lowest_bit) as nat),
            final(self)@ == old(self)@.with_number(position, res as u64),
    {
        let res: u32 = words::bit_field(*x, highest_bit, lowest_bit);
        self.write_column(position, res as u64);
        res
    }

    /// Shifts a word to the left.
    pub fn shift_left(&mut self, x: &u32, by: &u32, position: Column) -> (res: u32)
        requires
            *by < 32,
            old(self)@.has_column(position),
        ensures
            res == words::low_word(*x * pow2(*by as nat)),
            final(self)@ == old(self)@.with_number(position, res as u64),
    {
        proof {
            words::lemma_shift_left(*x, *by);
        }
        let res: u32 = *x << *by;
        self.write_column(position, res as u64);
        res
    }

    /// Shifts a word to the right, zeros coming in from the left.
    pub fn shift_right(&mut self, x: &u32, by: &u32, position: Column) -> (res: u32)
        requires
            *by < 32,
            old(self)@.has_column(position),
        ensures
            res == *x as nat / pow2(*by as nat),
            final(self)@ == old(self)@.with_number(position, res as u64),
    {
        proof {
            lemma_u32_shr_is_div(*x, *by);
        }
        let res: u32 = *x >> *by;
        self.write_column(position, res as u64);
        res
    }

    /// Shifts a word to the right, copies of its sign coming in from the left.
    pub fn shift_right_arithmetic(&mut self, x: &u32, by: &u32, position: Column) -> (res: u32)
        requires
            *by < 32,
            old(self)@.has_column(position),
        ensures
            res == words::low_word(words::signed(*x) / pow2(*by as nat) as int),
            final(self)@ == old(self)@.with_number(position, res as u64),
    {
        let res: u32 = words::arithmetic_shift_right(*x, *by);
        self.write_column(position, res as u64);
        res
    }

    /// Tests whether a word is zero: one if it is, else zero.
    pub fn test_zero(&mut self, x: &u32, position: Column) -> (res: u32)
        requires
            old(self)@.has_column(position),
        ensures
            res == (if *x == 0 {
                1u32
            } else {
                0u32
            }),
            final(self)@ == old(self)@.with_number(position, res as u64),
    {
        let res: u32 = if *x == 0 {
            1
        } else {
            0
        };
        self.write_column(position, res as u64);
        res
    }

    /// Writes the inverse of a word to the column, or zero if the word is zero. What is returned
    /// tells zero from other words, and is no more than a placeholder for the inverse.
    pub fn inverse_or_zero(&mut self, x: &u32, position: Column) -> (res: u32)
        requires
            *x != 0 ==> Fp::embed(*x as u64) != Fp::zero_element(),
            old(self)@.has_column(position),
        ensures
            *x == 0 ==> res == 0 && final(self)@ == old(self)@.with_column(
                position,
                Fp::zero_element(),
            ),
            *x != 0 ==> res == 1 && exists|inverse: Fp|
                #![trigger Fp::embed(*x as u64).times(inverse)]
                {
                    &&& Fp::embed(*x as u64).times(inverse) == Fp::one_element()
                    &&& inverse.times(Fp::embed(*x as u64)) == Fp::one_element()
                    &&& final(self)@ == old(self)@.with_column(position, inverse)
                },
    {
        if *x == 0 {
            proof {
                Fp::law_zero_stands_for_zero();
            }
            self.write_column(position, 0);
            0
        } else {
            let inverse = Fp::from_u64(*x as u64).inverse().unwrap();
            proof {
                Fp::embed(*x as u64).law_times_commutes(inverse);
            }
            self.write_field_column(position, inverse);
            1
        }
    }

    /// Tests whether a word is less than another: one if it is, else zero.
    pub fn test_less_than(&mut self, x: &u32, y: &u32, position: Column) -> (res: u32)
        requires
            old(self)@.has_column(position),
        ensures
            res == (if *x < *y {
                1u32
            } else {
                0u32
            }),
            final(self)@ == old(self)@.with_number(position, res as u64),
    {
        let res: u32 = if *x < *y {
            1
        } else {
            0
        };
        self.write_column(position, res as u64);
        res
    }

    /// Tests whether a word is less than another, both read in two's complement: one if it is, else
    /// zero.
    pub fn test_less_than_signed(&mut self, x: &u32, y: &u32, position: Column) -> (res: u32)
        requires
            old(self)@.has_column(position),
        ensures
            res == (if words::signed(*x) < words::signed(*y) {
                1u32
            } else {
                0u32
            }),
            final(self)@ == old(self)@.with_number(position, res as u64),
    {
        let res: u32 = if words::signed_less_than(*x, *y) {
            1
        } else {
            0
        };
        self.write_column(position, res as u64);
        res
    }

    /// Takes the bits that are set in both words.
    pub fn and_witness(&mut self, x: &u32, y: &u32, position: Column) -> (res: u32)
        requires
            old(self)@.has_column(position),
        ensures
            res == *x & *y,
            final(self)@ == old(self)@.with_number(position, res as u64),
    {
        let res: u32 = *x & *y;
        self.write_column(position, res as u64);
        res
    }

    /// Takes the bits that are set in neither word.
    pub fn nor_witness(&mut self, x: &u32, y: &u32, position: Column) -> (res: u32)
        requires
            old(self)@.has_column(position),
        ensures
            res == !(*x | *y),
            final(self)@ == old(self)@.with_number(position, res as u64),
    {
        let res: u32 = !(*x | *y);
        self.write_column(position, res as u64);
        res
    }

    /// Takes the bits that are set in either word.
    pub fn or_witness(&mut self, x: &u32, y: &u32, position: Column) -> (res: u32)
        requires
            old(self)@.has_column(position),
        ensures
            res == *x | *y,
            final(self)@ == old(self)@.with_number(position, res as u64),
    {
        let res: u32 = *x | *y;
        self.write_column(position, res as u64);
        res
    }

    /// Takes the bits that are set in one word alone.
    pub fn xor_witness(&mut self, x: &u32, y: &u32, position: Column) -> (res: u32)
        requires
            old(self)@.has_column(position),
        ensures
            res == *x ^ *y,
            final(self)@ == old(self)@.with_number(position, res as u64),
    {
        let res: u32 = *x ^ *y;
        self.write_column(position, res as u64);
        res
    }

    /// Multiplies two words in two's complement, where a word can hold the product.
    pub fn mul_signed_witness(&mut self, x: &u32, y: &u32, position: Column) -> (res: u32)
        requires
            words::fits_signed(words::signed(*x) * words::signed(*y)),
            old(self)@.has_column(position),
        ensures
            words::signed(res) == words::signed(*x) * words::signed(*y),
            final(self)@ == old(self)@.with_number(position, res as u64),
    {
        let res: u32 = words::signed_product(*x, *y);
        self.write_column(position, res as u64);
        res
    }

    /// Multiplies two words in two's complement, to a high and a low word.
    pub fn mul_hi_lo_signed(
        &mut self,
        x: &u32,
        y: &u32,
        position_hi: Column,
        position_lo: Column,
    ) -> (res: (u32, u32))
        requires
            old(self)@.has_column(position_hi),
            old(self)@.has_column(position_lo),
        ensures
            res.0 == words::high_word(words::signed(*x) * words::signed(*y)),
            res.1 == words::low_word(words::signed(*x) * words::signed(*y)),
            final(self)@ == old(self)@.with_number(position_hi, res.0 as u64).with_number(
                position_lo,
                res.1 as u64,
            ),
    {
        let (hi, lo) = words::signed_wide_product(*x, *y);
        self.write_column(position_hi, hi as u64);
        self.write_column(position_lo, lo as u64);
        (hi, lo)
    }

    /// Multiplies two words, to a high and a low word.
    pub fn mul_hi_lo(
        &mut self,
        x: &u32,
        y: &u32,
        position_hi: Column,
        position_lo: Column,
    ) -> (res: (u32, u32))
        requires
            old(self)@.has_column(position_hi),
            old(self)@.has_column(position_lo),
        ensures
            res.0 == words::high_word(*x * *y),
            res.1 == words::low_word(*x * *y),
            final(self)@ == old(self)@.with_number(position_hi, res.0 as u64).with_number(
                position_lo,
                res.1 as u64,
            ),
    {
        let (hi, lo) = words::wide_product(*x, *y);
        self.write_column(position_hi, hi as u64);
        self.write_column(position_lo, lo as u64);
        (hi, lo)
    }

    /// Divides a word by another in two's complement, where a word can hold the quotient.
    pub fn divmod_signed(
        &mut self,
        x: &u32,
        y: &u32,
        position_quotient: Column,
        position_remainder: Column,
    ) -> (res: (u32, u32))
        requires
            *y != 0,
            words::fits_signed(words::truncated_quotient(words::signed(*x), words::signed(*y))),
            old(self)@.has_column(position_quotient),
            old(self)@.has_column(position_remainder),
        ensures
            words::signed(res.0) == words::truncated_quotient(words::signed(*x), words::signed(*y)),
            words::signed(res.1) == words::truncated_remainder(
                words::signed(*x),
                words::signed(*y),
            ),
            final(self)@ == old(self)@.with_number(position_quotient, res.0 as u64).with_number(
                position_remainder,
                res.1 as u64,
            ),
    {
        let (q, r) = words::signed_division(*x, *y);
        self.write_column(position_quotient, q as u64);
        self.write_column(position_remainder, r as u64);
        (q, r)
    }

    /// Divides a word by another.
    pub fn divmod(
        &mut self,
        x: &u32,
        y: &u32,
        position_quotient: Column,
        position_remainder: Column,
    ) -> (res: (u32, u32))
        requires
            *y != 0,
            old(self)@.has_column(position_quotient),
            old(self)@.has_column(position_remainder),
        ensures
            res.0 == *x as int / *y as int,
            res.1 == *x as int % *y as int,
            final(self)@ == old(self)@.with_number(position_quotient, res.0 as u64).with_number(
                position_remainder,
                res.1 as u64,
            ),
    {
        let q: u32 = *x / *y;
        let r: u32 = *x % *y;
        self.write_column(position_quotient, q as u64);
        self.write_column(position_remainder, r as u64);
        (q, r)
    }

    /// Counts the zeros that a word starts with, from its highest bit.
    pub fn count_leading_zeros(&mut self, x: &u32, position: Column) -> (res: u32)
        requires
            old(self)@.has_column(position),
        ensures
            res <= 32,
            *x == 0 ==> res == 32,
            *x < pow2((32 - res) as nat),
            *x != 0 ==> res < 32 && pow2((31 - res) as nat) <= *x,
            final(self)@ == old(self)@.with_number(position, res as u64),
    {
        let res: u32 = words::leading_zeros(*x);
        self.write_column(position, res as u64);
        res
    }

    /// Writes a word to a column.
    pub fn copy(&mut self, x: &u32, position: Column) -> (word: u32)
        requires
            old(self)@.has_column(position),
        ensures
            word == *x,
            final(self)@ == old(self)@.with_number(position, *x as u64),
    {
        self.write_column(position, *x as u64);
        *x
    }

    /// Halts the machine if the flag is one, and resumes it if the flag is zero.
    pub fn set_halted(&mut self, flag: u32)
        requires
            flag == 0 || flag == 1,
        ensures
            final(self)@ == (Machine { halt: flag == 1, ..old(self)@ }),
    {
        self.halt = flag == 1;
    }

    /// Returns the message that reports the exit code of the program.
    pub fn report_exit(&self, exit_code: &u32) -> (message: String)
        ensures
            message@ == "Exited with code "@ + units::decimal(*exit_code as nat),
    {
        let mut message = String::from_str("Exited with code ");
        message.append(units::decimal_text(*exit_code as u64).as_str());
        message
    }
}

} // verus!
