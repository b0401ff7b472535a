use mips_witness::bn254::Fp;
use mips_witness::cannon::{Meta, Page, Start, State, StepFrequency, Symbol, VmConfiguration};
use mips_witness::column::Column;
use mips_witness::field::Field;
use mips_witness::instruction::{ITypeInstruction, Instruction, RTypeInstruction};
use mips_witness::step::StepError;
use mips_witness::witness::{
    Env, KeccakEnv, SyscallEnv, NUM_LOOKUP_TERMS, SCRATCH_SIZE,
};

type TestEnv = Env<Fp, ()>;

fn state(pages: Vec<Page>) -> State {
    let mut preimage_key = [0u8; 32];
    let mut registers = [0u32; 32];
    for i in 0..32 {
        preimage_key[i] = i as u8;
        registers[i] = 100 + i as u32;
    }
    State {
        memory: pages,
        preimage_key,
        preimage_offset: 9,
        pc: 0x1000,
        next_pc: 0x1004,
        lo: 11,
        hi: 12,
        heap: 13,
        exited: false,
        step: 5,
        registers,
        last_hint: Some(vec![1, 2, 3]),
    }
}

fn page(index: u32, data: Vec<u8>) -> Page {
    Page { index, data }
}

/// A machine with the pages zero and one, the latter starting with the given bytes.
fn machine(code: Vec<u8>) -> TestEnv {
    TestEnv::create(4096, state(vec![page(0, vec![]), page(1, code)]), ())
}

fn plain() -> TestEnv {
    machine(vec![])
}

fn configuration(stop_at: StepFrequency, info_at: StepFrequency) -> VmConfiguration {
    VmConfiguration { stop_at, info_at }
}

fn meta() -> Meta {
    Meta {
        symbols: vec![
            Symbol {
                name: String::from("zero"),
                start: 0,
                size: 4,
            },
            Symbol {
                name: String::from("main"),
                start: 0x1000,
                size: 8,
            },
        ],
    }
}

fn scratch(idx: usize) -> Column {
    Column::ScratchState(idx)
}

fn number(value: u64) -> Fp {
    Fp::from_u64(value)
}

#[test]
fn lookup_terms_add_up() {
    assert_eq!(NUM_LOOKUP_TERMS, 8);
}

#[test]
fn syscall_env_takes_the_last_hint() {
    let env = SyscallEnv::create(&state(vec![]));
    assert_eq!(env.last_hint, Some(vec![1, 2, 3]));
    assert_eq!(SyscallEnv::default().last_hint, None);
    let mut without = state(vec![]);
    without.last_hint = None;
    assert_eq!(SyscallEnv::create(&without).last_hint, None);
}

#[test]
fn create_takes_over_the_state() {
    let env = TestEnv::create(8, state(vec![page(7, vec![1, 2, 3]), page(2, vec![9; 8])]), ());
    assert_eq!(env.instruction_counter, 5);
    assert_eq!(env.memory.len(), 2);
    assert_eq!(env.memory[0], (7, vec![1, 2, 3, 0, 0, 0, 0, 0]));
    assert_eq!(env.memory[1], (2, vec![9; 8]));
    assert_eq!(env.memory_write_index[0], (7, vec![0; 8]));
    assert_eq!(env.memory_write_index[1], (2, vec![0; 8]));
    assert_eq!(env.last_memory_accesses, [0, 0, 0]);
    assert_eq!(env.last_memory_write_index_accesses, [0, 0, 0]);
    assert_eq!(env.registers.general_purpose[31], 131);
    assert_eq!(env.registers.hi, 12);
    assert_eq!(env.registers.lo, 11);
    assert_eq!(env.registers.current_instruction_pointer, 0x1000);
    assert_eq!(env.registers.next_instruction_pointer, 0x1004);
    assert_eq!(env.registers.heap_pointer, 13);
    assert_eq!(env.registers.preimage_key[0], 0x0001_0203);
    assert_eq!(env.registers.preimage_key[7], 0x1c1d_1e1f);
    assert_eq!(env.registers.preimage_offset, 9);
    assert_eq!(env.registers_write_index.general_purpose, [0; 32]);
    assert_eq!(env.registers_write_index.preimage_key, [0; 8]);
    assert_eq!(env.registers_write_index.hi, 0);
    assert_eq!(env.scratch_state_idx, 0);
    assert_eq!(env.scratch_state.len(), SCRATCH_SIZE);
    assert!(env.scratch_state.iter().all(|cell| *cell == number(0)));
    assert!(!env.halt);
    assert_eq!(env.syscall_env.last_hint, Some(vec![1, 2, 3]));
    assert!(env.keccak_env.is_none());
}

#[test]
fn create_keeps_the_low_bits_of_the_step() {
    let mut s = state(vec![]);
    s.step = 0x7_0000_0003;
    s.exited = true;
    let env = TestEnv::create(4096, s, ());
    assert_eq!(env.instruction_counter, 3);
    assert!(env.halt);
}

#[test]
fn oracle_is_carried_along() {
    let env: Env<Fp, u8> = Env::create(4096, state(vec![]), 42);
    assert_eq!(env.preimage_oracle, 42);
}

#[test]
fn scratch_columns_are_allocated_in_order_and_reset() {
    let mut env = plain();
    assert_eq!(env.alloc_scratch(), scratch(0));
    assert_eq!(env.alloc_scratch(), scratch(1));
    env.write_column(scratch(1), 77);
    assert_eq!(env.scratch_state[1], number(77));
    assert_eq!(env.scratch_state[0], number(0));
    env.reset_scratch_state();
    assert_eq!(env.scratch_state[1], number(0));
    assert_eq!(env.alloc_scratch(), scratch(0));
}

#[test]
fn keccak_columns_are_written() {
    let mut env = plain();
    env.keccak_env = Some(KeccakEnv {
        keccak_state: vec![number(0), number(0), number(0)],
    });
    env.write_column(Column::KeccakState(1), 8);
    env.write_field_column(Column::KeccakState(2), number(9));
    let state = env.keccak_env.unwrap().keccak_state;
    assert_eq!(state, vec![number(0), number(8), number(9)]);
}

#[test]
fn last_uses_are_shifted() {
    let mut env = plain();
    env.update_last_memory_access(1);
    env.update_last_memory_access(0);
    env.update_last_memory_access(1);
    assert_eq!(env.last_memory_accesses, [1, 0, 1]);
    env.update_last_memory_write_index_access(1);
    assert_eq!(env.last_memory_write_index_accesses, [1, 0, 0]);
}

#[test]
fn pages_are_found_or_allocated() {
    let mut env = plain();
    assert_eq!(env.get_memory_page_index(1), 1);
    assert_eq!(env.last_memory_accesses, [1, 0, 0]);
    // A page that was used last leaves the order as it is.
    assert_eq!(env.get_memory_page_index(0), 0);
    assert_eq!(env.last_memory_accesses, [1, 0, 0]);
    assert_eq!(env.get_memory_page_index(0x77), 2);
    assert_eq!(env.memory[2], (0x77, vec![0; 4096]));
    assert_eq!(env.last_memory_accesses, [2, 1, 0]);
    assert_eq!(env.memory_write_index.len(), 2);
    assert_eq!(env.get_memory_access_page_index(0x77), 2);
    assert_eq!(env.memory_write_index[2], (0x77, vec![0; 4096]));
    assert_eq!(env.last_memory_write_index_accesses, [2, 0, 0]);
    assert_eq!(env.get_memory_page_index(0x77), 2);
    assert_eq!(env.get_memory_access_page_index(1), 1);
}

#[test]
fn recent_pages_are_told_by_the_write_index() {
    let mut env = plain();
    env.memory_write_index[0].0 = 1;
    // Slot zero was used last, and the write index has page one there.
    assert_eq!(env.get_memory_page_index(1), 0);
}

#[test]
fn memory_is_read_back() {
    let mut env = machine(vec![10, 20, 30]);
    assert_eq!(env.get_memory_direct(0x1001), 20);
    assert_eq!(env.get_memory_direct(0x1003), 0);
    env.push_memory(&0x1001, 255);
    assert_eq!(env.fetch_memory(&0x1001, scratch(4)), 255);
    assert_eq!(env.scratch_state[4], number(255));
    assert_eq!(env.fetch_memory(&0x1000, scratch(4)), 10);
    assert_eq!(env.fetch_memory(&0x1002, scratch(4)), 30);
    assert_eq!(env.scratch_state[4], number(30));
    assert_eq!(env.memory_write_index[1].1[1], 0);
}

#[test]
fn unallocated_memory_is_zero_and_can_be_written() {
    let mut env = plain();
    assert_eq!(env.fetch_memory(&0xdead_beef, scratch(0)), 0);
    assert_eq!(env.fetch_memory_access(&0xdead_beef, scratch(1)), 0);
    env.push_memory(&0xdead_beef, 7);
    env.push_memory_access(&0xdead_beef, 99);
    assert_eq!(env.fetch_memory(&0xdead_beef, scratch(0)), 7);
    assert_eq!(env.fetch_memory_access(&0xdead_beef, scratch(1)), 99);
    assert_eq!(env.scratch_state[1], number(99));
    assert_eq!(env.fetch_memory(&0xdead_beee, scratch(0)), 0);
}

#[test]
fn paired_lookups_commute() {
    let mut a = plain();
    a.get_memory_page_index(5);
    a.get_memory_access_page_index(5);
    let mut b = plain();
    b.get_memory_access_page_index(5);
    b.get_memory_page_index(5);
    assert_eq!(a.memory, b.memory);
    assert_eq!(a.memory_write_index, b.memory_write_index);
    assert_eq!(a.last_memory_accesses, b.last_memory_accesses);
    assert_eq!(
        a.last_memory_write_index_accesses,
        b.last_memory_write_index_accesses
    );
}

#[test]
fn registers_are_read_and_written() {
    let mut env = plain();
    assert_eq!(env.fetch_register(&3, scratch(0)), 103);
    assert_eq!(env.scratch_state[0], number(103));
    assert_eq!(env.fetch_register(&32, scratch(0)), 12);
    assert_eq!(env.fetch_register(&33, scratch(0)), 11);
    assert_eq!(env.fetch_register(&34, scratch(0)), 0x1000);
    assert_eq!(env.fetch_register(&35, scratch(0)), 0x1004);
    assert_eq!(env.fetch_register(&36, scratch(0)), 13);
    assert_eq!(env.fetch_register(&37, scratch(0)), 0x0001_0203);
    assert_eq!(env.fetch_register(&44, scratch(0)), 0x1c1d_1e1f);
    assert_eq!(env.fetch_register(&45, scratch(0)), 9);
    for idx in 0..46u32 {
        env.push_register_if(&idx, 1000 + idx, &1);
        env.push_register_if(&idx, 5, &0);
        env.push_register_access_if(&idx, 2000 + idx, &1);
        env.push_register_access_if(&idx, 6, &0);
    }
    for idx in 0..46u32 {
        assert_eq!(env.fetch_register(&idx, scratch(0)), 1000 + idx);
        assert_eq!(env.fetch_register_access(&idx, scratch(1)), 2000 + idx);
        assert_eq!(env.scratch_state[1], number(2000 + idx as u64));
    }
}

#[test]
fn checks_tell_whether_they_hold() {
    assert!(TestEnv::check_is_zero(&0));
    assert!(!TestEnv::check_is_zero(&1));
    assert!(TestEnv::check_equal(&4, &4));
    assert!(!TestEnv::check_equal(&4, &5));
    assert!(TestEnv::check_boolean(&0));
    assert!(TestEnv::check_boolean(&1));
    assert!(!TestEnv::check_boolean(&2));
    assert_eq!(TestEnv::constant(6), 6);
}

#[test]
fn constraints_and_lookups_leave_no_trace() {
    let mut env = plain();
    env.add_constraint(3);
    env.add_lookup("lookup");
    assert_eq!(env.instruction_counter(), 5);
    assert_eq!(env.scratch_state_idx, 0);
}

#[test]
fn bits_are_taken_and_shifted() {
    let mut env = plain();
    assert_eq!(env.bitmask(&0xabcd_1234, 16, 4, scratch(0)), 0x123);
    assert_eq!(env.scratch_state[0], number(0x123));
    assert_eq!(env.bitmask(&0xabcd_1234, 32, 31, scratch(0)), 1);
    assert_eq!(env.bitmask(&0xabcd_1234, 7, 7, scratch(0)), 0);
    assert_eq!(env.shift_left(&0xffff_0001, &4, scratch(0)), 0xfff0_0010);
    assert_eq!(env.shift_left(&1, &31, scratch(0)), 0x8000_0000);
    assert_eq!(env.shift_right(&0x8000_0010, &4, scratch(0)), 0x0800_0001);
    assert_eq!(env.shift_right_arithmetic(&0x8000_0010, &4, scratch(0)), 0xf800_0001);
    assert_eq!(env.shift_right_arithmetic(&0x4000_0010, &4, scratch(0)), 0x0400_0001);
    assert_eq!(env.shift_right_arithmetic(&0xffff_ffff, &31, scratch(2)), 0xffff_ffff);
    assert_eq!(env.scratch_state[2], number(0xffff_ffff));
    assert_eq!(env.shift_right_arithmetic(&0x8000_0000, &0, scratch(2)), 0x8000_0000);
}

#[test]
fn words_are_tested() {
    let mut env = plain();
    assert_eq!(env.test_zero(&0, scratch(0)), 1);
    assert_eq!(env.scratch_state[0], number(1));
    assert_eq!(env.test_zero(&8, scratch(0)), 0);
    assert_eq!(env.test_less_than(&1, &0xffff_ffff, scratch(0)), 1);
    assert_eq!(env.test_less_than(&5, &5, scratch(0)), 0);
    assert_eq!(env.test_less_than_signed(&1, &0xffff_ffff, scratch(0)), 0);
    assert_eq!(env.test_less_than_signed(&0x8000_0000, &0, scratch(0)), 1);
    assert_eq!(env.test_less_than_signed(&7, &7, scratch(0)), 0);
}

#[test]
fn inverses_are_written_to_the_witness() {
    let mut env = plain();
    assert_eq!(env.inverse_or_zero(&2, scratch(0)), 1);
    assert_eq!(
        env.scratch_state[0].limbs(),
        [
            0xa1f0_fac9_f800_0001,
            0x9419_f424_3cdc_b848,
            0xdc28_22db_40c0_ac2e,
            0x1832_2739_7098_d014
        ]
    );
    assert_eq!(env.inverse_or_zero(&0, scratch(0)), 0);
    assert_eq!(env.scratch_state[0], number(0));
    assert_eq!(env.inverse_or_zero(&0xffff_ffff, scratch(1)), 1);
    assert_eq!(env.scratch_state[1].inverse(), Some(number(0xffff_ffff)));
}

#[test]
fn words_are_combined_bit_by_bit() {
    let mut env = plain();
    assert_eq!(env.and_witness(&0b1100, &0b1010, scratch(0)), 0b1000);
    assert_eq!(env.or_witness(&0b1100, &0b1010, scratch(0)), 0b1110);
    assert_eq!(env.xor_witness(&0b1100, &0b1010, scratch(0)), 0b0110);
    assert_eq!(env.nor_witness(&0b1100, &0b1010, scratch(0)), 0xffff_fff1);
    assert_eq!(env.scratch_state[0], number(0xffff_fff1));
}

#[test]
fn words_are_multiplied() {
    let mut env = plain();
    let minus_three = (-3i32) as u32;
    assert_eq!(env.mul_signed_witness(&minus_three, &5, scratch(0)), (-15i32) as u32);
    assert_eq!(
        env.mul_hi_lo(&0xffff_ffff, &0xffff_ffff, scratch(0), scratch(1)),
        (0xffff_fffe, 1)
    );
    assert_eq!(env.scratch_state[0], number(0xffff_fffe));
    assert_eq!(env.scratch_state[1], number(1));
    assert_eq!(
        env.mul_hi_lo_signed(&minus_three, &5, scratch(0), scratch(1)),
        (0xffff_ffff, (-15i32) as u32)
    );
    assert_eq!(
        env.mul_hi_lo_signed(&0x8000_0000, &0x8000_0000, scratch(0), scratch(1)),
        (0x4000_0000, 0)
    );
    assert_eq!(
        env.mul_hi_lo_signed(&0xffff_ffff, &0xffff_ffff, scratch(2), scratch(3)),
        (0, 1)
    );
    assert_eq!(env.scratch_state[3], number(1));
}

#[test]
fn words_are_divided() {
    let mut env = plain();
    assert_eq!(env.divmod(&0xffff_ffff, &10, scratch(0), scratch(1)), (429496729, 5));
    assert_eq!(env.scratch_state[0], number(429496729));
    assert_eq!(env.scratch_state[1], number(5));
    for (x, y) in [(7i32, 2i32), (-7, 2), (7, -2), (-7, -2), (i32::MIN, 1), (i32::MIN, i32::MAX)] {
        assert_eq!(
            env.divmod_signed(&(x as u32), &(y as u32), scratch(0), scratch(1)),
            ((x / y) as u32, (x % y) as u32)
        );
    }
    assert_eq!(
        env.divmod_signed(&((-7i32) as u32), &2, scratch(2), scratch(3)),
        ((-3i32) as u32, (-1i32) as u32)
    );
    assert_eq!(env.scratch_state[2], number(0xffff_fffd));
}

#[test]
fn leading_zeros_are_counted() {
    let mut env = plain();
    assert_eq!(env.count_leading_zeros(&0, scratch(0)), 32);
    assert_eq!(env.count_leading_zeros(&1, scratch(0)), 31);
    assert_eq!(env.count_leading_zeros(&0x8000_0000, scratch(0)), 0);
    assert_eq!(env.count_leading_zeros(&0x0001_0000, scratch(5)), 15);
    assert_eq!(env.scratch_state[5], number(15));
}

#[test]
fn words_are_copied() {
    let mut env = plain();
    assert_eq!(env.copy(&31, scratch(79)), 31);
    assert_eq!(env.scratch_state[79], number(31));
}

#[test]
fn machine_is_halted_and_resumed() {
    let mut env = plain();
    env.set_halted(1);
    assert!(env.halt);
    env.set_halted(0);
    assert!(!env.halt);
}

#[test]
fn exit_code_is_reported() {
    assert_eq!(plain().report_exit(&0), "Exited with code 0");
    assert_eq!(plain().report_exit(&4294967295), "Exited with code 4294967295");
}

#[test]
fn instruction_is_decoded_from_memory() {
    let mut env = machine(vec![0x8c, 0x01, 0x02, 0x03]);
    assert_eq!(
        env.decode_instruction(),
        (
            Instruction::IType(ITypeInstruction::Load32),
            0x8c01_0203
        )
    );
    assert_eq!(env.get_opcode(), Some(0x8c01_0203));
    assert_eq!(env.page_address(), (1, 0));
}

#[test]
fn instruction_may_cross_pages() {
    let pages = vec![page(1, vec![0; 4096]), page(2, vec![0, 0x21])];
    let mut env = TestEnv::create(4096, state(pages), ());
    env.registers.current_instruction_pointer = 0x1ffe;
    assert_eq!(
        env.decode_instruction(),
        (
            Instruction::RType(RTypeInstruction::AddUnsigned),
            0x0000_0021
        )
    );
    assert_eq!(env.last_memory_accesses, [1, 0, 0]);
}

#[test]
fn system_call_is_decoded_from_registers() {
    let mut env = machine(vec![0, 0, 0, 0x0c]);
    env.registers.general_purpose[2] = 4003;
    env.registers.general_purpose[4] = 5;
    assert_eq!(
        env.decode_instruction().0,
        Instruction::RType(RTypeInstruction::SyscallReadPreimage)
    );
}

#[test]
fn opcode_needs_its_page() {
    let mut env = plain();
    env.registers.current_instruction_pointer = 0x9000;
    assert_eq!(env.get_opcode(), None);
    assert_eq!(env.page_address(), (9, 0));
    env.registers.current_instruction_pointer = 0x9abc;
    assert_eq!(env.page_address(), (9, 0xabc));
}

#[test]
fn frequencies_trigger() {
    let env = plain();
    assert!(!env.should_trigger_at(&StepFrequency::Never));
    assert!(env.should_trigger_at(&StepFrequency::Always));
    assert!(env.should_trigger_at(&StepFrequency::Exactly(5)));
    assert!(!env.should_trigger_at(&StepFrequency::Exactly(6)));
    assert!(env.should_trigger_at(&StepFrequency::Every(5)));
    assert!(env.should_trigger_at(&StepFrequency::Every(1)));
    assert!(!env.should_trigger_at(&StepFrequency::Every(2)));
}

#[test]
fn memory_usage_counts_pages() {
    assert_eq!(plain().memory_usage(), "8.0 KiB");
    let env = TestEnv::create(4096, state(vec![]), ());
    assert_eq!(env.memory_usage(), "0 B");
}

#[test]
fn symbols_are_found() {
    let meta = meta();
    assert_eq!(meta.find_address_symbol(0x1007), Some(String::from("main")));
    assert_eq!(meta.find_address_symbol(0x1008), None);
    assert_eq!(meta.find_address_symbol(0), Some(String::from("zero")));
}

#[test]
fn information_is_given_where_asked_for() {
    let env = machine(vec![0x8c, 0x01, 0x02, 0x03]);
    assert!(env
        .pp_info(&StepFrequency::Never, &meta(), &Start { step: 2 })
        .is_none());
    let info = env
        .pp_info(&StepFrequency::Every(5), &meta(), &Start { step: 2 })
        .unwrap();
    assert_eq!(info.step, 5);
    assert_eq!(info.pc, 0x1000);
    assert_eq!(info.insn, 0x8c01_0203);
    assert_eq!(info.how_many_steps, 3);
    assert_eq!(info.pages, 2);
    assert_eq!(info.mem, "8.0 KiB");
    assert_eq!(info.name, "main");
    let none = Meta { symbols: vec![] };
    let info = env
        .pp_info(&StepFrequency::Always, &none, &Start { step: 5 })
        .unwrap();
    assert_eq!(info.name, "n/a");
    assert_eq!(info.how_many_steps, 0);
}

#[test]
fn step_interprets_and_counts() {
    let mut env = machine(vec![0x24, 0x08, 0x00, 0x07]);
    env.write_column(scratch(3), 4);
    let report = env.step(
        &configuration(StepFrequency::Exactly(6), StepFrequency::Never),
        &meta(),
        &Start { step: 0 },
        |env: &mut TestEnv, opcode: Instruction| {
            assert_eq!(
                opcode,
                Instruction::IType(ITypeInstruction::AddImmediateUnsigned)
            );
            assert_eq!(env.scratch_state[3], number(0));
            env.push_register_if(&8, 7, &1);
        },
    );
    assert!(!report.stopped);
    assert_eq!(report.instruction, 0x2408_0007);
    assert_eq!(report.instruction_parts.rt, 8);
    assert!(report.info.is_none());
    assert_eq!(env.registers.general_purpose[8], 7);
    assert_eq!(env.instruction_counter, 6);
    assert!(!env.halt);
}

#[test]
fn step_stops_where_asked_to() {
    let mut env = machine(vec![0x24, 0x08, 0x00, 0x07]);
    let report = env.step(
        &configuration(StepFrequency::Exactly(5), StepFrequency::Always),
        &meta(),
        &Start { step: 0 },
        |_env: &mut TestEnv, _opcode: Instruction| panic!("the run has stopped"),
    );
    assert!(report.stopped);
    assert_eq!(report.info.unwrap().insn, 0x2408_0007);
    assert!(env.halt);
    assert_eq!(env.instruction_counter, 5);
}

#[test]
fn step_in_parts_is_the_same() {
    let config = configuration(StepFrequency::Never, StepFrequency::Never);
    let mut env = machine(vec![0, 0, 0, 0]);
    let report = env.begin_step(&config, &meta(), &Start { step: 0 });
    assert_eq!(
        report.opcode,
        Instruction::RType(RTypeInstruction::ShiftLeftLogical)
    );
    assert_eq!(env.instruction_counter, 5);
    env.finish_step();
    assert_eq!(env.instruction_counter, 6);
    let mut other = machine(vec![0, 0, 0, 0]);
    assert!(other
        .try_begin_step(&config, &meta(), &Start { step: 0 })
        .is_ok());
    assert_eq!(env.memory, other.memory);
    assert_eq!(env.last_memory_accesses, other.last_memory_accesses);
}

fn refusal(env: &mut TestEnv, config: &VmConfiguration, start: usize) -> Option<StepError> {
    env.try_begin_step(config, &meta(), &Start { step: start }).err()
}

#[test]
fn step_that_cannot_begin_is_refused() {
    let never = configuration(StepFrequency::Never, StepFrequency::Never);
    // No such instruction.
    let mut env = machine(vec![0xff, 0xff, 0xff, 0xfe]);
    assert_eq!(
        refusal(&mut env, &never, 0),
        Some(StepError::UnhandledInstruction(0xffff_fffe))
    );
    // The word reaches beyond the last address.
    let mut env = plain();
    env.registers.current_instruction_pointer = 0xffff_fffd;
    assert_eq!(
        refusal(&mut env, &never, 0),
        Some(StepError::UnreadableInstruction)
    );
    // The page is new, so that the write index does not know it yet.
    let mut env = plain();
    env.registers.current_instruction_pointer = 0x9000;
    assert_eq!(
        refusal(&mut env, &never, 0),
        Some(StepError::UnreadableInstruction)
    );
    // A page that is too short.
    let mut env = TestEnv::create(2, state(vec![page(1, vec![])]), ());
    assert_eq!(
        refusal(&mut env, &never, 0),
        Some(StepError::UnreadableInstruction)
    );
    // Undefined frequencies.
    let shift = Instruction::RType(RTypeInstruction::ShiftLeftLogical);
    let mut env = machine(vec![0, 1, 2, 0]);
    let config = configuration(StepFrequency::Every(0), StepFrequency::Never);
    assert_eq!(
        refusal(&mut env, &config, 0),
        Some(StepError::UndefinedStopFrequency(shift, 0x0001_0200))
    );
    let config = configuration(StepFrequency::Never, StepFrequency::Every(0));
    assert_eq!(
        refusal(&mut env, &config, 0),
        Some(StepError::UndefinedInfoFrequency(shift, 0x0001_0200))
    );
    // A run that began later.
    let config = configuration(StepFrequency::Never, StepFrequency::Always);
    assert_eq!(
        refusal(&mut env, &config, 6),
        Some(StepError::NoInformation(shift, 0x0001_0200))
    );
    assert_eq!(refusal(&mut env, &config, 5), None);
    // The word comes first, then the information, then the stop.
    let undefined = configuration(StepFrequency::Every(0), StepFrequency::Every(0));
    assert_eq!(
        refusal(&mut env, &undefined, 0),
        Some(StepError::UndefinedInfoFrequency(shift, 0x0001_0200))
    );
    let config = configuration(StepFrequency::Every(0), StepFrequency::Always);
    assert_eq!(
        refusal(&mut env, &config, 6),
        Some(StepError::NoInformation(shift, 0x0001_0200))
    );
    let mut env = machine(vec![0xff, 0xff, 0xff, 0xff]);
    assert_eq!(
        refusal(&mut env, &undefined, 0),
        Some(StepError::UnhandledInstruction(0xffff_ffff))
    );
}

#[test]
fn step_begins_across_pages_without_information() {
    let mut code = vec![0u8; 4096];
    code[4094] = 0x24;
    code[4095] = 0x08;
    let pages = vec![page(0, vec![]), page(1, code), page(2, vec![0, 7])];
    let mut env = TestEnv::create(4096, state(pages), ());
    env.registers.current_instruction_pointer = 0x1ffe;
    let addition = Instruction::IType(ITypeInstruction::AddImmediateUnsigned);
    let asked = configuration(StepFrequency::Never, StepFrequency::Always);
    assert_eq!(
        refusal(&mut env, &asked, 0),
        Some(StepError::NoInformation(addition, 0x2408_0007))
    );
    let never = configuration(StepFrequency::Never, StepFrequency::Never);
    let report = env.begin_step(&never, &meta(), &Start { step: 0 });
    assert_eq!(report.opcode, addition);
    assert_eq!(report.instruction, 0x2408_0007);
}

#[test]
fn step_that_cannot_begin_changes_little() {
    let config = configuration(StepFrequency::Always, StepFrequency::Never);
    let mut env = machine(vec![0xff, 0xff, 0xff, 0xff]);
    env.write_column(scratch(2), 7);
    env.push_memory(&0x20, 8);
    assert!(refusal(&mut env, &config, 0).is_some());
    assert_eq!(env.scratch_state[2], number(0));
    assert_eq!(env.scratch_state_idx, 0);
    assert_eq!(env.instruction_counter, 5);
    assert!(!env.halt);
    assert_eq!(env.registers.general_purpose[5], 105);
    assert_eq!(env.last_memory_accesses, [1, 0, 0]);
    assert_eq!(env.get_memory_direct(0x20), 8);
    assert_eq!(env.get_memory_direct(0x1003), 0xff);
    // The first byte of a new page is read, and the page stays.
    let mut env = plain();
    env.registers.current_instruction_pointer = 0x9000;
    assert!(refusal(&mut env, &config, 0).is_some());
    assert_eq!(env.memory.len(), 3);
    assert_eq!(env.memory[2], (9, vec![0; 4096]));
    assert_eq!(env.memory_write_index.len(), 2);
    assert_eq!(env.last_memory_accesses, [2, 0, 0]);
    // Only two bytes come before the end of the addresses.
    let mut env = TestEnv::create(4096, state(vec![page(0xf_ffff, vec![])]), ());
    env.registers.current_instruction_pointer = 0xffff_fffe;
    assert_eq!(
        env.try_decode_instruction(),
        Err(StepError::UnreadableInstruction)
    );
    assert_eq!(env.last_memory_accesses, [0, 0, 0]);
}

#[test]
fn instruction_is_decoded_where_it_can_be() {
    let mut env = machine(vec![0x24, 0x08, 0x00, 0x07]);
    assert_eq!(
        env.try_decode_instruction(),
        Ok((
            Instruction::IType(ITypeInstruction::AddImmediateUnsigned),
            0x2408_0007
        ))
    );
    let mut env = machine(vec![0xfc, 0, 0, 1]);
    assert_eq!(
        env.try_decode_instruction(),
        Err(StepError::UnhandledInstruction(0xfc00_0001))
    );
}

#[test]
fn write_index_of_a_new_page_is_read_back() {
    let mut env = plain();
    env.push_memory_access(&0x9004, 77);
    assert_eq!(env.fetch_memory_access(&0x9004, scratch(0)), 77);
    assert_eq!(env.fetch_memory_access(&0x9005, scratch(0)), 0);
    assert_eq!(env.fetch_memory_access(&0x1004, scratch(0)), 0);
    assert_eq!(env.get_memory_direct(0x1004), 0);
    assert_eq!(env.memory.len(), 2);
    assert_eq!(env.memory_write_index.len(), 3);
}

#[test]
fn second_lookup_changes_nothing() {
    let mut env = plain();
    assert_eq!(env.get_memory_page_index(1), 1);
    assert_eq!(env.last_memory_accesses, [1, 0, 0]);
    assert_eq!(env.get_memory_page_index(1), 1);
    assert_eq!(env.last_memory_accesses, [1, 0, 0]);
    assert_eq!(env.get_memory_access_page_index(9), 2);
    assert_eq!(env.get_memory_access_page_index(9), 2);
    assert_eq!(env.last_memory_write_index_accesses, [2, 0, 0]);
    assert_eq!(env.get_memory_page_index(9), 2);
    assert_eq!(env.get_memory_page_index(9), 2);
    assert_eq!(env.last_memory_accesses, [2, 1, 0]);
    assert_eq!(env.memory.len(), 3);
    assert_eq!(env.memory_write_index.len(), 3);
}

#[test]
fn operations_stay_in_the_step() {
    let mut env = plain();
    let column = env.alloc_scratch();
    env.fetch_memory(&0x1000, column);
    env.push_memory(&0x1000, 1);
    env.fetch_memory_access(&0x1000, column);
    env.push_memory_access(&0x1000, 2);
    env.push_register_if(&1, 3, &1);
    env.set_halted(1);
    assert_eq!(env.instruction_counter, 5);
    assert_eq!(env.syscall_env.last_hint, Some(vec![1, 2, 3]));
    env.finish_step();
    assert_eq!(env.instruction_counter, 6);
    assert_eq!(env.get_memory_direct(0x1000), 1);
}

#[test]
fn other_operations_keep_memory() {
    let mut env = machine(vec![1, 2, 3, 4]);
    env.push_register_if(&7, 1, &1);
    env.write_column(scratch(0), 5);
    env.reset_scratch_state();
    env.set_halted(1);
    env.finish_step();
    assert_eq!(env.memory[1].1[..5], [1, 2, 3, 4, 0]);
    assert_eq!(env.last_memory_accesses, [0, 0, 0]);
    assert_eq!(env.get_memory_direct(0x1002), 3);
}

#[test]
fn beginning_of_a_step_leaves_registers_and_memory() {
    let mut env = machine(vec![0, 0, 0, 0x0c, 9]);
    let config = configuration(StepFrequency::Every(5), StepFrequency::Never);
    env.begin_step(&config, &meta(), &Start { step: 0 });
    assert!(env.halt);
    assert_eq!(env.registers.general_purpose[5], 105);
    assert_eq!(env.get_memory_direct(0x1004), 9);
    assert_eq!(env.instruction_counter, 5);
}
