use mips_witness::instruction::{
    decode_word, ITypeInstruction as I, Instruction, InstructionParts, JTypeInstruction,
    RTypeInstruction as R,
};

fn rtype(function: u32) -> Option<Instruction> {
    decode_word(function | 0x0123_4540 & 0x03ff_ffc0, 0, 0)
}

fn itype(opcode: u32) -> Option<Instruction> {
    decode_word(opcode << 26 | 0x0012_3456, 0, 0)
}

fn syscall(number: u32, fd: u32) -> Option<Instruction> {
    decode_word(0x0000_000c, number, fd)
}

#[test]
fn register_instructions_are_decoded() {
    let table = [
        (0x00, R::ShiftLeftLogical),
        (0x02, R::ShiftRightLogical),
        (0x03, R::ShiftRightArithmetic),
        (0x04, R::ShiftLeftLogicalVariable),
        (0x06, R::ShiftRightLogicalVariable),
        (0x07, R::ShiftRightArithmeticVariable),
        (0x08, R::JumpRegister),
        (0x09, R::JumpAndLinkRegister),
        (0x0a, R::MoveZero),
        (0x0b, R::MoveNonZero),
        (0x0c, R::SyscallOther),
        (0x0f, R::Sync),
        (0x10, R::MoveFromHi),
        (0x11, R::MoveToHi),
        (0x12, R::MoveFromLo),
        (0x13, R::MoveToLo),
        (0x18, R::Multiply),
        (0x19, R::MultiplyUnsigned),
        (0x1a, R::Div),
        (0x1b, R::DivUnsigned),
        (0x20, R::Add),
        (0x21, R::AddUnsigned),
        (0x22, R::Sub),
        (0x23, R::SubUnsigned),
        (0x24, R::And),
        (0x25, R::Or),
        (0x26, R::Xor),
        (0x27, R::Nor),
        (0x2a, R::SetLessThan),
        (0x2b, R::SetLessThanUnsigned),
    ];
    let mut function = 0;
    while function < 64 {
        let mut expected = None;
        for (code, instruction) in table {
            if code == function {
                expected = Some(Instruction::RType(instruction));
            }
        }
        assert_eq!(rtype(function), expected);
        function += 1;
    }
}

#[test]
fn immediate_and_jump_instructions_are_decoded() {
    let table = [
        (0x04, I::BranchEq),
        (0x05, I::BranchNeq),
        (0x06, I::BranchLeqZero),
        (0x07, I::BranchGtZero),
        (0x08, I::AddImmediate),
        (0x09, I::AddImmediateUnsigned),
        (0x0a, I::SetLessThanImmediate),
        (0x0b, I::SetLessThanImmediateUnsigned),
        (0x0c, I::AndImmediate),
        (0x0d, I::OrImmediate),
        (0x0e, I::XorImmediate),
        (0x0f, I::LoadUpperImmediate),
        (0x20, I::Load8),
        (0x21, I::Load16),
        (0x22, I::LoadWordLeft),
        (0x23, I::Load32),
        (0x24, I::Load8Unsigned),
        (0x25, I::Load16Unsigned),
        (0x26, I::LoadWordRight),
        (0x28, I::Store8),
        (0x29, I::Store16),
        (0x2a, I::StoreWordLeft),
        (0x2b, I::Store32),
        (0x2e, I::StoreWordRight),
        (0x30, I::Load32),
        (0x38, I::Store32Conditional),
    ];
    let mut opcode = 2;
    while opcode < 64 {
        let mut expected = None;
        for (code, instruction) in table {
            if code == opcode {
                expected = Some(Instruction::IType(instruction));
            }
        }
        if opcode == 2 {
            expected = Some(Instruction::JType(JTypeInstruction::Jump));
        }
        if opcode == 3 {
            expected = Some(Instruction::JType(JTypeInstruction::JumpAndLink));
        }
        if opcode != 0x1c {
            assert_eq!(itype(opcode), expected);
        }
        opcode += 1;
    }
}

#[test]
fn branches_on_a_register_are_told_by_the_target_field() {
    assert_eq!(
        decode_word(1 << 26 | 5 << 21, 0, 0),
        Some(Instruction::IType(I::BranchLtZero))
    );
    assert_eq!(
        decode_word(1 << 26 | 5 << 21 | 1 << 16, 0, 0),
        Some(Instruction::IType(I::BranchGeqZero))
    );
    assert_eq!(decode_word(1 << 26 | 2 << 16, 0, 0), None);
    assert_eq!(decode_word(1 << 26 | 31 << 16, 0, 0), None);
}

#[test]
fn second_special_group_is_decoded() {
    assert_eq!(
        decode_word(0x1c << 26 | 0x02, 0, 0),
        Some(Instruction::RType(R::MultiplyToRegister))
    );
    assert_eq!(
        decode_word(0x1c << 26 | 0x20, 0, 0),
        Some(Instruction::RType(R::CountLeadingZeros))
    );
    assert_eq!(
        decode_word(0x1c << 26 | 0x21, 0, 0),
        Some(Instruction::RType(R::CountLeadingOnes))
    );
    assert_eq!(decode_word(0x1c << 26, 0, 0), None);
}

#[test]
fn system_calls_are_told_by_number_and_descriptor() {
    let table = [
        (4090, 0, R::SyscallMmap),
        (4045, 0, R::SyscallOther),
        (4120, 0, R::SyscallOther),
        (4246, 0, R::SyscallExitGroup),
        (4003, 3, R::SyscallReadHint),
        (4003, 5, R::SyscallReadPreimage),
        (4003, 0, R::SyscallReadOther),
        (4003, 4, R::SyscallReadOther),
        (4004, 6, R::SyscallWritePreimage),
        (4004, 4, R::SyscallWriteHint),
        (4004, 1, R::SyscallWriteOther),
        (4004, 3, R::SyscallWriteOther),
        (4055, 0, R::SyscallFcntl),
        (0, 0, R::SyscallOther),
        (0xffff_ffff, 3, R::SyscallOther),
    ];
    for (number, fd, instruction) in table {
        assert_eq!(syscall(number, fd), Some(Instruction::RType(instruction)));
    }
}

#[test]
fn decoding_depends_on_three_fields() {
    // The source and destination registers and the shift amount play no part.
    assert_eq!(
        decode_word(0x03e0_f821 & 0xffe0_003f, 1, 2),
        decode_word(0x0000_0021, 3, 4)
    );
}

#[test]
fn parts_make_up_the_word() {
    let parts = InstructionParts::decode(0x0123_4567);
    assert_eq!(parts.op_code, 0);
    assert_eq!(parts.rs, 9);
    assert_eq!(parts.rt, 3);
    assert_eq!(parts.rd, 8);
    assert_eq!(parts.shamt, 21);
    assert_eq!(parts.funct, 39);
    let word = 0xfedc_ba98;
    let parts = InstructionParts::decode(word);
    assert_eq!(
        parts.op_code << 26
            | parts.rs << 21
            | parts.rt << 16
            | parts.rd << 11
            | parts.shamt << 6
            | parts.funct,
        word
    );
}
