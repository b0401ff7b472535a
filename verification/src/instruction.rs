//! The instructions of the machine and how they are encoded in words.

use vstd::prelude::*;

verus! {

/// The file descriptor from which hints are read.
pub const FD_HINT_READ: u32 = 3;

/// The file descriptor to which hints are written.
pub const FD_HINT_WRITE: u32 = 4;

/// The file descriptor from which preimages are read.
pub const FD_PREIMAGE_READ: u32 = 5;

/// The file descriptor to which preimages are written.
pub const FD_PREIMAGE_WRITE: u32 = 6;

#[derive(Clone, Copy, Debug, PartialEq, Eq, Structural)]
pub enum Instruction {
    RType(RTypeInstruction),
    JType(JTypeInstruction),
    IType(ITypeInstruction),
}

#[derive(Clone, Copy, Debug, PartialEq, Eq, Structural)]
pub enum RTypeInstruction {
    ShiftLeftLogical,
    ShiftRightLogical,
    ShiftRightArithmetic,
    ShiftLeftLogicalVariable,
    ShiftRightLogicalVariable,
    ShiftRightArithmeticVariable,
    JumpRegister,
    JumpAndLinkRegister,
    MoveZero,
    MoveNonZero,
    SyscallMmap,
    SyscallOther,
    SyscallExitGroup,
    SyscallReadHint,
    SyscallReadPreimage,
    SyscallReadOther,
    SyscallWritePreimage,
    SyscallWriteHint,
    SyscallWriteOther,
    SyscallFcntl,
    Sync,
    MoveFromHi,
    MoveToHi,
    MoveFromLo,
    MoveToLo,
    Multiply,
    MultiplyUnsigned,
    Div,
    DivUnsigned,
    Add,
    AddUnsigned,
    Sub,
    SubUnsigned,
    And,
    Or,
    Xor,
    Nor,
    SetLessThan,
    SetLessThanUnsigned,
    MultiplyToRegister,
    CountLeadingZeros,
    CountLeadingOnes,
}

#[derive(Clone, Copy, Debug, PartialEq, Eq, Structural)]
pub enum JTypeInstruction {
    Jump,
    JumpAndLink,
}

#[derive(Clone, Copy, Debug, PartialEq, Eq, Structural)]
pub enum ITypeInstruction {
    BranchLtZero,
    BranchGeqZero,
    BranchEq,
    BranchNeq,
    BranchLeqZero,
    BranchGtZero,
    AddImmediate,
    AddImmediateUnsigned,
    SetLessThanImmediate,
    SetLessThanImmediateUnsigned,
    AndImmediate,
    OrImmediate,
    XorImmediate,
    LoadUpperImmediate,
    Load8,
    Load16,
    LoadWordLeft,
    Load32,
    Load8Unsigned,
    Load16Unsigned,
    LoadWordRight,
    Store8,
    Store16,
    StoreWordLeft,
    Store32,
    StoreWordRight,
    Store32Conditional,
}

/// The operation code of an instruction word: its six high bits.
pub open spec fn operation_code(word: u32) -> u32 {
    word / 0x400_0000
}

/// The function code of an instruction word: its six low bits.
pub open spec fn function_code(word: u32) -> u32 {
    word % 64
}

/// The target register field of an instruction word: bits 16 to 20.
pub open spec fn target_field(word: u32) -> u32 {
    (word / 0x1_0000) % 32
}

/// The system call that is made with the call number `number` and the first argument `fd`. A
/// number that is not known is still a call.
pub open spec fn syscall_of(number: u32, fd: u32) -> RTypeInstruction {
    if number == 4090 {
        RTypeInstruction::SyscallMmap
    } else if number == 4246 {
        RTypeInstruction::SyscallExitGroup
    } else if number == 4003 {
        if fd == FD_HINT_READ {
            RTypeInstruction::SyscallReadHint
        } else if fd == FD_PREIMAGE_READ {
            RTypeInstruction::SyscallReadPreimage
        } else {
            RTypeInstruction::SyscallReadOther
        }
    } else if number == 4004 {
        if fd == FD_PREIMAGE_WRITE {
            RTypeInstruction::SyscallWritePreimage
        } else if fd == FD_HINT_WRITE {
            RTypeInstruction::SyscallWriteHint
        } else {
            RTypeInstruction::SyscallWriteOther
        }
    } else if number == 4055 {
        RTypeInstruction::SyscallFcntl
    } else {
        RTypeInstruction::SyscallOther
    }
}

/// The instruction with the operation code zero and the function code `function`.
pub open spec fn special_instruction(function: u32, number: u32, fd: u32) -> Option<Instruction> {
    match function {
        0x00 => Some(Instruction::RType(RTypeInstruction::ShiftLeftLogical)),
        0x02 => Some(Instruction::RType(RTypeInstruction::ShiftRightLogical)),
        0x03 => Some(Instruction::RType(RTypeInstruction::ShiftRightArithmetic)),
        0x04 => Some(Instruction::RType(RTypeInstruction::ShiftLeftLogicalVariable)),
        0x06 => Some(Instruction::RType(RTypeInstruction::ShiftRightLogicalVariable)),
        0x07 => Some(Instruction::RType(RTypeInstruction::ShiftRightArithmeticVariable)),
        0x08 => Some(Instruction::RType(RTypeInstruction::JumpRegister)),
        0x09 => Some(Instruction::RType(RTypeInstruction::JumpAndLinkRegister)),
        0x0a => Some(Instruction::RType(RTypeInstruction::MoveZero)),
        0x0b => Some(Instruction::RType(RTypeInstruction::MoveNonZero)),
        0x0c => Some(Instruction::RType(syscall_of(number, fd))),
        0x0f => Some(Instruction::RType(RTypeInstruction::Sync)),
        0x10 => Some(Instruction::RType(RTypeInstruction::MoveFromHi)),
        0x11 => Some(Instruction::RType(RTypeInstruction::MoveToHi)),
        0x12 => Some(Instruction::RType(RTypeInstruction::MoveFromLo)),
        0x13 => Some(Instruction::RType(RTypeInstruction::MoveToLo)),
        0x18 => Some(Instruction::RType(RTypeInstruction::Multiply)),
        0x19 => Some(Instruction::RType(RTypeInstruction::MultiplyUnsigned)),
        0x1a => Some(Instruction::RType(RTypeInstruction::Div)),
        0x1b => Some(Instruction::RType(RTypeInstruction::DivUnsigned)),
        0x20 => Some(Instruction::RType(RTypeInstruction::Add)),
        0x21 => Some(Instruction::RType(RTypeInstruction::AddUnsigned)),
        0x22 => Some(Instruction::RType(RTypeInstruction::Sub)),
        0x23 => Some(Instruction::RType(RTypeInstruction::SubUnsigned)),
        0x24 => Some(Instruction::RType(RTypeInstruction::And)),
        0x25 => Some(Instruction::RType(RTypeInstruction::Or)),
        0x26 => Some(Instruction::RType(RTypeInstruction::Xor)),
        0x27 => Some(Instruction::RType(RTypeInstruction::Nor)),
        0x2a => Some(Instruction::RType(RTypeInstruction::SetLessThan)),
        0x2b => Some(Instruction::RType(RTypeInstruction::SetLessThanUnsigned)),
        _ => None,
    }
}

/// The instruction with the operation code one and the target field `target`.
pub open spec fn register_immediate_instruction(target: u32) -> Option<Instruction> {
    match target {
        0x00 => Some(Instruction::IType(ITypeInstruction::BranchLtZero)),
        0x01 => Some(Instruction::IType(ITypeInstruction::BranchGeqZero)),
        _ => None,
    }
}

/// The instruction with the operation code `0x1c` and the function code `function`.
pub open spec fn special2_instruction(function: u32) -> Option<Instruction> {
    match function {
        0x02 => Some(Instruction::RType(RTypeInstruction::MultiplyToRegister)),
        0x20 => Some(Instruction::RType(RTypeInstruction::CountLeadingZeros)),
        0x21 => Some(Instruction::RType(RTypeInstruction::CountLeadingOnes)),
        _ => None,
    }
}

/// The instruction that `word` encodes, if it encodes one. A system call is told from others by
/// its call number `number` and its first argument `fd`.
///
/// The machine has a single processor, so that the load linked instruction (`0x30`) is an
/// ordinary load.
pub open spec fn instruction_of(word: u32, number: u32, fd: u32) -> Option<Instruction> {
    match operation_code(word) {
        0x00 => special_instruction(function_code(word), number, fd),
        0x01 => register_immediate_instruction(target_field(word)),
        0x02 => Some(Instruction::JType(JTypeInstruction::Jump)),
        0x03 => Some(Instruction::JType(JTypeInstruction::JumpAndLink)),
        0x04 => Some(Instruction::IType(ITypeInstruction::BranchEq)),
        0x05 => Some(Instruction::IType(ITypeInstruction::BranchNeq)),
        0x06 => Some(Instruction::IType(ITypeInstruction::BranchLeqZero)),
        0x07 => Some(Instruction::IType(ITypeInstruction::BranchGtZero)),
        0x08 => Some(Instruction::IType(ITypeInstruction::AddImmediate)),
        0x09 => Some(Instruction::IType(ITypeInstruction::AddImmediateUnsigned)),
        0x0a => Some(Instruction::IType(ITypeInstruction::SetLessThanImmediate)),
        0x0b => Some(Instruction::IType(ITypeInstruction::SetLessThanImmediateUnsigned)),
        0x0c => Some(Instruction::IType(ITypeInstruction::AndImmediate)),
        0x0d => Some(Instruction::IType(ITypeInstruction::OrImmediate)),
        0x0e => Some(Instruction::IType(ITypeInstruction::XorImmediate)),
        0x0f => Some(Instruction::IType(ITypeInstruction::LoadUpperImmediate)),
        0x1c => special2_instruction(function_code(word)),
        0x20 => Some(Instruction::IType(ITypeInstruction::Load8)),
        0x21 => Some(Instruction::IType(ITypeInstruction::Load16)),
        0x22 => Some(Instruction::IType(ITypeInstruction::LoadWordLeft)),
        0x23 => Some(Instruction::IType(ITypeInstruction::Load32)),
        0x24 => Some(Instruction::IType(ITypeInstruction::Load8Unsigned)),
        0x25 => Some(Instruction::IType(ITypeInstruction::Load16Unsigned)),
        0x26 => Some(Instruction::IType(ITypeInstruction::LoadWordRight)),
        0x28 => Some(Instruction::IType(ITypeInstruction::Store8)),
        0x29 => Some(Instruction::IType(ITypeInstruction::Store16)),
        0x2a => Some(Instruction::IType(ITypeInstruction::StoreWordLeft)),
        0x2b => Some(Instruction::IType(ITypeInstruction::Store32)),
        0x2e => Some(Instruction::IType(ITypeInstruction::StoreWordRight)),
        0x30 => Some(Instruction::IType(ITypeInstruction::Load32)),
        0x38 => Some(Instruction::IType(ITypeInstruction::Store32Conditional)),
        _ => None,
    }
}

/// Tells the system calls apart by the call number and the first argument.
fn decode_syscall(number: u32, fd: u32) -> (syscall: RTypeInstruction)
    ensures
        syscall == syscall_of(number, fd),
{
    match number {
        4090 => RTypeInstruction::SyscallMmap,
        // sysBrk
        4045 => RTypeInstruction::SyscallOther,
        // sysClone
        4120 => RTypeInstruction::SyscallOther,
        4246 => RTypeInstruction::SyscallExitGroup,
        4003 => if fd == FD_HINT_READ {
            RTypeInstruction::SyscallReadHint
        } else if fd == FD_PREIMAGE_READ {
            RTypeInstruction::SyscallReadPreimage
        } else {
            RTypeInstruction::SyscallReadOther
        },
        4004 => if fd == FD_PREIMAGE_WRITE {
            RTypeInstruction::SyscallWritePreimage
        } else if fd == FD_HINT_WRITE {
            RTypeInstruction::SyscallWriteHint
        } else {
            RTypeInstruction::SyscallWriteOther
        },
        4055 => RTypeInstruction::SyscallFcntl,
        _ => RTypeInstruction::SyscallOther,
    }
}

/// Decodes an instruction word; `None` if no instruction has this encoding. The call number and
/// the first argument of a system call are taken from `number` and `fd`.
pub fn decode_word(word: u32, number: u32, fd: u32) -> (instruction: Option<Instruction>)
    ensures
        instruction == instruction_of(word, number, fd),
{
    proof {
        assert(word >> 26 == word / 0x400_0000) by (bit_vector);
        assert(word & 0x3f == word % 64) by (bit_vector);
        assert((word >> 16) & 0x1f == (word / 0x1_0000) % 32) by (bit_vector);
    }
    match word >> 26 {
        0x00 => match word & 0x3f {
            0x00 => Some(Instruction::RType(RTypeInstruction::ShiftLeftLogical)),
            0x02 => Some(Instruction::RType(RTypeInstruction::ShiftRightLogical)),
            0x03 => Some(Instruction::RType(RTypeInstruction::ShiftRightArithmetic)),
            0x04 => Some(Instruction::RType(RTypeInstruction::ShiftLeftLogicalVariable)),
            0x06 => Some(Instruction::RType(RTypeInstruction::ShiftRightLogicalVariable)),
            0x07 => Some(Instruction::RType(RTypeInstruction::ShiftRightArithmeticVariable)),
            0x08 => Some(Instruction::RType(RTypeInstruction::JumpRegister)),
            0x09 => Some(Instruction::RType(RTypeInstruction::JumpAndLinkRegister)),
            0x0a => Some(Instruction::RType(RTypeInstruction::MoveZero)),
            0x0b => Some(Instruction::RType(RTypeInstruction::MoveNonZero)),
            0x0c => Some(Instruction::RType(decode_syscall(number, fd))),
            0x0f => Some(Instruction::RType(RTypeInstruction::Sync)),
            0x10 => Some(Instruction::RType(RTypeInstruction::MoveFromHi)),
            0x11 => Some(Instruction::RType(RTypeInstruction::MoveToHi)),
            0x12 => Some(Instruction::RType(RTypeInstruction::MoveFromLo)),
            0x13 => Some(Instruction::RType(RTypeInstruction::MoveToLo)),
            0x18 => Some(Instruction::RType(RTypeInstruction::Multiply)),
            0x19 => Some(Instruction::RType(RTypeInstruction::MultiplyUnsigned)),
            0x1a => Some(Instruction::RType(RTypeInstruction::Div)),
            0x1b => Some(Instruction::RType(RTypeInstruction::DivUnsigned)),
            0x20 => Some(Instruction::RType(RTypeInstruction::Add)),
            0x21 => Some(Instruction::RType(RTypeInstruction::AddUnsigned)),
            0x22 => Some(Instruction::RType(RTypeInstruction::Sub)),
            0x23 => Some(Instruction::RType(RTypeInstruction::SubUnsigned)),
            0x24 => Some(Instruction::RType(RTypeInstruction::And)),
            0x25 => Some(Instruction::RType(RTypeInstruction::Or)),
            0x26 => Some(Instruction::RType(RTypeInstruction::Xor)),
            0x27 => Some(Instruction::RType(RTypeInstruction::Nor)),
            0x2a => Some(Instruction::RType(RTypeInstruction::SetLessThan)),
            0x2b => Some(Instruction::RType(RTypeInstruction::SetLessThanUnsigned)),
            _ => None,
        },
        0x01 => match (word >> 16) & 0x1f {
            0x0 => Some(Instruction::IType(ITypeInstruction::BranchLtZero)),
            0x1 => Some(Instruction::IType(ITypeInstruction::BranchGeqZero)),
            _ => None,
        },
        0x02 => Some(Instruction::JType(JTypeInstruction::Jump)),
        0x03 => Some(Instruction::JType(JTypeInstruction::JumpAndLink)),
        0x04 => Some(Instruction::IType(ITypeInstruction::BranchEq)),
        0x05 => Some(Instruction::IType(ITypeInstruction::BranchNeq)),
        0x06 => Some(Instruction::IType(ITypeInstruction::BranchLeqZero)),
        0x07 => Some(Instruction::IType(ITypeInstruction::BranchGtZero)),
        0x08 => Some(Instruction::IType(ITypeInstruction::AddImmediate)),
        0x09 => Some(Instruction::IType(ITypeInstruction::AddImmediateUnsigned)),
        0x0a => Some(Instruction::IType(ITypeInstruction::SetLessThanImmediate)),
        0x0b => Some(Instruction::IType(ITypeInstruction::SetLessThanImmediateUnsigned)),
        0x0c => Some(Instruction::IType(ITypeInstruction::AndImmediate)),
        0x0d => Some(Instruction::IType(ITypeInstruction::OrImmediate)),
        0x0e => Some(Instruction::IType(ITypeInstruction::XorImmediate)),
        0x0f => Some(Instruction::IType(ITypeInstruction::LoadUpperImmediate)),
        0x1c => match word & 0x3f {
            0x02 => Some(Instruction::RType(RTypeInstruction::MultiplyToRegister)),
            0x20 => Some(Instruction::RType(RTypeInstruction::CountLeadingZeros)),
            0x21 => Some(Instruction::RType(RTypeInstruction::CountLeadingOnes)),
            _ => None,
        },
        0x20 => Some(Instruction::IType(ITypeInstruction::Load8)),
        0x21 => Some(Instruction::IType(ITypeInstruction::Load16)),
        0x22 => Some(Instruction::IType(ITypeInstruction::LoadWordLeft)),
        0x23 => Some(Instruction::IType(ITypeInstruction::Load32)),
        0x24 => Some(Instruction::IType(ITypeInstruction::Load8Unsigned)),
        0x25 => Some(Instruction::IType(ITypeInstruction::Load16Unsigned)),
        0x26 => Some(Instruction::IType(ITypeInstruction::LoadWordRight)),
        0x28 => Some(Instruction::IType(ITypeInstruction::Store8)),
        0x29 => Some(Instruction::IType(ITypeInstruction::Store16)),
        0x2a => Some(Instruction::IType(ITypeInstruction::StoreWordLeft)),
        0x2b => Some(Instruction::IType(ITypeInstruction::Store32)),
        0x2e => Some(Instruction::IType(ITypeInstruction::StoreWordRight)),
        // Load linked
        0x30 => Some(Instruction::IType(ITypeInstruction::Load32)),
        // Store conditional
        0x38 => Some(Instruction::IType(ITypeInstruction::Store32Conditional)),
        _ => None,
    }
}

/// The fields of an instruction word.
#[derive(Clone, Copy, Debug, PartialEq, Eq, Structural)]
pub struct InstructionParts {
    pub op_code: u32,
    pub rs: u32,
    pub rt: u32,
    pub rd: u32,
    pub shamt: u32,
    pub funct: u32,
}

impl InstructionParts {
    /// The fields of `word`: from the highest bit on, one of six bits, four of five, and another
    /// one of six.
    pub open spec fn of(word: u32) -> InstructionParts {
        InstructionParts {
            op_code: word / 0x400_0000,
            rs: (word / 0x20_0000) % 32,
            rt: (word / 0x1_0000) % 32,
            rd: (word / 0x800) % 32,
            shamt: (word / 0x40) % 32,
            funct: word % 64,
        }
    }

    /// Splits `word` into its fields.
    pub fn decode(word: u32) -> (parts: InstructionParts)
        ensures
            parts == InstructionParts::of(word),
    {
        proof {
            assert(word >> 26 == word / 0x400_0000) by (bit_vector);
            assert((word >> 21) & 0x1f == (word / 0x20_0000) % 32) by (bit_vector);
            assert((word >> 16) & 0x1f == (word / 0x1_0000) % 32) by (bit_vector);
            assert((word >> 11) & 0x1f == (word / 0x800) % 32) by (bit_vector);
            assert((word >> 6) & 0x1f == (word / 0x40) % 32) by (bit_vector);
            assert(word & 0x3f == word % 64) by (bit_vector);
        }
        InstructionParts {
            op_code: word >> 26,
            rs: (word >> 21) & 0x1f,
            rt: (word >> 16) & 0x1f,
            rd: (word >> 11) & 0x1f,
            shamt: (word >> 6) & 0x1f,
            funct: word & 0x3f,
        }
    }
}

/// A system call is always decoded, whatever the registers hold.
pub proof fn law_system_calls_are_decoded(word: u32, number: u32, fd: u32)
    requires
        operation_code(word) == 0,
        function_code(word) == 0x0c,
    ensures
        instruction_of(word, number, fd) == Some(Instruction::RType(syscall_of(number, fd))),
{
}

/// Which instruction a word encodes depends on its operation code, its function code and its
/// target field alone, and on the registers for system calls alone.
pub proof fn law_decoding_depends_on_three_fields(
    word: u32,
    other: u32,
    number: u32,
    fd: u32,
    other_number: u32,
    other_fd: u32,
)
    requires
        operation_code(word) == operation_code(other),
        function_code(word) == function_code(other),
        target_field(word) == target_field(other),
        number == other_number && fd == other_fd || operation_code(word) != 0 || function_code(word)
            != 0x0c,
    ensures
        instruction_of(word, number, fd) == instruction_of(other, other_number, other_fd),
{
}

/// The fields of a word make up the word.
pub proof fn law_parts_make_up_the_word(word: u32)
    ensures
        ({
            let parts = InstructionParts::of(word);
            word == parts.op_code * 0x400_0000 + parts.rs * 0x20_0000 + parts.rt * 0x1_0000
                + parts.rd * 0x800 + parts.shamt * 0x40 + parts.funct
        }),
        InstructionParts::of(word).op_code == operation_code(word),
        InstructionParts::of(word).funct == function_code(word),
        InstructionParts::of(word).rt == target_field(word),
{
    assert(word == (word / 0x400_0000) * 0x400_0000 + ((word / 0x20_0000) % 32) * 0x20_0000 + ((word
        / 0x1_0000) % 32) * 0x1_0000 + ((word / 0x800) % 32) * 0x800 + ((word / 0x40) % 32) * 0x40
        + word % 64) by (bit_vector);
}

/// A word whose six high bits are zero encodes the instruction of its six low bits, whatever the
/// bits between.
pub proof fn law_special_instructions(word: u32, middle: u32, function: u32, number: u32, fd: u32)
    requires
        word == middle * 64 + function,
        middle < 0x10_0000,
        function < 64,
    ensures
        function == 0x00 ==> instruction_of(word, number, fd) == Some(
            Instruction::RType(RTypeInstruction::ShiftLeftLogical),
        ),
        function == 0x02 ==> instruction_of(word, number, fd) == Some(
            Instruction::RType(RTypeInstruction::ShiftRightLogical),
        ),
        function == 0x03 ==> instruction_of(word, number, fd) == Some(
            Instruction::RType(RTypeInstruction::ShiftRightArithmetic),
        ),
        function == 0x04 ==> instruction_of(word, number, fd) == Some(
            Instruction::RType(RTypeInstruction::ShiftLeftLogicalVariable),
        ),
        function == 0x06 ==> instruction_of(word, number, fd) == Some(
            Instruction::RType(RTypeInstruction::ShiftRightLogicalVariable),
        ),
        function == 0x07 ==> instruction_of(word, number, fd) == Some(
            Instruction::RType(RTypeInstruction::ShiftRightArithmeticVariable),
        ),
        function == 0x08 ==> instruction_of(word, number, fd) == Some(
            Instruction::RType(RTypeInstruction::JumpRegister),
        ),
        function == 0x09 ==> instruction_of(word, number, fd) == Some(
            Instruction::RType(RTypeInstruction::JumpAndLinkRegister),
        ),
        function == 0x0a ==> instruction_of(word, number, fd) == Some(
            Instruction::RType(RTypeInstruction::MoveZero),
        ),
        function == 0x0b ==> instruction_of(word, number, fd) == Some(
            Instruction::RType(RTypeInstruction::MoveNonZero),
        ),
        function == 0x0f ==> instruction_of(word, number, fd) == Some(
            Instruction::RType(RTypeInstruction::Sync),
        ),
        function == 0x10 ==> instruction_of(word, number, fd) == Some(
            Instruction::RType(RTypeInstruction::MoveFromHi),
        ),
        function == 0x11 ==> instruction_of(word, number, fd) == Some(
            Instruction::RType(RTypeInstruction::MoveToHi),
        ),
        function == 0x12 ==> instruction_of(word, number, fd) == Some(
            Instruction::RType(RTypeInstruction::MoveFromLo),
        ),
        function == 0x13 ==> instruction_of(word, number, fd) == Some(
            Instruction::RType(RTypeInstruction::MoveToLo),
        ),
        function == 0x18 ==> instruction_of(word, number, fd) == Some(
            Instruction::RType(RTypeInstruction::Multiply),
        ),
        function == 0x19 ==> instruction_of(word, number, fd) == Some(
            Instruction::RType(RTypeInstruction::MultiplyUnsigned),
        ),
        function == 0x1a ==> instruction_of(word, number, fd) == Some(
            Instruction::RType(RTypeInstruction::Div),
        ),
        function == 0x1b ==> instruction_of(word, number, fd) == Some(
            Instruction::RType(RTypeInstruction::DivUnsigned),
        ),
        function == 0x20 ==> instruction_of(word, number, fd) == Some(
            Instruction::RType(RTypeInstruction::Add),
        ),
        function == 0x21 ==> instruction_of(word, number, fd) == Some(
            Instruction::RType(RTypeInstruction::AddUnsigned),
        ),
        function == 0x22 ==> instruction_of(word, number, fd) == Some(
            Instruction::RType(RTypeInstruction::Sub),
        ),
        function == 0x23 ==> instruction_of(word, number, fd) == Some(
            Instruction::RType(RTypeInstruction::SubUnsigned),
        ),
        function == 0x24 ==> instruction_of(word, number, fd) == Some(
            Instruction::RType(RTypeInstruction::And),
        ),
        function == 0x25 ==> instruction_of(word, number, fd) == Some(
            Instruction::RType(RTypeInstruction::Or),
        ),
        function == 0x26 ==> instruction_of(word, number, fd) == Some(
            Instruction::RType(RTypeInstruction::Xor),
        ),
        function == 0x27 ==> instruction_of(word, number, fd) == Some(
            Instruction::RType(RTypeInstruction::Nor),
        ),
        function == 0x2a ==> instruction_of(word, number, fd) == Some(
            Instruction::RType(RTypeInstruction::SetLessThan),
        ),
        function == 0x2b ==> instruction_of(word, number, fd) == Some(
            Instruction::RType(RTypeInstruction::SetLessThanUnsigned),
        ),
        function == 0x0c ==> instruction_of(word, number, fd) is Some,
        function == 0x01 || function == 0x05 || function == 0x0d || function == 0x0e || 0x14
            <= function <= 0x17 || 0x1c <= function <= 0x1f || function == 0x28 || function == 0x29
            || function >= 0x2c ==> instruction_of(word, number, fd) is None,
{
    assert(word < 0x400_0000);
    assert(operation_code(word) == 0);
    assert(function_code(word) == function);
}

/// A system call is the one of its number. Calls that read or write are told apart by the file
/// descriptor, and every other number is a call too.
pub proof fn law_system_calls(word: u32, middle: u32, number: u32, fd: u32)
    requires
        word == middle * 64 + 0x0c,
        middle < 0x10_0000,
    ensures
        ({
            let decoded = instruction_of(word, number, fd);
            &&& number == 4090 ==> decoded == Some(Instruction::RType(RTypeInstruction::SyscallMmap))
            &&& number == 4246 ==> decoded == Some(
                Instruction::RType(RTypeInstruction::SyscallExitGroup),
            )
            &&& number == 4055 ==> decoded == Some(
                Instruction::RType(RTypeInstruction::SyscallFcntl),
            )
            &&& number == 4003 && fd == 3 ==> decoded == Some(
                Instruction::RType(RTypeInstruction::SyscallReadHint),
            )
            &&& number == 4003 && fd == 5 ==> decoded == Some(
                Instruction::RType(RTypeInstruction::SyscallReadPreimage),
            )
            &&& number == 4003 && fd != 3 && fd != 5 ==> decoded == Some(
                Instruction::RType(RTypeInstruction::SyscallReadOther),
            )
            &&& number == 4004 && fd == 6 ==> decoded == Some(
                Instruction::RType(RTypeInstruction::SyscallWritePreimage),
            )
            &&& number == 4004 && fd == 4 ==> decoded == Some(
                Instruction::RType(RTypeInstruction::SyscallWriteHint),
            )
            &&& number == 4004 && fd != 4 && fd != 6 ==> decoded == Some(
                Instruction::RType(RTypeInstruction::SyscallWriteOther),
            )
            &&& number != 4003 && number != 4004 && number != 4055 && number != 4090 && number
                != 4246 ==> decoded == Some(Instruction::RType(RTypeInstruction::SyscallOther))
        }),
{
    assert(word < 0x400_0000);
    assert(operation_code(word) == 0);
    assert(function_code(word) == 0x0c);
}

/// A word whose six high bits are one encodes a branch by the sign of a register, which bits 16 to
/// 20 tell, whatever the other bits.
pub proof fn law_register_immediate_instructions(
    word: u32,
    source: u32,
    target: u32,
    immediate: u32,
    number: u32,
    fd: u32,
)
    requires
        word == 0x400_0000 + source * 0x20_0000 + target * 0x1_0000 + immediate,
        source < 32,
        target < 32,
        immediate < 0x1_0000,
    ensures
        target == 0 ==> instruction_of(word, number, fd) == Some(
            Instruction::IType(ITypeInstruction::BranchLtZero),
        ),
        target == 1 ==> instruction_of(word, number, fd) == Some(
            Instruction::IType(ITypeInstruction::BranchGeqZero),
        ),
        target > 1 ==> instruction_of(word, number, fd) is None,
{
    assert(operation_code(word) == 1);
    assert(word / 0x1_0000 == 0x400 + source * 0x20 + target);
    assert(target_field(word) == target);
}

/// A word whose six high bits are `0x1c` encodes the instruction of its six low bits, whatever the
/// bits between.
pub proof fn law_special2_instructions(
    word: u32,
    middle: u32,
    function: u32,
    number: u32,
    fd: u32,
)
    requires
        word == 0x1c * 0x400_0000 + middle * 64 + function,
        middle < 0x10_0000,
        function < 64,
    ensures
        function == 0x02 ==> instruction_of(word, number, fd) == Some(
            Instruction::RType(RTypeInstruction::MultiplyToRegister),
        ),
        function == 0x20 ==> instruction_of(word, number, fd) == Some(
            Instruction::RType(RTypeInstruction::CountLeadingZeros),
        ),
        function == 0x21 ==> instruction_of(word, number, fd) == Some(
            Instruction::RType(RTypeInstruction::CountLeadingOnes),
        ),
        function != 0x02 && function != 0x20 && function != 0x21 ==> instruction_of(
            word,
            number,
            fd,
        ) is None,
{
    assert(operation_code(word) == 0x1c);
    assert(function_code(word) == function);
}

/// A word with any other six high bits encodes the instruction of these, whatever the rest of it.
pub proof fn law_instructions_by_operation_code(
    word: u32,
    operation: u32,
    rest: u32,
    number: u32,
    fd: u32,
)
    requires
        word == operation * 0x400_0000 + rest,
        rest < 0x400_0000,
    ensures
        operation == 0x02 ==> instruction_of(word, number, fd) == Some(
            Instruction::JType(JTypeInstruction::Jump),
        ),
        operation == 0x03 ==> instruction_of(word, number, fd) == Some(
            Instruction::JType(JTypeInstruction::JumpAndLink),
        ),
        operation == 0x04 ==> instruction_of(word, number, fd) == Some(
            Instruction::IType(ITypeInstruction::BranchEq),
        ),
        operation == 0x05 ==> instruction_of(word, number, fd) == Some(
            Instruction::IType(ITypeInstruction::BranchNeq),
        ),
        operation == 0x06 ==> instruction_of(word, number, fd) == Some(
            Instruction::IType(ITypeInstruction::BranchLeqZero),
        ),
        operation == 0x07 ==> instruction_of(word, number, fd) == Some(
            Instruction::IType(ITypeInstruction::BranchGtZero),
        ),
        operation == 0x08 ==> instruction_of(word, number, fd) == Some(
            Instruction::IType(ITypeInstruction::AddImmediate),
        ),
        operation == 0x09 ==> instruction_of(word, number, fd) == Some(
            Instruction::IType(ITypeInstruction::AddImmediateUnsigned),
        ),
        operation == 0x0a ==> instruction_of(word, number, fd) == Some(
            Instruction::IType(ITypeInstruction::SetLessThanImmediate),
        ),
        operation == 0x0b ==> instruction_of(word, number, fd) == Some(
            Instruction::IType(ITypeInstruction::SetLessThanImmediateUnsigned),
        ),
        operation == 0x0c ==> instruction_of(word, number, fd) == Some(
            Instruction::IType(ITypeInstruction::AndImmediate),
        ),
        operation == 0x0d ==> instruction_of(word, number, fd) == Some(
            Instruction::IType(ITypeInstruction::OrImmediate),
        ),
        operation == 0x0e ==> instruction_of(word, number, fd) == Some(
            Instruction::IType(ITypeInstruction::XorImmediate),
        ),
        operation == 0x0f ==> instruction_of(word, number, fd) == Some(
            Instruction::IType(ITypeInstruction::LoadUpperImmediate),
        ),
        operation == 0x20 ==> instruction_of(word, number, fd) == Some(
            Instruction::IType(ITypeInstruction::Load8),
        ),
        operation == 0x21 ==> instruction_of(word, number, fd) == Some(
            Instruction::IType(ITypeInstruction::Load16),
        ),
        operation == 0x22 ==> instruction_of(word, number, fd) == Some(
            Instruction::IType(ITypeInstruction::LoadWordLeft),
        ),
        operation == 0x23 ==> instruction_of(word, number, fd) == Some(
            Instruction::IType(ITypeInstruction::Load32),
        ),
        operation == 0x24 ==> instruction_of(word, number, fd) == Some(
            Instruction::IType(ITypeInstruction::Load8Unsigned),
        ),
        operation == 0x25 ==> instruction_of(word, number, fd) == Some(
            Instruction::IType(ITypeInstruction::Load16Unsigned),
        ),
        operation == 0x26 ==> instruction_of(word, number, fd) == Some(
            Instruction::IType(ITypeInstruction::LoadWordRight),
        ),
        operation == 0x28 ==> instruction_of(word, number, fd) == Some(
            Instruction::IType(ITypeInstruction::Store8),
        ),
        operation == 0x29 ==> instruction_of(word, number, fd) == Some(
            Instruction::IType(ITypeInstruction::Store16),
        ),
        operation == 0x2a ==> instruction_of(word, number, fd) == Some(
            Instruction::IType(ITypeInstruction::StoreWordLeft),
        ),
        operation == 0x2b ==> instruction_of(word, number, fd) == Some(
            Instruction::IType(ITypeInstruction::Store32),
        ),
        operation == 0x2e ==> instruction_of(word, number, fd) == Some(
            Instruction::IType(ITypeInstruction::StoreWordRight),
        ),
        operation == 0x30 ==> instruction_of(word, number, fd) == Some(
            Instruction::IType(ITypeInstruction::Load32),
        ),
        operation == 0x38 ==> instruction_of(word, number, fd) == Some(
            Instruction::IType(ITypeInstruction::Store32Conditional),
        ),
        0x10 <= operation <= 0x1b || 0x1d <= operation <= 0x1f || operation == 0x27 || operation
            == 0x2c || operation == 0x2d || operation == 0x2f || 0x31 <= operation <= 0x37
            || operation >= 0x39 ==> instruction_of(word, number, fd) is None,
{
    assert(operation_code(word) == operation);
}

/// Each field of a word is below the power of two that its number of bits allows.
pub proof fn law_parts_are_in_range(word: u32)
    ensures
        InstructionParts::of(word).op_code < 64,
        InstructionParts::of(word).rs < 32,
        InstructionParts::of(word).rt < 32,
        InstructionParts::of(word).rd < 32,
        InstructionParts::of(word).shamt < 32,
        InstructionParts::of(word).funct < 64,
{
}

} // verus!
