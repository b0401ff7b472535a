//! The steps of a run.

use crate::cannon::{Meta, Start, StepFrequency, VmConfiguration, PAGE_SIZE};
use crate::field::Field;
use crate::instruction::{Instruction, InstructionParts};
use crate::laws;
use crate::machine;
use crate::machine::Machine;
use crate::paging;
use crate::units;
use crate::witness::Env;
use vstd::prelude::*;

verus! {

/// Information on a step of a run.
pub struct StepInfo {
    /// The number of the step.
    pub step: u32,
    /// The address of the instruction.
    pub pc: u32,
    /// The word of the instruction.
    pub insn: u32,
    /// The number of steps of the run before this one.
    pub how_many_steps: usize,
    /// The number of pages of memory.
    pub pages: usize,
    /// The size of memory, as a text.
    pub mem: String,
    /// The symbol that the instruction belongs to.
    pub name: String,
}

impl StepInfo {
    /// Whether this is the information on the step at hand of `m`, in a run of the program `meta`
    /// that began with `start`.
    pub open spec fn is_about<Fp, O>(self, m: Machine<Fp, O>, meta: Meta, start: Start) -> bool {
        &&& self.step == m.instruction_counter
        &&& self.pc == m.pc()
        &&& m.opcode() == Some(self.insn)
        &&& self.how_many_steps == m.instruction_counter - start.step
        &&& self.pages == m.memory.len()
        &&& self.mem@ == units::memory_size_text(m.memory.len() * PAGE_SIZE as nat)
        &&& self.name@ == (match meta.symbol_at(m.pc()) {
            Some(name) => name,
            None => "n/a"@,
        })
    }
}

/// How a step begins.
pub struct StepReport {
    /// The instruction that is to be executed.
    pub opcode: Instruction,
    /// The word of the instruction.
    pub instruction: u32,
    /// The fields of the word.
    pub instruction_parts: InstructionParts,
    /// Information on the step, where it is asked for.
    pub info: Option<StepInfo>,
    /// Whether the run stops at this step.
    pub stopped: bool,
}

impl StepReport {
    /// Whether this is how a step of `m` begins.
    pub open spec fn is_about<Fp: Field, O>(
        self,
        m: Machine<Fp, O>,
        config: VmConfiguration,
        meta: Meta,
        start: Start,
    ) -> bool {
        &&& m.scratch_reset().decoded() == Some(self.opcode)
        &&& self.instruction == m.scratch_reset().instruction_word()
        &&& self.instruction_parts == InstructionParts::of(self.instruction)
        &&& self.stopped == config.stop_at.triggers(m.instruction_counter as nat)
        &&& match self.info {
            Some(info) => config.info_at.triggers(m.instruction_counter as nat) && info.is_about(
                m.readied(),
                meta,
                start,
            ),
            None => !config.info_at.triggers(m.instruction_counter as nat),
        }
    }
}

/// What stands in the way of a step.
#[derive(Clone, Copy, Debug, PartialEq, Eq, Structural)]
pub enum StepError {
    /// The instruction at hand cannot be read.
    UnreadableInstruction,
    /// The word of the instruction at hand encodes none.
    UnhandledInstruction(u32),
    /// Information is to be given every zero steps. The instruction at hand and its word were read.
    UndefinedInfoFrequency(Instruction, u32),
    /// Information is asked for and cannot be given. The instruction at hand and its word were read.
    NoInformation(Instruction, u32),
    /// The run is to stop every zero steps. The instruction at hand and its word were read.
    UndefinedStopFrequency(Instruction, u32),
}

/// The steps of a run.
impl<Fp: Field, O> Env<Fp, O> {
    /// Gives information on the step at hand where the frequency includes it.
    pub fn pp_info(&self, at: &StepFrequency, meta: &Meta, start: &Start) -> (info: Option<
        StepInfo,
    >)
        requires
            at.valid(),
            at.triggers(self@.instruction_counter as nat) ==> self@.can_report(start.step as nat),
        ensures
            match info {
                Some(info) => at.triggers(self@.instruction_counter as nat) && info.is_about(
                    self@,
                    *meta,
                    *start,
                ),
                None => !at.triggers(self@.instruction_counter as nat),
            },
    {
        if self.should_trigger_at(at) {
            let step: u32 = self.instruction_counter;
            let pc: u32 = self.registers.current_instruction_pointer;

            // Get the 32-bits opcode
            let insn: u32 = self.get_opcode().unwrap();

            let how_many_steps: usize = step as usize - start.step;

            let pages: usize = self.memory.len();

            let mem = self.memory_usage();
            let name = match meta.find_address_symbol(pc) {
                Some(name) => name,
                None => String::from_str("n/a"),
            };
            Some(StepInfo { step, pc, insn, how_many_steps, pages, mem, name })
        } else {
            None
        }
    }

    /// Begins a step: empties the scratch state, reads the instruction at hand, and halts the
    /// machine if the run stops here.
    pub fn begin_step(
        &mut self,
        config: &VmConfiguration,
        metadata: &Meta,
        start: &Start,
    ) -> (report: StepReport)
        requires
            old(self)@.can_begin_step(*config, *start),
        ensures
            report.is_about(old(self)@, *config, *metadata, *start),
            final(self)@ == old(self)@.begun(*config),
    {
        proof {
            laws::law_step_that_cannot_begin(self@, *config, *start, 0);
        }
        self.try_begin_step(config, metadata, start).unwrap()
    }

    /// Whether information can be given on the step at hand.
    fn can_report(&self, start: &Start) -> (possible: bool)
        ensures
            possible == self@.can_report(start.step as nat),
    {
        let (page_id, page_address) = self.page_address();
        let ghost ids = machine::page_ids(self@.memory);
        let mut i: usize = 0;
        while i < self.memory.len() && self.memory[i].0 != page_id
            invariant
                i <= self.memory@.len(),
                ids == machine::page_ids(self@.memory),
                forall|j: int| 0 <= j < i ==> ids[j] != page_id,
            decreases self.memory@.len() - i,
        {
            i = i + 1;
        }
        proof {
            paging::lemma_first_slot(ids, page_id);
            if i < self.memory@.len() {
                assert(ids[i as int] == page_id);
                assert(self@.memory[i as int].1 == self.memory@[i as int].1@);
            }
        }
        i < self.memory.len() && self.memory[i].1.len() >= 4 && page_address
            <= self.memory[i].1.len() - 4 && start.step <= self.instruction_counter as usize
            && self.memory.len() <= usize::MAX / PAGE_SIZE as usize
    }

    /// Begins a step where that is possible, and otherwise says what stood first in its way. The
    /// scratch state has then been emptied and the instruction at hand read as far as it can be;
    /// nothing else has changed.
    pub fn try_begin_step(
        &mut self,
        config: &VmConfiguration,
        metadata: &Meta,
        start: &Start,
    ) -> (report: Result<StepReport, StepError>)
        ensures
            match report {
                Ok(report) => {
                    &&& old(self)@.can_begin_step(*config, *start)
                    &&& report.is_about(old(self)@, *config, *metadata, *start)
                    &&& final(self)@ == old(self)@.begun(*config)
                },
                Err(error) => {
                    &&& old(self)@.step_error(*config, *start) == Some(error)
                    &&& final(self)@ == old(self)@.scratch_reset().instruction_tried()
                },
            },
    {
        self.reset_scratch_state();
        let (opcode, instruction) = match self.try_decode_instruction() {
            Ok(decoded) => decoded,
            Err(error) => {
                return Err(error);
            },
        };
        proof {
            laws::lemma_taking_stays_in_the_step(old(self)@.scratch_reset(), 4);
        }
        let instruction_parts = InstructionParts::decode(instruction);

        if config.info_at == StepFrequency::Every(0) {
            return Err(StepError::UndefinedInfoFrequency(opcode, instruction));
        }
        if self.should_trigger_at(&config.info_at) && !self.can_report(start) {
            return Err(StepError::NoInformation(opcode, instruction));
        }
        let info = self.pp_info(&config.info_at, metadata, start);

        // Force stops at given iteration
        if config.stop_at == StepFrequency::Every(0) {
            return Err(StepError::UndefinedStopFrequency(opcode, instruction));
        }
        let stopped = self.should_trigger_at(&config.stop_at);
        if stopped {
            self.halt = true;
        }
        Ok(StepReport { opcode, instruction, instruction_parts, info, stopped })
    }

    /// Goes on to the next step.
    pub fn finish_step(&mut self)
        requires
            old(self)@.instruction_counter < u32::MAX,
        ensures
            final(self)@ == old(self)@.advanced(),
    {
        self.instruction_counter = self.instruction_counter + 1;
    }

    /// Makes a step: unless the run stops here, `interpret` executes the instruction at hand.
    pub fn step<F: FnOnce(&mut Self, Instruction)>(
        &mut self,
        config: &VmConfiguration,
        metadata: &Meta,
        start: &Start,
        interpret: F,
    ) -> (report: StepReport)
        requires
            old(self)@.can_begin_step(*config, *start),
            forall|env: &mut Self, opcode: Instruction|
                old(self)@.executes(*config, opcode) && (*env)@ == old(self)@.readied()
                    ==> call_requires(interpret, (env, opcode)),
            forall|env: &mut Self, opcode: Instruction|
                {
                    &&& old(self)@.executes(*config, opcode)
                    &&& (*env)@ == old(self)@.readied()
                    &&& call_ensures(interpret, (env, opcode), ())
                } ==> final(env)@.instruction_counter < u32::MAX,
        ensures
            report.is_about(old(self)@, *config, *metadata, *start),
            report.stopped ==> final(self)@ == old(self)@.begun(*config),
            !report.stopped ==> exists|env: &mut Self|
                {
                    &&& (*env)@ == old(self)@.readied()
                    &&& call_ensures(interpret, (env, report.opcode), ())
                    &&& final(self)@ == final(env)@.advanced()
                },
    {
        let report = self.begin_step(config, metadata, start);
        if !report.stopped {
            interpret(self, report.opcode);
            self.finish_step();
        }
        report
    }
}

} // verus!
