use vstd::prelude::*;

use crate::instruction::{decoded, executed, Instruction};
use crate::machine::{Chip8, Chip8Error, MachineState};

verus! {

/// One fetch-decode-execute cycle from `s`: the machine after it and what the
/// host is told. `random` is the byte that an RND instruction draws.
/// Fetching beyond memory, an unmapped word and a failing instruction all
/// leave the machine exactly as it was.
pub open spec fn cycle(s: MachineState, random: u8) -> (MachineState, Result<Instruction, Chip8Error>) {
    match s.read_word(s.program_counter as int) {
        Err(e) => (s, Err(e)),
        Ok(word) => match decoded(word) {
            None => (s, Err(Chip8Error::UnknownOpcode { word, pc: s.program_counter })),
            Some(ins) => match executed(
                s.with_pc((s.program_counter + 2) as u16).with_opcode(word),
                ins,
                random,
            ) {
                Ok(t) => (t, Ok(ins)),
                Err(e) => (s, Err(e)),
            },
        },
    }
}

/// Relies on rand::random::<u8>: a byte from the thread-local generator,
/// uniformly distributed; nothing is known of which one.
#[verifier::external_body]
fn random_byte() -> u8 {
    rand::random::<u8>()
}

impl Chip8 {
    /// Runs one cycle, with `random` as the byte an RND instruction draws:
    /// fetches the word at the program counter, advances the counter by 2,
    /// decodes the word and performs the instruction. Returns the instruction,
    /// or the fatal error, in which case the machine is unchanged.
    pub fn emulate_cycle_with(&mut self, random: u8) -> (r: Result<Instruction, Chip8Error>)
        requires
            old(self)@.wf(),
        ensures
            final(self)@.wf(),
            (final(self)@, r) == cycle(old(self)@, random),
    {
        let pc = self.program_counter();
        let word = self.read_word(pc as usize)?;
        let ins = match Instruction::decode(word) {
            Some(ins) => ins,
            None => {
                return Err(Chip8Error::UnknownOpcode { word, pc });
            },
        };
        let previous = self.current_opcode();
        self.set_program_counter(pc + 2);
        self.set_current_opcode(word);
        match ins.execute(self, random) {
            Ok(()) => Ok(ins),
            Err(e) => {
                self.set_program_counter(pc);
                self.set_current_opcode(previous);
                Err(e)
            },
        }
    }

    /// Runs one cycle, drawing a fresh random byte for an RND instruction.
    pub fn emulate_cycle(&mut self) -> (r: Result<Instruction, Chip8Error>)
        requires
            old(self)@.wf(),
        ensures
            final(self)@.wf(),
            exists|random: u8| #[trigger] cycle(old(self)@, random) == (final(self)@, r),
    {
        let random = random_byte();
        self.emulate_cycle_with(random)
    }
}

/// An unmapped instruction word is reported as such, with the word and its
/// address, and the machine is left exactly as it was.
pub proof fn lemma_unknown_opcode_changes_nothing(s: MachineState, random: u8)
    requires
        s.wf(),
        s.program_counter + 1 < s.ram.len(),
        decoded(s.word_at(s.program_counter as int)) is None,
    ensures
        cycle(s, random) == (
            s,
            Err::<Instruction, Chip8Error>(
                Chip8Error::UnknownOpcode {
                    word: s.word_at(s.program_counter as int),
                    pc: s.program_counter,
                },
            ),
        ),
{
}

} // verus!
