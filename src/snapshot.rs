use vstd::prelude::*;

use crate::machine::{
    word_of, Chip8, Chip8Error, MachineState, ADDRESS_MASK, RAM_SIZE, REGISTER_COUNT,
    STACK_DEPTH,
};

verus! {

// Layout of a snapshot: the 16 registers, the delay and sound timers, the
// address register, the program counter and the last fetched word (two bytes
// each, big-endian), the stack depth, 16 stack slots of two bytes (unused
// slots zero) and the 4096 bytes of memory.
pub const TIMERS_AT: usize = 16;
pub const INDEX_AT: usize = 18;
pub const PC_AT: usize = 20;
pub const OPCODE_AT: usize = 22;
pub const DEPTH_AT: usize = 24;
pub const STACK_AT: usize = 25;
pub const RAM_AT: usize = 57;
/// Length of every snapshot in bytes.
pub const SNAPSHOT_LEN: usize = 4153;

/// The two bytes of a word, high byte first.
pub open spec fn word_bytes(w: u16) -> Seq<u8> {
    seq![(w / 256) as u8, (w % 256) as u8]
}

/// The 16 stack slots, two bytes each; slots above the depth are zero.
pub open spec fn stack_bytes(stack: Seq<u16>) -> Seq<u8> {
    Seq::new(
        (2 * STACK_DEPTH) as nat,
        |i: int|
            if i / 2 < stack.len() {
                word_bytes(stack[i / 2])[i % 2]
            } else {
                0u8
            },
    )
}

/// The snapshot of a machine.
pub open spec fn encoded(s: MachineState) -> Seq<u8> {
    s.registers + seq![s.delay_timer, s.sound_timer] + word_bytes(s.index_register) + word_bytes(
        s.program_counter,
    ) + word_bytes(s.current_opcode) + seq![s.stack.len() as u8] + stack_bytes(s.stack) + s.ram
}

/// Bytes that `restore` accepts: the right length, a stack depth within
/// bounds and a 12-bit address register.
pub open spec fn is_snapshot(b: Seq<u8>) -> bool {
    &&& b.len() == SNAPSHOT_LEN
    &&& b[DEPTH_AT as int] <= STACK_DEPTH
    &&& word_of(b[INDEX_AT as int], b[INDEX_AT + 1]) <= ADDRESS_MASK
}

/// The machine that a snapshot describes.
pub open spec fn decoded_snapshot(b: Seq<u8>) -> MachineState {
    MachineState {
        registers: b.subrange(0, REGISTER_COUNT as int),
        delay_timer: b[TIMERS_AT as int],
        sound_timer: b[TIMERS_AT + 1],
        index_register: word_of(b[INDEX_AT as int], b[INDEX_AT + 1]),
        program_counter: word_of(b[PC_AT as int], b[PC_AT + 1]),
        current_opcode: word_of(b[OPCODE_AT as int], b[OPCODE_AT + 1]),
        stack: Seq::new(
            b[DEPTH_AT as int] as nat,
            |k: int| word_of(b[STACK_AT + 2 * k], b[STACK_AT + 2 * k + 1]),
        ),
        ram: b.subrange(RAM_AT as int, SNAPSHOT_LEN as int),
    }
}

proof fn lemma_word_bytes(w: u16)
    ensures
        word_of((w / 256) as u8, (w % 256) as u8) == w,
{
}

/// Restoring a snapshot gives back the machine it was taken of, register for
/// register, byte for byte and stack entry for stack entry.
pub proof fn lemma_snapshot_round_trip(s: MachineState)
    requires
        s.wf(),
    ensures
        is_snapshot(encoded(s)),
        decoded_snapshot(encoded(s)) == s,
{
    let b = encoded(s);
    lemma_word_bytes(s.index_register);
    lemma_word_bytes(s.program_counter);
    lemma_word_bytes(s.current_opcode);
    assert(b.subrange(0, REGISTER_COUNT as int) =~= s.registers);
    assert(b.subrange(RAM_AT as int, SNAPSHOT_LEN as int) =~= s.ram);
    let t = decoded_snapshot(b);
    assert forall|k: int| 0 <= k < s.stack.len() implies t.stack[k] == s.stack[k] by {
        lemma_word_bytes(s.stack[k]);
        assert(b[STACK_AT + 2 * k] == stack_bytes(s.stack)[2 * k]);
        assert(b[STACK_AT + 2 * k + 1] == stack_bytes(s.stack)[2 * k + 1]);
    }
    assert(t.stack =~= s.stack);
}

/// Appends the two bytes of `w`.
fn push_word(out: &mut Vec<u8>, w: u16)
    ensures
        final(out)@ == old(out)@ + word_bytes(w),
{
    out.push((w / 256) as u8);
    out.push((w % 256) as u8);
    assert(final(out)@ =~= old(out)@ + word_bytes(w));
}

/// The word stored big-endian in two bytes.
fn read_word_at(b: &[u8], at: usize) -> (r: u16)
    requires
        at + 1 < b@.len(),
    ensures
        r == word_of(b@[at as int], b@[at + 1]),
{
    b[at] as u16 * 256 + b[at + 1] as u16
}

impl Chip8 {
    /// The whole machine state as bytes, for a host to persist.
    pub fn snapshot(&self) -> (r: Vec<u8>)
        requires
            self@.wf(),
        ensures
            r@ == encoded(self@),
    {
        let mut out: Vec<u8> = Vec::new();
        let mut i: usize = 0;
        while i < REGISTER_COUNT
            invariant
                self@.wf(),
                i <= REGISTER_COUNT,
                out@ =~= self@.registers.subrange(0, i as int),
            decreases REGISTER_COUNT - i,
        {
            out.push(self.register(i));
            i = i + 1;
        }
        out.push(self.delay_timer());
        out.push(self.sound_timer());
        push_word(&mut out, self.index_register());
        push_word(&mut out, self.program_counter());
        push_word(&mut out, self.current_opcode());
        let stack = self.stack();
        out.push(stack.len() as u8);
        let ghost head = out@;
        let mut k: usize = 0;
        while k < STACK_DEPTH
            invariant
                self@.wf(),
                stack@ == self@.stack,
                k <= STACK_DEPTH,
                out@ =~= head + stack_bytes(self@.stack).subrange(0, 2 * k),
            decreases STACK_DEPTH - k,
        {
            if k < stack.len() {
                push_word(&mut out, stack[k]);
            } else {
                out.push(0);
                out.push(0);
            }
            assert(out@ =~= head + stack_bytes(self@.stack).subrange(0, 2 * k + 2));
            k = k + 1;
        }
        let ghost middle = out@;
        let ram = self.ram();
        let mut a: usize = 0;
        while a < RAM_SIZE
            invariant
                self@.wf(),
                ram@ == self@.ram,
                a <= RAM_SIZE,
                out@ =~= middle + self@.ram.subrange(0, a as int),
            decreases RAM_SIZE - a,
        {
            out.push(ram[a]);
            a = a + 1;
        }
        assert(self@.ram.subrange(0, RAM_SIZE as int) =~= self@.ram);
        assert(stack_bytes(self@.stack).subrange(0, 2 * STACK_DEPTH) =~= stack_bytes(
            self@.stack,
        ));
        out
    }

    /// Replaces the whole machine state by the one a snapshot describes.
    /// Bytes that are no snapshot are refused and the machine is unchanged.
    pub fn restore(&mut self, bytes: &[u8]) -> (r: Result<(), Chip8Error>)
        requires
            old(self)@.wf(),
        ensures
            final(self)@.wf(),
            is_snapshot(bytes@) ==> r is Ok && final(self)@ == decoded_snapshot(bytes@),
            !is_snapshot(bytes@) ==> r == Err::<(), Chip8Error>(
                Chip8Error::InvalidSnapshot { length: bytes@.len() as usize },
            ) && final(self)@ == old(self)@,
    {
        if bytes.len() != SNAPSHOT_LEN || bytes[DEPTH_AT] as usize > STACK_DEPTH
            || read_word_at(bytes, INDEX_AT) > ADDRESS_MASK {
            return Err(Chip8Error::InvalidSnapshot { length: bytes.len() });
        }
        let ghost target = decoded_snapshot(bytes@);
        let mut a: usize = 0;
        while a < RAM_SIZE
            invariant
                self@.wf(),
                bytes@.len() == SNAPSHOT_LEN,
                target == decoded_snapshot(bytes@),
                a <= RAM_SIZE,
                forall|j: int| 0 <= j < a ==> self@.ram[j] == target.ram[j],
            decreases RAM_SIZE - a,
        {
            let _ = self.write_byte(a, bytes[RAM_AT + a]);
            a = a + 1;
        }
        let mut i: usize = 0;
        while i < REGISTER_COUNT
            invariant
                self@.wf(),
                bytes@.len() == SNAPSHOT_LEN,
                target == decoded_snapshot(bytes@),
                i <= REGISTER_COUNT,
                self@.ram =~= target.ram,
                forall|j: int| 0 <= j < i ==> self@.registers[j] == target.registers[j],
            decreases REGISTER_COUNT - i,
        {
            self.set_register(i, bytes[i]);
            i = i + 1;
        }
        assert(self@.registers =~= target.registers);
        self.set_timers(bytes[TIMERS_AT], bytes[TIMERS_AT + 1]);
        let index = read_word_at(bytes, INDEX_AT);
        self.set_index_register(index);
        assert(index & 0x0FFF == index) by (bit_vector)
            requires
                index <= 0x0FFF,
        ;
        self.set_program_counter(read_word_at(bytes, PC_AT));
        self.set_current_opcode(read_word_at(bytes, OPCODE_AT));
        self.init_stack();
        let depth = bytes[DEPTH_AT] as usize;
        let mut k: usize = 0;
        while k < depth
            invariant
                self@.wf(),
                bytes@.len() == SNAPSHOT_LEN,
                target == decoded_snapshot(bytes@),
                depth == target.stack.len(),
                k <= depth <= STACK_DEPTH,
                self@ == target.with_stack(self@.stack),
                self@.stack =~= target.stack.subrange(0, k as int),
            decreases depth - k,
        {
            let w = read_word_at(bytes, STACK_AT + 2 * k);
            let _ = self.push_stack(w);
            assert(w == target.stack[k as int]);
            assert(self@.stack =~= target.stack.subrange(0, k + 1));
            k = k + 1;
        }
        assert(self@.stack =~= target.stack);
        Ok(())
    }
}

} // verus!
