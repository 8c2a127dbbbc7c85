use vstd::prelude::*;

verus! {

/// Size of the address space in bytes.
pub const RAM_SIZE: usize = 4096;

/// Number of general registers (V0 to VF).
pub const REGISTER_COUNT: usize = 16;

/// Index of VF, the flag register.
pub const FLAG_REGISTER: usize = 15;

/// Deepest nesting of subroutine calls the call stack holds.
pub const STACK_DEPTH: usize = 16;

/// Address at which programs are loaded and execution starts.
pub const PROGRAM_START: usize = 0x200;

/// Bytes available to a program, from `PROGRAM_START` to the end of memory.
pub const PROGRAM_SPACE: usize = 3584;

/// Size of the built-in glyph table stored at address 0.
pub const FONT_SIZE: usize = 80;

/// The address register is 12 bits wide: every write keeps these bits only.
pub const ADDRESS_MASK: u16 = 0x0FFF;

/// A fatal condition reported by the machine. Whenever one is returned the
/// machine state is left exactly as it was before the failing operation.
#[derive(Debug, Clone, Copy, PartialEq, Eq, Structural)]
pub enum Chip8Error {
    /// A memory access, or an instruction fetch, beyond the 4096-byte bound.
    AddressOutOfRange { address: usize },
    /// A return or pop with an empty call stack.
    StackUnderflow,
    /// A call or push with a full call stack.
    StackOverflow,
    /// A fetched word that names no instruction, with where it was fetched.
    UnknownOpcode { word: u16, pc: u16 },
    /// A program longer than the program region.
    InvalidProgramSize { length: usize },
    /// Bytes handed to `restore` that no snapshot could have produced.
    InvalidSnapshot { length: usize },
}

/// The mathematical model of a machine: every piece of state, as plain values.
pub struct MachineState {
    pub registers: Seq<u8>,
    pub delay_timer: u8,
    pub sound_timer: u8,
    pub index_register: u16,
    pub program_counter: u16,
    pub ram: Seq<u8>,
    pub stack: Seq<u16>,
    pub current_opcode: u16,
}

/// The glyphs of the hexadecimal digits 0 to F, five bytes each.
pub open spec fn font_glyphs() -> Seq<u8> {
    seq![
        0xF0u8, 0x90, 0x90, 0x90, 0xF0, 0x20, 0x60, 0x20, 0x20, 0x70,
        0xF0, 0x10, 0xF0, 0x80, 0xF0, 0xF0, 0x10, 0xF0, 0x10, 0xF0,
        0x90, 0x90, 0xF0, 0x10, 0x10, 0xF0, 0x80, 0xF0, 0x10, 0xF0,
        0xF0, 0x80, 0xF0, 0x90, 0xF0, 0xF0, 0x10, 0x20, 0x40, 0x40,
        0xF0, 0x90, 0xF0, 0x90, 0xF0, 0xF0, 0x90, 0xF0, 0x10, 0xF0,
        0xF0, 0x90, 0xF0, 0x90, 0x90, 0xE0, 0x90, 0xE0, 0x90, 0xE0,
        0xF0, 0x80, 0x80, 0x80, 0xF0, 0xE0, 0x90, 0x90, 0x90, 0xE0,
        0xF0, 0x80, 0xF0, 0x80, 0xF0, 0xF0, 0x80, 0xF0, 0x80, 0x80,
    ]
}

/// The big-endian word formed by two bytes.
pub open spec fn word_of(hi: u8, lo: u8) -> u16 {
    (hi as int * 256 + lo as int) as u16
}

/// `n` zero bytes.
pub open spec fn zeros(n: nat) -> Seq<u8> {
    Seq::new(n, |i: int| 0u8)
}

impl MachineState {
    /// The shape every machine has: 16 registers, 4096 bytes of memory and a
    /// call stack within its depth.
    pub open spec fn wf(self) -> bool {
        &&& self.registers.len() == REGISTER_COUNT
        &&& self.ram.len() == RAM_SIZE
        &&& self.stack.len() <= STACK_DEPTH
        &&& self.index_register <= ADDRESS_MASK
    }

    pub open spec fn with_ram(self, ram: Seq<u8>) -> MachineState {
        MachineState { ram, ..self }
    }

    pub open spec fn with_register(self, x: int, v: u8) -> MachineState {
        MachineState { registers: self.registers.update(x, v), ..self }
    }

    /// Register `x` receives `v`, then VF receives `flag`.
    pub open spec fn with_flagged(self, x: int, v: u8, flag: u8) -> MachineState {
        MachineState {
            registers: self.registers.update(x, v).update(FLAG_REGISTER as int, flag),
            ..self
        }
    }

    pub open spec fn with_pc(self, pc: u16) -> MachineState {
        MachineState { program_counter: pc, ..self }
    }

    pub open spec fn with_index(self, i: u16) -> MachineState {
        MachineState { index_register: i, ..self }
    }

    pub open spec fn with_stack(self, stack: Seq<u16>) -> MachineState {
        MachineState { stack, ..self }
    }

    pub open spec fn with_timers(self, delay: u8, sound: u8) -> MachineState {
        MachineState { delay_timer: delay, sound_timer: sound, ..self }
    }

    pub open spec fn with_opcode(self, op: u16) -> MachineState {
        MachineState { current_opcode: op, ..self }
    }

    /// The word stored at `a` and `a + 1`.
    pub open spec fn word_at(self, a: int) -> u16 {
        word_of(self.ram[a], self.ram[a + 1])
    }

    pub open spec fn read_byte(self, a: int) -> Result<u8, Chip8Error> {
        if 0 <= a < RAM_SIZE {
            Ok(self.ram[a])
        } else {
            Err(Chip8Error::AddressOutOfRange { address: a as usize })
        }
    }

    pub open spec fn write_byte(self, a: int, v: u8) -> Result<MachineState, Chip8Error> {
        if 0 <= a < RAM_SIZE {
            Ok(self.with_ram(self.ram.update(a, v)))
        } else {
            Err(Chip8Error::AddressOutOfRange { address: a as usize })
        }
    }

    pub open spec fn read_word(self, a: int) -> Result<u16, Chip8Error> {
        if 0 <= a && a + 1 < RAM_SIZE {
            Ok(self.word_at(a))
        } else {
            Err(Chip8Error::AddressOutOfRange { address: a as usize })
        }
    }

    pub open spec fn write_word(self, a: int, w: u16) -> Result<MachineState, Chip8Error> {
        if 0 <= a && a + 1 < RAM_SIZE {
            Ok(self.with_ram(
                self.ram.update(a, (w / 256) as u8).update(a + 1, (w % 256) as u8),
            ))
        } else {
            Err(Chip8Error::AddressOutOfRange { address: a as usize })
        }
    }

    /// Memory with `program` copied to the program origin.
    pub open spec fn load_program(self, program: Seq<u8>) -> Result<MachineState, Chip8Error> {
        if program.len() <= PROGRAM_SPACE {
            Ok(self.with_ram(
                self.ram.subrange(0, PROGRAM_START as int) + program + self.ram.subrange(
                    PROGRAM_START + program.len(),
                    RAM_SIZE as int,
                ),
            ))
        } else {
            Err(Chip8Error::InvalidProgramSize { length: program.len() as usize })
        }
    }

    pub open spec fn push(self, value: u16) -> Result<MachineState, Chip8Error> {
        if self.stack.len() < STACK_DEPTH {
            Ok(self.with_stack(self.stack.push(value)))
        } else {
            Err(Chip8Error::StackOverflow)
        }
    }

    /// The popped address and the machine after the pop.
    pub open spec fn pop(self) -> Result<(u16, MachineState), Chip8Error> {
        if self.stack.len() > 0 {
            Ok((self.stack.last(), self.with_stack(self.stack.drop_last())))
        } else {
            Err(Chip8Error::StackUnderflow)
        }
    }
}

/// Writing a byte to any valid address and reading that address back gives
/// the byte written.
pub proof fn lemma_write_then_read(s: MachineState, a: int, v: u8)
    requires
        s.wf(),
        0 <= a < RAM_SIZE,
    ensures
        match s.write_byte(a, v) {
            Ok(t) => t.read_byte(a) == Ok::<u8, Chip8Error>(v),
            Err(_) => false,
        },
{
}

/// A timer one tick later: one less, but never below zero.
pub open spec fn ticked(t: u8) -> u8 {
    if t > 0 {
        (t - 1) as u8
    } else {
        0
    }
}

/// Sets an address register to `nnn`, keeping its 12 significant bits.
pub fn new_annn(i: &mut u16, nnn: u16)
    ensures
        *final(i) == nnn & ADDRESS_MASK,
        *final(i) <= ADDRESS_MASK,
{
    *i = nnn & ADDRESS_MASK;
    assert(nnn & 0x0FFF <= 0x0FFF) by (bit_vector);
}

/// The machine: memory, register file, call stack and the word last fetched.
pub struct Chip8 {
    registers: [u8; 16],
    delay_timer: u8,
    sound_timer: u8,
    index_register: u16,
    program_counter: u16,
    ram: [u8; 4096],
    stack: Vec<u16>,
    current_opcode: u16,
}

impl View for Chip8 {
    type V = MachineState;

    closed spec fn view(&self) -> MachineState {
        MachineState {
            registers: self.registers@,
            delay_timer: self.delay_timer,
            sound_timer: self.sound_timer,
            index_register: self.index_register,
            program_counter: self.program_counter,
            ram: self.ram@,
            stack: self.stack@,
            current_opcode: self.current_opcode,
        }
    }
}

impl Chip8 {
    /// A machine with zeroed memory and registers, an empty call stack and the
    /// program counter at the program origin.
    pub fn new() -> (r: Chip8)
        ensures
            r@.wf(),
            r@.registers == zeros(16),
            r@.ram == zeros(4096),
            r@.stack.len() == 0,
            r@.delay_timer == 0,
            r@.sound_timer == 0,
            r@.index_register == 0,
            r@.program_counter == PROGRAM_START,
            r@.current_opcode == 0,
    {
        let r = Chip8 {
            registers: [0u8; 16],
            delay_timer: 0,
            sound_timer: 0,
            index_register: 0,
            program_counter: 0x200,
            ram: [0u8; 4096],
            stack: Vec::new(),
            current_opcode: 0,
        };
        assert(r@.registers =~= zeros(16));
        assert(r@.ram =~= zeros(4096));
        r
    }

    pub fn total_ram(&self) -> (r: usize)
        ensures
            r == RAM_SIZE,
    {
        RAM_SIZE
    }

    pub fn read_byte(&self, address: usize) -> (r: Result<u8, Chip8Error>)
        requires
            self@.wf(),
        ensures
            r == self@.read_byte(address as int),
    {
        if address < RAM_SIZE {
            Ok(self.ram[address])
        } else {
            Err(Chip8Error::AddressOutOfRange { address })
        }
    }

    /// The big-endian word at `address`: high byte there, low byte after it.
    pub fn read_word(&self, address: usize) -> (r: Result<u16, Chip8Error>)
        requires
            self@.wf(),
        ensures
            r == self@.read_word(address as int),
    {
        if address < RAM_SIZE - 1 {
            let hi = self.ram[address] as u16;
            let lo = self.ram[address + 1] as u16;
            Ok(hi * 256 + lo)
        } else {
            Err(Chip8Error::AddressOutOfRange { address })
        }
    }

    pub fn write_byte(&mut self, address: usize, byte: u8) -> (r: Result<(), Chip8Error>)
        requires
            old(self)@.wf(),
        ensures
            final(self)@.wf(),
            match old(self)@.write_byte(address as int, byte) {
                Ok(t) => r is Ok && final(self)@ == t,
                Err(e) => r == Err::<(), Chip8Error>(e) && final(self)@ == old(self)@,
            },
    {
        if address < RAM_SIZE {
            self.ram[address] = byte;
            assert(self@.ram =~= old(self)@.ram.update(address as int, byte));
            Ok(())
        } else {
            Err(Chip8Error::AddressOutOfRange { address })
        }
    }

    /// Stores `word` big-endian at `address` and `address + 1`.
    pub fn write_word(&mut self, address: usize, word: u16) -> (r: Result<(), Chip8Error>)
        requires
            old(self)@.wf(),
        ensures
            final(self)@.wf(),
            match old(self)@.write_word(address as int, word) {
                Ok(t) => r is Ok && final(self)@ == t,
                Err(e) => r == Err::<(), Chip8Error>(e) && final(self)@ == old(self)@,
            },
    {
        if address < RAM_SIZE - 1 {
            self.ram[address] = (word / 256) as u8;
            self.ram[address + 1] = (word % 256) as u8;
            Ok(())
        } else {
            Err(Chip8Error::AddressOutOfRange { address })
        }
    }
}

impl Chip8 {
    /// Copies the 80-byte glyph table to addresses 0x000 to 0x04F.
    pub fn load_font(&mut self)
        requires
            old(self)@.wf(),
        ensures
            final(self)@ == old(self)@.with_ram(
                font_glyphs() + old(self)@.ram.subrange(FONT_SIZE as int, RAM_SIZE as int),
            ),
            final(self)@.wf(),
    {
        let font = font_table();
        let mut i: usize = 0;
        while i < FONT_SIZE
            invariant
                i <= FONT_SIZE,
                font@ == font_glyphs(),
                self@ == old(self)@.with_ram(self@.ram),
                self@.ram.len() == RAM_SIZE,
                forall|k: int| 0 <= k < i ==> self@.ram[k] == font_glyphs()[k],
                forall|k: int| i <= k < RAM_SIZE ==> self@.ram[k] == old(self)@.ram[k],
            decreases FONT_SIZE - i,
        {
            self.ram[i] = font[i];
            i = i + 1;
        }
        assert(self@.ram =~= font_glyphs() + old(self)@.ram.subrange(
            FONT_SIZE as int,
            RAM_SIZE as int,
        ));
    }

    /// Zeroes the whole memory, then loads the glyph table.
    pub fn initialize_ram(&mut self)
        requires
            old(self)@.wf(),
        ensures
            final(self)@ == old(self)@.with_ram(
                font_glyphs() + zeros((RAM_SIZE - FONT_SIZE) as nat),
            ),
            final(self)@.wf(),
    {
        self.ram = [0u8; 4096];
        self.load_font();
        assert(self@.ram =~= font_glyphs() + zeros((RAM_SIZE - FONT_SIZE) as nat));
    }

    /// Zeroes the program region 0x200 to 0xFFF, then reloads the glyph table.
    pub fn reset_ram(&mut self)
        requires
            old(self)@.wf(),
        ensures
            final(self)@ == old(self)@.with_ram(
                font_glyphs() + old(self)@.ram.subrange(FONT_SIZE as int, PROGRAM_START as int)
                    + zeros(PROGRAM_SPACE as nat),
            ),
            final(self)@.wf(),
    {
        let mut a: usize = PROGRAM_START;
        while a < RAM_SIZE
            invariant
                PROGRAM_START <= a <= RAM_SIZE,
                self@ == old(self)@.with_ram(self@.ram),
                self@.ram.len() == RAM_SIZE,
                forall|k: int| 0 <= k < PROGRAM_START ==> self@.ram[k] == old(self)@.ram[k],
                forall|k: int| PROGRAM_START <= k < a ==> self@.ram[k] == 0,
            decreases RAM_SIZE - a,
        {
            self.ram[a] = 0;
            a = a + 1;
        }
        let ghost cleared = self@.ram;
        self.load_font();
        assert(self@.ram =~= font_glyphs() + old(self)@.ram.subrange(
            FONT_SIZE as int,
            PROGRAM_START as int,
        ) + zeros(PROGRAM_SPACE as nat));
    }

    /// Copies `program` to memory from the program origin on. A program longer
    /// than the program region is refused and memory is left as it was.
    pub fn load_program(&mut self, program: &[u8]) -> (r: Result<(), Chip8Error>)
        requires
            old(self)@.wf(),
        ensures
            final(self)@.wf(),
            match old(self)@.load_program(program@) {
                Ok(t) => r is Ok && final(self)@ == t,
                Err(e) => r == Err::<(), Chip8Error>(e) && final(self)@ == old(self)@,
            },
    {
        if program.len() > PROGRAM_SPACE {
            return Err(Chip8Error::InvalidProgramSize { length: program.len() });
        }
        let mut i: usize = 0;
        while i < program.len()
            invariant
                i <= program@.len() <= PROGRAM_SPACE,
                self@ == old(self)@.with_ram(self@.ram),
                self@.ram.len() == RAM_SIZE,
                forall|k: int| 0 <= k < PROGRAM_START ==> self@.ram[k] == old(self)@.ram[k],
                forall|k: int| 0 <= k < i ==> self@.ram[PROGRAM_START + k] == program@[k],
                forall|k: int|
                    PROGRAM_START + i <= k < RAM_SIZE ==> self@.ram[k] == old(self)@.ram[k],
            decreases program@.len() - i,
        {
            self.ram[PROGRAM_START + i] = program[i];
            i = i + 1;
        }
        assert(self@.ram =~= old(self)@.ram.subrange(0, PROGRAM_START as int) + program@
            + old(self)@.ram.subrange(PROGRAM_START + program@.len(), RAM_SIZE as int));
        Ok(())
    }

    /// The whole memory, for inspection.
    pub fn ram(&self) -> (r: &[u8; 4096])
        ensures
            r@ == self@.ram,
    {
        &self.ram
    }
}

impl Chip8 {
    pub fn program_counter(&self) -> (r: u16)
        ensures
            r == self@.program_counter,
    {
        self.program_counter
    }

    pub fn set_program_counter(&mut self, pc: u16)
        ensures
            final(self)@ == old(self)@.with_pc(pc),
    {
        self.program_counter = pc;
    }

    pub fn index_register(&self) -> (r: u16)
        ensures
            r == self@.index_register,
    {
        self.index_register
    }

    /// Sets the address register. Only its low 12 bits are kept: the register
    /// is masked on every write, so it always holds a valid address.
    pub fn set_index_register(&mut self, value: u16)
        ensures
            final(self)@ == old(self)@.with_index(value & ADDRESS_MASK),
            final(self)@.index_register <= ADDRESS_MASK,
    {
        new_annn(&mut self.index_register, value);
    }

    /// General register `x` (V0 to VF).
    pub fn register(&self, x: usize) -> (r: u8)
        requires
            self@.wf(),
            x < REGISTER_COUNT,
        ensures
            r == self@.registers[x as int],
    {
        self.registers[x]
    }

    pub fn set_register(&mut self, x: usize, value: u8)
        requires
            old(self)@.wf(),
            x < REGISTER_COUNT,
        ensures
            final(self)@ == old(self)@.with_register(x as int, value),
            final(self)@.wf(),
    {
        self.registers[x] = value;
        assert(self@.registers =~= old(self)@.registers.update(x as int, value));
    }

    /// The word most recently fetched by the execution engine.
    pub fn current_opcode(&self) -> (r: u16)
        ensures
            r == self@.current_opcode,
    {
        self.current_opcode
    }

    pub fn set_current_opcode(&mut self, word: u16)
        ensures
            final(self)@ == old(self)@.with_opcode(word),
    {
        self.current_opcode = word;
    }

    pub fn delay_timer(&self) -> (r: u8)
        ensures
            r == self@.delay_timer,
    {
        self.delay_timer
    }

    pub fn sound_timer(&self) -> (r: u8)
        ensures
            r == self@.sound_timer,
    {
        self.sound_timer
    }

    pub fn set_timers(&mut self, delay: u8, sound: u8)
        ensures
            final(self)@ == old(self)@.with_timers(delay, sound),
    {
        self.delay_timer = delay;
        self.sound_timer = sound;
    }

    /// One tick of the external 60 Hz clock: each timer counts down by one and
    /// a timer already at zero stays at zero.
    pub fn tick_timers(&mut self)
        ensures
            final(self)@ == old(self)@.with_timers(
                ticked(old(self)@.delay_timer),
                ticked(old(self)@.sound_timer),
            ),
            old(self)@.delay_timer == 0 ==> final(self)@.delay_timer == 0,
            old(self)@.sound_timer == 0 ==> final(self)@.sound_timer == 0,
    {
        if self.delay_timer > 0 {
            self.delay_timer = self.delay_timer - 1;
        }
        if self.sound_timer > 0 {
            self.sound_timer = self.sound_timer - 1;
        }
    }

    /// Empties the call stack.
    pub fn init_stack(&mut self)
        ensures
            final(self)@ == old(self)@.with_stack(Seq::empty()),
    {
        self.stack = Vec::new();
        assert(self@.stack =~= Seq::empty());
    }

    /// Pushes a return address. A full stack is refused and left as it was.
    pub fn push_stack(&mut self, value: u16) -> (r: Result<(), Chip8Error>)
        requires
            old(self)@.wf(),
        ensures
            final(self)@.wf(),
            match old(self)@.push(value) {
                Ok(t) => r is Ok && final(self)@ == t,
                Err(e) => r == Err::<(), Chip8Error>(e) && final(self)@ == old(self)@,
            },
    {
        if self.stack.len() < STACK_DEPTH {
            self.stack.push(value);
            Ok(())
        } else {
            Err(Chip8Error::StackOverflow)
        }
    }

    /// Pops the most recently pushed address. An empty stack is an error.
    pub fn pop_stack(&mut self) -> (r: Result<u16, Chip8Error>)
        requires
            old(self)@.wf(),
        ensures
            final(self)@.wf(),
            match old(self)@.pop() {
                Ok((v, t)) => r == Ok::<u16, Chip8Error>(v) && final(self)@ == t,
                Err(e) => r == Err::<u16, Chip8Error>(e) && final(self)@ == old(self)@,
            },
    {
        match self.stack.pop() {
            Some(v) => Ok(v),
            None => Err(Chip8Error::StackUnderflow),
        }
    }

    /// The call stack, oldest entry first.
    pub fn stack(&self) -> (r: &[u16])
        ensures
            r@ == self@.stack,
    {
        self.stack.as_slice()
    }
}

impl Default for Chip8 {
    /// Like `new`, but with the program counter at address 0.
    fn default() -> (r: Chip8)
        ensures
            r@.wf(),
            r@.registers == zeros(16),
            r@.ram == zeros(4096),
            r@.stack.len() == 0,
            r@.delay_timer == 0,
            r@.sound_timer == 0,
            r@.index_register == 0,
            r@.program_counter == 0,
            r@.current_opcode == 0,
    {
        let mut r = Chip8::new();
        r.set_program_counter(0);
        r
    }
}

/// The glyph table as an array.
fn font_table() -> (r: [u8; 80])
    ensures
        r@ == font_glyphs(),
{
    let r: [u8; 80] = [
        0xF0, 0x90, 0x90, 0x90, 0xF0, 0x20, 0x60, 0x20, 0x20, 0x70,
        0xF0, 0x10, 0xF0, 0x80, 0xF0, 0xF0, 0x10, 0xF0, 0x10, 0xF0,
        0x90, 0x90, 0xF0, 0x10, 0x10, 0xF0, 0x80, 0xF0, 0x10, 0xF0,
        0xF0, 0x80, 0xF0, 0x90, 0xF0, 0xF0, 0x10, 0x20, 0x40, 0x40,
        0xF0, 0x90, 0xF0, 0x90, 0xF0, 0xF0, 0x90, 0xF0, 0x10, 0xF0,
        0xF0, 0x90, 0xF0, 0x90, 0x90, 0xE0, 0x90, 0xE0, 0x90, 0xE0,
        0xF0, 0x80, 0x80, 0x80, 0xF0, 0xE0, 0x90, 0x90, 0x90, 0xE0,
        0xF0, 0x80, 0xF0, 0x80, 0xF0, 0xF0, 0x80, 0xF0, 0x80, 0x80,
    ];
    assert(r@ =~= font_glyphs());
    r
}

} // verus!
