use vstd::prelude::*;

use crate::machine::{
    Chip8, Chip8Error, MachineState, ADDRESS_MASK, FLAG_REGISTER, RAM_SIZE, REGISTER_COUNT, STACK_DEPTH,
};

verus! {

/// One decoded instruction: the operation and its operand fields.
/// `x` and `y` name general registers, `addr` is a 12-bit address and
/// `byte` an 8-bit immediate.
#[derive(Debug, Clone, Copy, PartialEq, Eq, Structural)]
pub enum Instruction {
    /// 00E0 CLS: the display collaborator clears the screen; no machine state changes.
    ClearScreen,
    /// 00EE RET
    Return,
    /// 1nnn JP addr
    Jump { addr: u16 },
    /// 2nnn CALL addr
    Call { addr: u16 },
    /// 3xkk SE Vx, byte
    SkipEqualByte { x: u8, byte: u8 },
    /// 4xkk SNE Vx, byte
    SkipNotEqualByte { x: u8, byte: u8 },
    /// 5xy0 SE Vx, Vy
    SkipEqualRegister { x: u8, y: u8 },
    /// 6xkk LD Vx, byte
    LoadByte { x: u8, byte: u8 },
    /// 7xkk ADD Vx, byte
    AddByte { x: u8, byte: u8 },
    /// 8xy0 LD Vx, Vy
    Move { x: u8, y: u8 },
    /// 8xy1 OR Vx, Vy
    Or { x: u8, y: u8 },
    /// 8xy2 AND Vx, Vy
    And { x: u8, y: u8 },
    /// 8xy3 XOR Vx, Vy
    Xor { x: u8, y: u8 },
    /// 8xy4 ADD Vx, Vy
    AddRegister { x: u8, y: u8 },
    /// 8xy5 SUB Vx, Vy
    SubRegister { x: u8, y: u8 },
    /// 8xy6 SHR Vx
    ShiftRight { x: u8, y: u8 },
    /// 8xy7 SUBN Vx, Vy
    SubReverse { x: u8, y: u8 },
    /// 8xyE SHL Vx
    ShiftLeft { x: u8, y: u8 },
    /// 9xy0 SNE Vx, Vy
    SkipNotEqualRegister { x: u8, y: u8 },
    /// Annn LD I, addr
    SetIndex { addr: u16 },
    /// Bnnn JP V0, addr
    JumpOffset { addr: u16 },
    /// Cxkk RND Vx, byte
    Random { x: u8, byte: u8 },
}

/// The register field of the second nibble.
pub open spec fn field_x(word: u16) -> u8 {
    ((word / 256) % 16) as u8
}

/// The register field of the third nibble.
pub open spec fn field_y(word: u16) -> u8 {
    ((word / 16) % 16) as u8
}

/// The immediate of the low byte.
pub open spec fn field_byte(word: u16) -> u8 {
    (word % 256) as u8
}

/// The 12-bit address field.
pub open spec fn field_addr(word: u16) -> u16 {
    word % 4096
}

/// Class 0: only the two words 00E0 and 00EE name an instruction.
pub open spec fn decoded_system(word: u16) -> Option<Instruction> {
    if word == 0x00E0 {
        Some(Instruction::ClearScreen)
    } else if word == 0x00EE {
        Some(Instruction::Return)
    } else {
        None
    }
}

/// Class 8: the trailing nibble picks the register-to-register operation.
pub open spec fn decoded_alu(word: u16) -> Option<Instruction> {
    let x = field_x(word);
    let y = field_y(word);
    let n = word % 16;
    if n == 0 {
        Some(Instruction::Move { x, y })
    } else if n == 1 {
        Some(Instruction::Or { x, y })
    } else if n == 2 {
        Some(Instruction::And { x, y })
    } else if n == 3 {
        Some(Instruction::Xor { x, y })
    } else if n == 4 {
        Some(Instruction::AddRegister { x, y })
    } else if n == 5 {
        Some(Instruction::SubRegister { x, y })
    } else if n == 6 {
        Some(Instruction::ShiftRight { x, y })
    } else if n == 7 {
        Some(Instruction::SubReverse { x, y })
    } else if n == 0xE {
        Some(Instruction::ShiftLeft { x, y })
    } else {
        None
    }
}

/// The instruction an instruction word names, by its top nibble and, for the
/// polymorphic classes, its trailing nibble; `None` for an unmapped word.
pub open spec fn decoded(word: u16) -> Option<Instruction> {
    let class = word / 4096;
    let x = field_x(word);
    let y = field_y(word);
    let byte = field_byte(word);
    let addr = field_addr(word);
    if class == 0 {
        decoded_system(word)
    } else if class == 1 {
        Some(Instruction::Jump { addr })
    } else if class == 2 {
        Some(Instruction::Call { addr })
    } else if class == 3 {
        Some(Instruction::SkipEqualByte { x, byte })
    } else if class == 4 {
        Some(Instruction::SkipNotEqualByte { x, byte })
    } else if class == 5 {
        if word % 16 == 0 {
            Some(Instruction::SkipEqualRegister { x, y })
        } else {
            None
        }
    } else if class == 6 {
        Some(Instruction::LoadByte { x, byte })
    } else if class == 7 {
        Some(Instruction::AddByte { x, byte })
    } else if class == 8 {
        decoded_alu(word)
    } else if class == 9 {
        if word % 16 == 0 {
            Some(Instruction::SkipNotEqualRegister { x, y })
        } else {
            None
        }
    } else if class == 0xA {
        Some(Instruction::SetIndex { addr })
    } else if class == 0xB {
        Some(Instruction::JumpOffset { addr })
    } else if class == 0xC {
        Some(Instruction::Random { x, byte })
    } else {
        None
    }
}

/// Sum of two bytes, wrapped to 8 bits.
pub open spec fn add8(a: u8, b: u8) -> u8 {
    ((a + b) % 256) as u8
}

/// 1 when the 9-bit sum of two bytes exceeds 255.
pub open spec fn carry(a: u8, b: u8) -> u8 {
    if a + b > 255 {
        1
    } else {
        0
    }
}

/// Difference `a - b`, wrapped to 8 bits.
pub open spec fn sub8(a: u8, b: u8) -> u8 {
    ((a - b + 256) % 256) as u8
}

/// 1 when `a - b` needs no borrow.
pub open spec fn no_borrow(a: u8, b: u8) -> u8 {
    if a >= b {
        1
    } else {
        0
    }
}

/// The machine with one more instruction skipped when `cond` holds.
pub open spec fn skip_if(s: MachineState, cond: bool) -> MachineState {
    if cond {
        s.with_pc((s.program_counter + 2) as u16)
    } else {
        s
    }
}

impl Instruction {
    /// The assembler mnemonic of the operation.
    pub open spec fn mnemonic_text(self) -> Seq<char> {
        match self {
            Instruction::ClearScreen => "CLS"@,
            Instruction::Return => "RET"@,
            Instruction::Jump { .. } => "JP"@,
            Instruction::Call { .. } => "CALL"@,
            Instruction::SkipEqualByte { .. } => "SE"@,
            Instruction::SkipNotEqualByte { .. } => "SNE"@,
            Instruction::SkipEqualRegister { .. } => "SE"@,
            Instruction::LoadByte { .. } => "LD"@,
            Instruction::AddByte { .. } => "ADD"@,
            Instruction::Move { .. } => "LD"@,
            Instruction::Or { .. } => "OR"@,
            Instruction::And { .. } => "AND"@,
            Instruction::Xor { .. } => "XOR"@,
            Instruction::AddRegister { .. } => "ADD"@,
            Instruction::SubRegister { .. } => "SUB"@,
            Instruction::ShiftRight { .. } => "SHR"@,
            Instruction::SubReverse { .. } => "SUBN"@,
            Instruction::ShiftLeft { .. } => "SHL"@,
            Instruction::SkipNotEqualRegister { .. } => "SNE"@,
            Instruction::SetIndex { .. } => "LD"@,
            Instruction::JumpOffset { .. } => "JP"@,
            Instruction::Random { .. } => "RND"@,
        }
    }

    /// The assembler mnemonic of the operation, for disassembly.
    pub fn mnemonic(&self) -> (r: &'static str)
        ensures
            r@ == self.mnemonic_text(),
    {
        match *self {
            Instruction::ClearScreen => "CLS",
            Instruction::Return => "RET",
            Instruction::Jump { .. } => "JP",
            Instruction::Call { .. } => "CALL",
            Instruction::SkipEqualByte { .. } => "SE",
            Instruction::SkipNotEqualByte { .. } => "SNE",
            Instruction::SkipEqualRegister { .. } => "SE",
            Instruction::LoadByte { .. } => "LD",
            Instruction::AddByte { .. } => "ADD",
            Instruction::Move { .. } => "LD",
            Instruction::Or { .. } => "OR",
            Instruction::And { .. } => "AND",
            Instruction::Xor { .. } => "XOR",
            Instruction::AddRegister { .. } => "ADD",
            Instruction::SubRegister { .. } => "SUB",
            Instruction::ShiftRight { .. } => "SHR",
            Instruction::SubReverse { .. } => "SUBN",
            Instruction::ShiftLeft { .. } => "SHL",
            Instruction::SkipNotEqualRegister { .. } => "SNE",
            Instruction::SetIndex { .. } => "LD",
            Instruction::JumpOffset { .. } => "JP",
            Instruction::Random { .. } => "RND",
        }
    }

    /// Register fields name one of the 16 registers; addresses have 12 bits.
    pub open spec fn wf(self) -> bool {
        match self {
            Instruction::ClearScreen | Instruction::Return => true,
            Instruction::Jump { addr }
            | Instruction::Call { addr }
            | Instruction::SetIndex { addr }
            | Instruction::JumpOffset { addr } => addr <= ADDRESS_MASK,
            Instruction::SkipEqualByte { x, byte }
            | Instruction::SkipNotEqualByte { x, byte }
            | Instruction::LoadByte { x, byte }
            | Instruction::AddByte { x, byte }
            | Instruction::Random { x, byte } => x < REGISTER_COUNT,
            Instruction::SkipEqualRegister { x, y }
            | Instruction::Move { x, y }
            | Instruction::Or { x, y }
            | Instruction::And { x, y }
            | Instruction::Xor { x, y }
            | Instruction::AddRegister { x, y }
            | Instruction::SubRegister { x, y }
            | Instruction::ShiftRight { x, y }
            | Instruction::SubReverse { x, y }
            | Instruction::ShiftLeft { x, y }
            | Instruction::SkipNotEqualRegister { x, y } => x < REGISTER_COUNT && y
                < REGISTER_COUNT,
        }
    }
}

/// The state transition of one instruction, applied to a machine whose program
/// counter has already moved past it. `random` is the byte that RND draws.
pub open spec fn executed(s: MachineState, ins: Instruction, random: u8) -> Result<
    MachineState,
    Chip8Error,
> {
    let v = s.registers;
    match ins {
        Instruction::ClearScreen => Ok(s),
        Instruction::Return => match s.pop() {
            Ok((a, t)) => Ok(t.with_pc(a)),
            Err(e) => Err(e),
        },
        Instruction::Jump { addr } => Ok(s.with_pc(addr)),
        Instruction::Call { addr } => match s.push(s.program_counter) {
            Ok(t) => Ok(t.with_pc(addr)),
            Err(e) => Err(e),
        },
        Instruction::SkipEqualByte { x, byte } => Ok(skip_if(s, v[x as int] == byte)),
        Instruction::SkipNotEqualByte { x, byte } => Ok(skip_if(s, v[x as int] != byte)),
        Instruction::SkipEqualRegister { x, y } => Ok(skip_if(s, v[x as int] == v[y as int])),
        Instruction::LoadByte { x, byte } => Ok(s.with_register(x as int, byte)),
        Instruction::AddByte { x, byte } => Ok(s.with_register(x as int, add8(v[x as int], byte))),
        Instruction::Move { x, y } => Ok(s.with_register(x as int, v[y as int])),
        Instruction::Or { x, y } => Ok(s.with_register(x as int, v[x as int] | v[y as int])),
        Instruction::And { x, y } => Ok(s.with_register(x as int, v[x as int] & v[y as int])),
        Instruction::Xor { x, y } => Ok(s.with_register(x as int, v[x as int] ^ v[y as int])),
        Instruction::AddRegister { x, y } => Ok(
            s.with_flagged(x as int, add8(v[x as int], v[y as int]), carry(v[x as int], v[y as int])),
        ),
        Instruction::SubRegister { x, y } => Ok(
            s.with_flagged(
                x as int,
                sub8(v[x as int], v[y as int]),
                no_borrow(v[x as int], v[y as int]),
            ),
        ),
        Instruction::ShiftRight { x, y } => Ok(
            s.with_flagged(x as int, v[x as int] / 2, v[x as int] % 2),
        ),
        Instruction::SubReverse { x, y } => Ok(
            s.with_flagged(
                x as int,
                sub8(v[y as int], v[x as int]),
                no_borrow(v[y as int], v[x as int]),
            ),
        ),
        Instruction::ShiftLeft { x, y } => Ok(
            s.with_flagged(x as int, add8(v[x as int], v[x as int]), v[x as int] / 128),
        ),
        Instruction::SkipNotEqualRegister { x, y } => Ok(
            skip_if(s, v[x as int] != v[y as int]),
        ),
        Instruction::SetIndex { addr } => Ok(s.with_index(addr & ADDRESS_MASK)),
        Instruction::JumpOffset { addr } => Ok(s.with_pc((addr + v[0]) as u16)),
        Instruction::Random { x, byte } => Ok(s.with_register(x as int, random & byte)),
    }
}

/// A call followed by a return restores the program counter: the call pushes
/// the counter as it was and jumps, and the return pops exactly that entry
/// back into the counter, leaving the stack as it was before the call.
pub proof fn lemma_call_then_return(s: MachineState, addr: u16, random: u8)
    requires
        handler_ready(s),
        s.stack.len() < STACK_DEPTH,
        addr <= ADDRESS_MASK,
    ensures
        match executed(s, Instruction::Call { addr }, random) {
            Ok(t) => {
                &&& t.stack == s.stack.push(s.program_counter)
                &&& t.program_counter == addr
                &&& match executed(t, Instruction::Return, random) {
                    Ok(u) => u.program_counter == s.program_counter && u.stack == s.stack,
                    Err(_) => false,
                }
            },
            Err(_) => false,
        },
{
    assert(s.stack.push(s.program_counter).drop_last() =~= s.stack);
}

/// What a handler may assume: a well-formed machine whose program counter
/// lies within memory or just past it, as it does after a fetch.
pub open spec fn handler_ready(s: MachineState) -> bool {
    s.wf() && s.program_counter <= RAM_SIZE
}

/// Decodes class 0: 00E0 is CLS and 00EE is RET; every other word is unmapped.
pub fn cls_or_ret(word: u16) -> (r: Option<Instruction>)
    ensures
        r == decoded_system(word),
{
    if word == 0x00E0 {
        Some(Instruction::ClearScreen)
    } else if word == 0x00EE {
        Some(Instruction::Return)
    } else {
        None
    }
}

/// Decodes class 8, the register-to-register operations, by the trailing nibble.
pub fn op_vx_vy(word: u16) -> (r: Option<Instruction>)
    ensures
        r == decoded_alu(word),
{
    let x = ((word / 256) % 16) as u8;
    let y = ((word / 16) % 16) as u8;
    match word % 16 {
        0x0 => Some(Instruction::Move { x, y }),
        0x1 => Some(Instruction::Or { x, y }),
        0x2 => Some(Instruction::And { x, y }),
        0x3 => Some(Instruction::Xor { x, y }),
        0x4 => Some(Instruction::AddRegister { x, y }),
        0x5 => Some(Instruction::SubRegister { x, y }),
        0x6 => Some(Instruction::ShiftRight { x, y }),
        0x7 => Some(Instruction::SubReverse { x, y }),
        0xE => Some(Instruction::ShiftLeft { x, y }),
        _ => None,
    }
}

impl Instruction {
    /// Decodes an instruction word: class in bits 15-12, then the Vx nibble,
    /// the Vy nibble and the trailing nibble; the immediate byte is the low
    /// byte and the address the low 12 bits.
    pub fn decode(word: u16) -> (r: Option<Instruction>)
        ensures
            r == decoded(word),
            r matches Some(ins) ==> ins.wf(),
    {
        let x = ((word / 256) % 16) as u8;
        let y = ((word / 16) % 16) as u8;
        let byte = (word % 256) as u8;
        let addr = word % 4096;
        let r = match word / 4096 {
            0x0 => cls_or_ret(word),
            0x1 => Some(Instruction::Jump { addr }),
            0x2 => Some(Instruction::Call { addr }),
            0x3 => Some(Instruction::SkipEqualByte { x, byte }),
            0x4 => Some(Instruction::SkipNotEqualByte { x, byte }),
            0x5 => if word % 16 == 0 {
                Some(Instruction::SkipEqualRegister { x, y })
            } else {
                None
            },
            0x6 => Some(Instruction::LoadByte { x, byte }),
            0x7 => Some(Instruction::AddByte { x, byte }),
            0x8 => op_vx_vy(word),
            0x9 => if word % 16 == 0 {
                Some(Instruction::SkipNotEqualRegister { x, y })
            } else {
                None
            },
            0xA => Some(Instruction::SetIndex { addr }),
            0xB => Some(Instruction::JumpOffset { addr }),
            0xC => Some(Instruction::Random { x, byte }),
            _ => None,
        };
        assert(addr <= ADDRESS_MASK);
        r
    }
}

/// 00EE: the program counter takes the address popped from the call stack.
pub fn ret(chip: &mut Chip8) -> (r: Result<(), Chip8Error>)
    requires
        old(chip)@.wf(),
    ensures
        final(chip)@.wf(),
        match old(chip)@.pop() {
            Ok((a, t)) => r is Ok && final(chip)@ == t.with_pc(a),
            Err(e) => r == Err::<(), Chip8Error>(e) && final(chip)@ == old(chip)@,
        },
{
    let top = chip.pop_stack()?;
    chip.set_program_counter(top);
    Ok(())
}

/// 1nnn: the program counter becomes `nnn`.
pub fn jp(chip: &mut Chip8, nnn: u16)
    ensures
        final(chip)@ == old(chip)@.with_pc(nnn),
{
    chip.set_program_counter(nnn);
}

/// 2nnn: pushes the program counter, which already points past the call,
/// then jumps to `nnn`. A full stack is refused and nothing changes.
pub fn call(chip: &mut Chip8, nnn: u16) -> (r: Result<(), Chip8Error>)
    requires
        old(chip)@.wf(),
    ensures
        final(chip)@.wf(),
        match old(chip)@.push(old(chip)@.program_counter) {
            Ok(t) => r is Ok && final(chip)@ == t.with_pc(nnn),
            Err(e) => r == Err::<(), Chip8Error>(e) && final(chip)@ == old(chip)@,
        },
{
    let pc = chip.program_counter();
    chip.push_stack(pc)?;
    chip.set_program_counter(nnn);
    Ok(())
}

/// Moves the program counter over the next instruction.
fn skip_next(chip: &mut Chip8)
    requires
        old(chip)@.program_counter <= RAM_SIZE,
    ensures
        final(chip)@ == skip_if(old(chip)@, true),
{
    let pc = chip.program_counter();
    chip.set_program_counter(pc + 2);
}

/// 3xkk: skips the next instruction when Vx equals `kk`.
pub fn se_vx_byte(chip: &mut Chip8, x: u8, kk: u8)
    requires
        handler_ready(old(chip)@),
        x < REGISTER_COUNT,
    ensures
        final(chip)@ == skip_if(old(chip)@, old(chip)@.registers[x as int] == kk),
{
    if chip.register(x as usize) == kk {
        skip_next(chip);
    }
}

/// 4xkk: skips the next instruction when Vx differs from `kk`.
pub fn sne_vx_byte(chip: &mut Chip8, x: u8, kk: u8)
    requires
        handler_ready(old(chip)@),
        x < REGISTER_COUNT,
    ensures
        final(chip)@ == skip_if(old(chip)@, old(chip)@.registers[x as int] != kk),
{
    if chip.register(x as usize) != kk {
        skip_next(chip);
    }
}

/// 5xy0: skips the next instruction when Vx equals Vy.
pub fn se_vx_vy(chip: &mut Chip8, x: u8, y: u8)
    requires
        handler_ready(old(chip)@),
        x < REGISTER_COUNT,
        y < REGISTER_COUNT,
    ensures
        final(chip)@ == skip_if(
            old(chip)@,
            old(chip)@.registers[x as int] == old(chip)@.registers[y as int],
        ),
{
    if chip.register(x as usize) == chip.register(y as usize) {
        skip_next(chip);
    }
}

/// 9xy0: skips the next instruction when Vx differs from Vy.
pub fn skip(chip: &mut Chip8, x: u8, y: u8)
    requires
        handler_ready(old(chip)@),
        x < REGISTER_COUNT,
        y < REGISTER_COUNT,
    ensures
        final(chip)@ == skip_if(
            old(chip)@,
            old(chip)@.registers[x as int] != old(chip)@.registers[y as int],
        ),
{
    if chip.register(x as usize) != chip.register(y as usize) {
        skip_next(chip);
    }
}

/// 6xkk: Vx becomes `kk`.
pub fn ld_vx_byte(chip: &mut Chip8, x: u8, kk: u8)
    requires
        old(chip)@.wf(),
        x < REGISTER_COUNT,
    ensures
        final(chip)@ == old(chip)@.with_register(x as int, kk),
{
    chip.set_register(x as usize, kk);
}

/// 7xkk: adds `kk` to Vx, wrapping at 8 bits; VF is left alone.
pub fn add_vx_byte(chip: &mut Chip8, x: u8, kk: u8)
    requires
        old(chip)@.wf(),
        x < REGISTER_COUNT,
    ensures
        final(chip)@ == old(chip)@.with_register(
            x as int,
            add8(old(chip)@.registers[x as int], kk),
        ),
{
    let vx = chip.register(x as usize);
    chip.set_register(x as usize, ((vx as u16 + kk as u16) % 256) as u8);
}

/// 8xy0: Vx becomes Vy.
pub fn ld_vx_vy(chip: &mut Chip8, x: u8, y: u8)
    requires
        old(chip)@.wf(),
        x < REGISTER_COUNT,
        y < REGISTER_COUNT,
    ensures
        final(chip)@ == old(chip)@.with_register(x as int, old(chip)@.registers[y as int]),
{
    let vy = chip.register(y as usize);
    chip.set_register(x as usize, vy);
}

/// 8xy1: Vx becomes Vx OR Vy.
pub fn or_vx_vy(chip: &mut Chip8, x: u8, y: u8)
    requires
        old(chip)@.wf(),
        x < REGISTER_COUNT,
        y < REGISTER_COUNT,
    ensures
        final(chip)@ == old(chip)@.with_register(
            x as int,
            old(chip)@.registers[x as int] | old(chip)@.registers[y as int],
        ),
{
    let v = chip.register(x as usize) | chip.register(y as usize);
    chip.set_register(x as usize, v);
}

/// 8xy2: Vx becomes Vx AND Vy.
pub fn and_vx_vy(chip: &mut Chip8, x: u8, y: u8)
    requires
        old(chip)@.wf(),
        x < REGISTER_COUNT,
        y < REGISTER_COUNT,
    ensures
        final(chip)@ == old(chip)@.with_register(
            x as int,
            old(chip)@.registers[x as int] & old(chip)@.registers[y as int],
        ),
{
    let v = chip.register(x as usize) & chip.register(y as usize);
    chip.set_register(x as usize, v);
}

/// 8xy3: Vx becomes Vx XOR Vy.
pub fn xor_vx_vy(chip: &mut Chip8, x: u8, y: u8)
    requires
        old(chip)@.wf(),
        x < REGISTER_COUNT,
        y < REGISTER_COUNT,
    ensures
        final(chip)@ == old(chip)@.with_register(
            x as int,
            old(chip)@.registers[x as int] ^ old(chip)@.registers[y as int],
        ),
{
    let v = chip.register(x as usize) ^ chip.register(y as usize);
    chip.set_register(x as usize, v);
}

/// 8xy4: Vx becomes the low 8 bits of Vx + Vy, then VF is 1 exactly when the
/// sum exceeded 255.
pub fn add_vx_vy(chip: &mut Chip8, x: u8, y: u8)
    requires
        old(chip)@.wf(),
        x < REGISTER_COUNT,
        y < REGISTER_COUNT,
    ensures
        final(chip)@ == old(chip)@.with_flagged(
            x as int,
            add8(old(chip)@.registers[x as int], old(chip)@.registers[y as int]),
            carry(old(chip)@.registers[x as int], old(chip)@.registers[y as int]),
        ),
{
    let sum = chip.register(x as usize) as u16 + chip.register(y as usize) as u16;
    chip.set_register(x as usize, (sum % 256) as u8);
    chip.set_register(FLAG_REGISTER, if sum > 255 { 1 } else { 0 });
}

/// 8xy5: Vx becomes Vx - Vy wrapped to 8 bits, then VF is 1 exactly when
/// Vx >= Vy before the subtraction (no borrow).
pub fn sub_vx_vy(chip: &mut Chip8, x: u8, y: u8)
    requires
        old(chip)@.wf(),
        x < REGISTER_COUNT,
        y < REGISTER_COUNT,
    ensures
        final(chip)@ == old(chip)@.with_flagged(
            x as int,
            sub8(old(chip)@.registers[x as int], old(chip)@.registers[y as int]),
            no_borrow(old(chip)@.registers[x as int], old(chip)@.registers[y as int]),
        ),
{
    let vx = chip.register(x as usize);
    let vy = chip.register(y as usize);
    chip.set_register(x as usize, ((vx as u16 + 256 - vy as u16) % 256) as u8);
    chip.set_register(FLAG_REGISTER, if vx >= vy { 1 } else { 0 });
}

/// 8xy6: Vx is shifted right by one, then VF holds the bit shifted out.
pub fn shr_vx_vy(chip: &mut Chip8, x: u8, y: u8)
    requires
        old(chip)@.wf(),
        x < REGISTER_COUNT,
        y < REGISTER_COUNT,
    ensures
        final(chip)@ == old(chip)@.with_flagged(
            x as int,
            old(chip)@.registers[x as int] / 2,
            old(chip)@.registers[x as int] % 2,
        ),
{
    let vx = chip.register(x as usize);
    chip.set_register(x as usize, vx / 2);
    chip.set_register(FLAG_REGISTER, vx % 2);
}

/// 8xy7: Vx becomes Vy - Vx wrapped to 8 bits, then VF is 1 exactly when
/// Vy >= Vx before the subtraction (no borrow).
pub fn subn_vx_vy(chip: &mut Chip8, x: u8, y: u8)
    requires
        old(chip)@.wf(),
        x < REGISTER_COUNT,
        y < REGISTER_COUNT,
    ensures
        final(chip)@ == old(chip)@.with_flagged(
            x as int,
            sub8(old(chip)@.registers[y as int], old(chip)@.registers[x as int]),
            no_borrow(old(chip)@.registers[y as int], old(chip)@.registers[x as int]),
        ),
{
    let vx = chip.register(x as usize);
    let vy = chip.register(y as usize);
    chip.set_register(x as usize, ((vy as u16 + 256 - vx as u16) % 256) as u8);
    chip.set_register(FLAG_REGISTER, if vy >= vx { 1 } else { 0 });
}

/// 8xyE: Vx is shifted left by one within 8 bits, then VF holds the bit
/// shifted out.
pub fn shl_vx_vy(chip: &mut Chip8, x: u8, y: u8)
    requires
        old(chip)@.wf(),
        x < REGISTER_COUNT,
        y < REGISTER_COUNT,
    ensures
        final(chip)@ == old(chip)@.with_flagged(
            x as int,
            add8(old(chip)@.registers[x as int], old(chip)@.registers[x as int]),
            old(chip)@.registers[x as int] / 128,
        ),
{
    let vx = chip.register(x as usize);
    chip.set_register(x as usize, ((vx as u16 * 2) % 256) as u8);
    chip.set_register(FLAG_REGISTER, vx / 128);
}

/// Annn: the address register becomes `nnn`.
pub fn annn(chip: &mut Chip8, nnn: u16)
    ensures
        final(chip)@ == old(chip)@.with_index(nnn & ADDRESS_MASK),
        final(chip)@.index_register <= ADDRESS_MASK,
{
    chip.set_index_register(nnn);
}

/// Bnnn: the program counter becomes `nnn` plus V0.
pub fn bnnn(chip: &mut Chip8, nnn: u16)
    requires
        old(chip)@.wf(),
        nnn <= ADDRESS_MASK,
    ensures
        final(chip)@ == old(chip)@.with_pc((nnn + old(chip)@.registers[0]) as u16),
{
    let v0 = chip.register(0) as u16;
    chip.set_program_counter(nnn + v0);
}

/// Cxkk: Vx becomes `random` AND `kk`, where `random` is a uniformly drawn byte.
pub fn cxkk(chip: &mut Chip8, x: u8, kk: u8, random: u8)
    requires
        old(chip)@.wf(),
        x < REGISTER_COUNT,
    ensures
        final(chip)@ == old(chip)@.with_register(x as int, random & kk),
{
    chip.set_register(x as usize, random & kk);
}

impl Instruction {
    /// Performs this instruction's state transition on `chip`, whose program
    /// counter already points past it. On an error nothing changes.
    pub fn execute(&self, chip: &mut Chip8, random: u8) -> (r: Result<(), Chip8Error>)
        requires
            handler_ready(old(chip)@),
            self.wf(),
        ensures
            final(chip)@.wf(),
            match executed(old(chip)@, *self, random) {
                Ok(t) => r is Ok && final(chip)@ == t,
                Err(e) => r == Err::<(), Chip8Error>(e) && final(chip)@ == old(chip)@,
            },
    {
        match *self {
            Instruction::ClearScreen => {},
            Instruction::Return => {
                return ret(chip);
            },
            Instruction::Jump { addr } => jp(chip, addr),
            Instruction::Call { addr } => {
                return call(chip, addr);
            },
            Instruction::SkipEqualByte { x, byte } => se_vx_byte(chip, x, byte),
            Instruction::SkipNotEqualByte { x, byte } => sne_vx_byte(chip, x, byte),
            Instruction::SkipEqualRegister { x, y } => se_vx_vy(chip, x, y),
            Instruction::LoadByte { x, byte } => ld_vx_byte(chip, x, byte),
            Instruction::AddByte { x, byte } => add_vx_byte(chip, x, byte),
            Instruction::Move { x, y } => ld_vx_vy(chip, x, y),
            Instruction::Or { x, y } => or_vx_vy(chip, x, y),
            Instruction::And { x, y } => and_vx_vy(chip, x, y),
            Instruction::Xor { x, y } => xor_vx_vy(chip, x, y),
            Instruction::AddRegister { x, y } => add_vx_vy(chip, x, y),
            Instruction::SubRegister { x, y } => sub_vx_vy(chip, x, y),
            Instruction::ShiftRight { x, y } => shr_vx_vy(chip, x, y),
            Instruction::SubReverse { x, y } => subn_vx_vy(chip, x, y),
            Instruction::ShiftLeft { x, y } => shl_vx_vy(chip, x, y),
            Instruction::SkipNotEqualRegister { x, y } => skip(chip, x, y),
            Instruction::SetIndex { addr } => annn(chip, addr),
            Instruction::JumpOffset { addr } => bnnn(chip, addr),
            Instruction::Random { x, byte } => cxkk(chip, x, byte, random),
        }
        Ok(())
    }
}

} // verus!
