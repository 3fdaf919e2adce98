//! The instruction set: the thirty-five instruction forms and how a 16-bit
//! word is read as one of them.
use vstd::prelude::*;
use vstd::arithmetic::div_mod::lemma_fundamental_div_mod_converse;
use crate::emulator::{CpuState, Emulator};
use crate::emulator::fault::Fault;
use crate::emulator::keypad::{Event, first_key_press, get_mapped_key, is_key_down};
use crate::emulator::random::random_byte;
use crate::emulator::semantics::{
    advance, next_state, outcome, wrapping_difference, wrapping_sum,
};

verus! {

/// One instruction. `x` and `y` name registers, `addr` is a 12-bit address,
/// `byte` an 8-bit operand and `n` a 4-bit operand.
#[derive(Clone, Copy, Debug, PartialEq, Eq, Structural)]
pub enum Instruction {
    /// `0NNN`: call of a host routine; does nothing.
    Sys { addr: u16 },
    /// `00E0`: clear the display.
    Cls,
    /// `00EE`: return from a subroutine.
    Ret,
    /// `1NNN`: jump to `addr`.
    Jp { addr: u16 },
    /// `2NNN`: call the subroutine at `addr`.
    Call { addr: u16 },
    /// `3XNN`: skip the next instruction if `Vx == byte`.
    SeByte { x: u8, byte: u8 },
    /// `4XNN`: skip the next instruction if `Vx != byte`.
    SneByte { x: u8, byte: u8 },
    /// `5XY0`: skip the next instruction if `Vx == Vy`.
    SeReg { x: u8, y: u8 },
    /// `6XNN`: `Vx = byte`.
    LdByte { x: u8, byte: u8 },
    /// `7XNN`: `Vx = Vx + byte`, wrapping, flag untouched.
    AddByte { x: u8, byte: u8 },
    /// `8XY0`: `Vx = Vy`.
    LdReg { x: u8, y: u8 },
    /// `8XY1`: `Vx = Vx | Vy`.
    Or { x: u8, y: u8 },
    /// `8XY2`: `Vx = Vx & Vy`.
    And { x: u8, y: u8 },
    /// `8XY3`: `Vx = Vx ^ Vy`.
    Xor { x: u8, y: u8 },
    /// `8XY4`: `Vx = Vx + Vy`, wrapping; `VF` = carry.
    AddReg { x: u8, y: u8 },
    /// `8XY5`: `Vx = Vx - Vy`, wrapping; `VF` = 1 if `Vx > Vy`.
    Sub { x: u8, y: u8 },
    /// `8XY6`: `Vx = Vx >> 1`; `VF` = the bit shifted out.
    Shr { x: u8, y: u8 },
    /// `8XY7`: `Vx = Vy - Vx`, wrapping; `VF` = 1 if `Vy > Vx`.
    Subn { x: u8, y: u8 },
    /// `8XYE`: `Vx = Vx << 1`, wrapping; `VF` = the bit shifted out.
    Shl { x: u8, y: u8 },
    /// `9XY0`: skip the next instruction if `Vx != Vy`.
    SneReg { x: u8, y: u8 },
    /// `ANNN`: `I = addr`.
    LdI { addr: u16 },
    /// `BNNN`: jump to `addr + V0`.
    JpV0 { addr: u16 },
    /// `CXNN`: `Vx` = a random byte `& byte`.
    Rnd { x: u8, byte: u8 },
    /// `DXYN`: draw the `n`-row sprite at `I` at (`Vx`, `Vy`); `VF` = collision.
    Drw { x: u8, y: u8, n: u8 },
    /// `EX9E`: skip the next instruction if the key of `Vx` is down.
    Skp { x: u8 },
    /// `EXA1`: skip the next instruction if the key of `Vx` is not down.
    Sknp { x: u8 },
    /// `FX07`: `Vx` = delay timer.
    LdVxDt { x: u8 },
    /// `FX0A`: wait for a key press, then `Vx` = its keypad value.
    LdKey { x: u8 },
    /// `FX15`: delay timer = `Vx`.
    LdDtVx { x: u8 },
    /// `FX18`: sound timer = `Vx`.
    LdStVx { x: u8 },
    /// `FX1E`: `I = I + Vx`, wrapping.
    AddI { x: u8 },
    /// `FX29`: `I` = address of the glyph for `Vx`.
    LdF { x: u8 },
    /// `FX33`: the decimal digits of `Vx` to memory at `I`, `I+1`, `I+2`.
    LdB { x: u8 },
    /// `FX55`: `V0..=Vx` to memory from `I` on.
    StoreRegs { x: u8 },
    /// `FX65`: `V0..=Vx` from memory from `I` on.
    LoadRegs { x: u8 },
}

impl Instruction {
    /// The operands are in range: registers below 16, addresses below
    /// 4096, a row count below 16; and a host call is at neither of the
    /// two addresses whose words clear the display and return.
    pub open spec fn well_formed(self) -> bool {
        match self {
            Instruction::Sys { addr } => addr < 4096 && addr != 0x0E0 && addr != 0x0EE,
            Instruction::Cls => true,
            Instruction::Ret => true,
            Instruction::Jp { addr } => addr < 4096,
            Instruction::Call { addr } => addr < 4096,
            Instruction::SeByte { x, byte } => x < 16,
            Instruction::SneByte { x, byte } => x < 16,
            Instruction::SeReg { x, y } => x < 16 && y < 16,
            Instruction::LdByte { x, byte } => x < 16,
            Instruction::AddByte { x, byte } => x < 16,
            Instruction::LdReg { x, y } => x < 16 && y < 16,
            Instruction::Or { x, y } => x < 16 && y < 16,
            Instruction::And { x, y } => x < 16 && y < 16,
            Instruction::Xor { x, y } => x < 16 && y < 16,
            Instruction::AddReg { x, y } => x < 16 && y < 16,
            Instruction::Sub { x, y } => x < 16 && y < 16,
            Instruction::Shr { x, y } => x < 16 && y < 16,
            Instruction::Subn { x, y } => x < 16 && y < 16,
            Instruction::Shl { x, y } => x < 16 && y < 16,
            Instruction::SneReg { x, y } => x < 16 && y < 16,
            Instruction::LdI { addr } => addr < 4096,
            Instruction::JpV0 { addr } => addr < 4096,
            Instruction::Rnd { x, byte } => x < 16,
            Instruction::Drw { x, y, n } => x < 16 && y < 16 && n < 16,
            Instruction::Skp { x } => x < 16,
            Instruction::Sknp { x } => x < 16,
            Instruction::LdVxDt { x } => x < 16,
            Instruction::LdKey { x } => x < 16,
            Instruction::LdDtVx { x } => x < 16,
            Instruction::LdStVx { x } => x < 16,
            Instruction::AddI { x } => x < 16,
            Instruction::LdF { x } => x < 16,
            Instruction::LdB { x } => x < 16,
            Instruction::StoreRegs { x } => x < 16,
            Instruction::LoadRegs { x } => x < 16,
        }
    }
}

impl Instruction {
    /// The 16-bit word that stands for the instruction.
    pub open spec fn encoding(self) -> int {
        match self {
            Instruction::Sys { addr } => addr as int,
            Instruction::Cls => 0x00E0,
            Instruction::Ret => 0x00EE,
            Instruction::Jp { addr } => 0x1000 + addr,
            Instruction::Call { addr } => 0x2000 + addr,
            Instruction::SeByte { x, byte } => 0x3000 + x * 256 + byte,
            Instruction::SneByte { x, byte } => 0x4000 + x * 256 + byte,
            Instruction::SeReg { x, y } => 0x5000 + x * 256 + y * 16,
            Instruction::LdByte { x, byte } => 0x6000 + x * 256 + byte,
            Instruction::AddByte { x, byte } => 0x7000 + x * 256 + byte,
            Instruction::LdReg { x, y } => 0x8000 + x * 256 + y * 16,
            Instruction::Or { x, y } => 0x8001 + x * 256 + y * 16,
            Instruction::And { x, y } => 0x8002 + x * 256 + y * 16,
            Instruction::Xor { x, y } => 0x8003 + x * 256 + y * 16,
            Instruction::AddReg { x, y } => 0x8004 + x * 256 + y * 16,
            Instruction::Sub { x, y } => 0x8005 + x * 256 + y * 16,
            Instruction::Shr { x, y } => 0x8006 + x * 256 + y * 16,
            Instruction::Subn { x, y } => 0x8007 + x * 256 + y * 16,
            Instruction::Shl { x, y } => 0x800E + x * 256 + y * 16,
            Instruction::SneReg { x, y } => 0x9000 + x * 256 + y * 16,
            Instruction::LdI { addr } => 0xA000 + addr,
            Instruction::JpV0 { addr } => 0xB000 + addr,
            Instruction::Rnd { x, byte } => 0xC000 + x * 256 + byte,
            Instruction::Drw { x, y, n } => 0xD000 + x * 256 + y * 16 + n,
            Instruction::Skp { x } => 0xE09E + x * 256,
            Instruction::Sknp { x } => 0xE0A1 + x * 256,
            Instruction::LdVxDt { x } => 0xF007 + x * 256,
            Instruction::LdKey { x } => 0xF00A + x * 256,
            Instruction::LdDtVx { x } => 0xF015 + x * 256,
            Instruction::LdStVx { x } => 0xF018 + x * 256,
            Instruction::AddI { x } => 0xF01E + x * 256,
            Instruction::LdF { x } => 0xF029 + x * 256,
            Instruction::LdB { x } => 0xF033 + x * 256,
            Instruction::StoreRegs { x } => 0xF055 + x * 256,
            Instruction::LoadRegs { x } => 0xF065 + x * 256,
        }
    }
}

/// The most significant nibble of an instruction word: its class.
pub open spec fn op_class(opcode: u16) -> int {
    opcode as int / 4096
}

/// The second nibble: the register operand `X`.
pub open spec fn op_x(opcode: u16) -> u8 {
    ((opcode as int / 256) % 16) as u8
}

/// The third nibble: the register operand `Y`.
pub open spec fn op_y(opcode: u16) -> u8 {
    ((opcode as int / 16) % 16) as u8
}

/// The last nibble: the 4-bit operand `N`.
pub open spec fn op_n(opcode: u16) -> u8 {
    (opcode as int % 16) as u8
}

/// The low byte: the 8-bit operand `NN`.
pub open spec fn op_nn(opcode: u16) -> u8 {
    (opcode as int % 256) as u8
}

/// The low twelve bits: the address operand `NNN`.
pub open spec fn op_nnn(opcode: u16) -> u16 {
    (opcode as int % 4096) as u16
}

/// The instruction that a word stands for, or `None` where it stands for
/// none.
pub open spec fn decode_spec(opcode: u16) -> Option<Instruction> {
    let x = op_x(opcode);
    let y = op_y(opcode);
    let n = op_n(opcode);
    let byte = op_nn(opcode);
    let addr = op_nnn(opcode);
    let class = op_class(opcode);
    if class == 0 {
        if opcode == 0x00E0 {
            Some(Instruction::Cls)
        } else if opcode == 0x00EE {
            Some(Instruction::Ret)
        } else {
            Some(Instruction::Sys { addr })
        }
    } else if class == 1 {
        Some(Instruction::Jp { addr })
    } else if class == 2 {
        Some(Instruction::Call { addr })
    } else if class == 3 {
        Some(Instruction::SeByte { x, byte })
    } else if class == 4 {
        Some(Instruction::SneByte { x, byte })
    } else if class == 5 {
        if n == 0 {
            Some(Instruction::SeReg { x, y })
        } else {
            None
        }
    } else if class == 6 {
        Some(Instruction::LdByte { x, byte })
    } else if class == 7 {
        Some(Instruction::AddByte { x, byte })
    } else if class == 8 {
        if n == 0 {
            Some(Instruction::LdReg { x, y })
        } else if n == 1 {
            Some(Instruction::Or { x, y })
        } else if n == 2 {
            Some(Instruction::And { x, y })
        } else if n == 3 {
            Some(Instruction::Xor { x, y })
        } else if n == 4 {
            Some(Instruction::AddReg { x, y })
        } else if n == 5 {
            Some(Instruction::Sub { x, y })
        } else if n == 6 {
            Some(Instruction::Shr { x, y })
        } else if n == 7 {
            Some(Instruction::Subn { x, y })
        } else if n == 0xE {
            Some(Instruction::Shl { x, y })
        } else {
            None
        }
    } else if class == 9 {
        if n == 0 {
            Some(Instruction::SneReg { x, y })
        } else {
            None
        }
    } else if class == 0xA {
        Some(Instruction::LdI { addr })
    } else if class == 0xB {
        Some(Instruction::JpV0 { addr })
    } else if class == 0xC {
        Some(Instruction::Rnd { x, byte })
    } else if class == 0xD {
        Some(Instruction::Drw { x, y, n })
    } else if class == 0xE {
        if byte == 0x9E {
            Some(Instruction::Skp { x })
        } else if byte == 0xA1 {
            Some(Instruction::Sknp { x })
        } else {
            None
        }
    } else {
        if byte == 0x07 {
            Some(Instruction::LdVxDt { x })
        } else if byte == 0x0A {
            Some(Instruction::LdKey { x })
        } else if byte == 0x15 {
            Some(Instruction::LdDtVx { x })
        } else if byte == 0x18 {
            Some(Instruction::LdStVx { x })
        } else if byte == 0x1E {
            Some(Instruction::AddI { x })
        } else if byte == 0x29 {
            Some(Instruction::LdF { x })
        } else if byte == 0x33 {
            Some(Instruction::LdB { x })
        } else if byte == 0x55 {
            Some(Instruction::StoreRegs { x })
        } else if byte == 0x65 {
            Some(Instruction::LoadRegs { x })
        } else {
            None
        }
    }
}

/// A word is made of its four nibbles, and its operands `NN` and `NNN` of
/// the last two and the last three.
pub proof fn lemma_word_is_its_nibbles(opcode: u16)
    ensures
        opcode == op_class(opcode) * 4096 + op_x(opcode) * 256 + op_y(opcode) * 16 + op_n(opcode),
        op_nn(opcode) == op_y(opcode) * 16 + op_n(opcode),
        op_nnn(opcode) == op_x(opcode) * 256 + op_y(opcode) * 16 + op_n(opcode),
        0 <= op_class(opcode) < 16,
        op_x(opcode) < 16,
        op_y(opcode) < 16,
        op_n(opcode) < 16,
{
}

/// The word made of four nibbles has them as its nibbles.
pub proof fn lemma_nibbles_of_word(class: int, x: int, y: int, n: int)
    requires
        0 <= class < 16,
        0 <= x < 16,
        0 <= y < 16,
        0 <= n < 16,
    ensures
        ({
            let opcode = (class * 4096 + x * 256 + y * 16 + n) as u16;
            &&& opcode == class * 4096 + x * 256 + y * 16 + n
            &&& op_class(opcode) == class
            &&& op_x(opcode) == x
            &&& op_y(opcode) == y
            &&& op_n(opcode) == n
            &&& op_nn(opcode) == y * 16 + n
            &&& op_nnn(opcode) == x * 256 + y * 16 + n
        }),
{
    let word = class * 4096 + x * 256 + y * 16 + n;
    lemma_fundamental_div_mod_converse(word, 4096, class, x * 256 + y * 16 + n);
    lemma_fundamental_div_mod_converse(word, 256, class * 16 + x, y * 16 + n);
    lemma_fundamental_div_mod_converse(class * 16 + x, 16, class, x);
    lemma_fundamental_div_mod_converse(word, 16, class * 256 + x * 16 + y, n);
    lemma_fundamental_div_mod_converse(class * 256 + x * 16 + y, 16, class * 16 + x, y);
}

/// The word made of a class and an address has them as its class and its
/// operand `NNN`.
pub proof fn lemma_address_word(class: int, addr: u16)
    requires
        0 <= class < 16,
        addr < 4096,
    ensures
        ({
            let opcode = (class * 4096 + addr) as u16;
            &&& opcode == class * 4096 + addr
            &&& op_class(opcode) == class
            &&& op_nnn(opcode) == addr
        }),
{
    lemma_fundamental_div_mod_converse(class * 4096 + addr, 4096, class, addr as int);
}

/// The word made of a class, a register and a byte has them as its class
/// and its operands `X` and `NN`.
pub proof fn lemma_byte_word(class: int, x: u8, byte: u8)
    requires
        0 <= class < 16,
        x < 16,
    ensures
        ({
            let opcode = (class * 4096 + x * 256 + byte) as u16;
            &&& opcode == class * 4096 + x * 256 + byte
            &&& op_class(opcode) == class
            &&& op_x(opcode) == x
            &&& op_nn(opcode) == byte
        }),
{
    let word = class * 4096 + x * 256 + byte;
    lemma_fundamental_div_mod_converse(word, 4096, class, x * 256 + byte);
    lemma_fundamental_div_mod_converse(word, 256, class * 16 + x, byte as int);
    lemma_fundamental_div_mod_converse(class * 16 + x, 16, class, x as int);
}

/// A word that is read as an instruction is the encoding of that
/// instruction, and the instruction is well formed.
pub proof fn lemma_encoding_inverts_decode(opcode: u16)
    ensures
        decode_spec(opcode) matches Some(instruction) ==> instruction.well_formed()
            && instruction.encoding() == opcode,
{
    lemma_word_is_its_nibbles(opcode);
}

/// The encoding of a well-formed instruction is a 16-bit word, and that
/// word is read as the instruction.
pub proof fn lemma_decode_inverts_encoding(instruction: Instruction)
    requires
        instruction.well_formed(),
    ensures
        0 <= instruction.encoding() <= 0xFFFF,
        decode_spec(instruction.encoding() as u16) == Some(instruction),
{
    match instruction {
        Instruction::Sys { addr } => lemma_address_word(0x0, addr),
        Instruction::Cls => {},
        Instruction::Ret => {},
        Instruction::Jp { addr } => lemma_address_word(0x1, addr),
        Instruction::Call { addr } => lemma_address_word(0x2, addr),
        Instruction::SeByte { x, byte } => lemma_byte_word(0x3, x, byte),
        Instruction::SneByte { x, byte } => lemma_byte_word(0x4, x, byte),
        Instruction::SeReg { x, y } => lemma_nibbles_of_word(0x5, x as int, y as int, 0x0),
        Instruction::LdByte { x, byte } => lemma_byte_word(0x6, x, byte),
        Instruction::AddByte { x, byte } => lemma_byte_word(0x7, x, byte),
        Instruction::LdReg { x, y } => lemma_nibbles_of_word(0x8, x as int, y as int, 0x0),
        Instruction::Or { x, y } => lemma_nibbles_of_word(0x8, x as int, y as int, 0x1),
        Instruction::And { x, y } => lemma_nibbles_of_word(0x8, x as int, y as int, 0x2),
        Instruction::Xor { x, y } => lemma_nibbles_of_word(0x8, x as int, y as int, 0x3),
        Instruction::AddReg { x, y } => lemma_nibbles_of_word(0x8, x as int, y as int, 0x4),
        Instruction::Sub { x, y } => lemma_nibbles_of_word(0x8, x as int, y as int, 0x5),
        Instruction::Shr { x, y } => lemma_nibbles_of_word(0x8, x as int, y as int, 0x6),
        Instruction::Subn { x, y } => lemma_nibbles_of_word(0x8, x as int, y as int, 0x7),
        Instruction::Shl { x, y } => lemma_nibbles_of_word(0x8, x as int, y as int, 0xE),
        Instruction::SneReg { x, y } => lemma_nibbles_of_word(0x9, x as int, y as int, 0x0),
        Instruction::LdI { addr } => lemma_address_word(0xA, addr),
        Instruction::JpV0 { addr } => lemma_address_word(0xB, addr),
        Instruction::Rnd { x, byte } => lemma_byte_word(0xC, x, byte),
        Instruction::Drw { x, y, n } => lemma_nibbles_of_word(0xD, x as int, y as int, n as int),
        Instruction::Skp { x } => lemma_byte_word(0xE, x, 0x9E),
        Instruction::Sknp { x } => lemma_byte_word(0xE, x, 0xA1),
        Instruction::LdVxDt { x } => lemma_byte_word(0xF, x, 0x07),
        Instruction::LdKey { x } => lemma_byte_word(0xF, x, 0x0A),
        Instruction::LdDtVx { x } => lemma_byte_word(0xF, x, 0x15),
        Instruction::LdStVx { x } => lemma_byte_word(0xF, x, 0x18),
        Instruction::AddI { x } => lemma_byte_word(0xF, x, 0x1E),
        Instruction::LdF { x } => lemma_byte_word(0xF, x, 0x29),
        Instruction::LdB { x } => lemma_byte_word(0xF, x, 0x33),
        Instruction::StoreRegs { x } => lemma_byte_word(0xF, x, 0x55),
        Instruction::LoadRegs { x } => lemma_byte_word(0xF, x, 0x65),
    }
}

/// Reads a 16-bit word as an instruction.
pub fn decode(opcode: u16) -> (instruction: Option<Instruction>)
    ensures
        instruction == decode_spec(opcode),
        instruction matches Some(i) ==> i.well_formed(),
{
    let class: u8 = (opcode >> 12) as u8;
    let x: u8 = ((opcode >> 8) & 0xF) as u8;
    let y: u8 = ((opcode >> 4) & 0xF) as u8;
    let n: u8 = (opcode & 0xF) as u8;
    let byte: u8 = (opcode & 0xFF) as u8;
    let addr: u16 = opcode & 0xFFF;
    assert(opcode >> 12 == opcode / 4096 && (opcode >> 12) < 16) by (bit_vector);
    assert((opcode >> 8) & 0xF == (opcode / 256) % 16) by (bit_vector);
    assert((opcode >> 4) & 0xF == (opcode / 16) % 16) by (bit_vector);
    assert(opcode & 0xF == opcode % 16) by (bit_vector);
    assert(opcode & 0xFF == opcode % 256) by (bit_vector);
    assert(opcode & 0xFFF == opcode % 4096) by (bit_vector);
    match class {
        0x0 => {
            if opcode == 0x00E0 {
                Some(Instruction::Cls)
            } else if opcode == 0x00EE {
                Some(Instruction::Ret)
            } else {
                Some(Instruction::Sys { addr })
            }
        },
        0x1 => Some(Instruction::Jp { addr }),
        0x2 => Some(Instruction::Call { addr }),
        0x3 => Some(Instruction::SeByte { x, byte }),
        0x4 => Some(Instruction::SneByte { x, byte }),
        0x5 => match n {
            0x0 => Some(Instruction::SeReg { x, y }),
            _ => None,
        },
        0x6 => Some(Instruction::LdByte { x, byte }),
        0x7 => Some(Instruction::AddByte { x, byte }),
        0x8 => match n {
            0x0 => Some(Instruction::LdReg { x, y }),
            0x1 => Some(Instruction::Or { x, y }),
            0x2 => Some(Instruction::And { x, y }),
            0x3 => Some(Instruction::Xor { x, y }),
            0x4 => Some(Instruction::AddReg { x, y }),
            0x5 => Some(Instruction::Sub { x, y }),
            0x6 => Some(Instruction::Shr { x, y }),
            0x7 => Some(Instruction::Subn { x, y }),
            0xE => Some(Instruction::Shl { x, y }),
            _ => None,
        },
        0x9 => match n {
            0x0 => Some(Instruction::SneReg { x, y }),
            _ => None,
        },
        0xA => Some(Instruction::LdI { addr }),
        0xB => Some(Instruction::JpV0 { addr }),
        0xC => Some(Instruction::Rnd { x, byte }),
        0xD => Some(Instruction::Drw { x, y, n }),
        0xE => match byte {
            0x9E => Some(Instruction::Skp { x }),
            0xA1 => Some(Instruction::Sknp { x }),
            _ => None,
        },
        _ => match byte {
            0x07 => Some(Instruction::LdVxDt { x }),
            0x0A => Some(Instruction::LdKey { x }),
            0x15 => Some(Instruction::LdDtVx { x }),
            0x18 => Some(Instruction::LdStVx { x }),
            0x1E => Some(Instruction::AddI { x }),
            0x29 => Some(Instruction::LdF { x }),
            0x33 => Some(Instruction::LdB { x }),
            0x55 => Some(Instruction::StoreRegs { x }),
            0x65 => Some(Instruction::LoadRegs { x }),
            _ => None,
        },
    }
}

/// The program counter one instruction further on.
pub fn advance_pc(pc: u16) -> (next: u16)
    ensures
        next == advance(pc),
{
    ((pc as u32 + 2) % 4095) as u16
}

/// `a + b` in eight bits.
fn add_wrapping(a: u8, b: u8) -> (sum: u8)
    ensures
        sum == wrapping_sum(a, b),
{
    let wide: u16 = a as u16 + b as u16;
    if wide > 255 {
        (wide - 256) as u8
    } else {
        wide as u8
    }
}

/// `a - b` in eight bits.
fn sub_wrapping(a: u8, b: u8) -> (difference: u8)
    ensures
        difference == wrapping_difference(a, b),
{
    if a >= b {
        a - b
    } else {
        (256 - (b - a) as u16) as u8
    }
}

impl Emulator {
    /// Puts `value` in register `x`.
    fn set_register(&mut self, x: u8, value: u8)
        requires
            old(self).well_formed(),
            x < 16,
        ensures
            final(self).well_formed(),
            final(self)@ == old(self)@.set_reg(x, value),
    {
        self.cpu.registers[x as usize] = value;
    }

    /// Puts `value` in register `x` and then `flag` in `VF`.
    fn set_register_and_flag(&mut self, x: u8, value: u8, flag: u8)
        requires
            old(self).well_formed(),
            x < 16,
        ensures
            final(self).well_formed(),
            final(self)@ == old(self)@.set_reg_and_flag(x, value, flag),
    {
        self.cpu.registers[x as usize] = value;
        self.cpu.registers[15] = flag;
    }

    /// Skips the next instruction if `condition` holds.
    fn skip_if(&mut self, condition: bool)
        requires
            old(self).well_formed(),
        ensures
            final(self).well_formed(),
            final(self)@ == old(self)@.skip_if(condition),
    {
        if condition {
            self.cpu.PC = ((self.cpu.PC as u32 + 2) % 0x1_0000) as u16;
        }
    }

    /// Copies `V0..=Vx` to memory from the address register on.
    fn store_registers(&mut self, x: u8)
        requires
            old(self).well_formed(),
            x < 16,
            old(self).cpu.VI + x + 1 <= 4096,
        ensures
            final(self).well_formed(),
            final(self)@ == next_state(
                old(self)@,
                Instruction::StoreRegs { x },
                Seq::<Event>::empty(),
                0,
            ),
    {
        let base: usize = self.cpu.VI as usize;
        let mut i: usize = 0;
        while i <= x as usize
            invariant
                i <= x + 1,
                x < 16,
                base == old(self).cpu.VI,
                base + x + 1 <= 4096,
                self.well_formed(),
                self.cpu == old(self).cpu,
                self.screen == old(self).screen,
                self.program_size == old(self).program_size,
                self.running == old(self).running,
                forall|addr: int|
                    0 <= addr < 4096 ==> #[trigger] self.memory@[addr] == if base <= addr < base
                        + i {
                        old(self).cpu.registers@[addr - base]
                    } else {
                        old(self).memory@[addr]
                    },
            decreases x + 1 - i,
        {
            self.memory[base + i] = self.cpu.registers[i];
            i += 1;
        }
        assert(self@.memory =~= next_state(
            old(self)@,
            Instruction::StoreRegs { x },
            Seq::<Event>::empty(),
            0,
        ).memory);
    }

    /// Fills `V0..=Vx` from memory from the address register on.
    fn load_registers(&mut self, x: u8)
        requires
            old(self).well_formed(),
            x < 16,
            old(self).cpu.VI + x + 1 <= 4096,
        ensures
            final(self).well_formed(),
            final(self)@ == next_state(
                old(self)@,
                Instruction::LoadRegs { x },
                Seq::<Event>::empty(),
                0,
            ),
    {
        let base: usize = self.cpu.VI as usize;
        let mut i: usize = 0;
        while i <= x as usize
            invariant
                i <= x + 1,
                x < 16,
                base == old(self).cpu.VI,
                base + x + 1 <= 4096,
                self.well_formed(),
                self.memory == old(self).memory,
                self.screen == old(self).screen,
                self.program_size == old(self).program_size,
                self.running == old(self).running,
                self.cpu.VI == old(self).cpu.VI,
                self.cpu.stack == old(self).cpu.stack,
                self.cpu.timer == old(self).cpu.timer,
                self.cpu.PC == old(self).cpu.PC,
                self.cpu.SP == old(self).cpu.SP,
                self.cpu.state == old(self).cpu.state,
                forall|j: int|
                    0 <= j < 16 ==> #[trigger] self.cpu.registers@[j] == if j < i {
                        old(self).memory@[base + j]
                    } else {
                        old(self).cpu.registers@[j]
                    },
            decreases x + 1 - i,
        {
            self.cpu.registers[i] = self.memory[base + i];
            i += 1;
        }
        assert(self@.cpu.registers =~= next_state(
            old(self)@,
            Instruction::LoadRegs { x },
            Seq::<Event>::empty(),
            0,
        ).cpu.registers);
    }

    /// Clears the display.
    fn execute_cls(&mut self)
        requires
            old(self).well_formed(),
        ensures
            final(self).well_formed(),
            final(self)@ == next_state(old(self)@, Instruction::Cls, Seq::<Event>::empty(), 0),
    {
        self.screen.clear();
    }

    /// Returns from a subroutine.
    fn execute_ret(&mut self) -> (result: Result<(), Fault>)
        requires
            old(self).well_formed(),
        ensures
            final(self).well_formed(),
            final(self)@ == next_state(old(self)@, Instruction::Ret, Seq::<Event>::empty(), 0),
            result == outcome(old(self)@, Instruction::Ret),
    {
        if self.cpu.SP == 0 {
            return Err(Fault::StackUnderflow);
        }
        self.cpu.PC = self.cpu.stack[self.cpu.SP as usize];
        self.cpu.SP = self.cpu.SP - 1;
        Ok(())
    }

    /// Calls the subroutine at `addr`.
    fn execute_call(&mut self, addr: u16) -> (result: Result<(), Fault>)
        requires
            old(self).well_formed(),
        ensures
            final(self).well_formed(),
            final(self)@ == next_state(
                old(self)@,
                Instruction::Call { addr },
                Seq::<Event>::empty(),
                0,
            ),
            result == outcome(old(self)@, Instruction::Call { addr }),
    {
        if self.cpu.SP >= 15 {
            return Err(Fault::StackOverflow);
        }
        self.cpu.SP = self.cpu.SP + 1;
        self.cpu.stack[self.cpu.SP as usize] = self.cpu.PC;
        self.cpu.PC = addr;
        Ok(())
    }

    /// Jumps to `addr`, or to `addr + V0`.
    fn execute_jump(&mut self, instruction: Instruction)
        requires
            old(self).well_formed(),
            instruction.well_formed(),
            instruction is Jp || instruction is JpV0,
        ensures
            final(self).well_formed(),
            final(self)@ == next_state(old(self)@, instruction, Seq::<Event>::empty(), 0),
    {
        match instruction {
            Instruction::Jp { addr } => {
                self.cpu.PC = addr;
            },
            Instruction::JpV0 { addr } => {
                self.cpu.PC = addr + self.cpu.registers[0] as u16;
            },
            _ => {},
        }
    }

    /// The conditional skips.
    fn execute_skip(&mut self, instruction: Instruction, key_event_triggered: &Vec<Event>)
        requires
            old(self).well_formed(),
            instruction.well_formed(),
            instruction is SeByte || instruction is SneByte || instruction is SeReg
                || instruction is SneReg || instruction is Skp || instruction is Sknp,
        ensures
            final(self).well_formed(),
            final(self)@ == next_state(old(self)@, instruction, key_event_triggered@, 0),
    {
        match instruction {
            Instruction::SeByte { x, byte } => {
                let vx = self.cpu.registers[x as usize];
                self.skip_if(vx == byte);
            },
            Instruction::SneByte { x, byte } => {
                let vx = self.cpu.registers[x as usize];
                self.skip_if(vx != byte);
            },
            Instruction::SeReg { x, y } => {
                let vx = self.cpu.registers[x as usize];
                let vy = self.cpu.registers[y as usize];
                self.skip_if(vx == vy);
            },
            Instruction::SneReg { x, y } => {
                let vx = self.cpu.registers[x as usize];
                let vy = self.cpu.registers[y as usize];
                self.skip_if(vx != vy);
            },
            Instruction::Skp { x } => {
                let vx = self.cpu.registers[x as usize];
                let down = is_key_down(key_event_triggered, get_mapped_key(vx));
                self.skip_if(down);
            },
            Instruction::Sknp { x } => {
                let vx = self.cpu.registers[x as usize];
                let down = is_key_down(key_event_triggered, get_mapped_key(vx));
                self.skip_if(!down);
            },
            _ => {},
        }
    }

    /// The instructions that compute a register from registers and
    /// operands, without a flag.
    fn execute_load(&mut self, instruction: Instruction, random: u8)
        requires
            old(self).well_formed(),
            instruction.well_formed(),
            instruction is LdByte || instruction is AddByte || instruction is LdReg
                || instruction is Or || instruction is And || instruction is Xor
                || instruction is Rnd || instruction is LdVxDt,
        ensures
            final(self).well_formed(),
            final(self)@ == next_state(old(self)@, instruction, Seq::<Event>::empty(), random),
    {
        match instruction {
            Instruction::LdByte { x, byte } => {
                self.set_register(x, byte);
            },
            Instruction::AddByte { x, byte } => {
                let vx = self.cpu.registers[x as usize];
                self.set_register(x, add_wrapping(vx, byte));
            },
            Instruction::LdReg { x, y } => {
                let vy = self.cpu.registers[y as usize];
                self.set_register(x, vy);
            },
            Instruction::Or { x, y } => {
                let vx = self.cpu.registers[x as usize];
                let vy = self.cpu.registers[y as usize];
                self.set_register(x, vx | vy);
            },
            Instruction::And { x, y } => {
                let vx = self.cpu.registers[x as usize];
                let vy = self.cpu.registers[y as usize];
                self.set_register(x, vx & vy);
            },
            Instruction::Xor { x, y } => {
                let vx = self.cpu.registers[x as usize];
                let vy = self.cpu.registers[y as usize];
                self.set_register(x, vx ^ vy);
            },
            Instruction::Rnd { x, byte } => {
                self.set_register(x, random & byte);
            },
            Instruction::LdVxDt { x } => {
                let dt = self.cpu.timer.DT;
                self.set_register(x, dt);
            },
            _ => {},
        }
    }

    /// The arithmetic that sets the flag register.
    fn execute_flagged(&mut self, instruction: Instruction)
        requires
            old(self).well_formed(),
            instruction.well_formed(),
            instruction is AddReg || instruction is Sub || instruction is Shr
                || instruction is Subn || instruction is Shl,
        ensures
            final(self).well_formed(),
            final(self)@ == next_state(old(self)@, instruction, Seq::<Event>::empty(), 0),
    {
        match instruction {
            Instruction::AddReg { x, y } => {
                let vx = self.cpu.registers[x as usize];
                let vy = self.cpu.registers[y as usize];
                let carry: u8 = if vx as u16 + vy as u16 > 255 {
                    1
                } else {
                    0
                };
                self.set_register_and_flag(x, add_wrapping(vx, vy), carry);
            },
            Instruction::Sub { x, y } => {
                let vx = self.cpu.registers[x as usize];
                let vy = self.cpu.registers[y as usize];
                let no_borrow: u8 = if vx > vy {
                    1
                } else {
                    0
                };
                self.set_register_and_flag(x, sub_wrapping(vx, vy), no_borrow);
            },
            Instruction::Shr { x, y } => {
                let vx = self.cpu.registers[x as usize];
                self.set_register_and_flag(x, vx / 2, vx % 2);
            },
            Instruction::Subn { x, y } => {
                let vx = self.cpu.registers[x as usize];
                let vy = self.cpu.registers[y as usize];
                let no_borrow: u8 = if vy > vx {
                    1
                } else {
                    0
                };
                self.set_register_and_flag(x, sub_wrapping(vy, vx), no_borrow);
            },
            Instruction::Shl { x, y } => {
                let vx = self.cpu.registers[x as usize];
                self.set_register_and_flag(x, add_wrapping(vx, vx), vx / 128);
            },
            _ => {},
        }
    }

    /// The instructions that set the address register or a timer.
    fn execute_special(&mut self, instruction: Instruction)
        requires
            old(self).well_formed(),
            instruction.well_formed(),
            instruction is LdI || instruction is AddI || instruction is LdF
                || instruction is LdDtVx || instruction is LdStVx,
        ensures
            final(self).well_formed(),
            final(self)@ == next_state(old(self)@, instruction, Seq::<Event>::empty(), 0),
    {
        match instruction {
            Instruction::LdI { addr } => {
                self.cpu.VI = addr;
            },
            Instruction::AddI { x } => {
                let sum: u32 = self.cpu.VI as u32 + self.cpu.registers[x as usize] as u32;
                self.cpu.VI = (sum % 0x1_0000) as u16;
            },
            Instruction::LdF { x } => {
                self.cpu.VI = self.cpu.registers[x as usize] as u16 * 5;
            },
            Instruction::LdDtVx { x } => {
                self.cpu.timer.DT = self.cpu.registers[x as usize];
            },
            Instruction::LdStVx { x } => {
                self.cpu.timer.ST = self.cpu.registers[x as usize];
            },
            _ => {},
        }
    }

    /// The instructions that read or write memory through the address
    /// register.
    fn execute_memory(&mut self, instruction: Instruction) -> (result: Result<(), Fault>)
        requires
            old(self).well_formed(),
            instruction.well_formed(),
            instruction is LdB || instruction is StoreRegs || instruction is LoadRegs,
        ensures
            final(self).well_formed(),
            final(self)@ == next_state(old(self)@, instruction, Seq::<Event>::empty(), 0),
            result == outcome(old(self)@, instruction),
    {
        match instruction {
            Instruction::LdB { x } => {
                let at: usize = self.cpu.VI as usize;
                if at + 3 > 4096 {
                    return Err(Fault::AddressOutOfRange);
                }
                let value = self.cpu.registers[x as usize];
                self.memory[at] = value / 100;
                self.memory[at + 1] = (value / 10) % 10;
                self.memory[at + 2] = value % 10;
            },
            Instruction::StoreRegs { x } => {
                if self.cpu.VI as usize + x as usize + 1 > 4096 {
                    return Err(Fault::AddressOutOfRange);
                }
                self.store_registers(x);
            },
            Instruction::LoadRegs { x } => {
                if self.cpu.VI as usize + x as usize + 1 > 4096 {
                    return Err(Fault::AddressOutOfRange);
                }
                self.load_registers(x);
            },
            _ => {},
        }
        Ok(())
    }

    /// The draw instruction.
    fn execute_draw(&mut self, x: u8, y: u8, n: u8) -> (result: Result<(), Fault>)
        requires
            old(self).well_formed(),
            x < 16,
            y < 16,
            n < 16,
        ensures
            final(self).well_formed(),
            final(self)@ == next_state(
                old(self)@,
                Instruction::Drw { x, y, n },
                Seq::<Event>::empty(),
                0,
            ),
            result == outcome(old(self)@, Instruction::Drw { x, y, n }),
    {
        let vx = self.cpu.registers[x as usize];
        let vy = self.cpu.registers[y as usize];
        let drawn = self.screen.xor_sprite(
            self.memory.as_slice(),
            self.cpu.VI as usize,
            (vx, vy),
            n,
        );
        match drawn {
            Ok(collision) => {
                self.cpu.registers[15] = collision;
                Ok(())
            },
            Err(fault) => Err(fault),
        }
    }

    /// Gives the first key press among the events, if there is one, to
    /// register `x` and lets the processor run; with none, the processor
    /// waits.
    pub(crate) fn take_key(&mut self, x: u8, key_event_triggered: &Vec<Event>)
        requires
            old(self).well_formed(),
            x < 16,
        ensures
            final(self).well_formed(),
            final(self)@ == old(self)@.take_key(x, key_event_triggered@),
    {
        match first_key_press(key_event_triggered) {
            Some(key) => {
                self.cpu.registers[x as usize] = key;
                self.cpu.state = CpuState::Running;
            },
            None => {
                self.cpu.state = CpuState::WaitingForKey { register: x };
            },
        }
    }

    /// Executes one decoded instruction. The program counter is taken to
    /// be past the instruction already; `random` is the byte that a random
    /// draw gives. An instruction that faults changes nothing, and the
    /// fault is returned.
    pub fn execute_instruction(
        &mut self,
        instruction: Instruction,
        key_event_triggered: &Vec<Event>,
        random: u8,
    ) -> (result: Result<(), Fault>)
        requires
            old(self).well_formed(),
            instruction.well_formed(),
        ensures
            final(self).well_formed(),
            final(self)@ == next_state(old(self)@, instruction, key_event_triggered@, random),
            result == outcome(old(self)@, instruction),
    {
        match instruction {
            Instruction::Sys { .. } => Ok(()),
            Instruction::Cls => {
                self.execute_cls();
                Ok(())
            },
            Instruction::Ret => self.execute_ret(),
            Instruction::Call { addr } => self.execute_call(addr),
            Instruction::Jp { .. } | Instruction::JpV0 { .. } => {
                self.execute_jump(instruction);
                Ok(())
            },
            Instruction::SeByte { .. }
            | Instruction::SneByte { .. }
            | Instruction::SeReg { .. }
            | Instruction::SneReg { .. }
            | Instruction::Skp { .. }
            | Instruction::Sknp { .. } => {
                self.execute_skip(instruction, key_event_triggered);
                Ok(())
            },
            Instruction::LdByte { .. }
            | Instruction::AddByte { .. }
            | Instruction::LdReg { .. }
            | Instruction::Or { .. }
            | Instruction::And { .. }
            | Instruction::Xor { .. }
            | Instruction::Rnd { .. }
            | Instruction::LdVxDt { .. } => {
                self.execute_load(instruction, random);
                Ok(())
            },
            Instruction::AddReg { .. }
            | Instruction::Sub { .. }
            | Instruction::Shr { .. }
            | Instruction::Subn { .. }
            | Instruction::Shl { .. } => {
                self.execute_flagged(instruction);
                Ok(())
            },
            Instruction::LdI { .. }
            | Instruction::AddI { .. }
            | Instruction::LdF { .. }
            | Instruction::LdDtVx { .. }
            | Instruction::LdStVx { .. } => {
                self.execute_special(instruction);
                Ok(())
            },
            Instruction::LdB { .. }
            | Instruction::StoreRegs { .. }
            | Instruction::LoadRegs { .. } => self.execute_memory(instruction),
            Instruction::Drw { x, y, n } => self.execute_draw(x, y, n),
            Instruction::LdKey { x } => {
                self.take_key(x, key_event_triggered);
                Ok(())
            },
        }
    }

    /// Decodes and executes one instruction word. The program counter is
    /// taken to be past the word already. A word that is no instruction
    /// changes nothing and is returned as a fault. The instruction `CXNN`
    /// draws a random byte; the state after it is that of
    /// [`Emulator::execute_instruction`] for some byte.
    pub fn execute(&mut self, opcode: u16, key_event_triggered: Vec<Event>) -> (result: Result<
        (),
        Fault,
    >)
        requires
            old(self).well_formed(),
        ensures
            final(self).well_formed(),
            match decode_spec(opcode) {
                None => *final(self) == *old(self) && result == Err::<(), Fault>(
                    Fault::UnknownOpcode(opcode),
                ),
                Some(instruction) => {
                    &&& exists|random: u8|
                        final(self)@ == #[trigger] next_state(
                            old(self)@,
                            instruction,
                            key_event_triggered@,
                            random,
                        )
                    &&& instruction !is Rnd ==> final(self)@ == next_state(
                        old(self)@,
                        instruction,
                        key_event_triggered@,
                        0,
                    )
                    &&& result == outcome(old(self)@, instruction)
                },
            },
    {
        match decode(opcode) {
            None => Err(Fault::UnknownOpcode(opcode)),
            Some(instruction) => {
                let random: u8 = match instruction {
                    Instruction::Rnd { .. } => random_byte(),
                    _ => 0,
                };
                self.execute_instruction(instruction, &key_event_triggered, random)
            },
        }
    }
}

} // verus!
