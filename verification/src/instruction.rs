//! Instruction words: their operand fields and their decoding into a
//! tagged variant.

use vstd::prelude::*;

verus! {

/// The operation selected by the low nibble of a register-register word.
#[derive(Clone, Copy, Debug, PartialEq, Eq, Structural)]
pub enum AluOp {
    /// `Vx = Vy`
    Assign,
    /// `Vx = Vx | Vy`
    Or,
    /// `Vx = Vx & Vy`
    And,
    /// `Vx = Vx ^ Vy`
    Xor,
    /// `Vx = Vx + Vy`, carry in `VF`
    Add,
    /// `Vx = Vx - Vy`, no-borrow in `VF`
    Sub,
    /// `Vx = Vx >> 1`, shifted-out bit in `VF`
    ShiftRight,
    /// `Vx = Vy - Vx`, no-borrow in `VF`
    SubFrom,
    /// `Vx = Vx << 1`, shifted-out bit in `VF`
    ShiftLeft,
}

/// One decoded instruction. Register operands are indices into `V0..VF`.
#[derive(Clone, Copy, Debug, PartialEq, Eq, Structural)]
pub enum Instruction {
    /// `00E0`: clear the framebuffer.
    ClearScreen,
    /// `00EE`: return from a subroutine.
    Return,
    /// `1nnn`: jump to `addr`.
    Jump { addr: u16 },
    /// `2nnn`: call the subroutine at `addr`.
    Call { addr: u16 },
    /// `3xnn`: skip the next instruction if `Vx == byte`.
    SkipIfEqual { x: u8, byte: u8 },
    /// `4xnn`: skip the next instruction if `Vx != byte`.
    SkipIfNotEqual { x: u8, byte: u8 },
    /// `5xy_`: skip the next instruction if `Vx == Vy`.
    SkipIfRegistersEqual { x: u8, y: u8 },
    /// `6xnn`: `Vx = byte`.
    Load { x: u8, byte: u8 },
    /// `7xnn`: `Vx = Vx + byte` modulo 256, flag untouched.
    AddByte { x: u8, byte: u8 },
    /// `8xy_`: register-register arithmetic and logic.
    Alu { op: AluOp, x: u8, y: u8 },
    /// `9xy_`: skip the next instruction if `Vx != Vy`.
    SkipIfRegistersNotEqual { x: u8, y: u8 },
    /// `Annn`: `I = addr`.
    LoadIndex { addr: u16 },
    /// `Bnnn`: jump to `addr + V0`.
    JumpOffset { addr: u16 },
    /// `Cxnn`: `Vx = random byte & mask`.
    Random { x: u8, mask: u8 },
    /// `Dxyn`: draw a sprite of `rows` bytes from `I` at `(Vx, Vy)`.
    Draw { x: u8, y: u8, rows: u8 },
    /// `Ex9E`: skip the next instruction if key `Vx` is down.
    SkipIfKeyDown { x: u8 },
    /// `ExA1`: skip the next instruction if key `Vx` is not down.
    SkipIfKeyUp { x: u8 },
    /// `Fx07`: `Vx = delay timer`.
    ReadDelay { x: u8 },
    /// `Fx0A`: wait for a key and store its index in `Vx`.
    WaitKey { x: u8 },
    /// `Fx15`: `delay timer = Vx`.
    SetDelay { x: u8 },
    /// `Fx18`: `sound timer = Vx`.
    SetSound { x: u8 },
    /// `Fx1E`: `I = I + Vx`, range overflow in `VF`.
    AddIndex { x: u8 },
    /// `Fx33`: store the three decimal digits of `Vx` at `I`, `I+1`, `I+2`.
    StoreDigits { x: u8 },
    /// `Fx55`: store `V0..=Vx` in memory from `I` on.
    StoreRegisters { x: u8 },
    /// `Fx65`: load `V0..=Vx` from memory from `I` on.
    LoadRegisters { x: u8 },
    /// Any other word; executing it changes nothing.
    Unknown { word: u16 },
}

/// The operand fields of an instruction word.
#[derive(Clone, Copy, Debug, PartialEq, Eq, Structural)]
pub struct Operands {
    /// Second nibble: a register index.
    pub x: u8,
    /// Third nibble: a register index.
    pub y: u8,
    /// Lowest nibble.
    pub n: u8,
    /// Low byte.
    pub nn: u8,
    /// Low twelve bits: an address.
    pub nnn: u16,
}

/// The highest nibble of `word`, which selects the instruction class.
pub open spec fn class_of(word: u16) -> u8 {
    (word / 4096) as u8
}

/// The fields of `word`, by position.
pub open spec fn operands_of(word: u16) -> Operands {
    Operands {
        x: ((word / 256) % 16) as u8,
        y: ((word / 16) % 16) as u8,
        n: (word % 16) as u8,
        nn: (word % 256) as u8,
        nnn: word % 4096,
    }
}

/// The operation that the low nibble `n` selects in class 8, if any.
pub open spec fn alu_op_of(n: u8) -> Option<AluOp> {
    if n == 0 {
        Some(AluOp::Assign)
    } else if n == 1 {
        Some(AluOp::Or)
    } else if n == 2 {
        Some(AluOp::And)
    } else if n == 3 {
        Some(AluOp::Xor)
    } else if n == 4 {
        Some(AluOp::Add)
    } else if n == 5 {
        Some(AluOp::Sub)
    } else if n == 6 {
        Some(AluOp::ShiftRight)
    } else if n == 7 {
        Some(AluOp::SubFrom)
    } else if n == 14 {
        Some(AluOp::ShiftLeft)
    } else {
        None
    }
}

/// The instruction that `word` encodes. The class is the high nibble;
/// classes 0, 8, E and F are told apart further by the low bits. The
/// definition is opaque; `reveal(decode_of)` unfolds it.
#[verifier::opaque]
pub open spec fn decode_of(word: u16) -> Instruction {
    let f = operands_of(word);
    let class = class_of(word);
    if class == 0 {
        if word == 0x00E0 {
            Instruction::ClearScreen
        } else if word == 0x00EE {
            Instruction::Return
        } else {
            Instruction::Unknown { word }
        }
    } else if class == 1 {
        Instruction::Jump { addr: f.nnn }
    } else if class == 2 {
        Instruction::Call { addr: f.nnn }
    } else if class == 3 {
        Instruction::SkipIfEqual { x: f.x, byte: f.nn }
    } else if class == 4 {
        Instruction::SkipIfNotEqual { x: f.x, byte: f.nn }
    } else if class == 5 {
        Instruction::SkipIfRegistersEqual { x: f.x, y: f.y }
    } else if class == 6 {
        Instruction::Load { x: f.x, byte: f.nn }
    } else if class == 7 {
        Instruction::AddByte { x: f.x, byte: f.nn }
    } else if class == 8 {
        match alu_op_of(f.n) {
            Some(op) => Instruction::Alu { op, x: f.x, y: f.y },
            None => Instruction::Unknown { word },
        }
    } else if class == 9 {
        Instruction::SkipIfRegistersNotEqual { x: f.x, y: f.y }
    } else if class == 10 {
        Instruction::LoadIndex { addr: f.nnn }
    } else if class == 11 {
        Instruction::JumpOffset { addr: f.nnn }
    } else if class == 12 {
        Instruction::Random { x: f.x, mask: f.nn }
    } else if class == 13 {
        Instruction::Draw { x: f.x, y: f.y, rows: f.n }
    } else if class == 14 {
        if f.nn == 0x9E {
            Instruction::SkipIfKeyDown { x: f.x }
        } else if f.nn == 0xA1 {
            Instruction::SkipIfKeyUp { x: f.x }
        } else {
            Instruction::Unknown { word }
        }
    } else {
        if f.nn == 0x07 {
            Instruction::ReadDelay { x: f.x }
        } else if f.nn == 0x0A {
            Instruction::WaitKey { x: f.x }
        } else if f.nn == 0x15 {
            Instruction::SetDelay { x: f.x }
        } else if f.nn == 0x18 {
            Instruction::SetSound { x: f.x }
        } else if f.nn == 0x1E {
            Instruction::AddIndex { x: f.x }
        } else if f.nn == 0x33 {
            Instruction::StoreDigits { x: f.x }
        } else if f.nn == 0x55 {
            Instruction::StoreRegisters { x: f.x }
        } else if f.nn == 0x65 {
            Instruction::LoadRegisters { x: f.x }
        } else {
            Instruction::Unknown { word }
        }
    }
}

impl Instruction {
    /// Register operands name one of the sixteen registers, a sprite has at
    /// most fifteen rows, and addresses fit in twelve bits.
    pub open spec fn wf(self) -> bool {
        match self {
            Instruction::ClearScreen => true,
            Instruction::Return => true,
            Instruction::Jump { addr } => addr < 4096,
            Instruction::Call { addr } => addr < 4096,
            Instruction::SkipIfEqual { x, byte } => x < 16,
            Instruction::SkipIfNotEqual { x, byte } => x < 16,
            Instruction::SkipIfRegistersEqual { x, y } => x < 16 && y < 16,
            Instruction::Load { x, byte } => x < 16,
            Instruction::AddByte { x, byte } => x < 16,
            Instruction::Alu { op, x, y } => x < 16 && y < 16,
            Instruction::SkipIfRegistersNotEqual { x, y } => x < 16 && y < 16,
            Instruction::LoadIndex { addr } => addr < 4096,
            Instruction::JumpOffset { addr } => addr < 4096,
            Instruction::Random { x, mask } => x < 16,
            Instruction::Draw { x, y, rows } => x < 16 && y < 16 && rows < 16,
            Instruction::SkipIfKeyDown { x } => x < 16,
            Instruction::SkipIfKeyUp { x } => x < 16,
            Instruction::ReadDelay { x } => x < 16,
            Instruction::WaitKey { x } => x < 16,
            Instruction::SetDelay { x } => x < 16,
            Instruction::SetSound { x } => x < 16,
            Instruction::AddIndex { x } => x < 16,
            Instruction::StoreDigits { x } => x < 16,
            Instruction::StoreRegisters { x } => x < 16,
            Instruction::LoadRegisters { x } => x < 16,
            Instruction::Unknown { word } => true,
        }
    }
}

/// The fields and the class, read as shifts and masks of the word:
/// `x = (word >> 8) & 0xF`, `y = (word >> 4) & 0xF`, `n = word & 0xF`,
/// `nn = word & 0xFF`, `nnn = word & 0xFFF`, class `= word >> 12`.
pub proof fn lemma_fields_are_bit_fields(word: u16)
    ensures
        class_of(word) == word >> 12,
        operands_of(word).x == (word >> 8) & 0xF,
        operands_of(word).y == (word >> 4) & 0xF,
        operands_of(word).n == word & 0xF,
        operands_of(word).nn == word & 0xFF,
        operands_of(word).nnn == word & 0xFFF,
{
    assert(word >> 12 == word / 4096 && word >> 12 < 16) by (bit_vector);
    assert((word >> 8) & 0xF == (word / 256) % 16) by (bit_vector);
    assert((word >> 4) & 0xF == (word / 16) % 16) by (bit_vector);
    assert(word & 0xF == word % 16) by (bit_vector);
    assert(word & 0xFF == word % 256) by (bit_vector);
    assert(word & 0xFFF == word % 4096) by (bit_vector);
}

/// Every decoded instruction is well formed.
pub proof fn lemma_decode_wf(word: u16)
    ensures
        decode_of(word).wf(),
{
    reveal(decode_of);
}

/// Splits `word` into its operand fields.
pub fn operands(word: u16) -> (f: Operands)
    ensures
        f == operands_of(word),
{
    proof {
        lemma_fields_are_bit_fields(word);
    }
    Operands {
        x: ((word >> 8) & 0xF) as u8,
        y: ((word >> 4) & 0xF) as u8,
        n: (word & 0xF) as u8,
        nn: (word & 0xFF) as u8,
        nnn: word & 0xFFF,
    }
}

/// Decodes `word`.
pub fn decode(word: u16) -> (instr: Instruction)
    ensures
        instr == decode_of(word),
        instr.wf(),
{
    proof {
        reveal(decode_of);
        lemma_fields_are_bit_fields(word);
    }
    let f: Operands = operands(word);
    let class: u16 = word >> 12;
    match class {
        0 => match word {
            0x00E0 => Instruction::ClearScreen,
            0x00EE => Instruction::Return,
            _ => Instruction::Unknown { word },
        },
        1 => Instruction::Jump { addr: f.nnn },
        2 => Instruction::Call { addr: f.nnn },
        3 => Instruction::SkipIfEqual { x: f.x, byte: f.nn },
        4 => Instruction::SkipIfNotEqual { x: f.x, byte: f.nn },
        5 => Instruction::SkipIfRegistersEqual { x: f.x, y: f.y },
        6 => Instruction::Load { x: f.x, byte: f.nn },
        7 => Instruction::AddByte { x: f.x, byte: f.nn },
        8 => match f.n {
            0 => Instruction::Alu { op: AluOp::Assign, x: f.x, y: f.y },
            1 => Instruction::Alu { op: AluOp::Or, x: f.x, y: f.y },
            2 => Instruction::Alu { op: AluOp::And, x: f.x, y: f.y },
            3 => Instruction::Alu { op: AluOp::Xor, x: f.x, y: f.y },
            4 => Instruction::Alu { op: AluOp::Add, x: f.x, y: f.y },
            5 => Instruction::Alu { op: AluOp::Sub, x: f.x, y: f.y },
            6 => Instruction::Alu { op: AluOp::ShiftRight, x: f.x, y: f.y },
            7 => Instruction::Alu { op: AluOp::SubFrom, x: f.x, y: f.y },
            14 => Instruction::Alu { op: AluOp::ShiftLeft, x: f.x, y: f.y },
            _ => Instruction::Unknown { word },
        },
        9 => Instruction::SkipIfRegistersNotEqual { x: f.x, y: f.y },
        10 => Instruction::LoadIndex { addr: f.nnn },
        11 => Instruction::JumpOffset { addr: f.nnn },
        12 => Instruction::Random { x: f.x, mask: f.nn },
        13 => Instruction::Draw { x: f.x, y: f.y, rows: f.n },
        14 => match f.nn {
            0x9E => Instruction::SkipIfKeyDown { x: f.x },
            0xA1 => Instruction::SkipIfKeyUp { x: f.x },
            _ => Instruction::Unknown { word },
        },
        _ => match f.nn {
            0x07 => Instruction::ReadDelay { x: f.x },
            0x0A => Instruction::WaitKey { x: f.x },
            0x15 => Instruction::SetDelay { x: f.x },
            0x18 => Instruction::SetSound { x: f.x },
            0x1E => Instruction::AddIndex { x: f.x },
            0x33 => Instruction::StoreDigits { x: f.x },
            0x55 => Instruction::StoreRegisters { x: f.x },
            0x65 => Instruction::LoadRegisters { x: f.x },
            _ => Instruction::Unknown { word },
        },
    }
}

} // verus!
