//! The machine as a mathematical object: its state, and the effect of each
//! instruction and of a whole cycle as functions on states.

use vstd::prelude::*;
use crate::display::{blank_screen, drawn, erases, PIXEL_COUNT};
use crate::error::ExecError;
use crate::instruction::{decode_of, AluOp, Instruction};
use crate::keypad::{is_down_in, lowest_down};
use crate::memory::{big_endian, blank_image, overlay, span, MEMORY_SIZE, PROGRAM_START};
use crate::timers::counted_down;

verus! {

/// Number of general registers `V0..VF`.
pub const REGISTER_COUNT: usize = 16;

/// Index of `VF`, the register that doubles as carry, borrow and collision
/// flag.
pub const FLAG_REGISTER: usize = 15;

/// Greatest number of return addresses that the stack holds.
pub const STACK_LIMIT: usize = 16;

/// What a cycle reports to the host besides the change of state.
#[derive(Clone, Copy, Debug, PartialEq, Eq, Structural)]
pub enum Outcome {
    /// An instruction ran; nothing for the host to do.
    Continue,
    /// A sprite was drawn into the framebuffer.
    Drew,
    /// The key-wait instruction found no key down and will run again; `x`
    /// is the register that waits for the key.
    AwaitingKey { x: u8 },
    /// The word names no instruction and was passed over.
    Unrecognized { word: u16 },
}

/// Everything a program can observe or change.
#[verifier::ext_equal]
pub struct State {
    /// The memory image, `MEMORY_SIZE` bytes.
    pub memory: Seq<u8>,
    /// The general registers `V0..VF`.
    pub v: Seq<u8>,
    /// The index register `I`.
    pub i: u16,
    /// The program counter.
    pub pc: u16,
    /// The saved return addresses, the most recent last.
    pub stack: Seq<u16>,
    /// The framebuffer, row after row.
    pub display: Seq<bool>,
    /// The delay timer.
    pub delay: u8,
    /// The sound timer.
    pub sound: u8,
}

impl State {
    /// Memory, registers and framebuffer have their fixed sizes, and the
    /// stack is within its limit.
    pub open spec fn wf(self) -> bool {
        &&& self.memory.len() == MEMORY_SIZE
        &&& self.v.len() == REGISTER_COUNT
        &&& self.display.len() == PIXEL_COUNT
        &&& self.stack.len() <= STACK_LIMIT
    }

    /// This state with the program counter at `pc`.
    pub open spec fn at(self, pc: u16) -> State {
        State { pc, ..self }
    }

    /// This state with the program counter moved past one more instruction
    /// if `cond` holds.
    pub open spec fn skip_if(self, cond: bool) -> State {
        if cond {
            self.at(wrap16(self.pc + 2))
        } else {
            self
        }
    }

    /// This state with register `x` holding `value`.
    pub open spec fn with_register(self, x: int, value: u8) -> State {
        State { v: self.v.update(x, value), ..self }
    }
}

/// `value` reduced to sixteen bits, as a 16-bit register holds it.
pub open spec fn wrap16(value: int) -> u16 {
    (value % 65536) as u16
}

/// `value` reduced to eight bits, as a general register holds it.
pub open spec fn wrap8(value: int) -> u8 {
    (value % 256) as u8
}

/// 1 if `cond` holds and 0 otherwise, as a flag is stored.
pub open spec fn flag(cond: bool) -> u8 {
    if cond {
        1
    } else {
        0
    }
}

/// The state of a machine just started on `rom`: the image in memory from
/// address 512 on, the program counter at 512, everything else zero.
pub open spec fn initial_state(rom: Seq<u8>) -> State {
    State {
        memory: overlay(blank_image(), PROGRAM_START as int, rom),
        v: Seq::new(REGISTER_COUNT as nat, |r: int| 0u8),
        i: 0,
        pc: PROGRAM_START as u16,
        stack: Seq::empty(),
        display: blank_screen(),
        delay: 0,
        sound: 0,
    }
}

/// What a register-register operation leaves in `Vx`, and in `VF` where it
/// sets the flag, given the values `vx` and `vy` before it.
pub open spec fn alu_of(op: AluOp, vx: u8, vy: u8) -> (u8, Option<u8>) {
    match op {
        AluOp::Assign => (vy, None),
        AluOp::Or => (vx | vy, None),
        AluOp::And => (vx & vy, None),
        AluOp::Xor => (vx ^ vy, None),
        AluOp::Add => (wrap8(vx + vy), Some(flag(vx + vy > 255))),
        AluOp::Sub => (wrap8(vx - vy), Some(flag(vx >= vy))),
        AluOp::ShiftRight => (vx / 2, Some(vx % 2)),
        AluOp::SubFrom => (wrap8(vy - vx), Some(flag(vy >= vx))),
        AluOp::ShiftLeft => (wrap8(vx * 2), Some(vx / 128)),
    }
}

/// The hundreds, tens and units digit of `value`.
pub open spec fn digits_of(value: u8) -> Seq<u8> {
    seq![value / 100, (value / 10) % 10, value % 10]
}

/// Whether the `len` bytes from `addr` on all lie in memory. A span of no
/// bytes touches no address.
pub open spec fn span_in_bounds(addr: int, len: int) -> bool {
    len == 0 || addr + len <= MEMORY_SIZE
}

/// The registers after `V0..=Vx` are read from `memory` at `addr` on.
pub open spec fn registers_loaded(v: Seq<u8>, memory: Seq<u8>, addr: int, x: int) -> Seq<u8> {
    Seq::new(
        v.len(),
        |r: int|
            if r <= x {
                memory[addr + r]
            } else {
                v[r]
            },
    )
}

/// The effect of `instr` on `s`, a state whose program counter already
/// points past the instruction. `keys` tells which keys are down and `rnd`
/// is the byte that the random instruction draws. On an error the state is
/// returned as it was given. The definition is opaque; `reveal(execute_of)`
/// unfolds it.
#[verifier::opaque]
pub open spec fn execute_of(s: State, instr: Instruction, keys: Seq<bool>, rnd: u8) -> (
    State,
    Result<Outcome, ExecError>,
) {
    match instr {
        Instruction::ClearScreen => (State { display: blank_screen(), ..s }, Ok(Outcome::Continue)),
        Instruction::Return => if s.stack.len() == 0 {
            (s, Err(ExecError::StackUnderflow))
        } else {
            (State { pc: s.stack.last(), stack: s.stack.drop_last(), ..s }, Ok(Outcome::Continue))
        },
        Instruction::Jump { addr } => (s.at(addr), Ok(Outcome::Continue)),
        Instruction::Call { addr } => if s.stack.len() >= STACK_LIMIT {
            (s, Err(ExecError::StackOverflow))
        } else {
            (State { pc: addr, stack: s.stack.push(s.pc), ..s }, Ok(Outcome::Continue))
        },
        Instruction::SkipIfEqual { x, byte } => (
            s.skip_if(s.v[x as int] == byte),
            Ok(Outcome::Continue),
        ),
        Instruction::SkipIfNotEqual { x, byte } => (
            s.skip_if(s.v[x as int] != byte),
            Ok(Outcome::Continue),
        ),
        Instruction::SkipIfRegistersEqual { x, y } => (
            s.skip_if(s.v[x as int] == s.v[y as int]),
            Ok(Outcome::Continue),
        ),
        Instruction::Load { x, byte } => (s.with_register(x as int, byte), Ok(Outcome::Continue)),
        Instruction::AddByte { x, byte } => (
            s.with_register(x as int, wrap8(s.v[x as int] + byte)),
            Ok(Outcome::Continue),
        ),
        Instruction::Alu { op, x, y } => {
            let (value, carry) = alu_of(op, s.v[x as int], s.v[y as int]);
            let stored = s.with_register(x as int, value);
            match carry {
                Some(f) => (stored.with_register(FLAG_REGISTER as int, f), Ok(Outcome::Continue)),
                None => (stored, Ok(Outcome::Continue)),
            }
        },
        Instruction::SkipIfRegistersNotEqual { x, y } => (
            s.skip_if(s.v[x as int] != s.v[y as int]),
            Ok(Outcome::Continue),
        ),
        Instruction::LoadIndex { addr } => (State { i: addr, ..s }, Ok(Outcome::Continue)),
        Instruction::JumpOffset { addr } => (s.at(wrap16(addr + s.v[0])), Ok(Outcome::Continue)),
        Instruction::Random { x, mask } => (
            s.with_register(x as int, rnd & mask),
            Ok(Outcome::Continue),
        ),
        Instruction::Draw { x, y, rows } => if !span_in_bounds(s.i as int, rows as int) {
            (s, Err(ExecError::OutOfBounds))
        } else {
            let sprite = span(s.memory, s.i as int, rows as int);
            let (vx, vy) = (s.v[x as int] as int, s.v[y as int] as int);
            (
                State { display: drawn(s.display, sprite, vx, vy), ..s }.with_register(
                    FLAG_REGISTER as int,
                    flag(erases(s.display, sprite, vx, vy)),
                ),
                Ok(Outcome::Drew),
            )
        },
        Instruction::SkipIfKeyDown { x } => (
            s.skip_if(is_down_in(keys, s.v[x as int] as int)),
            Ok(Outcome::Continue),
        ),
        Instruction::SkipIfKeyUp { x } => (
            s.skip_if(!is_down_in(keys, s.v[x as int] as int)),
            Ok(Outcome::Continue),
        ),
        Instruction::ReadDelay { x } => (s.with_register(x as int, s.delay), Ok(Outcome::Continue)),
        Instruction::WaitKey { x } => match lowest_down(keys) {
            Some(key) => (s.with_register(x as int, key), Ok(Outcome::Continue)),
            None => (s.at(wrap16(s.pc - 2)), Ok(Outcome::AwaitingKey { x })),
        },
        Instruction::SetDelay { x } => (State { delay: s.v[x as int], ..s }, Ok(Outcome::Continue)),
        Instruction::SetSound { x } => (State { sound: s.v[x as int], ..s }, Ok(Outcome::Continue)),
        Instruction::AddIndex { x } => {
            let sum = s.i + s.v[x as int];
            (
                State { i: wrap16(sum), ..s }.with_register(FLAG_REGISTER as int, flag(sum > 0xFFF)),
                Ok(Outcome::Continue),
            )
        },
        Instruction::StoreDigits { x } => if !span_in_bounds(s.i as int, 3) {
            (s, Err(ExecError::OutOfBounds))
        } else {
            (
                State { memory: overlay(s.memory, s.i as int, digits_of(s.v[x as int])), ..s },
                Ok(Outcome::Continue),
            )
        },
        Instruction::StoreRegisters { x } => if !span_in_bounds(s.i as int, x + 1) {
            (s, Err(ExecError::OutOfBounds))
        } else {
            (
                State { memory: overlay(s.memory, s.i as int, s.v.subrange(0, x + 1)), ..s },
                Ok(Outcome::Continue),
            )
        },
        Instruction::LoadRegisters { x } => if !span_in_bounds(s.i as int, x + 1) {
            (s, Err(ExecError::OutOfBounds))
        } else {
            (
                State { v: registers_loaded(s.v, s.memory, s.i as int, x as int), ..s },
                Ok(Outcome::Continue),
            )
        },
        Instruction::Unknown { word } => (s, Ok(Outcome::Unrecognized { word })),
    }
}

/// The instruction word at the program counter of `s`, or the error that
/// fetching it raises.
pub open spec fn fetch_of(s: State) -> Result<u16, ExecError> {
    if s.pc + 1 < MEMORY_SIZE {
        Ok(big_endian(s.memory[s.pc as int], s.memory[s.pc + 1]))
    } else {
        Err(ExecError::OutOfBounds)
    }
}

/// One whole cycle from `s`: fetch the word at the program counter, move
/// the program counter past it, decode and execute. A failed fetch leaves
/// the state untouched.
pub open spec fn step_of(s: State, keys: Seq<bool>, rnd: u8) -> (
    State,
    Result<Outcome, ExecError>,
) {
    match fetch_of(s) {
        Ok(word) => execute_of(s.at(wrap16(s.pc + 2)), decode_of(word), keys, rnd),
        Err(e) => (s, Err(e)),
    }
}

/// The state after `n` cycles from `s`, where cycle `k` (counted from 0)
/// sees the keys `keys(k)` and would draw the random byte `rnds(k)`.
pub open spec fn after_cycles(
    s: State,
    n: nat,
    keys: spec_fn(nat) -> Seq<bool>,
    rnds: spec_fn(nat) -> u8,
) -> State
    decreases n,
{
    if n == 0 {
        s
    } else {
        let k = (n - 1) as nat;
        step_of(after_cycles(s, k, keys, rnds), keys(k), rnds(k)).0
    }
}

/// Whether the cycle that starts in `s` draws a random byte.
pub open spec fn draws_random(s: State) -> bool {
    match fetch_of(s) {
        Ok(word) => decode_of(word) is Random,
        Err(_) => false,
    }
}

/// The state after `ticks` ticks of the timer clock.
pub open spec fn ticked(s: State, ticks: int) -> State {
    State { delay: counted_down(s.delay, ticks), sound: counted_down(s.sound, ticks), ..s }
}

} // verus!
