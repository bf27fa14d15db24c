//! The interpreter: the owner of the whole machine state, and the
//! fetch-decode-execute cycle that runs on it.

use vstd::prelude::*;
use vstd::slice::slice_subrange;
use crate::display::{drawn, erases, Display, PIXEL_COUNT};
use crate::error::{ExecError, LoadError};
use crate::instruction::{decode, AluOp, Instruction};
use crate::keypad::{lowest_down, Keypad};
use crate::laws::{lemma_execute_keeps_wf, lemma_shifts_are_bit_shifts};
use crate::memory::{overlay, span, Memory, MEMORY_SIZE, PROGRAM_START};
use crate::semantics::{
    alu_of, digits_of, draws_random, execute_of, fetch_of, flag, initial_state, registers_loaded,
    span_in_bounds, step_of, ticked, wrap16, Outcome, State, FLAG_REGISTER, REGISTER_COUNT,
    STACK_LIMIT,
};
use crate::timers::Timers;

verus! {

/// A byte from `rand::random`, which draws it from the generator of the
/// calling thread. Nothing is claimed of the value: every byte may come
/// back, and two calls may differ. The generator is seeded from the
/// operating system when the thread first uses it, and `rand` panics if
/// that seeding fails.
#[verifier::external_body]
fn random_byte() -> (b: u8) {
    rand::random::<u8>()
}

/// What a register-register operation leaves in `Vx` and, where it sets the
/// flag, in `VF`.
pub fn alu(op: AluOp, vx: u8, vy: u8) -> (r: (u8, Option<u8>))
    ensures
        r == alu_of(op, vx, vy),
{
    match op {
        AluOp::Assign => (vy, None),
        AluOp::Or => (vx | vy, None),
        AluOp::And => (vx & vy, None),
        AluOp::Xor => (vx ^ vy, None),
        AluOp::Add => {
            let carry: u8 = if vx as u16 + vy as u16 > 255 {
                1
            } else {
                0
            };
            (vx.wrapping_add(vy), Some(carry))
        },
        AluOp::Sub => {
            let no_borrow: u8 = if vx >= vy {
                1
            } else {
                0
            };
            (vx.wrapping_sub(vy), Some(no_borrow))
        },
        AluOp::ShiftRight => {
            proof {
                lemma_shifts_are_bit_shifts(vx, vy);
            }
            (vx >> 1u8, Some(vx & 1))
        },
        AluOp::SubFrom => {
            let no_borrow: u8 = if vy >= vx {
                1
            } else {
                0
            };
            (vy.wrapping_sub(vx), Some(no_borrow))
        },
        AluOp::ShiftLeft => {
            proof {
                lemma_shifts_are_bit_shifts(vx, vy);
            }
            (vx << 1u8, Some((vx >> 7u8) & 1))
        },
    }
}

/// A whole machine: memory, registers, return stack, framebuffer and
/// timers. Its view is the `State` that the semantics speak of.
#[derive(Debug)]
pub struct Interpreter {
    memory: Memory,
    v: [u8; REGISTER_COUNT],
    i: u16,
    pc: u16,
    stack: Vec<u16>,
    display: Display,
    timers: Timers,
}

impl View for Interpreter {
    type V = State;

    closed spec fn view(&self) -> State {
        State {
            memory: self.memory@,
            v: self.v@,
            i: self.i,
            pc: self.pc,
            stack: self.stack@,
            display: self.display@,
            delay: self.timers.delay,
            sound: self.timers.sound,
        }
    }
}

impl Clone for Interpreter {
    /// A machine in the same state.
    fn clone(&self) -> (m: Interpreter)
        ensures
            m@ == self@,
    {
        let m = Interpreter {
            memory: self.memory.clone(),
            v: self.v,
            i: self.i,
            pc: self.pc,
            stack: self.stack.clone(),
            display: self.display,
            timers: self.timers,
        };
        assert(m@.stack =~= self@.stack);
        m
    }
}

impl Interpreter {
    /// The state is well formed: in particular the return stack is within
    /// its limit.
    pub open spec fn wf(&self) -> bool {
        self@.wf()
    }

    /// Memory, register file and framebuffer of every machine have their
    /// fixed sizes.
    pub proof fn lemma_sizes(&self)
        ensures
            self@.memory.len() == MEMORY_SIZE,
            self@.v.len() == REGISTER_COUNT,
            self@.display.len() == PIXEL_COUNT,
    {
        self.memory.lemma_len();
        self.display.lemma_len();
    }

    /// A machine ready to run `rom`: the image loaded at address 512, the
    /// program counter at 512, everything else zero. Fails when the image
    /// does not fit in memory.
    pub fn new(rom: &[u8]) -> (r: Result<Interpreter, LoadError>)
        ensures
            rom@.len() + PROGRAM_START > MEMORY_SIZE ==> r == Err::<Interpreter, LoadError>(
                LoadError::TooLarge,
            ),
            rom@.len() + PROGRAM_START <= MEMORY_SIZE ==> r is Ok && r->Ok_0@ == initial_state(
                rom@,
            ) && r->Ok_0.wf(),
    {
        match Memory::load(rom) {
            Err(e) => Err(e),
            Ok(memory) => {
                let m = Interpreter {
                    memory,
                    v: [0u8; REGISTER_COUNT],
                    i: 0,
                    pc: PROGRAM_START as u16,
                    stack: Vec::new(),
                    display: Display::new(),
                    timers: Timers::new(),
                };
                assert(m@ =~= initial_state(rom@));
                Ok(m)
            },
        }
    }

    /// The memory image.
    pub fn memory(&self) -> (m: &Memory)
        ensures
            m@ == self@.memory,
    {
        &self.memory
    }

    /// The framebuffer.
    pub fn display(&self) -> (d: &Display)
        ensures
            d@ == self@.display,
    {
        &self.display
    }

    /// The general registers `V0..VF`.
    pub fn registers(&self) -> (v: &[u8; REGISTER_COUNT])
        ensures
            v@ == self@.v,
    {
        &self.v
    }

    /// The index register `I`.
    pub fn index(&self) -> (i: u16)
        ensures
            i == self@.i,
    {
        self.i
    }

    /// The program counter.
    pub fn pc(&self) -> (pc: u16)
        ensures
            pc == self@.pc,
    {
        self.pc
    }

    /// The saved return addresses, the most recent last.
    pub fn stack(&self) -> (s: &[u16])
        ensures
            s@ == self@.stack,
    {
        self.stack.as_slice()
    }

    /// The delay and sound timers.
    pub fn timers(&self) -> (t: Timers)
        ensures
            t.delay == self@.delay,
            t.sound == self@.sound,
    {
        self.timers
    }

    /// `ticks` ticks of the timer clock: each timer loses one per tick
    /// until it is zero.
    pub fn tick_timers(&mut self, ticks: u64)
        ensures
            final(self)@ == ticked(old(self)@, ticks as int),
            old(self).wf() ==> final(self).wf(),
    {
        self.timers.tick_by(ticks);
    }

    /// The instruction word at the program counter.
    pub fn fetch(&self) -> (r: Result<u16, ExecError>)
        ensures
            r == fetch_of(self@),
    {
        self.memory.read16(self.pc as usize)
    }

    /// Moves the program counter past one more instruction if `cond` holds.
    fn skip_if(&mut self, cond: bool)
        ensures
            final(self)@ == old(self)@.skip_if(cond),
    {
        if cond {
            self.pc = self.pc.wrapping_add(2);
        }
    }

    /// Stores `value` in register `x`.
    fn set_register(&mut self, x: u8, value: u8)
        requires
            x < REGISTER_COUNT,
        ensures
            final(self)@ == old(self)@.with_register(x as int, value),
    {
        self.v[x as usize] = value;
    }

    /// `00EE`: pops the most recent return address into the program counter.
    fn op_return(&mut self) -> (r: Result<Outcome, ExecError>)
        ensures
            old(self)@.stack.len() == 0 ==> r == Err::<Outcome, ExecError>(
                ExecError::StackUnderflow,
            ) && final(self)@ == old(self)@,
            old(self)@.stack.len() > 0 ==> r == Ok::<Outcome, ExecError>(Outcome::Continue)
                && final(self)@ == (State {
                pc: old(self)@.stack.last(),
                stack: old(self)@.stack.drop_last(),
                ..old(self)@
            }),
    {
        match self.stack.pop() {
            Some(addr) => {
                self.pc = addr;
                Ok(Outcome::Continue)
            },
            None => Err(ExecError::StackUnderflow),
        }
    }

    /// `2nnn`: saves the program counter on the stack and jumps to `addr`.
    fn op_call(&mut self, addr: u16) -> (r: Result<Outcome, ExecError>)
        ensures
            old(self)@.stack.len() >= STACK_LIMIT ==> r == Err::<Outcome, ExecError>(
                ExecError::StackOverflow,
            ) && final(self)@ == old(self)@,
            old(self)@.stack.len() < STACK_LIMIT ==> r == Ok::<Outcome, ExecError>(
                Outcome::Continue,
            ) && final(self)@ == (State {
                pc: addr,
                stack: old(self)@.stack.push(old(self)@.pc),
                ..old(self)@
            }),
    {
        if self.stack.len() >= STACK_LIMIT {
            Err(ExecError::StackOverflow)
        } else {
            self.stack.push(self.pc);
            self.pc = addr;
            Ok(Outcome::Continue)
        }
    }

    /// `8xy_`: stores the result in `Vx` and then, where the operation sets
    /// it, the flag in `VF`.
    fn op_alu(&mut self, op: AluOp, x: u8, y: u8)
        requires
            x < REGISTER_COUNT,
            y < REGISTER_COUNT,
        ensures
            final(self)@ == match alu_of(op, old(self)@.v[x as int], old(self)@.v[y as int]).1 {
                Some(f) => old(self)@.with_register(
                    x as int,
                    alu_of(op, old(self)@.v[x as int], old(self)@.v[y as int]).0,
                ).with_register(FLAG_REGISTER as int, f),
                None => old(self)@.with_register(
                    x as int,
                    alu_of(op, old(self)@.v[x as int], old(self)@.v[y as int]).0,
                ),
            },
    {
        let (value, carry) = alu(op, self.v[x as usize], self.v[y as usize]);
        self.v[x as usize] = value;
        match carry {
            Some(f) => {
                self.v[FLAG_REGISTER] = f;
            },
            None => {},
        }
    }

    /// `Dxyn`: draws the `rows` bytes at `I` as a sprite at `(Vx, Vy)` and
    /// records in `VF` whether a pixel was turned off.
    fn op_draw(&mut self, x: u8, y: u8, rows: u8) -> (r: Result<Outcome, ExecError>)
        requires
            x < REGISTER_COUNT,
            y < REGISTER_COUNT,
            rows < 16,
        ensures
            !span_in_bounds(old(self)@.i as int, rows as int) ==> r == Err::<Outcome, ExecError>(
                ExecError::OutOfBounds,
            ) && final(self)@ == old(self)@,
            span_in_bounds(old(self)@.i as int, rows as int) ==> r == Ok::<Outcome, ExecError>(
                Outcome::Drew,
            ) && final(self)@ == (State {
                display: drawn(
                    old(self)@.display,
                    span(old(self)@.memory, old(self)@.i as int, rows as int),
                    old(self)@.v[x as int] as int,
                    old(self)@.v[y as int] as int,
                ),
                ..old(self)@
            }).with_register(
                FLAG_REGISTER as int,
                flag(
                    erases(
                        old(self)@.display,
                        span(old(self)@.memory, old(self)@.i as int, rows as int),
                        old(self)@.v[x as int] as int,
                        old(self)@.v[y as int] as int,
                    ),
                ),
            ),
    {
        match self.memory.read_span(self.i as usize, rows as usize) {
            Err(e) => Err(e),
            Ok(sprite) => {
                let erased: bool = self.display.draw(sprite, self.v[x as usize], self.v[y as usize]);
                self.v[FLAG_REGISTER] = if erased {
                    1
                } else {
                    0
                };
                Ok(Outcome::Drew)
            },
        }
    }

    /// `Fx0A`: stores the lowest key that is down in `Vx`, or, with no key
    /// down, moves the program counter back onto this instruction.
    fn op_wait_key(&mut self, x: u8, keys: &Keypad) -> (r: Outcome)
        requires
            x < REGISTER_COUNT,
        ensures
            lowest_down(keys@) matches Some(key) ==> r == Outcome::Continue
                && final(self)@ == old(self)@.with_register(x as int, key),
            lowest_down(keys@) is None ==> r == (Outcome::AwaitingKey { x })
                && final(self)@ == old(self)@.at(wrap16(old(self)@.pc - 2)),
    {
        match keys.first_down() {
            Some(key) => {
                self.v[x as usize] = key;
                Outcome::Continue
            },
            None => {
                self.pc = self.pc.wrapping_sub(2);
                Outcome::AwaitingKey { x }
            },
        }
    }

    /// `Fx1E`: adds `Vx` to `I` and records in `VF` whether the sum left
    /// the twelve-bit address range.
    fn op_add_index(&mut self, x: u8)
        requires
            x < REGISTER_COUNT,
        ensures
            final(self)@ == (State {
                i: wrap16(old(self)@.i + old(self)@.v[x as int]),
                ..old(self)@
            }).with_register(
                FLAG_REGISTER as int,
                flag(old(self)@.i + old(self)@.v[x as int] > 0xFFF),
            ),
    {
        let sum: u32 = self.i as u32 + self.v[x as usize] as u32;
        self.i = self.i.wrapping_add(self.v[x as usize] as u16);
        self.v[FLAG_REGISTER] = if sum > 0xFFF {
            1
        } else {
            0
        };
    }

    /// Writes `data` to memory from `I` on.
    fn store_at_index(&mut self, data: &[u8]) -> (r: Result<Outcome, ExecError>)
        ensures
            !span_in_bounds(old(self)@.i as int, data@.len() as int) ==> r == Err::<
                Outcome,
                ExecError,
            >(ExecError::OutOfBounds) && final(self)@ == old(self)@,
            span_in_bounds(old(self)@.i as int, data@.len() as int) ==> r == Ok::<
                Outcome,
                ExecError,
            >(Outcome::Continue) && final(self)@ == (State {
                memory: overlay(old(self)@.memory, old(self)@.i as int, data@),
                ..old(self)@
            }),
    {
        match self.memory.write_span(self.i as usize, data) {
            Err(e) => Err(e),
            Ok(()) => Ok(Outcome::Continue),
        }
    }

    /// `Fx65`: reads `V0..=Vx` from memory at `I` on.
    fn op_load_registers(&mut self, x: u8) -> (r: Result<Outcome, ExecError>)
        requires
            x < REGISTER_COUNT,
        ensures
            !span_in_bounds(old(self)@.i as int, x + 1) ==> r == Err::<Outcome, ExecError>(
                ExecError::OutOfBounds,
            ) && final(self)@ == old(self)@,
            span_in_bounds(old(self)@.i as int, x + 1) ==> r == Ok::<Outcome, ExecError>(
                Outcome::Continue,
            ) && final(self)@ == (State {
                v: registers_loaded(
                    old(self)@.v,
                    old(self)@.memory,
                    old(self)@.i as int,
                    x as int,
                ),
                ..old(self)@
            }),
    {
        match self.memory.read_span(self.i as usize, x as usize + 1) {
            Err(e) => Err(e),
            Ok(data) => {
                let mut v: [u8; REGISTER_COUNT] = self.v;
                let mut k: usize = 0;
                while k <= x as usize
                    invariant
                        k <= x + 1,
                        x < REGISTER_COUNT,
                        data@.len() == x + 1,
                        forall|q: int|
                            0 <= q < REGISTER_COUNT ==> #[trigger] v@[q] == if q < k {
                                data@[q]
                            } else {
                                self.v@[q]
                            },
                    decreases x + 1 - k,
                {
                    v[k] = data[k];
                    k += 1;
                }
                self.v = v;
                assert(self.v@ =~= registers_loaded(
                    old(self)@.v,
                    old(self)@.memory,
                    old(self)@.i as int,
                    x as int,
                ));
                Ok(Outcome::Continue)
            },
        }
    }

    /// Executes `instr` on a machine whose program counter already points
    /// past it. `keys` tells which keys are down, and `rnd` is the byte
    /// that the random instruction uses. On an error nothing changes.
    pub fn execute(&mut self, instr: Instruction, keys: &Keypad, rnd: u8) -> (r: Result<
        Outcome,
        ExecError,
    >)
        requires
            instr.wf(),
        ensures
            (final(self)@, r) == execute_of(old(self)@, instr, keys@, rnd),
            old(self).wf() ==> final(self).wf(),
    {
        proof {
            reveal(execute_of);
            if self.wf() {
                lemma_execute_keeps_wf(self@, instr, keys@, rnd);
            }
        }
        match instr {
            Instruction::ClearScreen => {
                self.display.clear();
                Ok(Outcome::Continue)
            },
            Instruction::Return => self.op_return(),
            Instruction::Jump { addr } => {
                self.pc = addr;
                Ok(Outcome::Continue)
            },
            Instruction::Call { addr } => self.op_call(addr),
            Instruction::SkipIfEqual { x, byte } => {
                self.skip_if(self.v[x as usize] == byte);
                Ok(Outcome::Continue)
            },
            Instruction::SkipIfNotEqual { x, byte } => {
                self.skip_if(self.v[x as usize] != byte);
                Ok(Outcome::Continue)
            },
            Instruction::SkipIfRegistersEqual { x, y } => {
                self.skip_if(self.v[x as usize] == self.v[y as usize]);
                Ok(Outcome::Continue)
            },
            Instruction::Load { x, byte } => {
                self.set_register(x, byte);
                Ok(Outcome::Continue)
            },
            Instruction::AddByte { x, byte } => {
                self.set_register(x, self.v[x as usize].wrapping_add(byte));
                Ok(Outcome::Continue)
            },
            Instruction::Alu { op, x, y } => {
                self.op_alu(op, x, y);
                Ok(Outcome::Continue)
            },
            Instruction::SkipIfRegistersNotEqual { x, y } => {
                self.skip_if(self.v[x as usize] != self.v[y as usize]);
                Ok(Outcome::Continue)
            },
            Instruction::LoadIndex { addr } => {
                self.i = addr;
                Ok(Outcome::Continue)
            },
            Instruction::JumpOffset { addr } => {
                self.pc = addr.wrapping_add(self.v[0] as u16);
                Ok(Outcome::Continue)
            },
            Instruction::Random { x, mask } => {
                self.set_register(x, rnd & mask);
                Ok(Outcome::Continue)
            },
            Instruction::Draw { x, y, rows } => self.op_draw(x, y, rows),
            Instruction::SkipIfKeyDown { x } => {
                self.skip_if(keys.is_down(self.v[x as usize]));
                Ok(Outcome::Continue)
            },
            Instruction::SkipIfKeyUp { x } => {
                self.skip_if(!keys.is_down(self.v[x as usize]));
                Ok(Outcome::Continue)
            },
            Instruction::ReadDelay { x } => {
                self.set_register(x, self.timers.delay);
                Ok(Outcome::Continue)
            },
            Instruction::WaitKey { x } => Ok(self.op_wait_key(x, keys)),
            Instruction::SetDelay { x } => {
                self.timers.delay = self.v[x as usize];
                Ok(Outcome::Continue)
            },
            Instruction::SetSound { x } => {
                self.timers.sound = self.v[x as usize];
                Ok(Outcome::Continue)
            },
            Instruction::AddIndex { x } => {
                self.op_add_index(x);
                Ok(Outcome::Continue)
            },
            Instruction::StoreDigits { x } => {
                let value: u8 = self.v[x as usize];
                let digits: [u8; 3] = [value / 100, (value / 10) % 10, value % 10];
                assert(digits@ =~= digits_of(value));
                self.store_at_index(digits.as_slice())
            },
            Instruction::StoreRegisters { x } => {
                let data: [u8; REGISTER_COUNT] = self.v;
                self.store_at_index(slice_subrange(data.as_slice(), 0, x as usize + 1))
            },
            Instruction::LoadRegisters { x } => self.op_load_registers(x),
            Instruction::Unknown { word } => Ok(Outcome::Unrecognized { word }),
        }
    }

    /// One cycle with `rnd` as the byte that a random instruction would
    /// draw: fetch, advance the program counter, decode, execute.
    pub fn cycle_with(&mut self, keys: &Keypad, rnd: u8) -> (r: Result<Outcome, ExecError>)
        ensures
            (final(self)@, r) == step_of(old(self)@, keys@, rnd),
            old(self).wf() ==> final(self).wf(),
    {
        match self.fetch() {
            Err(e) => Err(e),
            Ok(word) => {
                self.pc = self.pc.wrapping_add(2);
                self.execute(decode(word), keys, rnd)
            },
        }
    }

    /// One cycle. A random instruction draws its byte from the random
    /// number generator; no other instruction touches the generator.
    pub fn cycle(&mut self, keys: &Keypad) -> (r: Result<Outcome, ExecError>)
        ensures
            exists|rnd: u8| (final(self)@, r) == #[trigger] step_of(old(self)@, keys@, rnd),
            !draws_random(old(self)@) ==> (final(self)@, r) == step_of(old(self)@, keys@, 0),
            old(self).wf() ==> final(self).wf(),
    {
        match self.fetch() {
            Err(e) => {
                let r = Err(e);
                assert((self@, r) == step_of(old(self)@, keys@, 0));
                r
            },
            Ok(word) => {
                let instr: Instruction = decode(word);
                let rnd: u8 = match instr {
                    Instruction::Random { .. } => random_byte(),
                    _ => 0,
                };
                self.pc = self.pc.wrapping_add(2);
                let r = self.execute(instr, keys, rnd);
                assert((self@, r) == step_of(old(self)@, keys@, rnd));
                r
            },
        }
    }
}

} // verus!
