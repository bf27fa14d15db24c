//! Laws of the instruction set, proved of the semantics for every state.

use vstd::prelude::*;
use crate::display::{
    cell_index, drawn, erases, lemma_drawn_elsewhere, lemma_drawn_under_sprite, sprite_bit,
    PIXEL_COUNT,
};
use crate::error::ExecError;
use crate::instruction::{decode_of, lemma_decode_wf, AluOp, Instruction};
use crate::memory::{span, MEMORY_SIZE};
use crate::semantics::{
    after_cycles, alu_of, execute_of, fetch_of, flag, initial_state, span_in_bounds, step_of, wrap16,
    wrap8, Outcome, State, FLAG_REGISTER, REGISTER_COUNT, STACK_LIMIT,
};

verus! {

/// Executing any well-formed instruction on a well-formed state gives a
/// well-formed state: the sizes are kept and the stack stays within its
/// limit.
pub proof fn lemma_execute_keeps_wf(s: State, instr: Instruction, keys: Seq<bool>, rnd: u8)
    requires
        s.wf(),
        instr.wf(),
    ensures
        execute_of(s, instr, keys, rnd).0.wf(),
{
    reveal(execute_of);
}

/// A cycle from a well-formed state gives a well-formed state.
pub proof fn lemma_step_keeps_wf(s: State, keys: Seq<bool>, rnd: u8)
    requires
        s.wf(),
    ensures
        step_of(s, keys, rnd).0.wf(),
{
    if let Ok(word) = fetch_of(s) {
        lemma_decode_wf(word);
        lemma_execute_keeps_wf(s.at(wrap16(s.pc + 2)), decode_of(word), keys, rnd);
    }
}

/// A failed instruction changes nothing.
pub proof fn lemma_error_changes_nothing(s: State, instr: Instruction, keys: Seq<bool>, rnd: u8)
    requires
        execute_of(s, instr, keys, rnd).1 is Err,
    ensures
        execute_of(s, instr, keys, rnd).0 == s,
{
    reveal(execute_of);
}

/// During a cycle the program counter is advanced without wrapping: the
/// fetch succeeds only where two more bytes lie in memory.
pub proof fn lemma_fetch_bounds_pc(s: State)
    requires
        fetch_of(s) is Ok,
    ensures
        wrap16(s.pc + 2) == s.pc + 2,
        s.pc + 2 <= MEMORY_SIZE,
{
}

/// A cycle that waits for a key makes no progress: the state is left as it
/// was, so that the next cycle runs the same instruction again.
pub proof fn lemma_waiting_changes_nothing(s: State, keys: Seq<bool>, rnd: u8)
    requires
        step_of(s, keys, rnd).1 matches Ok(Outcome::AwaitingKey { .. }),
    ensures
        step_of(s, keys, rnd).0 == s,
{
    reveal(execute_of);
}

/// A cycle that meets a word that names no instruction reports that word
/// and changes nothing but the program counter, which it moves past the
/// word.
pub proof fn lemma_unrecognized_is_passed_over(s: State, keys: Seq<bool>, rnd: u8)
    requires
        step_of(s, keys, rnd).1 matches Ok(Outcome::Unrecognized { .. }),
    ensures
        step_of(s, keys, rnd).0 == s.at((s.pc + 2) as u16),
        step_of(s, keys, rnd).1 == Ok::<Outcome, ExecError>(
            Outcome::Unrecognized { word: fetch_of(s)->Ok_0 },
        ),
        decode_of(fetch_of(s)->Ok_0) == (Instruction::Unknown { word: fetch_of(s)->Ok_0 }),
{
    reveal(execute_of);
    reveal(decode_of);
}

/// Only the random instruction looks at the random byte.
pub proof fn lemma_random_byte_unused(s: State, instr: Instruction, keys: Seq<bool>, a: u8, b: u8)
    requires
        !(instr is Random),
    ensures
        execute_of(s, instr, keys, a) == execute_of(s, instr, keys, b),
{
    reveal(execute_of);
}

/// `7xnn` leaves `(Vx + nn) mod 256` in `Vx` and changes nothing else. In
/// particular it leaves `VF` alone, unless `VF` is itself the register
/// that is added to.
pub proof fn lemma_add_byte(s: State, x: u8, byte: u8, keys: Seq<bool>, rnd: u8)
    requires
        s.wf(),
        x < REGISTER_COUNT,
    ensures
        ({
            let (after, result) = execute_of(s, Instruction::AddByte { x, byte }, keys, rnd);
            &&& result == Ok::<Outcome, ExecError>(Outcome::Continue)
            &&& after == s.with_register(x as int, wrap8(s.v[x as int] + byte))
            &&& after.v[x as int] == (s.v[x as int] + byte) % 256
            &&& forall|r: int| 0 <= r < REGISTER_COUNT && r != x ==> after.v[r] == s.v[r]
            &&& x != FLAG_REGISTER ==> after.v[FLAG_REGISTER as int] == s.v[FLAG_REGISTER as int]
        }),
{
    reveal(execute_of);
}

/// `8xy4` sets `VF` to 1 exactly when `Vx + Vy` exceeds 255, and to 0
/// otherwise. It leaves the sum modulo 256 in `Vx`, unless `Vx` is `VF`
/// itself, which then holds the flag.
pub proof fn lemma_add_registers(s: State, x: u8, y: u8, keys: Seq<bool>, rnd: u8)
    requires
        s.wf(),
        x < REGISTER_COUNT,
        y < REGISTER_COUNT,
    ensures
        ({
            let (after, result) = execute_of(
                s,
                Instruction::Alu { op: AluOp::Add, x, y },
                keys,
                rnd,
            );
            let sum = s.v[x as int] + s.v[y as int];
            &&& result == Ok::<Outcome, ExecError>(Outcome::Continue)
            &&& after.v[FLAG_REGISTER as int] == 1 <==> sum > 255
            &&& after.v[FLAG_REGISTER as int] == 0 <==> sum <= 255
            &&& x != FLAG_REGISTER ==> after.v[x as int] == sum % 256
            &&& forall|r: int|
                0 <= r < REGISTER_COUNT && r != x && r != FLAG_REGISTER ==> after.v[r] == s.v[r]
            &&& after == (State { v: after.v, ..s })
        }),
{
    reveal(execute_of);
}

/// The two shifts, read as shifts and masks of the byte: `8xy6` leaves
/// `Vx >> 1` with `Vx & 1` as the flag, and `8xyE` leaves `Vx << 1`, cut to
/// eight bits, with `(Vx >> 7) & 1` as the flag.
pub proof fn lemma_shifts_are_bit_shifts(vx: u8, vy: u8)
    ensures
        alu_of(AluOp::ShiftRight, vx, vy) == (vx >> 1u8, Some(vx & 1)),
        alu_of(AluOp::ShiftLeft, vx, vy) == (vx << 1u8, Some((vx >> 7u8) & 1)),
{
    assert(vx >> 1u8 == vx / 2 && vx & 1 == vx % 2) by (bit_vector);
    assert(vx << 1u8 == (vx * 2) % 256 && (vx >> 7u8) & 1 == vx / 128) by (bit_vector);
}

/// Subtraction wraps below zero: the difference is taken modulo 256, and
/// the flag tells that nothing was borrowed.
pub proof fn lemma_subtract(vx: u8, vy: u8)
    ensures
        vx >= vy ==> alu_of(AluOp::Sub, vx, vy) == ((vx - vy) as u8, Some(1u8)),
        vx < vy ==> alu_of(AluOp::Sub, vx, vy) == ((vx - vy + 256) as u8, Some(0u8)),
        alu_of(AluOp::SubFrom, vx, vy) == alu_of(AluOp::Sub, vy, vx),
{
}

/// A call that succeeds, followed at once by a return, gives back the
/// state in which the call was executed: the program counter points at
/// the instruction after the call and the stack is as it was.
pub proof fn lemma_call_then_return(s: State, addr: u16, keys: Seq<bool>, rnd: u8)
    requires
        s.wf(),
        s.stack.len() < STACK_LIMIT,
    ensures
        ({
            let (called, r1) = execute_of(s, Instruction::Call { addr }, keys, rnd);
            let (returned, r2) = execute_of(called, Instruction::Return, keys, rnd);
            &&& r1 == Ok::<Outcome, ExecError>(Outcome::Continue)
            &&& called.pc == addr
            &&& r2 == Ok::<Outcome, ExecError>(Outcome::Continue)
            &&& returned == s
        }),
{
    reveal(execute_of);
    let called = execute_of(s, Instruction::Call { addr }, keys, rnd).0;
    assert(called.stack.drop_last() =~= s.stack);
}

/// Two cycles, the first a call of `addr` and the second the return
/// found at `addr`, change nothing but the program counter, which then
/// points at the instruction after the call.
pub proof fn lemma_call_return_cycles(s: State, addr: u16, keys: Seq<bool>, rnd: u8)
    requires
        s.wf(),
        s.stack.len() < STACK_LIMIT,
        fetch_of(s) is Ok,
        decode_of(fetch_of(s)->Ok_0) == (Instruction::Call { addr }),
        fetch_of(s.at(addr)) == Ok::<u16, ExecError>(0x00EE),
    ensures
        ({
            let (called, r1) = step_of(s, keys, rnd);
            let (returned, r2) = step_of(called, keys, rnd);
            &&& r1 is Ok
            &&& r2 is Ok
            &&& returned == s.at((s.pc + 2) as u16)
        }),
{
    reveal(execute_of);
    reveal(decode_of);
    let next = s.at(wrap16(s.pc + 2));
    lemma_call_then_return(next, addr, keys, rnd);
    let called = step_of(s, keys, rnd).0;
    assert(called.at(addr) == called);
    assert(decode_of(0x00EE) == Instruction::Return);
    let inner = execute_of(next, Instruction::Call { addr }, keys, rnd).0;
    assert(called == inner);
    let popped = called.at(wrap16(called.pc + 2));
    assert(popped.stack == called.stack);
    assert(popped.stack.drop_last() =~= s.stack);
}

/// `Fx55` followed by `Fx65` with the same `x` and the same `I` gives
/// `V0..=Vx` the values that were stored, whatever happened to the
/// registers in between.
pub proof fn lemma_store_then_load(s: State, t: State, x: u8, keys: Seq<bool>, rnd: u8)
    requires
        s.wf(),
        t.wf(),
        x < REGISTER_COUNT,
        span_in_bounds(s.i as int, x + 1),
        t.memory == execute_of(s, Instruction::StoreRegisters { x }, keys, rnd).0.memory,
        t.i == s.i,
    ensures
        ({
            let (stored, r1) = execute_of(s, Instruction::StoreRegisters { x }, keys, rnd);
            let (loaded, r2) = execute_of(t, Instruction::LoadRegisters { x }, keys, rnd);
            &&& r1 == Ok::<Outcome, ExecError>(Outcome::Continue)
            &&& r2 == Ok::<Outcome, ExecError>(Outcome::Continue)
            &&& forall|r: int| 0 <= r <= x ==> loaded.v[r] == s.v[r]
            &&& forall|r: int| x < r < REGISTER_COUNT ==> loaded.v[r] == t.v[r]
            &&& loaded.memory == stored.memory
        }),
{
    reveal(execute_of);
}

/// `Fx55` followed at once by `Fx65` with the same `x` leaves every
/// register as it was.
pub proof fn lemma_store_load_round_trip(s: State, x: u8, keys: Seq<bool>, rnd: u8)
    requires
        s.wf(),
        x < REGISTER_COUNT,
        span_in_bounds(s.i as int, x + 1),
    ensures
        ({
            let (stored, r1) = execute_of(s, Instruction::StoreRegisters { x }, keys, rnd);
            let (loaded, r2) = execute_of(stored, Instruction::LoadRegisters { x }, keys, rnd);
            &&& r1 is Ok
            &&& r2 is Ok
            &&& loaded == stored
            &&& loaded.v == s.v
        }),
{
    reveal(execute_of);
    let stored = execute_of(s, Instruction::StoreRegisters { x }, keys, rnd).0;
    let loaded = execute_of(stored, Instruction::LoadRegisters { x }, keys, rnd).0;
    lemma_store_then_load(s, stored, x, keys, rnd);
    assert(loaded.v =~= s.v);
}

/// `Fx33` writes the hundreds, tens and units digit of `Vx` to `I`,
/// `I + 1` and `I + 2`, and no other byte.
pub proof fn lemma_store_digits(s: State, x: u8, keys: Seq<bool>, rnd: u8)
    requires
        s.wf(),
        x < REGISTER_COUNT,
        s.i + 3 <= MEMORY_SIZE,
    ensures
        ({
            let (after, result) = execute_of(s, Instruction::StoreDigits { x }, keys, rnd);
            let value = s.v[x as int];
            &&& result == Ok::<Outcome, ExecError>(Outcome::Continue)
            &&& after.memory[s.i as int] == value / 100
            &&& after.memory[s.i + 1] == (value / 10) % 10
            &&& after.memory[s.i + 2] == value % 10
            &&& after.memory[s.i as int] * 100 + after.memory[s.i + 1] * 10 + after.memory[s.i
                + 2] == value
            &&& forall|a: int|
                0 <= a < MEMORY_SIZE && !(s.i <= a < s.i + 3) ==> after.memory[a] == s.memory[a]
        }),
{
    reveal(execute_of);
}

/// Every bit of the byte `0xFF` is set.
pub proof fn lemma_full_row_bits(col: u8)
    requires
        col < 8,
    ensures
        sprite_bit(0xFF, col),
{
    assert((0xFFu8 >> ((7 - col) as u8)) & 1 == 1) by (bit_vector)
        requires
            col < 8,
    ;
}

/// Drawing one row whose byte is `0xFF` at `(Vx, Vy)` flips the eight
/// pixels from `(Vx, Vy)` on to the right, wrapping at the edge, and no
/// other pixel; it sets `VF` to 1 if at least one of the eight was on and
/// to 0 if none was.
pub proof fn lemma_draw_full_row(s: State, x: u8, y: u8, keys: Seq<bool>, rnd: u8)
    requires
        s.wf(),
        x < REGISTER_COUNT,
        y < REGISTER_COUNT,
        s.i < MEMORY_SIZE,
        s.memory[s.i as int] == 0xFF,
    ensures
        ({
            let (after, result) = execute_of(s, Instruction::Draw { x, y, rows: 1 }, keys, rnd);
            let (vx, vy) = (s.v[x as int] as int, s.v[y as int] as int);
            &&& result == Ok::<Outcome, ExecError>(Outcome::Drew)
            &&& forall|col: int|
                0 <= col < 8 ==> after.display[#[trigger] cell_index(vx + col, vy)]
                    == !s.display[cell_index(vx + col, vy)]
            &&& forall|k: int|
                0 <= k < PIXEL_COUNT && (forall|col: int|
                    0 <= col < 8 ==> k != #[trigger] cell_index(vx + col, vy))
                    ==> #[trigger] after.display[k] == s.display[k]
            &&& after.v[FLAG_REGISTER as int] == 1 <==> exists|col: int|
                0 <= col < 8 && s.display[#[trigger] cell_index(vx + col, vy)]
            &&& after.v[FLAG_REGISTER as int] == 0 <==> forall|col: int|
                0 <= col < 8 ==> !s.display[#[trigger] cell_index(vx + col, vy)]
        }),
{
    reveal(execute_of);
    let (after, result) = execute_of(s, Instruction::Draw { x, y, rows: 1 }, keys, rnd);
    let (vx, vy) = (s.v[x as int] as int, s.v[y as int] as int);
    let sprite = span(s.memory, s.i as int, 1);
    assert(sprite[0] == 0xFF);
    assert(after.display == drawn(s.display, sprite, vx, vy));
    assert forall|col: int| 0 <= col < 8 implies after.display[#[trigger] cell_index(vx + col, vy)]
        == !s.display[cell_index(vx + col, vy)] by {
        lemma_full_row_bits(col as u8);
        lemma_drawn_under_sprite(s.display, sprite, vx, vy, 0, col);
    }
    lemma_drawn_elsewhere(s.display, sprite, vx, vy);
    assert forall|k: int|
        0 <= k < PIXEL_COUNT && (forall|col: int|
            0 <= col < 8 ==> k != #[trigger] cell_index(vx + col, vy))
            implies #[trigger] after.display[k] == s.display[k] by {
        if drawn(s.display, sprite, vx, vy)[k] != s.display[k] {
            let (row, col) = choose|row: int, col: int|
                0 <= row < sprite.len() && 0 <= col < 8 && k == #[trigger] cell_index(
                    vx + col,
                    vy + row,
                ) && sprite_bit(sprite[row], col as u8);
            assert(k == cell_index(vx + col, vy));
        }
    }
    if erases(s.display, sprite, vx, vy) {
        let (row, col) = choose|row: int, col: int|
            0 <= row < sprite.len() && 0 <= col < 8 && s.display[#[trigger] cell_index(
                vx + col,
                vy + row,
            )] && sprite_bit(sprite[row], col as u8);
        assert(s.display[cell_index(vx + col, vy)]);
    }
    if exists|col: int| 0 <= col < 8 && s.display[#[trigger] cell_index(vx + col, vy)] {
        let col = choose|col: int| 0 <= col < 8 && s.display[#[trigger] cell_index(vx + col, vy)];
        lemma_full_row_bits(col as u8);
        lemma_drawn_under_sprite(s.display, sprite, vx, vy, 0, col);
    }
}

/// The image of the program `6005 1200`.
pub open spec fn set_and_loop_rom() -> Seq<u8> {
    seq![0x60u8, 0x05u8, 0x12u8, 0x00u8]
}

/// A cycle at 512 with `6005` there loads 5 into `V0`.
proof fn lemma_cycle_at_load(s: State, keys: Seq<bool>, rnd: u8)
    requires
        s.memory.len() == MEMORY_SIZE,
        s.memory[512] == 0x60,
        s.memory[513] == 0x05,
        s.pc == 512,
    ensures
        step_of(s, keys, rnd) == (
            s.with_register(0, 5).at(514),
            Ok::<Outcome, ExecError>(Outcome::Continue),
        ),
{
    reveal(execute_of);
    reveal(decode_of);
    assert(fetch_of(s) == Ok::<u16, ExecError>(0x6005));
    assert(decode_of(0x6005) == Instruction::Load { x: 0, byte: 5 });
}

/// A cycle at 514 with `1200` there jumps to 512.
proof fn lemma_cycle_at_jump(s: State, keys: Seq<bool>, rnd: u8)
    requires
        s.memory.len() == MEMORY_SIZE,
        s.memory[514] == 0x12,
        s.memory[515] == 0x00,
        s.pc == 514,
    ensures
        step_of(s, keys, rnd) == (s.at(512), Ok::<Outcome, ExecError>(Outcome::Continue)),
{
    reveal(execute_of);
    reveal(decode_of);
    assert(fetch_of(s) == Ok::<u16, ExecError>(0x1200));
    assert(decode_of(0x1200) == Instruction::Jump { addr: 512 });
}

/// What holds of the machine that runs `6005 1200` after `n` cycles.
pub open spec fn set_and_loop_after(s: State, n: nat) -> bool {
    let start = initial_state(set_and_loop_rom());
    if n == 0 {
        s == start
    } else if n % 2 == 0 {
        s == start.with_register(0, 5).at(512)
    } else {
        s == start.with_register(0, 5).at(514)
    }
}

/// One more cycle of `6005 1200` succeeds and leads from what holds after
/// `n` cycles to what holds after `n + 1`.
proof fn lemma_set_and_loop_cycle(s: State, n: nat, keys: Seq<bool>, rnd: u8)
    requires
        set_and_loop_after(s, n),
    ensures
        set_and_loop_after(step_of(s, keys, rnd).0, n + 1),
        step_of(s, keys, rnd).1 == Ok::<Outcome, ExecError>(Outcome::Continue),
{
    reveal(execute_of);
    let start = initial_state(set_and_loop_rom());
    assert(start.memory.len() == MEMORY_SIZE);
    assert(start.memory[512] == 0x60 && start.memory[513] == 0x05 && start.memory[514] == 0x12
        && start.memory[515] == 0x00);
    if n % 2 == 0 {
        lemma_cycle_at_load(s, keys, rnd);
        assert(s.with_register(0, 5).v =~= start.with_register(0, 5).v);
    } else {
        lemma_cycle_at_jump(s, keys, rnd);
    }
}

/// The program `6005 1200` sets `V0` to 5 and then jumps back to its own
/// start for ever. After any number of cycles, whatever the keys and the
/// random bytes, the program counter is 512 after an even number of cycles
/// and 514 after an odd number, `V0` is 5 once a cycle has run, nothing
/// else has changed since the start, and no cycle has failed.
pub proof fn lemma_set_and_loop(n: nat, keys: spec_fn(nat) -> Seq<bool>, rnds: spec_fn(nat) -> u8)
    ensures
        set_and_loop_after(after_cycles(initial_state(set_and_loop_rom()), n, keys, rnds), n),
        after_cycles(initial_state(set_and_loop_rom()), n, keys, rnds).pc == if n % 2 == 0 {
            512int
        } else {
            514int
        },
        n >= 1 ==> after_cycles(initial_state(set_and_loop_rom()), n, keys, rnds).v[0] == 5,
        n >= 1 ==> step_of(
            after_cycles(initial_state(set_and_loop_rom()), (n - 1) as nat, keys, rnds),
            keys((n - 1) as nat),
            rnds((n - 1) as nat),
        ).1 == Ok::<Outcome, ExecError>(Outcome::Continue),
    decreases n,
{
    reveal(execute_of);
    if n > 0 {
        let k = (n - 1) as nat;
        lemma_set_and_loop(k, keys, rnds);
        let before = after_cycles(initial_state(set_and_loop_rom()), k, keys, rnds);
        lemma_set_and_loop_cycle(before, k, keys(k), rnds(k));
    }
}

} // verus!
