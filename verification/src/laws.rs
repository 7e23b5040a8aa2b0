//! Laws of the instruction set, proved from its definition.

use vstd::prelude::*;
use crate::state::MachineState;
use crate::semantics::{
    op_family, op_x, op_y, op_n, op_kk, opcode_at, can_fetch, execute_spec, step_spec,
    first_pressed, tick_timers_spec,
};
use crate::display::{draw_spec, sprite_bit, cell_index, lemma_cell_offsets};

verus! {

/// Whatever instruction is executed, the state keeps its shape: memory,
/// registers, keypad and framebuffer keep their sizes, and the call stack
/// never holds more than sixteen return addresses.
pub proof fn law_execute_keeps_valid(s: MachineState, op: u16, rnd: u8)
    requires
        s.valid(),
        execute_spec(s, op, rnd) is Ok,
    ensures
        execute_spec(s, op, rnd)->Ok_0.valid(),
{
}

/// A call followed at once by a return comes back to the instruction after
/// the call, with the call stack as it was.
pub proof fn law_call_then_return(s: MachineState, op: u16, rnd: u8)
    requires
        s.valid(),
        op_family(op) == 2,
        s.stack.len() < 16,
    ensures
        execute_spec(s, op, rnd) is Ok,
        execute_spec(execute_spec(s, op, rnd)->Ok_0, 0x00EE, rnd) == Ok::<
            MachineState,
            crate::state::Error,
        >(s),
{
    let called = execute_spec(s, op, rnd)->Ok_0;
    assert(called.stack.drop_last() =~= s.stack);
}

/// The three arithmetic instructions between registers leave in VF exactly
/// the carry of the addition, or 1 where the subtraction needed no borrow
/// and 0 where it did. This holds whichever registers are the operands, the
/// same register twice and VF itself included.
pub proof fn law_arithmetic_flag(s: MachineState, op: u16, rnd: u8)
    requires
        s.valid(),
        op_family(op) == 8,
        op_n(op) == 4 || op_n(op) == 5 || op_n(op) == 7,
    ensures
        execute_spec(s, op, rnd) is Ok,
        execute_spec(s, op, rnd)->Ok_0.v[0xF] == (if op_n(op) == 4 {
            if s.v[op_x(op)] + s.v[op_y(op)] > 255 {
                1u8
            } else {
                0u8
            }
        } else if op_n(op) == 5 {
            if s.v[op_x(op)] >= s.v[op_y(op)] {
                1u8
            } else {
                0u8
            }
        } else {
            if s.v[op_y(op)] >= s.v[op_x(op)] {
                1u8
            } else {
                0u8
            }
        }),
{
}

/// Drawing the same sprite at the same place twice gives back the
/// framebuffer as it was.
pub proof fn law_draw_twice_restores(
    display: Seq<bool>,
    ram: Seq<u8>,
    i: int,
    vx: int,
    vy: int,
    rows: int,
)
    requires
        display.len() == 2048,
    ensures
        draw_spec(draw_spec(display, ram, i, vx, vy, rows), ram, i, vx, vy, rows) == display,
{
    assert(draw_spec(draw_spec(display, ram, i, vx, vy, rows), ram, i, vx, vy, rows) =~= display);
}

/// Executing a draw instruction twice in a row gives back the framebuffer
/// as it was, provided the second draw finds in Vx and Vy what the first
/// one found: drawing writes VF, so a draw that takes a coordinate from VF
/// may move.
pub proof fn law_draw_instruction_twice(s: MachineState, op: u16, rnd: u8)
    requires
        s.valid(),
        op_family(op) == 0xD,
        execute_spec(s, op, rnd) is Ok,
        execute_spec(s, op, rnd)->Ok_0.v[op_x(op)] == s.v[op_x(op)],
        execute_spec(s, op, rnd)->Ok_0.v[op_y(op)] == s.v[op_y(op)],
    ensures
        execute_spec(execute_spec(s, op, rnd)->Ok_0, op, rnd) is Ok,
        execute_spec(execute_spec(s, op, rnd)->Ok_0, op, rnd)->Ok_0.display == s.display,
{
    law_draw_twice_restores(
        s.display,
        s.ram,
        s.i as int,
        s.v[op_x(op)] as int,
        s.v[op_y(op)] as int,
        op_n(op) + 1,
    );
}

/// Sprites wrap around the screen's edges: the pixel in column `col` of row
/// `row` of a sprite drawn at `(vx, vy)` lands on the cell
/// `((vx + col) mod 64, (vy + row) mod 32)`, which is toggled if the pixel
/// is set and kept if it is not.
pub proof fn law_draw_wraps(
    display: Seq<bool>,
    ram: Seq<u8>,
    i: int,
    vx: int,
    vy: int,
    rows: int,
    row: int,
    col: int,
)
    requires
        display.len() == 2048,
        0 <= vx,
        0 <= vy,
        0 <= row < rows <= 32,
        0 <= col < 8,
    ensures
        0 <= cell_index(vx, vy, row, col) < 2048,
        cell_index(vx, vy, row, col) % 64 == (vx + col) % 64,
        cell_index(vx, vy, row, col) / 64 == (vy + row) % 32,
        ({
            let cell = cell_index(vx, vy, row, col);
            draw_spec(display, ram, i, vx, vy, rows)[cell] == (display[cell] != sprite_bit(
                ram[i + row],
                col,
            ))
        }),
{
    lemma_cell_offsets(vx, vy, row, col, cell_index(vx, vy, row, col));
}

/// A timer that is zero stays zero, and a timer that is not loses exactly
/// one: counting down never passes below zero.
pub proof fn law_timers_stop_at_zero(s: MachineState)
    ensures
        s.dt == 0 ==> tick_timers_spec(s).dt == 0,
        s.st == 0 ==> tick_timers_spec(s).st == 0,
        s.dt > 0 ==> tick_timers_spec(s).dt == s.dt - 1,
        s.st > 0 ==> tick_timers_spec(s).st == s.st - 1,
{
}

/// Whether the instruction word `op` is one of the four skip instructions
/// that compare registers.
pub open spec fn is_compare_skip(op: u16) -> bool {
    let f = op_family(op);
    f == 3 || f == 4 || (f == 5 && op_n(op) == 0) || (f == 9 && op_n(op) == 0)
}

/// Whether the compare-and-skip instruction `op` skips in state `s`.
pub open spec fn skip_taken(s: MachineState, op: u16) -> bool {
    let f = op_family(op);
    let vx = s.v[op_x(op)];
    let vy = s.v[op_y(op)];
    if f == 3 {
        vx == op_kk(op)
    } else if f == 4 {
        vx != op_kk(op)
    } else if f == 5 {
        vx == vy
    } else {
        vx != vy
    }
}

/// A step over a compare-and-skip instruction changes the program counter
/// and nothing else: it moves on by 4 where the instruction skips and by 2
/// where it does not.
pub proof fn law_skip_advances(s: MachineState, rnd: u8)
    requires
        s.valid(),
        can_fetch(s),
        is_compare_skip(opcode_at(s.ram, s.pc as int)),
    ensures
        step_spec(s, rnd) == Ok::<MachineState, crate::state::Error>(
            MachineState {
                pc: if skip_taken(s, opcode_at(s.ram, s.pc as int)) {
                    (s.pc + 4) as u16
                } else {
                    (s.pc + 2) as u16
                },
                ..s
            },
        ),
{
}

/// `first_pressed` finds the lowest pressed key at or after `from`: the key
/// it names is down and none between `from` and it is; it names no key
/// exactly if none from `from` on is down.
pub proof fn lemma_first_pressed(keys: Seq<bool>, from: int)
    requires
        0 <= from <= keys.len(),
    ensures
        from <= first_pressed(keys, from) <= keys.len(),
        first_pressed(keys, from) < keys.len() ==> keys[first_pressed(keys, from)],
        forall|j: int| from <= j < first_pressed(keys, from) ==> !keys[j],
    decreases keys.len() - from,
{
    if from < keys.len() && !keys[from] {
        lemma_first_pressed(keys, from + 1);
    }
}

/// Whether the instruction word `op` is the one that waits for a key.
pub open spec fn is_wait_key(op: u16) -> bool {
    op_family(op) == 0xF && op_y(op) == 0 && op_n(op) == 0xA
}

/// A step over the instruction that waits for a key, with no key down,
/// changes nothing at all: the program counter is back on the instruction.
pub proof fn law_wait_key_repeats(s: MachineState, rnd: u8)
    requires
        s.valid(),
        can_fetch(s),
        is_wait_key(opcode_at(s.ram, s.pc as int)),
        forall|k: int| 0 <= k < 16 ==> !s.keys[k],
    ensures
        step_spec(s, rnd) == Ok::<MachineState, crate::state::Error>(s),
{
    lemma_first_pressed(s.keys, 0);
}

/// A step over the instruction that waits for a key, with `key` the lowest
/// key that is down, puts `key` into Vx and moves on to the next
/// instruction.
pub proof fn law_wait_key_latches(s: MachineState, rnd: u8, key: int)
    requires
        s.valid(),
        can_fetch(s),
        is_wait_key(opcode_at(s.ram, s.pc as int)),
        0 <= key < 16,
        s.keys[key],
        forall|k: int| 0 <= k < key ==> !s.keys[k],
    ensures
        step_spec(s, rnd) == Ok::<MachineState, crate::state::Error>(
            MachineState {
                v: s.v.update(op_x(opcode_at(s.ram, s.pc as int)), key as u8),
                pc: (s.pc + 2) as u16,
                ..s
            },
        ),
{
    lemma_first_pressed(s.keys, 0);
}

} // verus!
