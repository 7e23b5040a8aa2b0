//! The instruction set, as functions on [`MachineState`].
//!
//! An instruction word has four 4-bit fields. The first selects the family;
//! the others are, depending on the family, register numbers `x` and `y`, a
//! nibble `n`, a byte `kk` or an address `nnn`.

use vstd::prelude::*;
use crate::state::{MachineState, Error, Quirks, blank_display};
use crate::display::{draw_spec, draw_collides};

verus! {

/// The first field of an instruction word: its family.
pub open spec fn op_family(op: u16) -> int {
    op as int / 4096
}

/// The second field: the register number `x`.
pub open spec fn op_x(op: u16) -> int {
    (op as int / 256) % 16
}

/// The third field: the register number `y`.
pub open spec fn op_y(op: u16) -> int {
    (op as int / 16) % 16
}

/// The fourth field: the nibble `n`.
pub open spec fn op_n(op: u16) -> int {
    op as int % 16
}

/// The low twelve bits: the address `nnn`.
pub open spec fn op_nnn(op: u16) -> u16 {
    (op as int % 4096) as u16
}

/// The low eight bits: the byte `kk`.
pub open spec fn op_kk(op: u16) -> u8 {
    (op as int % 256) as u8
}

/// The address two past `pc`, in 16 bits.
pub open spec fn pc_forward(pc: u16) -> u16 {
    ((pc + 2) % 65536) as u16
}

/// The address two before `pc`, in 16 bits.
pub open spec fn pc_back(pc: u16) -> u16 {
    ((pc - 2) % 65536) as u16
}

/// The state with the next instruction skipped if `cond` holds.
pub open spec fn skip_if(s: MachineState, cond: bool) -> MachineState {
    if cond {
        MachineState { pc: pc_forward(s.pc), ..s }
    } else {
        s
    }
}

/// The value that a shift instruction on Vx and Vy shifts.
pub open spec fn shift_source(v: Seq<u8>, x: int, y: int, quirks: Quirks) -> u8 {
    if quirks.shift_reads_vy {
        v[y]
    } else {
        v[x]
    }
}

/// Whether `n` selects one of the register-to-register operations.
pub open spec fn alu_defined(n: int) -> bool {
    0 <= n <= 7 || n == 0xE
}

/// The value that the register-to-register operation `n` leaves in Vx,
/// where `a` is Vx, `b` is Vy and `shifted` is what a shift shifts.
pub open spec fn alu_result(a: u8, b: u8, shifted: u8, n: int) -> u8 {
    if n == 0 {
        b
    } else if n == 1 {
        a | b
    } else if n == 2 {
        a & b
    } else if n == 3 {
        a ^ b
    } else if n == 4 {
        ((a + b) % 256) as u8
    } else if n == 5 {
        ((a - b) % 256) as u8
    } else if n == 6 {
        (shifted / 2) as u8
    } else if n == 7 {
        ((b - a) % 256) as u8
    } else {
        ((shifted * 2) % 256) as u8
    }
}

/// The flag that the register-to-register operation `n` leaves in VF, if it
/// leaves one: the carry of an addition; 1 for a subtraction that needed no
/// borrow and 0 for one that did; the bit that a shift pushed out.
pub open spec fn alu_flag(a: u8, b: u8, shifted: u8, n: int) -> Option<u8> {
    if n == 4 {
        Some(if a + b > 255 { 1u8 } else { 0u8 })
    } else if n == 5 {
        Some(if a >= b { 1u8 } else { 0u8 })
    } else if n == 6 {
        Some((shifted % 2) as u8)
    } else if n == 7 {
        Some(if b >= a { 1u8 } else { 0u8 })
    } else if n == 0xE {
        Some((shifted / 128) as u8)
    } else {
        None
    }
}

/// The registers after the register-to-register operation `n` on Vx and Vy.
///
/// The flag is written to VF after the result is written to Vx, so with
/// `x == 0xF` the flag is what remains.
pub open spec fn alu_spec(v: Seq<u8>, x: int, y: int, n: int, quirks: Quirks) -> Seq<u8> {
    let shifted = shift_source(v, x, y, quirks);
    let with_result = v.update(x, alu_result(v[x], v[y], shifted, n));
    match alu_flag(v[x], v[y], shifted, n) {
        Some(flag) => with_result.update(0xF, flag),
        None => with_result,
    }
}

/// The index of the first pressed key at or after `from`, or the number of
/// keys if there is none.
pub open spec fn first_pressed(keys: Seq<bool>, from: int) -> int
    decreases keys.len() - from,
{
    if from < 0 || from >= keys.len() {
        keys.len() as int
    } else if keys[from] {
        from
    } else {
        first_pressed(keys, from + 1)
    }
}

/// The state after the instruction that waits for a key: with a key down,
/// Vx receives the lowest such key; with none, the program counter goes back
/// onto the instruction, which so runs again at the next step.
pub open spec fn wait_key_spec(s: MachineState, x: int) -> MachineState {
    let k = first_pressed(s.keys, 0);
    if k < s.keys.len() {
        MachineState { v: s.v.update(x, k as u8), ..s }
    } else {
        MachineState { pc: pc_back(s.pc), ..s }
    }
}

/// The state after a sprite of `n + 1` rows, read from memory at I, has been
/// drawn at `(Vx, Vy)`: VF tells whether a lit cell was turned off.
pub open spec fn draw_step(s: MachineState, x: int, y: int, n: int) -> MachineState {
    let vx = s.v[x] as int;
    let vy = s.v[y] as int;
    let hit = draw_collides(s.display, s.ram, s.i as int, vx, vy, n + 1);
    MachineState {
        display: draw_spec(s.display, s.ram, s.i as int, vx, vy, n + 1),
        v: s.v.update(0xF, if hit { 1u8 } else { 0u8 }),
        ..s
    }
}

/// Memory after the three decimal digits of `value` have been written at
/// `i`, hundreds first.
pub open spec fn bcd_spec(ram: Seq<u8>, i: int, value: u8) -> Seq<u8> {
    ram.update(i, (value / 100) as u8).update(i + 1, ((value / 10) % 10) as u8).update(
        i + 2,
        (value % 10) as u8,
    )
}

/// Memory after V0..Vx have been copied to `i ..= i + x`.
pub open spec fn store_regs_spec(ram: Seq<u8>, v: Seq<u8>, i: int, x: int) -> Seq<u8> {
    Seq::new(ram.len(), |a: int| if i <= a <= i + x { v[a - i] } else { ram[a] })
}

/// The registers after V0..Vx have been read from memory at `i ..= i + x`.
pub open spec fn load_regs_spec(ram: Seq<u8>, v: Seq<u8>, i: int, x: int) -> Seq<u8> {
    Seq::new(v.len(), |r: int| if r <= x { ram[i + r] } else { v[r] })
}

/// What the instruction word `op` does to the state `s`, whose program
/// counter already points past the instruction. `rnd` is the byte that the
/// random instruction draws; no other instruction looks at it.
pub open spec fn execute_spec(s: MachineState, op: u16, rnd: u8) -> Result<MachineState, Error> {
    let f = op_family(op);
    let x = op_x(op);
    let y = op_y(op);
    let n = op_n(op);
    let nnn = op_nnn(op);
    let kk = op_kk(op);
    let vx = s.v[x];
    let vy = s.v[y];
    let i = s.i as int;
    if op == 0x0000 {
        Ok(s)
    } else if op == 0x00E0 {
        Ok(MachineState { display: blank_display(), ..s })
    } else if op == 0x00EE {
        if s.stack.len() == 0 {
            Err(Error::StackUnderflow)
        } else {
            Ok(MachineState { pc: s.stack.last(), stack: s.stack.drop_last(), ..s })
        }
    } else if f == 1 {
        Ok(MachineState { pc: nnn, ..s })
    } else if f == 2 {
        if s.stack.len() >= 16 {
            Err(Error::StackOverflow)
        } else {
            Ok(MachineState { pc: nnn, stack: s.stack.push(s.pc), ..s })
        }
    } else if f == 3 {
        Ok(skip_if(s, vx == kk))
    } else if f == 4 {
        Ok(skip_if(s, vx != kk))
    } else if f == 5 && n == 0 {
        Ok(skip_if(s, vx == vy))
    } else if f == 6 {
        Ok(MachineState { v: s.v.update(x, kk), ..s })
    } else if f == 7 {
        Ok(MachineState { v: s.v.update(x, ((vx + kk) % 256) as u8), ..s })
    } else if f == 8 && alu_defined(n) {
        Ok(MachineState { v: alu_spec(s.v, x, y, n, s.quirks), ..s })
    } else if f == 9 && n == 0 {
        Ok(skip_if(s, vx != vy))
    } else if f == 0xA {
        Ok(MachineState { i: nnn, ..s })
    } else if f == 0xB {
        Ok(MachineState { pc: (nnn + s.v[0]) as u16, ..s })
    } else if f == 0xC {
        Ok(MachineState { v: s.v.update(x, rnd & kk), ..s })
    } else if f == 0xD {
        if i + n >= 4096 {
            Err(Error::OutOfBounds)
        } else {
            Ok(draw_step(s, x, y, n))
        }
    } else if f == 0xE && y == 9 && n == 0xE {
        if vx >= 16 {
            Err(Error::OutOfBounds)
        } else {
            Ok(skip_if(s, s.keys[vx as int]))
        }
    } else if f == 0xE && y == 0xA && n == 1 {
        if vx >= 16 {
            Err(Error::OutOfBounds)
        } else {
            Ok(skip_if(s, !s.keys[vx as int]))
        }
    } else if f == 0xF && y == 0 && n == 7 {
        Ok(MachineState { v: s.v.update(x, s.dt), ..s })
    } else if f == 0xF && y == 0 && n == 0xA {
        Ok(wait_key_spec(s, x))
    } else if f == 0xF && y == 1 && n == 5 {
        Ok(MachineState { dt: vx, ..s })
    } else if f == 0xF && y == 1 && n == 8 {
        Ok(MachineState { st: vx, ..s })
    } else if f == 0xF && y == 1 && n == 0xE {
        Ok(MachineState { i: ((s.i + vx) % 65536) as u16, ..s })
    } else if f == 0xF && y == 2 && n == 9 {
        Ok(MachineState { i: (vx * 5) as u16, ..s })
    } else if f == 0xF && y == 3 && n == 3 {
        if i + 2 >= 4096 {
            Err(Error::OutOfBounds)
        } else {
            Ok(MachineState { ram: bcd_spec(s.ram, i, vx), ..s })
        }
    } else if f == 0xF && y == 5 && n == 5 {
        if i + x >= 4096 {
            Err(Error::OutOfBounds)
        } else {
            Ok(MachineState { ram: store_regs_spec(s.ram, s.v, i, x), ..s })
        }
    } else if f == 0xF && y == 6 && n == 5 {
        if i + x >= 4096 {
            Err(Error::OutOfBounds)
        } else {
            Ok(MachineState { v: load_regs_spec(s.ram, s.v, i, x), ..s })
        }
    } else {
        Err(Error::UnknownOpcode { opcode: op, address: pc_back(s.pc) })
    }
}

/// The instruction word stored at `pc`, high byte first.
pub open spec fn opcode_at(ram: Seq<u8>, pc: int) -> u16 {
    (ram[pc] * 256 + ram[pc + 1]) as u16
}

/// Whether the two bytes of an instruction at `pc` lie inside memory.
pub open spec fn can_fetch(s: MachineState) -> bool {
    s.pc + 1 < 4096
}

/// One whole step: fetch the instruction at the program counter, move the
/// counter past it, and execute it.
pub open spec fn step_spec(s: MachineState, rnd: u8) -> Result<MachineState, Error> {
    if !can_fetch(s) {
        Err(Error::OutOfBounds)
    } else {
        execute_spec(
            MachineState { pc: (s.pc + 2) as u16, ..s },
            opcode_at(s.ram, s.pc as int),
            rnd,
        )
    }
}

/// Whether the instruction at the program counter is the one that draws a
/// random byte.
pub open spec fn draws_random(s: MachineState) -> bool {
    can_fetch(s) && op_family(opcode_at(s.ram, s.pc as int)) == 0xC
}

/// How a step from `before` with the random byte `rnd` ends: in the state
/// that the instruction set prescribes, or with the error it prescribes and
/// the state untouched.
pub open spec fn step_ends(
    before: MachineState,
    rnd: u8,
    res: Result<(), Error>,
    after: MachineState,
) -> bool {
    match step_spec(before, rnd) {
        Ok(next) => res is Ok && after == next,
        Err(e) => res == Err::<(), Error>(e) && after == before,
    }
}

/// The same for the execution of one instruction word already fetched.
pub open spec fn execute_ends(
    before: MachineState,
    op: u16,
    rnd: u8,
    res: Result<(), Error>,
    after: MachineState,
) -> bool {
    match execute_spec(before, op, rnd) {
        Ok(next) => res is Ok && after == next,
        Err(e) => res == Err::<(), Error>(e) && after == before,
    }
}

/// The state a step is made from after the timers have counted down once.
pub open spec fn tick_timers_spec(s: MachineState) -> MachineState {
    MachineState {
        dt: if s.dt > 0 { (s.dt - 1) as u8 } else { 0u8 },
        st: if s.st > 0 { (s.st - 1) as u8 } else { 0u8 },
        ..s
    }
}

} // verus!
