//! The executable machine.

use vstd::prelude::*;
use crate::state::{
    MachineState, Error, Quirks, blank_display, standard_quirks, DISPLAY_SIZE, RAM_SIZE, NUM_REGS,
    STACK_SIZE, NUM_KEYS, START_ADDRESS,
};
use crate::font::{fontset, power_on_ram, FONTSET_SIZE};
use crate::semantics::{
    tick_timers_spec, can_fetch, opcode_at, skip_if, alu_defined, alu_spec, alu_result, alu_flag,
    first_pressed,
    wait_key_spec, draw_step, bcd_spec, store_regs_spec, load_regs_spec, execute_spec,
    execute_ends, step_ends, draws_random,
};
use crate::display::{
    cell_covered, cell_covered_upto, draw_spec, draw_collides, lemma_draw_pixel,
};
use crate::entropy::random_byte;

verus! {

/// The machine: memory, registers, call stack, timers, keypad and
/// framebuffer. Its view is the [`MachineState`] it currently holds.
pub struct CPU {
    quirks: Quirks,
    ram: [u8; RAM_SIZE],
    v_reg: [u8; NUM_REGS],
    i_reg: u16,
    dt: u8,
    st: u8,
    pc: u16,
    sp: u8,
    stack: [u16; STACK_SIZE],
    keys: [bool; NUM_KEYS],
    display: [bool; DISPLAY_SIZE],
}

impl View for CPU {
    type V = MachineState;

    closed spec fn view(&self) -> MachineState {
        MachineState {
            quirks: self.quirks,
            ram: self.ram@,
            v: self.v_reg@,
            i: self.i_reg,
            dt: self.dt,
            st: self.st,
            pc: self.pc,
            stack: self.stack@.take(self.sp as int),
            keys: self.keys@,
            display: self.display@,
        }
    }
}

/// The state of a machine with the given quirks that has just been switched
/// on: the font at the bottom of memory, the program counter at the start
/// address, everything else zero, off or empty.
pub open spec fn power_on_state(quirks: Quirks) -> MachineState {
    MachineState {
        quirks,
        ram: power_on_ram(),
        v: Seq::new(NUM_REGS as nat, |r: int| 0u8),
        i: 0,
        dt: 0,
        st: 0,
        pc: START_ADDRESS,
        stack: Seq::empty(),
        keys: Seq::new(NUM_KEYS as nat, |k: int| false),
        display: blank_display(),
    }
}

/// Memory after the program image `data` has been copied to the start
/// address.
pub open spec fn load_spec(ram: Seq<u8>, data: Seq<u8>) -> Seq<u8> {
    Seq::new(
        ram.len(),
        |a: int|
            if START_ADDRESS <= a < START_ADDRESS + data.len() {
                data[a - START_ADDRESS]
            } else {
                ram[a]
            },
    )
}

/// Computes what the register-to-register operation `n` leaves in Vx.
fn alu_value(a: u8, b: u8, shifted: u8, n: u16) -> (value: u8)
    requires
        alu_defined(n as int),
    ensures
        value == alu_result(a, b, shifted, n as int),
{
    if n == 0 {
        b
    } else if n == 1 {
        a | b
    } else if n == 2 {
        a & b
    } else if n == 3 {
        a ^ b
    } else if n == 4 {
        let sum: u16 = a as u16 + b as u16;
        (sum % 256) as u8
    } else if n == 5 {
        let diff: u16 = 256 + a as u16 - b as u16;
        (diff % 256) as u8
    } else if n == 6 {
        shifted / 2
    } else if n == 7 {
        let diff: u16 = 256 + b as u16 - a as u16;
        (diff % 256) as u8
    } else {
        let twice: u16 = shifted as u16 * 2;
        (twice % 256) as u8
    }
}

/// Computes what the register-to-register operation `n` leaves in VF, if
/// anything.
fn alu_flag_value(a: u8, b: u8, shifted: u8, n: u16) -> (flag: Option<u8>)
    ensures
        flag == alu_flag(a, b, shifted, n as int),
{
    if n == 4 {
        Some(if a as u16 + b as u16 > 255 { 1 } else { 0 })
    } else if n == 5 {
        Some(if a >= b { 1 } else { 0 })
    } else if n == 6 {
        Some(shifted % 2)
    } else if n == 7 {
        Some(if b >= a { 1 } else { 0 })
    } else if n == 0xE {
        Some(shifted / 128)
    } else {
        None
    }
}

impl CPU {
    #[verifier::type_invariant]
    spec fn stack_in_bounds(self) -> bool {
        self.sp <= STACK_SIZE
    }

    /// Whether nothing but memory differs between `self` and `other`.
    spec fn same_but_ram(&self, other: &CPU) -> bool {
        &&& self.quirks == other.quirks
        &&& self.v_reg == other.v_reg
        &&& self.i_reg == other.i_reg
        &&& self.dt == other.dt
        &&& self.st == other.st
        &&& self.pc == other.pc
        &&& self.sp == other.sp
        &&& self.stack == other.stack
        &&& self.keys == other.keys
        &&& self.display == other.display
    }

    /// Whether nothing but the registers V0..VF differs between `self` and
    /// `other`.
    spec fn same_but_registers(&self, other: &CPU) -> bool {
        &&& self.quirks == other.quirks
        &&& self.ram == other.ram
        &&& self.i_reg == other.i_reg
        &&& self.dt == other.dt
        &&& self.st == other.st
        &&& self.pc == other.pc
        &&& self.sp == other.sp
        &&& self.stack == other.stack
        &&& self.keys == other.keys
        &&& self.display == other.display
    }

    /// Whether nothing but the framebuffer differs between `self` and
    /// `other`.
    spec fn same_but_display(&self, other: &CPU) -> bool {
        &&& self.quirks == other.quirks
        &&& self.ram == other.ram
        &&& self.v_reg == other.v_reg
        &&& self.i_reg == other.i_reg
        &&& self.dt == other.dt
        &&& self.st == other.st
        &&& self.pc == other.pc
        &&& self.sp == other.sp
        &&& self.stack == other.stack
        &&& self.keys == other.keys
    }

    /// A machine in its power-on state, with the standard quirks.
    pub fn new() -> (cpu: Self)
        ensures
            cpu@ == power_on_state(standard_quirks()),
            cpu@.valid(),
    {
        Self::with_quirks(Quirks { shift_reads_vy: false })
    }

    /// A machine in its power-on state that follows the given quirks.
    pub fn with_quirks(quirks: Quirks) -> (cpu: Self)
        ensures
            cpu@ == power_on_state(quirks),
            cpu@.valid(),
    {
        let mut cpu = Self {
            quirks,
            ram: [0;RAM_SIZE],
            v_reg: [0;NUM_REGS],
            i_reg: 0,
            dt: 0,
            st: 0,
            pc: START_ADDRESS,
            sp: 0,
            stack: [0;STACK_SIZE],
            keys: [false;NUM_KEYS],
            display: [false;DISPLAY_SIZE],
        };
        cpu.install_font();
        proof {
            let s = cpu@;
            let p = power_on_state(quirks);
            assert(s.ram =~= p.ram);
            assert(s.v =~= p.v);
            assert(s.stack =~= p.stack);
            assert(s.keys =~= p.keys);
            assert(s.display =~= p.display);
        }
        cpu
    }

    /// Copies the font table to the bottom of memory.
    fn install_font(&mut self)
        ensures
            final(self).same_but_ram(old(self)),
            forall|a: int|
                0 <= a < RAM_SIZE ==> final(self).ram@[a] == if a < FONTSET_SIZE {
                    crate::font::font_table()[a]
                } else {
                    old(self).ram@[a]
                },
    {
        proof {
            use_type_invariant(&*self);
        }
        let table = fontset();
        let mut k: usize = 0;
        while k < FONTSET_SIZE
            invariant
                k <= FONTSET_SIZE,
                self.sp <= STACK_SIZE,
                table@ == crate::font::font_table(),
                self.same_but_ram(old(self)),
                forall|a: int|
                    0 <= a < RAM_SIZE ==> self.ram@[a] == if a < k {
                        table@[a]
                    } else {
                        old(self).ram@[a]
                    },
            decreases FONTSET_SIZE - k,
        {
            self.ram[k] = table[k];
            k += 1;
        }
    }

    /// Puts the machine back into its power-on state; its quirks stay. All
    /// of memory is cleared and the font written anew, so a program has to
    /// be loaded again before the machine is stepped.
    pub fn reset(&mut self)
        ensures
            final(self)@ == power_on_state(old(self)@.quirks),
            final(self)@.valid(),
    {
        proof {
            use_type_invariant(&*self);
        }
        self.ram = [0;RAM_SIZE];
        self.v_reg = [0;NUM_REGS];
        self.i_reg = 0;
        self.dt = 0;
        self.st = 0;
        self.pc = START_ADDRESS;
        self.sp = 0;
        self.stack = [0;STACK_SIZE];
        self.keys = [false;NUM_KEYS];
        self.display = [false;DISPLAY_SIZE];
        self.install_font();
        proof {
            let s = self@;
            let p = power_on_state(self.quirks);
            assert(s.ram =~= p.ram);
            assert(s.v =~= p.v);
            assert(s.stack =~= p.stack);
            assert(s.keys =~= p.keys);
            assert(s.display =~= p.display);
        }
    }

    /// Counts both timers down by one, stopping at zero.
    pub fn tick_timers(&mut self)
        ensures
            final(self)@ == tick_timers_spec(old(self)@),
            final(self)@.valid(),
    {
        proof {
            use_type_invariant(&*self);
        }
        if self.dt > 0 {
            self.dt -= 1;
        }
        if self.st > 0 {
            self.st -= 1;
        }
    }

    /// The framebuffer, row by row, 64 cells to the row.
    pub fn get_display(&self) -> (cells: &[bool])
        ensures
            cells@ == self@.display,
            cells@.len() == DISPLAY_SIZE,
    {
        &self.display
    }

    /// Records that key `n` went down (`state` true) or up.
    pub fn key_press(&mut self, n: usize, state: bool)
        requires
            n < NUM_KEYS,
        ensures
            final(self)@ == (MachineState {
                keys: old(self)@.keys.update(n as int, state),
                ..old(self)@
            }),
            final(self)@.valid(),
    {
        proof {
            use_type_invariant(&*self);
        }
        self.keys[n] = state;
    }

    /// Copies the program image `data` into memory at the start address.
    /// An image that does not fit is refused with `OutOfBounds`.
    pub fn load(&mut self, data: &[u8]) -> (res: Result<(), Error>)
        ensures
            data@.len() <= RAM_SIZE - START_ADDRESS ==> res is Ok && final(self)@ == (MachineState {
                ram: load_spec(old(self)@.ram, data@),
                ..old(self)@
            }),
            data@.len() > RAM_SIZE - START_ADDRESS ==> res == Err::<(), Error>(Error::OutOfBounds)
                && final(self)@ == old(self)@,
            final(self)@.valid(),
    {
        proof {
            use_type_invariant(&*self);
        }
        let start: usize = START_ADDRESS as usize;
        if data.len() > RAM_SIZE - start {
            return Err(Error::OutOfBounds);
        }
        let mut k: usize = 0;
        while k < data.len()
            invariant
                k <= data@.len() <= RAM_SIZE - start,
                self.sp <= STACK_SIZE,
                start == START_ADDRESS,
                self.same_but_ram(old(self)),
                forall|a: int|
                    0 <= a < RAM_SIZE ==> self.ram@[a] == if start <= a < start + k {
                        data@[a - start]
                    } else {
                        old(self).ram@[a]
                    },
            decreases data@.len() - k,
        {
            self.ram[start + k] = data[k];
            k += 1;
        }
        proof {
            assert(self@.ram =~= load_spec(old(self)@.ram, data@));
        }
        Ok(())
    }

    /// Pushes a return address.
    pub fn push(&mut self, val: u16) -> (res: Result<(), Error>)
        ensures
            old(self)@.stack.len() < STACK_SIZE ==> res is Ok && final(self)@ == (MachineState {
                stack: old(self)@.stack.push(val),
                ..old(self)@
            }),
            old(self)@.stack.len() >= STACK_SIZE ==> res == Err::<(), Error>(Error::StackOverflow)
                && final(self)@ == old(self)@,
            final(self)@.valid(),
    {
        proof {
            use_type_invariant(&*self);
        }
        if self.sp as usize >= STACK_SIZE {
            return Err(Error::StackOverflow);
        }
        self.stack[self.sp as usize] = val;
        self.sp += 1;
        proof {
            assert(self@.stack =~= old(self)@.stack.push(val));
        }
        Ok(())
    }

    /// Pops the most recent return address.
    pub fn pop(&mut self) -> (res: Result<u16, Error>)
        ensures
            old(self)@.stack.len() > 0 ==> res == Ok::<u16, Error>(old(self)@.stack.last())
                && final(self)@ == (MachineState {
                stack: old(self)@.stack.drop_last(),
                ..old(self)@
            }),
            old(self)@.stack.len() == 0 ==> res == Err::<u16, Error>(Error::StackUnderflow)
                && final(self)@ == old(self)@,
            final(self)@.valid(),
    {
        proof {
            use_type_invariant(&*self);
        }
        if self.sp == 0 {
            return Err(Error::StackUnderflow);
        }
        self.sp -= 1;
        proof {
            assert(self@.stack =~= old(self)@.stack.drop_last());
        }
        Ok(self.stack[self.sp as usize])
    }

    /// Reads the instruction word at the program counter, high byte first,
    /// and moves the counter past it. A counter too close to the end of
    /// memory for two bytes gives `OutOfBounds`.
    pub fn fetch(&mut self) -> (res: Result<u16, Error>)
        ensures
            can_fetch(old(self)@) ==> res == Ok::<u16, Error>(
                opcode_at(old(self)@.ram, old(self)@.pc as int),
            ) && final(self)@ == (MachineState { pc: (old(self)@.pc + 2) as u16, ..old(self)@ }),
            !can_fetch(old(self)@) ==> res == Err::<u16, Error>(Error::OutOfBounds) && final(self)@
                == old(self)@,
            final(self)@.valid(),
    {
        proof {
            use_type_invariant(&*self);
        }
        if self.pc as usize + 1 >= RAM_SIZE {
            return Err(Error::OutOfBounds);
        }
        let hi: u16 = self.ram[self.pc as usize] as u16;
        let lo: u16 = self.ram[(self.pc + 1) as usize] as u16;
        self.pc += 2;
        assert((hi << 8) | lo == hi * 256 + lo) by (bit_vector)
            requires
                hi < 256,
                lo < 256,
        ;
        Ok((hi << 8) | lo)
    }

    /// Moves the program counter past the next instruction if `cond` holds.
    fn skip_next(&mut self, cond: bool)
        ensures
            final(self)@ == skip_if(old(self)@, cond),
            final(self).sp == old(self).sp,
    {
        proof {
            use_type_invariant(&*self);
        }
        if cond {
            self.pc = if self.pc <= 0xFFFD {
                self.pc + 2
            } else {
                self.pc - 0xFFFE
            };
        }
    }

    /// The register-to-register operation `n` on Vx and Vy.
    fn alu(&mut self, x: usize, y: usize, n: u16)
        requires
            x < NUM_REGS,
            y < NUM_REGS,
            alu_defined(n as int),
        ensures
            final(self)@ == (MachineState {
                v: alu_spec(old(self)@.v, x as int, y as int, n as int, old(self)@.quirks),
                ..old(self)@
            }),
            final(self).sp == old(self).sp,
    {
        proof {
            use_type_invariant(&*self);
        }
        let a: u8 = self.v_reg[x];
        let b: u8 = self.v_reg[y];
        let shifted: u8 = if self.quirks.shift_reads_vy {
            b
        } else {
            a
        };
        self.v_reg[x] = alu_value(a, b, shifted, n);
        match alu_flag_value(a, b, shifted, n) {
            Some(flag) => {
                self.v_reg[0xF] = flag;
            },
            None => {},
        }
    }

    /// Draws the sprite of `n + 1` rows that memory holds at I, with its
    /// top left corner at `(Vx, Vy)`, and sets VF to tell of a collision.
    fn draw(&mut self, x: usize, y: usize, n: usize) -> (res: Result<(), Error>)
        requires
            x < NUM_REGS,
            y < NUM_REGS,
            n < 16,
        ensures
            old(self)@.i + n < RAM_SIZE ==> res is Ok && final(self)@ == draw_step(
                old(self)@,
                x as int,
                y as int,
                n as int,
            ),
            old(self)@.i + n >= RAM_SIZE ==> res == Err::<(), Error>(Error::OutOfBounds)
                && final(self)@ == old(self)@,
            final(self).sp == old(self).sp,
    {
        proof {
            use_type_invariant(&*self);
        }
        let base: usize = self.i_reg as usize;
        if base + n >= RAM_SIZE {
            return Err(Error::OutOfBounds);
        }
        let vx: usize = self.v_reg[x] as usize;
        let vy: usize = self.v_reg[y] as usize;
        let ghost before = self.display@;
        let ghost ram = self.ram@;
        let mut flipped = false;
        let mut row: usize = 0;
        while row <= n
            invariant
                row <= n + 1,
                n < 16,
                before.len() == DISPLAY_SIZE,
                base + n < RAM_SIZE,
                vx < 256,
                vy < 256,
                self.sp <= STACK_SIZE,
                self.ram@ == ram,
                self.same_but_display(old(self)),
                forall|k: int|
                    0 <= k < 2048 ==> self.display@[k] == (before[k] != cell_covered_upto(
                        ram,
                        base as int,
                        vx as int,
                        vy as int,
                        row as int,
                        0,
                        k,
                    )),
                flipped == (exists|k: int|
                    0 <= k < 2048 && #[trigger] before[k] && cell_covered_upto(
                        ram,
                        base as int,
                        vx as int,
                        vy as int,
                        row as int,
                        0,
                        k,
                    )),
            decreases n + 1 - row,
        {
            let data: u8 = self.ram[base + row];
            let mut col: u8 = 0;
            while col < 8
                invariant
                    col <= 8,
                    row <= n < 16,
                    before.len() == DISPLAY_SIZE,
                    base + n < RAM_SIZE,
                    vx < 256,
                    vy < 256,
                    self.sp <= STACK_SIZE,
                    data == ram[base + row],
                    self.ram@ == ram,
                    self.same_but_display(old(self)),
                    forall|k: int|
                        0 <= k < 2048 ==> self.display@[k] == (before[k] != cell_covered_upto(
                            ram,
                            base as int,
                            vx as int,
                            vy as int,
                            row as int,
                            col as int,
                            k,
                        )),
                    flipped == (exists|k: int|
                        0 <= k < 2048 && #[trigger] before[k] && cell_covered_upto(
                            ram,
                            base as int,
                            vx as int,
                            vy as int,
                            row as int,
                            col as int,
                            k,
                        )),
                decreases 8 - col,
            {
                proof {
                    lemma_draw_pixel(
                        before,
                        self.display@,
                        flipped,
                        ram,
                        base as int,
                        vx as int,
                        vy as int,
                        row as int,
                        col as int,
                    );
                }
                let px: usize = (vx + col as usize) % 64;
                let py: usize = (vy + row) % 32;
                let cell: usize = px + 64 * py;
                if data & (0x80u8 >> col) != 0 {
                    flipped = flipped || self.display[cell];
                    self.display[cell] = !self.display[cell];
                }
                col += 1;
            }
            proof {
                let next_row: int = row + 1;
                assert forall|k: int| 0 <= k < 2048 implies #[trigger] cell_covered_upto(
                    ram,
                    base as int,
                    vx as int,
                    vy as int,
                    row as int,
                    8,
                    k,
                ) == cell_covered_upto(ram, base as int, vx as int, vy as int, next_row, 0, k) by {}
            }
            row += 1;
        }
        proof {
            let rows: int = n + 1;
            assert forall|k: int| 0 <= k < 2048 implies #[trigger] cell_covered_upto(
                ram,
                base as int,
                vx as int,
                vy as int,
                rows,
                0,
                k,
            ) == cell_covered(ram, base as int, vx as int, vy as int, rows, k) by {}
            assert(flipped == draw_collides(before, ram, base as int, vx as int, vy as int, n + 1));
            assert(self.display@ =~= draw_spec(
                before,
                ram,
                base as int,
                vx as int,
                vy as int,
                n + 1,
            ));
        }
        self.v_reg[0xF] = if flipped { 1 } else { 0 };
        Ok(())
    }

    /// Looks for a pressed key, lowest first: Vx receives the first one
    /// found; if there is none the program counter goes back by one
    /// instruction.
    fn wait_key(&mut self, x: usize)
        requires
            x < NUM_REGS,
        ensures
            final(self)@ == wait_key_spec(old(self)@, x as int),
            final(self).sp == old(self).sp,
    {
        proof {
            use_type_invariant(&*self);
        }
        let mut k: usize = 0;
        while k < NUM_KEYS
            invariant
                k <= NUM_KEYS,
                x < NUM_REGS,
                self.sp <= STACK_SIZE,
                *self == *old(self),
                first_pressed(self.keys@, 0) == first_pressed(self.keys@, k as int),
            decreases NUM_KEYS - k,
        {
            if self.keys[k] {
                self.v_reg[x] = k as u8;
                return ;
            }
            k += 1;
        }
        self.pc = if self.pc >= 2 {
            self.pc - 2
        } else {
            self.pc + 0xFFFE
        };
    }

    /// Writes the decimal digits of `value` to memory at I.
    fn store_bcd(&mut self, value: u8) -> (res: Result<(), Error>)
        ensures
            old(self)@.i + 2 < RAM_SIZE ==> res is Ok && final(self)@ == (MachineState {
                ram: bcd_spec(old(self)@.ram, old(self)@.i as int, value),
                ..old(self)@
            }),
            old(self)@.i + 2 >= RAM_SIZE ==> res == Err::<(), Error>(Error::OutOfBounds)
                && final(self)@ == old(self)@,
            final(self).sp == old(self).sp,
    {
        proof {
            use_type_invariant(&*self);
        }
        let base: usize = self.i_reg as usize;
        if base + 2 >= RAM_SIZE {
            return Err(Error::OutOfBounds);
        }
        self.ram[base] = value / 100;
        self.ram[base + 1] = (value / 10) % 10;
        self.ram[base + 2] = value % 10;
        Ok(())
    }

    /// Copies V0..Vx to memory at I.
    fn store_regs(&mut self, x: usize) -> (res: Result<(), Error>)
        requires
            x < NUM_REGS,
        ensures
            old(self)@.i + x < RAM_SIZE ==> res is Ok && final(self)@ == (MachineState {
                ram: store_regs_spec(old(self)@.ram, old(self)@.v, old(self)@.i as int, x as int),
                ..old(self)@
            }),
            old(self)@.i + x >= RAM_SIZE ==> res == Err::<(), Error>(Error::OutOfBounds)
                && final(self)@ == old(self)@,
            final(self).sp == old(self).sp,
    {
        proof {
            use_type_invariant(&*self);
        }
        let base: usize = self.i_reg as usize;
        if base + x >= RAM_SIZE {
            return Err(Error::OutOfBounds);
        }
        let mut r: usize = 0;
        while r <= x
            invariant
                r <= x + 1,
                x < NUM_REGS,
                base + x < RAM_SIZE,
                self.sp <= STACK_SIZE,
                self.same_but_ram(old(self)),
                forall|a: int|
                    0 <= a < RAM_SIZE ==> self.ram@[a] == if base <= a < base + r {
                        self.v_reg@[a - base]
                    } else {
                        old(self).ram@[a]
                    },
            decreases x + 1 - r,
        {
            self.ram[base + r] = self.v_reg[r];
            r += 1;
        }
        proof {
            assert(self@.ram =~= store_regs_spec(
                old(self)@.ram,
                old(self)@.v,
                old(self)@.i as int,
                x as int,
            ));
        }
        Ok(())
    }

    /// Reads V0..Vx from memory at I.
    fn load_regs(&mut self, x: usize) -> (res: Result<(), Error>)
        requires
            x < NUM_REGS,
        ensures
            old(self)@.i + x < RAM_SIZE ==> res is Ok && final(self)@ == (MachineState {
                v: load_regs_spec(old(self)@.ram, old(self)@.v, old(self)@.i as int, x as int),
                ..old(self)@
            }),
            old(self)@.i + x >= RAM_SIZE ==> res == Err::<(), Error>(Error::OutOfBounds)
                && final(self)@ == old(self)@,
            final(self).sp == old(self).sp,
    {
        proof {
            use_type_invariant(&*self);
        }
        let base: usize = self.i_reg as usize;
        if base + x >= RAM_SIZE {
            return Err(Error::OutOfBounds);
        }
        let mut r: usize = 0;
        while r <= x
            invariant
                r <= x + 1,
                x < NUM_REGS,
                base + x < RAM_SIZE,
                self.sp <= STACK_SIZE,
                self.same_but_registers(old(self)),
                forall|q: int|
                    0 <= q < NUM_REGS ==> self.v_reg@[q] == if q < r {
                        self.ram@[base + q]
                    } else {
                        old(self).v_reg@[q]
                    },
            decreases x + 1 - r,
        {
            self.v_reg[r] = self.ram[base + r];
            r += 1;
        }
        proof {
            assert(self@.v =~= load_regs_spec(
                old(self)@.ram,
                old(self)@.v,
                old(self)@.i as int,
                x as int,
            ));
        }
        Ok(())
    }

    /// Executes the instruction word `op`. The program counter must already
    /// point past the instruction, as it does after [`CPU::fetch`]: a word
    /// that is no instruction is reported with the address two before the
    /// counter. `rnd` is the byte that the random instruction uses.
    ///
    /// On an error nothing has changed.
    pub fn execute(&mut self, op: u16, rnd: u8) -> (res: Result<(), Error>)
        ensures
            execute_ends(old(self)@, op, rnd, res, final(self)@),
            final(self)@.valid(),
    {
        proof {
            use_type_invariant(&*self);
        }
        let f: u16 = op / 4096;
        let x: usize = ((op / 256) % 16) as usize;
        let y: usize = ((op / 16) % 16) as usize;
        let n: u16 = op % 16;
        let nnn: u16 = op % 4096;
        let kk: u8 = (op % 256) as u8;
        if op == 0x0000 {
            Ok(())
        } else if op == 0x00E0 {
            self.display = [false;DISPLAY_SIZE];
            proof {
                assert(self.display@ =~= blank_display());
            }
            Ok(())
        } else if op == 0x00EE {
            match self.pop() {
                Ok(addr) => {
                    proof {
                        use_type_invariant(&*self);
                    }
                    self.pc = addr;
                    Ok(())
                },
                Err(e) => Err(e),
            }
        } else if f == 1 {
            self.pc = nnn;
            Ok(())
        } else if f == 2 {
            match self.push(self.pc) {
                Ok(()) => {
                    proof {
                        use_type_invariant(&*self);
                    }
                    self.pc = nnn;
                    Ok(())
                },
                Err(e) => Err(e),
            }
        } else if f == 3 {
            self.skip_next(self.v_reg[x] == kk);
            Ok(())
        } else if f == 4 {
            self.skip_next(self.v_reg[x] != kk);
            Ok(())
        } else if f == 5 && n == 0 {
            self.skip_next(self.v_reg[x] == self.v_reg[y]);
            Ok(())
        } else if f == 6 {
            self.v_reg[x] = kk;
            Ok(())
        } else if f == 7 {
            let sum: u16 = self.v_reg[x] as u16 + kk as u16;
            self.v_reg[x] = (sum % 256) as u8;
            Ok(())
        } else if f == 8 && (n <= 7 || n == 0xE) {
            self.alu(x, y, n);
            Ok(())
        } else if f == 9 && n == 0 {
            self.skip_next(self.v_reg[x] != self.v_reg[y]);
            Ok(())
        } else if f == 0xA {
            self.i_reg = nnn;
            Ok(())
        } else if f == 0xB {
            self.pc = nnn + self.v_reg[0] as u16;
            Ok(())
        } else if f == 0xC {
            self.v_reg[x] = rnd & kk;
            Ok(())
        } else if f == 0xD {
            self.draw(x, y, n as usize)
        } else if f == 0xE && y == 9 && n == 0xE {
            let key: usize = self.v_reg[x] as usize;
            if key >= NUM_KEYS {
                return Err(Error::OutOfBounds);
            }
            self.skip_next(self.keys[key]);
            Ok(())
        } else if f == 0xE && y == 0xA && n == 1 {
            let key: usize = self.v_reg[x] as usize;
            if key >= NUM_KEYS {
                return Err(Error::OutOfBounds);
            }
            self.skip_next(!self.keys[key]);
            Ok(())
        } else if f == 0xF && y == 0 && n == 7 {
            self.v_reg[x] = self.dt;
            Ok(())
        } else if f == 0xF && y == 0 && n == 0xA {
            self.wait_key(x);
            Ok(())
        } else if f == 0xF && y == 1 && n == 5 {
            self.dt = self.v_reg[x];
            Ok(())
        } else if f == 0xF && y == 1 && n == 8 {
            self.st = self.v_reg[x];
            Ok(())
        } else if f == 0xF && y == 1 && n == 0xE {
            let sum: u32 = self.i_reg as u32 + self.v_reg[x] as u32;
            self.i_reg = (sum % 65536) as u16;
            Ok(())
        } else if f == 0xF && y == 2 && n == 9 {
            self.i_reg = self.v_reg[x] as u16 * 5;
            Ok(())
        } else if f == 0xF && y == 3 && n == 3 {
            self.store_bcd(self.v_reg[x])
        } else if f == 0xF && y == 5 && n == 5 {
            self.store_regs(x)
        } else if f == 0xF && y == 6 && n == 5 {
            self.load_regs(x)
        } else {
            let address: u16 = if self.pc >= 2 {
                self.pc - 2
            } else {
                self.pc + 0xFFFE
            };
            Err(Error::UnknownOpcode { opcode: op, address })
        }
    }

    /// Executes the instruction just fetched; on an error the program
    /// counter goes back onto it.
    fn finish(&mut self, op: u16, rnd: u8) -> (res: Result<(), Error>)
        requires
            old(self)@.pc >= 2,
        ensures
            match execute_spec(old(self)@, op, rnd) {
                Ok(next) => res is Ok && final(self)@ == next,
                Err(e) => res == Err::<(), Error>(e) && final(self)@ == (MachineState {
                    pc: (old(self)@.pc - 2) as u16,
                    ..old(self)@
                }),
            },
            final(self)@.valid(),
    {
        match self.execute(op, rnd) {
            Ok(()) => Ok(()),
            Err(e) => {
                proof {
                    use_type_invariant(&*self);
                }
                self.pc -= 2;
                Err(e)
            },
        }
    }

    /// One step of the machine with `rnd` as the byte that the random
    /// instruction draws: fetches the instruction at the program counter
    /// and executes it.
    ///
    /// On an error nothing has changed: the program counter still points at
    /// the instruction that failed.
    pub fn tick_with(&mut self, rnd: u8) -> (res: Result<(), Error>)
        ensures
            step_ends(old(self)@, rnd, res, final(self)@),
            final(self)@.valid(),
    {
        match self.fetch() {
            Ok(op) => self.finish(op, rnd),
            Err(e) => Err(e),
        }
    }

    /// One step of the machine. The random instruction draws its byte from
    /// the thread's random number generator, so the step ends as
    /// [`CPU::tick_with`] does for some byte; which byte matters only for
    /// that one instruction.
    pub fn tick(&mut self) -> (res: Result<(), Error>)
        ensures
            exists|rnd: u8| step_ends(old(self)@, rnd, res, final(self)@),
            !draws_random(old(self)@) ==> forall|rnd: u8|
                step_ends(old(self)@, rnd, res, final(self)@),
            final(self)@.valid(),
    {
        match self.fetch() {
            Ok(op) => {
                let rnd: u8 = if op / 4096 == 0xC {
                    random_byte()
                } else {
                    0
                };
                let res = self.finish(op, rnd);
                proof {
                    assert(step_ends(old(self)@, rnd, res, self@));
                }
                res
            },
            Err(e) => {
                proof {
                    assert(step_ends(old(self)@, 0u8, Err::<(), Error>(e), self@));
                }
                Err(e)
            },
        }
    }

    /// The quirks the machine follows.
    pub fn quirks(&self) -> (quirks: Quirks)
        ensures
            quirks == self@.quirks,
    {
        self.quirks
    }

    /// The value of register Vx.
    pub fn register(&self, x: usize) -> (value: u8)
        requires
            x < NUM_REGS,
        ensures
            value == self@.v[x as int],
    {
        self.v_reg[x]
    }

    /// The index register I.
    pub fn index_register(&self) -> (value: u16)
        ensures
            value == self@.i,
    {
        self.i_reg
    }

    /// The program counter.
    pub fn program_counter(&self) -> (value: u16)
        ensures
            value == self@.pc,
    {
        self.pc
    }

    /// The delay timer.
    pub fn delay_timer(&self) -> (value: u8)
        ensures
            value == self@.dt,
    {
        self.dt
    }

    /// The sound timer. The machine should sound while it is not zero.
    pub fn sound_timer(&self) -> (value: u8)
        ensures
            value == self@.st,
    {
        self.st
    }

    /// The byte of memory at `addr`.
    pub fn memory(&self, addr: usize) -> (value: u8)
        requires
            addr < RAM_SIZE,
        ensures
            value == self@.ram[addr as int],
    {
        self.ram[addr]
    }

    /// The number of calls that have not returned yet.
    pub fn stack_depth(&self) -> (depth: usize)
        ensures
            depth == self@.stack.len(),
            depth <= STACK_SIZE,
    {
        proof {
            use_type_invariant(self);
        }
        self.sp as usize
    }
}

} // verus!
