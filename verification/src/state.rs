//! The mathematical model of the machine: its sizes, its errors and the
//! record of everything an instruction can read or change.

use vstd::prelude::*;

verus! {

/// Width of the framebuffer in pixels.
pub const DISPLAY_WIDTH: usize = 64;

/// Height of the framebuffer in pixels.
pub const DISPLAY_HEIGHT: usize = 32;

/// Number of framebuffer cells, stored row by row.
pub const DISPLAY_SIZE: usize = 2048;

/// Number of bytes of memory.
pub const RAM_SIZE: usize = 4096;

/// Number of general registers V0..VF.
pub const NUM_REGS: usize = 16;

/// Number of return addresses the call stack can hold.
pub const STACK_SIZE: usize = 16;

/// Number of keys on the keypad.
pub const NUM_KEYS: usize = 16;

/// Address at which programs are loaded and execution starts.
pub const START_ADDRESS: u16 = 0x200;

/// Why an operation on the machine was refused. A refused operation leaves
/// the machine exactly as it was.
#[derive(Clone, Copy, Debug, PartialEq, Eq, Structural)]
pub enum Error {
    /// The instruction word `opcode`, fetched at `address`, is not part of
    /// the instruction set.
    UnknownOpcode { opcode: u16, address: u16 },
    /// A memory address or a key index fell outside the machine.
    OutOfBounds,
    /// A call was made with all stack slots in use.
    StackOverflow,
    /// A return was made with no call outstanding.
    StackUnderflow,
}

/// Points on which machines of this kind have differed from one another,
/// and on which programs therefore differ in what they expect.
#[derive(Clone, Copy, Debug, PartialEq, Eq, Structural)]
pub struct Quirks {
    /// What the two shift instructions shift: Vy if set, as on the earliest
    /// machines; Vx if not, as on later ones. Either way the result goes
    /// to Vx.
    pub shift_reads_vy: bool,
}

/// The quirks of a machine made by [`crate::CPU::new`]: shifts read Vx.
pub open spec fn standard_quirks() -> Quirks {
    Quirks { shift_reads_vy: false }
}

/// Everything the machine holds, as plain mathematical values.
pub struct MachineState {
    /// The conventions the machine follows. No instruction changes them.
    pub quirks: Quirks,
    /// Memory, `RAM_SIZE` bytes.
    pub ram: Seq<u8>,
    /// The registers V0..VF.
    pub v: Seq<u8>,
    /// The index register I.
    pub i: u16,
    /// The delay timer.
    pub dt: u8,
    /// The sound timer.
    pub st: u8,
    /// The program counter.
    pub pc: u16,
    /// The outstanding return addresses, oldest first.
    pub stack: Seq<u16>,
    /// The keypad: `keys[k]` holds while key `k` is down.
    pub keys: Seq<bool>,
    /// The framebuffer: cell `(x, y)` is at index `x + 64 * y`.
    pub display: Seq<bool>,
}

impl MachineState {
    /// The shape every machine state has: the fixed sizes of its parts and
    /// a call stack within its capacity.
    pub open spec fn valid(self) -> bool {
        &&& self.ram.len() == RAM_SIZE
        &&& self.v.len() == NUM_REGS
        &&& self.stack.len() <= STACK_SIZE
        &&& self.keys.len() == NUM_KEYS
        &&& self.display.len() == DISPLAY_SIZE
    }
}

/// A framebuffer with every cell off.
pub open spec fn blank_display() -> Seq<bool> {
    Seq::new(DISPLAY_SIZE as nat, |k: int| false)
}

} // verus!
