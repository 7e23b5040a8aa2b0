//! An interpreter core for the CHIP-8 virtual machine.
//!
//! The machine's state is modelled by [`state::MachineState`], a purely
//! mathematical record; [`semantics`] and [`display`] define, over that
//! record, what one instruction does; [`cpu::CPU`] is the executable
//! machine, whose every operation is proved to follow the model. [`laws`]
//! holds properties of the instruction set that follow from its definition,
//! and [`host`] the little a front end needs to map keys and place pixels.

pub mod state;
pub mod font;
pub mod display;
pub mod semantics;
pub mod laws;
pub mod cpu;
pub mod host;
mod entropy;

pub use cpu::CPU;
pub use state::{Error, Quirks};
