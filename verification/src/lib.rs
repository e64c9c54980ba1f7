//! A CHIP-8 interpreter: memory, registers, call stack, timers, a 64x32
//! monochrome screen and a sixteen-key keypad, with the complete classic
//! instruction set. `machine` states what every instruction does over a
//! mathematical model of the interpreter, `cpu` carries it out, `frame` runs
//! one video frame and renders the screen, and `laws`
//! proves properties that hold across instructions and steps.

use vstd::prelude::*;

pub mod cpu;
pub mod display;
pub mod font;
pub mod frame;
pub mod keypad;
pub mod instruction_laws;
pub mod laws;
pub mod machine;
mod rng;

verus! {
} // verus!
