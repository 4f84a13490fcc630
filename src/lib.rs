//! An interpreter for the classic 16-bit fantasy instruction set: machine
//! state, a fetch/decode/execute step, timers, keypad and a monochrome
//! framebuffer, each operation proved against a mathematical model.

pub mod machine;
pub mod emulator;
pub mod laws;

pub use emulator::Emulator;
pub use machine::{Fault, SCREEN_HEIGHT, SCREEN_WIDTH};
