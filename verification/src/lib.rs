//! A CHIP-8 virtual machine: memory, registers, call stack, timers, keypad and
//! frame buffer, with the fetch/decode/execute cycle over them.

pub mod cpu;
mod draw;
pub mod error;
pub mod font;
pub mod frame;
pub mod frontend;
mod random;
pub mod stack;
pub mod state;
