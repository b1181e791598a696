//! A CHIP-8 interpreter core: memory, registers, call stack, timers, keypad
//! and framebuffer held in one machine value, with every instruction stated
//! over a mathematical model of that machine.
pub mod error;
pub mod model;
pub mod chip8;
pub mod laws;
mod random;
