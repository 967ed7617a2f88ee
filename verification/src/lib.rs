//! A CHIP-8 virtual machine core: memory, registers, call stack, timers,
//! keypad and a monochrome framebuffer, driven one instruction at a time.
//!
//! A driver owns one [`CPU`], loads a program into it, calls
//! [`CPU::cycle`] at the processor's rate and [`CPU::tick_timers`] at the
//! timers' rate, latches keys with [`CPU::keypress`], and shows
//! [`CPU::get_display`] whenever `display_update_flag` is set.

pub mod cpu;
pub mod decode;
pub mod display;
pub mod error;
pub mod execute;
pub mod fonts;
pub mod laws;
mod random;
pub mod semantics;
pub mod state;

pub use cpu::{
    CPU, FONT_ADDRESS_OFFSET, NUM_KEYS, NUM_REGISTERS, RAM_SIZE, ROM_SIZE_MAX, STACK_SIZE,
    START_ADDRESS,
};
pub use decode::slice_u16;
pub use display::{SCREEN_BUFF_SIZE, SCREEN_HEIGHT, SCREEN_WIDTH};
pub use error::CoreError;
