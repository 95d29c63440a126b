//! An interpreter for the CHIP-8 virtual machine: memory, registers, call
//! stack, timers, a 64x32 monochrome framebuffer and a single-slot key latch,
//! driven one instruction at a time by a host that owns the window, the sound
//! device and the event loop.
pub mod chip8;
pub mod cpu;
pub mod display;
pub mod error;
pub mod keypad;
pub mod laws;
pub mod memory;
