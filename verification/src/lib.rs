//! A CHIP-8 virtual machine: memory, registers, the instruction set, a
//! monochrome display composited by XOR, and two countdown timers.
//!
//! Every function in this crate carries a contract over a mathematical
//! model of the machine and is proved to meet it.
pub mod emulator;
