//! A CHIP-8 virtual machine: memory and framebuffer bus, instruction
//! decoder and executor, and timer pacing, with verified contracts.

pub mod font;
pub mod instr;
pub mod interconnect;
pub mod cpu;
pub mod timer;
