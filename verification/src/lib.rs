//! A small 16-bit virtual machine: the shared memory image, the CPU core,
//! the GPU command-stream interpreter and the assembler that produces the
//! image, each with its behaviour stated as a contract.

pub mod assembler;
pub mod cpu;
pub mod encode;
pub mod gpu;
pub mod image;
pub mod laws;
pub mod literal;
pub mod memory;
pub mod opcodes;
pub mod program;
pub mod text;
