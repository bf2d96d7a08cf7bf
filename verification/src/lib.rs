//! A verified implementation of the Hack computer toolchain: gate-level
//! combinational logic, a 16-bit ALU, clocked sequential elements, a CPU with
//! two-stage (stage-then-commit) semantics, a two-pass assembler for Hack
//! assembly, and a translator from the stack-machine VM language to Hack
//! assembly.

pub mod alu;
pub mod cpu;
pub mod executor;
pub mod gates;
pub mod memory;
pub mod parser;
pub mod sequential;
pub mod text;
pub mod vm;
