//! A verified interpreter for a stack-based virtual machine executing a
//! subset of the Ethereum Virtual Machine (EVM) instruction set.
//!
//! The crate is organised around the execution engine:
//! - [`u256`]: the 256-bit unsigned integer kernel with its full
//!   arithmetic/bitwise/shift surface, specified against mathematical
//!   natural numbers;
//! - [`instructions`]: the external opcode byte space and the compact
//!   internal opcode tags, with the decode table between them;
//! - [`stack`]: the fixed-capacity 1024-slot operand stack;
//! - [`memory`]: the lazily-extended linear memory with big-endian word
//!   access;
//! - [`rom`]: the preprocessed read-only program image with its JUMPDEST
//!   validity bitmap;
//! - [`hex`]: hexadecimal encoding and decoding of byte strings;
//! - [`vm`]: the dispatch loop, proved to follow a small-step
//!   specification of the instruction semantics.

pub mod hex;
pub mod instructions;
pub mod memory;
pub mod rom;
pub mod stack;
pub mod u256;
pub mod vm;
