//! The opcode byte space and the compact internal opcode tags.
//!
//! [`EvmOpcode`] names the recognised external opcode bytes; [`Opcode`] is
//! the dense internal enumeration that the dispatch loop works on.  The
//! tags are ordered so that the `PUSH`, `DUP` and `SWAP` families form
//! contiguous runs, which [`opcode_ordinal`] makes precise.

use vstd::prelude::*;

verus! {

/// The compact internal opcode tag space.
#[derive(Copy, Clone, Debug, PartialEq, Eq, Structural)]
pub enum Opcode {
    STOP,
    ADD,
    MUL,
    SUB,
    SIGNEXTEND,
    GT,
    EQ,
    ISZERO,
    AND,
    OR,
    XOR,
    NOT,
    BYTE,
    SHL,
    CODESIZE,
    POP,
    MLOAD,
    MSTORE,
    MSTORE8,
    JUMP,
    JUMPI,
    PC,
    MSIZE,
    GAS,
    JUMPDEST,
    PUSH1,
    PUSH2,
    PUSH3,
    PUSH4,
    PUSH5,
    PUSH6,
    PUSH7,
    PUSH8,
    PUSH9,
    PUSH10,
    PUSH11,
    PUSH12,
    PUSH13,
    PUSH14,
    PUSH15,
    PUSH16,
    PUSH17,
    PUSH18,
    PUSH19,
    PUSH20,
    PUSH21,
    PUSH22,
    PUSH23,
    PUSH24,
    PUSH25,
    PUSH26,
    PUSH27,
    PUSH28,
    PUSH29,
    PUSH30,
    PUSH31,
    PUSH32,
    DUP1,
    DUP2,
    DUP3,
    DUP4,
    DUP5,
    DUP6,
    DUP7,
    DUP8,
    DUP9,
    DUP10,
    DUP11,
    DUP12,
    DUP13,
    DUP14,
    DUP15,
    DUP16,
    SWAP1,
    SWAP2,
    SWAP3,
    SWAP4,
    SWAP5,
    SWAP6,
    SWAP7,
    SWAP8,
    SWAP9,
    SWAP10,
    SWAP11,
    SWAP12,
    SWAP13,
    SWAP14,
    SWAP15,
    SWAP16,
    RETURN,
    INVALID,
}

/// The recognised external opcodes, named after their byte values in the
/// instruction set.
#[derive(Copy, Clone, Debug, PartialEq, Eq, Structural)]
pub enum EvmOpcode {
    STOP,
    ADD,
    MUL,
    SUB,
    SIGNEXTEND,
    GT,
    EQ,
    ISZERO,
    AND,
    OR,
    XOR,
    NOT,
    BYTE,
    SHL,
    CODESIZE,
    POP,
    MLOAD,
    MSTORE,
    MSTORE8,
    JUMP,
    JUMPI,
    PC,
    MSIZE,
    GAS,
    JUMPDEST,
    PUSH1,
    PUSH2,
    PUSH3,
    PUSH4,
    PUSH5,
    PUSH6,
    PUSH7,
    PUSH8,
    PUSH9,
    PUSH10,
    PUSH11,
    PUSH12,
    PUSH13,
    PUSH14,
    PUSH15,
    PUSH16,
    PUSH17,
    PUSH18,
    PUSH19,
    PUSH20,
    PUSH21,
    PUSH22,
    PUSH23,
    PUSH24,
    PUSH25,
    PUSH26,
    PUSH27,
    PUSH28,
    PUSH29,
    PUSH30,
    PUSH31,
    PUSH32,
    DUP1,
    DUP2,
    DUP3,
    DUP4,
    DUP5,
    DUP6,
    DUP7,
    DUP8,
    DUP9,
    DUP10,
    DUP11,
    DUP12,
    DUP13,
    DUP14,
    DUP15,
    DUP16,
    SWAP1,
    SWAP2,
    SWAP3,
    SWAP4,
    SWAP5,
    SWAP6,
    SWAP7,
    SWAP8,
    SWAP9,
    SWAP10,
    SWAP11,
    SWAP12,
    SWAP13,
    SWAP14,
    SWAP15,
    SWAP16,
    RETURN,
    INVALID,
}

/// One decoded instruction: an address in the bytecode and the opcode
/// found there, with the immediate bytes for the `PUSH` family.
pub enum EvmInstruction<'a> {
    SingleByte { addr: usize, opcode: EvmOpcode },
    MultiByte { addr: usize, opcode: EvmOpcode, bytes: &'a [u8] },
}

/// The position of a tag in the internal enumeration: `PUSH1` to `PUSH32`,
/// `DUP1` to `DUP16` and `SWAP1` to `SWAP16` are contiguous runs.
pub open spec fn opcode_ordinal(op: Opcode) -> nat {
    match op {
        Opcode::STOP => 0,
        Opcode::ADD => 1,
        Opcode::MUL => 2,
        Opcode::SUB => 3,
        Opcode::SIGNEXTEND => 4,
        Opcode::GT => 5,
        Opcode::EQ => 6,
        Opcode::ISZERO => 7,
        Opcode::AND => 8,
        Opcode::OR => 9,
        Opcode::XOR => 10,
        Opcode::NOT => 11,
        Opcode::BYTE => 12,
        Opcode::SHL => 13,
        Opcode::CODESIZE => 14,
        Opcode::POP => 15,
        Opcode::MLOAD => 16,
        Opcode::MSTORE => 17,
        Opcode::MSTORE8 => 18,
        Opcode::JUMP => 19,
        Opcode::JUMPI => 20,
        Opcode::PC => 21,
        Opcode::MSIZE => 22,
        Opcode::GAS => 23,
        Opcode::JUMPDEST => 24,
        Opcode::PUSH1 => 25,
        Opcode::PUSH2 => 26,
        Opcode::PUSH3 => 27,
        Opcode::PUSH4 => 28,
        Opcode::PUSH5 => 29,
        Opcode::PUSH6 => 30,
        Opcode::PUSH7 => 31,
        Opcode::PUSH8 => 32,
        Opcode::PUSH9 => 33,
        Opcode::PUSH10 => 34,
        Opcode::PUSH11 => 35,
        Opcode::PUSH12 => 36,
        Opcode::PUSH13 => 37,
        Opcode::PUSH14 => 38,
        Opcode::PUSH15 => 39,
        Opcode::PUSH16 => 40,
        Opcode::PUSH17 => 41,
        Opcode::PUSH18 => 42,
        Opcode::PUSH19 => 43,
        Opcode::PUSH20 => 44,
        Opcode::PUSH21 => 45,
        Opcode::PUSH22 => 46,
        Opcode::PUSH23 => 47,
        Opcode::PUSH24 => 48,
        Opcode::PUSH25 => 49,
        Opcode::PUSH26 => 50,
        Opcode::PUSH27 => 51,
        Opcode::PUSH28 => 52,
        Opcode::PUSH29 => 53,
        Opcode::PUSH30 => 54,
        Opcode::PUSH31 => 55,
        Opcode::PUSH32 => 56,
        Opcode::DUP1 => 57,
        Opcode::DUP2 => 58,
        Opcode::DUP3 => 59,
        Opcode::DUP4 => 60,
        Opcode::DUP5 => 61,
        Opcode::DUP6 => 62,
        Opcode::DUP7 => 63,
        Opcode::DUP8 => 64,
        Opcode::DUP9 => 65,
        Opcode::DUP10 => 66,
        Opcode::DUP11 => 67,
        Opcode::DUP12 => 68,
        Opcode::DUP13 => 69,
        Opcode::DUP14 => 70,
        Opcode::DUP15 => 71,
        Opcode::DUP16 => 72,
        Opcode::SWAP1 => 73,
        Opcode::SWAP2 => 74,
        Opcode::SWAP3 => 75,
        Opcode::SWAP4 => 76,
        Opcode::SWAP5 => 77,
        Opcode::SWAP6 => 78,
        Opcode::SWAP7 => 79,
        Opcode::SWAP8 => 80,
        Opcode::SWAP9 => 81,
        Opcode::SWAP10 => 82,
        Opcode::SWAP11 => 83,
        Opcode::SWAP12 => 84,
        Opcode::SWAP13 => 85,
        Opcode::SWAP14 => 86,
        Opcode::SWAP15 => 87,
        Opcode::SWAP16 => 88,
        Opcode::RETURN => 89,
        Opcode::INVALID => 90,
    }
}

/// True for the `PUSH1` to `PUSH32` run of tags.
pub open spec fn spec_is_push(op: Opcode) -> bool {
    25 <= opcode_ordinal(op) <= 56
}

/// True for the `DUP1` to `DUP16` run of tags.
pub open spec fn spec_is_dup(op: Opcode) -> bool {
    57 <= opcode_ordinal(op) <= 72
}

/// True for the `SWAP1` to `SWAP16` run of tags.
pub open spec fn spec_is_swap(op: Opcode) -> bool {
    73 <= opcode_ordinal(op) <= 88
}

/// The external byte value of a recognised opcode.
pub open spec fn evm_opcode_byte(op: EvmOpcode) -> u8 {
    match op {
        EvmOpcode::STOP => 0x00,
        EvmOpcode::ADD => 0x01,
        EvmOpcode::MUL => 0x02,
        EvmOpcode::SUB => 0x03,
        EvmOpcode::SIGNEXTEND => 0x0b,
        EvmOpcode::GT => 0x11,
        EvmOpcode::EQ => 0x14,
        EvmOpcode::ISZERO => 0x15,
        EvmOpcode::AND => 0x16,
        EvmOpcode::OR => 0x17,
        EvmOpcode::XOR => 0x18,
        EvmOpcode::NOT => 0x19,
        EvmOpcode::BYTE => 0x1a,
        EvmOpcode::SHL => 0x1b,
        EvmOpcode::CODESIZE => 0x38,
        EvmOpcode::POP => 0x50,
        EvmOpcode::MLOAD => 0x51,
        EvmOpcode::MSTORE => 0x52,
        EvmOpcode::MSTORE8 => 0x53,
        EvmOpcode::JUMP => 0x56,
        EvmOpcode::JUMPI => 0x57,
        EvmOpcode::PC => 0x58,
        EvmOpcode::MSIZE => 0x59,
        EvmOpcode::GAS => 0x5a,
        EvmOpcode::JUMPDEST => 0x5b,
        EvmOpcode::PUSH1 => 0x60,
        EvmOpcode::PUSH2 => 0x61,
        EvmOpcode::PUSH3 => 0x62,
        EvmOpcode::PUSH4 => 0x63,
        EvmOpcode::PUSH5 => 0x64,
        EvmOpcode::PUSH6 => 0x65,
        EvmOpcode::PUSH7 => 0x66,
        EvmOpcode::PUSH8 => 0x67,
        EvmOpcode::PUSH9 => 0x68,
        EvmOpcode::PUSH10 => 0x69,
        EvmOpcode::PUSH11 => 0x6a,
        EvmOpcode::PUSH12 => 0x6b,
        EvmOpcode::PUSH13 => 0x6c,
        EvmOpcode::PUSH14 => 0x6d,
        EvmOpcode::PUSH15 => 0x6e,
        EvmOpcode::PUSH16 => 0x6f,
        EvmOpcode::PUSH17 => 0x70,
        EvmOpcode::PUSH18 => 0x71,
        EvmOpcode::PUSH19 => 0x72,
        EvmOpcode::PUSH20 => 0x73,
        EvmOpcode::PUSH21 => 0x74,
        EvmOpcode::PUSH22 => 0x75,
        EvmOpcode::PUSH23 => 0x76,
        EvmOpcode::PUSH24 => 0x77,
        EvmOpcode::PUSH25 => 0x78,
        EvmOpcode::PUSH26 => 0x79,
        EvmOpcode::PUSH27 => 0x7a,
        EvmOpcode::PUSH28 => 0x7b,
        EvmOpcode::PUSH29 => 0x7c,
        EvmOpcode::PUSH30 => 0x7d,
        EvmOpcode::PUSH31 => 0x7e,
        EvmOpcode::PUSH32 => 0x7f,
        EvmOpcode::DUP1 => 0x80,
        EvmOpcode::DUP2 => 0x81,
        EvmOpcode::DUP3 => 0x82,
        EvmOpcode::DUP4 => 0x83,
        EvmOpcode::DUP5 => 0x84,
        EvmOpcode::DUP6 => 0x85,
        EvmOpcode::DUP7 => 0x86,
        EvmOpcode::DUP8 => 0x87,
        EvmOpcode::DUP9 => 0x88,
        EvmOpcode::DUP10 => 0x89,
        EvmOpcode::DUP11 => 0x8a,
        EvmOpcode::DUP12 => 0x8b,
        EvmOpcode::DUP13 => 0x8c,
        EvmOpcode::DUP14 => 0x8d,
        EvmOpcode::DUP15 => 0x8e,
        EvmOpcode::DUP16 => 0x8f,
        EvmOpcode::SWAP1 => 0x90,
        EvmOpcode::SWAP2 => 0x91,
        EvmOpcode::SWAP3 => 0x92,
        EvmOpcode::SWAP4 => 0x93,
        EvmOpcode::SWAP5 => 0x94,
        EvmOpcode::SWAP6 => 0x95,
        EvmOpcode::SWAP7 => 0x96,
        EvmOpcode::SWAP8 => 0x97,
        EvmOpcode::SWAP9 => 0x98,
        EvmOpcode::SWAP10 => 0x99,
        EvmOpcode::SWAP11 => 0x9a,
        EvmOpcode::SWAP12 => 0x9b,
        EvmOpcode::SWAP13 => 0x9c,
        EvmOpcode::SWAP14 => 0x9d,
        EvmOpcode::SWAP15 => 0x9e,
        EvmOpcode::SWAP16 => 0x9f,
        EvmOpcode::RETURN => 0xf3,
        EvmOpcode::INVALID => 0xfe,
    }
}

/// The internal tag of each external opcode, by name.
pub open spec fn spec_to_internal(op: EvmOpcode) -> Opcode {
    match op {
        EvmOpcode::STOP => Opcode::STOP,
        EvmOpcode::ADD => Opcode::ADD,
        EvmOpcode::MUL => Opcode::MUL,
        EvmOpcode::SUB => Opcode::SUB,
        EvmOpcode::SIGNEXTEND => Opcode::SIGNEXTEND,
        EvmOpcode::GT => Opcode::GT,
        EvmOpcode::EQ => Opcode::EQ,
        EvmOpcode::ISZERO => Opcode::ISZERO,
        EvmOpcode::AND => Opcode::AND,
        EvmOpcode::OR => Opcode::OR,
        EvmOpcode::XOR => Opcode::XOR,
        EvmOpcode::NOT => Opcode::NOT,
        EvmOpcode::BYTE => Opcode::BYTE,
        EvmOpcode::SHL => Opcode::SHL,
        EvmOpcode::CODESIZE => Opcode::CODESIZE,
        EvmOpcode::POP => Opcode::POP,
        EvmOpcode::MLOAD => Opcode::MLOAD,
        EvmOpcode::MSTORE => Opcode::MSTORE,
        EvmOpcode::MSTORE8 => Opcode::MSTORE8,
        EvmOpcode::JUMP => Opcode::JUMP,
        EvmOpcode::JUMPI => Opcode::JUMPI,
        EvmOpcode::PC => Opcode::PC,
        EvmOpcode::MSIZE => Opcode::MSIZE,
        EvmOpcode::GAS => Opcode::GAS,
        EvmOpcode::JUMPDEST => Opcode::JUMPDEST,
        EvmOpcode::PUSH1 => Opcode::PUSH1,
        EvmOpcode::PUSH2 => Opcode::PUSH2,
        EvmOpcode::PUSH3 => Opcode::PUSH3,
        EvmOpcode::PUSH4 => Opcode::PUSH4,
        EvmOpcode::PUSH5 => Opcode::PUSH5,
        EvmOpcode::PUSH6 => Opcode::PUSH6,
        EvmOpcode::PUSH7 => Opcode::PUSH7,
        EvmOpcode::PUSH8 => Opcode::PUSH8,
        EvmOpcode::PUSH9 => Opcode::PUSH9,
        EvmOpcode::PUSH10 => Opcode::PUSH10,
        EvmOpcode::PUSH11 => Opcode::PUSH11,
        EvmOpcode::PUSH12 => Opcode::PUSH12,
        EvmOpcode::PUSH13 => Opcode::PUSH13,
        EvmOpcode::PUSH14 => Opcode::PUSH14,
        EvmOpcode::PUSH15 => Opcode::PUSH15,
        EvmOpcode::PUSH16 => Opcode::PUSH16,
        EvmOpcode::PUSH17 => Opcode::PUSH17,
        EvmOpcode::PUSH18 => Opcode::PUSH18,
        EvmOpcode::PUSH19 => Opcode::PUSH19,
        EvmOpcode::PUSH20 => Opcode::PUSH20,
        EvmOpcode::PUSH21 => Opcode::PUSH21,
        EvmOpcode::PUSH22 => Opcode::PUSH22,
        EvmOpcode::PUSH23 => Opcode::PUSH23,
        EvmOpcode::PUSH24 => Opcode::PUSH24,
        EvmOpcode::PUSH25 => Opcode::PUSH25,
        EvmOpcode::PUSH26 => Opcode::PUSH26,
        EvmOpcode::PUSH27 => Opcode::PUSH27,
        EvmOpcode::PUSH28 => Opcode::PUSH28,
        EvmOpcode::PUSH29 => Opcode::PUSH29,
        EvmOpcode::PUSH30 => Opcode::PUSH30,
        EvmOpcode::PUSH31 => Opcode::PUSH31,
        EvmOpcode::PUSH32 => Opcode::PUSH32,
        EvmOpcode::DUP1 => Opcode::DUP1,
        EvmOpcode::DUP2 => Opcode::DUP2,
        EvmOpcode::DUP3 => Opcode::DUP3,
        EvmOpcode::DUP4 => Opcode::DUP4,
        EvmOpcode::DUP5 => Opcode::DUP5,
        EvmOpcode::DUP6 => Opcode::DUP6,
        EvmOpcode::DUP7 => Opcode::DUP7,
        EvmOpcode::DUP8 => Opcode::DUP8,
        EvmOpcode::DUP9 => Opcode::DUP9,
        EvmOpcode::DUP10 => Opcode::DUP10,
        EvmOpcode::DUP11 => Opcode::DUP11,
        EvmOpcode::DUP12 => Opcode::DUP12,
        EvmOpcode::DUP13 => Opcode::DUP13,
        EvmOpcode::DUP14 => Opcode::DUP14,
        EvmOpcode::DUP15 => Opcode::DUP15,
        EvmOpcode::DUP16 => Opcode::DUP16,
        EvmOpcode::SWAP1 => Opcode::SWAP1,
        EvmOpcode::SWAP2 => Opcode::SWAP2,
        EvmOpcode::SWAP3 => Opcode::SWAP3,
        EvmOpcode::SWAP4 => Opcode::SWAP4,
        EvmOpcode::SWAP5 => Opcode::SWAP5,
        EvmOpcode::SWAP6 => Opcode::SWAP6,
        EvmOpcode::SWAP7 => Opcode::SWAP7,
        EvmOpcode::SWAP8 => Opcode::SWAP8,
        EvmOpcode::SWAP9 => Opcode::SWAP9,
        EvmOpcode::SWAP10 => Opcode::SWAP10,
        EvmOpcode::SWAP11 => Opcode::SWAP11,
        EvmOpcode::SWAP12 => Opcode::SWAP12,
        EvmOpcode::SWAP13 => Opcode::SWAP13,
        EvmOpcode::SWAP14 => Opcode::SWAP14,
        EvmOpcode::SWAP15 => Opcode::SWAP15,
        EvmOpcode::SWAP16 => Opcode::SWAP16,
        EvmOpcode::RETURN => Opcode::RETURN,
        EvmOpcode::INVALID => Opcode::INVALID,
    }
}

/// The 256-entry decode table: every byte that names no recognised opcode
/// collapses to `INVALID`.
#[verifier::opaque]
pub open spec fn spec_decode(b: u8) -> Opcode {
    if b == 0x00 {
        Opcode::STOP
    } else if b == 0x01 {
        Opcode::ADD
    } else if b == 0x02 {
        Opcode::MUL
    } else if b == 0x03 {
        Opcode::SUB
    } else if b == 0x0b {
        Opcode::SIGNEXTEND
    } else if b == 0x11 {
        Opcode::GT
    } else if b == 0x14 {
        Opcode::EQ
    } else if b == 0x15 {
        Opcode::ISZERO
    } else if b == 0x16 {
        Opcode::AND
    } else if b == 0x17 {
        Opcode::OR
    } else if b == 0x18 {
        Opcode::XOR
    } else if b == 0x19 {
        Opcode::NOT
    } else if b == 0x1a {
        Opcode::BYTE
    } else if b == 0x1b {
        Opcode::SHL
    } else if b == 0x38 {
        Opcode::CODESIZE
    } else if b == 0x50 {
        Opcode::POP
    } else if b == 0x51 {
        Opcode::MLOAD
    } else if b == 0x52 {
        Opcode::MSTORE
    } else if b == 0x53 {
        Opcode::MSTORE8
    } else if b == 0x56 {
        Opcode::JUMP
    } else if b == 0x57 {
        Opcode::JUMPI
    } else if b == 0x58 {
        Opcode::PC
    } else if b == 0x59 {
        Opcode::MSIZE
    } else if b == 0x5a {
        Opcode::GAS
    } else if b == 0x5b {
        Opcode::JUMPDEST
    } else if b == 0x60 {
        Opcode::PUSH1
    } else if b == 0x61 {
        Opcode::PUSH2
    } else if b == 0x62 {
        Opcode::PUSH3
    } else if b == 0x63 {
        Opcode::PUSH4
    } else if b == 0x64 {
        Opcode::PUSH5
    } else if b == 0x65 {
        Opcode::PUSH6
    } else if b == 0x66 {
        Opcode::PUSH7
    } else if b == 0x67 {
        Opcode::PUSH8
    } else if b == 0x68 {
        Opcode::PUSH9
    } else if b == 0x69 {
        Opcode::PUSH10
    } else if b == 0x6a {
        Opcode::PUSH11
    } else if b == 0x6b {
        Opcode::PUSH12
    } else if b == 0x6c {
        Opcode::PUSH13
    } else if b == 0x6d {
        Opcode::PUSH14
    } else if b == 0x6e {
        Opcode::PUSH15
    } else if b == 0x6f {
        Opcode::PUSH16
    } else if b == 0x70 {
        Opcode::PUSH17
    } else if b == 0x71 {
        Opcode::PUSH18
    } else if b == 0x72 {
        Opcode::PUSH19
    } else if b == 0x73 {
        Opcode::PUSH20
    } else if b == 0x74 {
        Opcode::PUSH21
    } else if b == 0x75 {
        Opcode::PUSH22
    } else if b == 0x76 {
        Opcode::PUSH23
    } else if b == 0x77 {
        Opcode::PUSH24
    } else if b == 0x78 {
        Opcode::PUSH25
    } else if b == 0x79 {
        Opcode::PUSH26
    } else if b == 0x7a {
        Opcode::PUSH27
    } else if b == 0x7b {
        Opcode::PUSH28
    } else if b == 0x7c {
        Opcode::PUSH29
    } else if b == 0x7d {
        Opcode::PUSH30
    } else if b == 0x7e {
        Opcode::PUSH31
    } else if b == 0x7f {
        Opcode::PUSH32
    } else if b == 0x80 {
        Opcode::DUP1
    } else if b == 0x81 {
        Opcode::DUP2
    } else if b == 0x82 {
        Opcode::DUP3
    } else if b == 0x83 {
        Opcode::DUP4
    } else if b == 0x84 {
        Opcode::DUP5
    } else if b == 0x85 {
        Opcode::DUP6
    } else if b == 0x86 {
        Opcode::DUP7
    } else if b == 0x87 {
        Opcode::DUP8
    } else if b == 0x88 {
        Opcode::DUP9
    } else if b == 0x89 {
        Opcode::DUP10
    } else if b == 0x8a {
        Opcode::DUP11
    } else if b == 0x8b {
        Opcode::DUP12
    } else if b == 0x8c {
        Opcode::DUP13
    } else if b == 0x8d {
        Opcode::DUP14
    } else if b == 0x8e {
        Opcode::DUP15
    } else if b == 0x8f {
        Opcode::DUP16
    } else if b == 0x90 {
        Opcode::SWAP1
    } else if b == 0x91 {
        Opcode::SWAP2
    } else if b == 0x92 {
        Opcode::SWAP3
    } else if b == 0x93 {
        Opcode::SWAP4
    } else if b == 0x94 {
        Opcode::SWAP5
    } else if b == 0x95 {
        Opcode::SWAP6
    } else if b == 0x96 {
        Opcode::SWAP7
    } else if b == 0x97 {
        Opcode::SWAP8
    } else if b == 0x98 {
        Opcode::SWAP9
    } else if b == 0x99 {
        Opcode::SWAP10
    } else if b == 0x9a {
        Opcode::SWAP11
    } else if b == 0x9b {
        Opcode::SWAP12
    } else if b == 0x9c {
        Opcode::SWAP13
    } else if b == 0x9d {
        Opcode::SWAP14
    } else if b == 0x9e {
        Opcode::SWAP15
    } else if b == 0x9f {
        Opcode::SWAP16
    } else if b == 0xf3 {
        Opcode::RETURN
    } else {
        Opcode::INVALID
    }
}

/// Maps an external opcode byte to its internal tag; unrecognised bytes
/// yield `INVALID`.
pub fn decode_opcode(b: u8) -> (r: Opcode)
    ensures
        r == spec_decode(b),
{
    proof {
        reveal(spec_decode);
    }
    match b {
        0x00 => Opcode::STOP,
        0x01 => Opcode::ADD,
        0x02 => Opcode::MUL,
        0x03 => Opcode::SUB,
        0x0b => Opcode::SIGNEXTEND,
        0x11 => Opcode::GT,
        0x14 => Opcode::EQ,
        0x15 => Opcode::ISZERO,
        0x16 => Opcode::AND,
        0x17 => Opcode::OR,
        0x18 => Opcode::XOR,
        0x19 => Opcode::NOT,
        0x1a => Opcode::BYTE,
        0x1b => Opcode::SHL,
        0x38 => Opcode::CODESIZE,
        0x50 => Opcode::POP,
        0x51 => Opcode::MLOAD,
        0x52 => Opcode::MSTORE,
        0x53 => Opcode::MSTORE8,
        0x56 => Opcode::JUMP,
        0x57 => Opcode::JUMPI,
        0x58 => Opcode::PC,
        0x59 => Opcode::MSIZE,
        0x5a => Opcode::GAS,
        0x5b => Opcode::JUMPDEST,
        0x60 => Opcode::PUSH1,
        0x61 => Opcode::PUSH2,
        0x62 => Opcode::PUSH3,
        0x63 => Opcode::PUSH4,
        0x64 => Opcode::PUSH5,
        0x65 => Opcode::PUSH6,
        0x66 => Opcode::PUSH7,
        0x67 => Opcode::PUSH8,
        0x68 => Opcode::PUSH9,
        0x69 => Opcode::PUSH10,
        0x6a => Opcode::PUSH11,
        0x6b => Opcode::PUSH12,
        0x6c => Opcode::PUSH13,
        0x6d => Opcode::PUSH14,
        0x6e => Opcode::PUSH15,
        0x6f => Opcode::PUSH16,
        0x70 => Opcode::PUSH17,
        0x71 => Opcode::PUSH18,
        0x72 => Opcode::PUSH19,
        0x73 => Opcode::PUSH20,
        0x74 => Opcode::PUSH21,
        0x75 => Opcode::PUSH22,
        0x76 => Opcode::PUSH23,
        0x77 => Opcode::PUSH24,
        0x78 => Opcode::PUSH25,
        0x79 => Opcode::PUSH26,
        0x7a => Opcode::PUSH27,
        0x7b => Opcode::PUSH28,
        0x7c => Opcode::PUSH29,
        0x7d => Opcode::PUSH30,
        0x7e => Opcode::PUSH31,
        0x7f => Opcode::PUSH32,
        0x80 => Opcode::DUP1,
        0x81 => Opcode::DUP2,
        0x82 => Opcode::DUP3,
        0x83 => Opcode::DUP4,
        0x84 => Opcode::DUP5,
        0x85 => Opcode::DUP6,
        0x86 => Opcode::DUP7,
        0x87 => Opcode::DUP8,
        0x88 => Opcode::DUP9,
        0x89 => Opcode::DUP10,
        0x8a => Opcode::DUP11,
        0x8b => Opcode::DUP12,
        0x8c => Opcode::DUP13,
        0x8d => Opcode::DUP14,
        0x8e => Opcode::DUP15,
        0x8f => Opcode::DUP16,
        0x90 => Opcode::SWAP1,
        0x91 => Opcode::SWAP2,
        0x92 => Opcode::SWAP3,
        0x93 => Opcode::SWAP4,
        0x94 => Opcode::SWAP5,
        0x95 => Opcode::SWAP6,
        0x96 => Opcode::SWAP7,
        0x97 => Opcode::SWAP8,
        0x98 => Opcode::SWAP9,
        0x99 => Opcode::SWAP10,
        0x9a => Opcode::SWAP11,
        0x9b => Opcode::SWAP12,
        0x9c => Opcode::SWAP13,
        0x9d => Opcode::SWAP14,
        0x9e => Opcode::SWAP15,
        0x9f => Opcode::SWAP16,
        0xf3 => Opcode::RETURN,
        _ => Opcode::INVALID,
    }
}

impl Opcode {
    /// Returns true if given instruction is a `PUSHN` instruction.
    pub fn is_push(&self) -> (r: bool)
        ensures
            r == spec_is_push(*self),
    {
        match *self {
            Opcode::PUSH1 | Opcode::PUSH2 | Opcode::PUSH3 | Opcode::PUSH4 | Opcode::PUSH5 | Opcode::PUSH6 | Opcode::PUSH7 | Opcode::PUSH8 | Opcode::PUSH9 | Opcode::PUSH10 | Opcode::PUSH11 | Opcode::PUSH12 | Opcode::PUSH13 | Opcode::PUSH14 | Opcode::PUSH15 | Opcode::PUSH16 | Opcode::PUSH17 | Opcode::PUSH18 | Opcode::PUSH19 | Opcode::PUSH20 | Opcode::PUSH21 | Opcode::PUSH22 | Opcode::PUSH23 | Opcode::PUSH24 | Opcode::PUSH25 | Opcode::PUSH26 | Opcode::PUSH27 | Opcode::PUSH28 | Opcode::PUSH29 | Opcode::PUSH30 | Opcode::PUSH31 | Opcode::PUSH32 => true,
            _ => false,
        }
    }

    /// Returns the index of the `PUSHN` opcode: `PUSH1` gives 0.
    pub fn push_index(&self) -> (r: usize)
        requires
            spec_is_push(*self),
        ensures
            r == opcode_ordinal(*self) - 25,
    {
        match *self {
            Opcode::PUSH1 => 0,
            Opcode::PUSH2 => 1,
            Opcode::PUSH3 => 2,
            Opcode::PUSH4 => 3,
            Opcode::PUSH5 => 4,
            Opcode::PUSH6 => 5,
            Opcode::PUSH7 => 6,
            Opcode::PUSH8 => 7,
            Opcode::PUSH9 => 8,
            Opcode::PUSH10 => 9,
            Opcode::PUSH11 => 10,
            Opcode::PUSH12 => 11,
            Opcode::PUSH13 => 12,
            Opcode::PUSH14 => 13,
            Opcode::PUSH15 => 14,
            Opcode::PUSH16 => 15,
            Opcode::PUSH17 => 16,
            Opcode::PUSH18 => 17,
            Opcode::PUSH19 => 18,
            Opcode::PUSH20 => 19,
            Opcode::PUSH21 => 20,
            Opcode::PUSH22 => 21,
            Opcode::PUSH23 => 22,
            Opcode::PUSH24 => 23,
            Opcode::PUSH25 => 24,
            Opcode::PUSH26 => 25,
            Opcode::PUSH27 => 26,
            Opcode::PUSH28 => 27,
            Opcode::PUSH29 => 28,
            Opcode::PUSH30 => 29,
            Opcode::PUSH31 => 30,
            Opcode::PUSH32 => 31,
            _ => 0,
        }
    }

    /// Returns the index of the `DUPN` opcode: `DUP1` gives 0.
    pub fn dup_index(&self) -> (r: usize)
        requires
            spec_is_dup(*self),
        ensures
            r == opcode_ordinal(*self) - 57,
    {
        match *self {
            Opcode::DUP1 => 0,
            Opcode::DUP2 => 1,
            Opcode::DUP3 => 2,
            Opcode::DUP4 => 3,
            Opcode::DUP5 => 4,
            Opcode::DUP6 => 5,
            Opcode::DUP7 => 6,
            Opcode::DUP8 => 7,
            Opcode::DUP9 => 8,
            Opcode::DUP10 => 9,
            Opcode::DUP11 => 10,
            Opcode::DUP12 => 11,
            Opcode::DUP13 => 12,
            Opcode::DUP14 => 13,
            Opcode::DUP15 => 14,
            Opcode::DUP16 => 15,
            _ => 0,
        }
    }

    /// Returns the index of the `SWAPN` opcode: `SWAP1` gives 0.
    pub fn swap_index(&self) -> (r: usize)
        requires
            spec_is_swap(*self),
        ensures
            r == opcode_ordinal(*self) - 73,
    {
        match *self {
            Opcode::SWAP1 => 0,
            Opcode::SWAP2 => 1,
            Opcode::SWAP3 => 2,
            Opcode::SWAP4 => 3,
            Opcode::SWAP5 => 4,
            Opcode::SWAP6 => 5,
            Opcode::SWAP7 => 6,
            Opcode::SWAP8 => 7,
            Opcode::SWAP9 => 8,
            Opcode::SWAP10 => 9,
            Opcode::SWAP11 => 10,
            Opcode::SWAP12 => 11,
            Opcode::SWAP13 => 12,
            Opcode::SWAP14 => 13,
            Opcode::SWAP15 => 14,
            Opcode::SWAP16 => 15,
            _ => 0,
        }
    }
}

impl EvmOpcode {
    /// Returns true if given opcode is a `PUSHN` opcode.
    pub fn is_push(&self) -> (r: bool)
        ensures
            r == (0x60 <= evm_opcode_byte(*self) <= 0x7f),
    {
        match *self {
            EvmOpcode::PUSH1 | EvmOpcode::PUSH2 | EvmOpcode::PUSH3 | EvmOpcode::PUSH4 | EvmOpcode::PUSH5 | EvmOpcode::PUSH6 | EvmOpcode::PUSH7 | EvmOpcode::PUSH8 | EvmOpcode::PUSH9 | EvmOpcode::PUSH10 | EvmOpcode::PUSH11 | EvmOpcode::PUSH12 | EvmOpcode::PUSH13 | EvmOpcode::PUSH14 | EvmOpcode::PUSH15 | EvmOpcode::PUSH16 | EvmOpcode::PUSH17 | EvmOpcode::PUSH18 | EvmOpcode::PUSH19 | EvmOpcode::PUSH20 | EvmOpcode::PUSH21 | EvmOpcode::PUSH22 | EvmOpcode::PUSH23 | EvmOpcode::PUSH24 | EvmOpcode::PUSH25 | EvmOpcode::PUSH26 | EvmOpcode::PUSH27 | EvmOpcode::PUSH28 | EvmOpcode::PUSH29 | EvmOpcode::PUSH30 | EvmOpcode::PUSH31 | EvmOpcode::PUSH32 => true,
            _ => false,
        }
    }

    /// Returns true if given opcode ends a basic block: the terminators
    /// are STOP, JUMP, JUMPI, INVALID, GAS and RETURN.
    pub fn is_terminator(&self) -> (r: bool)
        ensures
            r == matches!(*self, EvmOpcode::STOP | EvmOpcode::JUMP | EvmOpcode::JUMPI | EvmOpcode::INVALID
            | EvmOpcode::GAS | EvmOpcode::RETURN),
    {
        match *self {
            EvmOpcode::STOP | EvmOpcode::JUMP | EvmOpcode::JUMPI | EvmOpcode::INVALID
            | EvmOpcode::GAS | EvmOpcode::RETURN => true,
            _ => false,
        }
    }

    /// Returns the index of the `PUSHN` opcode: `PUSH1` gives 0.
    pub fn push_index(&self) -> (r: usize)
        requires
            0x60 <= evm_opcode_byte(*self) <= 0x7f,
        ensures
            r == evm_opcode_byte(*self) - 0x60,
    {
        match *self {
            EvmOpcode::PUSH1 => 0,
            EvmOpcode::PUSH2 => 1,
            EvmOpcode::PUSH3 => 2,
            EvmOpcode::PUSH4 => 3,
            EvmOpcode::PUSH5 => 4,
            EvmOpcode::PUSH6 => 5,
            EvmOpcode::PUSH7 => 6,
            EvmOpcode::PUSH8 => 7,
            EvmOpcode::PUSH9 => 8,
            EvmOpcode::PUSH10 => 9,
            EvmOpcode::PUSH11 => 10,
            EvmOpcode::PUSH12 => 11,
            EvmOpcode::PUSH13 => 12,
            EvmOpcode::PUSH14 => 13,
            EvmOpcode::PUSH15 => 14,
            EvmOpcode::PUSH16 => 15,
            EvmOpcode::PUSH17 => 16,
            EvmOpcode::PUSH18 => 17,
            EvmOpcode::PUSH19 => 18,
            EvmOpcode::PUSH20 => 19,
            EvmOpcode::PUSH21 => 20,
            EvmOpcode::PUSH22 => 21,
            EvmOpcode::PUSH23 => 22,
            EvmOpcode::PUSH24 => 23,
            EvmOpcode::PUSH25 => 24,
            EvmOpcode::PUSH26 => 25,
            EvmOpcode::PUSH27 => 26,
            EvmOpcode::PUSH28 => 27,
            EvmOpcode::PUSH29 => 28,
            EvmOpcode::PUSH30 => 29,
            EvmOpcode::PUSH31 => 30,
            EvmOpcode::PUSH32 => 31,
            _ => 0,
        }
    }

    /// Convert to internal representation.
    pub fn to_internal(&self) -> (r: Opcode)
        ensures
            r == spec_to_internal(*self),
    {
        match *self {
            EvmOpcode::STOP => Opcode::STOP,
            EvmOpcode::ADD => Opcode::ADD,
            EvmOpcode::MUL => Opcode::MUL,
            EvmOpcode::SUB => Opcode::SUB,
            EvmOpcode::SIGNEXTEND => Opcode::SIGNEXTEND,
            EvmOpcode::GT => Opcode::GT,
            EvmOpcode::EQ => Opcode::EQ,
            EvmOpcode::ISZERO => Opcode::ISZERO,
            EvmOpcode::AND => Opcode::AND,
            EvmOpcode::OR => Opcode::OR,
            EvmOpcode::XOR => Opcode::XOR,
            EvmOpcode::NOT => Opcode::NOT,
            EvmOpcode::BYTE => Opcode::BYTE,
            EvmOpcode::SHL => Opcode::SHL,
            EvmOpcode::CODESIZE => Opcode::CODESIZE,
            EvmOpcode::POP => Opcode::POP,
            EvmOpcode::MLOAD => Opcode::MLOAD,
            EvmOpcode::MSTORE => Opcode::MSTORE,
            EvmOpcode::MSTORE8 => Opcode::MSTORE8,
            EvmOpcode::JUMP => Opcode::JUMP,
            EvmOpcode::JUMPI => Opcode::JUMPI,
            EvmOpcode::PC => Opcode::PC,
            EvmOpcode::MSIZE => Opcode::MSIZE,
            EvmOpcode::GAS => Opcode::GAS,
            EvmOpcode::JUMPDEST => Opcode::JUMPDEST,
            EvmOpcode::PUSH1 => Opcode::PUSH1,
            EvmOpcode::PUSH2 => Opcode::PUSH2,
            EvmOpcode::PUSH3 => Opcode::PUSH3,
            EvmOpcode::PUSH4 => Opcode::PUSH4,
            EvmOpcode::PUSH5 => Opcode::PUSH5,
            EvmOpcode::PUSH6 => Opcode::PUSH6,
            EvmOpcode::PUSH7 => Opcode::PUSH7,
            EvmOpcode::PUSH8 => Opcode::PUSH8,
            EvmOpcode::PUSH9 => Opcode::PUSH9,
            EvmOpcode::PUSH10 => Opcode::PUSH10,
            EvmOpcode::PUSH11 => Opcode::PUSH11,
            EvmOpcode::PUSH12 => Opcode::PUSH12,
            EvmOpcode::PUSH13 => Opcode::PUSH13,
            EvmOpcode::PUSH14 => Opcode::PUSH14,
            EvmOpcode::PUSH15 => Opcode::PUSH15,
            EvmOpcode::PUSH16 => Opcode::PUSH16,
            EvmOpcode::PUSH17 => Opcode::PUSH17,
            EvmOpcode::PUSH18 => Opcode::PUSH18,
            EvmOpcode::PUSH19 => Opcode::PUSH19,
            EvmOpcode::PUSH20 => Opcode::PUSH20,
            EvmOpcode::PUSH21 => Opcode::PUSH21,
            EvmOpcode::PUSH22 => Opcode::PUSH22,
            EvmOpcode::PUSH23 => Opcode::PUSH23,
            EvmOpcode::PUSH24 => Opcode::PUSH24,
            EvmOpcode::PUSH25 => Opcode::PUSH25,
            EvmOpcode::PUSH26 => Opcode::PUSH26,
            EvmOpcode::PUSH27 => Opcode::PUSH27,
            EvmOpcode::PUSH28 => Opcode::PUSH28,
            EvmOpcode::PUSH29 => Opcode::PUSH29,
            EvmOpcode::PUSH30 => Opcode::PUSH30,
            EvmOpcode::PUSH31 => Opcode::PUSH31,
            EvmOpcode::PUSH32 => Opcode::PUSH32,
            EvmOpcode::DUP1 => Opcode::DUP1,
            EvmOpcode::DUP2 => Opcode::DUP2,
            EvmOpcode::DUP3 => Opcode::DUP3,
            EvmOpcode::DUP4 => Opcode::DUP4,
            EvmOpcode::DUP5 => Opcode::DUP5,
            EvmOpcode::DUP6 => Opcode::DUP6,
            EvmOpcode::DUP7 => Opcode::DUP7,
            EvmOpcode::DUP8 => Opcode::DUP8,
            EvmOpcode::DUP9 => Opcode::DUP9,
            EvmOpcode::DUP10 => Opcode::DUP10,
            EvmOpcode::DUP11 => Opcode::DUP11,
            EvmOpcode::DUP12 => Opcode::DUP12,
            EvmOpcode::DUP13 => Opcode::DUP13,
            EvmOpcode::DUP14 => Opcode::DUP14,
            EvmOpcode::DUP15 => Opcode::DUP15,
            EvmOpcode::DUP16 => Opcode::DUP16,
            EvmOpcode::SWAP1 => Opcode::SWAP1,
            EvmOpcode::SWAP2 => Opcode::SWAP2,
            EvmOpcode::SWAP3 => Opcode::SWAP3,
            EvmOpcode::SWAP4 => Opcode::SWAP4,
            EvmOpcode::SWAP5 => Opcode::SWAP5,
            EvmOpcode::SWAP6 => Opcode::SWAP6,
            EvmOpcode::SWAP7 => Opcode::SWAP7,
            EvmOpcode::SWAP8 => Opcode::SWAP8,
            EvmOpcode::SWAP9 => Opcode::SWAP9,
            EvmOpcode::SWAP10 => Opcode::SWAP10,
            EvmOpcode::SWAP11 => Opcode::SWAP11,
            EvmOpcode::SWAP12 => Opcode::SWAP12,
            EvmOpcode::SWAP13 => Opcode::SWAP13,
            EvmOpcode::SWAP14 => Opcode::SWAP14,
            EvmOpcode::SWAP15 => Opcode::SWAP15,
            EvmOpcode::SWAP16 => Opcode::SWAP16,
            EvmOpcode::RETURN => Opcode::RETURN,
            EvmOpcode::INVALID => Opcode::INVALID,
        }
    }
}

} // verus!
