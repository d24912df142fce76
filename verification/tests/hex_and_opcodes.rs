//! The hex codec and the opcode tables.

use psyche::hex::{decode_hex, encode_hex, HexError};
use psyche::instructions::{decode_opcode, EvmOpcode, Opcode};

#[test]
fn decode_simple_string() {
    assert_eq!(decode_hex("6001600101").unwrap(), vec![0x60, 0x01, 0x60, 0x01, 0x01]);
}

#[test]
fn decode_accepts_both_cases() {
    assert_eq!(decode_hex("DeadBEEF").unwrap(), vec![0xde, 0xad, 0xbe, 0xef]);
}

#[test]
fn decode_empty_string() {
    assert_eq!(decode_hex("").unwrap(), Vec::<u8>::new());
}

#[test]
fn decode_rejects_odd_length() {
    assert_eq!(decode_hex("abc").unwrap_err(), HexError::OddLength);
}

#[test]
fn decode_rejects_non_digits() {
    assert_eq!(decode_hex("0x60").unwrap_err(), HexError::InvalidDigit);
    assert_eq!(decode_hex("6g").unwrap_err(), HexError::InvalidDigit);
}

#[test]
fn encode_is_lowercase_two_digits_per_byte() {
    assert_eq!(encode_hex(&[0xde, 0xad, 0x01, 0x00]), "dead0100");
    assert_eq!(encode_hex(&[]), "");
}

#[test]
fn encode_then_decode_round_trips() {
    let bytes = vec![0u8, 1, 2, 0x7f, 0x80, 0xff, 0x5b];
    assert_eq!(decode_hex(&encode_hex(&bytes)).unwrap(), bytes);
}

#[test]
fn decode_table_maps_known_bytes() {
    assert_eq!(decode_opcode(0x00), Opcode::STOP);
    assert_eq!(decode_opcode(0x01), Opcode::ADD);
    assert_eq!(decode_opcode(0x60), Opcode::PUSH1);
    assert_eq!(decode_opcode(0x7f), Opcode::PUSH32);
    assert_eq!(decode_opcode(0x80), Opcode::DUP1);
    assert_eq!(decode_opcode(0x90), Opcode::SWAP1);
    assert_eq!(decode_opcode(0xf3), Opcode::RETURN);
    assert_eq!(decode_opcode(0xfe), Opcode::INVALID);
    assert_eq!(decode_opcode(0x5b), Opcode::JUMPDEST);
}

#[test]
fn decode_table_collapses_unknown_bytes_to_invalid() {
    assert_eq!(decode_opcode(0x5f), Opcode::INVALID);
    assert_eq!(decode_opcode(0x04), Opcode::INVALID);
    assert_eq!(decode_opcode(0xff), Opcode::INVALID);
    assert_eq!(decode_opcode(0xa0), Opcode::INVALID);
}

#[test]
fn opcode_push_classification() {
    assert!(Opcode::PUSH1.is_push());
    assert!(Opcode::PUSH32.is_push());
    assert!(!Opcode::ADD.is_push());
    assert!(!Opcode::DUP1.is_push());
    assert_eq!(Opcode::PUSH1.push_index(), 0);
    assert_eq!(Opcode::PUSH32.push_index(), 31);
}

#[test]
fn opcode_dup_and_swap_indices() {
    assert_eq!(Opcode::DUP1.dup_index(), 0);
    assert_eq!(Opcode::DUP16.dup_index(), 15);
    assert_eq!(Opcode::SWAP1.swap_index(), 0);
    assert_eq!(Opcode::SWAP16.swap_index(), 15);
}

#[test]
fn evm_opcode_push_classification() {
    assert!(EvmOpcode::PUSH1.is_push());
    assert!(EvmOpcode::PUSH32.is_push());
    assert!(!EvmOpcode::JUMPDEST.is_push());
    assert_eq!(EvmOpcode::PUSH1.push_index(), 0);
    assert_eq!(EvmOpcode::PUSH16.push_index(), 15);
}

#[test]
fn evm_opcode_terminators() {
    assert!(EvmOpcode::STOP.is_terminator());
    assert!(EvmOpcode::JUMP.is_terminator());
    assert!(EvmOpcode::JUMPI.is_terminator());
    assert!(EvmOpcode::INVALID.is_terminator());
    assert!(EvmOpcode::GAS.is_terminator());
    assert!(EvmOpcode::RETURN.is_terminator());
    assert!(!EvmOpcode::ADD.is_terminator());
    assert!(!EvmOpcode::JUMPDEST.is_terminator());
}

#[test]
fn evm_opcode_to_internal() {
    assert_eq!(EvmOpcode::STOP.to_internal(), Opcode::STOP);
    assert_eq!(EvmOpcode::PUSH7.to_internal(), Opcode::PUSH7);
    assert_eq!(EvmOpcode::SWAP16.to_internal(), Opcode::SWAP16);
    assert_eq!(EvmOpcode::RETURN.to_internal(), Opcode::RETURN);
}
