//! End-to-end executions of small bytecodes through the dispatch loop.

use psyche::hex::decode_hex;
use psyche::memory::VmMemory;
use psyche::rom::VmRom;
use psyche::vm::{run_evm, step, vm_new, StepResult, VmError};

const GAS: u64 = 20_000_000_000_000;

fn run(hex: &str, max_steps: u64) -> StepResult {
    let bytes = decode_hex(hex).unwrap();
    let mut rom = VmRom::new();
    rom.init(&bytes);
    let mut memory = VmMemory::new();
    memory.init(GAS);
    run_evm(&rom, &mut memory, max_steps)
}

fn top_of(r: StepResult) -> [u64; 4] {
    match r {
        StepResult::Halted(v) => v.0,
        StepResult::Faulted(e) => panic!("execution faulted: {:?}", e),
        StepResult::Continue => panic!("execution did not finish"),
    }
}

fn fault_of(r: StepResult) -> VmError {
    match r {
        StepResult::Faulted(e) => e,
        _ => panic!("execution did not fault"),
    }
}

#[test]
fn push_push_add() {
    assert_eq!(top_of(run("6001600101", 100)), [2, 0, 0, 0]);
}

#[test]
fn sub_wraps_then_pushes_zero() {
    assert_eq!(top_of(run("60036002036000", 100)), [0, 0, 0, 0]);
}

#[test]
fn sub_wrap_sits_below_the_final_zero() {
    // PUSH1 3, PUSH1 2, SUB, PUSH1 0: the wrapped 2 - 3 sits below the 0
    let bytes = decode_hex("60036002036000").unwrap();
    let mut rom = VmRom::new();
    rom.init(&bytes);
    let mut memory = VmMemory::new();
    memory.init(GAS);
    let mut vm = vm_new();
    for _ in 0..4 {
        assert!(matches!(step(&mut vm, &rom, &mut memory), StepResult::Continue));
    }
    assert_eq!(vm.stack.peek().0, [0, 0, 0, 0]);
    assert_eq!(vm.stack.peek1().0, [u64::MAX; 4]);
}

#[test]
fn eq_of_distinct_values_is_zero() {
    assert_eq!(top_of(run("60ff600014", 100)), [0, 0, 0, 0]);
}

#[test]
fn gt_three_vs_five_is_zero() {
    assert_eq!(top_of(run("6005600311", 100)), [0, 0, 0, 0]);
}

#[test]
fn mul_store_return() {
    assert_eq!(top_of(run("600560020260005260206000f3", 100)), [0, 0, 0, 0]);
}

#[test]
fn tight_loop_never_halts() {
    assert!(matches!(run("5b600056", 1000), StepResult::Continue));
}

#[test]
fn tight_loop_pc_before_jump() {
    let bytes = decode_hex("5b600056").unwrap();
    let mut rom = VmRom::new();
    rom.init(&bytes);
    let mut memory = VmMemory::new();
    memory.init(GAS);
    let mut vm = vm_new();
    // JUMPDEST, then PUSH1 0: the program counter sits on the JUMP
    assert!(matches!(step(&mut vm, &rom, &mut memory), StepResult::Continue));
    assert!(matches!(step(&mut vm, &rom, &mut memory), StepResult::Continue));
    assert_eq!(vm.pc, 3);
    // the JUMP wraps back to the start
    assert!(matches!(step(&mut vm, &rom, &mut memory), StepResult::Continue));
    assert_eq!(vm.pc, 0);
}

#[test]
fn undefined_byte_halts_as_invalid() {
    assert_eq!(top_of(run("600160020160035f", 100)), [3, 0, 0, 0]);
}

#[test]
fn implicit_stop_past_end_of_code() {
    assert_eq!(top_of(run("6005", 100)), [5, 0, 0, 0]);
}

#[test]
fn mstore_mload_round_trip() {
    assert_eq!(top_of(run("6042600052600051", 100)), [0x42, 0, 0, 0]);
}

#[test]
fn mstore8_stores_low_byte() {
    // MSTORE8 of 0x1234 at offset 31, then MLOAD of word 0
    assert_eq!(top_of(run("611234601f53600051", 100)), [0x34, 0, 0, 0]);
}

#[test]
fn msize_after_store() {
    assert_eq!(top_of(run("60426000525900", 100)), [32, 0, 0, 0]);
}

#[test]
fn msize_of_fresh_memory_is_zero() {
    assert_eq!(top_of(run("59", 100)), [0, 0, 0, 0]);
}

#[test]
fn pc_pushes_its_own_offset() {
    // PUSH1 0, POP, PC: the PC opcode sits at offset 3
    assert_eq!(top_of(run("60005058", 100)), [3, 0, 0, 0]);
}

#[test]
fn codesize_pushes_code_length() {
    assert_eq!(top_of(run("3800", 100)), [2, 0, 0, 0]);
}

#[test]
fn jump_to_valid_destination() {
    // PUSH1 3, JUMP, JUMPDEST, PUSH1 1
    assert_eq!(top_of(run("6003565b6001", 100)), [1, 0, 0, 0]);
}

#[test]
fn jumpi_taken_and_not_taken() {
    // PUSH1 1, PUSH1 7, JUMPI, JUMPDEST at 7, PUSH1 7
    assert_eq!(top_of(run("600160075700005b6007", 100)), [7, 0, 0, 0]);
    // condition zero: falls through to PUSH1 9
    assert_eq!(top_of(run("6000600757600900", 100)), [9, 0, 0, 0]);
}

#[test]
fn jump_into_immediate_faults() {
    // PUSH2 0x5b5b, PUSH1 1, JUMP: the 0x5b at offset 1 is immediate data
    assert_eq!(fault_of(run("615b5b600156", 100)), VmError::InvalidJumpDest);
}

#[test]
fn jump_out_of_bounds_faults() {
    assert_eq!(fault_of(run("61800056", 100)), VmError::InvalidJumpDest);
}

#[test]
fn add_on_short_stack_underflows() {
    assert_eq!(fault_of(run("600101", 100)), VmError::StackUnderflow);
}

#[test]
fn halt_on_empty_stack_underflows() {
    assert_eq!(fault_of(run("00", 100)), VmError::StackUnderflow);
}

#[test]
fn mload_beyond_capacity_faults() {
    // PUSH4 0xffffffff, MLOAD
    assert_eq!(fault_of(run("63ffffffff51", 100)), VmError::MemoryCapacityExceeded);
}

#[test]
fn stack_overflow_faults() {
    // JUMPDEST, PUSH1 1, PUSH1 0, JUMP: pushes one value per loop pass
    let r = run("5b6001600056", 100_000);
    assert_eq!(fault_of(r), VmError::StackOverflow);
}

#[test]
fn dup_and_swap() {
    // PUSH1 1, PUSH1 2, DUP2, ADD, ADD -> 1 + 2 + 1 = 4
    assert_eq!(top_of(run("60016002810101", 100)), [4, 0, 0, 0]);
    // PUSH1 2, PUSH1 1, SWAP1, SUB -> 2 - 1 = 1
    assert_eq!(top_of(run("600260019003", 100)), [1, 0, 0, 0]);
    // PUSH1 5, PUSH1 0, PUSH1 0, SWAP2 -> 5 back on top
    assert_eq!(top_of(run("6005600060009100", 100)), [5, 0, 0, 0]);
}

#[test]
fn push_family_immediates() {
    // PUSH2 0x0102
    assert_eq!(top_of(run("610102", 100)), [0x0102, 0, 0, 0]);
    // PUSH4
    assert_eq!(top_of(run("63deadbeef", 100)), [0xdeadbeef, 0, 0, 0]);
    // PUSH16: fills the two low limbs
    assert_eq!(
        top_of(run("6f000102030405060708090a0b0c0d0e0f", 100)),
        [0x08090a0b0c0d0e0f, 0x0001020304050607, 0, 0]
    );
    // PUSH32: fills all four limbs
    assert_eq!(
        top_of(run(
            "7f000102030405060708090a0b0c0d0e0f101112131415161718191a1b1c1d1e1f",
            100
        )),
        [
            0x18191a1b1c1d1e1f,
            0x1011121314151617,
            0x08090a0b0c0d0e0f,
            0x0001020304050607
        ]
    );
}

#[test]
fn truncated_push_pads_with_zeros() {
    // PUSH2 with a single immediate byte: the missing byte reads as zero
    assert_eq!(top_of(run("61ff", 100)), [0xff00, 0, 0, 0]);
}

#[test]
fn signextend_program() {
    // PUSH1 0xff, PUSH1 0, SIGNEXTEND, PUSH1 0, BYTE: top byte is 0xff
    assert_eq!(
        top_of(run("60ff60000b60001a", 100)),
        [0xff, 0, 0, 0]
    );
}

#[test]
fn shl_program() {
    // PUSH1 1, PUSH1 8, SHL -> 256
    assert_eq!(top_of(run("600160081b", 100)), [256, 0, 0, 0]);
}

#[test]
fn gas_opcode_halts() {
    // PUSH1 6, GAS: GAS ends the execution with 6 on top
    assert_eq!(top_of(run("60065a6007", 100)), [6, 0, 0, 0]);
}

#[test]
fn empty_bytecode_underflows_on_halt() {
    assert_eq!(fault_of(run("", 10)), VmError::StackUnderflow);
}
