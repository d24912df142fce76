//! The linear memory and the preprocessed ROM: word round-trips, logical
//! size growth, the JUMPDEST bitmap, and preprocessing determinism.

use psyche::memory::VmMemory;
use psyche::rom::VmRom;
use psyche::stack::VmStack;
use psyche::u256::U256;

const GAS: u64 = 20_000_000_000_000;

#[test]
fn memory_word_round_trip() {
    let mut m = VmMemory::new();
    m.init(GAS);
    let v = U256([0x0102030405060708, 0x1112131415161718, 0, 0xff]);
    m.write(0, v);
    let r = m.read(0);
    assert_eq!(r.0, v.0);
}

#[test]
fn memory_word_round_trip_unaligned() {
    let mut m = VmMemory::new();
    m.init(GAS);
    let v = U256([1, 2, 3, 4]);
    m.write(5, v);
    let r = m.read(5);
    assert_eq!(r.0, v.0);
}

#[test]
fn memory_is_big_endian() {
    let mut m = VmMemory::new();
    m.init(GAS);
    m.write(0, U256::from_u64(1));
    // the least significant byte lands at offset 31
    let r = m.read(31);
    assert_eq!(r.0, [0, 0, 0, 0x0100000000000000]);
}

#[test]
fn memory_size_rounds_up_to_words() {
    let mut m = VmMemory::new();
    m.init(GAS);
    assert_eq!(m.size(), 0);
    m.write(0, U256::from_u64(1));
    assert_eq!(m.size(), 32);
    m.write(5, U256::from_u64(1));
    // 5 + 32 = 37 bytes touched: two words
    assert_eq!(m.size(), 64);
    m.write_byte(64, 7);
    assert_eq!(m.size(), 96);
}

#[test]
fn memory_size_never_shrinks() {
    let mut m = VmMemory::new();
    m.init(GAS);
    m.write(100, U256::from_u64(1));
    assert_eq!(m.size(), 160);
    m.read(0);
    assert_eq!(m.size(), 160);
}

#[test]
fn memory_zero_sized_extend_changes_nothing() {
    let mut m = VmMemory::new();
    m.init(GAS);
    m.extend(1000, 0);
    assert_eq!(m.size(), 0);
    m.extend(0, 1);
    assert_eq!(m.size(), 32);
}

#[test]
fn memory_write_byte() {
    let mut m = VmMemory::new();
    m.init(GAS);
    m.write_byte(31, 0x42);
    let r = m.read(0);
    assert_eq!(r.0, [0x42, 0, 0, 0]);
}

#[test]
fn memory_starts_zeroed() {
    let mut m = VmMemory::new();
    m.init(GAS);
    let r = m.read(1234);
    assert_eq!(r.0, [0, 0, 0, 0]);
}

#[test]
fn stack_push_pop_peek_set() {
    let mut s = VmStack::new();
    assert_eq!(s.len(), 0);
    s.push(U256::from_u64(1));
    s.push(U256::from_u64(2));
    s.push(U256::from_u64(3));
    assert_eq!(s.len(), 3);
    assert_eq!(s.peek().0, [3, 0, 0, 0]);
    assert_eq!(s.peek1().0, [2, 0, 0, 0]);
    assert_eq!(s.peekn(2).0, [1, 0, 0, 0]);
    let prev = s.set(2, U256::from_u64(9));
    assert_eq!(prev.0, [1, 0, 0, 0]);
    assert_eq!(s.pop().0, [3, 0, 0, 0]);
    assert_eq!(s.pop().0, [2, 0, 0, 0]);
    assert_eq!(s.pop().0, [9, 0, 0, 0]);
    assert_eq!(s.len(), 0);
}

#[test]
fn rom_marks_plain_jumpdest() {
    let mut rom = VmRom::new();
    rom.init(&[0x5b, 0x00, 0x5b]);
    assert!(rom.is_jumpdest(0));
    assert!(!rom.is_jumpdest(1));
    assert!(rom.is_jumpdest(2));
    assert!(!rom.is_jumpdest(3));
}

#[test]
fn rom_skips_jumpdest_inside_push_immediate() {
    // PUSH2 0x5b5b, JUMPDEST
    let bc = [0x61, 0x5b, 0x5b, 0x5b];
    let mut rom = VmRom::new();
    rom.init(&bc);
    assert!(!rom.is_jumpdest(0));
    assert!(!rom.is_jumpdest(1));
    assert!(!rom.is_jumpdest(2));
    assert!(rom.is_jumpdest(3));
}

#[test]
fn rom_jumpdest_at_bitmap_chunk_boundaries() {
    // JUMPDEST opcodes at offsets 63, 64 and 65, padded with STOP
    let mut bc = vec![0u8; 70];
    bc[63] = 0x5b;
    bc[64] = 0x5b;
    bc[65] = 0x5b;
    let mut rom = VmRom::new();
    rom.init(&bc);
    assert!(!rom.is_jumpdest(62));
    assert!(rom.is_jumpdest(63));
    assert!(rom.is_jumpdest(64));
    assert!(rom.is_jumpdest(65));
    assert!(!rom.is_jumpdest(66));
}

#[test]
fn rom_push_immediate_across_chunk_boundary() {
    // a PUSH4 at offset 62 whose immediate covers 63..=66, all 0x5b,
    // and a real JUMPDEST right after it at 67
    let mut bc = vec![0u8; 68];
    bc[62] = 0x63;
    bc[63] = 0x5b;
    bc[64] = 0x5b;
    bc[65] = 0x5b;
    bc[66] = 0x5b;
    bc[67] = 0x5b;
    let mut rom = VmRom::new();
    rom.init(&bc);
    assert!(!rom.is_jumpdest(62));
    assert!(!rom.is_jumpdest(63));
    assert!(!rom.is_jumpdest(64));
    assert!(!rom.is_jumpdest(65));
    assert!(!rom.is_jumpdest(66));
    assert!(rom.is_jumpdest(67));
}

#[test]
fn rom_addresses_out_of_range_are_invalid() {
    let mut rom = VmRom::new();
    rom.init(&[0x5b]);
    assert!(!rom.is_jumpdest(32768));
    assert!(!rom.is_jumpdest(u64::MAX));
}

#[test]
fn rom_preprocessing_is_deterministic() {
    let bc = [0x60, 0x5b, 0x5b, 0x01, 0x00, 0x5b];
    let mut r1 = VmRom::new();
    r1.init(&bc);
    let mut r2 = VmRom::new();
    r2.init(&bc);
    assert_eq!(r1.code()[..], r2.code()[..]);
}

#[test]
fn rom_reinit_overwrites_previous_program() {
    let mut r1 = VmRom::new();
    r1.init(&[0x5b, 0x5b, 0x5b]);
    r1.init(&[0x00]);
    let mut r2 = VmRom::new();
    r2.init(&[0x00]);
    assert_eq!(r1.code()[..], r2.code()[..]);
    assert!(!r1.is_jumpdest(1));
}

#[test]
fn rom_code_holds_the_program_image() {
    let bc = [0x60, 0x07, 0x00];
    let mut rom = VmRom::new();
    rom.init(&bc);
    assert_eq!(rom.code_size(), 3);
    assert_eq!(rom.code()[0], 0x60);
    assert_eq!(rom.code()[1], 0x07);
    assert_eq!(rom.code()[2], 0x00);
    assert_eq!(rom.code()[3], 0x00);
    assert_eq!(rom.code_byte(1), 0x07);
    assert_eq!(rom.code_byte(2000), 0);
}

#[test]
fn swap_bytes_reverses() {
    let r = VmRom::swap_bytes(&[1, 2, 3, 4]);
    assert_eq!(r, vec![4, 3, 2, 1]);
    let e = VmRom::swap_bytes(&[]);
    assert_eq!(e.len(), 0);
}
