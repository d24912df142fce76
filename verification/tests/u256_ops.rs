//! The 256-bit kernel: arithmetic, comparisons, bitwise operations,
//! byte access and shifts on concrete values.

use psyche::u256::{
    add_u256, and_u256, bswap_u256, byte_u256, eq_u256, gt_u256, is_ltpow2_u256, is_zero_u256,
    iszero_u256, mul_u256, not_u256, or_u256, overflowing_add_u256, overflowing_sub_u256,
    shl_u256, signextend_u256, sub_u256, u256_from_be_bytes, xor_u256, U256,
};

const MAX: u64 = u64::MAX;

fn limbs(v: U256) -> [u64; 4] {
    v.0
}

#[test]
fn add_small() {
    let r = add_u256(U256::from_u64(1), U256::from_u64(1));
    assert_eq!(limbs(r), [2, 0, 0, 0]);
}

#[test]
fn add_carries_across_limbs() {
    let r = add_u256(U256([MAX, 0, 0, 0]), U256::from_u64(1));
    assert_eq!(limbs(r), [0, 1, 0, 0]);
}

#[test]
fn add_wraps_modulo_2_pow_256() {
    let (r, carry) = overflowing_add_u256(U256([MAX, MAX, MAX, MAX]), U256::from_u64(1));
    assert_eq!(limbs(r), [0, 0, 0, 0]);
    assert!(carry);
}

#[test]
fn sub_self_is_zero() {
    let a = U256([5, 6, 7, 8]);
    assert_eq!(limbs(sub_u256(a, a)), [0, 0, 0, 0]);
}

#[test]
fn sub_wraps_below_zero() {
    let (r, borrow) = overflowing_sub_u256(U256::from_u64(0), U256::from_u64(1));
    assert_eq!(limbs(r), [MAX, MAX, MAX, MAX]);
    assert!(borrow);
}

#[test]
fn sub_borrows_across_limbs() {
    let r = sub_u256(U256([0, 1, 0, 0]), U256::from_u64(1));
    assert_eq!(limbs(r), [MAX, 0, 0, 0]);
}

#[test]
fn mul_small() {
    let r = mul_u256(U256::from_u64(2), U256::from_u64(3));
    assert_eq!(limbs(r), [6, 0, 0, 0]);
}

#[test]
fn mul_one_identity() {
    let a = U256([11, 22, 33, 44]);
    assert_eq!(limbs(mul_u256(a, U256::from_u64(1))), [11, 22, 33, 44]);
    assert_eq!(limbs(mul_u256(a, U256::from_u64(0))), [0, 0, 0, 0]);
}

#[test]
fn mul_max_u64_squared() {
    // (2^64 - 1)^2 = 2^128 - 2^65 + 1
    let r = mul_u256(U256::from_u64(MAX), U256::from_u64(MAX));
    assert_eq!(limbs(r), [1, MAX - 1, 0, 0]);
}

#[test]
fn mul_wraps_modulo_2_pow_256() {
    // 2^128 * 2^128 = 2^256 = 0 mod 2^256
    let p128 = U256([0, 0, 1, 0]);
    assert_eq!(limbs(mul_u256(p128, p128)), [0, 0, 0, 0]);
}

#[test]
fn gt_compares_unsigned() {
    assert!(gt_u256(U256::from_u64(5), U256::from_u64(3)));
    assert!(!gt_u256(U256::from_u64(3), U256::from_u64(5)));
    assert!(!gt_u256(U256::from_u64(3), U256::from_u64(3)));
    assert!(gt_u256(U256([0, 0, 0, 1]), U256([MAX, MAX, MAX, 0])));
}

#[test]
fn eq_and_iszero_encode_booleans() {
    let a = U256([1, 2, 3, 4]);
    assert_eq!(limbs(eq_u256(a, a)), [1, 0, 0, 0]);
    assert_eq!(limbs(eq_u256(a, U256::from_u64(1))), [0, 0, 0, 0]);
    assert_eq!(limbs(iszero_u256(U256::from_u64(0))), [1, 0, 0, 0]);
    assert_eq!(limbs(iszero_u256(a)), [0, 0, 0, 0]);
    assert!(is_zero_u256(U256::from_u64(0)));
    assert!(!is_zero_u256(a));
}

#[test]
fn bitwise_laws_on_values() {
    let a = U256([0x00ff00ff00ff00ff, 0x123456789abcdef0, MAX, 0]);
    let not_a = not_u256(a);
    assert_eq!(limbs(not_u256(not_a)), limbs(a));
    assert_eq!(limbs(xor_u256(a, a)), [0, 0, 0, 0]);
    assert_eq!(limbs(and_u256(a, not_a)), [0, 0, 0, 0]);
    assert_eq!(limbs(or_u256(a, not_a)), [MAX, MAX, MAX, MAX]);
}

#[test]
fn bitwise_elementwise() {
    let a = U256([0b1100, 0, 0, 0]);
    let b = U256([0b1010, 0, 0, 0]);
    assert_eq!(limbs(and_u256(a, b)), [0b1000, 0, 0, 0]);
    assert_eq!(limbs(or_u256(a, b)), [0b1110, 0, 0, 0]);
    assert_eq!(limbs(xor_u256(a, b)), [0b0110, 0, 0, 0]);
}

#[test]
fn byte_indexes_big_endian() {
    let v = U256::from_u64(0xaabb);
    // byte 31 is the least significant byte
    assert_eq!(limbs(byte_u256(U256::from_u64(31), v)), [0xbb, 0, 0, 0]);
    assert_eq!(limbs(byte_u256(U256::from_u64(30), v)), [0xaa, 0, 0, 0]);
    assert_eq!(limbs(byte_u256(U256::from_u64(0), v)), [0, 0, 0, 0]);
    // byte 0 is the most significant byte
    let top = U256([0, 0, 0, 0x11_00000000000000]);
    assert_eq!(limbs(byte_u256(U256::from_u64(0), top)), [0x11, 0, 0, 0]);
}

#[test]
fn byte_out_of_range_is_zero() {
    let v = U256([MAX, MAX, MAX, MAX]);
    assert_eq!(limbs(byte_u256(U256::from_u64(32), v)), [0, 0, 0, 0]);
    assert_eq!(limbs(byte_u256(U256([0, 1, 0, 0]), v)), [0, 0, 0, 0]);
}

#[test]
fn byte_values_reconstitute_the_value() {
    let v = U256([0x0123456789abcdef, 0xfedcba9876543210, 5, 0x8000000000000007]);
    let mut acc = U256::from_u64(0);
    for i in 0..32u64 {
        let b = byte_u256(U256::from_u64(i), v);
        // acc = acc * 256 + byte
        acc = add_u256(mul_u256(acc, U256::from_u64(256)), b);
    }
    assert_eq!(limbs(acc), limbs(v));
}

#[test]
fn shl_small_counts() {
    assert_eq!(limbs(shl_u256(U256::from_u64(0), U256::from_u64(5))), [5, 0, 0, 0]);
    assert_eq!(limbs(shl_u256(U256::from_u64(8), U256::from_u64(1))), [256, 0, 0, 0]);
    assert_eq!(limbs(shl_u256(U256::from_u64(64), U256::from_u64(1))), [0, 1, 0, 0]);
    assert_eq!(limbs(shl_u256(U256::from_u64(200), U256::from_u64(1))), [0, 0, 0, 1 << 8]);
}

#[test]
fn shl_count_256_or_more_is_zero() {
    let v = U256([MAX, MAX, MAX, MAX]);
    assert_eq!(limbs(shl_u256(U256::from_u64(256), v)), [0, 0, 0, 0]);
    assert_eq!(limbs(shl_u256(U256::from_u64(300), v)), [0, 0, 0, 0]);
    assert_eq!(limbs(shl_u256(U256([0, 1, 0, 0]), v)), [0, 0, 0, 0]);
}

#[test]
fn shl_drops_high_bits() {
    // shifting 2^255 left by one wraps to zero
    let top = U256([0, 0, 0, 1 << 63]);
    assert_eq!(limbs(shl_u256(U256::from_u64(1), top)), [0, 0, 0, 0]);
}

#[test]
fn signextend_from_low_byte() {
    // 0xff sign-extended from byte 0 is all ones
    let r = signextend_u256(U256::from_u64(0), U256::from_u64(0xff));
    assert_eq!(limbs(r), [MAX, MAX, MAX, MAX]);
    // 0x7f has a clear sign bit: unchanged, high bits cleared
    let r = signextend_u256(U256::from_u64(0), U256::from_u64(0x17f));
    assert_eq!(limbs(r), [0x7f, 0, 0, 0]);
}

#[test]
fn signextend_from_second_byte() {
    let r = signextend_u256(U256::from_u64(1), U256::from_u64(0x8000));
    assert_eq!(limbs(r), [0xffffffffffff8000, MAX, MAX, MAX]);
    let r = signextend_u256(U256::from_u64(1), U256::from_u64(0x7fff));
    assert_eq!(limbs(r), [0x7fff, 0, 0, 0]);
}

#[test]
fn signextend_high_index_is_identity() {
    let v = U256([1, 2, 3, 4]);
    assert_eq!(limbs(signextend_u256(U256::from_u64(31), v)), [1, 2, 3, 4]);
    assert_eq!(limbs(signextend_u256(U256::from_u64(33), v)), [1, 2, 3, 4]);
    assert_eq!(limbs(signextend_u256(U256([0, 0, 1, 0]), v)), [1, 2, 3, 4]);
}

#[test]
fn bswap_reverses_bytes() {
    let r = bswap_u256(U256::from_u64(1));
    assert_eq!(limbs(r), [0, 0, 0, 0x0100000000000000]);
    let twice = bswap_u256(bswap_u256(U256([1, 2, 3, 4])));
    assert_eq!(limbs(twice), [1, 2, 3, 4]);
}

#[test]
fn be_bytes_round_trip() {
    let v = U256([0x0123456789abcdef, 0x11, 0x22, 0x33]);
    let bytes = v.to_be_bytes();
    assert_eq!(bytes.len(), 32);
    assert_eq!(bytes[31], 0xef);
    assert_eq!(bytes[0], 0);
    let back = u256_from_be_bytes(&bytes);
    assert_eq!(limbs(back), limbs(v));
}

#[test]
fn from_be_bytes_zero_extends_short_input() {
    let r = u256_from_be_bytes(&[0x12, 0x34]);
    assert_eq!(limbs(r), [0x1234, 0, 0, 0]);
    let r = u256_from_be_bytes(&[]);
    assert_eq!(limbs(r), [0, 0, 0, 0]);
}

#[test]
fn low_u64_and_from_u64() {
    let v = U256([7, 8, 9, 10]);
    assert_eq!(v.low_u64(), 7);
    assert_eq!(limbs(U256::from_u64(42)), [42, 0, 0, 0]);
    assert_eq!(v.byte_at(31), 7);
}

#[test]
fn is_ltpow2_checks_bound() {
    assert!(is_ltpow2_u256(U256::from_u64(31), 32));
    assert!(!is_ltpow2_u256(U256::from_u64(32), 32));
    assert!(!is_ltpow2_u256(U256([0, 1, 0, 0]), 32));
    assert!(is_ltpow2_u256(U256::from_u64(255), 256));
}
