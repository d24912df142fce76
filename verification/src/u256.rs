//! The 256-bit unsigned integer kernel.
//!
//! A [`U256`] is stored as four little-endian 64-bit limbs; its mathematical
//! value is given by [`u256_as_nat`].  Every operation wraps modulo 2^256.

use vstd::arithmetic::div_mod::{
    lemma_div_denominator, lemma_fundamental_div_mod, lemma_fundamental_div_mod_converse,
    lemma_hoist_over_denominator, lemma_mod_multiples_vanish, lemma_small_mod,
};
use vstd::arithmetic::mul::lemma_mul_upper_bound;
use vstd::arithmetic::power2::{lemma2_to64, lemma2_to64_rest, lemma_pow2_adds, lemma_pow2_pos, pow2};
use vstd::prelude::*;

verus! {

/// A 256-bit unsigned value as four 64-bit limbs, least significant first.
#[derive(Copy, Clone)]
pub struct U256(pub [u64; 4]);

/// The mathematical value of a [`U256`]: the limbs read in base 2^64,
/// least significant limb first.
pub open spec fn u256_as_nat(a: U256) -> nat {
    (a.0[0] + a.0[1] * pow2(64) + a.0[2] * pow2(128) + a.0[3] * pow2(192)) as nat
}

/// The powers of two at the limb boundaries, as concrete numerals, so that
/// limb accounting stays within linear arithmetic.
pub proof fn lemma_pow2_limb_values()
    ensures
        pow2(64) == 0x10000000000000000,
        pow2(128) == 0x100000000000000000000000000000000,
        pow2(192) == 0x1000000000000000000000000000000000000000000000000,
        pow2(248) == 0x100000000000000000000000000000000000000000000000000000000000000,
        pow2(256) == 0x10000000000000000000000000000000000000000000000000000000000000000,
{
    lemma2_to64();
    lemma2_to64_rest();
    lemma_pow2_adds(64, 64);
    lemma_pow2_adds(128, 64);
    lemma_pow2_adds(192, 56);
    lemma_pow2_adds(192, 64);
}

impl U256 {
    /// Builds a value from a `u64`, zero-extending.
    pub fn from_u64(value: u64) -> (r: U256)
        ensures
            u256_as_nat(r) == value,
            r == u256_from_nat(value as nat),
    {
        let r = U256([value, 0, 0, 0]);
        proof {
            assert(r.0[0] == value);
            assert(r.0[1] == 0);
            assert(r.0[2] == 0);
            assert(r.0[3] == 0);
            lemma_pow2_pos(64);
            lemma_pow2_pos(128);
            lemma_pow2_pos(192);
            lemma_from_nat_as_nat(r);
        }
        r
    }

    /// The least significant 64 bits.
    pub fn low_u64(&self) -> (r: u64)
        ensures
            r == self.0[0],
            r == u256_as_nat(*self) % pow2(64),
    {
        proof {
            lemma_limb0_is_mod(*self);
        }
        self.0[0]
    }
}

/// The value of a [`U256`] is below 2^256.
pub proof fn lemma_as_nat_bound(a: U256)
    ensures
        u256_as_nat(a) < pow2(256),
{
    lemma_pow2_limb_values();
}

/// Recovers each limb from the mathematical value by division and remainder.
pub proof fn lemma_limb_extract(a: U256)
    ensures
        a.0[0] == u256_as_nat(a) % pow2(64),
        a.0[1] == (u256_as_nat(a) / pow2(64)) % pow2(64),
        a.0[2] == (u256_as_nat(a) / pow2(128)) % pow2(64),
        a.0[3] == u256_as_nat(a) / pow2(192),
        a.0[3] == (u256_as_nat(a) / pow2(192)) % pow2(64),
{
    lemma_pow2_limb_values();
    let p64 = pow2(64) as int;
    let p128 = pow2(128) as int;
    let p192 = pow2(192) as int;
    let n = u256_as_nat(a) as int;
    let q0 = a.0[1] + a.0[2] * 0x10000000000000000 + a.0[3] * 0x100000000000000000000000000000000;
    lemma_fundamental_div_mod_converse(n, p64, q0, a.0[0] as int);
    let q1 = a.0[2] + a.0[3] * 0x10000000000000000;
    lemma_fundamental_div_mod_converse(n, p128, q1, (a.0[0] + a.0[1] * 0x10000000000000000) as int);
    lemma_fundamental_div_mod_converse(
        n,
        p192,
        a.0[3] as int,
        (a.0[0] + a.0[1] * 0x10000000000000000
            + a.0[2] * 0x100000000000000000000000000000000) as int,
    );
    lemma_fundamental_div_mod_converse(q0, p64, q1, a.0[1] as int);
    lemma_fundamental_div_mod_converse(q1, p64, a.0[3] as int, a.0[2] as int);
    lemma_div_denominator(n, p64, p64);
    lemma_div_denominator(n, p128, p64);
    lemma_small_mod(a.0[3] as nat, pow2(64));
}

/// Two values with the same mathematical value have the same limbs.
pub proof fn lemma_as_nat_injective(a: U256, b: U256)
    requires
        u256_as_nat(a) == u256_as_nat(b),
    ensures
        a == b,
{
    lemma_limb_extract(a);
    lemma_limb_extract(b);
    assert(a.0 =~= b.0);
}

/// The limbs of the value `n`, read in base 2^64.
pub open spec fn u256_from_nat(n: nat) -> U256 {
    U256(
        [
            (n % pow2(64)) as u64,
            ((n / pow2(64)) % pow2(64)) as u64,
            ((n / pow2(128)) % pow2(64)) as u64,
            ((n / pow2(192)) % pow2(64)) as u64,
        ],
    )
}

/// Splitting a value into limbs and reassembling it is the identity,
/// in both directions.
pub proof fn lemma_from_nat_as_nat(a: U256)
    ensures
        u256_from_nat(u256_as_nat(a)) == a,
{
    lemma_limb_extract(a);
    lemma_pow2_limb_values();
    let n = u256_as_nat(a);
    assert(a.0[3] < 0x10000000000000000);
    lemma_small_mod(a.0[3] as nat, pow2(64));
    assert(u256_from_nat(n).0 =~= a.0);
}

/// The value of the limbs of `n` is `n` again, for `n` below 2^256.
pub proof fn lemma_as_nat_from_nat(n: nat)
    requires
        n < pow2(256),
    ensures
        u256_as_nat(u256_from_nat(n)) == n,
{
    lemma_pow2_limb_values();
    let p64 = pow2(64) as int;
    let ni = n as int;
    lemma_fundamental_div_mod(ni, p64);
    lemma_fundamental_div_mod(ni / p64, p64);
    lemma_fundamental_div_mod(ni / p64 / p64, p64);
    lemma_div_denominator(ni, p64, p64);
    lemma_div_denominator(ni, pow2(128) as int, p64);
    assert(ni / p64 / p64 / p64 < p64) by {
        lemma_div_denominator(ni, pow2(128) as int, p64);
    }
    lemma_small_mod((ni / p64 / p64 / p64) as nat, pow2(64));
}

/// The lowest limb is the value modulo 2^64.
pub proof fn lemma_limb0_is_mod(a: U256)
    ensures
        a.0[0] == u256_as_nat(a) % pow2(64),
{
    lemma_pow2_limb_values();
    let p64 = pow2(64) as int;
    let q = a.0[1] + a.0[2] * 0x10000000000000000 + a.0[3] * 0x100000000000000000000000000000000;
    assert(u256_as_nat(a) == q * p64 + a.0[0]) by {
        lemma_pow2_limb_values();
    }
    lemma_fundamental_div_mod_converse(u256_as_nat(a) as int, p64, q, a.0[0] as int);
}

/// The result of ADD: `(a + b) mod 2^256`.
pub open spec fn spec_add(a: U256, b: U256) -> U256 {
    u256_from_nat((u256_as_nat(a) + u256_as_nat(b)) % pow2(256))
}

/// The result of SUB: `(a - b) mod 2^256`.
pub open spec fn spec_sub(a: U256, b: U256) -> U256 {
    u256_from_nat((((u256_as_nat(a) - u256_as_nat(b)) % (pow2(256) as int))) as nat)
}

/// The result of MUL: `(a * b) mod 2^256`.
pub open spec fn spec_mul(a: U256, b: U256) -> U256 {
    u256_from_nat((u256_as_nat(a) * u256_as_nat(b)) % pow2(256))
}

/// The result of EQ: 1 when the values are equal, else 0.
pub open spec fn spec_eq(a: U256, b: U256) -> U256 {
    u256_from_nat(
        if u256_as_nat(a) == u256_as_nat(b) {
            1nat
        } else {
            0nat
        },
    )
}

/// The result of ISZERO: 1 when the value is zero, else 0.
pub open spec fn spec_iszero(a: U256) -> U256 {
    u256_from_nat(
        if u256_as_nat(a) == 0 {
            1nat
        } else {
            0nat
        },
    )
}

/// The result of GT: 1 when `a > b` unsigned, else 0.
pub open spec fn spec_gt(a: U256, b: U256) -> U256 {
    u256_from_nat(
        if u256_as_nat(a) > u256_as_nat(b) {
            1nat
        } else {
            0nat
        },
    )
}

/// The result of AND, limb by limb.
pub open spec fn spec_and(a: U256, b: U256) -> U256 {
    U256([a.0[0] & b.0[0], a.0[1] & b.0[1], a.0[2] & b.0[2], a.0[3] & b.0[3]])
}

/// The result of OR, limb by limb.
pub open spec fn spec_or(a: U256, b: U256) -> U256 {
    U256([a.0[0] | b.0[0], a.0[1] | b.0[1], a.0[2] | b.0[2], a.0[3] | b.0[3]])
}

/// The result of XOR, limb by limb.
pub open spec fn spec_xor(a: U256, b: U256) -> U256 {
    U256([a.0[0] ^ b.0[0], a.0[1] ^ b.0[1], a.0[2] ^ b.0[2], a.0[3] ^ b.0[3]])
}

/// The result of NOT, limb by limb.
pub open spec fn spec_not(a: U256) -> U256 {
    U256([!a.0[0], !a.0[1], !a.0[2], !a.0[3]])
}

/// The result of BYTE: big-endian byte `i` of `x`, or 0 for `i >= 32`.
pub open spec fn spec_byte(i: U256, x: U256) -> U256 {
    u256_from_nat(
        if u256_as_nat(i) >= 32 {
            0nat
        } else {
            u256_be_byte(x, u256_as_nat(i) as int) as nat
        },
    )
}

/// The result of SHL: `value * 2^count mod 2^256`, or 0 once the count
/// reaches 256.
pub open spec fn spec_shl(count: U256, value: U256) -> U256 {
    u256_from_nat(
        if u256_as_nat(count) >= 256 {
            0nat
        } else {
            (u256_as_nat(value) * pow2(u256_as_nat(count))) % pow2(256)
        },
    )
}

/// Addition of the four limb pairs with carry propagation; the boolean is the
/// carry out of the top limb.
pub fn overflowing_add_u256(a: U256, b: U256) -> (r: (U256, bool))
    ensures
        u256_as_nat(r.0) + (if r.1 {
            pow2(256)
        } else {
            0
        }) == u256_as_nat(a) + u256_as_nat(b),
{
    proof {
        lemma_pow2_limb_values();
    }
    let t0: u128 = a.0[0] as u128 + b.0[0] as u128;
    let s0: u64 = (t0 % 0x10000000000000000) as u64;
    let c0: u64 = (t0 / 0x10000000000000000) as u64;
    let t1: u128 = a.0[1] as u128 + b.0[1] as u128 + c0 as u128;
    let s1: u64 = (t1 % 0x10000000000000000) as u64;
    let c1: u64 = (t1 / 0x10000000000000000) as u64;
    let t2: u128 = a.0[2] as u128 + b.0[2] as u128 + c1 as u128;
    let s2: u64 = (t2 % 0x10000000000000000) as u64;
    let c2: u64 = (t2 / 0x10000000000000000) as u64;
    let t3: u128 = a.0[3] as u128 + b.0[3] as u128 + c2 as u128;
    let s3: u64 = (t3 % 0x10000000000000000) as u64;
    let c3: u64 = (t3 / 0x10000000000000000) as u64;
    let r = U256([s0, s1, s2, s3]);
    proof {
        lemma_fundamental_div_mod(t0 as int, 0x10000000000000000);
        lemma_fundamental_div_mod(t1 as int, 0x10000000000000000);
        lemma_fundamental_div_mod(t2 as int, 0x10000000000000000);
        lemma_fundamental_div_mod(t3 as int, 0x10000000000000000);
    }
    (r, c3 != 0)
}

/// Subtraction of the limb pairs with borrow propagation; the boolean is the
/// borrow out of the top limb, set exactly when `a < b`.
pub fn overflowing_sub_u256(a: U256, b: U256) -> (r: (U256, bool))
    ensures
        u256_as_nat(r.0) == u256_as_nat(a) - u256_as_nat(b) + (if r.1 {
            pow2(256)
        } else {
            0
        }),
        r.1 == (u256_as_nat(a) < u256_as_nat(b)),
{
    proof {
        lemma_pow2_limb_values();
    }
    let t0: u128 = 0x10000000000000000u128 + a.0[0] as u128 - b.0[0] as u128;
    let s0: u64 = (t0 % 0x10000000000000000) as u64;
    let w1: u64 = 1 - (t0 / 0x10000000000000000) as u64;
    let t1: u128 = 0x10000000000000000u128 + a.0[1] as u128 - b.0[1] as u128 - w1 as u128;
    let s1: u64 = (t1 % 0x10000000000000000) as u64;
    let w2: u64 = 1 - (t1 / 0x10000000000000000) as u64;
    let t2: u128 = 0x10000000000000000u128 + a.0[2] as u128 - b.0[2] as u128 - w2 as u128;
    let s2: u64 = (t2 % 0x10000000000000000) as u64;
    let w3: u64 = 1 - (t2 / 0x10000000000000000) as u64;
    let t3: u128 = 0x10000000000000000u128 + a.0[3] as u128 - b.0[3] as u128 - w3 as u128;
    let s3: u64 = (t3 % 0x10000000000000000) as u64;
    let w4: u64 = 1 - (t3 / 0x10000000000000000) as u64;
    let r = U256([s0, s1, s2, s3]);
    proof {
        lemma_fundamental_div_mod(t0 as int, 0x10000000000000000);
        lemma_fundamental_div_mod(t1 as int, 0x10000000000000000);
        lemma_fundamental_div_mod(t2 as int, 0x10000000000000000);
        lemma_fundamental_div_mod(t3 as int, 0x10000000000000000);
        lemma_as_nat_bound(r);
        lemma_as_nat_bound(a);
        lemma_as_nat_bound(b);
    }
    (r, w4 != 0)
}

/// Subtraction modulo 2^256.
pub fn sub_u256(a: U256, b: U256) -> (r: U256)
    ensures
        u256_as_nat(r) == (u256_as_nat(a) - u256_as_nat(b)) % (pow2(256) as int),
        r == spec_sub(a, b),
{
    let (value, borrow) = overflowing_sub_u256(a, b);
    proof {
        lemma_pow2_limb_values();
        let p256 = pow2(256) as int;
        let d = u256_as_nat(a) - u256_as_nat(b);
        if borrow {
            lemma_fundamental_div_mod_converse(d, p256, -1, u256_as_nat(value) as int);
        } else {
            lemma_fundamental_div_mod_converse(d, p256, 0, u256_as_nat(value) as int);
        }
        lemma_from_nat_as_nat(value);
    }
    value
}

/// Unsigned comparison `a > b`, by comparing the 128-bit halves,
/// high half first.
pub fn gt_u256(a: U256, b: U256) -> (r: bool)
    ensures
        r == (u256_as_nat(a) > u256_as_nat(b)),
{
    proof {
        lemma_pow2_limb_values();
    }
    let alo: u128 = a.0[1] as u128 * 0x10000000000000000u128 + a.0[0] as u128;
    let blo: u128 = b.0[1] as u128 * 0x10000000000000000u128 + b.0[0] as u128;
    let ahi: u128 = a.0[3] as u128 * 0x10000000000000000u128 + a.0[2] as u128;
    let bhi: u128 = b.0[3] as u128 * 0x10000000000000000u128 + b.0[2] as u128;
    (ahi > bhi) || ((ahi == bhi) && (alo > blo))
}

/// True exactly when every limb is zero.
pub fn is_zero_u256(value: U256) -> (r: bool)
    ensures
        r == (u256_as_nat(value) == 0),
{
    proof {
        lemma_pow2_limb_values();
    }
    value.0[0] == 0 && value.0[1] == 0 && value.0[2] == 0 && value.0[3] == 0
}

/// True exactly when `value < bound`.  The dispatch loop uses it for its
/// operand range checks: 32 for BYTE and SIGNEXTEND indices, 256 for SHL
/// counts, the code size limit for jump targets, and the memory capacity
/// bounds for load and store offsets.
pub fn is_ltpow2_u256(value: U256, bound: u64) -> (r: bool)
    ensures
        r == (u256_as_nat(value) < bound),
{
    proof {
        lemma_pow2_limb_values();
    }
    value.0[1] == 0 && value.0[2] == 0 && value.0[3] == 0 && value.0[0] < bound
}

/// Bitwise comparison, with the boolean result encoded as a 256-bit 0 or 1.
pub fn eq_u256(a: U256, b: U256) -> (r: U256)
    ensures
        u256_as_nat(r) == (if u256_as_nat(a) == u256_as_nat(b) {
            1nat
        } else {
            0nat
        }),
        r == spec_eq(a, b),
{
    let same = a.0[0] == b.0[0] && a.0[1] == b.0[1] && a.0[2] == b.0[2] && a.0[3] == b.0[3];
    proof {
        if same {
            assert(a.0 =~= b.0);
        } else {
            if u256_as_nat(a) == u256_as_nat(b) {
                lemma_as_nat_injective(a, b);
            }
        }
    }
    let r = if same {
        U256::from_u64(1)
    } else {
        U256::from_u64(0)
    };
    proof {
        lemma_from_nat_as_nat(r);
    }
    r
}

/// Zero test, with the boolean result encoded as a 256-bit 0 or 1.
pub fn iszero_u256(a: U256) -> (r: U256)
    ensures
        u256_as_nat(r) == (if u256_as_nat(a) == 0 {
            1nat
        } else {
            0nat
        }),
        r == spec_iszero(a),
{
    let r = if is_zero_u256(a) {
        U256::from_u64(1)
    } else {
        U256::from_u64(0)
    };
    proof {
        lemma_from_nat_as_nat(r);
    }
    r
}

/// Complementing a 64-bit limb subtracts it from the all-ones limb.
pub proof fn lemma_u64_not(x: u64)
    by (bit_vector)
    ensures
        !x == 0xffffffffffffffffu64 - x,
{
}

/// Bitwise AND, limb by limb.
pub fn and_u256(a: U256, b: U256) -> (r: U256)
    ensures
        r.0[0] == (a.0[0] & b.0[0]),
        r.0[1] == (a.0[1] & b.0[1]),
        r.0[2] == (a.0[2] & b.0[2]),
        r.0[3] == (a.0[3] & b.0[3]),
        r == spec_and(a, b),
{
    let r = U256([a.0[0] & b.0[0], a.0[1] & b.0[1], a.0[2] & b.0[2], a.0[3] & b.0[3]]);
    proof {
        assert(r.0[0] == (a.0[0] & b.0[0]));
        assert(r.0[1] == (a.0[1] & b.0[1]));
        assert(r.0[2] == (a.0[2] & b.0[2]));
        assert(r.0[3] == (a.0[3] & b.0[3]));
        assert(r.0 =~= spec_and(a, b).0);
    }
    r
}

/// Bitwise OR, limb by limb.
pub fn or_u256(a: U256, b: U256) -> (r: U256)
    ensures
        r.0[0] == (a.0[0] | b.0[0]),
        r.0[1] == (a.0[1] | b.0[1]),
        r.0[2] == (a.0[2] | b.0[2]),
        r.0[3] == (a.0[3] | b.0[3]),
        r == spec_or(a, b),
{
    let r = U256([a.0[0] | b.0[0], a.0[1] | b.0[1], a.0[2] | b.0[2], a.0[3] | b.0[3]]);
    proof {
        assert(r.0[0] == (a.0[0] | b.0[0]));
        assert(r.0[1] == (a.0[1] | b.0[1]));
        assert(r.0[2] == (a.0[2] | b.0[2]));
        assert(r.0[3] == (a.0[3] | b.0[3]));
        assert(r.0 =~= spec_or(a, b).0);
    }
    r
}

/// Bitwise XOR, limb by limb.
pub fn xor_u256(a: U256, b: U256) -> (r: U256)
    ensures
        r.0[0] == (a.0[0] ^ b.0[0]),
        r.0[1] == (a.0[1] ^ b.0[1]),
        r.0[2] == (a.0[2] ^ b.0[2]),
        r.0[3] == (a.0[3] ^ b.0[3]),
        r == spec_xor(a, b),
{
    let r = U256([a.0[0] ^ b.0[0], a.0[1] ^ b.0[1], a.0[2] ^ b.0[2], a.0[3] ^ b.0[3]]);
    proof {
        assert(r.0[0] == (a.0[0] ^ b.0[0]));
        assert(r.0[1] == (a.0[1] ^ b.0[1]));
        assert(r.0[2] == (a.0[2] ^ b.0[2]));
        assert(r.0[3] == (a.0[3] ^ b.0[3]));
        assert(r.0 =~= spec_xor(a, b).0);
    }
    r
}

/// Bitwise complement, limb by limb; arithmetically this is subtraction
/// from 2^256 - 1.
pub fn not_u256(value: U256) -> (r: U256)
    ensures
        r.0[0] == !value.0[0],
        r.0[1] == !value.0[1],
        r.0[2] == !value.0[2],
        r.0[3] == !value.0[3],
        u256_as_nat(r) == pow2(256) - 1 - u256_as_nat(value),
        r == spec_not(value),
{
    let r = U256([!value.0[0], !value.0[1], !value.0[2], !value.0[3]]);
    proof {
        assert(r.0[0] == !value.0[0]);
        assert(r.0[1] == !value.0[1]);
        assert(r.0[2] == !value.0[2]);
        assert(r.0[3] == !value.0[3]);
        lemma_u64_not(value.0[0]);
        lemma_u64_not(value.0[1]);
        lemma_u64_not(value.0[2]);
        lemma_u64_not(value.0[3]);
        lemma_pow2_limb_values();
        assert(r.0 =~= spec_not(value).0);
    }
    r
}

/// Addition modulo 2^256.
pub fn add_u256(a: U256, b: U256) -> (r: U256)
    ensures
        u256_as_nat(r) == (u256_as_nat(a) + u256_as_nat(b)) % pow2(256),
        r == spec_add(a, b),
{
    let (value, carry) = overflowing_add_u256(a, b);
    proof {
        lemma_pow2_limb_values();
        let p256 = pow2(256) as int;
        let s = u256_as_nat(a) + u256_as_nat(b);
        if carry {
            lemma_fundamental_div_mod_converse(s as int, p256, 1, u256_as_nat(value) as int);
        } else {
            lemma_fundamental_div_mod_converse(s as int, p256, 0, u256_as_nat(value) as int);
        }
        lemma_from_nat_as_nat(value);
    }
    value
}

/// Multiplying a four-term sum by `y` distributes over the terms,
/// in both operand orders.
#[verifier::rlimit(100)]
pub proof fn lemma_mul_expand4(x0: int, x1: int, x2: int, x3: int, y: int, w1: int, w2: int, w3: int)
    by (nonlinear_arith)
    ensures
        (x0 + x1 * w1 + x2 * w2 + x3 * w3) * y == x0 * y + (x1 * y) * w1 + (x2 * y) * w2 + (x3 * y)
            * w3,
        y * (x0 + x1 * w1 + x2 * w2 + x3 * w3) == y * x0 + (y * x1) * w1 + (y * x2) * w2 + (y * x3)
            * w3,
{
}

/// One multiply-accumulate step of the schoolbook product:
/// `x * y + acc + carry`, split into a low limb and a carry-out limb.
pub fn mac_u64(x: u64, y: u64, acc: u64, carry: u64) -> (r: (u64, u64))
    ensures
        r.0 + r.1 * pow2(64) == x * y + acc + carry,
{
    proof {
        lemma_pow2_limb_values();
        lemma_mul_upper_bound(x as int, 0xffffffffffffffff, y as int, 0xffffffffffffffff);
    }
    let t: u128 = x as u128 * y as u128 + acc as u128 + carry as u128;
    proof {
        lemma_fundamental_div_mod(t as int, 0x10000000000000000);
    }
    ((t % 0x10000000000000000) as u64, (t / 0x10000000000000000) as u64)
}

/// Schoolbook multiplication: the full 8-limb product of the two 4-limb
/// operands is accumulated row by row, and the low 4 limbs are kept.
pub fn mul_u256(a: U256, b: U256) -> (r: U256)
    ensures
        u256_as_nat(r) == (u256_as_nat(a) * u256_as_nat(b)) % pow2(256),
        r == spec_mul(a, b),
{
    let (a0, a1, a2, a3) = (a.0[0], a.0[1], a.0[2], a.0[3]);
    let (b0, b1, b2, b3) = (b.0[0], b.0[1], b.0[2], b.0[3]);
    // row 0: a * b0
    let (d0, k) = mac_u64(a0, b0, 0, 0);
    let (d1, k) = mac_u64(a1, b0, 0, k);
    let (d2, k) = mac_u64(a2, b0, 0, k);
    let (d3, k) = mac_u64(a3, b0, 0, k);
    let d4 = k;
    // row 1: a * b1, shifted one limb
    let (e1, k) = mac_u64(a0, b1, d1, 0);
    let (e2, k) = mac_u64(a1, b1, d2, k);
    let (e3, k) = mac_u64(a2, b1, d3, k);
    let (e4, k) = mac_u64(a3, b1, d4, k);
    let e5 = k;
    // row 2: a * b2, shifted two limbs
    let (f2, k) = mac_u64(a0, b2, e2, 0);
    let (f3, k) = mac_u64(a1, b2, e3, k);
    let (f4, k) = mac_u64(a2, b2, e4, k);
    let (f5, k) = mac_u64(a3, b2, e5, k);
    let f6 = k;
    // row 3: a * b3, shifted three limbs
    let (g3, k) = mac_u64(a0, b3, f3, 0);
    let (g4, k) = mac_u64(a1, b3, f4, k);
    let (g5, k) = mac_u64(a2, b3, f5, k);
    let (g6, k) = mac_u64(a3, b3, f6, k);
    let g7 = k;
    let r = U256([d0, e1, f2, g3]);
    proof {
        lemma_pow2_limb_values();
        lemma_pow2_adds(256, 64);
        lemma_pow2_adds(256, 128);
        lemma_pow2_adds(256, 192);
        let p64 = pow2(64) as int;
        let p128 = pow2(128) as int;
        let p192 = pow2(192) as int;
        let p256 = pow2(256) as int;
        let av = u256_as_nat(a) as int;
        let bv = u256_as_nat(b) as int;
        // expand the product into the sixteen limb products
        lemma_mul_expand4(b.0[0] as int, b.0[1] as int, b.0[2] as int, b.0[3] as int, av, p64, p128, p192);
        assert(av * bv == av * b.0[0] + (av * b.0[1]) * p64 + (av * b.0[2]) * p128 + (av
            * b.0[3]) * p192);
        lemma_mul_expand4(a.0[0] as int, a.0[1] as int, a.0[2] as int, a.0[3] as int, b.0[0] as int, p64, p128, p192);
        lemma_mul_expand4(a.0[0] as int, a.0[1] as int, a.0[2] as int, a.0[3] as int, b.0[1] as int, p64, p128, p192);
        lemma_mul_expand4(a.0[0] as int, a.0[1] as int, a.0[2] as int, a.0[3] as int, b.0[2] as int, p64, p128, p192);
        lemma_mul_expand4(a.0[0] as int, a.0[1] as int, a.0[2] as int, a.0[3] as int, b.0[3] as int, p64, p128, p192);
        // the eight final limbs carry the whole product
        let hi = g4 + g5 * p64 + g6 * p128 + g7 * p192;
        assert(u256_as_nat(r) + hi * p256 == av * bv);
        lemma_as_nat_bound(r);
        lemma_fundamental_div_mod_converse(av * bv, p256, hi, u256_as_nat(r) as int);
        lemma_from_nat_as_nat(r);
    }
    r
}

/// Byte `i` of the value seen as a big-endian 32-byte integer:
/// `i = 0` selects the most significant byte.
pub open spec fn u256_be_byte(v: U256, i: int) -> u8 {
    ((u256_as_nat(v) / pow2((8 * (31 - i)) as nat)) % 256) as u8
}

/// The big-endian 32-byte representation of a value.
pub open spec fn u256_be_bytes(v: U256) -> Seq<u8> {
    Seq::new(32, |i| u256_be_byte(v, i))
}

/// The value of a byte sequence read as a big-endian integer.
pub open spec fn be_bytes_as_nat(s: Seq<u8>) -> nat
    decreases s.len(),
{
    if s.len() == 0 {
        0
    } else {
        (be_bytes_as_nat(s.drop_last()) * 256 + s.last()) as nat
    }
}

/// A big-endian byte sequence of length `len` is below 2^(8 len).
pub proof fn lemma_be_bytes_bound(s: Seq<u8>)
    ensures
        be_bytes_as_nat(s) < pow2(8 * s.len()),
    decreases s.len(),
{
    if s.len() == 0 {
        lemma2_to64();
    } else {
        lemma_be_bytes_bound(s.drop_last());
        lemma_pow2_adds(8 * (s.len() - 1) as nat, 8);
        lemma2_to64();
        let m = be_bytes_as_nat(s.drop_last()) as int;
        let p = pow2(8 * (s.len() - 1) as nat) as int;
        assert(m * 256 + 255 < p * 256) by (nonlinear_arith)
            requires
                m < p,
        ;
    }
}

/// Extracting the middle byte of a limb agrees with extracting the same byte
/// of the whole value: the limb is `(n / 2^(64 k)) % 2^64`, and its byte `m`
/// is byte `8 k + m` of `n`.
pub proof fn lemma_limb_byte(n: nat, k: nat, m: nat)
    requires
        k < 4,
        m < 8,
    ensures
        (((n / pow2(64 * k)) % pow2(64)) / pow2(8 * m)) % 256 == (n / pow2(64 * k + 8 * m)) % 256,
{
    lemma2_to64();
    lemma_pow2_pos(64 * k);
    lemma_pow2_pos(8 * m);
    lemma_pow2_pos((64 - 8 * m) as nat);
    lemma_pow2_pos((56 - 8 * m) as nat);
    let x = (n / pow2(64 * k)) as int;
    let d = pow2(8 * m) as int;
    let q = x / (pow2(64) as int);
    lemma_fundamental_div_mod(x, pow2(64) as int);
    lemma_pow2_adds(8 * m, (64 - 8 * m) as nat);
    let e = pow2((64 - 8 * m) as nat) as int;
    let j = -(e * q);
    assert(pow2(8 * m) * pow2((64 - 8 * m) as nat) == pow2(64));
    assert(j * d == -((d * e) * q)) by (nonlinear_arith)
        requires
            j == -(e * q),
    ;
    assert((d * e) * q == (pow2(64) as int) * q);
    assert(x + j * d == x % (pow2(64) as int));
    lemma_hoist_over_denominator(x, j, pow2(8 * m));
    assert((x % pow2(64) as int) / d == x / d + j);
    lemma_pow2_adds(8, (56 - 8 * m) as nat);
    let p56 = pow2((56 - 8 * m) as nat) as int;
    let t = -(p56 * q);
    assert(j == 256 * t) by (nonlinear_arith)
        requires
            e == 256 * p56,
            j == -(e * q),
            t == -(p56 * q),
    ;
    lemma_mod_multiples_vanish(t, x / d, 256);
    lemma_pow2_adds(64 * k, 8 * m);
    lemma_div_denominator(n as int, pow2(64 * k) as int, d);
}

impl U256 {
    /// Reads big-endian byte `i` out of the limbs: `i = 0` is the most
    /// significant byte of the value.
    pub fn byte_at(&self, i: usize) -> (r: u8)
        requires
            i < 32,
        ensures
            r == u256_be_byte(*self, i as int),
    {
        let j = 31 - i;
        let k = j / 8;
        let m = j % 8;
        let limb = self.0[k];
        let d: u64 = match m {
            0 => 1,
            1 => 0x100,
            2 => 0x10000,
            3 => 0x1000000,
            4 => 0x100000000,
            5 => 0x10000000000,
            6 => 0x1000000000000,
            _ => 0x100000000000000,
        };
        proof {
            let n = u256_as_nat(*self);
            lemma2_to64();
            lemma2_to64_rest();
            assert(d == pow2((8 * m) as nat));
            lemma_limb_extract(*self);
            vstd::arithmetic::div_mod::lemma_div_basics(n as int);
            if k == 0 {
                assert(n / pow2(0) == n);
                assert(limb == (n / pow2(64 * (k as nat))) % pow2(64));
            } else if k == 1 {
                assert(limb == (n / pow2(64 * (k as nat))) % pow2(64));
            } else if k == 2 {
                assert(limb == (n / pow2(64 * (k as nat))) % pow2(64));
            } else {
                assert(k == 3);
                assert(limb == (n / pow2(64 * (k as nat))) % pow2(64));
            }
            lemma_limb_byte(n, k as nat, m as nat);
            assert(64 * (k as nat) + 8 * (m as nat) == (8 * (31 - i as int)) as nat);
        }
        (limb / d % 256) as u8
    }

    /// The big-endian 32-byte representation, most significant byte first.
    pub fn to_be_bytes(&self) -> (r: Vec<u8>)
        ensures
            r@ == u256_be_bytes(*self),
    {
        let mut r: Vec<u8> = Vec::new();
        let mut i: usize = 0;
        while i < 32
            invariant
                i <= 32,
                r@.len() == i,
                forall|t: int| 0 <= t < i ==> r@[t] == u256_be_byte(*self, t),
            decreases 32 - i,
        {
            r.push(self.byte_at(i));
            i = i + 1;
        }
        proof {
            assert(r@ =~= u256_be_bytes(*self));
        }
        r
    }
}

/// Byte `i` of a big-endian sequence is a digit of its value: dividing by
/// the weight of position `i` and keeping the low 8 bits recovers the byte.
pub proof fn lemma_be_bytes_extract(s: Seq<u8>, i: int)
    requires
        0 <= i < s.len(),
    ensures
        (be_bytes_as_nat(s) / pow2((8 * (s.len() - 1 - i)) as nat)) % 256 == s[i],
    decreases s.len(),
{
    lemma2_to64();
    let n = be_bytes_as_nat(s) as int;
    let m = be_bytes_as_nat(s.drop_last()) as int;
    assert(n == m * 256 + s.last());
    if i == s.len() - 1 {
        vstd::arithmetic::div_mod::lemma_div_basics(n);
        lemma_fundamental_div_mod_converse(n, 256, m, s.last() as int);
    } else {
        let t = (s.len() - 1 - i) as nat;
        lemma_fundamental_div_mod_converse(n, 256, m, s.last() as int);
        assert(n / 256 == m);
        lemma_pow2_pos((8 * (t - 1)) as nat);
        lemma_div_denominator(n, 256, pow2((8 * (t - 1)) as nat) as int);
        lemma_pow2_adds(8, (8 * (t - 1)) as nat);
        assert(n / (pow2(8 * t) as int) == m / (pow2((8 * (t - 1)) as nat) as int));
        lemma_be_bytes_extract(s.drop_last(), i);
    }
}

/// Reassembling the 32 big-endian digits of a value below 2^(8 len)
/// yields the value again.
pub proof fn lemma_be_digits_value(n: nat, len: nat)
    requires
        n < pow2(8 * len),
    ensures
        be_bytes_as_nat(Seq::new(len, |i: int| ((n / pow2((8 * (len - 1 - i)) as nat)) % 256) as u8))
            == n,
    decreases len,
{
    lemma2_to64();
    let s = Seq::new(len, |i: int| ((n / pow2((8 * (len - 1 - i)) as nat)) % 256) as u8);
    if len == 0 {
        assert(n == 0);
    } else {
        let m = n / 256;
        let prev = Seq::new(
            (len - 1) as nat,
            |i: int| ((m / pow2((8 * (len - 2 - i)) as nat)) % 256) as u8,
        );
        assert forall|i: int| 0 <= i < len - 1 implies s[i] == prev[i] by {
            let t = (len - 1 - i) as nat;
            lemma_pow2_pos((8 * (t - 1)) as nat);
            lemma_div_denominator(n as int, 256, pow2((8 * (t - 1)) as nat) as int);
            lemma_pow2_adds(8, (8 * (t - 1)) as nat);
        }
        assert(s.drop_last() =~= prev);
        assert(s.last() == (n / pow2(0)) % 256);
        vstd::arithmetic::div_mod::lemma_div_basics(n as int);
        lemma_pow2_adds(8, (8 * (len - 1)) as nat);
        vstd::arithmetic::div_mod::lemma_multiply_divide_lt(
            n as int,
            256,
            pow2((8 * (len - 1)) as nat) as int,
        );
        lemma_be_digits_value(m, (len - 1) as nat);
        lemma_fundamental_div_mod(n as int, 256);
    }
}

/// The 32-byte big-endian representation of a value carries the value.
pub proof fn lemma_u256_be_bytes_value(v: U256)
    ensures
        be_bytes_as_nat(u256_be_bytes(v)) == u256_as_nat(v),
{
    lemma_pow2_limb_values();
    lemma_as_nat_bound(v);
    let n = u256_as_nat(v);
    lemma_be_digits_value(n, 32);
    let s = Seq::new(32, |i: int| ((n / pow2((8 * (31 - i)) as nat)) % 256) as u8);
    assert(u256_be_bytes(v) =~= s);
}

/// Appends one base-256 digit: `acc * 256 + b`, for an accumulator that
/// still fits after the shift.
fn push_be_digit(acc: U256, b: u8) -> (r: U256)
    requires
        u256_as_nat(acc) < pow2(248),
    ensures
        u256_as_nat(r) == u256_as_nat(acc) * 256 + b,
{
    proof {
        lemma_pow2_limb_values();
    }
    let t0: u128 = acc.0[0] as u128 * 256 + b as u128;
    let l0: u64 = (t0 % 0x10000000000000000) as u64;
    let c0: u64 = (t0 / 0x10000000000000000) as u64;
    let t1: u128 = acc.0[1] as u128 * 256 + c0 as u128;
    let l1: u64 = (t1 % 0x10000000000000000) as u64;
    let c1: u64 = (t1 / 0x10000000000000000) as u64;
    let t2: u128 = acc.0[2] as u128 * 256 + c1 as u128;
    let l2: u64 = (t2 % 0x10000000000000000) as u64;
    let c2: u64 = (t2 / 0x10000000000000000) as u64;
    let t3: u128 = acc.0[3] as u128 * 256 + c2 as u128;
    let l3: u64 = (t3 % 0x10000000000000000) as u64;
    let c3: u64 = (t3 / 0x10000000000000000) as u64;
    let r = U256([l0, l1, l2, l3]);
    proof {
        lemma_fundamental_div_mod(t0 as int, 0x10000000000000000);
        lemma_fundamental_div_mod(t1 as int, 0x10000000000000000);
        lemma_fundamental_div_mod(t2 as int, 0x10000000000000000);
        lemma_fundamental_div_mod(t3 as int, 0x10000000000000000);
        lemma_as_nat_bound(r);
        assert(u256_as_nat(r) + c3 * pow2(256) == u256_as_nat(acc) * 256 + b);
    }
    r
}

/// Reads up to 32 big-endian bytes into a value, zero-extending.
pub fn u256_from_be_bytes(s: &[u8]) -> (r: U256)
    requires
        s@.len() <= 32,
    ensures
        u256_as_nat(r) == be_bytes_as_nat(s@),
{
    let mut acc = U256::from_u64(0);
    let n = s.len();
    let mut i: usize = 0;
    proof {
        assert(s@.subrange(0, 0) =~= Seq::<u8>::empty());
    }
    while i < n
        invariant
            i <= n,
            n == s@.len() <= 32,
            u256_as_nat(acc) == be_bytes_as_nat(s@.subrange(0, i as int)),
        decreases n - i,
    {
        proof {
            lemma_pow2_limb_values();
            lemma_be_bytes_bound(s@.subrange(0, i as int));
            if 8 * i < 248 {
                vstd::arithmetic::power2::lemma_pow2_strictly_increases(8 * (i as nat), 248);
            }
            let next = s@.subrange(0, i + 1);
            assert(next.drop_last() =~= s@.subrange(0, i as int));
            assert(next.last() == s@[i as int]);
        }
        acc = push_be_digit(acc, s[i]);
        i = i + 1;
    }
    proof {
        assert(s@.subrange(0, n as int) =~= s@);
    }
    acc
}

/// The BYTE operation: byte `i` of `x` in its big-endian view, for `i`
/// taken from the first operand; 0 when the index is 32 or more.
pub fn byte_u256(i: U256, x: U256) -> (r: U256)
    ensures
        u256_as_nat(r) == (if u256_as_nat(i) >= 32 {
            0nat
        } else {
            u256_be_byte(x, u256_as_nat(i) as int) as nat
        }),
        r == spec_byte(i, x),
{
    let r = if is_ltpow2_u256(i, 32) {
        proof {
            lemma_limb_extract(i);
            lemma_pow2_limb_values();
            lemma_small_mod(u256_as_nat(i), pow2(64));
        }
        let idx = i.0[0] as usize;
        U256::from_u64(x.byte_at(idx) as u64)
    } else {
        U256::from_u64(0)
    };
    proof {
        lemma_from_nat_as_nat(r);
    }
    r
}

/// Reverses the 32-byte big-endian representation.
pub fn bswap_u256(value: U256) -> (r: U256)
    ensures
        forall|i: int| 0 <= i < 32 ==> u256_be_byte(r, i) == u256_be_byte(value, 31 - i),
{
    let mut rev: Vec<u8> = Vec::new();
    let mut i: usize = 0;
    while i < 32
        invariant
            i <= 32,
            rev@.len() == i,
            forall|t: int| 0 <= t < i ==> rev@[t] == u256_be_byte(value, 31 - t),
        decreases 32 - i,
    {
        rev.push(value.byte_at(31 - i));
        i = i + 1;
    }
    let r = u256_from_be_bytes(rev.as_slice());
    proof {
        assert forall|t: int| 0 <= t < 32 implies u256_be_byte(r, t) == u256_be_byte(
            value,
            31 - t,
        ) by {
            lemma_be_bytes_extract(rev@, t);
        }
    }
    r
}

/// Builds 2^shift as a 256-bit value: a single set bit.
pub fn pow2_u256(shift: u64) -> (r: U256)
    requires
        shift < 256,
    ensures
        u256_as_nat(r) == pow2(shift as nat),
{
    let k = shift / 64;
    let m = shift % 64;
    let v: u64 = 1u64 << m;
    proof {
        lemma2_to64();
        lemma_pow2_limb_values();
        vstd::arithmetic::power2::lemma_pow2_strictly_increases(m as nat, 64);
        vstd::bits::lemma_u64_shl_is_mul(1u64, m);
        assert(v == pow2(m as nat));
        lemma_fundamental_div_mod(shift as int, 64);
    }
    let r = if k == 0 {
        U256([v, 0, 0, 0])
    } else if k == 1 {
        U256([0, v, 0, 0])
    } else if k == 2 {
        U256([0, 0, v, 0])
    } else {
        U256([0, 0, 0, v])
    };
    proof {
        lemma_pow2_limb_values();
        if k == 0 {
            assert(u256_as_nat(r) == v);
        } else if k == 1 {
            assert(u256_as_nat(r) == v * 0x10000000000000000);
            lemma_pow2_adds(64, m as nat);
        } else if k == 2 {
            assert(u256_as_nat(r) == v * 0x100000000000000000000000000000000);
            lemma_pow2_adds(128, m as nat);
        } else {
            assert(k == 3);
            assert(u256_as_nat(r) == v * 0x1000000000000000000000000000000000000000000000000);
            lemma_pow2_adds(192, m as nat);
        }
    }
    r
}

/// The SHL operation: `value` shifted left by `count` bits, modulo 2^256;
/// zero once the count reaches 256.
pub fn shl_u256(count: U256, value: U256) -> (r: U256)
    ensures
        u256_as_nat(r) == (if u256_as_nat(count) >= 256 {
            0nat
        } else {
            (u256_as_nat(value) * pow2(u256_as_nat(count))) % pow2(256)
        }),
        r == spec_shl(count, value),
{
    let r = if is_ltpow2_u256(count, 256) {
        proof {
            lemma_limb_extract(count);
            lemma_pow2_limb_values();
            lemma_small_mod(u256_as_nat(count), pow2(64));
        }
        let p = pow2_u256(count.0[0]);
        mul_u256(value, p)
    } else {
        U256::from_u64(0)
    };
    proof {
        lemma_from_nat_as_nat(r);
    }
    r
}

/// Truncating to `kk` bits does not change the bytes that lie fully below
/// the truncation point.
pub proof fn lemma_mod_div_digit(x: nat, kk: nat, e: nat)
    requires
        e + 8 <= kk,
    ensures
        ((x % pow2(kk)) / pow2(e)) % 256 == (x / pow2(e)) % 256,
{
    lemma2_to64();
    lemma_pow2_pos(e);
    lemma_pow2_pos(kk);
    lemma_pow2_pos((kk - e) as nat);
    lemma_pow2_pos((kk - e - 8) as nat);
    let xi = x as int;
    let q = xi / (pow2(kk) as int);
    lemma_fundamental_div_mod(xi, pow2(kk) as int);
    lemma_pow2_adds(e, (kk - e) as nat);
    let d = pow2(e) as int;
    let f = pow2((kk - e) as nat) as int;
    let j = -(f * q);
    assert(j * d == -((d * f) * q)) by (nonlinear_arith)
        requires
            j == -(f * q),
    ;
    assert((d * f) * q == (pow2(kk) as int) * q);
    assert(xi + j * d == xi % (pow2(kk) as int));
    lemma_hoist_over_denominator(xi, j, pow2(e));
    assert((xi % (pow2(kk) as int)) / d == xi / d + j);
    lemma_pow2_adds(8, (kk - e - 8) as nat);
    let g = pow2((kk - e - 8) as nat) as int;
    let t = -(g * q);
    assert(j == 256 * t) by (nonlinear_arith)
        requires
            f == 256 * g,
            j == -(f * q),
            t == -(g * q),
    ;
    lemma_mod_multiples_vanish(t, xi / d, 256);
}

/// Adding a quantity divisible by 2^(e+8) does not change byte `e..e+8`.
pub proof fn lemma_add_high_digit(lo: nat, h: nat, e: nat)
    requires
        h % pow2(e + 8) == 0,
    ensures
        ((lo + h) / pow2(e)) % 256 == (lo / pow2(e)) % 256,
{
    lemma2_to64();
    lemma_pow2_pos(e);
    lemma_pow2_pos(e + 8);
    let d = pow2(e) as int;
    let t = (h as int) / (pow2(e + 8) as int);
    lemma_fundamental_div_mod(h as int, pow2(e + 8) as int);
    lemma_pow2_adds(e, 8);
    assert(h == (pow2(e + 8) as int) * t);
    let j = 256 * t;
    assert(j * d == (pow2(e + 8) as int) * t) by (nonlinear_arith)
        requires
            j == 256 * t,
            pow2(e + 8) == d * 256,
    ;
    lemma_hoist_over_denominator(lo as int, j, pow2(e));
    assert(((lo + h) as int) / d == (lo as int) / d + j);
    lemma_mod_multiples_vanish(t, (lo as int) / d, 256);
    assert((lo as int) / d + 256 * t == 256 * t + (lo as int) / d);
}

/// The top bit of byte `nn` (counting from the least significant byte)
/// is bit `8 nn + 7` of the value.
pub proof fn lemma_sign_bit(x: nat, nn: nat)
    ensures
        ((x / pow2(8 * nn)) % 256 >= 128) <==> ((x / pow2(8 * nn + 7)) % 2 == 1),
{
    lemma2_to64();
    lemma_pow2_pos(8 * nn);
    let y = (x / pow2(8 * nn)) as int;
    lemma_pow2_adds(8 * nn, 7);
    lemma_div_denominator(x as int, pow2(8 * nn) as int, 128);
    assert((x / pow2(8 * nn + 7)) as int == y / 128);
    let q = y / 256;
    lemma_fundamental_div_mod(y, 256);
    let j = -(2 * q);
    assert(y % 256 == y + j * 128);
    lemma_hoist_over_denominator(y, j, 128);
    assert((y % 256) / 128 == y / 128 + j);
    lemma_mod_multiples_vanish(-q, y / 128, 2);
    assert(0 <= y % 256 < 256);
    assert((y % 256) / 128 == (if y % 256 >= 128 {
        1int
    } else {
        0int
    }));
    lemma_small_mod(((y % 256) / 128) as nat, 2);
}

/// The arithmetic meaning of SIGNEXTEND: with `b` the byte index operand and
/// `x` the value, bits at and above `8 (b + 1)` are replaced by copies of bit
/// `8 (b + 1) - 1`; for `b >= 31` the value is unchanged.
pub open spec fn spec_signextend(b: nat, x: nat) -> nat {
    if b >= 31 {
        x
    } else {
        let k = 8 * (b + 1);
        if (x / pow2((k - 1) as nat)) % 2 == 1 {
            (x % pow2(k) + pow2(256) - pow2(k)) as nat
        } else {
            x % pow2(k)
        }
    }
}

/// The SIGNEXTEND operation: `a` is the byte index operand, `b` the value.
pub fn signextend_u256(a: U256, b: U256) -> (r: U256)
    ensures
        u256_as_nat(r) == spec_signextend(u256_as_nat(a), u256_as_nat(b)),
        r == u256_from_nat(spec_signextend(u256_as_nat(a), u256_as_nat(b))),
{
    if !is_ltpow2_u256(a, 32) {
        proof {
            lemma_from_nat_as_nat(b);
        }
        return b;
    }
    proof {
        lemma_limb_extract(a);
        lemma_pow2_limb_values();
        lemma_small_mod(u256_as_nat(a), pow2(64));
    }
    let n64 = a.0[0];
    if n64 >= 31 {
        proof {
            lemma_from_nat_as_nat(b);
        }
        return b;
    }
    let n = n64 as usize;
    let split = 31 - n;
    let sb = b.byte_at(split);
    let sign = sb >= 128;
    let ghost x = u256_as_nat(b);
    let ghost nn = n as nat;
    let ghost k = 8 * (nn + 1);
    proof {
        lemma_sign_bit(x, nn);
        assert(8 * (31 - split as int) == 8 * nn);
        assert(sign <==> ((x / pow2((k - 1) as nat)) % 2 == 1));
    }
    let fill: u8 = if sign {
        255
    } else {
        0
    };
    let mut bytes: Vec<u8> = Vec::new();
    let mut j: usize = 0;
    while j < 32
        invariant
            j <= 32,
            split <= 31,
            bytes@.len() == j,
            forall|t: int| 0 <= t < j && t < split ==> bytes@[t] == fill,
            forall|t: int| split <= t < j ==> bytes@[t] == u256_be_byte(b, t),
        decreases 32 - j,
    {
        if j < split {
            bytes.push(fill);
        } else {
            bytes.push(b.byte_at(j));
        }
        j = j + 1;
    }
    let r = u256_from_be_bytes(bytes.as_slice());
    proof {
        lemma2_to64();
        lemma_pow2_limb_values();
        lemma_as_nat_bound(b);
        lemma_pow2_pos(k);
        vstd::arithmetic::div_mod::lemma_mod_bound(x as int, pow2(k) as int);
        if k < 256 {
            vstd::arithmetic::power2::lemma_pow2_strictly_increases(k, 256);
        }
        let lo = x % pow2(k);
        let target = spec_signextend(u256_as_nat(a), x);
        assert(target == (if sign {
            (lo + pow2(256) - pow2(k)) as nat
        } else {
            lo
        }));
        let dig = Seq::new(32, |i: int| ((target / pow2((8 * (31 - i)) as nat)) % 256) as u8);
        assert forall|t: int| 0 <= t < 32 implies bytes@[t] == dig[t] by {
            let e = (8 * (31 - t)) as nat;
            lemma_pow2_pos(e);
            if t >= split {
                assert(e + 8 <= k);
                lemma_mod_div_digit(x, k, e);
                if sign {
                    let h = (pow2(256) - pow2(k)) as nat;
                    lemma_pow2_adds(k, (256 - k) as nat);
                    lemma_pow2_adds(e + 8, (k - e - 8) as nat);
                    let w = pow2((k - e - 8) as nat) * (pow2((256 - k) as nat) - 1);
                    assert(h == pow2(e + 8) * w) by (nonlinear_arith)
                        requires
                            h == pow2(k) * pow2((256 - k) as nat) - pow2(k),
                            pow2(k) == pow2(e + 8) * pow2((k - e - 8) as nat),
                            w == pow2((k - e - 8) as nat) * (pow2((256 - k) as nat) - 1),
                    ;
                    assert(pow2(e + 8) * w == w * pow2(e + 8)) by (nonlinear_arith);
                    vstd::arithmetic::div_mod::lemma_mod_multiples_basic(
                        w as int,
                        pow2(e + 8) as int,
                    );
                    lemma_add_high_digit(lo, h, e);
                    assert((target / pow2(e)) % 256 == (x / pow2(e)) % 256);
                } else {
                    assert((target / pow2(e)) % 256 == (x / pow2(e)) % 256);
                }
                assert(bytes@[t] == u256_be_byte(b, t));
            } else {
                // t < split: the filled region, at or above the truncation
                assert(k <= e);
                if k < e {
                    vstd::arithmetic::power2::lemma_pow2_strictly_increases(k, e);
                }
                if sign {
                    let dd = pow2(e) as int;
                    let qq = pow2((256 - e) as nat) - 1;
                    let rr = dd - pow2(k) + lo;
                    lemma_pow2_adds(e, (256 - e) as nat);
                    assert(dd * qq + rr == target) by (nonlinear_arith)
                        requires
                            dd * pow2((256 - e) as nat) == pow2(256),
                            qq == pow2((256 - e) as nat) - 1,
                            rr == dd - pow2(k) + lo,
                            target == lo + pow2(256) - pow2(k),
                    ;
                    lemma_fundamental_div_mod_converse(target as int, dd, qq, rr);
                    lemma_pow2_adds(8, (248 - e) as nat);
                    lemma_pow2_pos((248 - e) as nat);
                    lemma_fundamental_div_mod_converse(
                        qq,
                        256,
                        pow2((248 - e) as nat) - 1,
                        255,
                    );
                    assert((target / pow2(e)) % 256 == 255);
                } else {
                    assert(lo < pow2(e));
                    assert(lo / pow2(e) == 0) by {
                        vstd::arithmetic::div_mod::lemma_basic_div(lo as int, pow2(e) as int);
                    }
                    assert((target / pow2(e)) % 256 == 0);
                }
            }
        }
        assert(bytes@ =~= dig);
        lemma_be_digits_value(target, 32);
        lemma_pow2_adds(8, 248);
        lemma_from_nat_as_nat(r);
    }
    r
}


/// Complementing twice gives the value back.
pub proof fn lemma_u64_not_involution(x: u64)
    by (bit_vector)
    ensures
        !(!x) == x,
{
}

/// A limb XORed with itself is zero.
pub proof fn lemma_u64_xor_self(x: u64)
    by (bit_vector)
    ensures
        (x ^ x) == 0,
{
}

/// A limb ANDed with its complement is zero.
pub proof fn lemma_u64_and_not(x: u64)
    by (bit_vector)
    ensures
        (x & !x) == 0,
{
}

/// A limb ORed with its complement is all ones.
pub proof fn lemma_u64_or_not(x: u64)
    by (bit_vector)
    ensures
        (x | !x) == 0xffffffffffffffffu64,
{
}

/// NOT is an involution: `not(not(a)) == a`.
pub proof fn lemma_not_involution(a: U256)
    ensures
        spec_not(spec_not(a)) == a,
{
    lemma_u64_not_involution(a.0[0]);
    lemma_u64_not_involution(a.0[1]);
    lemma_u64_not_involution(a.0[2]);
    lemma_u64_not_involution(a.0[3]);
    assert(spec_not(spec_not(a)).0 =~= a.0);
}

/// `xor(a, a) == 0`.
pub proof fn lemma_xor_self(a: U256)
    ensures
        u256_as_nat(spec_xor(a, a)) == 0,
{
    lemma_u64_xor_self(a.0[0]);
    lemma_u64_xor_self(a.0[1]);
    lemma_u64_xor_self(a.0[2]);
    lemma_u64_xor_self(a.0[3]);
    lemma_pow2_limb_values();
}

/// `and(a, not(a)) == 0`.
pub proof fn lemma_and_not_self(a: U256)
    ensures
        u256_as_nat(spec_and(a, spec_not(a))) == 0,
{
    lemma_u64_and_not(a.0[0]);
    lemma_u64_and_not(a.0[1]);
    lemma_u64_and_not(a.0[2]);
    lemma_u64_and_not(a.0[3]);
    lemma_pow2_limb_values();
}

/// `or(a, not(a)) == 2^256 - 1`.
pub proof fn lemma_or_not_self(a: U256)
    ensures
        u256_as_nat(spec_or(a, spec_not(a))) == pow2(256) - 1,
{
    lemma_u64_or_not(a.0[0]);
    lemma_u64_or_not(a.0[1]);
    lemma_u64_or_not(a.0[2]);
    lemma_u64_or_not(a.0[3]);
    lemma_pow2_limb_values();
}

/// `sub(a, a) == 0`.
pub proof fn lemma_sub_self(a: U256)
    ensures
        spec_sub(a, a) == u256_from_nat(0),
{
    lemma_pow2_limb_values();
    lemma_small_mod(0, pow2(256));
}

/// `add(a, 0) == a`.
pub proof fn lemma_add_zero(a: U256, z: U256)
    requires
        u256_as_nat(z) == 0,
    ensures
        spec_add(a, z) == a,
{
    lemma_as_nat_bound(a);
    lemma_small_mod(u256_as_nat(a), pow2(256));
    lemma_from_nat_as_nat(a);
}

/// `mul(a, 1) == a`.
pub proof fn lemma_mul_one(a: U256, one: U256)
    requires
        u256_as_nat(one) == 1,
    ensures
        spec_mul(a, one) == a,
{
    lemma_as_nat_bound(a);
    lemma_small_mod(u256_as_nat(a), pow2(256));
    lemma_from_nat_as_nat(a);
}

/// `mul(a, 0) == 0`.
pub proof fn lemma_mul_zero(a: U256, z: U256)
    requires
        u256_as_nat(z) == 0,
    ensures
        spec_mul(a, z) == u256_from_nat(0),
{
    lemma_pow2_limb_values();
    lemma_small_mod(0, pow2(256));
}

/// `shl(c, v) == v` when the count is zero.
pub proof fn lemma_shl_zero_count(c: U256, v: U256)
    requires
        u256_as_nat(c) == 0,
    ensures
        spec_shl(c, v) == v,
{
    lemma2_to64();
    lemma_as_nat_bound(v);
    lemma_small_mod(u256_as_nat(v), pow2(256));
    lemma_from_nat_as_nat(v);
}

/// `shl(c, v) == 0` for every count of 256 or more.
pub proof fn lemma_shl_overflow(c: U256, v: U256)
    requires
        u256_as_nat(c) >= 256,
    ensures
        u256_as_nat(spec_shl(c, v)) == 0,
{
    lemma_pow2_limb_values();
    lemma_as_nat_from_nat(0);
}

/// Every BYTE result is a byte: it lies below 256.
pub proof fn lemma_byte_range(i: U256, x: U256)
    ensures
        u256_as_nat(spec_byte(i, x)) < 256,
{
    lemma_pow2_limb_values();
    if u256_as_nat(i) >= 32 {
        lemma_as_nat_from_nat(0);
    } else {
        lemma_as_nat_from_nat(u256_be_byte(x, u256_as_nat(i) as int) as nat);
    }
}

/// SIGNEXTEND leaves the value unchanged for byte indices of 31 or more.
pub proof fn lemma_signextend_identity(b: nat, x: nat)
    requires
        b >= 31,
    ensures
        spec_signextend(b, x) == x,
{
}

} // verus!
