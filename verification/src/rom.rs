//! The preprocessed read-only program image (ROM).
//!
//! The slab holds the program image in its first `MAX_CODESIZE` bytes and a
//! packed JUMPDEST validity bitmap after it, one bit per code byte.  Bit `i`
//! is set exactly when byte `i` of the bytecode is a `JUMPDEST` opcode that
//! is not inside a `PUSH` immediate: the scan that decides this,
//! [`scan_reaches`], walks the bytecode from the start, skipping over each
//! `PUSH` immediate.
//!
//! The image stores `PUSH` immediates verbatim and the dispatch loop reads
//! them big-endian at load time.  An image that byte-reverses immediates
//! for native little-endian loads would be observationally equivalent;
//! storing them verbatim keeps the image portable and lets the zero
//! padding after the code stand in for immediate bytes that a truncated
//! `PUSH` at the end of the code is missing.

use crate::instructions::{decode_opcode, opcode_ordinal, spec_decode, spec_is_push, Opcode};
use vstd::arithmetic::div_mod::{lemma_fundamental_div_mod, lemma_fundamental_div_mod_converse};
use vstd::prelude::*;

verus! {

/// The code size limit, rounded to a power of two.  Addresses at or above
/// it are never valid jump targets.
pub const MAX_CODESIZE: usize = 32768;

/// The size of the JUMPDEST bitmap: one bit per code byte.
pub const JUMPDESTS_SIZE: usize = 32768 / 8;

/// The size of the whole slab.
pub const ROM_SIZE: usize = 32768 + 32768 / 8;

/// The number of immediate bytes that follow the opcode byte `b`: between
/// 1 and 32 for the `PUSH` family, 0 for everything else.
pub open spec fn spec_imm_len(b: u8) -> nat {
    if spec_is_push(spec_decode(b)) {
        (opcode_ordinal(spec_decode(b)) - 24) as nat
    } else {
        0
    }
}

/// The position of the opcode that follows the opcode at `i`: one past the
/// opcode byte and its immediates.
pub open spec fn scan_next(bc: Seq<u8>, i: nat) -> nat {
    i + 1 + spec_imm_len(bc[i as int])
}

/// True when the linear scan of the bytecode, started at opcode position
/// `i`, lands exactly on `pos`.  The scan steps over PUSH immediates, so a
/// position inside an immediate is reached by no scan.
pub open spec fn scan_reaches(bc: Seq<u8>, i: nat, pos: nat) -> bool
    decreases pos - i,
{
    if i == pos {
        true
    } else if i > pos {
        false
    } else if i >= bc.len() {
        false
    } else if scan_next(bc, i) > pos {
        false
    } else {
        scan_reaches(bc, scan_next(bc, i), pos)
    }
}

/// A valid jump destination: a `JUMPDEST` opcode byte that the scan from
/// the start of the bytecode lands on (so it is not immediate data).
pub open spec fn spec_is_jumpdest(bc: Seq<u8>, pos: int) -> bool {
    &&& 0 <= pos < bc.len()
    &&& spec_decode(bc[pos]) == Opcode::JUMPDEST
    &&& scan_reaches(bc, 0, pos as nat)
}

/// Bit `p` of the bitmap under construction, when every position below
/// `bound` has been scanned: 1 exactly when `p` is an already-discovered
/// jump destination.
pub open spec fn jd_bit(bc: Seq<u8>, p: int, bound: int) -> nat {
    if p < bound && spec_is_jumpdest(bc, p) {
        1
    } else {
        0
    }
}

/// Bit `p` of the finished bitmap.
pub open spec fn jd_flag(bc: Seq<u8>, p: int) -> nat {
    if spec_is_jumpdest(bc, p) {
        1
    } else {
        0
    }
}

/// Byte `t` of the bitmap under construction with scan bound `bound`:
/// the eight bits for positions `8 t` to `8 t + 7`, least bit first.
pub open spec fn partial_bitmap_byte(bc: Seq<u8>, t: int, bound: int) -> nat {
    jd_bit(bc, 8 * t, bound) + 2 * jd_bit(bc, 8 * t + 1, bound) + 4 * jd_bit(bc, 8 * t + 2, bound)
        + 8 * jd_bit(bc, 8 * t + 3, bound) + 16 * jd_bit(bc, 8 * t + 4, bound) + 32 * jd_bit(
        bc,
        8 * t + 5,
        bound,
    ) + 64 * jd_bit(bc, 8 * t + 6, bound) + 128 * jd_bit(bc, 8 * t + 7, bound)
}

/// Byte `t` of the finished bitmap.
pub open spec fn bitmap_byte(bc: Seq<u8>, t: int) -> nat {
    jd_flag(bc, 8 * t) + 2 * jd_flag(bc, 8 * t + 1) + 4 * jd_flag(bc, 8 * t + 2) + 8 * jd_flag(
        bc,
        8 * t + 3,
    ) + 16 * jd_flag(bc, 8 * t + 4) + 32 * jd_flag(bc, 8 * t + 5) + 64 * jd_flag(bc, 8 * t + 6)
        + 128 * jd_flag(bc, 8 * t + 7)
}

/// Byte `i` of the program image: the bytecode, zero-padded to
/// `MAX_CODESIZE`.
pub open spec fn spec_code_byte(bc: Seq<u8>, i: int) -> u8 {
    if 0 <= i < bc.len() {
        bc[i]
    } else {
        0
    }
}

/// The whole slab that preprocessing builds from a bytecode: the image,
/// then the bitmap.  Preprocessing is a function of the bytecode alone.
pub open spec fn spec_rom_image(bc: Seq<u8>) -> Seq<u8> {
    Seq::new(
        (MAX_CODESIZE + JUMPDESTS_SIZE) as nat,
        |i: int|
            if i < MAX_CODESIZE {
                spec_code_byte(bc, i)
            } else {
                bitmap_byte(bc, i - MAX_CODESIZE) as u8
            },
    )
}

/// A scan that lands on `i` also lands on the opcode position after `i`.
pub proof fn lemma_scan_append(bc: Seq<u8>, s: nat, i: nat)
    requires
        scan_reaches(bc, s, i),
        i < bc.len(),
    ensures
        scan_reaches(bc, s, scan_next(bc, i)),
    decreases i - s,
{
    if s == i {
        assert(scan_reaches(bc, scan_next(bc, i), scan_next(bc, i)));
    } else {
        assert(scan_next(bc, s) <= i);
        lemma_scan_append(bc, scan_next(bc, s), i);
    }
}

/// No scan that lands on `i` lands inside the immediate that follows `i`.
pub proof fn lemma_scan_skips_immediates(bc: Seq<u8>, s: nat, i: nat, p: nat)
    requires
        scan_reaches(bc, s, i),
        i < bc.len(),
        i < p < scan_next(bc, i),
    ensures
        !scan_reaches(bc, s, p),
    decreases i - s,
{
    if s == i {
        assert(!scan_reaches(bc, i, p));
    } else {
        assert(scan_next(bc, s) <= i);
        lemma_scan_skips_immediates(bc, scan_next(bc, s), i, p);
    }
}

/// Scanning past positions that hold no jump destination leaves every
/// bitmap byte unchanged.
pub proof fn lemma_partial_bitmap_skip(bc: Seq<u8>, t: int, b1: int, b2: int)
    requires
        b1 <= b2,
        forall|p: int| b1 <= p < b2 ==> !spec_is_jumpdest(bc, p),
    ensures
        partial_bitmap_byte(bc, t, b1) == partial_bitmap_byte(bc, t, b2),
{
    assert(jd_bit(bc, 8 * t, b1) == jd_bit(bc, 8 * t, b2)) by {
        if b1 <= 8 * t < b2 {
            assert(!spec_is_jumpdest(bc, 8 * t));
        }
    }
    assert(jd_bit(bc, 8 * t + 1, b1) == jd_bit(bc, 8 * t + 1, b2)) by {
        if b1 <= 8 * t + 1 < b2 {
            assert(!spec_is_jumpdest(bc, 8 * t + 1));
        }
    }
    assert(jd_bit(bc, 8 * t + 2, b1) == jd_bit(bc, 8 * t + 2, b2)) by {
        if b1 <= 8 * t + 2 < b2 {
            assert(!spec_is_jumpdest(bc, 8 * t + 2));
        }
    }
    assert(jd_bit(bc, 8 * t + 3, b1) == jd_bit(bc, 8 * t + 3, b2)) by {
        if b1 <= 8 * t + 3 < b2 {
            assert(!spec_is_jumpdest(bc, 8 * t + 3));
        }
    }
    assert(jd_bit(bc, 8 * t + 4, b1) == jd_bit(bc, 8 * t + 4, b2)) by {
        if b1 <= 8 * t + 4 < b2 {
            assert(!spec_is_jumpdest(bc, 8 * t + 4));
        }
    }
    assert(jd_bit(bc, 8 * t + 5, b1) == jd_bit(bc, 8 * t + 5, b2)) by {
        if b1 <= 8 * t + 5 < b2 {
            assert(!spec_is_jumpdest(bc, 8 * t + 5));
        }
    }
    assert(jd_bit(bc, 8 * t + 6, b1) == jd_bit(bc, 8 * t + 6, b2)) by {
        if b1 <= 8 * t + 6 < b2 {
            assert(!spec_is_jumpdest(bc, 8 * t + 6));
        }
    }
    assert(jd_bit(bc, 8 * t + 7, b1) == jd_bit(bc, 8 * t + 7, b2)) by {
        if b1 <= 8 * t + 7 < b2 {
            assert(!spec_is_jumpdest(bc, 8 * t + 7));
        }
    }
}

/// Once the scan bound has passed the end of the bytecode, the bytes under
/// construction are the finished bitmap bytes.
pub proof fn lemma_partial_bitmap_done(bc: Seq<u8>, t: int, bound: int)
    requires
        bound >= bc.len(),
    ensures
        partial_bitmap_byte(bc, t, bound) == bitmap_byte(bc, t),
{
}

/// Extracting bit `j` of a bitmap byte by division and remainder.
pub proof fn lemma_bitmap_bit(b0: nat, b1: nat, b2: nat, b3: nat, b4: nat, b5: nat, b6: nat, b7: nat, j: int)
    requires
        b0 <= 1 && b1 <= 1 && b2 <= 1 && b3 <= 1 && b4 <= 1 && b5 <= 1 && b6 <= 1 && b7 <= 1,
        0 <= j < 8,
    ensures
        ({
            let byte = (b0 + 2 * b1 + 4 * b2 + 8 * b3 + 16 * b4 + 32 * b5 + 64 * b6 + 128
                * b7) as int;
            let d = if j == 0 {
                1int
            } else if j == 1 {
                2int
            } else if j == 2 {
                4int
            } else if j == 3 {
                8int
            } else if j == 4 {
                16int
            } else if j == 5 {
                32int
            } else if j == 6 {
                64int
            } else {
                128int
            };
            let b = if j == 0 {
                b0
            } else if j == 1 {
                b1
            } else if j == 2 {
                b2
            } else if j == 3 {
                b3
            } else if j == 4 {
                b4
            } else if j == 5 {
                b5
            } else if j == 6 {
                b6
            } else {
                b7
            };
            (byte / d) % 2 == b
        }),
{
    let byte = (b0 + 2 * b1 + 4 * b2 + 8 * b3 + 16 * b4 + 32 * b5 + 64 * b6 + 128 * b7) as int;
    if j == 0 {
        lemma_fundamental_div_mod_converse(byte, 1, byte, 0);
        lemma_fundamental_div_mod_converse(
            byte,
            2,
            (b1 + 2 * b2 + 4 * b3 + 8 * b4 + 16 * b5 + 32 * b6 + 64 * b7) as int,
            b0 as int,
        );
    } else if j == 1 {
        let q = (b1 + 2 * b2 + 4 * b3 + 8 * b4 + 16 * b5 + 32 * b6 + 64 * b7) as int;
        lemma_fundamental_div_mod_converse(byte, 2, q, b0 as int);
        lemma_fundamental_div_mod_converse(
            q,
            2,
            (b2 + 2 * b3 + 4 * b4 + 8 * b5 + 16 * b6 + 32 * b7) as int,
            b1 as int,
        );
    } else if j == 2 {
        let q = (b2 + 2 * b3 + 4 * b4 + 8 * b5 + 16 * b6 + 32 * b7) as int;
        lemma_fundamental_div_mod_converse(byte, 4, q, (b0 + 2 * b1) as int);
        lemma_fundamental_div_mod_converse(
            q,
            2,
            (b3 + 2 * b4 + 4 * b5 + 8 * b6 + 16 * b7) as int,
            b2 as int,
        );
    } else if j == 3 {
        let q = (b3 + 2 * b4 + 4 * b5 + 8 * b6 + 16 * b7) as int;
        lemma_fundamental_div_mod_converse(byte, 8, q, (b0 + 2 * b1 + 4 * b2) as int);
        lemma_fundamental_div_mod_converse(
            q,
            2,
            (b4 + 2 * b5 + 4 * b6 + 8 * b7) as int,
            b3 as int,
        );
    } else if j == 4 {
        let q = (b4 + 2 * b5 + 4 * b6 + 8 * b7) as int;
        lemma_fundamental_div_mod_converse(byte, 16, q, (b0 + 2 * b1 + 4 * b2 + 8 * b3) as int);
        lemma_fundamental_div_mod_converse(q, 2, (b5 + 2 * b6 + 4 * b7) as int, b4 as int);
    } else if j == 5 {
        let q = (b5 + 2 * b6 + 4 * b7) as int;
        lemma_fundamental_div_mod_converse(
            byte,
            32,
            q,
            (b0 + 2 * b1 + 4 * b2 + 8 * b3 + 16 * b4) as int,
        );
        lemma_fundamental_div_mod_converse(q, 2, (b6 + 2 * b7) as int, b5 as int);
    } else if j == 6 {
        let q = (b6 + 2 * b7) as int;
        lemma_fundamental_div_mod_converse(
            byte,
            64,
            q,
            (b0 + 2 * b1 + 4 * b2 + 8 * b3 + 16 * b4 + 32 * b5) as int,
        );
        lemma_fundamental_div_mod_converse(q, 2, b7 as int, b6 as int);
    } else {
        lemma_fundamental_div_mod_converse(
            byte,
            128,
            b7 as int,
            (b0 + 2 * b1 + 4 * b2 + 8 * b3 + 16 * b4 + 32 * b5 + 64 * b6) as int,
        );
        lemma_fundamental_div_mod_converse(b7 as int, 2, 0, b7 as int);
    }
}

/// The ROM: the preprocessed slab, and the bytecode it was built from.
pub struct VmRom {
    data: Vec<u8>,
    code_len: usize,
    bytecode: Ghost<Seq<u8>>,
}

impl VmRom {
    /// The slab contents.
    pub closed spec fn rom_data(&self) -> Seq<u8> {
        self.data@
    }

    /// The bytecode this ROM was preprocessed from.
    pub closed spec fn bytecode_view(&self) -> Seq<u8> {
        self.bytecode@
    }

    /// True when the slab is exactly the preprocessed image of the
    /// bytecode.
    pub open spec fn initialized(&self) -> bool {
        &&& self.bytecode_view().len() <= MAX_CODESIZE
        &&& self.code_len() == self.bytecode_view().len()
        &&& self.rom_data() == spec_rom_image(self.bytecode_view())
    }

    /// The bytecode length.
    pub closed spec fn code_len(&self) -> nat {
        self.code_len as nat
    }

    /// A ROM holding the empty program: an all-zero slab.
    pub fn new() -> (r: VmRom)
        ensures
            r.initialized(),
            r.bytecode_view() == Seq::<u8>::empty(),
    {
        let mut data: Vec<u8> = Vec::new();
        let mut i: usize = 0;
        while i < ROM_SIZE
            invariant
                i <= ROM_SIZE,
                data@.len() == i,
                forall|t: int| 0 <= t < i ==> data@[t] == 0u8,
            decreases ROM_SIZE - i,
        {
            data.push(0);
            i = i + 1;
        }
        let r = VmRom { data, code_len: 0, bytecode: Ghost(Seq::empty()) };
        proof {
            assert(r.rom_data() =~= spec_rom_image(Seq::<u8>::empty()));
        }
        r
    }

    /// The number of bytecode bytes the ROM was built from.
    pub fn code_size(&self) -> (r: usize)
        requires
            self.initialized(),
        ensures
            r == self.bytecode_view().len(),
    {
        self.code_len
    }

    /// A borrow of the whole slab.
    pub fn code(&self) -> (r: &Vec<u8>)
        ensures
            r@ == self.rom_data(),
    {
        &self.data
    }

    /// Byte `pc` of the program image: the bytecode byte there, or 0 in
    /// the zero padding after the code.
    pub fn code_byte(&self, pc: usize) -> (r: u8)
        requires
            self.initialized(),
            pc < MAX_CODESIZE,
        ensures
            r == spec_code_byte(self.bytecode_view(), pc as int),
    {
        self.data[pc]
    }

    /// Reverses a byte slice.
    pub fn swap_bytes(input: &[u8]) -> (r: Vec<u8>)
        ensures
            r@ == input@.reverse(),
    {
        let n = input.len();
        let mut r: Vec<u8> = Vec::new();
        let mut i: usize = 0;
        while i < n
            invariant
                i <= n,
                n == input@.len(),
                r@.len() == i,
                forall|t: int| 0 <= t < i ==> r@[t] == input@[n - 1 - t],
            decreases n - i,
        {
            r.push(input[n - 1 - i]);
            i = i + 1;
        }
        proof {
            assert(r@ =~= input@.reverse());
        }
        r
    }

    /// True when `addr` is a valid jump target: in bounds and marked in
    /// the JUMPDEST bitmap.
    pub fn is_jumpdest(&self, addr: u64) -> (r: bool)
        requires
            self.initialized(),
        ensures
            r == (addr < MAX_CODESIZE && spec_is_jumpdest(self.bytecode_view(), addr as int)),
    {
        if addr >= MAX_CODESIZE as u64 {
            return false;
        }
        let t = (addr / 8) as usize;
        let j = (addr % 8) as usize;
        let byte = self.data[MAX_CODESIZE + t];
        let d: u8 = match j {
            0 => 1,
            1 => 2,
            2 => 4,
            3 => 8,
            4 => 16,
            5 => 32,
            6 => 64,
            _ => 128,
        };
        let r = (byte / d) % 2 == 1;
        proof {
            let bc = self.bytecode_view();
            lemma_fundamental_div_mod(addr as int, 8);
            assert(byte == bitmap_byte(bc, t as int) as u8);
            lemma_bitmap_bit(
                jd_flag(bc, 8 * (t as int)),
                jd_flag(bc, 8 * (t as int) + 1),
                jd_flag(bc, 8 * (t as int) + 2),
                jd_flag(bc, 8 * (t as int) + 3),
                jd_flag(bc, 8 * (t as int) + 4),
                jd_flag(bc, 8 * (t as int) + 5),
                jd_flag(bc, 8 * (t as int) + 6),
                jd_flag(bc, 8 * (t as int) + 7),
                j as int,
            );
            assert(8 * (t as int) + (j as int) == addr as int);
        }
        r
    }

    /// Preprocesses a bytecode: zeroes the slab, copies the program image,
    /// and builds the JUMPDEST bitmap by scanning the bytecode, stepping
    /// over each PUSH immediate.
    pub fn init(&mut self, bytecode: &[u8])
        requires
            bytecode@.len() <= MAX_CODESIZE,
        ensures
            final(self).initialized(),
            final(self).bytecode_view() == bytecode@,
    {
        let ghost bc = bytecode@;
        let n = bytecode.len();
        // a fresh zeroed slab
        let mut data: Vec<u8> = Vec::new();
        let mut i: usize = 0;
        while i < ROM_SIZE
            invariant
                i <= ROM_SIZE,
                data@.len() == i,
                forall|t: int| 0 <= t < i ==> data@[t] == 0u8,
            decreases ROM_SIZE - i,
        {
            data.push(0);
            i = i + 1;
        }
        // the program image, copied verbatim
        let mut i: usize = 0;
        while i < n
            invariant
                i <= n,
                n == bc.len() <= MAX_CODESIZE,
                bc == bytecode@,
                data@.len() == ROM_SIZE,
                forall|t: int| 0 <= t < i ==> data@[t] == bc[t],
                forall|t: int| i <= t < ROM_SIZE ==> data@[t] == 0u8,
            decreases n - i,
        {
            data.set(i, bytecode[i]);
            i = i + 1;
        }
        // the JUMPDEST bitmap: walk the opcode positions
        let mut i: usize = 0;
        while i < n
            invariant
                n == bc.len() <= MAX_CODESIZE,
                bc == bytecode@,
                i <= n + 33,
                data@.len() == ROM_SIZE,
                forall|t: int| 0 <= t < MAX_CODESIZE ==> data@[t] == spec_code_byte(bc, t),
                scan_reaches(bc, 0, i as nat),
                forall|t: int|
                    0 <= t < JUMPDESTS_SIZE ==> data@[MAX_CODESIZE + t] == partial_bitmap_byte(
                        bc,
                        t,
                        i as int,
                    ),
            decreases n + 33 - i,
        {
            let b = bytecode[i];
            let op = decode_opcode(b);
            if op.is_push() {
                let imm = op.push_index() + 1;
                proof {
                    assert(scan_next(bc, i as nat) == i + 1 + imm);
                    lemma_scan_append(bc, 0, i as nat);
                    assert forall|p: int| i <= p < i + 1 + imm implies !spec_is_jumpdest(
                        bc,
                        p,
                    ) by {
                        if p == i {
                            assert(spec_decode(bc[p]) != Opcode::JUMPDEST);
                        } else {
                            lemma_scan_skips_immediates(bc, 0, i as nat, p as nat);
                        }
                    }
                    assert forall|t: int| 0 <= t < JUMPDESTS_SIZE implies partial_bitmap_byte(
                        bc,
                        t,
                        i as int,
                    ) == #[trigger] partial_bitmap_byte(bc, t, i + 1 + imm) by {
                        lemma_partial_bitmap_skip(bc, t, i as int, i + 1 + imm);
                    }
                }
                i = i + 1 + imm;
            } else {
                let is_jd = matches!(op, Opcode::JUMPDEST);
                proof {
                    assert(spec_imm_len(bc[i as int]) == 0);
                    assert(scan_next(bc, i as nat) == i + 1);
                    lemma_scan_append(bc, 0, i as nat);
                }
                if is_jd {
                    let t = i / 8;
                    let j = i % 8;
                    let idx = MAX_CODESIZE + t;
                    let cur = data[idx];
                    let add: u8 = match j {
                        0 => 1,
                        1 => 2,
                        2 => 4,
                        3 => 8,
                        4 => 16,
                        5 => 32,
                        6 => 64,
                        _ => 128,
                    };
                    proof {
                        lemma_fundamental_div_mod(i as int, 8);
                        assert(spec_is_jumpdest(bc, i as int));
                        assert(jd_bit(bc, i as int, i as int) == 0);
                        assert(cur == partial_bitmap_byte(bc, t as int, i as int));
                        assert(cur + add == partial_bitmap_byte(bc, t as int, i as int + 1));
                        assert forall|t2: int|
                            0 <= t2 < JUMPDESTS_SIZE && t2 != t implies partial_bitmap_byte(
                            bc,
                            t2,
                            i as int,
                        ) == #[trigger] partial_bitmap_byte(bc, t2, i as int + 1) by {
                            lemma_partial_bitmap_skip_one(bc, t2, i as int);
                        }
                    }
                    data.set(idx, cur + add);
                } else {
                    proof {
                        assert(!spec_is_jumpdest(bc, i as int));
                        assert forall|t2: int| 0 <= t2 < JUMPDESTS_SIZE implies partial_bitmap_byte(
                            bc,
                            t2,
                            i as int,
                        ) == #[trigger] partial_bitmap_byte(bc, t2, i as int + 1) by {
                            lemma_partial_bitmap_skip(bc, t2, i as int, i as int + 1);
                        }
                    }
                }
                i = i + 1;
            }
        }
        proof {
            assert forall|t: int| 0 <= t < JUMPDESTS_SIZE implies partial_bitmap_byte(
                bc,
                t,
                i as int,
            ) == #[trigger] bitmap_byte(bc, t) by {
                lemma_partial_bitmap_done(bc, t, i as int);
            }
        }
        self.data = data;
        self.code_len = n;
        self.bytecode = Ghost(bc);
        proof {
            assert(self.rom_data() =~= spec_rom_image(bc));
        }
    }
}

/// Changing nothing below the bound outside byte `t2` leaves byte `t2`
/// unchanged when the position crossed is not one of its bits.
pub proof fn lemma_partial_bitmap_skip_one(bc: Seq<u8>, t2: int, p: int)
    requires
        !(8 * t2 <= p < 8 * t2 + 8),
    ensures
        partial_bitmap_byte(bc, t2, p) == partial_bitmap_byte(bc, t2, p + 1),
{
}

/// Preprocessing is deterministic: two ROMs built from the same bytecode
/// hold identical slabs.
pub proof fn lemma_preprocess_idempotent(r1: VmRom, r2: VmRom)
    requires
        r1.initialized(),
        r2.initialized(),
        r1.bytecode_view() == r2.bytecode_view(),
    ensures
        r1.rom_data() == r2.rom_data(),
{
}

} // verus!
