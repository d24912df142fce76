//! The linear byte memory.
//!
//! A zero-initialised buffer of fixed capacity, extended logically in
//! 32-byte words.  Words are read and written big-endian; the logical size
//! in words only ever grows, by ceiling-by-32 rounding of the highest byte
//! touched.

use crate::u256::{
    be_bytes_as_nat, lemma_from_nat_as_nat, lemma_u256_be_bytes_value, u256_as_nat, u256_be_byte,
    u256_be_bytes, u256_from_nat, U256,
};
use vstd::prelude::*;

verus! {

/// The pre-allocated capacity, in 32-byte words.
pub const MEMORY_WORDS: usize = 65536;

/// The pre-allocated capacity, in bytes.
pub const MEMORY_CAPACITY: usize = 65536 * 32;

/// The number of words needed once the span `[offset, offset + size)` has
/// been touched, starting from `words` words; a zero-sized span changes
/// nothing.
pub open spec fn spec_extended_words(words: nat, offset: nat, size: nat) -> nat {
    if size == 0 {
        words
    } else if (offset + size + 31) / 32 > words {
        ((offset + size + 31) / 32) as nat
    } else {
        words
    }
}

/// The contents after a 32-byte big-endian store of `value` at `offset`.
pub open spec fn spec_mem_write(m: Seq<u8>, offset: int, value: U256) -> Seq<u8> {
    Seq::new(
        m.len(),
        |i: int|
            if offset <= i < offset + 32 {
                u256_be_byte(value, i - offset)
            } else {
                m[i]
            },
    )
}

/// The value of the 32 bytes at `offset`, read big-endian.
pub open spec fn spec_mem_read(m: Seq<u8>, offset: int) -> U256 {
    u256_from_nat(be_bytes_as_nat(m.subrange(offset, offset + 32)))
}

/// The linear memory: a byte buffer and the logical length in words.
pub struct VmMemory {
    bytes: Vec<u8>,
    len_words: usize,
}

impl VmMemory {
    /// The raw contents of the buffer.
    pub closed spec fn contents(&self) -> Seq<u8> {
        self.bytes@
    }

    /// The logical size, in 32-byte words.
    pub closed spec fn words(&self) -> nat {
        self.len_words as nat
    }

    /// True once `init` has allocated the buffer.
    pub open spec fn wf(&self) -> bool {
        self.contents().len() == MEMORY_CAPACITY && self.words() * 32 <= MEMORY_CAPACITY
    }

    /// An unallocated memory; `init` gives it its buffer.
    pub fn new() -> (r: VmMemory)
        ensures
            r.contents().len() == 0,
            r.words() == 0,
    {
        VmMemory { bytes: Vec::new(), len_words: 0 }
    }

    /// Allocates the zero-filled buffer.  The capacity is a fixed bound;
    /// the gas limit argument is kept for the interface but does not yet
    /// size the buffer.
    pub fn init(&mut self, gas: u64)
        ensures
            final(self).wf(),
            final(self).words() == 0,
            final(self).contents().len() == MEMORY_CAPACITY,
            forall|i: int| 0 <= i < MEMORY_CAPACITY ==> final(self).contents()[i] == 0u8,
    {
        let _ = gas;
        let mut bytes: Vec<u8> = Vec::new();
        let mut i: usize = 0;
        while i < MEMORY_CAPACITY
            invariant
                i <= MEMORY_CAPACITY,
                bytes@.len() == i,
                forall|t: int| 0 <= t < i ==> bytes@[t] == 0u8,
            decreases MEMORY_CAPACITY - i,
        {
            bytes.push(0);
            i = i + 1;
        }
        self.bytes = bytes;
        self.len_words = 0;
    }

    /// The current logical size in bytes.
    pub fn size(&self) -> (r: usize)
        requires
            self.wf(),
        ensures
            r == self.words() * 32,
    {
        self.len_words * 32
    }

    /// Extends the logical size to cover `[offset, offset + size)`,
    /// rounding up to whole words; a zero-sized span never extends.
    pub fn extend(&mut self, offset: usize, size: usize)
        requires
            old(self).wf(),
            offset + size <= MEMORY_CAPACITY,
        ensures
            final(self).wf(),
            final(self).contents() == old(self).contents(),
            final(self).words() == spec_extended_words(old(self).words(), offset as nat, size as nat),
    {
        let len = self.len_words;
        let new_len = (offset + size + 31) / 32;
        self.len_words = if new_len > len {
            new_len
        } else {
            len
        };
        self.len_words = if size == 0 {
            len
        } else {
            self.len_words
        };
    }

    /// Reads the 32-byte big-endian word at `offset`, extending the
    /// logical size to cover it.
    pub fn read(&mut self, offset: usize) -> (r: U256)
        requires
            old(self).wf(),
            offset + 32 <= MEMORY_CAPACITY,
        ensures
            final(self).wf(),
            final(self).contents() == old(self).contents(),
            final(self).words() == spec_extended_words(old(self).words(), offset as nat, 32),
            r == spec_mem_read(old(self).contents(), offset as int),
            u256_as_nat(r) == be_bytes_as_nat(
                old(self).contents().subrange(offset as int, offset + 32),
            ),
    {
        self.extend(offset, 32);
        let mut window: Vec<u8> = Vec::new();
        let mut i: usize = 0;
        while i < 32
            invariant
                i <= 32,
                window@.len() == i,
                offset + 32 <= MEMORY_CAPACITY,
                offset + 32 <= self.bytes@.len(),
                forall|t: int| 0 <= t < i ==> window@[t] == self.bytes@[offset + t],
            decreases 32 - i,
        {
            window.push(self.bytes[offset + i]);
            i = i + 1;
        }
        proof {
            assert(window@ =~= self.bytes@.subrange(offset as int, offset + 32));
        }
        let r = crate::u256::u256_from_be_bytes(window.as_slice());
        proof {
            lemma_from_nat_as_nat(r);
        }
        r
    }

    /// Stores `value` as 32 big-endian bytes at `offset`, extending the
    /// logical size to cover the span.
    pub fn write(&mut self, offset: usize, value: U256)
        requires
            old(self).wf(),
            offset + 32 <= MEMORY_CAPACITY,
        ensures
            final(self).wf(),
            final(self).contents() == spec_mem_write(old(self).contents(), offset as int, value),
            final(self).words() == spec_extended_words(old(self).words(), offset as nat, 32),
    {
        self.extend(offset, 32);
        let bytes = value.to_be_bytes();
        let mut i: usize = 0;
        while i < 32
            invariant
                i <= 32,
                offset + 32 <= MEMORY_CAPACITY,
                offset + 32 <= self.bytes@.len(),
                self.bytes@.len() == old(self).contents().len(),
                self.words() == spec_extended_words(old(self).words(), offset as nat, 32),
                self.words() * 32 <= MEMORY_CAPACITY,
                bytes@ == u256_be_bytes(value),
                forall|t: int|
                    0 <= t < self.bytes@.len() && !(offset <= t < offset + i) ==> self.bytes@[t]
                        == old(self).contents()[t],
                forall|t: int|
                    offset <= t < offset + i ==> self.bytes@[t] == u256_be_byte(value, t - offset),
            decreases 32 - i,
        {
            self.bytes.set(offset + i, bytes[i]);
            i = i + 1;
        }
        proof {
            assert(self.bytes@ =~= spec_mem_write(old(self).contents(), offset as int, value));
        }
    }

    /// Stores one byte at `offset`, extending the logical size to cover it.
    pub fn write_byte(&mut self, offset: usize, value: u8)
        requires
            old(self).wf(),
            offset + 1 <= MEMORY_CAPACITY,
        ensures
            final(self).wf(),
            final(self).contents() == old(self).contents().update(offset as int, value),
            final(self).words() == spec_extended_words(old(self).words(), offset as nat, 1),
    {
        self.extend(offset, 1);
        self.bytes.set(offset, value);
    }
}

/// Writing a word and reading it back at the same offset yields the word:
/// the memory round-trip law.
pub proof fn lemma_mem_round_trip(m: Seq<u8>, offset: int, value: U256)
    requires
        0 <= offset,
        offset + 32 <= m.len(),
    ensures
        spec_mem_read(spec_mem_write(m, offset, value), offset) == value,
{
    let written = spec_mem_write(m, offset, value);
    assert(written.subrange(offset, offset + 32) =~= u256_be_bytes(value));
    lemma_u256_be_bytes_value(value);
    lemma_from_nat_as_nat(value);
}

/// The size after a word store at `offset`, starting from a memory whose
/// logical size did not already cover the span, is `32 * ceil((offset + 32)
/// / 32)`: the MSIZE law.
pub proof fn lemma_msize_after_write(words: nat, offset: nat)
    requires
        words <= (offset + 32) / 32,
    ensures
        spec_extended_words(words, offset, 32) * 32 == 32 * ((offset + 32 + 31) / 32),
        spec_extended_words(words, offset, 32) * 32 == 32 * ((offset + 63) / 32),
{
    assert((offset + 32) / 32 <= (offset + 63) / 32) by {
        vstd::arithmetic::div_mod::lemma_div_is_ordered(
            offset as int + 32,
            offset as int + 63,
            32,
        );
    }
}

} // verus!
