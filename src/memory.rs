//! Backing store and the bus through which the CPU reaches it.
use vstd::prelude::*;
use vstd::arithmetic::div_mod::{lemma_div_denominator, lemma_fundamental_div_mod};

pub mod constants;

use constants::{MEMORY_SIZE, RAM_BASE};

verus! {

/// A raw memory image, as handed over by a loader.
pub type MemoryDump = Vec<u8>;

/// `256` raised to the power `n`.
pub open spec fn pow256(n: nat) -> nat
    decreases n,
{
    if n == 0 {
        1
    } else {
        256 * pow256((n - 1) as nat)
    }
}

/// The number that a sequence of bytes spells in little-endian order
/// (the first byte is the least significant one).
pub open spec fn le_value(s: Seq<u8>) -> nat
    decreases s.len(),
{
    if s.len() == 0 {
        0
    } else {
        s[0] as nat + 256 * le_value(s.subrange(1, s.len() as int))
    }
}

/// Byte `k` (counted from the least significant one) of `v`.
pub open spec fn byte_at(v: nat, k: nat) -> u8 {
    ((v / pow256(k)) % 256) as u8
}

/// The `n` low bytes of `v`, least significant first.
pub open spec fn le_bytes(v: nat, n: nat) -> Seq<u8> {
    Seq::new(n, |k: int| byte_at(v, k as nat))
}

/// `mem` with the bytes from index `i` on replaced by `bytes`.
pub open spec fn splice(mem: Seq<u8>, i: int, bytes: Seq<u8>) -> Seq<u8> {
    Seq::new(mem.len(), |j: int| if i <= j < i + bytes.len() { bytes[j - i] } else { mem[j] })
}

/// RAM as loaded from `image`: zero-padded or truncated to the capacity.
pub open spec fn image_contents(image: Seq<u8>) -> Seq<u8> {
    Seq::new(MEMORY_SIZE as nat, |i: int| if i < image.len() { image[i] } else { 0u8 })
}

/// The access widths, in bits, that the bus serves.
pub open spec fn is_access_size(size: usize) -> bool {
    size == 8 || size == 16 || size == 32 || size == 64
}

/// Why an access to an address and a width fails on memory `mem`, if it does.
pub open spec fn access_error(mem: Seq<u8>, address: usize, size: usize) -> Option<MemoryError> {
    if address < RAM_BASE {
        Some(MemoryError::UnmappedAddress)
    } else if !is_access_size(size) {
        Some(MemoryError::UnsupportedAddressingSize)
    } else if (address - RAM_BASE) + size / 8 > mem.len() {
        Some(MemoryError::OutOfBounds)
    } else {
        None
    }
}

/// What a load of `size` bits at `address` gives on memory `mem`.
pub open spec fn spec_load(mem: Seq<u8>, address: usize, size: usize) -> Result<u64, MemoryError> {
    match access_error(mem, address, size) {
        Some(e) => Err(e),
        None => {
            let i = address - RAM_BASE;
            Ok(le_value(mem.subrange(i, i + size / 8)) as u64)
        },
    }
}

/// What memory `mem` becomes when the low `size` bits of `value` are stored
/// at `address`.
pub open spec fn spec_store(mem: Seq<u8>, address: usize, size: usize, value: u64) -> Result<
    Seq<u8>,
    MemoryError,
> {
    match access_error(mem, address, size) {
        Some(e) => Err(e),
        None => Ok(splice(mem, address - RAM_BASE, le_bytes(value as nat, (size / 8) as nat))),
    }
}

/// Powers of 256 are positive.
pub proof fn lemma_pow256_positive(n: nat)
    ensures
        pow256(n) > 0,
    decreases n,
{
    if n > 0 {
        lemma_pow256_positive((n - 1) as nat);
    }
}

/// Powers of 256 grow with the exponent.
pub proof fn lemma_pow256_monotonic(m: nat, n: nat)
    requires
        m <= n,
    ensures
        pow256(m) <= pow256(n),
    decreases n,
{
    if m < n {
        lemma_pow256_monotonic(m, (n - 1) as nat);
    }
}

/// The powers of 256 that the access widths use.
pub proof fn lemma_pow256_small()
    ensures
        pow256(1) == 0x100,
        pow256(2) == 0x10000,
        pow256(4) == 0x100000000,
        pow256(7) == 0x100000000000000,
        pow256(8) == 0x10000000000000000,
{
    reveal_with_fuel(pow256, 9);
}

/// A sequence of `n` bytes spells a number below `256^n`.
pub proof fn lemma_le_value_bound(s: Seq<u8>)
    ensures
        le_value(s) < pow256(s.len()),
    decreases s.len(),
{
    if s.len() > 0 {
        let rest = s.subrange(1, s.len() as int);
        lemma_le_value_bound(rest);
        let a = s[0] as int;
        let b = le_value(rest) as int;
        let p = pow256(rest.len()) as int;
        assert(a + 256 * b < 256 * p) by (nonlinear_arith)
            requires
                0 <= a < 256,
                0 <= b < p,
        ;
    }
}

/// Dropping the lowest byte of a number divides it by 256.
proof fn lemma_byte_at_shift(v: nat, k: nat)
    ensures
        byte_at(v, k + 1) == byte_at(v / 256, k),
{
    lemma_pow256_positive(k);
    lemma_div_denominator(v as int, 256, pow256(k) as int);
}

/// Spelling the `n` low bytes of a number below `256^n` gives the number back.
pub proof fn lemma_le_value_of_bytes(v: nat, n: nat)
    requires
        v < pow256(n),
    ensures
        le_value(le_bytes(v, n)) == v,
    decreases n,
{
    if n > 0 {
        let s = le_bytes(v, n);
        let q = v / 256;
        lemma_pow256_positive((n - 1) as nat);
        assert(q < pow256((n - 1) as nat)) by (nonlinear_arith)
            requires
                q == v / 256,
                v < 256 * pow256((n - 1) as nat),
        ;
        assert forall|k: int| 0 <= k < n - 1 implies #[trigger] s.subrange(1, n as int)[k] == le_bytes(
            q,
            (n - 1) as nat,
        )[k] by {
            lemma_byte_at_shift(v, k as nat);
        }
        assert(s.subrange(1, n as int) =~= le_bytes(q, (n - 1) as nat));
        lemma_le_value_of_bytes(q, (n - 1) as nat);
        assert(s[0] == v % 256) by {
            assert(pow256(0) == 1);
            assert(v / 1 == v) by (nonlinear_arith);
        }
        lemma_fundamental_div_mod(v as int, 256);
    }
}

/// A word stored at a mapped address within capacity is loaded back unchanged.
pub proof fn lemma_store_load_round_trip(mem: Seq<u8>, address: usize, value: u32)
    requires
        address >= RAM_BASE,
        address - RAM_BASE + 4 <= mem.len(),
    ensures
        spec_store(mem, address, 32, value as u64) is Ok,
        spec_load(spec_store(mem, address, 32, value as u64)->Ok_0, address, 32) == Ok::<
            u64,
            MemoryError,
        >(value as u64),
{
    let i = address - RAM_BASE;
    let bytes = le_bytes(value as nat, 4);
    let after = splice(mem, i, bytes);
    assert(after.subrange(i, i + 4) =~= bytes);
    lemma_pow256_small();
    lemma_le_value_of_bytes(value as nat, 4);
}

/// Errors of a memory access.
#[derive(Debug, Clone, Copy, PartialEq, Eq, Structural)]
pub enum MemoryError {
    /// The width is not one of 8, 16, 32 or 64 bits.
    UnsupportedAddressingSize,
    /// The address lies below the start of RAM.
    UnmappedAddress,
    /// The accessed bytes reach past the end of RAM.
    OutOfBounds,
}

/// The RAM of a machine.
pub struct Memory {
    /// The bytes of RAM; index 0 holds address `RAM_BASE`.
    pub contents: MemoryDump,
}

impl Memory {
    /// The memory has its configured capacity.
    pub open spec fn wf(&self) -> bool {
        self.contents@.len() == MEMORY_SIZE
    }

    /// Number of bytes of RAM.
    pub fn size(&self) -> (r: usize)
        ensures
            r == self.contents@.len(),
    {
        self.contents.len()
    }

    /// Memory holding `memory_dump`, zero-padded or truncated to the capacity.
    pub fn new(memory_dump: MemoryDump) -> (r: Self)
        ensures
            r.contents@ == image_contents(memory_dump@),
    {
        let mut contents = memory_dump;
        contents.resize(MEMORY_SIZE, 0);
        assert(contents@ =~= image_contents(memory_dump@));
        Memory { contents }
    }
}

/// Access to the memory for the duration of one cycle.
///
/// The CPU reaches RAM only through this type, so that devices can later be
/// mapped beneath the same address space.
pub struct MemoryBus<'a> {
    pub memory: &'a mut Memory,
}

impl<'a> MemoryBus<'a> {
    /// The bytes that the bus reaches.
    pub open spec fn bytes(&self) -> Seq<u8> {
        self.memory.contents@
    }

    pub fn new(memory: &'a mut Memory) -> (r: Self)
        ensures
            *r.memory == *old(memory),
            *final(r.memory) == *final(memory),
    {
        MemoryBus { memory }
    }

    /// Validates an access of `size` bits at `address` and gives its RAM index.
    fn check_access(&self, address: usize, size: usize) -> (r: Result<usize, MemoryError>)
        ensures
            match r {
                Ok(i) => access_error(self.bytes(), address, size).is_none() && i == address
                    - RAM_BASE,
                Err(e) => access_error(self.bytes(), address, size) == Some(e),
            },
    {
        if address < RAM_BASE {
            return Err(MemoryError::UnmappedAddress);
        }
        if size != 8 && size != 16 && size != 32 && size != 64 {
            return Err(MemoryError::UnsupportedAddressingSize);
        }
        let index = address - RAM_BASE;
        if index > self.memory.contents.len() || size / 8 > self.memory.contents.len() - index {
            return Err(MemoryError::OutOfBounds);
        }
        Ok(index)
    }

    /// Reads `size` bits at `address`, little-endian.
    pub fn load(&self, address: usize, size: usize) -> (r: Result<u64, MemoryError>)
        ensures
            r == spec_load(self.bytes(), address, size),
    {
        let index = self.check_access(address, size)?;
        let n: usize = size / 8;
        let ghost s = self.bytes().subrange(index as int, index + n);
        let mut value: u64 = 0;
        let mut k: usize = n;
        while k > 0
            invariant
                n <= 8,
                index + n <= self.memory.contents.len(),
                s == self.bytes().subrange(index as int, index + n),
                k <= n,
                value == le_value(s.subrange(k as int, n as int)),
            decreases k,
        {
            let byte = self.memory.contents[index + k - 1];
            proof {
                let tail = s.subrange(k as int, n as int);
                lemma_le_value_bound(tail);
                lemma_pow256_monotonic(tail.len(), 7);
                lemma_pow256_small();
                assert(s.subrange(k - 1, n as int).subrange(1, (n - k + 1) as int) =~= tail);
            }
            value = value * 256 + byte as u64;
            k = k - 1;
        }
        assert(s.subrange(0, n as int) =~= s);
        proof {
            lemma_le_value_bound(s);
            lemma_pow256_monotonic(n as nat, 8);
            lemma_pow256_small();
        }
        Ok(value)
    }

    /// Writes the low `size` bits of `value` at `address`, little-endian.
    pub fn store(&mut self, address: usize, size: usize, value: u64) -> (r: Result<(), MemoryError>)
        ensures
            *final(final(self).memory) == *final(old(self).memory),
            match spec_store(old(self).bytes(), address, size, value) {
                Ok(mem) => r is Ok && final(self).bytes() == mem,
                Err(e) => r == Err::<(), MemoryError>(e) && final(self).bytes() == old(self).bytes(),
            },
    {
        let index = self.check_access(address, size)?;
        let n: usize = size / 8;
        let ghost before = self.bytes();
        let mut rest: u64 = value;
        let mut k: usize = 0;
        assert(pow256(0) == 1);
        while k < n
            invariant
                index + n <= before.len(),
                before.len() == self.memory.contents.len(),
                k <= n,
                rest == value as nat / pow256(k as nat),
                *final(self.memory) == *final(old(self).memory),
                self.bytes().len() == before.len(),
                forall|j: int|
                    0 <= j < before.len() ==> #[trigger] self.bytes()[j] == if index <= j < index
                        + k {
                        byte_at(value as nat, (j - index) as nat)
                    } else {
                        before[j]
                    },
            decreases n - k,
        {
            self.memory.contents.set(index + k, (rest % 256) as u8);
            proof {
                lemma_pow256_positive(k as nat);
                lemma_div_denominator(value as int, pow256(k as nat) as int, 256);
            }
            rest = rest / 256;
            k = k + 1;
        }
        assert(self.bytes() =~= splice(before, index as int, le_bytes(value as nat, n as nat)));
        Ok(())
    }
}

} // verus!
