//! The memory operations every architecture supplies, stated over the
//! byte-addressed memory they act on, and the widths of simple accesses.
use vstd::prelude::*;

use crate::errors::DaedalusCapErrors;

verus! {

/// Different possible access widths for a simple read or write.
#[derive(Clone, Copy, Debug, PartialEq, Eq, Structural)]
pub enum AccessWidth {
    U8,
    U16,
    U32,
    U64,
}

/// The number of bytes covered by an access of this width.
pub open spec fn width_bytes(width: AccessWidth) -> nat {
    match width {
        AccessWidth::U8 => 1,
        AccessWidth::U16 => 2,
        AccessWidth::U32 => 4,
        AccessWidth::U64 => 8,
    }
}

/// The largest value an access of this width can carry: `2^(8 * bytes) - 1`.
pub open spec fn width_max_value(width: AccessWidth) -> nat {
    match width {
        AccessWidth::U8 => 0xff,
        AccessWidth::U16 => 0xffff,
        AccessWidth::U32 => 0xffff_ffff,
        AccessWidth::U64 => 0xffff_ffff_ffff_ffff,
    }
}

impl AccessWidth {
    /// Return the underlying number of bytes for an `AccessWidth`.
    pub fn bytes(self) -> (n: usize)
        ensures
            n == width_bytes(self),
    {
        match self {
            AccessWidth::U8 => 1,
            AccessWidth::U16 => 2,
            AccessWidth::U32 => 4,
            AccessWidth::U64 => 8,
        }
    }

    /// Returns the maximum value storable in a `u64` with this access width.
    pub fn max_value(self) -> (m: u64)
        ensures
            m == width_max_value(self),
    {
        match self {
            AccessWidth::U8 => 0xff,
            AccessWidth::U16 => 0xffff,
            AccessWidth::U32 => 0xffff_ffff,
            AccessWidth::U64 => 0xffff_ffff_ffff_ffff,
        }
    }
}


/// The access width of `bytes` bytes, if there is one.
pub open spec fn width_of_bytes(bytes: usize) -> Option<AccessWidth> {
    if bytes == 1 {
        Some(AccessWidth::U8)
    } else if bytes == 2 {
        Some(AccessWidth::U16)
    } else if bytes == 4 {
        Some(AccessWidth::U32)
    } else if bytes == 8 {
        Some(AccessWidth::U64)
    } else {
        None
    }
}

impl AccessWidth {
    /// The access width of `bytes` bytes, which must be 1, 2, 4 or 8.
    pub fn from_bytes(bytes: usize) -> (width: Result<AccessWidth, DaedalusCapErrors>)
        ensures
            width_of_bytes(bytes) matches Some(w) ==> width == Ok::<_, DaedalusCapErrors>(w),
            width_of_bytes(bytes) is None ==> width == Err::<AccessWidth, _>(
                DaedalusCapErrors::InvalidAccessWidth { width: bytes },
            ),
            width matches Ok(w) ==> width_bytes(w) == bytes,
    {
        match bytes {
            1 => Ok(AccessWidth::U8),
            2 => Ok(AccessWidth::U16),
            4 => Ok(AccessWidth::U32),
            8 => Ok(AccessWidth::U64),
            _ => Err(DaedalusCapErrors::InvalidAccessWidth { width: bytes }),
        }
    }
}

/// `256` to the power `n`.
pub open spec fn pow256(n: nat) -> nat
    decreases n,
{
    if n == 0 {
        1
    } else {
        256 * pow256((n - 1) as nat)
    }
}

/// The number whose little-endian bytes are `bytes`.
pub open spec fn le_value(bytes: Seq<u8>) -> nat
    decreases bytes.len(),
{
    if bytes.len() == 0 {
        0
    } else {
        (bytes[0] + 256 * le_value(bytes.drop_first())) as nat
    }
}

/// The `n` lowest little-endian bytes of `value`.
pub open spec fn le_bytes(value: nat, n: nat) -> Seq<u8> {
    Seq::new(n, |i: int| ((value / pow256(i as nat)) % 256) as u8)
}

/// What a read of `width` at `address` of `memory` gives: the
/// little-endian value of the bytes it covers.
pub open spec fn loaded(memory: Seq<u8>, address: int, width: AccessWidth) -> nat {
    le_value(memory.subrange(address, address + width_bytes(width)))
}

/// `memory` after a write of `value` with `width` at `address`: the bytes
/// covered hold the low bytes of `value`, little-endian; the rest is
/// unchanged.
pub open spec fn stored(memory: Seq<u8>, address: int, width: AccessWidth, value: u64) -> Seq<u8> {
    memory.subrange(0, address) + le_bytes(value as nat, width_bytes(width)) + memory.subrange(
        address + width_bytes(width),
        memory.len() as int,
    )
}

/// `memory` after copying `len` bytes from `source` to `destination`: the
/// destination holds what the source held before the copy, even where the
/// two overlap, and the rest is unchanged.
pub open spec fn copied(memory: Seq<u8>, source: int, destination: int, len: int) -> Seq<u8> {
    Seq::new(
        memory.len(),
        |p: int|
            if destination <= p < destination + len {
                memory[source + (p - destination)]
            } else {
                memory[p]
            },
    )
}

/// `memory` after filling `len` bytes from `destination` with `value`.
pub open spec fn filled(memory: Seq<u8>, destination: int, value: u8, len: int) -> Seq<u8> {
    Seq::new(
        memory.len(),
        |p: int|
            if destination <= p < destination + len {
                value
            } else {
                memory[p]
            },
    )
}

/// A single architecture's memory operations, on the byte-addressed
/// memory they act on.
///
/// Callers have checked that the running program may access what each
/// operation touches; reads and writes are aligned to their width.
pub trait MemoryArch {
    /// Reads `width` bytes at `address`.
    fn read(memory: &Vec<u8>, address: usize, width: AccessWidth) -> (value: u64)
        requires
            address + width_bytes(width) <= memory@.len(),
            address as int % width_bytes(width) as int == 0,
        ensures
            value == loaded(memory@, address as int, width),
    ;

    /// Writes the low `width` bytes of `value` at `address`.
    fn write(memory: &mut Vec<u8>, address: usize, width: AccessWidth, value: u64)
        requires
            address + width_bytes(width) <= old(memory)@.len(),
            address as int % width_bytes(width) as int == 0,
        ensures
            final(memory)@ == stored(old(memory)@, address as int, width, value),
    ;

    /// Copies `len` bytes from `source` to `destination`; the two ranges
    /// may overlap, and no source byte is overwritten before it is copied.
    fn copy(memory: &mut Vec<u8>, source: usize, destination: usize, len: usize)
        requires
            source + len <= old(memory)@.len(),
            destination + len <= old(memory)@.len(),
        ensures
            final(memory)@ == copied(old(memory)@, source as int, destination as int, len as int),
    ;

    /// Fills `len` bytes from `destination` with `value`.
    fn fill(memory: &mut Vec<u8>, destination: usize, value: u8, len: usize)
        requires
            destination + len <= old(memory)@.len(),
        ensures
            final(memory)@ == filled(old(memory)@, destination as int, value, len as int),
    ;
}

/// A little-endian value of `n` bytes is below `256^n`.
pub proof fn lemma_le_value_bound(bytes: Seq<u8>)
    ensures
        le_value(bytes) < pow256(bytes.len()),
    decreases bytes.len(),
{
    if bytes.len() > 0 {
        lemma_le_value_bound(bytes.drop_first());
    }
}

/// The little-endian value of the `n` low bytes of `value` is `value`
/// modulo `256^n`.
pub proof fn lemma_le_roundtrip(value: nat, n: nat)
    ensures
        le_value(le_bytes(value, n)) == value % pow256(n),
    decreases n,
{
    if n == 0 {
        assert(le_bytes(value, 0).len() == 0);
    } else {
        let rest = (n - 1) as nat;
        lemma_le_roundtrip(value / 256, rest);
        assert(le_bytes(value, n).drop_first() =~= le_bytes(value / 256, rest)) by {
            assert forall|i: int| 0 <= i < rest implies #[trigger] le_bytes(value, n).drop_first()[i]
                == le_bytes(value / 256, rest)[i] by {
                assert(pow256((i + 1) as nat) == 256 * pow256(i as nat));
                lemma_pow256_positive(i as nat);
                vstd::arithmetic::div_mod::lemma_div_denominator(
                    value as int,
                    256,
                    pow256(i as nat) as int,
                );
            }
        }
        assert(le_bytes(value, n)[0] == value % 256);
        lemma_pow256_positive(rest);
        vstd::arithmetic::div_mod::lemma_mod_breakdown(value as int, 256, pow256(rest) as int);
    }
}

/// Powers of 256 are positive.
pub proof fn lemma_pow256_positive(n: nat)
    ensures
        pow256(n) > 0,
    decreases n,
{
    if n > 0 {
        lemma_pow256_positive((n - 1) as nat);
    }
}

/// `256^bytes` of each access width is one more than its largest value.
pub proof fn lemma_width_powers(width: AccessWidth)
    ensures
        pow256(width_bytes(width)) == width_max_value(width) + 1,
{
    reveal_with_fuel(pow256, 9);
}

/// A read gives back exactly the value a write of the same width at the
/// same address stored, cut to that width.
pub proof fn lemma_read_after_write(memory: Seq<u8>, address: int, width: AccessWidth, value: u64)
    requires
        0 <= address,
        address + width_bytes(width) <= memory.len(),
    ensures
        loaded(stored(memory, address, width, value), address, width) == value as nat % (
        width_max_value(width) + 1),
        loaded(stored(memory, address, width, value), address, width) == (value & (width_max_value(
            width,
        ) as u64)),
{
    let n = width_bytes(width);
    let s = stored(memory, address, width, value);
    assert(s.subrange(address, address + n) =~= le_bytes(value as nat, n));
    lemma_le_roundtrip(value as nat, n);
    lemma_width_powers(width);
    let target = loaded(s, address, width);
    match width {
        AccessWidth::U8 => {
            assert(value & 0xffu64 == value % 256) by (bit_vector);
            assert(target == (value & 0xffu64));
        },
        AccessWidth::U16 => {
            assert(value & 0xffffu64 == value % 65536) by (bit_vector);
            assert(target == (value & 0xffffu64));
        },
        AccessWidth::U32 => {
            assert(value & 0xffff_ffffu64 == value % 0x1_0000_0000) by (bit_vector);
            assert(target == (value & 0xffff_ffffu64));
        },
        AccessWidth::U64 => {
            assert(value & 0xffff_ffff_ffff_ffffu64 == value) by (bit_vector);
            vstd::arithmetic::div_mod::lemma_small_mod(value as nat, 0x1_0000_0000_0000_0000nat);
            assert(target == (value & 0xffff_ffff_ffff_ffffu64));
        },
    }
}

/// The width of `bytes(w)` bytes is `w`: `bytes` and `from_bytes` are
/// inverse, and the largest value of a width is `256^bytes - 1`.
pub proof fn lemma_width_bytes_roundtrip(width: AccessWidth)
    ensures
        width_of_bytes(width_bytes(width) as usize) == Some(width),
        width_max_value(width) + 1 == pow256(width_bytes(width)),
{
    lemma_width_powers(width);
}

/// A write changes only the bytes it covers.
pub proof fn lemma_write_keeps_other_bytes(
    memory: Seq<u8>,
    address: int,
    width: AccessWidth,
    value: u64,
    p: int,
)
    requires
        0 <= address,
        address + width_bytes(width) <= memory.len(),
        0 <= p < memory.len(),
        p < address || address + width_bytes(width) <= p,
    ensures
        stored(memory, address, width, value).len() == memory.len(),
        stored(memory, address, width, value)[p] == memory[p],
{
    let n = width_bytes(width);
    let front = memory.subrange(0, address);
    let middle = le_bytes(value as nat, n);
    let back = memory.subrange(address + n, memory.len() as int);
    assert(stored(memory, address, width, value) == front + middle + back);
    if p < address {
        assert((front + middle + back)[p] == front[p]);
    } else {
        assert((front + middle + back)[p] == back[p - address - n]);
    }
}

} // verus!
