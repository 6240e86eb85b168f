//! The `aarch64` memory operations, for `ARM 64-bit` platforms such as the
//! ZCU106, and the register computations behind their cache maintenance
//! and exception-level setup.
use vstd::prelude::*;
use vstd::bits::low_bits_mask;

use crate::memory::arch::{
    AccessWidth, MemoryArch, copied, filled, le_bytes, le_value, lemma_le_value_bound,
    lemma_pow256_positive, lemma_width_powers, loaded, pow256, stored, width_bytes,
    width_max_value,
};

verus! {

/// Right shift of CTR_EL0 to its `DMinLine` field (smallest data cache line).
pub const DMINLINE_SHIFT: u64 = 16;

/// Right shift of CTR_EL0 to its `IMinLine` field (smallest instruction
/// cache line).
pub const IMINLINE_SHIFT: u64 = 0;

/// Mask of the `DMinLine` and `IMinLine` fields.
pub const LINE_MASK: u64 = 0xf;

/// The `I` bit of SCTLR_EL1, which enables the instruction cache.
pub const SCTLR_INSTRUCTION_CACHE: u64 = 0x1000;

/// The E2H bit of HCR_EL2, which enables the host-at-EL2 (VHE) configuration.
pub const HCR_EL2_E2H: u64 = 0x4_0000_0000;

/// The TGE bit of HCR_EL2, which routes all exceptions from EL1 to EL2.
pub const HCR_EL2_TGE: u64 = 0x800_0000;

/// The `AArch64` memory operations.
pub struct Aarch64;

/// Whether a copy of `len` bytes from `source` to `destination` must run
/// from the last byte down: the destination starts inside the source, so
/// copying forwards would overwrite source bytes before they are copied.
pub fn copies_backwards(source: usize, destination: usize, len: usize) -> (backwards: bool)
    requires
        source + len <= usize::MAX,
    ensures
        backwards == (source < destination < source + len),
{
    destination > source && destination < source + len
}

impl MemoryArch for Aarch64 {
    fn read(memory: &Vec<u8>, address: usize, width: AccessWidth) -> (value: u64) {
        let n = width.bytes();
        let size = memory.len();
        let mut value: u64 = 0;
        let mut i: usize = n;
        while i > 0
            invariant
                n == width_bytes(width),
                size == memory@.len(),
                address + n <= memory@.len(),
                i <= n,
                value == le_value(memory@.subrange(address + i, address + n)),
            decreases i,
        {
            let ghost rest = memory@.subrange(address + i, address + n);
            let ghost whole = memory@.subrange(address + i - 1, address + n);
            proof {
                assert(whole.drop_first() =~= rest);
                lemma_le_value_bound(rest);
                lemma_width_powers(width);
                assert(pow256(rest.len() + 1) == 256 * pow256(rest.len()));
                lemma_monotone_pow256(rest.len() + 1, n as nat);
            }
            value = value * 256 + memory[address + i - 1] as u64;
            i = i - 1;
        }
        value
    }

    fn write(memory: &mut Vec<u8>, address: usize, width: AccessWidth, value: u64) {
        let n = width.bytes();
        let size = memory.len();
        let mut rest = value;
        let mut i: usize = 0;
        proof {
            assert(pow256(0) == 1);
            assert(value as nat / 1 == value);
        }
        while i < n
            invariant
                n == width_bytes(width),
                size == old(memory)@.len(),
                address + n <= old(memory)@.len(),
                memory@.len() == old(memory)@.len(),
                i <= n,
                rest == value as nat / pow256(i as nat),
                forall|p: int|
                    0 <= p < memory@.len() ==> #[trigger] memory@[p] == if address <= p < address + i {
                        le_bytes(value as nat, n as nat)[p - address]
                    } else {
                        old(memory)@[p]
                    },
            decreases n - i,
        {
            memory.set(address + i, (rest % 256) as u8);
            proof {
                lemma_pow256_positive(i as nat);
                vstd::arithmetic::div_mod::lemma_div_denominator(
                    value as int,
                    pow256(i as nat) as int,
                    256,
                );
                assert(pow256((i + 1) as nat) == 256 * pow256(i as nat));
                assert(pow256(i as nat) * 256 == 256 * pow256(i as nat)) by (nonlinear_arith);
            }
            rest = rest / 256;
            i = i + 1;
        }
        proof {
            assert(memory@ =~= stored(old(memory)@, address as int, width, value));
        }
    }

    fn copy(memory: &mut Vec<u8>, source: usize, destination: usize, len: usize) {
        // Backwards case: the destination starts inside the source, so
        // copying forwards would overwrite source bytes before they are
        // copied.
        let size = memory.len();
        if copies_backwards(source, destination, len) {
            let mut i: usize = len;
            while i > 0
                invariant
                    size == old(memory)@.len(),
                    source < destination < source + len,
                    destination + len <= old(memory)@.len(),
                    memory@.len() == old(memory)@.len(),
                    i <= len,
                    forall|p: int|
                        0 <= p < memory@.len() ==> #[trigger] memory@[p] == if destination + i <= p
                            < destination + len {
                            old(memory)@[source + (p - destination)]
                        } else {
                            old(memory)@[p]
                        },
                decreases i,
            {
                let byte = memory[source + i - 1];
                memory.set(destination + i - 1, byte);
                i = i - 1;
            }
            proof {
                assert(memory@ =~= copied(
                    old(memory)@,
                    source as int,
                    destination as int,
                    len as int,
                ));
            }
            return;
        }
        // Forward case: the source bytes still to be copied are never
        // overwritten.

        let mut i: usize = 0;
        while i < len
            invariant
                size == old(memory)@.len(),
                !(source < destination < source + len),
                source + len <= old(memory)@.len(),
                destination + len <= old(memory)@.len(),
                memory@.len() == old(memory)@.len(),
                i <= len,
                forall|p: int|
                    0 <= p < memory@.len() ==> #[trigger] memory@[p] == if destination <= p
                        < destination + i {
                        old(memory)@[source + (p - destination)]
                    } else {
                        old(memory)@[p]
                    },
            decreases len - i,
        {
            let byte = memory[source + i];
            memory.set(destination + i, byte);
            i = i + 1;
        }
        proof {
            assert(memory@ =~= copied(old(memory)@, source as int, destination as int, len as int));
        }
    }

    fn fill(memory: &mut Vec<u8>, destination: usize, value: u8, len: usize) {
        let size = memory.len();
        let mut i: usize = 0;
        while i < len
            invariant
                size == old(memory)@.len(),
                destination + len <= old(memory)@.len(),
                memory@.len() == old(memory)@.len(),
                i <= len,
                forall|p: int|
                    0 <= p < memory@.len() ==> #[trigger] memory@[p] == if destination <= p
                        < destination + i {
                        value
                    } else {
                        old(memory)@[p]
                    },
            decreases len - i,
        {
            memory.set(destination + i, value);
            i = i + 1;
        }
        proof {
            assert(memory@ =~= filled(old(memory)@, destination as int, value, len as int));
        }
    }
}

/// Powers of 256 grow with the exponent.
proof fn lemma_monotone_pow256(a: nat, b: nat)
    requires
        a <= b,
    ensures
        pow256(a) <= pow256(b),
    decreases b - a,
{
    if a < b {
        lemma_monotone_pow256(a, (b - 1) as nat);
        lemma_pow256_positive((b - 1) as nat);
    }
}


/// The size in bytes of the smallest cache line whose log2-of-words field
/// lies at `shift` in the cache type register value `ctr_el0`.
pub open spec fn line_bytes(ctr_el0: u64, shift: u64) -> usize {
    (4usize << ((ctr_el0 >> shift) & LINE_MASK) as usize) as usize
}

proof fn lemma_line_bytes_range(ctr_el0: u64, shift: u64)
    by (bit_vector)
    requires
        shift < 64,
    ensures
        4 <= (4usize << ((ctr_el0 >> shift) & 0xf) as usize) <= 0x20000,
        ((ctr_el0 >> shift) & 0xf) < 16,
{
}

proof fn lemma_round_to_line(x: usize, field: usize)
    requires
        field < 16,
    ensures
        x & !(((4usize << field) - 1) as usize) == x - x % (4usize << field),
{
    let k = (field + 2) as usize;
    let l = 4usize << field;
    assert(l == 1usize << k && l >= 4) by (bit_vector)
        requires
            field < 16,
            k == field + 2,
            l == 4usize << field,
    ;
    vstd::bits::lemma_usize_pow2_no_overflow(k as nat);
    vstd::bits::lemma_usize_shl_is_mul(1, k);
    vstd::bits::lemma_usize_low_bits_mask_is_mod(x, k as nat);
    assert(low_bits_mask(k as nat) as usize == (l - 1) as usize);
    assert(x & !((l - 1) as usize) == x - (x & ((l - 1) as usize))) by (bit_vector);
}

/// The size in bytes of the smallest cache line given by the field at
/// `shift` of the cache type register value `ctr_el0`: four bytes times two
/// to the power of the field.
pub fn cache_line_bytes(ctr_el0: u64, shift: u64) -> (bytes: usize)
    requires
        shift < 64,
    ensures
        bytes == line_bytes(ctr_el0, shift),
        4 <= bytes <= 0x20000,
{
    proof {
        lemma_line_bytes_range(ctr_el0, shift);
    }
    4usize << ((ctr_el0 >> shift) & LINE_MASK) as usize
}

/// The cache lines to maintain so that `len` bytes from `pointer` become
/// visible to every observer: data cache lines `data_line` bytes apart
/// from `data_start` up to `data_end`, and instruction cache lines
/// `instruction_line` bytes apart from `instruction_start` up to
/// `instruction_end`.
#[derive(Clone, Copy, Debug, PartialEq, Eq, Structural)]
pub struct FlushSpan {
    pub data_start: usize,
    pub data_end: usize,
    pub data_line: usize,
    pub instruction_start: usize,
    pub instruction_end: usize,
    pub instruction_line: usize,
}

/// `x` rounded down to a multiple of `line`.
pub open spec fn round_down(x: int, line: int) -> int {
    x - x % line
}

/// `x` rounded up to a multiple of `line`.
pub open spec fn round_up(x: int, line: int) -> int {
    round_down(x + line - 1, line)
}

/// The span of cache lines that `flush_range` maintains for `len` bytes
/// at `pointer`, given the cache type register value `ctr_el0`: from the
/// line holding the first byte up to the end of the line holding the last.
pub fn flush_span(ctr_el0: u64, pointer: usize, len: usize) -> (span: FlushSpan)
    requires
        pointer + len + line_bytes(ctr_el0, DMINLINE_SHIFT) <= usize::MAX,
        pointer + len + line_bytes(ctr_el0, IMINLINE_SHIFT) <= usize::MAX,
    ensures
        span.data_line == line_bytes(ctr_el0, DMINLINE_SHIFT),
        span.instruction_line == line_bytes(ctr_el0, IMINLINE_SHIFT),
        span.data_start == round_down(pointer as int, span.data_line as int),
        span.data_end == round_up(pointer + len, span.data_line as int),
        span.instruction_start == round_down(pointer as int, span.instruction_line as int),
        span.instruction_end == round_up(pointer + len, span.instruction_line as int),
{
    let data_line = cache_line_bytes(ctr_el0, DMINLINE_SHIFT);
    let instruction_line = cache_line_bytes(ctr_el0, IMINLINE_SHIFT);
    proof {
        lemma_line_bytes_range(ctr_el0, DMINLINE_SHIFT);
        lemma_line_bytes_range(ctr_el0, IMINLINE_SHIFT);
        let d = ((ctr_el0 >> DMINLINE_SHIFT) & LINE_MASK) as usize;
        let i = ((ctr_el0 >> IMINLINE_SHIFT) & LINE_MASK) as usize;
        lemma_round_to_line(pointer, d);
        lemma_round_to_line(pointer, i);
        lemma_round_to_line((pointer + len + data_line - 1) as usize, d);
        lemma_round_to_line((pointer + len + instruction_line - 1) as usize, i);
    }
    // Round the start down to the line holding the first byte, the end
    // up past the line holding the last.
    let end = pointer + len;
    FlushSpan {
        data_start: pointer & !(data_line - 1),
        data_end: (end + data_line - 1) & !(data_line - 1),
        data_line,
        instruction_start: pointer & !(instruction_line - 1),
        instruction_end: (end + instruction_line - 1) & !(instruction_line - 1),
        instruction_line,
    }
}

/// The exception level held in a CurrentEL register value (bits 3:2).
pub fn current_exception_level(current_el: u64) -> (level: u64)
    ensures
        level == (current_el / 4) % 4,
{
    proof {
        assert((current_el >> 2) & 0b11u64 == (current_el / 4) % 4) by (bit_vector);
    }
    (current_el >> 2) & 0b11
}

/// The HCR_EL2 value with the host-at-EL2 configuration switched off:
/// `hcr` with its E2H and TGE bits cleared, every other bit kept.
pub fn hcr_without_vhe(hcr: u64) -> (cleared: u64)
    ensures
        cleared == hcr & !(HCR_EL2_E2H | HCR_EL2_TGE),
        cleared & HCR_EL2_E2H == 0,
        cleared & HCR_EL2_TGE == 0,
        forall|bit: u64|
            bit < 64 && bit != 34 && bit != 27 ==> #[trigger] ((cleared >> bit) & 1) == (hcr >> bit)
                & 1,
{
    let cleared = hcr & !(HCR_EL2_E2H | HCR_EL2_TGE);
    proof {
        assert(cleared & 0x4_0000_0000u64 == 0) by (bit_vector)
            requires
                cleared == hcr & !(0x4_0000_0000u64 | 0x800_0000u64),
        ;
        assert(cleared & 0x800_0000u64 == 0) by (bit_vector)
            requires
                cleared == hcr & !(0x4_0000_0000u64 | 0x800_0000u64),
        ;
        assert forall|bit: u64|
            bit < 64 && bit != 34 && bit != 27 implies #[trigger] ((cleared >> bit) & 1) == (hcr
            >> bit) & 1 by {
            assert(((cleared >> bit) & 1) == (hcr >> bit) & 1) by (bit_vector)
                requires
                    cleared == hcr & !(0x4_0000_0000u64 | 0x800_0000u64),
                    bit < 64,
                    bit != 34,
                    bit != 27,
            ;
        }
    }
    cleared
}

/// The SCTLR_EL1 value with the instruction cache enabled: its `I` bit set,
/// every other bit kept.
pub fn sctlr_with_instruction_cache(system_control: u64) -> (enabled: u64)
    ensures
        enabled == system_control | SCTLR_INSTRUCTION_CACHE,
{
    system_control | SCTLR_INSTRUCTION_CACHE
}

} // verus!
