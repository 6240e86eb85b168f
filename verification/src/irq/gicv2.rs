//! The GICv2 interrupt controller of `aarch64` platforms such as the
//! ZCU106: its register layout, the encoding of interrupt configuration into
//! those registers, and the register writes that each operation performs.
//!
//! The registers themselves are written by the platform layer; this module
//! says which register is written with which value.
use vstd::prelude::*;

use crate::irq::{InterruptPriority, InterruptTrigger};

verus! {

/// First valid interrupt ID; 0-15 are software generated.
pub const FIRST_DEVICE_INTERRUPT_ID: u32 = 16;

/// First special interrupt ID, the upper bound of interrupt IDs.
pub const FIRST_SPECIAL_INTERRUPT_ID: u32 = 1020;

/// The first shared peripheral interrupt's ID; below it the interrupts
/// are private to each core.
pub const FIRST_SHARED_INTERRUPT_ID: u32 = 32;

/// The initial PMR priority mask value, which lets every priority through.
pub const PMR_PRIORITY_MASK: u32 = 0xFF;

/// The CPU target byte of core zero, the only core `Daedalus` runs on.
pub const TARGET_CPU0: u8 = 0x01;

/// The field of GICD_TYPER that holds the number of interrupt lines.
pub const GICD_TYPER_ITLINESNUMBER_MASK: u32 = 0x1F;

/// Distributor registers.
#[derive(Clone, Copy, Debug, PartialEq, Eq, Structural)]
pub enum GICDRegisters {
    /// Control register: enables forwarding of interrupts from the
    /// distributor to the CPU interfaces.
    CTLR,
    /// Information about the GIC, such as how many lines it supports.
    TYPER,
    /// One set-enable bit per interrupt.
    ISENABLER,
    /// One clear-enable bit per interrupt.
    ICENABLER,
    /// One clear-pending bit per interrupt.
    ICPENDR,
    /// One clear-active bit per interrupt.
    ICACTIVER,
    /// One priority byte per interrupt.
    IPRIORITYR,
    /// One CPU targets byte per interrupt.
    ITARGETSR,
    /// One two-bit trigger configuration field per interrupt.
    ICFGR,
}

/// CPU interface registers.
#[derive(Clone, Copy, Debug, PartialEq, Eq, Structural)]
pub enum GICCRegisters {
    /// Control register: enables signalling of interrupts to the processor.
    CTLR,
    /// Interrupt priority filter.
    PMR,
    /// Interrupt acknowledge register.
    IAR,
    /// End of interrupt register.
    EOIR,
}

/// Mapping from an interrupt trigger onto the GIC trigger levels.
#[derive(Clone, Copy, Debug, PartialEq, Eq, Structural)]
pub enum GICTriggerMapping {
    Level,
    Edge,
}

/// Mapping from an interrupt priority onto the GICv2 priority levels.
#[derive(Clone, Copy, Debug, PartialEq, Eq, Structural)]
pub struct GICInterruptPriority(pub u8);

/// The `GICv2` interrupt controller.
pub struct GICv2;

/// The interrupt state saved when interrupts are disabled: the DAIF
/// register, restored afterwards.
pub struct InterruptState(pub u64);

/// The offset of a distributor register from the distributor base.
pub open spec fn gicd_offset(register: GICDRegisters) -> nat {
    match register {
        GICDRegisters::CTLR => 0x0,
        GICDRegisters::TYPER => 0x4,
        GICDRegisters::ISENABLER => 0x100,
        GICDRegisters::ICENABLER => 0x180,
        GICDRegisters::ICPENDR => 0x280,
        GICDRegisters::ICACTIVER => 0x380,
        GICDRegisters::IPRIORITYR => 0x400,
        GICDRegisters::ITARGETSR => 0x800,
        GICDRegisters::ICFGR => 0xC00,
    }
}

/// The offset of a CPU interface register from the CPU interface base.
pub open spec fn gicc_offset(register: GICCRegisters) -> nat {
    match register {
        GICCRegisters::CTLR => 0x0,
        GICCRegisters::PMR => 0x4,
        GICCRegisters::IAR => 0xC,
        GICCRegisters::EOIR => 0x10,
    }
}

/// An interrupt ID that a device can raise and `Daedalus` can route.
pub open spec fn valid_irq(id: u32) -> bool {
    FIRST_DEVICE_INTERRUPT_ID <= id && id < FIRST_SPECIAL_INTERRUPT_ID
}

/// An interrupt ID below the special IDs: the distributor has a field for
/// it in each of its per-interrupt registers.
pub open spec fn has_registers(id: u32) -> bool {
    id < FIRST_SPECIAL_INTERRUPT_ID
}

impl GICv2 {
    /// Whether `id` is an interrupt ID this controller can route to a
    /// program: a device interrupt below the special IDs.
    pub fn is_valid_irq(id: u32) -> (valid: bool)
        ensures
            valid == valid_irq(id),
    {
        FIRST_DEVICE_INTERRUPT_ID <= id && id < FIRST_SPECIAL_INTERRUPT_ID
    }

    /// The same check, under the name the interrupt architectures share.
    pub fn is_valid_irq_wrapper(id: u32) -> (valid: bool)
        ensures
            valid == valid_irq(id),
    {
        Self::is_valid_irq(id)
    }
}

impl GICCRegisters {
    /// This register's offset from the CPU interface base.
    pub fn to_offset(&self) -> (offset: usize)
        ensures
            offset == gicc_offset(*self),
    {
        match self {
            GICCRegisters::CTLR => 0x0,
            GICCRegisters::PMR => 0x4,
            GICCRegisters::IAR => 0xC,
            GICCRegisters::EOIR => 0x10,
        }
    }
}

impl GICDRegisters {
    /// This register's offset from the distributor base.
    pub fn to_offset(&self) -> (offset: usize)
        ensures
            offset == gicd_offset(*self),
    {
        match self {
            GICDRegisters::CTLR => 0x0,
            GICDRegisters::TYPER => 0x4,
            GICDRegisters::ISENABLER => 0x100,
            GICDRegisters::ICENABLER => 0x180,
            GICDRegisters::ICPENDR => 0x280,
            GICDRegisters::ICACTIVER => 0x380,
            GICDRegisters::IPRIORITYR => 0x400,
            GICDRegisters::ITARGETSR => 0x800,
            GICDRegisters::ICFGR => 0xC00,
        }
    }
}

/// The byte in lane `lane` (0 is the lowest) of a 32-bit register value.
pub open spec fn byte_lane(value: u32, lane: u32) -> u32 {
    (value >> (lane * 8)) & 0xFF
}

/// The two-bit field number `field` (0 is the lowest) of a 32-bit register
/// value.
pub open spec fn two_bit_field(value: u32, field: u32) -> u32 {
    (value >> (field * 2)) & 0x3
}

/// Bit number `bit` of a 32-bit register value.
pub open spec fn bit_of(value: u32, bit: u32) -> u32 {
    (value >> bit) & 0x1
}

proof fn lemma_replace_byte_lane(chunk: u32, lane: u32, byte: u8, j: u32)
    by (bit_vector)
    requires
        lane < 4,
        j < 4,
    ensures
        (((chunk & !(0xFFu32 << (lane * 8))) | ((byte as u32) << (lane * 8))) >> (j * 8)) & 0xFF
            == if j == lane {
            byte as u32
        } else {
            (chunk >> (j * 8)) & 0xFF
        },
{
}

proof fn lemma_replace_two_bit_field(chunk: u32, field: u32, value: u8, j: u32)
    by (bit_vector)
    requires
        field < 16,
        j < 16,
    ensures
        (((chunk & !(0x3u32 << (field * 2))) | (((value & 0x3) as u32) << (field * 2))) >> (j
            * 2)) & 0x3 == if j == field {
            (value & 0x3) as u32
        } else {
            (chunk >> (j * 2)) & 0x3
        },
{
}

proof fn lemma_single_bit(bit: u32, j: u32)
    by (bit_vector)
    requires
        bit < 32,
        j < 32,
    ensures
        ((1u32 << bit) >> j) & 0x1 == if j == bit {
            1u32
        } else {
            0u32
        },
{
}


proof fn lemma_index_bits(id: u32)
    by (bit_vector)
    ensures
        id & !0x3u32 == id - id % 4,
        id & 0x3u32 == id % 4,
        (id & !0x1Fu32) >> 3 == (id / 32) * 4,
        id & 0x1Fu32 == id % 32,
        (id & !0xFu32) >> 2 == (id / 16) * 4,
        id & 0xFu32 == id % 16,
{
}

/// Which block of GIC registers a write goes to.
#[derive(Clone, Copy, Debug, PartialEq, Eq, Structural)]
pub enum GicRegisterBlock {
    Distributor,
    CpuInterface,
}

/// A plain write of `value` to the register at `offset` from the base of
/// `block`.
#[derive(Clone, Copy, Debug, PartialEq, Eq, Structural)]
pub struct RegisterWrite {
    pub block: GicRegisterBlock,
    pub offset: usize,
    pub value: u32,
}

/// A read-modify-write of the distributor register at `offset`: the
/// register's current value `current` is replaced by
/// `(current & keep) | set`.
#[derive(Clone, Copy, Debug, PartialEq, Eq, Structural)]
pub struct RegisterUpdate {
    pub offset: usize,
    pub keep: u32,
    pub set: u32,
}

/// The value a register holding `current` holds after `update`.
pub open spec fn updated(update: RegisterUpdate, current: u32) -> u32 {
    (current & update.keep) | update.set
}

impl RegisterUpdate {
    /// The value to write back for a register currently holding `current`.
    pub fn apply(&self, current: u32) -> (new_value: u32)
        ensures
            new_value == updated(*self, current),
    {
        (current & self.keep) | self.set
    }
}

/// The update that puts `byte` into the byte of `interrupt_id` in the
/// byte-per-interrupt register `register`: four interrupts per 32-bit
/// register, the lowest ID in the lowest byte.
pub open spec fn byte_update(register: GICDRegisters, interrupt_id: u32, byte: u8) -> RegisterUpdate {
    RegisterUpdate {
        offset: (gicd_offset(register) + (interrupt_id / 4) * 4) as usize,
        keep: !(0xFFu32 << ((interrupt_id % 4) * 8)),
        set: (byte as u32) << ((interrupt_id % 4) * 8),
    }
}

/// The update that puts the low two bits of `value` into the field of
/// `interrupt_id` in the two-bits-per-interrupt register `register`:
/// sixteen interrupts per 32-bit register, the lowest ID in the lowest bits.
pub open spec fn two_bit_update(register: GICDRegisters, interrupt_id: u32, value: u8) -> RegisterUpdate {
    RegisterUpdate {
        offset: (gicd_offset(register) + (interrupt_id / 16) * 4) as usize,
        keep: !(0x3u32 << ((interrupt_id % 16) * 2)),
        set: ((value & 0x3) as u32) << ((interrupt_id % 16) * 2),
    }
}

/// The write that sets the bit of `interrupt_id` in the bit-per-interrupt
/// register `register` (and no other bit): thirty-two interrupts per
/// 32-bit register, the lowest ID in the lowest bit.
pub open spec fn bit_write(register: GICDRegisters, interrupt_id: u32) -> RegisterWrite {
    RegisterWrite {
        block: GicRegisterBlock::Distributor,
        offset: (gicd_offset(register) + (interrupt_id / 32) * 4) as usize,
        value: 1u32 << (interrupt_id % 32),
    }
}

impl GICDRegisters {
    /// The read-modify-write that writes `byte_value` as the byte of
    /// `interrupt_id` in this byte-per-interrupt register, replacing
    /// whatever byte was there and keeping the other three.
    pub fn write_interrupt_byte_register(&self, interrupt_id: u32, byte_value: u8) -> (update:
        RegisterUpdate)
        requires
            has_registers(interrupt_id),
        ensures
            update == byte_update(*self, interrupt_id, byte_value),
            forall|current: u32, lane: u32|
                lane < 4 ==> #[trigger] byte_lane(updated(update, current), lane) == if lane
                    == interrupt_id % 4 {
                    byte_value as u32
                } else {
                    byte_lane(current, lane)
                },
    {
        proof {
            lemma_index_bits(interrupt_id);
        }
        // round down to the nearest 4 interrupt ids, as a 32-bit chunk
        // holds the bytes of 4 interrupts
        let index = (interrupt_id & !0x3) as usize;
        // the shift to the byte of this interrupt id in the chunk
        let shift = (interrupt_id & 0x3) * 8;
        let update = RegisterUpdate {
            offset: self.to_offset() + index,
            keep: !(0xFFu32 << shift),
            set: (byte_value as u32) << shift,
        };
        proof {
            assert forall|current: u32, lane: u32| lane < 4 implies #[trigger] byte_lane(
                updated(update, current),
                lane,
            ) == if lane == interrupt_id % 4 {
                byte_value as u32
            } else {
                byte_lane(current, lane)
            } by {
                lemma_replace_byte_lane(current, interrupt_id % 4, byte_value, lane);
            }
        }
        update
    }

    /// The write that sets the bit of `interrupt_id` in this
    /// bit-per-interrupt register; these are write-one registers, so only
    /// that bit is written as one.
    pub fn write_interrupt_bit(&self, interrupt_id: u32) -> (write: RegisterWrite)
        requires
            has_registers(interrupt_id),
        ensures
            write == bit_write(*self, interrupt_id),
            forall|bit: u32|
                bit < 32 ==> #[trigger] bit_of(write.value, bit) == if bit == interrupt_id % 32 {
                    1u32
                } else {
                    0u32
                },
    {
        proof {
            lemma_index_bits(interrupt_id);
        }
        let index = ((interrupt_id & !0x1F) >> 3) as usize;
        let bit = 1u32 << (interrupt_id & 0x1F);
        let write = RegisterWrite {
            block: GicRegisterBlock::Distributor,
            offset: self.to_offset() + index,
            value: bit,
        };
        proof {
            assert forall|b: u32| b < 32 implies #[trigger] bit_of(write.value, b) == if b
                == interrupt_id % 32 {
                1u32
            } else {
                0u32
            } by {
                lemma_single_bit(interrupt_id % 32, b);
            }
        }
        write
    }

    /// The read-modify-write that writes the low two bits of
    /// `two_bit_value` as the field of `interrupt_id` in this
    /// two-bits-per-interrupt register, keeping the other fifteen fields.
    pub fn write_interrupt_two_bit_register(&self, interrupt_id: u32, two_bit_value: u8) -> (update:
        RegisterUpdate)
        requires
            has_registers(interrupt_id),
        ensures
            update == two_bit_update(*self, interrupt_id, two_bit_value),
            forall|current: u32, field: u32|
                field < 16 ==> #[trigger] two_bit_field(updated(update, current), field) == if field
                    == interrupt_id % 16 {
                    (two_bit_value & 0x3) as u32
                } else {
                    two_bit_field(current, field)
                },
    {
        proof {
            lemma_index_bits(interrupt_id);
        }
        // 16 interrupts per 32-bit register
        let index = ((interrupt_id & !0xF) >> 2) as usize;
        // two bits per interrupt
        let shift = (interrupt_id & 0xF) * 2;
        let update = RegisterUpdate {
            offset: self.to_offset() + index,
            keep: !(0x3u32 << shift),
            set: ((two_bit_value & 0x3) as u32) << shift,
        };
        proof {
            assert forall|current: u32, field: u32| field < 16 implies #[trigger] two_bit_field(
                updated(update, current),
                field,
            ) == if field == interrupt_id % 16 {
                (two_bit_value & 0x3) as u32
            } else {
                two_bit_field(current, field)
            } by {
                lemma_replace_two_bit_field(current, interrupt_id % 16, two_bit_value, field);
            }
        }
        update
    }
}

/// The GIC trigger level of an interrupt trigger.
pub open spec fn trigger_mapping(trigger: InterruptTrigger) -> GICTriggerMapping {
    match trigger {
        InterruptTrigger::Level => GICTriggerMapping::Level,
        InterruptTrigger::Edge => GICTriggerMapping::Edge,
    }
}

/// The ICFGR field value of a trigger mode.
pub open spec fn trigger_bits(trigger: GICTriggerMapping) -> u8 {
    match trigger {
        GICTriggerMapping::Level => 0b00,
        GICTriggerMapping::Edge => 0b10,
    }
}

impl GICTriggerMapping {
    /// Converts this trigger mode to its ICFGR field value.
    pub fn to_bit_value(&self) -> (bits: u8)
        ensures
            bits == trigger_bits(*self),
    {
        match self {
            GICTriggerMapping::Level => 0b00,
            GICTriggerMapping::Edge => 0b10,
        }
    }
}

impl From<InterruptTrigger> for GICTriggerMapping {
    fn from(value: InterruptTrigger) -> (mapping: Self) {
        match value {
            InterruptTrigger::Level => GICTriggerMapping::Level,
            InterruptTrigger::Edge => GICTriggerMapping::Edge,
        }
    }
}

impl vstd::std_specs::convert::FromSpecImpl<InterruptTrigger> for GICTriggerMapping {
    open spec fn obeys_from_spec() -> bool {
        true
    }

    open spec fn from_spec(value: InterruptTrigger) -> GICTriggerMapping {
        trigger_mapping(value)
    }
}

impl From<InterruptPriority> for GICInterruptPriority {
    /// The direction is the same (0 is the highest priority); the GICv2
    /// itself compresses the value into the levels it implements.
    fn from(value: InterruptPriority) -> (priority: Self) {
        GICInterruptPriority(value.0)
    }
}

impl vstd::std_specs::convert::FromSpecImpl<InterruptPriority> for GICInterruptPriority {
    open spec fn obeys_from_spec() -> bool {
        true
    }

    open spec fn from_spec(value: InterruptPriority) -> GICInterruptPriority {
        GICInterruptPriority(value.0)
    }
}

impl GICv2 {
    /// The write that masks `interrupt_id`: its clear-enable bit, so the
    /// distributor stops forwarding it.
    pub fn mask(interrupt_id: u32) -> (write: RegisterWrite)
        requires
            has_registers(interrupt_id),
        ensures
            write == bit_write(GICDRegisters::ICENABLER, interrupt_id),
    {
        GICDRegisters::ICENABLER.write_interrupt_bit(interrupt_id)
    }

    /// The write that unmasks `interrupt_id`: its set-enable bit, so the
    /// distributor forwards it again.
    pub fn unmask(interrupt_id: u32) -> (write: RegisterWrite)
        requires
            has_registers(interrupt_id),
        ensures
            write == bit_write(GICDRegisters::ISENABLER, interrupt_id),
    {
        GICDRegisters::ISENABLER.write_interrupt_bit(interrupt_id)
    }

    /// The three read-modify-writes that configure `interrupt_id`, in the
    /// order they are made: its trigger mode into ICFGR, its priority into
    /// IPRIORITYR, and core zero as its target into ITARGETSR.
    pub fn configure(
        interrupt_id: u32,
        trigger: InterruptTrigger,
        priority: InterruptPriority,
    ) -> (updates: [RegisterUpdate; 3])
        requires
            has_registers(interrupt_id),
        ensures
            updates[0] == two_bit_update(
                GICDRegisters::ICFGR,
                interrupt_id,
                trigger_bits(trigger_mapping(trigger)),
            ),
            updates[1] == byte_update(GICDRegisters::IPRIORITYR, interrupt_id, priority.0),
            updates[2] == byte_update(GICDRegisters::ITARGETSR, interrupt_id, TARGET_CPU0),
    {
        let trigger_update = GICDRegisters::ICFGR.write_interrupt_two_bit_register(
            interrupt_id,
            GICTriggerMapping::from(trigger).to_bit_value(),
        );
        let priority_update = GICDRegisters::IPRIORITYR.write_interrupt_byte_register(
            interrupt_id,
            GICInterruptPriority::from(priority).0,
        );
        let target_update = GICDRegisters::ITARGETSR.write_interrupt_byte_register(
            interrupt_id,
            TARGET_CPU0,
        );
        [trigger_update, priority_update, target_update]
    }
}

/// The number of interrupt lines a distributor implements, from its GICD_TYPER value:
/// 32 per step of the ITLinesNumber field plus one, clamped to the first
/// special interrupt ID.
pub open spec fn lines_of(typer: u32) -> u32 {
    let lines = ((typer % 32) + 1) * 32;
    if lines < FIRST_SPECIAL_INTERRUPT_ID {
        lines as u32
    } else {
        FIRST_SPECIAL_INTERRUPT_ID
    }
}

/// How many interrupt lines the distributor whose GICD_TYPER register
/// holds `typer` implements, clamped so that the special interrupt IDs are
/// never touched.
pub fn line_count(typer: u32) -> (lines: u32)
    ensures
        lines == lines_of(typer),
        lines <= FIRST_SPECIAL_INTERRUPT_ID,
{
    let it_lines = typer & GICD_TYPER_ITLINESNUMBER_MASK;
    proof {
        assert(typer & 0x1Fu32 == typer % 32) by (bit_vector);
    }
    let lines = (it_lines + 1) * 32;
    if lines < FIRST_SPECIAL_INTERRUPT_ID {
        lines
    } else {
        FIRST_SPECIAL_INTERRUPT_ID
    }
}

/// The writes of a teardown: for every device interrupt line below `lines`, in
/// increasing order, its clear-enable, clear-pending and clear-active bits;
/// then zero into the CPU interface's and the distributor's control
/// registers so that nothing is signalled any more.
pub open spec fn teardown_writes(lines: u32) -> Seq<RegisterWrite> {
    let n: int = if lines > FIRST_DEVICE_INTERRUPT_ID {
        lines - FIRST_DEVICE_INTERRUPT_ID
    } else {
        0
    };
    Seq::new(
        (3 * n) as nat,
        |k: int|
            {
                let id = (FIRST_DEVICE_INTERRUPT_ID + k / 3) as u32;
                if k % 3 == 0 {
                    bit_write(GICDRegisters::ICENABLER, id)
                } else if k % 3 == 1 {
                    bit_write(GICDRegisters::ICPENDR, id)
                } else {
                    bit_write(GICDRegisters::ICACTIVER, id)
                }
            },
    ).push(RegisterWrite { block: GicRegisterBlock::CpuInterface, offset: 0, value: 0 }).push(
        RegisterWrite { block: GicRegisterBlock::Distributor, offset: 0, value: 0 },
    )
}

impl GICv2 {
    /// The register writes that tear the interrupt controller down before
    /// handoff, for a distributor with `lines` interrupt lines (see
    /// `line_count`).
    pub fn teardown(lines: u32) -> (writes: Vec<RegisterWrite>)
        requires
            lines <= FIRST_SPECIAL_INTERRUPT_ID,
        ensures
            writes@ == teardown_writes(lines),
    {
        let mut writes: Vec<RegisterWrite> = Vec::new();
        let mut interrupt_id = FIRST_DEVICE_INTERRUPT_ID;
        let ghost n: int = if lines > FIRST_DEVICE_INTERRUPT_ID {
            lines - FIRST_DEVICE_INTERRUPT_ID
        } else {
            0
        };
        while interrupt_id < lines
            invariant
                FIRST_DEVICE_INTERRUPT_ID <= interrupt_id,
                interrupt_id <= FIRST_DEVICE_INTERRUPT_ID || interrupt_id <= lines,
                lines <= FIRST_SPECIAL_INTERRUPT_ID,
                n == (if lines > FIRST_DEVICE_INTERRUPT_ID {
                    lines - FIRST_DEVICE_INTERRUPT_ID
                } else {
                    0
                }),
                writes@.len() == 3 * (interrupt_id - FIRST_DEVICE_INTERRUPT_ID),
                forall|k: int|
                    0 <= k < writes@.len() ==> #[trigger] writes@[k] == teardown_writes(lines)[k],
            decreases lines - interrupt_id,
        {
            // Disable it, clear it pending and clear it active.
            let k = writes.len();
            writes.push(GICDRegisters::ICENABLER.write_interrupt_bit(interrupt_id));
            writes.push(GICDRegisters::ICPENDR.write_interrupt_bit(interrupt_id));
            writes.push(GICDRegisters::ICACTIVER.write_interrupt_bit(interrupt_id));
            proof {
                assert forall|j: int| 0 <= j < writes@.len() implies #[trigger] writes@[j]
                    == teardown_writes(lines)[j] by {
                    if j >= k {
                        assert(j / 3 == interrupt_id - FIRST_DEVICE_INTERRUPT_ID);
                    }
                }
            }
            interrupt_id = interrupt_id + 1;
        }
        // Stop signalling everything.
        writes.push(RegisterWrite { block: GicRegisterBlock::CpuInterface, offset: GICCRegisters::CTLR.to_offset(), value: 0 });
        writes.push(RegisterWrite { block: GicRegisterBlock::Distributor, offset: GICDRegisters::CTLR.to_offset(), value: 0 });
        proof {
            assert(writes@ =~= teardown_writes(lines));
        }
        writes
    }
}

/// Whether every interrupt ID in `ids` can be routed by this controller.
pub fn validate_irqs_for_current_irq_arch(ids: &[u32]) -> (all_valid: bool)
    ensures
        all_valid == forall|i: int| 0 <= i < ids@.len() ==> valid_irq(#[trigger] ids@[i]),
{
    let mut i: usize = 0;
    while i < ids.len()
        invariant
            i <= ids@.len(),
            forall|j: int| 0 <= j < i ==> valid_irq(#[trigger] ids@[j]),
        decreases ids@.len() - i,
    {
        if !GICv2::is_valid_irq(ids[i]) {
            return false;
        }
        i = i + 1;
    }
    true
}

/// Masking and unmasking an interrupt write the same bit, to the
/// clear-enable and the set-enable register of its line, which lie 0x80
/// bytes apart.
pub proof fn lemma_mask_unmask_same_line(interrupt_id: u32)
    requires
        has_registers(interrupt_id),
    ensures
        bit_write(GICDRegisters::ICENABLER, interrupt_id).value == bit_write(
            GICDRegisters::ISENABLER,
            interrupt_id,
        ).value,
        bit_write(GICDRegisters::ICENABLER, interrupt_id).offset == bit_write(
            GICDRegisters::ISENABLER,
            interrupt_id,
        ).offset + 0x80,
{
}

/// A teardown disables, clears the pending state of and clears the active
/// state of every device interrupt line the distributor implements.
pub proof fn lemma_teardown_clears_every_line(lines: u32, interrupt_id: u32)
    requires
        FIRST_DEVICE_INTERRUPT_ID <= interrupt_id < lines,
        lines <= FIRST_SPECIAL_INTERRUPT_ID,
    ensures
        teardown_writes(lines).contains(bit_write(GICDRegisters::ICENABLER, interrupt_id)),
        teardown_writes(lines).contains(bit_write(GICDRegisters::ICPENDR, interrupt_id)),
        teardown_writes(lines).contains(bit_write(GICDRegisters::ICACTIVER, interrupt_id)),
{
    let k = 3 * (interrupt_id - FIRST_DEVICE_INTERRUPT_ID);
    let writes = teardown_writes(lines);
    assert(writes[k] == bit_write(GICDRegisters::ICENABLER, interrupt_id));
    assert(writes[k + 1] == bit_write(GICDRegisters::ICPENDR, interrupt_id));
    assert(writes[k + 2] == bit_write(GICDRegisters::ICACTIVER, interrupt_id));
}

} // verus!
