use daedalus_caps::irq::gicv2::{
    line_count, validate_irqs_for_current_irq_arch, GICCRegisters, GICDRegisters,
    GICInterruptPriority, GICTriggerMapping, GICv2, GicRegisterBlock, RegisterUpdate,
    RegisterWrite,
};
use daedalus_caps::irq::{InterruptPriority, InterruptTrigger};

#[test]
fn distributor_offsets() {
    assert_eq!(GICDRegisters::CTLR.to_offset(), 0x0);
    assert_eq!(GICDRegisters::TYPER.to_offset(), 0x4);
    assert_eq!(GICDRegisters::ISENABLER.to_offset(), 0x100);
    assert_eq!(GICDRegisters::ICENABLER.to_offset(), 0x180);
    assert_eq!(GICDRegisters::ICPENDR.to_offset(), 0x280);
    assert_eq!(GICDRegisters::ICACTIVER.to_offset(), 0x380);
    assert_eq!(GICDRegisters::IPRIORITYR.to_offset(), 0x400);
    assert_eq!(GICDRegisters::ITARGETSR.to_offset(), 0x800);
    assert_eq!(GICDRegisters::ICFGR.to_offset(), 0xC00);
}

#[test]
fn cpu_interface_offsets() {
    assert_eq!(GICCRegisters::CTLR.to_offset(), 0x0);
    assert_eq!(GICCRegisters::PMR.to_offset(), 0x4);
    assert_eq!(GICCRegisters::IAR.to_offset(), 0xC);
    assert_eq!(GICCRegisters::EOIR.to_offset(), 0x10);
}

#[test]
fn valid_irq_bounds() {
    assert!(!GICv2::is_valid_irq(0));
    assert!(!GICv2::is_valid_irq(15));
    assert!(GICv2::is_valid_irq(16));
    assert!(GICv2::is_valid_irq(1019));
    assert!(!GICv2::is_valid_irq(1020));
    assert!(!GICv2::is_valid_irq(u32::MAX));
    assert!(GICv2::is_valid_irq_wrapper(40));
}

#[test]
fn validate_irq_lists() {
    assert!(validate_irqs_for_current_irq_arch(&[16, 32, 1019]));
    assert!(validate_irqs_for_current_irq_arch(&[]));
    assert!(!validate_irqs_for_current_irq_arch(&[40, 3]));
}

#[test]
fn trigger_and_priority_mappings() {
    assert_eq!(GICTriggerMapping::Level.to_bit_value(), 0b00);
    assert_eq!(GICTriggerMapping::Edge.to_bit_value(), 0b10);
    assert_eq!(GICTriggerMapping::from(InterruptTrigger::Edge), GICTriggerMapping::Edge);
    assert_eq!(GICTriggerMapping::from(InterruptTrigger::Level), GICTriggerMapping::Level);
    assert_eq!(GICInterruptPriority::from(InterruptPriority(0xa0)), GICInterruptPriority(0xa0));
}

#[test]
fn byte_register_update_replaces_one_byte() {
    let update = GICDRegisters::IPRIORITYR.write_interrupt_byte_register(33, 0xa0);
    assert_eq!(update.offset, 0x400 + 32);
    assert_eq!(update.keep, 0xffff_00ff);
    assert_eq!(update.set, 0x0000_a000);
    assert_eq!(update.apply(0xffff_ffff), 0xffff_a0ff);
    assert_eq!(update.apply(0x1234_5678), 0x1234_a078);
}

#[test]
fn bit_register_write_sets_one_bit() {
    let write = GICDRegisters::ICENABLER.write_interrupt_bit(33);
    assert_eq!(
        write,
        RegisterWrite { block: GicRegisterBlock::Distributor, offset: 0x184, value: 0b10 }
    );
    let write = GICDRegisters::ISENABLER.write_interrupt_bit(31);
    assert_eq!(write.offset, 0x100);
    assert_eq!(write.value, 1 << 31);
}

#[test]
fn two_bit_register_update_replaces_one_field() {
    let update = GICDRegisters::ICFGR.write_interrupt_two_bit_register(35, 0b10);
    assert_eq!(update.offset, 0xC00 + 8);
    assert_eq!(update.apply(0), 0b10 << 6);
    assert_eq!(update.apply(u32::MAX), u32::MAX & !(0b01 << 6));
    // only the low two bits of the value are used
    let update = GICDRegisters::ICFGR.write_interrupt_two_bit_register(16, 0b111);
    assert_eq!(update.apply(0), 0b11);
}

#[test]
fn mask_and_unmask_write_enable_bits() {
    assert_eq!(GICv2::mask(40), GICDRegisters::ICENABLER.write_interrupt_bit(40));
    assert_eq!(GICv2::unmask(40), GICDRegisters::ISENABLER.write_interrupt_bit(40));
    assert_eq!(GICv2::mask(40).offset, 0x184);
    assert_eq!(GICv2::unmask(40).value, 1 << 8);
}

#[test]
fn configure_writes_trigger_priority_and_target() {
    let updates = GICv2::configure(50, InterruptTrigger::Edge, InterruptPriority(0x80));
    assert_eq!(updates[0], GICDRegisters::ICFGR.write_interrupt_two_bit_register(50, 0b10));
    assert_eq!(updates[1], GICDRegisters::IPRIORITYR.write_interrupt_byte_register(50, 0x80));
    assert_eq!(updates[2], GICDRegisters::ITARGETSR.write_interrupt_byte_register(50, 0x01));
    assert_eq!(
        updates[2],
        RegisterUpdate { offset: 0x800 + 48, keep: 0xff00_ffff, set: 0x0001_0000 }
    );
}

#[test]
fn line_counts() {
    assert_eq!(line_count(0), 32);
    assert_eq!(line_count(2), 96);
    assert_eq!(line_count(0xffff_ffe5), 192);
    // 32 * 32 = 1024 is clamped below the special interrupt IDs
    assert_eq!(line_count(0x1f), 1020);
}

#[test]
fn teardown_clears_every_line_then_the_controls() {
    let writes = GICv2::teardown(18);
    assert_eq!(writes.len(), 8);
    assert_eq!(writes[0], GICDRegisters::ICENABLER.write_interrupt_bit(16));
    assert_eq!(writes[1], GICDRegisters::ICPENDR.write_interrupt_bit(16));
    assert_eq!(writes[2], GICDRegisters::ICACTIVER.write_interrupt_bit(16));
    assert_eq!(writes[5], GICDRegisters::ICACTIVER.write_interrupt_bit(17));
    assert_eq!(
        writes[6],
        RegisterWrite { block: GicRegisterBlock::CpuInterface, offset: 0, value: 0 }
    );
    assert_eq!(
        writes[7],
        RegisterWrite { block: GicRegisterBlock::Distributor, offset: 0, value: 0 }
    );
}

#[test]
fn teardown_without_device_lines() {
    let writes = GICv2::teardown(10);
    assert_eq!(writes.len(), 2);
    assert_eq!(GICv2::teardown(1020).len(), 3 * (1020 - 16) + 2);
}

#[test]
fn byte_register_of_a_software_interrupt() {
    let update = GICDRegisters::IPRIORITYR.write_interrupt_byte_register(5, 0xAB);
    assert_eq!(update.offset, 0x404);
    assert_eq!(update.apply(0x1122_3344), 0x1122_AB44);
    let write = GICv2::mask(3);
    assert_eq!(write.offset, 0x180);
    assert_eq!(write.value, 1 << 3);
}
