use daedalus_caps::errors::DaedalusCapErrors;
use daedalus_caps::memory::aarch64::{
    cache_line_bytes, current_exception_level, flush_span, hcr_without_vhe,
    sctlr_with_instruction_cache, Aarch64, DMINLINE_SHIFT, IMINLINE_SHIFT,
};
use daedalus_caps::memory::arch::{AccessWidth, MemoryArch};
use daedalus_caps::memory::{
    overlaps_daedalus, DaedalusExtent, InvalidRegionPermissionBitsError, Region, RegionMemKind,
    RegionPermissions,
};

const DAEDALUS: DaedalusExtent = DaedalusExtent { start: 0x1000, end: 0x2000 };

#[test]
fn access_width_bytes_and_max_values() {
    assert_eq!(AccessWidth::U8.bytes(), 1);
    assert_eq!(AccessWidth::U16.bytes(), 2);
    assert_eq!(AccessWidth::U32.bytes(), 4);
    assert_eq!(AccessWidth::U64.bytes(), 8);
    assert_eq!(AccessWidth::U8.max_value(), 0xff);
    assert_eq!(AccessWidth::U16.max_value(), 0xffff);
    assert_eq!(AccessWidth::U32.max_value(), 0xffff_ffff);
    assert_eq!(AccessWidth::U64.max_value(), u64::MAX);
}

#[test]
fn access_width_from_bytes_roundtrips() {
    for width in [AccessWidth::U8, AccessWidth::U16, AccessWidth::U32, AccessWidth::U64] {
        assert_eq!(AccessWidth::from_bytes(width.bytes()), Ok(width));
    }
}

#[test]
fn access_width_from_bytes_rejects_other_widths() {
    assert_eq!(
        AccessWidth::from_bytes(3),
        Err(DaedalusCapErrors::InvalidAccessWidth { width: 3 })
    );
    assert_eq!(
        AccessWidth::from_bytes(0),
        Err(DaedalusCapErrors::InvalidAccessWidth { width: 0 })
    );
    assert_eq!(
        AccessWidth::from_bytes(16),
        Err(DaedalusCapErrors::InvalidAccessWidth { width: 16 })
    );
}

#[test]
fn permissions_contain_their_subsets() {
    let rw = RegionPermissions(0b011);
    assert!(rw.contains(RegionPermissions::r()));
    assert!(rw.contains(RegionPermissions::w()));
    assert!(!rw.contains(RegionPermissions::x()));
    assert!(rw.contains(RegionPermissions(0)));
    assert!(!RegionPermissions::r().contains(rw));
}

#[test]
fn permissions_from_bits_rejects_unknown_bits() {
    assert_eq!(RegionPermissions::from_bits(0b101), Ok(RegionPermissions(0b101)));
    assert_eq!(
        RegionPermissions::from_bits(0b1001),
        Err(InvalidRegionPermissionBitsError(0b1001))
    );
    assert_eq!(
        DaedalusCapErrors::from(InvalidRegionPermissionBitsError(8)),
        DaedalusCapErrors::InvalidRegionPermission(InvalidRegionPermissionBitsError(8))
    );
}

#[test]
fn overlap_with_daedalus() {
    assert!(overlaps_daedalus(0x800, 0x801, DAEDALUS));
    assert!(!overlaps_daedalus(0x800, 0x800, DAEDALUS));
    assert!(overlaps_daedalus(0x1fff, 1, DAEDALUS));
    assert!(!overlaps_daedalus(0x2000, 0x100, DAEDALUS));
    // The end saturates at the top of the address space.
    assert!(overlaps_daedalus(0x1800, usize::MAX, DAEDALUS));
}

#[test]
fn region_new_rejects_overflow() {
    let result = Region::new(usize::MAX, 2, RegionPermissions::r(), RegionMemKind::Memory, DAEDALUS);
    assert_eq!(
        result.err(),
        Some(DaedalusCapErrors::RegionOverflow { base: usize::MAX, len: 2 })
    );
}

#[test]
fn region_new_rejects_writable_over_daedalus() {
    let result = Region::new(0x1800, 0x100, RegionPermissions(0b011), RegionMemKind::Memory, DAEDALUS);
    assert_eq!(
        result.err(),
        Some(DaedalusCapErrors::WritableOverDaedalus { base: 0x1800, len: 0x100 })
    );
}

#[test]
fn region_new_allows_read_only_over_daedalus() {
    let region =
        Region::new(0x1800, 0x100, RegionPermissions::r(), RegionMemKind::Device, DAEDALUS).unwrap();
    assert_eq!(region.base(), 0x1800);
    assert_eq!(region.len(), 0x100);
    assert_eq!(region.perms(), RegionPermissions::r());
    assert_eq!(region.kind(), RegionMemKind::Device);
}

fn sample_region() -> Region {
    Region::new(0x4000, 0x100, RegionPermissions(0b011), RegionMemKind::Memory, DAEDALUS).unwrap()
}

#[test]
fn resolve_gives_the_address() {
    assert_eq!(sample_region().resolve(0x10, 4, RegionPermissions::r()), Ok(0x4010));
    assert_eq!(sample_region().resolve(0xf8, 8, RegionPermissions(0b011)), Ok(0x40f8));
    // Zero-width accesses need no alignment.
    assert_eq!(sample_region().resolve(3, 0, RegionPermissions::w()), Ok(0x4003));
}

#[test]
fn resolve_checks_permissions_first() {
    assert_eq!(
        sample_region().resolve(usize::MAX, 3, RegionPermissions::x()),
        Err(DaedalusCapErrors::PermissionDenied {
            need: RegionPermissions::x(),
            held: RegionPermissions(0b011),
        })
    );
}

#[test]
fn resolve_rejects_overflowing_access() {
    assert_eq!(
        sample_region().resolve(usize::MAX, 2, RegionPermissions::r()),
        Err(DaedalusCapErrors::AccessOverflow { offset: usize::MAX, width: 2 })
    );
}

#[test]
fn resolve_rejects_access_past_the_region() {
    assert_eq!(
        sample_region().resolve(0xfc, 8, RegionPermissions::r()),
        Err(DaedalusCapErrors::OutOfRegion { offset: 0xfc, width: 8, len: 0x100 })
    );
}

#[test]
fn resolve_rejects_misaligned_access() {
    assert_eq!(
        sample_region().resolve(2, 4, RegionPermissions::r()),
        Err(DaedalusCapErrors::Misaligned { address: 0x4002, width: 4 })
    );
}

#[test]
fn write_stores_little_endian_and_read_gives_it_back() {
    let mut memory = vec![0u8; 16];
    Aarch64::write(&mut memory, 4, AccessWidth::U32, 0x1122_3344);
    assert_eq!(&memory[4..8], &[0x44, 0x33, 0x22, 0x11]);
    assert_eq!(Aarch64::read(&memory, 4, AccessWidth::U32), 0x1122_3344);
    assert_eq!(Aarch64::read(&memory, 4, AccessWidth::U16), 0x3344);
    assert_eq!(Aarch64::read(&memory, 6, AccessWidth::U8), 0x22);
    assert_eq!(Aarch64::read(&memory, 0, AccessWidth::U64), 0x1122_3344_0000_0000);
}

#[test]
fn write_cuts_the_value_to_its_width() {
    let mut memory = vec![0xaau8; 8];
    Aarch64::write(&mut memory, 2, AccessWidth::U8, 0x1ff);
    assert_eq!(memory, vec![0xaa, 0xaa, 0xff, 0xaa, 0xaa, 0xaa, 0xaa, 0xaa]);
    Aarch64::write(&mut memory, 0, AccessWidth::U64, u64::MAX);
    assert_eq!(Aarch64::read(&memory, 0, AccessWidth::U64), u64::MAX);
}

#[test]
fn copy_forward_overlap_keeps_source_bytes() {
    let mut memory: Vec<u8> = (0..10).collect();
    // destination before source: copied forwards
    Aarch64::copy(&mut memory, 2, 0, 5);
    assert_eq!(memory, vec![2, 3, 4, 5, 6, 5, 6, 7, 8, 9]);
}

#[test]
fn copy_backward_overlap_keeps_source_bytes() {
    let mut memory: Vec<u8> = (0..10).collect();
    // destination inside the source: copied backwards
    Aarch64::copy(&mut memory, 0, 2, 5);
    assert_eq!(memory, vec![0, 1, 0, 1, 2, 3, 4, 7, 8, 9]);
}

#[test]
fn copy_disjoint_and_empty() {
    let mut memory: Vec<u8> = (0..8).collect();
    Aarch64::copy(&mut memory, 0, 5, 3);
    assert_eq!(memory, vec![0, 1, 2, 3, 4, 0, 1, 2]);
    Aarch64::copy(&mut memory, 1, 3, 0);
    assert_eq!(memory, vec![0, 1, 2, 3, 4, 0, 1, 2]);
}

#[test]
fn fill_sets_the_range_only() {
    let mut memory = vec![0u8; 6];
    Aarch64::fill(&mut memory, 1, 0x67, 3);
    assert_eq!(memory, vec![0, 0x67, 0x67, 0x67, 0, 0]);
}

#[test]
fn cache_line_sizes() {
    // DMinLine = 4 (64 bytes), IMinLine = 3 (32 bytes)
    let ctr: u64 = (4 << 16) | 3;
    assert_eq!(cache_line_bytes(ctr, DMINLINE_SHIFT), 64);
    assert_eq!(cache_line_bytes(ctr, IMINLINE_SHIFT), 32);
    assert_eq!(cache_line_bytes(0xf, IMINLINE_SHIFT), 4 << 15);
}

#[test]
fn flush_span_rounds_to_whole_lines() {
    let ctr: u64 = (4 << 16) | 3;
    let span = flush_span(ctr, 0x1010, 0x40);
    assert_eq!(span.data_line, 64);
    assert_eq!(span.data_start, 0x1000);
    assert_eq!(span.data_end, 0x1080);
    assert_eq!(span.instruction_line, 32);
    assert_eq!(span.instruction_start, 0x1000);
    assert_eq!(span.instruction_end, 0x1060);
}

#[test]
fn flush_span_of_aligned_range_is_exact() {
    let span = flush_span(0, 0x100, 0x10);
    assert_eq!(span.data_line, 4);
    assert_eq!(span.data_start, 0x100);
    assert_eq!(span.data_end, 0x110);
}

#[test]
fn exception_level_and_system_registers() {
    assert_eq!(current_exception_level(0b1000), 2);
    assert_eq!(current_exception_level(0b0100), 1);
    assert_eq!(current_exception_level(0xffff_fff0 | 0b1100), 3);
    assert_eq!(hcr_without_vhe(u64::MAX), u64::MAX & !((1 << 34) | (1 << 27)));
    assert_eq!(hcr_without_vhe(0x8000_0001), 0x8000_0001);
    assert_eq!(sctlr_with_instruction_cache(0x5), 0x1005);
    assert_eq!(sctlr_with_instruction_cache(0x1000), 0x1000);
}
