use uranos_core::memory_controler::{
    kernel_memory_layout, AccessPermissions, AttributeFields, Granule, MemAttributes,
    RangeDescriptor, Translation, BLOCK_2MIB, PAGE_4KIB,
};
use uranos_core::mmu::{TranslationError, TranslationTable};
use uranos_core::{pages_containing, to_kernel_space_address, to_user_space_address, KERNEL_OFFSET};

fn descriptor(
    name: &'static str,
    start: usize,
    end: usize,
    translation: Translation,
    executable: bool,
) -> RangeDescriptor {
    RangeDescriptor::new(
        name,
        start,
        end,
        translation,
        AttributeFields::new(
            MemAttributes::CacheableDRAM,
            AccessPermissions::KernelReadWrite,
            executable,
        ),
        Granule::Page4KiB,
    )
}

#[test]
fn granule_sizes() {
    assert_eq!(Granule::Page4KiB.size(), PAGE_4KIB);
    assert_eq!(Granule::Block2MiB.size(), BLOCK_2MIB);
    assert_eq!(Granule::Block1GiB.size(), 0x4000_0000);
}

#[test]
fn default_attributes_are_kernel_read_write_data() {
    let a = AttributeFields::default();
    assert!(matches!(a.mem_attributes, MemAttributes::CacheableDRAM));
    assert!(matches!(a.acc_perms, AccessPermissions::KernelReadWrite));
    assert!(!a.executable);
}

#[test]
fn identity_range_translates_every_address_to_itself() {
    let layout = vec![descriptor("code", 0x1000, 0x3000, Translation::Identity, true)];
    let table = TranslationTable::init(&layout).expect("layout must install");
    for va in [0x1000usize, 0x1234, 0x2FFF] {
        let (pa, attrs) = table.lookup(va).expect("address must be mapped");
        assert_eq!(pa, va);
        assert!(attrs.executable);
        assert!(matches!(attrs.acc_perms, AccessPermissions::KernelReadWrite));
    }
}

#[test]
fn offset_range_translates_by_subtracting_the_offset() {
    let layout = vec![
        descriptor("low", 0x1000, 0x2000, Translation::Identity, false),
        descriptor("high", 0x10_0000, 0x10_1000, Translation::Offset(0xF_0000), false),
    ];
    let table = TranslationTable::init(&layout).expect("layout must install");
    let (pa, _) = table.lookup(0x10_0000).unwrap();
    assert_eq!(pa, 0x1_0000);
    let (pa, _) = table.lookup(0x10_0800).unwrap();
    assert_eq!(pa, 0x1_0800);
    assert_eq!(table.lookup(0x20_0000), None);
}

#[test]
fn overlapping_descriptors_fail_the_installation() {
    let layout = vec![
        descriptor("one", 0x1000, 0x3000, Translation::Identity, false),
        descriptor("two", 0x2000, 0x4000, Translation::Identity, false),
    ];
    match TranslationTable::init(&layout) {
        Err(TranslationError::OverlappingRanges) => {},
        other => panic!("overlap must be refused, got {other:?}"),
    }
}

#[test]
fn ranges_touching_only_at_a_page_boundary_are_disjoint() {
    let layout = vec![
        descriptor("one", 0x1000, 0x2000, Translation::Identity, false),
        descriptor("two", 0x2000, 0x3000, Translation::Identity, false),
    ];
    assert!(TranslationTable::init(&layout).is_ok());
}

#[test]
fn an_empty_range_is_invalid() {
    let layout = vec![descriptor("empty", 0x2000, 0x2000, Translation::Identity, false)];
    match TranslationTable::init(&layout) {
        Err(TranslationError::InvalidRange) => {},
        other => panic!("an empty range must be refused, got {other:?}"),
    }
}

#[test]
fn an_offset_below_physical_zero_is_invalid() {
    let layout = vec![descriptor("deep", 0x1000, 0x2000, Translation::Offset(0x2000), false)];
    match TranslationTable::init(&layout) {
        Err(TranslationError::InvalidRange) => {},
        other => panic!("an underflowing offset must be refused, got {other:?}"),
    }
}

#[test]
fn map_kernel_memory_adds_one_mapping() {
    let layout = vec![descriptor("low", 0x1000, 0x2000, Translation::Identity, false)];
    let mut table = TranslationTable::init(&layout).unwrap();
    table
        .map_kernel_memory("moved_string", 0x1_0000_3000, 0x1_0000_4000, 0x3000, true)
        .expect("fresh range must map");
    let (pa, attrs) = table.lookup(0x1_0000_3040).unwrap();
    assert_eq!(pa, 0x3040);
    assert!(matches!(attrs.acc_perms, AccessPermissions::KernelReadWrite));
    // A second mapping over the same range collides.
    match table.map_kernel_memory("again", 0x1_0000_3000, 0x1_0000_4000, 0x3000, false) {
        Err(TranslationError::OverlappingRanges) => {},
        other => panic!("colliding mapping must be refused, got {other:?}"),
    }
}

#[test]
fn map_kernel_memory_rejects_a_virtual_base_below_the_physical_one() {
    let mut table = TranslationTable::init(&vec![]).unwrap();
    match table.map_kernel_memory("backwards", 0x1000, 0x2000, 0x9000, true) {
        Err(TranslationError::InvalidRange) => {},
        other => panic!("an upward offset must be refused, got {other:?}"),
    }
}

#[test]
fn unaligned_ranges_are_widened_to_their_granule() {
    let layout = vec![descriptor("odd", 0x1234, 0x1FF0, Translation::Identity, false)];
    let table = TranslationTable::init(&layout).unwrap();
    // Addresses of the same pages, outside the named range, are mapped too.
    assert!(table.lookup(0x1000).is_some());
    assert!(table.lookup(0x1FFF).is_some());
    assert!(table.lookup(0x0FFF).is_none());
    assert!(table.lookup(0x2000).is_none());
}

#[test]
fn the_static_layout_has_five_disjoint_ranges_and_installs() {
    let layout = kernel_memory_layout(
        0x80_000, 0x80_000, 0x100_000, 0x180_000, 0x1000_0000, 0x3F00_0000, 0x4000_0000,
    );
    assert_eq!(layout.len(), 5);
    assert_eq!(layout[0].name, "Init Stack");
    assert_eq!(layout[1].name, "Static Kernel Data and Code");
    assert_eq!(layout[2].name, "Mutable Kernel Data");
    assert_eq!(layout[3].name, "Initial Kernel Heap");
    assert_eq!(layout[4].name, "MMIO devices");
    let table = TranslationTable::init(&layout).expect("the boot layout must install");
    let (pa, attrs) = table.lookup(0x90_000).unwrap();
    assert_eq!(pa, 0x90_000);
    assert!(attrs.executable);
}

#[test]
fn kernel_space_addressing_sets_and_clears_the_high_bits() {
    assert_eq!(to_kernel_space_address(0x1234), KERNEL_OFFSET | 0x1234);
    assert_eq!(to_user_space_address(KERNEL_OFFSET | 0x1234), 0x1234);
    assert_eq!(to_user_space_address(to_kernel_space_address(0xABCD_EF00)), 0xABCD_EF00);
}

#[test]
fn pages_containing_covers_the_bytes_with_page_granularity() {
    let (start, end) = pages_containing(0x1234, 0x100);
    assert_eq!(start, 0x1000);
    assert_eq!(end, 0x2100);
    let (start, end) = pages_containing(0x2000, 0x10);
    // An aligned pointer is treated as belonging to the page before it.
    assert_eq!(start, 0x1000);
    assert_eq!(end, 0x2010);
}
