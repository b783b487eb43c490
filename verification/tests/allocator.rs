use uranos_core::allocator::{
    heap_end, heap_start, Block, SystemAllocator, BLOCK_HEADER_SIZE, SENTINEL_DATA_SIZE,
};

const HEAP_BASE: usize = 0x10_0000;
const HEAP_SIZE: usize = 0x1000;

fn fresh() -> SystemAllocator {
    SystemAllocator::new(HEAP_BASE, HEAP_SIZE)
}

#[test]
fn new_allocator_has_only_the_sentinel() {
    let a = fresh();
    let blocks = a.block_list();
    assert_eq!(blocks.len(), 1);
    assert_eq!(blocks[0].addr, HEAP_BASE);
    assert_eq!(blocks[0].data_size, SENTINEL_DATA_SIZE);
    assert_eq!(heap_start(&a), HEAP_BASE);
    assert_eq!(heap_end(&a), HEAP_BASE + HEAP_SIZE);
}

#[test]
fn block_size_of_counts_header_and_payload() {
    let b = Block { addr: 0x100, data_size: 24 };
    assert_eq!(b.size_of(), BLOCK_HEADER_SIZE + 24);
}

#[test]
fn first_allocation_lands_after_the_sentinel() {
    let mut a = fresh();
    let p = a.allocate(32, 8).expect("first allocation must fit");
    // The sentinel ends at HEAP_BASE + 16 + 10; one header later, aligned up to 8.
    let first_candidate = HEAP_BASE + BLOCK_HEADER_SIZE + SENTINEL_DATA_SIZE + BLOCK_HEADER_SIZE;
    let expected = (first_candidate + 7) / 8 * 8;
    assert_eq!(p, expected);
}

#[test]
fn returned_pointers_are_aligned_and_blocks_disjoint() {
    let mut a = fresh();
    let mut live: Vec<(usize, usize)> = Vec::new();
    for (size, align) in [(5usize, 1usize), (32, 8), (7, 16), (64, 64), (1, 4096)] {
        if let Some(p) = a.allocate(size, align) {
            assert_eq!(p % align, 0, "pointer {p:#x} not aligned to {align}");
            live.push((p, size));
        }
    }
    assert!(live.len() >= 4);
    for (i, &(p1, s1)) in live.iter().enumerate() {
        for &(p2, _s2) in live.iter().skip(i + 1) {
            assert!(p1 + s1 <= p2 || p2 < p1, "allocations overlap: {p1:#x} and {p2:#x}");
        }
    }
    // The bookkeeping agrees: blocks ascend without overlap.
    let blocks = a.block_list();
    for w in blocks.windows(2) {
        assert!(w[0].addr + BLOCK_HEADER_SIZE + w[0].data_size <= w[1].addr);
    }
}

#[test]
fn exhausted_heap_reports_out_of_memory() {
    let mut a = fresh();
    assert_eq!(a.allocate(HEAP_SIZE, 1), None);
    // The failed attempt left the list untouched.
    assert_eq!(a.block_list().len(), 1);
}

#[test]
fn deallocating_an_unknown_pointer_is_a_no_op() {
    let mut a = fresh();
    let p = a.allocate(16, 8).unwrap();
    let before: Vec<(usize, usize)> = a.block_list().iter().map(|b| (b.addr, b.data_size)).collect();
    a.deallocate(p + 1); // never returned by allocate
    a.deallocate(HEAP_BASE); // the sentinel's own address is no payload
    a.deallocate(3); // far below the heap
    let after: Vec<(usize, usize)> = a.block_list().iter().map(|b| (b.addr, b.data_size)).collect();
    assert_eq!(before, after);
}

#[test]
fn releasing_everything_in_scrambled_order_restores_the_sentinel() {
    let mut a = fresh();
    let p1 = a.allocate(10, 1).unwrap();
    let p2 = a.allocate(20, 8).unwrap();
    let p3 = a.allocate(30, 4).unwrap();
    let p4 = a.allocate(40, 16).unwrap();
    assert_eq!(a.block_list().len(), 5);
    for p in [p3, p1, p4, p2] {
        a.deallocate(p);
    }
    let blocks = a.block_list();
    assert_eq!(blocks.len(), 1);
    assert_eq!(blocks[0].addr, HEAP_BASE);
    assert_eq!(blocks[0].data_size, SENTINEL_DATA_SIZE);
    // A fresh allocation lands where the very first one did.
    let q = a.allocate(10, 1).unwrap();
    assert_eq!(q, p1);
}

#[test]
fn freed_space_is_reused_first_fit() {
    let mut a = fresh();
    let p1 = a.allocate(32, 8).unwrap();
    let _p2 = a.allocate(32, 8).unwrap();
    a.deallocate(p1);
    let p3 = a.allocate(8, 8).unwrap();
    assert_eq!(p3, p1, "first fit must reuse the first gap");
}
