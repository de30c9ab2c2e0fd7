use rv6::riscv::addr::PhysAddr;
use rv6::kmm::allocator::{AllocatorError, BitmapAllocator, FrameAllocator};

const PAGE_SIZE: u64 = 4096;
const NUM_PAGES: u64 = 32;
const MEM_SIZE: u64 = NUM_PAGES * PAGE_SIZE;
// Page-aligned base of the managed memory.
const CHUNK: u64 = 0x8020_0000;

fn create_allocator() -> (u64, BitmapAllocator<u64, PAGE_SIZE>) {
    (CHUNK, BitmapAllocator::init(CHUNK, CHUNK + MEM_SIZE).unwrap())
}

fn assert_allocated<const N: u64>(allocator: &BitmapAllocator<u64, N>, start: u64, count: u64) {
    for i in start..start + count - 1 {
        assert_eq!(allocator.page_state(i as usize), 1);
    }
    assert_eq!(allocator.page_state((start + count - 1) as usize), 2);
}

fn assert_free<const N: u64>(allocator: &BitmapAllocator<u64, N>, start: u64, count: u64) {
    for i in start..start + count {
        assert_eq!(allocator.page_state(i as usize), 0);
    }
}

#[test]
fn bitmap_construction() {
    let (base, allocator) = create_allocator();

    assert_eq!(allocator.num_pages(), NUM_PAGES - 1);
    assert_eq!(allocator.base_addr(), base + PAGE_SIZE);

    for i in 0..NUM_PAGES - 1 {
        assert_eq!(allocator.page_state(i as usize), 0);
    }
}

#[test]
fn bitmap_invalid_addresses() {
    for t in &[(1, PAGE_SIZE), (PAGE_SIZE, 2 * PAGE_SIZE - 1), (1, PAGE_SIZE - 1)] {
        assert!(matches!(
            BitmapAllocator::<_, PAGE_SIZE>::init(t.0, t.1),
            Err(AllocatorError::UnalignedAddress)
        ));
    }
}

#[test]
fn bitmap_invalid_page_size() {
    assert!(matches!(
        BitmapAllocator::<_, 0>::init(0u64, PAGE_SIZE),
        Err(AllocatorError::InvalidPageSize)
    ));

    assert!(matches!(
        BitmapAllocator::<_, 3>::init(0u64, PAGE_SIZE),
        Err(AllocatorError::InvalidPageSize)
    ));

    assert!(matches!(
        BitmapAllocator::<_, 24>::init(0u64, PAGE_SIZE),
        Err(AllocatorError::InvalidPageSize)
    ));

    assert!(matches!(
        BitmapAllocator::<_, { PAGE_SIZE - 1 }>::init(0u64, PAGE_SIZE),
        Err(AllocatorError::InvalidPageSize)
    ));

    assert!(matches!(
        BitmapAllocator::<_, { PAGE_SIZE + 2 }>::init(0u64, PAGE_SIZE),
        Err(AllocatorError::InvalidPageSize)
    ));
}

#[test]
fn bitmap_single_page() {
    let (_, mut allocator) = create_allocator();

    let ptr = allocator.allocate(1).expect("allocation failed");
    assert_allocated(&allocator, 0, 1);

    allocator.free(ptr);
    assert_free(&allocator, 0, 1);
}

#[test]
fn bitmap_multiple_pages() {
    let (_, mut allocator) = create_allocator();

    let ptr = allocator.allocate(4).expect("allocation failed");
    assert_allocated(&allocator, 0, 4);

    allocator.free(ptr);
    assert_free(&allocator, 0, 4);
}

#[test]
fn bitmap_multiple_allocations() {
    let (_, mut allocator) = create_allocator();

    let p1 = allocator.allocate(4).expect("allocation #1 failed");
    let p2 = allocator.allocate(1).expect("allocation #2 failed");
    let p3 = allocator.allocate(3).expect("allocation #3 failed");

    assert_allocated(&allocator, 0, 4);
    assert_allocated(&allocator, 4, 1);
    assert_allocated(&allocator, 5, 3);

    allocator.free(p1);
    assert_free(&allocator, 0, 4);
    assert_allocated(&allocator, 4, 1);
    assert_allocated(&allocator, 5, 3);

    allocator.free(p3);
    assert_free(&allocator, 0, 4);
    assert_allocated(&allocator, 4, 1);
    assert_free(&allocator, 5, 3);

    allocator.free(p2);
    assert_free(&allocator, 0, NUM_PAGES - 1);
}

#[test]
fn bitmap_reuse_pages() {
    let (_, mut allocator) = create_allocator();

    let p1 = allocator.allocate(4).expect("allocation #1 failed");
    let p2 = allocator.allocate(2).expect("allocation #2 failed");

    allocator.free(p1);

    let p1 = allocator.allocate(2).expect("re-allocation failed");

    assert_allocated(&allocator, 0, 2);
    assert_free(&allocator, 2, 2);
    assert_allocated(&allocator, 4, 2);

    allocator.free(p1);
    allocator.free(p2);

    assert_free(&allocator, 0, NUM_PAGES - 1);
}

#[test]
fn bitmap_big_allocation() {
    let (_, mut allocator) = create_allocator();

    assert_eq!(allocator.allocate(NUM_PAGES as usize), None);
    assert_eq!(allocator.allocate(2 * NUM_PAGES as usize), None);

    allocator.allocate(1).expect("allocation failed");
}

#[test]
fn bitmap_spare_allocation() {
    let (_, mut allocator) = create_allocator();

    let _ = allocator.allocate((NUM_PAGES - 1) as usize / 3).unwrap();
    let p = allocator.allocate((NUM_PAGES - 1) as usize / 3).unwrap();
    let _ = allocator.allocate((NUM_PAGES - 1) as usize / 3).unwrap();

    allocator.free(p);

    assert_eq!(
        allocator.allocate(NUM_PAGES as usize / 2),
        None,
        "requested memory shou  ld not have fit"
    );
}

#[test]
fn bitmap_addresses_follow_pages() {
    let (base, mut allocator) = create_allocator();
    let p1 = allocator.allocate(3).unwrap();
    let p2 = allocator.allocate(2).unwrap();
    assert_eq!(p1, base + PAGE_SIZE);
    assert_eq!(p2, base + 4 * PAGE_SIZE);
}

#[test]
fn bitmap_zero_count_allocates_nothing() {
    let (_base, mut allocator) = create_allocator();
    let _ = allocator.allocate(2).unwrap();
    assert_eq!(allocator.allocate(0), None);
    assert_free(&allocator, 2, 1);
}

#[test]
fn bitmap_first_fit_skips_small_holes() {
    let (base, mut allocator) = create_allocator();
    let p1 = allocator.allocate(2).unwrap();
    let _p2 = allocator.allocate(1).unwrap();
    allocator.free(p1);
    // The two-page hole at the start cannot hold three pages.
    let p3 = allocator.allocate(3).unwrap();
    assert_eq!(p3, base + 4 * PAGE_SIZE);
    // But it holds two.
    assert_eq!(allocator.allocate(2), Some(base + PAGE_SIZE));
}

#[test]
fn bitmap_physaddr_addresses() {
    let start = PhysAddr::new(0x8000_0000);
    let end = PhysAddr::new(0x8000_0000 + 8 * PAGE_SIZE);
    let mut allocator = BitmapAllocator::<PhysAddr, PAGE_SIZE>::init(start, end).unwrap();
    assert_eq!(allocator.num_pages(), 7);
    let p = allocator.allocate(2).unwrap();
    assert_eq!(p.data(), 0x8000_0000 + PAGE_SIZE);
    assert!(matches!(
        BitmapAllocator::<PhysAddr, PAGE_SIZE>::init(PhysAddr::new(1), end),
        Err(AllocatorError::UnalignedAddress)
    ));
}
