use rv6::mm::addr::PhysAddr;
use rv6::mm::allocator::{AllocatorError, BitmapAllocator, BumpAllocator, BumpFrameAllocator, Frame, FrameAllocator};

const PAGE_SIZE: usize = 4096;
const NUM_PAGES: usize = 32;
const MEM_SIZE: usize = NUM_PAGES * PAGE_SIZE;
// Page-aligned base of the managed memory.
const CHUNK: usize = 0x8040_0000;

fn create_allocator() -> (usize, BitmapAllocator<PAGE_SIZE>) {
    (
        CHUNK,
        BitmapAllocator::init(PhysAddr::new_unchecked(CHUNK), PhysAddr::new_unchecked(CHUNK + MEM_SIZE))
            .unwrap(),
    )
}

fn assert_allocated<const N: usize>(allocator: &BitmapAllocator<N>, start: usize, count: usize) {
    for i in start..start + count - 1 {
        assert_eq!(allocator.page_state(i), 1);
    }
    assert_eq!(allocator.page_state(start + count - 1), 2);
}

fn assert_free<const N: usize>(allocator: &BitmapAllocator<N>, start: usize, count: usize) {
    for i in start..start + count {
        assert_eq!(allocator.page_state(i), 0);
    }
}

#[test]
fn frame_bitmap_construction() {
    let (base, allocator) = create_allocator();

    assert_eq!(allocator.num_pages(), NUM_PAGES - 1);
    assert_eq!(allocator.base_addr().data(), base + PAGE_SIZE);

    for i in 0..NUM_PAGES - 1 {
        assert_eq!(allocator.page_state(i), 0);
    }
}

#[test]
fn frame_bitmap_invalid_addresses() {
    for t in &[(1, PAGE_SIZE), (PAGE_SIZE, 2 * PAGE_SIZE - 1), (1, PAGE_SIZE - 1)] {
        assert!(matches!(
            BitmapAllocator::<PAGE_SIZE>::init(PhysAddr::new_unchecked(t.0), PhysAddr::new_unchecked(t.1)),
            Err(AllocatorError::UnalignedAddress)
        ));
    }
}

#[test]
fn frame_bitmap_invalid_page_size() {
    let (a, b) = (PhysAddr::new_unchecked(0), PhysAddr::new_unchecked(PAGE_SIZE));
    assert!(matches!(BitmapAllocator::<0>::init(a, b), Err(AllocatorError::InvalidPageSize)));
    assert!(matches!(BitmapAllocator::<3>::init(a, b), Err(AllocatorError::InvalidPageSize)));
    assert!(matches!(BitmapAllocator::<24>::init(a, b), Err(AllocatorError::InvalidPageSize)));
    assert!(matches!(
        BitmapAllocator::<{ PAGE_SIZE - 1 }>::init(a, b),
        Err(AllocatorError::InvalidPageSize)
    ));
    assert!(matches!(
        BitmapAllocator::<{ PAGE_SIZE + 1 }>::init(a, b),
        Err(AllocatorError::InvalidPageSize)
    ));
}

#[test]
fn frame_bitmap_single_page() {
    let (_, mut allocator) = create_allocator();

    let ptr = allocator.allocate(1).expect("allocation failed");
    assert_allocated(&allocator, 0, 1);

    allocator.free(ptr);
    assert_free(&allocator, 0, 1);
}

#[test]
fn frame_bitmap_multiple_pages() {
    let (_, mut allocator) = create_allocator();

    let ptr = allocator.allocate(4).expect("allocation failed");
    assert_allocated(&allocator, 0, 4);

    allocator.free(ptr);
    assert_free(&allocator, 0, 4);
}

#[test]
fn frame_bitmap_multiple_allocations() {
    let (_, mut allocator) = create_allocator();

    let p1 = allocator.allocate(4).expect("allocation #1 failed");
    let p2 = allocator.allocate(1).expect("allocation #2 failed");
    let p3 = allocator.allocate(3).expect("allocation #3 failed");

    assert_allocated(&allocator, 0, 4);
    assert_allocated(&allocator, 4, 1);
    assert_allocated(&allocator, 5, 3);

    allocator.free(p1);
    assert_free(&allocator, 0, 4);
    assert_allocated(&allocator, 4, 1);
    assert_allocated(&allocator, 5, 3);

    allocator.free(p3);
    assert_free(&allocator, 0, 4);
    assert_allocated(&allocator, 4, 1);
    assert_free(&allocator, 5, 3);

    allocator.free(p2);
    assert_free(&allocator, 0, NUM_PAGES - 1);
}

#[test]
fn frame_bitmap_reuse_pages() {
    let (_, mut allocator) = create_allocator();

    let p1 = allocator.allocate(4).expect("allocation #1 failed");
    let p2 = allocator.allocate(2).expect("allocation #2 failed");

    allocator.free(p1);

    let p1 = allocator.allocate(2).expect("re-allocation failed");

    assert_allocated(&allocator, 0, 2);
    assert_free(&allocator, 2, 2);
    assert_allocated(&allocator, 4, 2);

    allocator.free(p1);
    allocator.free(p2);

    assert_free(&allocator, 0, NUM_PAGES - 1);
}

#[test]
fn frame_bitmap_big_allocation() {
    let (_, mut allocator) = create_allocator();

    assert!(allocator.allocate(NUM_PAGES).is_none());
    assert!(allocator.allocate(2 * NUM_PAGES).is_none());

    allocator.allocate(1).expect("allocation failed");
}

#[test]
fn frame_bitmap_spare_allocation() {
    let (_, mut allocator) = create_allocator();

    let _ = allocator.allocate((NUM_PAGES - 1) / 3).unwrap();
    let p = allocator.allocate((NUM_PAGES - 1) / 3).unwrap();
    let _ = allocator.allocate((NUM_PAGES - 1) / 3).unwrap();

    allocator.free(p);

    assert!(
        allocator.allocate(NUM_PAGES / 2).is_none(),
        "requested memory shou  ld not have fit"
    );
}

#[test]
fn zero_count_allocation() {
    let (_, mut allocator) = create_allocator();
    assert!(allocator.allocate(0).is_none());
}

#[test]
fn frame_bitmap_frame_addresses() {
    let (base, mut allocator) = create_allocator();
    let f1 = allocator.allocate(2).unwrap();
    let f2 = allocator.allocate(1).unwrap();
    assert_eq!(f1.phys().as_usize(), base + PAGE_SIZE);
    assert_eq!(f2.phys().as_usize(), base + 3 * PAGE_SIZE);
    allocator.free(Frame::unmapped(f1.phys()));
    assert_free(&allocator, 0, 2);
    assert_allocated(&allocator, 2, 1);
}

#[test]
fn bump_frame_allocator_hands_out_consecutive_frames() {
    let mut bump =
        BumpFrameAllocator::<PAGE_SIZE>::new(PhysAddr::new_unchecked(0x1000), PhysAddr::new_unchecked(0x5000));
    let f1 = bump.allocate(2).unwrap();
    let f2 = bump.allocate(1).unwrap();
    assert_eq!(f1.phys().as_usize(), 0x1000);
    assert_eq!(f2.phys().as_usize(), 0x3000);
    assert!(bump.allocate(2).is_none());
    let f3 = bump.allocate(1).unwrap();
    assert_eq!(f3.phys().as_usize(), 0x4000);
    bump.free(f3);
    assert!(bump.allocate(1).is_none());
}

#[test]
fn bump_allocator_grows_down_and_resets() {
    let mut bump = BumpAllocator::new(0x1000, 0x2000);
    let a = bump.allocate(0x100, 0x10);
    assert_eq!(a, 0x1f00);
    let b = bump.allocate(0x10, 0x100);
    assert_eq!(b, 0x1e00);
    assert_eq!(bump.allocate(0x2000, 1), 0);
    assert_eq!(bump.allocate(0xe01, 1), 0);
    assert_eq!(bump.allocations(), 2);
    bump.deallocate();
    bump.deallocate();
    assert_eq!(bump.allocations(), 0);
    assert_eq!(bump.allocate(0x1000, 0x1000), 0x1000);
}
