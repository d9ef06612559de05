use os_by_rust::allocator::{align_up, BumpAllocator};

const HEAP_START: usize = 0x4444_4444_0000;
const HEAP_SIZE: usize = 100 * 1024;

fn heap() -> BumpAllocator {
    let mut a = BumpAllocator::new();
    a.init(HEAP_START, HEAP_SIZE);
    a
}

#[test]
fn align_up_rounds_to_next_multiple() {
    assert_eq!(align_up(0, 8), 0);
    assert_eq!(align_up(1, 8), 8);
    assert_eq!(align_up(8, 8), 8);
    assert_eq!(align_up(9, 8), 16);
    assert_eq!(align_up(4097, 4096), 8192);
    assert_eq!(align_up(13, 1), 13);
}

#[test]
fn simple_allocation() {
    let mut a = heap();
    let first = a.allocate(8, 8).unwrap();
    let second = a.allocate(8, 8).unwrap();
    assert_eq!(first, HEAP_START);
    assert_eq!(second, HEAP_START + 8);
}

#[test]
fn allocation_is_aligned_and_padded() {
    let mut a = heap();
    assert_eq!(a.allocate(3, 1), Some(HEAP_START));
    let b = a.allocate(16, 16).unwrap();
    assert_eq!(b % 16, 0);
    assert_eq!(b, HEAP_START + 16);
    assert_eq!(a.allocate(1, 4096), Some(HEAP_START + 4096));
}

#[test]
fn large_vec() {
    let mut a = heap();
    let n = 1001usize;
    let block = a.allocate(n * 8, 8).unwrap();
    assert_eq!(block, HEAP_START);
    assert_eq!(a.allocate(1, 1), Some(HEAP_START + n * 8));
}

#[test]
fn allocation_past_heap_end_fails() {
    let mut a = heap();
    assert_eq!(a.allocate(HEAP_SIZE + 1, 1), None);
    assert_eq!(a.allocate(HEAP_SIZE, 1), Some(HEAP_START));
    assert_eq!(a.allocate(1, 1), None);
}

#[test]
fn allocation_overflowing_address_space_fails() {
    let mut a = BumpAllocator::new();
    a.init(usize::MAX - 16, 16);
    assert_eq!(a.allocate(usize::MAX, 1), None);
    assert_eq!(a.allocate(16, 1), Some(usize::MAX - 16));
}

#[test]
fn empty_heap_refuses_everything() {
    let mut a = BumpAllocator::new();
    assert_eq!(a.allocate(1, 1), None);
    assert_eq!(a.allocate(0, 1), Some(0));
}

#[test]
fn many_boxes() {
    let mut a = heap();
    for _ in 0..HEAP_SIZE {
        let x = a.allocate(8, 8).unwrap();
        assert_eq!(x, HEAP_START);
        a.deallocate();
    }
}

#[test]
fn many_boxes_long_lived_exhausts_bump_heap() {
    let mut a = heap();
    let long_lived = a.allocate(8, 8).unwrap();
    assert_eq!(long_lived, HEAP_START);
    let mut served = 0usize;
    for _ in 0..HEAP_SIZE {
        match a.allocate(8, 8) {
            Some(_) => {
                served += 1;
                a.deallocate();
            }
            None => break,
        }
    }
    // the long-lived block keeps the bump pointer from ever going back
    assert_eq!(served, HEAP_SIZE / 8 - 1);
    assert_eq!(a.allocate(8, 8), None);
}

#[test]
fn last_release_reclaims_heap() {
    let mut a = heap();
    a.allocate(100, 1).unwrap();
    a.allocate(100, 1).unwrap();
    a.deallocate();
    assert_eq!(a.allocate(1, 1), Some(HEAP_START + 200));
    a.deallocate();
    a.deallocate();
    assert_eq!(a.allocate(1, 1), Some(HEAP_START));
}

#[test]
fn init_keeps_live_count() {
    let mut a = heap();
    a.allocate(8, 8).unwrap();
    a.init(HEAP_START, HEAP_SIZE);
    assert_eq!(a.allocate(8, 8), Some(HEAP_START));
    a.deallocate();
    // one allocation from before init is still counted as live
    assert_eq!(a.allocate(8, 8), Some(HEAP_START + 8));
}
