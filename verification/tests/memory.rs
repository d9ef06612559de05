use os_by_rust::memory::{page_offset, table_index, walk_start, walk_step, EntryFrame, WalkState};

#[test]
fn table_indices_of_address() {
    let addr: u64 = (3 << 39) | (5 << 30) | (7 << 21) | (9 << 12) | 0x123;
    assert_eq!(table_index(addr, 4), 3);
    assert_eq!(table_index(addr, 3), 5);
    assert_eq!(table_index(addr, 2), 7);
    assert_eq!(table_index(addr, 1), 9);
    assert_eq!(page_offset(addr), 0x123);
    assert_eq!(table_index(0xffff_ffff_ffff_ffff, 4), 511);
}

#[test]
fn walk_translates_through_four_levels() {
    let addr: u64 = 0x0000_7f12_3456_789a;
    let mut s = walk_start(0x1000);
    for frame in [0x2000u64, 0x3000, 0x4000, 0xabc000] {
        assert!(matches!(s, WalkState::Descend { .. }));
        s = walk_step(s, addr, EntryFrame::Present(frame));
    }
    assert_eq!(s, WalkState::Translated(0xabc000 + 0x89a));
}

#[test]
fn walk_stops_at_missing_or_huge_entry() {
    let s = walk_start(0x1000);
    let s = walk_step(s, 0, EntryFrame::Present(0x2000));
    assert_eq!(s, WalkState::Descend { level: 3, frame: 0x2000 });
    assert_eq!(walk_step(s, 0, EntryFrame::NotPresent), WalkState::Unmapped);
    assert_eq!(walk_step(s, 0, EntryFrame::Huge), WalkState::HugePage);
    assert_eq!(walk_step(WalkState::Unmapped, 0, EntryFrame::Present(0x5000)), WalkState::Unmapped);
}
