//! Virtual-to-physical address translation by walking the four levels of x86-64
//! page tables. Reading a table entry is the caller's part; this module says
//! which entry to read at each level and what the entry means for the walk.
use vstd::prelude::*;

verus! {

/// The size of a page and of a page-table frame.
pub const PAGE_SIZE: u64 = 4096;

/// The index into the level-`level` table (4 is the top) that `addr` selects:
/// nine bits of the address above the 12-bit page offset.
pub open spec fn table_index_spec(addr: u64, level: u8) -> u64 {
    (addr >> (12 + 9 * (level - 1)) as u64) & 0x1ff
}

/// Where in its page `addr` lies.
pub open spec fn page_offset_spec(addr: u64) -> u64 {
    addr & 0xfff
}

/// The index that `addr` selects in the table of level `level` (4 is the top).
pub fn table_index(addr: u64, level: u8) -> (idx: u16)
    requires
        1 <= level <= 4,
    ensures
        idx == table_index_spec(addr, level),
        idx < 512,
{
    let shift: u64 = 12 + 9 * ((level - 1) as u64);
    let v = (addr >> shift) & 0x1ff;
    assert(v < 512) by (bit_vector)
        requires v == (addr >> shift) & 0x1ff;
    v as u16
}

/// The offset of `addr` inside its page.
pub fn page_offset(addr: u64) -> (off: u16)
    ensures
        off == page_offset_spec(addr),
        off < 4096,
{
    let v = addr & 0xfff;
    assert(v < 4096) by (bit_vector)
        requires v == addr & 0xfff;
    v as u16
}

/// An address the walk can use as a frame: page aligned, below 2^52.
pub open spec fn valid_frame(frame: u64) -> bool {
    frame % 4096 == 0 && frame < 0x10_0000_0000_0000
}

/// What a page-table entry says.
#[derive(Clone, Copy, Debug, PartialEq, Eq, Structural)]
pub enum EntryFrame {
    /// The entry maps the frame starting at this physical address.
    Present(u64),
    /// The entry maps nothing.
    NotPresent,
    /// The entry maps a huge page, which the walk does not support.
    Huge,
}

/// Where a page-table walk stands.
#[derive(Clone, Copy, Debug, PartialEq, Eq, Structural)]
pub enum WalkState {
    /// The table of this level (4 is the top) starts at physical address `frame`.
    Descend { level: u8, frame: u64 },
    /// The walk found the physical address.
    Translated(u64),
    /// Some level maps nothing: the address has no translation.
    Unmapped,
    /// Some level maps a huge page.
    HugePage,
}

/// The well-formed walk states: levels 1 to 4, valid frames.
pub open spec fn walk_state_wf(s: WalkState) -> bool {
    match s {
        WalkState::Descend { level, frame } => 1 <= level <= 4 && valid_frame(frame),
        _ => true,
    }
}

/// The walk state after the entry for `addr` in the current table reads `entry`.
pub open spec fn walk_step_spec(s: WalkState, addr: u64, entry: EntryFrame) -> WalkState {
    match s {
        WalkState::Descend { level, frame } => match entry {
            EntryFrame::Present(next) => if level > 1 {
                WalkState::Descend { level: (level - 1) as u8, frame: next }
            } else {
                WalkState::Translated((next + page_offset_spec(addr)) as u64)
            },
            EntryFrame::NotPresent => WalkState::Unmapped,
            EntryFrame::Huge => WalkState::HugePage,
        },
        _ => s,
    }
}

/// A walk starts at the top-level table, whose frame the CR3 register names.
pub fn walk_start(level_4_frame: u64) -> (s: WalkState)
    requires
        valid_frame(level_4_frame),
    ensures
        s == (WalkState::Descend { level: 4, frame: level_4_frame }),
        walk_state_wf(s),
{
    WalkState::Descend { level: 4, frame: level_4_frame }
}

/// Advances the walk by one level with the entry read from the current table.
pub fn walk_step(s: WalkState, addr: u64, entry: EntryFrame) -> (next: WalkState)
    requires
        walk_state_wf(s),
        entry matches EntryFrame::Present(f) ==> valid_frame(f),
    ensures
        next == walk_step_spec(s, addr, entry),
        walk_state_wf(next),
{
    match s {
        WalkState::Descend { level, frame } => match entry {
            EntryFrame::Present(next) => {
                if level > 1 {
                    WalkState::Descend { level: level - 1, frame: next }
                } else {
                    let off = page_offset(addr);
                    WalkState::Translated(next + off as u64)
                }
            },
            EntryFrame::NotPresent => WalkState::Unmapped,
            EntryFrame::Huge => WalkState::HugePage,
        },
        _ => s,
    }
}

/// The result of a walk over four present entries, from the top level down.
pub open spec fn walk_all_spec(l4: u64, addr: u64, entries: Seq<EntryFrame>) -> WalkState {
    walk_step_spec(
        walk_step_spec(
            walk_step_spec(
                walk_step_spec(WalkState::Descend { level: 4, frame: l4 }, addr, entries[0]),
                addr,
                entries[1],
            ),
            addr,
            entries[2],
        ),
        addr,
        entries[3],
    )
}

/// A walk whose four entries are all present ends at the last frame plus the
/// address's offset in its page; so the translation keeps the page offset.
pub proof fn lemma_translation_keeps_offset(l4: u64, addr: u64, f3: u64, f2: u64, f1: u64, f0: u64)
    requires
        valid_frame(f0),
    ensures
        walk_all_spec(
            l4,
            addr,
            seq![
                EntryFrame::Present(f3),
                EntryFrame::Present(f2),
                EntryFrame::Present(f1),
                EntryFrame::Present(f0),
            ],
        ) == WalkState::Translated((f0 + page_offset_spec(addr)) as u64),
        (f0 + page_offset_spec(addr)) % 4096 == addr % 4096,
{
    let off = page_offset_spec(addr);
    assert(off == addr % 4096) by (bit_vector)
        requires off == addr & 0xfff;
    assert(off < 4096);
}

/// The four table indices and the page offset together are the low 48 bits of
/// the address: the walk reads every translated bit exactly once.
pub proof fn lemma_indices_cover_address(addr: u64)
    ensures
        addr & 0xffff_ffff_ffff == (table_index_spec(addr, 4) << 39) | (table_index_spec(addr, 3)
            << 30) | (table_index_spec(addr, 2) << 21) | (table_index_spec(addr, 1) << 12)
            | page_offset_spec(addr),
{
    assert(addr & 0xffff_ffff_ffff == (((addr >> 39u64) & 0x1ff) << 39) | (((addr >> 30u64)
        & 0x1ff) << 30) | (((addr >> 21u64) & 0x1ff) << 21) | (((addr >> 12u64) & 0x1ff) << 12)
        | (addr & 0xfff)) by (bit_vector);
}

} // verus!

verus! {

/// One step of the walk: a present entry above the last level leads into the table
/// in the frame that entry names, one level down; at the last level it gives that
/// frame plus the address's offset in its page; a missing entry ends the walk
/// unmapped, a huge-page entry ends it as such, and an ended walk stays ended.
pub proof fn lemma_walk_step_follows_entry(level: u8, frame: u64, addr: u64, next: u64)
    ensures
        2 <= level <= 4 ==> walk_step_spec(
            WalkState::Descend { level, frame },
            addr,
            EntryFrame::Present(next),
        ) == (WalkState::Descend { level: (level - 1) as u8, frame: next }),
        valid_frame(next) ==> walk_step_spec(
            WalkState::Descend { level: 1, frame },
            addr,
            EntryFrame::Present(next),
        ) == WalkState::Translated((next + addr % 4096) as u64),
        walk_step_spec(WalkState::Descend { level, frame }, addr, EntryFrame::NotPresent)
            == WalkState::Unmapped,
        walk_step_spec(WalkState::Descend { level, frame }, addr, EntryFrame::Huge)
            == WalkState::HugePage,
        walk_step_spec(WalkState::Unmapped, addr, EntryFrame::Present(next))
            == WalkState::Unmapped,
        walk_step_spec(WalkState::HugePage, addr, EntryFrame::Present(next))
            == WalkState::HugePage,
        walk_step_spec(WalkState::Translated(frame), addr, EntryFrame::Present(next))
            == WalkState::Translated(frame),
{
    let off = page_offset_spec(addr);
    assert(off == addr % 4096) by (bit_vector)
        requires off == addr & 0xfff;
}

/// Over four present entries the walk visits, in turn, the tables in the frames the
/// entries name, and ends at the last frame plus the page offset.
pub proof fn lemma_walk_visits_named_tables(l4: u64, addr: u64, f3: u64, f2: u64, f1: u64, f0: u64)
    requires
        valid_frame(f0),
    ensures
        walk_step_spec(WalkState::Descend { level: 4, frame: l4 }, addr, EntryFrame::Present(f3))
            == (WalkState::Descend { level: 3, frame: f3 }),
        walk_step_spec(WalkState::Descend { level: 3, frame: f3 }, addr, EntryFrame::Present(f2))
            == (WalkState::Descend { level: 2, frame: f2 }),
        walk_step_spec(WalkState::Descend { level: 2, frame: f2 }, addr, EntryFrame::Present(f1))
            == (WalkState::Descend { level: 1, frame: f1 }),
        walk_step_spec(WalkState::Descend { level: 1, frame: f1 }, addr, EntryFrame::Present(f0))
            == WalkState::Translated((f0 + addr % 4096) as u64),
{
    lemma_walk_step_follows_entry(4, l4, addr, f3);
    lemma_walk_step_follows_entry(3, f3, addr, f2);
    lemma_walk_step_follows_entry(2, f2, addr, f1);
    lemma_walk_step_follows_entry(1, f1, addr, f0);
}

} // verus!
