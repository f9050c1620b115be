//! Memory management: the values of the translation control, memory attribute and system
//! control registers, and the flat translation table of EL3.
use vstd::prelude::*;

verus! {

pub const FLAG_L3_XN: u64 = 0x40_0000_0000_0000;
pub const FLAG_L3_PXN: u64 = 0x20_0000_0000_0000;
pub const FLAG_L3_AF: u64 = 0x400;
pub const FLAG_L3_OSH: u64 = 0x200;
pub const FLAG_L3_ISH: u64 = 0x300;
pub const FLAG_L3_SH_RW_N: u64 = 0;
pub const FLAG_L3_SH_RW_RW: u64 = 0x40;
pub const FLAG_L3_ATTR_MEM: u64 = 0;
pub const FLAG_L3_ATTR_DEV: u64 = 0x4;
pub const FLAG_L3_ATTR_NC: u64 = 0x8;
/// The memory of the devices.
pub const DRIVER_MEM_START: usize = 0x3C000000;
pub const DRIVER_MEM_END: usize = 0x40000000;
/// The number of entries of a translation table of 64 KiB pages.
pub const TABLE_ENTRIES: usize = 8192;

/// Memory attributes: normal write-back, device nGnRE, normal non-cacheable.
pub fn get_mair() -> (r: u64)
    ensures
        r == 0x44_04ff,
{
    assert(((0xFFu64 << 0u64) | (0x04u64 << 8u64) | (0x44u64 << 16u64)) == 0x44_04ffu64) by (bit_vector);
    (0xFFu64 << 0u64) | (0x04u64 << 8u64) | (0x44u64 << 16u64)
}

/// Translation control for 64 KiB pages, inner shareable write-back caches, a 4 TiB space
/// and the physical address size that `mmfr` (the memory model feature register) reports.
pub fn get_tcr(mmfr: u64) -> (r: u64)
    ensures
        r == (0x8080_7500u64 | ((mmfr & 0xf) << 16u64) | 22),
{
    let b = mmfr & 0xF;
    assert(((1u64 << 31u64) | (1u64 << 23u64) | (b << 16u64) | (1u64 << 14u64) | (3u64 << 12u64) | (1u64 << 10u64) | (1u64 << 8u64) | 22u64)
        == (0x8080_7500u64 | (b << 16u64) | 22u64)) by (bit_vector);
    (1u64 << 31u64) | (1u64 << 23u64) | (b << 16u64) | (1u64 << 14u64) | (3u64 << 12u64) | (1u64 << 10u64) | (1u64 << 8u64) | 22
}

/// The system control register with the instruction cache and the MMU enabled, and
/// big-endian data, write-implies-never, stack and alignment checks disabled.
pub fn update_sctlr(sctlr: u64) -> (r: u64)
    ensures
        r == (sctlr | 0x1001) & !0x208_000au64,
{
    let s1 = sctlr | (1u64 << 12u64) | 1;
    assert((sctlr | (1u64 << 12u64) | 1u64) == (sctlr | 0x1001u64)) by (bit_vector);
    assert((s1 & !((1u64 << 25u64) | (1u64 << 19u64) | (1u64 << 3u64) | (1u64 << 1u64))) == (s1 & !0x208_000au64)) by (bit_vector);
    s1 & !((1u64 << 25u64) | (1u64 << 19u64) | (1u64 << 3u64) | (1u64 << 1u64))
}

/// Whether the MMU is on at exception level `el`, whose system control register holds
/// `sctlr`; there is no answer for other levels.
pub fn enabled(el: u32, sctlr: u32) -> (r: Option<bool>)
    ensures
        (el == 1 || el == 2 || el == 3) ==> r == Some(sctlr & 1 == 1),
        !(el == 1 || el == 2 || el == 3) ==> r is None,
{
    if el == 1 || el == 2 || el == 3 {
        Some(sctlr & 1 == 1)
    } else {
        None
    }
}

/// The entry of the level 2 table for its `i`-th level 3 table, placed after it at `addr`.
pub open spec fn l2_entry(addr: u64, i: int) -> u64 {
    ((addr + (i + 1) * 0x10000) as u64) | 3
}

/// The entry of the level 3 table for page `i` when the kernel's image ends at page `end`:
/// device memory, the secure kernel, or normal non-cacheable memory; none for the page
/// just before `end` and for the last page.
pub open spec fn l3_entry(i: int, end: int) -> Option<u64> {
    let page = (i * 0x10000) as u64;
    if DRIVER_MEM_START / 0x10000 <= i < DRIVER_MEM_END / 0x10000 {
        Some(page | 3 | FLAG_L3_XN | FLAG_L3_PXN | FLAG_L3_AF | FLAG_L3_OSH | FLAG_L3_SH_RW_RW | FLAG_L3_ATTR_DEV)
    } else if 0 <= i < end - 1 {
        Some(page | 3 | FLAG_L3_AF | FLAG_L3_ISH | FLAG_L3_SH_RW_N | FLAG_L3_ATTR_MEM)
    } else if end <= i < TABLE_ENTRIES * 8 - 1 {
        Some(page | 3 | FLAG_L3_AF | FLAG_L3_ISH | FLAG_L3_SH_RW_RW | FLAG_L3_ATTR_NC)
    } else {
        None
    }
}

/// The level 3 entry of a device page at `page`: not executable at any level, accessed,
/// outer shareable, read-write at every level, device memory.
pub open spec fn device_entry(page: u64) -> u64 {
    page | 3 | FLAG_L3_XN | FLAG_L3_PXN | FLAG_L3_AF | FLAG_L3_OSH | FLAG_L3_SH_RW_RW | FLAG_L3_ATTR_DEV
}

/// Law: every page whose address lies in `[DRIVER_MEM_START, DRIVER_MEM_END)` is mapped
/// as device memory, whatever the end of the kernel's image.
pub proof fn law_driver_pages_are_device(p: int, end: int)
    requires
        DRIVER_MEM_START <= p * 0x10000 < DRIVER_MEM_END,
    ensures
        l3_entry(p, end) == Some(device_entry((p * 0x10000) as u64)),
{
}

/// Fills the level 2 table at the start of `tt`, and the level 3 tables after it, to map
/// the first 4 GiB flat; `end` is the page where the kernel's image ends.
pub fn init_table_flat(tt: &mut Vec<u64>, addr: u64, end: usize)
    requires
        old(tt)@.len() >= TABLE_ENTRIES * 9,
        1 <= end <= TABLE_ENTRIES * 8,
        addr + 9 * 0x10000 <= u64::MAX,
    ensures
        final(tt)@.len() == old(tt)@.len(),
        forall|i: int| 0 <= i < 8 ==> #[trigger] final(tt)@[i] == l2_entry(addr, i),
        forall|i: int| 0 <= i < TABLE_ENTRIES * 8 ==> (#[trigger] final(tt)@[i + TABLE_ENTRIES]) == match l3_entry(i, end as int) {
            Some(v) => v,
            None => old(tt)@[i + TABLE_ENTRIES],
        },
        forall|p: int| DRIVER_MEM_START <= p * 0x10000 < DRIVER_MEM_END ==>
            #[trigger] final(tt)@[p + TABLE_ENTRIES] == device_entry((p * 0x10000) as u64),
        forall|p: int| 0 <= p < end - 1 && !(DRIVER_MEM_START <= p * 0x10000 < DRIVER_MEM_END) ==>
            #[trigger] final(tt)@[p + TABLE_ENTRIES] == ((p * 0x10000) as u64 | 3 | FLAG_L3_AF | FLAG_L3_ISH | FLAG_L3_SH_RW_N | FLAG_L3_ATTR_MEM),
        forall|p: int| end <= p < TABLE_ENTRIES * 8 - 1 && !(DRIVER_MEM_START <= p * 0x10000 < DRIVER_MEM_END) ==>
            #[trigger] final(tt)@[p + TABLE_ENTRIES] == ((p * 0x10000) as u64 | 3 | FLAG_L3_AF | FLAG_L3_ISH | FLAG_L3_SH_RW_RW | FLAG_L3_ATTR_NC),
        forall|p: int| (p == end - 1 || p == TABLE_ENTRIES * 8 - 1) && !(DRIVER_MEM_START <= p * 0x10000 < DRIVER_MEM_END) ==>
            #[trigger] final(tt)@[p + TABLE_ENTRIES] == old(tt)@[p + TABLE_ENTRIES],
        forall|i: int| 0 <= i < 8 ==> #[trigger] final(tt)@[i] == ((addr + (i + 1) * 0x10000) as u64 | 3),
{
    let ghost t0 = tt@;
    let mut i: usize = 0;
    while i < 8
        invariant
            0 <= i <= 8,
            tt@.len() == t0.len(),
            t0.len() >= TABLE_ENTRIES * 9,
            addr + 9 * 0x10000 <= u64::MAX,
            forall|j: int| 0 <= j < i ==> #[trigger] tt@[j] == l2_entry(addr, j),
            forall|j: int| 8 <= j < t0.len() ==> #[trigger] tt@[j] == t0[j],
        decreases 8 - i,
    {
        tt.set(i, (addr + (i as u64 + 1) * 8192 * 8) | 0b11);
        i += 1;
    }
    let mut i: usize = 0;
    while i < end - 1
        invariant
            0 <= i <= end - 1,
            1 <= end <= TABLE_ENTRIES * 8,
            tt@.len() == t0.len(),
            t0.len() >= TABLE_ENTRIES * 9,
            forall|j: int| 0 <= j < 8 ==> #[trigger] tt@[j] == l2_entry(addr, j),
            forall|j: int| 0 <= j < i ==> #[trigger] tt@[j + TABLE_ENTRIES] == ((j * 0x10000) as u64 | 3 | FLAG_L3_AF | FLAG_L3_ISH | FLAG_L3_SH_RW_N | FLAG_L3_ATTR_MEM),
            forall|j: int| i <= j < TABLE_ENTRIES * 8 ==> #[trigger] tt@[j + TABLE_ENTRIES] == t0[j + TABLE_ENTRIES],
        decreases end - 1 - i,
    {
        tt.set(i + 8192, (i as u64 * 64 * 1024) | 0b11 | FLAG_L3_AF | FLAG_L3_ISH | FLAG_L3_SH_RW_N | FLAG_L3_ATTR_MEM);
        i += 1;
    }
    let mut i: usize = end;
    while i < 8192 * 8 - 1
        invariant
            end <= i <= TABLE_ENTRIES * 8 - 1 || (i == end && end == TABLE_ENTRIES * 8),
            1 <= end <= TABLE_ENTRIES * 8,
            tt@.len() == t0.len(),
            t0.len() >= TABLE_ENTRIES * 9,
            forall|j: int| 0 <= j < 8 ==> #[trigger] tt@[j] == l2_entry(addr, j),
            forall|j: int| 0 <= j < end - 1 ==> #[trigger] tt@[j + TABLE_ENTRIES] == ((j * 0x10000) as u64 | 3 | FLAG_L3_AF | FLAG_L3_ISH | FLAG_L3_SH_RW_N | FLAG_L3_ATTR_MEM),
            forall|j: int| end <= j < i ==> #[trigger] tt@[j + TABLE_ENTRIES] == ((j * 0x10000) as u64 | 3 | FLAG_L3_AF | FLAG_L3_ISH | FLAG_L3_SH_RW_RW | FLAG_L3_ATTR_NC),
            forall|j: int| (j == end - 1 || i <= j < TABLE_ENTRIES * 8) && 0 <= j ==> #[trigger] tt@[j + TABLE_ENTRIES] == t0[j + TABLE_ENTRIES],
        decreases TABLE_ENTRIES * 8 - i,
    {
        tt.set(i + 8192, (i as u64 * 64 * 1024) | 0b11 | FLAG_L3_AF | FLAG_L3_ISH | FLAG_L3_SH_RW_RW | FLAG_L3_ATTR_NC);
        i += 1;
    }
    let ms = DRIVER_MEM_START;
    let me = DRIVER_MEM_END;
    let len = me - ms;
    assert(ms >> 16usize == ms / 0x10000) by (bit_vector);
    assert(len >> 16usize == len / 0x10000) by (bit_vector);
    let start = ms >> 16;
    let dev_end = start + (len >> 16);
    let ghost t1 = tt@;
    let mut i: usize = start;
    while i < dev_end
        invariant
            start <= i <= dev_end,
            start == DRIVER_MEM_START / 0x10000,
            dev_end == DRIVER_MEM_END / 0x10000,
            tt@.len() == t0.len(),
            t1.len() == t0.len(),
            t0.len() >= TABLE_ENTRIES * 9,
            forall|j: int| 0 <= j < 8 ==> #[trigger] tt@[j] == t1[j],
            forall|j: int| start <= j < i ==> #[trigger] tt@[j + TABLE_ENTRIES] == ((j * 0x10000) as u64 | 3 | FLAG_L3_XN | FLAG_L3_PXN | FLAG_L3_AF | FLAG_L3_OSH | FLAG_L3_SH_RW_RW | FLAG_L3_ATTR_DEV),
            forall|j: int| 0 <= j < TABLE_ENTRIES * 8 && !(start <= j < i) ==> #[trigger] tt@[j + TABLE_ENTRIES] == t1[j + TABLE_ENTRIES],
        decreases dev_end - i,
    {
        tt.set(i + 8192, (i as u64 * 64 * 1024) | 0b11 | FLAG_L3_XN | FLAG_L3_PXN | FLAG_L3_AF | FLAG_L3_OSH | FLAG_L3_SH_RW_RW | FLAG_L3_ATTR_DEV);
        i += 1;
    }
    proof {
        assert forall|j: int| 0 <= j < TABLE_ENTRIES * 8 implies (#[trigger] tt@[j + TABLE_ENTRIES]) == match l3_entry(j, end as int) {
            Some(v) => v,
            None => t0[j + TABLE_ENTRIES],
        } by {
            if !(start <= j < dev_end) {
                assert(tt@[j + TABLE_ENTRIES] == t1[j + TABLE_ENTRIES]);
            }
        }
        assert forall|p: int| DRIVER_MEM_START <= p * 0x10000 < DRIVER_MEM_END implies
            #[trigger] tt@[p + TABLE_ENTRIES] == device_entry((p * 0x10000) as u64) by {
            assert(start <= p < dev_end);
        }
        assert forall|p: int| 0 <= p < end - 1 && !(DRIVER_MEM_START <= p * 0x10000 < DRIVER_MEM_END) implies
            #[trigger] tt@[p + TABLE_ENTRIES] == ((p * 0x10000) as u64 | 3 | FLAG_L3_AF | FLAG_L3_ISH | FLAG_L3_SH_RW_N | FLAG_L3_ATTR_MEM) by {
            assert(!(start <= p < dev_end));
            assert(tt@[p + TABLE_ENTRIES] == t1[p + TABLE_ENTRIES]);
        }
        assert forall|p: int| end <= p < TABLE_ENTRIES * 8 - 1 && !(DRIVER_MEM_START <= p * 0x10000 < DRIVER_MEM_END) implies
            #[trigger] tt@[p + TABLE_ENTRIES] == ((p * 0x10000) as u64 | 3 | FLAG_L3_AF | FLAG_L3_ISH | FLAG_L3_SH_RW_RW | FLAG_L3_ATTR_NC) by {
            assert(!(start <= p < dev_end));
            assert(tt@[p + TABLE_ENTRIES] == t1[p + TABLE_ENTRIES]);
        }
        assert forall|p: int| (p == end - 1 || p == TABLE_ENTRIES * 8 - 1) && !(DRIVER_MEM_START <= p * 0x10000 < DRIVER_MEM_END) implies
            #[trigger] tt@[p + TABLE_ENTRIES] == t0[p + TABLE_ENTRIES] by {
            assert(!(start <= p < dev_end));
            assert(tt@[p + TABLE_ENTRIES] == t1[p + TABLE_ENTRIES]);
        }
    }
}

} // verus!
