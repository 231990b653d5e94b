//! Four-level x86-64 page tables as the boot stages build them: a PML4 whose
//! entries point at one PDPT, and a PDPT whose first entry maps the first
//! GiB of physical memory with a single 1 GiB page.
use vstd::prelude::*;

verus! {

/// Present bit of a page-table entry.
pub const PAGE_PRESENT: u64 = 0x1;

/// Read/write bit of a page-table entry.
pub const PAGE_RW: u64 = 0x2;

/// Page-size bit: in a PDPT entry, the entry maps a 1 GiB page.
pub const PAGE_PS: u64 = 0x80;

/// Size of the page that one PDPT entry with `PAGE_PS` maps.
pub const GIB: u64 = 0x4000_0000;

/// One page table: 512 entries of 64 bits.
pub struct PageTable(pub [u64; 512]);

/// The PML4 slot that the walk for `va` reads (bits 47..39).
pub open spec fn pml4_slot(va: u64) -> u64 {
    (va >> 39u64) & 0x1FFu64
}

/// The PDPT slot that the walk for `va` reads (bits 38..30).
pub open spec fn pdpt_slot(va: u64) -> u64 {
    (va >> 30u64) & 0x1FFu64
}

/// The offset of `va` within its 1 GiB page.
pub open spec fn gib_offset(va: u64) -> u64 {
    va & 0x3FFF_FFFFu64
}

/// Bits 63..48 of a canonical address repeat bit 47.
pub open spec fn is_canonical(va: u64) -> bool {
    va < 0x0000_8000_0000_0000u64 || va >= 0xFFFF_8000_0000_0000u64
}

/// The physical address of the table that an entry (or CR3) points at.
pub open spec fn next_table_address(e: u64) -> u64 {
    e & 0x000F_FFFF_FFFF_F000u64
}

/// The physical address of the 1 GiB frame that a PDPT entry with `PAGE_PS` maps.
pub open spec fn gib_frame(e: u64) -> u64 {
    e & 0x000F_FFFF_C000_0000u64
}

/// The outcome of a page walk.
pub enum WalkResult {
    /// The address is not canonical, or an entry on the way is not present.
    Fault,
    /// The address lies in a 1 GiB page and reaches this physical address.
    Mapped(u64),
    /// The PDPT entry points at a page directory, which this model does not follow.
    BelowPdpt,
}

/// The walk that the MMU performs for `va`, with `tables` giving the content
/// of each page table by its physical address.
pub open spec fn page_walk(tables: Map<u64, Seq<u64>>, cr3: u64, va: u64) -> WalkResult {
    if !is_canonical(va) {
        WalkResult::Fault
    } else {
        let e0 = tables[next_table_address(cr3)][pml4_slot(va) as int];
        if e0 & PAGE_PRESENT == 0 {
            WalkResult::Fault
        } else {
            let e1 = tables[next_table_address(e0)][pdpt_slot(va) as int];
            if e1 & PAGE_PRESENT == 0 {
                WalkResult::Fault
            } else if e1 & PAGE_PS != 0 {
                WalkResult::Mapped(gib_frame(e1) | gib_offset(va))
            } else {
                WalkResult::BelowPdpt
            }
        }
    }
}

pub open spec fn table_entry_spec(table_addr: u64) -> u64 {
    table_addr | PAGE_PRESENT | PAGE_RW
}

pub open spec fn gib_page_entry_spec(frame: u64) -> u64 {
    frame | PAGE_PRESENT | PAGE_RW | PAGE_PS
}

/// The base of the upper-half region that PML4 slot `slot` maps.
pub open spec fn upper_half_base_spec(slot: u64) -> u64 {
    0xFFFF_0000_0000_0000u64 | (slot << 39u64)
}

/// A page-table address: 4 KiB aligned and below 2^52.
pub open spec fn is_table_address(addr: u64) -> bool {
    addr & 0xFFFu64 == 0 && addr < 0x0010_0000_0000_0000u64
}

impl PageTable {
    /// A table whose entries are all zero (not present).
    pub fn new() -> (t: PageTable)
        ensures
            forall|i: int| 0 <= i < 512 ==> t.0@[i] == 0,
    {
        PageTable([0u64; 512])
    }

    /// The entry at `index`.
    pub fn entry(&self, index: usize) -> (e: u64)
        requires
            index < 512,
        ensures
            e == self.0@[index as int],
    {
        self.0[index]
    }

    /// Replaces the entry at `index`.
    pub fn set_entry(&mut self, index: usize, value: u64)
        requires
            index < 512,
        ensures
            final(self).0@ == old(self).0@.update(index as int, value),
    {
        self.0[index] = value;
    }
}

/// A present, writable entry that points at the next-level table at `table_addr`.
pub fn table_entry(table_addr: u64) -> (e: u64)
    ensures
        e == table_entry_spec(table_addr),
{
    table_addr | PAGE_PRESENT | PAGE_RW
}

/// A present, writable PDPT entry that maps the 1 GiB frame at `frame`.
pub fn gib_page_entry(frame: u64) -> (e: u64)
    ensures
        e == gib_page_entry_spec(frame),
{
    frame | PAGE_PRESENT | PAGE_RW | PAGE_PS
}

/// Sets up the identity map of the first GiB: PML4 slot 0 points at the PDPT
/// (at physical address `pdpt_addr`) and PDPT slot 0 maps the frame at 0 as
/// one 1 GiB page.  The other entries are left as they were.
pub fn map_low_gib(pml4: &mut PageTable, pdpt: &mut PageTable, pdpt_addr: u64)
    ensures
        final(pml4).0@ == old(pml4).0@.update(0, table_entry_spec(pdpt_addr)),
        final(pdpt).0@ == old(pdpt).0@.update(0, gib_page_entry_spec(0)),
{
    let e = table_entry(pdpt_addr);
    pml4.set_entry(0, e);
    let p = gib_page_entry(0);
    pdpt.set_entry(0, p);
}

/// Points PML4 slot `slot` at the same PDPT, so that the upper-half region of
/// that slot reaches the same physical memory as the identity map.
pub fn map_kernel_slot(pml4: &mut PageTable, slot: u64, pdpt_addr: u64)
    requires
        slot < 512,
    ensures
        final(pml4).0@ == old(pml4).0@.update(slot as int, table_entry_spec(pdpt_addr)),
{
    let e = table_entry(pdpt_addr);
    pml4.set_entry(slot as usize, e);
}

/// Picks the upper-half PML4 slot for the kernel from a random number: one of
/// the 256 slots 256..=511.
pub fn kernel_pml4_slot(random: u64) -> (slot: u64)
    ensures
        slot == 256 + random % 256,
        256 <= slot <= 511,
{
    proof {
        assert(random & 0xFFu64 == random % 256) by (bit_vector);
    }
    256 + (random & 0xFF)
}

/// The canonical upper-half base address of PML4 slot `slot`: bits 63..48
/// set, bits 47..39 holding the slot, bits 38..0 clear.
pub fn upper_half_base(slot: u64) -> (base: u64)
    requires
        256 <= slot < 512,
    ensures
        base == upper_half_base_spec(slot),
        base == 0xFFFF_0000_0000_0000u64 + slot * 0x80_0000_0000u64,
{
    proof {
        lemma_upper_half_base(slot);
    }
    0xFFFF_0000_0000_0000u64 | (slot << 39)
}

/// The upper-half base of every slot 256..=511 is canonical, is walked through
/// that very PML4 slot, and starts a 512 GiB region: it equals
/// `0xFFFF_0000_0000_0000 + slot * 2^39`.
pub proof fn lemma_upper_half_base(slot: u64)
    requires
        256 <= slot < 512,
    ensures
        upper_half_base_spec(slot) == 0xFFFF_0000_0000_0000u64 + slot * 0x80_0000_0000u64,
        is_canonical(upper_half_base_spec(slot)),
        pml4_slot(upper_half_base_spec(slot)) == slot,
        upper_half_base_spec(slot) & 0x7F_FFFF_FFFFu64 == 0,
{
    assert(256 <= slot < 512 ==> (0xFFFF_0000_0000_0000u64 | (slot << 39u64))
        == 0xFFFF_0000_0000_0000u64 + slot * 0x80_0000_0000u64) by (bit_vector);
    assert(256 <= slot < 512 ==> (0xFFFF_0000_0000_0000u64 | (slot << 39u64)) >= 0xFFFF_8000_0000_0000u64)
        by (bit_vector);
    assert(256 <= slot < 512 ==> ((0xFFFF_0000_0000_0000u64 | (slot << 39u64)) >> 39u64) & 0x1FFu64 == slot)
        by (bit_vector);
    assert(256 <= slot < 512 ==> (0xFFFF_0000_0000_0000u64 | (slot << 39u64)) & 0x7F_FFFF_FFFFu64 == 0)
        by (bit_vector);
}

/// The page tables that the boot stages build page_walk, for every offset `x`
/// below 1 GiB, both the identity address `x` and the upper-half address
/// `upper_half_base(slot) + x` to physical address `x`.
pub proof fn lemma_boot_mappings(tables: Map<u64, Seq<u64>>, cr3: u64, pdpt_addr: u64, slot: u64, x: u64)
    requires
        is_table_address(cr3),
        is_table_address(pdpt_addr),
        tables.contains_key(cr3),
        tables.contains_key(pdpt_addr),
        tables[cr3].len() == 512,
        tables[pdpt_addr].len() == 512,
        tables[cr3][0] == table_entry_spec(pdpt_addr),
        256 <= slot < 512,
        tables[cr3][slot as int] == table_entry_spec(pdpt_addr),
        tables[pdpt_addr][0] == gib_page_entry_spec(0),
        x < GIB,
    ensures
        page_walk(tables, cr3, x) == WalkResult::Mapped(x),
        page_walk(tables, cr3, (upper_half_base_spec(slot) + x) as u64) == WalkResult::Mapped(x),
{
    lemma_upper_half_base(slot);
    let va = (upper_half_base_spec(slot) + x) as u64;
    let b = upper_half_base_spec(slot);
    assert(cr3 & 0xFFFu64 == 0 && cr3 < 0x0010_0000_0000_0000u64 ==> cr3 & 0x000F_FFFF_FFFF_F000u64 == cr3)
        by (bit_vector);
    assert(pdpt_addr & 0xFFFu64 == 0 && pdpt_addr < 0x0010_0000_0000_0000u64 ==> {
        &&& (pdpt_addr | 1u64 | 2u64) & 0x000F_FFFF_FFFF_F000u64 == pdpt_addr
        &&& (pdpt_addr | 1u64 | 2u64) & 1u64 != 0
    }) by (bit_vector);
    assert({
        &&& (0u64 | 1u64 | 2u64 | 128u64) & 1u64 != 0
        &&& (0u64 | 1u64 | 2u64 | 128u64) & 128u64 != 0
        &&& (0u64 | 1u64 | 2u64 | 128u64) & 0x000F_FFFF_C000_0000u64 == 0
    }) by (bit_vector);
    assert(x < 0x4000_0000u64 ==> {
        &&& (x >> 39u64) & 0x1FFu64 == 0
        &&& (x >> 30u64) & 0x1FFu64 == 0
        &&& x & 0x3FFF_FFFFu64 == x
        &&& 0u64 | x == x
    }) by (bit_vector);
    assert(x < 0x4000_0000u64 && b & 0x7F_FFFF_FFFFu64 == 0 && b >= 0xFFFF_8000_0000_0000u64 ==> {
        &&& ((b + x) as u64 >> 39u64) & 0x1FFu64 == (b >> 39u64) & 0x1FFu64
        &&& ((b + x) as u64 >> 30u64) & 0x1FFu64 == 0
        &&& (b + x) as u64 & 0x3FFF_FFFFu64 == x
        &&& (b + x) as u64 >= 0xFFFF_8000_0000_0000u64
        &&& b + x <= 0xFFFF_FFFF_FFFF_FFFFu64
    }) by (bit_vector);
    let te = table_entry_spec(pdpt_addr);
    let ge = gib_page_entry_spec(0);
    assert(next_table_address(cr3) == cr3);
    assert(next_table_address(te) == pdpt_addr);
    assert(te & PAGE_PRESENT != 0);
    assert(ge & PAGE_PRESENT != 0 && ge & PAGE_PS != 0 && gib_frame(ge) == 0);
    assert(pml4_slot(x) == 0 && pdpt_slot(x) == 0 && gib_offset(x) == x && is_canonical(x));
    assert(gib_frame(ge) | gib_offset(x) == x);
    assert(pml4_slot(va) == slot && pdpt_slot(va) == 0 && gib_offset(va) == x && is_canonical(va));
}

} // verus!
