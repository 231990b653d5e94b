//! The long-mode stage's hand-over to the kernel: choose the upper-half PML4
//! slot, map it, load and relocate the kernel image, and work out where the kernel and
//! its entry point appear in virtual memory.
use vstd::prelude::*;

use crate::kernel_image::{
    LoadError, elf_file_layout, has_elf_magic, kernel_file_outcome, lemma_load_relocates_slot, load_kernel,
    relocation_list,
};
use crate::relocation::{elf_section_relocations, word_at};
use crate::paging::{
    GIB, PageTable, WalkResult, is_table_address, kernel_pml4_slot, lemma_boot_mappings,
    lemma_upper_half_base, map_kernel_slot, table_entry_spec, gib_page_entry_spec, page_walk,
    upper_half_base, upper_half_base_spec,
};

verus! {

/// What the kernel entry point receives: the virtual base of the kernel, and
/// the physical addresses of the memory map and of the PML4.
#[derive(Clone, Copy, Debug, PartialEq, Eq, Structural)]
pub struct BootInfo {
    pub kernel_virt_base: u64,
    pub memory_map: u64,
    pub pml4: u64,
}

/// Where the kernel lives in virtual memory.
#[derive(Clone, Copy, Debug, PartialEq, Eq, Structural)]
pub struct KernelPlacement {
    /// The upper-half PML4 slot that maps the kernel.
    pub pml4_slot: u64,
    /// The virtual address of the first byte of the kernel image.
    pub kernel_virt_base: u64,
    /// The virtual address of the kernel entry point.
    pub entry_virt: u64,
}

/// The virtual base of the kernel image loaded at physical `load_base`, when
/// the random number `random` picks the PML4 slot.
pub open spec fn kernel_virt_base_spec(random: u64, load_base: u64) -> int {
    upper_half_base_spec((256 + random % 256) as u64) + load_base
}

/// Why the hand-over to the kernel cannot go ahead.
#[derive(Clone, Copy, Debug, PartialEq, Eq, Structural)]
pub enum HandoffError {
    /// The kernel file could not be loaded.
    Load(LoadError),
    /// The kernel's virtual base or its entry point does not fit in 64 bits.
    AddressOverflow,
}

/// Everything the long-mode stage needs to jump into the kernel.
#[derive(Clone, Copy, Debug, PartialEq, Eq, Structural)]
pub struct Handoff {
    pub placement: KernelPlacement,
    pub info: BootInfo,
}

/// The outcome of [`prepare_handoff`] and the image it leaves.
pub open spec fn handoff_outcome(
    file: Seq<u8>,
    image: Seq<u8>,
    random: u64,
    load_base: u64,
    memory_map: u64,
    pml4_addr: u64,
) -> (Result<Handoff, HandoffError>, Seq<u8>) {
    let base = kernel_virt_base_spec(random, load_base);
    if base > u64::MAX {
        (Err(HandoffError::AddressOverflow), image)
    } else {
        let loaded = kernel_file_outcome(file, image, base as u64);
        match loaded.0 {
            Err(e) => (Err(HandoffError::Load(e)), loaded.1),
            Ok(entry) => if base + entry > u64::MAX {
                (Err(HandoffError::AddressOverflow), loaded.1)
            } else {
                (
                    Ok(Handoff {
                        placement: KernelPlacement {
                            pml4_slot: (256 + random % 256) as u64,
                            kernel_virt_base: base as u64,
                            entry_virt: (base + entry) as u64,
                        },
                        info: BootInfo { kernel_virt_base: base as u64, memory_map, pml4: pml4_addr },
                    }),
                    loaded.1,
                )
            },
        }
    }
}

/// The decisions of the long-mode stage.  It points PML4 slot
/// `256 + random % 256` at the PDPT (at physical `pdpt_addr`), so that the
/// kernel image at physical `load_base` appears at that slot's upper-half
/// base plus `load_base`; loads the kernel file into `image` (the memory at
/// `load_base`) for that virtual address; and returns where the kernel entry
/// point lies in virtual memory with the [`BootInfo`] to hand it.  The slot is
/// mapped whatever happens next, as the stage maps it before it reads the file.
pub fn prepare_handoff(
    random: u64,
    pml4: &mut PageTable,
    pdpt_addr: u64,
    file: &[u8],
    image: &mut [u8],
    load_base: u64,
    memory_map: u64,
    pml4_addr: u64,
) -> (r: Result<Handoff, HandoffError>)
    ensures
        final(pml4).0@ == old(pml4).0@.update(256 + random % 256, table_entry_spec(pdpt_addr)),
        (r, final(image)@) == handoff_outcome(file@, old(image)@, random, load_base, memory_map, pml4_addr),
        kernel_virt_base_spec(random, load_base) <= u64::MAX && !has_elf_magic(file@)
            ==> r == Err::<Handoff, HandoffError>(HandoffError::Load(LoadError::MalformedElf)),
{
    let slot = kernel_pml4_slot(random);
    map_kernel_slot(pml4, slot, pdpt_addr);
    let virt_base = upper_half_base(slot);
    if load_base > u64::MAX - virt_base {
        return Err(HandoffError::AddressOverflow);
    }
    let kernel_virt_base = virt_base + load_base;
    let entry = match load_kernel(file, image, kernel_virt_base) {
        Ok(entry) => entry,
        Err(e) => return Err(HandoffError::Load(e)),
    };
    if entry > u64::MAX - kernel_virt_base {
        return Err(HandoffError::AddressOverflow);
    }
    let placement = KernelPlacement { pml4_slot: slot, kernel_virt_base, entry_virt: kernel_virt_base + entry };
    Ok(Handoff { placement, info: BootInfo { kernel_virt_base, memory_map, pml4: pml4_addr } })
}

/// With the boot page tables in place, every byte of the kernel image that
/// lies in the first GiB of physical memory is visible at the kernel's virtual
/// base plus its offset in the image.
pub proof fn lemma_kernel_visible_at_virt_base(
    tables: Map<u64, Seq<u64>>,
    cr3: u64,
    pdpt_addr: u64,
    random: u64,
    load_base: u64,
    offset: u64,
)
    requires
        is_table_address(cr3),
        is_table_address(pdpt_addr),
        tables.contains_key(cr3),
        tables.contains_key(pdpt_addr),
        tables[cr3].len() == 512,
        tables[pdpt_addr].len() == 512,
        tables[cr3][0] == table_entry_spec(pdpt_addr),
        tables[cr3][256 + random % 256] == table_entry_spec(pdpt_addr),
        tables[pdpt_addr][0] == gib_page_entry_spec(0),
        load_base + offset < GIB,
    ensures
        page_walk(tables, cr3, (kernel_virt_base_spec(random, load_base) + offset) as u64)
            == WalkResult::Mapped((load_base + offset) as u64),
{
    let slot = (256 + random % 256) as u64;
    lemma_upper_half_base(slot);
    lemma_boot_mappings(tables, cr3, pdpt_addr, slot, (load_base + offset) as u64);
}

/// The tables as the stages leave them: the protected-mode stage sets PML4
/// slot 0 and PDPT slot 0 ([`crate::paging::map_low_gib`]), the long-mode
/// stage sets PML4 slot `256 + random % 256` ([`prepare_handoff`]).  With CR3
/// at the PML4, every offset below 1 GiB is reached both at its own address
/// and at the kernel slot's upper-half base plus the offset.
pub proof fn lemma_stage_tables_map(
    pml4_before: Seq<u64>,
    pdpt_before: Seq<u64>,
    cr3: u64,
    pdpt_addr: u64,
    random: u64,
    x: u64,
)
    requires
        pml4_before.len() == 512,
        pdpt_before.len() == 512,
        is_table_address(cr3),
        is_table_address(pdpt_addr),
        cr3 != pdpt_addr,
        x < GIB,
    ensures
        ({
            let slot = 256 + random % 256;
            let pml4 = pml4_before.update(0, table_entry_spec(pdpt_addr)).update(slot, table_entry_spec(pdpt_addr));
            let pdpt = pdpt_before.update(0, gib_page_entry_spec(0));
            let tables = Map::<u64, Seq<u64>>::empty().insert(cr3, pml4).insert(pdpt_addr, pdpt);
            &&& page_walk(tables, cr3, x) == WalkResult::Mapped(x)
            &&& page_walk(tables, cr3, (upper_half_base_spec(slot as u64) + x) as u64) == WalkResult::Mapped(x)
        }),
{
    let slot = 256 + random % 256;
    let pml4 = pml4_before.update(0, table_entry_spec(pdpt_addr)).update(slot, table_entry_spec(pdpt_addr));
    let pdpt = pdpt_before.update(0, gib_page_entry_spec(0));
    let tables = Map::<u64, Seq<u64>>::empty().insert(cr3, pml4).insert(pdpt_addr, pdpt);
    assert(tables[cr3] == pml4);
    assert(tables[pdpt_addr] == pdpt);
    lemma_boot_mappings(tables, cr3, pdpt_addr, slot as u64, x);
}

/// A successful hand-over places the kernel at the upper-half base of slot
/// `256 + random % 256` plus the load base, with the entry point that many
/// bytes further on, and hands that same virtual base to the kernel; the image
/// it leaves is exactly the one that loading the kernel file for that virtual
/// base gives.
pub proof fn lemma_handoff_loads_for_kernel_base(
    file: Seq<u8>,
    image: Seq<u8>,
    random: u64,
    load_base: u64,
    memory_map: u64,
    pml4_addr: u64,
    h: Handoff,
)
    requires
        handoff_outcome(file, image, random, load_base, memory_map, pml4_addr).0 == Ok::<Handoff, HandoffError>(h),
    ensures
        h.placement.pml4_slot == 256 + random % 256,
        h.placement.kernel_virt_base == 0xFFFF_0000_0000_0000 + (256 + random % 256) * 0x80_0000_0000 + load_base,
        h.info.kernel_virt_base == h.placement.kernel_virt_base,
        h.info.memory_map == memory_map,
        h.info.pml4 == pml4_addr,
        kernel_file_outcome(file, image, h.placement.kernel_virt_base).0
            == Ok::<u64, LoadError>((h.placement.entry_virt - h.placement.kernel_virt_base) as u64),
        handoff_outcome(file, image, random, load_base, memory_map, pml4_addr).1
            == kernel_file_outcome(file, image, h.placement.kernel_virt_base).1,
{
    lemma_upper_half_base((256 + random % 256) as u64);
}

/// After a successful hand-over, every relative relocation slot of the
/// kernel's `.rela.dyn` holds, as an 8-byte little-endian number, the virtual
/// base handed to the kernel plus the addend (modulo 2^64), wherever no other
/// relative relocation shares a byte of the slot.
pub proof fn lemma_handoff_relocated_slot(
    file: Seq<u8>,
    image: Seq<u8>,
    random: u64,
    load_base: u64,
    memory_map: u64,
    pml4_addr: u64,
    h: Handoff,
    relocs: Seq<crate::relocation::Relocation>,
    i: int,
)
    requires
        handoff_outcome(file, image, random, load_base, memory_map, pml4_addr).0 == Ok::<Handoff, HandoffError>(h),
        elf_section_relocations(file, ".rela.dyn"@) == Some(Some(relocs)),
        0 <= i < relocs.len(),
        relocs[i].r_type == 8,
        forall|k: int| 0 <= k < relocs.len() && k != i && (#[trigger] relocs[k]).r_type == 8
            ==> relocs[k].r_offset + 8 <= relocs[i].r_offset || relocs[i].r_offset + 8 <= relocs[k].r_offset,
    ensures
        relocs[i].r_offset + 8 <= image.len(),
        word_at(handoff_outcome(file, image, random, load_base, memory_map, pml4_addr).1, relocs[i].r_offset as int)
            == (h.info.kernel_virt_base as int + relocs[i].r_addend as int) % 0x1_0000_0000_0000_0000,
{
    lemma_handoff_loads_for_kernel_base(file, image, random, load_base, memory_map, pml4_addr, h);
    let base = h.placement.kernel_virt_base;
    let layout = elf_file_layout(file).unwrap();
    assert(relocation_list(Some(relocs)) == relocs);
    lemma_load_relocates_slot(layout, relocs, file, image, base, i);
}

} // verus!
