//! The global descriptor table that the real-mode stage loads before it
//! enters protected mode, and the pointers that LGDT, LIDT and far jumps use.
use vstd::prelude::*;

verus! {

/// Number of descriptors in the boot GDT.
pub const GDT_ENTRIES: usize = 4;

/// Size in bytes of one descriptor.
pub const GDT_ENTRY_SIZE: usize = 8;

/// Selector of the 32-bit kernel code segment (GDT index 1).
pub const CODE32_SELECTOR: u16 = 0x08;

/// Selector of the kernel data segment (GDT index 2).
pub const DATA_SELECTOR: u16 = 0x10;

/// Selector of the 64-bit kernel code segment (GDT index 3).
pub const CODE64_SELECTOR: u16 = 0x18;

/// One segment descriptor, field by field as the CPU lays it out.
#[derive(Clone, Copy, Debug, PartialEq, Eq, Structural)]
pub struct GdtEntry {
    pub limit_low: u16,
    pub base_low: u16,
    pub base_mid: u8,
    pub access: u8,
    /// G, DB, L, AVL in bits 7..4; bits 19..16 of the limit in bits 3..0.
    pub limit_flags: u8,
    pub base_high: u8,
}

/// The operand of LGDT and LIDT: the table's size minus one, then its base.
#[derive(Clone, Copy, Debug, PartialEq, Eq, Structural)]
pub struct TablePointer {
    pub limit: u16,
    pub base: u32,
}

/// The operand of a far jump: the offset, then the code segment selector.
#[derive(Clone, Copy, Debug, PartialEq, Eq, Structural)]
pub struct FarPtr {
    pub offset: u32,
    pub selector: u16,
}

impl GdtEntry {
    /// The segment base that the descriptor encodes.
    pub open spec fn base_spec(self) -> int {
        self.base_low as int + self.base_mid as int * 0x1_0000 + self.base_high as int * 0x100_0000
    }

    /// The 20-bit segment limit that the descriptor encodes.
    pub open spec fn limit_spec(self) -> int {
        self.limit_low as int + (self.limit_flags & 0x0F) as int * 0x1_0000
    }

    /// Present bit of the access byte.
    pub open spec fn is_present(self) -> bool {
        self.access & 0x80 != 0
    }

    /// A code or data segment (the S bit), as opposed to a system segment.
    pub open spec fn is_code_or_data(self) -> bool {
        self.access & 0x10 != 0
    }

    /// An executable (code) segment.
    pub open spec fn is_code(self) -> bool {
        self.access & 0x08 != 0
    }

    /// Descriptor privilege level.
    pub open spec fn dpl(self) -> u8 {
        (self.access >> 5u8) & 3
    }

    /// Limit counted in 4 KiB units (G).
    pub open spec fn is_page_granular(self) -> bool {
        self.limit_flags & 0x80 != 0
    }

    /// 32-bit default operand size (DB).
    pub open spec fn is_32bit(self) -> bool {
        self.limit_flags & 0x40 != 0
    }

    /// 64-bit code segment (L).
    pub open spec fn is_long_mode(self) -> bool {
        self.limit_flags & 0x20 != 0
    }

    /// The null descriptor.
    pub fn zero() -> (e: GdtEntry)
        ensures
            e == (GdtEntry { limit_low: 0, base_low: 0, base_mid: 0, access: 0, limit_flags: 0, base_high: 0 }),
    {
        GdtEntry { limit_low: 0, base_low: 0, base_mid: 0, access: 0, limit_flags: 0, base_high: 0 }
    }
}

/// The boot GDT: the null descriptor, a flat 32-bit kernel code segment, a
/// flat kernel data segment and a 64-bit kernel code segment.
pub fn boot_gdt() -> (gdt: [GdtEntry; 4])
    ensures
        gdt@[0] == GdtEntry::zero_spec(),
        forall|i: int| 1 <= i < 4 ==> {
            &&& (#[trigger] gdt@[i]).base_spec() == 0
            &&& gdt@[i].limit_spec() == 0xF_FFFF
            &&& gdt@[i].is_present()
            &&& gdt@[i].is_code_or_data()
            &&& gdt@[i].dpl() == 0
            &&& gdt@[i].is_page_granular()
        },
        gdt@[1].is_code() && gdt@[1].is_32bit() && !gdt@[1].is_long_mode(),
        !gdt@[2].is_code() && gdt@[2].is_32bit(),
        gdt@[3].is_code() && gdt@[3].is_long_mode() && !gdt@[3].is_32bit(),
        gdt@[1] == (GdtEntry { limit_low: 0xFFFF, base_low: 0, base_mid: 0, access: 0x9A, limit_flags: 0xCF, base_high: 0 }),
        gdt@[2] == (GdtEntry { limit_low: 0xFFFF, base_low: 0, base_mid: 0, access: 0x92, limit_flags: 0xCF, base_high: 0 }),
        gdt@[3] == (GdtEntry { limit_low: 0xFFFF, base_low: 0, base_mid: 0, access: 0x9A, limit_flags: 0xAF, base_high: 0 }),
{
    let gdt = [
        GdtEntry::zero(),
        GdtEntry { limit_low: 0xFFFF, base_low: 0x0000, base_mid: 0x00, access: 0x9A, limit_flags: 0b1100_1111, base_high: 0x00 },
        GdtEntry { limit_low: 0xFFFF, base_low: 0x0000, base_mid: 0x00, access: 0x92, limit_flags: 0b1100_1111, base_high: 0x00 },
        GdtEntry { limit_low: 0xFFFF, base_low: 0x0000, base_mid: 0x00, access: 0x9A, limit_flags: 0b1010_1111, base_high: 0x00 },
    ];
    assert(0x9Au8 & 0x80u8 != 0 && 0x9Au8 & 0x10u8 != 0 && 0x9Au8 & 0x08u8 != 0 && (0x9Au8 >> 5u8) & 3u8 == 0)
        by (bit_vector);
    assert(0x92u8 & 0x80u8 != 0 && 0x92u8 & 0x10u8 != 0 && 0x92u8 & 0x08u8 == 0 && (0x92u8 >> 5u8) & 3u8 == 0)
        by (bit_vector);
    assert(0xCFu8 & 0x0Fu8 == 0x0Fu8 && 0xCFu8 & 0x80u8 != 0 && 0xCFu8 & 0x40u8 != 0 && 0xCFu8 & 0x20u8 == 0)
        by (bit_vector);
    assert(0xAFu8 & 0x0Fu8 == 0x0Fu8 && 0xAFu8 & 0x80u8 != 0 && 0xAFu8 & 0x40u8 == 0 && 0xAFu8 & 0x20u8 != 0)
        by (bit_vector);
    gdt
}

impl GdtEntry {
    pub open spec fn zero_spec() -> GdtEntry {
        GdtEntry { limit_low: 0, base_low: 0, base_mid: 0, access: 0, limit_flags: 0, base_high: 0 }
    }
}

/// The LGDT operand for a table of `entries` descriptors at `base`: the
/// limit is the table's size in bytes minus one.
pub fn gdt_pointer(entries: usize, base: u32) -> (p: TablePointer)
    requires
        1 <= entries <= 8192,
    ensures
        p.limit == entries * 8 - 1,
        p.base == base,
{
    TablePointer { limit: (entries * GDT_ENTRY_SIZE - 1) as u16, base }
}

impl TablePointer {
    /// The empty table (limit 0, base 0), loaded as the IDT while the CPU
    /// runs with interrupts disabled.
    pub fn empty() -> (p: TablePointer)
        ensures
            p.limit == 0,
            p.base == 0,
    {
        TablePointer { limit: 0, base: 0 }
    }
}

/// The selector of GDT descriptor `index` with privilege level 0.
pub fn segment_selector(index: u16) -> (s: u16)
    requires
        index < 8192,
    ensures
        s == index * 8,
        s >> 3u16 == index,
        s & 7 == 0,
{
    proof {
        assert(index < 8192u16 ==> (index << 3u16) == index * 8 && ((index << 3u16) >> 3u16) == index
            && (index << 3u16) & 7u16 == 0) by (bit_vector);
    }
    index << 3
}

/// The far pointer that jumps to `offset` in the code segment of GDT
/// descriptor `index`.
pub fn far_pointer(offset: u32, index: u16) -> (p: FarPtr)
    requires
        index < 8192,
    ensures
        p.offset == offset,
        p.selector == index * 8,
{
    FarPtr { offset, selector: segment_selector(index) }
}

/// The fixed selectors that the stages use name the boot GDT's descriptors:
/// 0x08 the 32-bit code segment, 0x10 the data segment, 0x18 the 64-bit code
/// segment.
pub proof fn lemma_boot_selectors()
    ensures
        CODE32_SELECTOR == 1 * 8,
        DATA_SELECTOR == 2 * 8,
        CODE64_SELECTOR == 3 * 8,
        (CODE32_SELECTOR >> 3u16) == 1 && (DATA_SELECTOR >> 3u16) == 2 && (CODE64_SELECTOR >> 3u16) == 3,
        GDT_ENTRIES * GDT_ENTRY_SIZE - 1 == 31,
{
    assert((0x08u16 >> 3u16) == 1 && (0x10u16 >> 3u16) == 2 && (0x18u16 >> 3u16) == 3) by (bit_vector);
}

} // verus!
