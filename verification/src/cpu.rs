//! Control-register and MSR values of the mode switches, and the handling of
//! RDRAND's reply.
use vstd::prelude::*;

verus! {

/// CR0.PE: protected mode.
pub const CR0_PE: usize = 0x1;

/// CR0.PG: paging.
pub const CR0_PG: usize = 0x8000_0000;

/// CR4.PAE: physical address extension, needed before long mode.
pub const CR4_PAE: usize = 0x20;

/// The number of the IA32_EFER model-specific register.
pub const EFER_MSR: u32 = 0xC000_0080;

/// EFER.LME: long mode enable.
pub const EFER_LME: u64 = 0x100;

/// CR0 with protected mode switched on and every other bit kept.
pub fn with_protected_mode(cr0: usize) -> (r: usize)
    ensures
        r == cr0 | CR0_PE,
        r & CR0_PE == CR0_PE,
        r & !CR0_PE == cr0 & !CR0_PE,
{
    proof {
        assert((cr0 | 1usize) & 1usize == 1usize && (cr0 | 1usize) & !1usize == cr0 & !1usize) by (bit_vector);
    }
    cr0 | CR0_PE
}

/// CR0 with paging switched on and every other bit kept.
pub fn with_paging(cr0: usize) -> (r: usize)
    ensures
        r == cr0 | CR0_PG,
        r & CR0_PG == CR0_PG,
        r & !CR0_PG == cr0 & !CR0_PG,
{
    proof {
        assert((cr0 | 0x8000_0000usize) & 0x8000_0000usize == 0x8000_0000usize
            && (cr0 | 0x8000_0000usize) & !0x8000_0000usize == cr0 & !0x8000_0000usize) by (bit_vector);
    }
    cr0 | CR0_PG
}

/// CR4 with PAE switched on and every other bit kept.
pub fn with_pae(cr4: usize) -> (r: usize)
    ensures
        r == cr4 | CR4_PAE,
        r & CR4_PAE == CR4_PAE,
        r & !CR4_PAE == cr4 & !CR4_PAE,
{
    proof {
        assert((cr4 | 0x20usize) & 0x20usize == 0x20usize && (cr4 | 0x20usize) & !0x20usize == cr4 & !0x20usize)
            by (bit_vector);
    }
    cr4 | CR4_PAE
}

/// EFER with long mode enabled and every other bit kept.
pub fn with_long_mode(efer: u64) -> (r: u64)
    ensures
        r == efer | EFER_LME,
        r & EFER_LME == EFER_LME,
        r & !EFER_LME == efer & !EFER_LME,
{
    proof {
        assert((efer | 0x100u64) & 0x100u64 == 0x100u64 && (efer | 0x100u64) & !0x100u64 == efer & !0x100u64)
            by (bit_vector);
    }
    efer | EFER_LME
}

/// The 64-bit value that RDMSR returns in EDX (high half) and EAX (low half).
pub fn msr_value(lo: u32, hi: u32) -> (v: u64)
    ensures
        v == hi as int * 0x1_0000_0000 + lo as int,
{
    proof {
        assert((hi as u64) << 32u64 | lo as u64 == hi as u64 * 0x1_0000_0000u64 + lo as u64) by (bit_vector);
    }
    (hi as u64) << 32 | lo as u64
}

/// The halves of a value for WRMSR: the low half for EAX, the high half for EDX.
pub fn msr_halves(v: u64) -> (halves: (u32, u32))
    ensures
        halves.0 == v % 0x1_0000_0000,
        halves.1 == v / 0x1_0000_0000,
{
    proof {
        assert(v & 0xFFFF_FFFFu64 == v % 0x1_0000_0000u64 && v >> 32u64 == v / 0x1_0000_0000u64
            && v >> 32u64 <= 0xFFFF_FFFFu64) by (bit_vector);
    }
    ((v & 0xFFFF_FFFF) as u32, (v >> 32) as u32)
}

/// Splitting a value into MSR halves and joining them again gives it back.
pub proof fn lemma_msr_roundtrip(v: u64)
    ensures
        (v / 0x1_0000_0000) * 0x1_0000_0000 + v % 0x1_0000_0000 == v,
{
    assert((v / 0x1_0000_0000u64) * 0x1_0000_0000u64 + v % 0x1_0000_0000u64 == v) by (bit_vector);
}

/// RDRAND's reply: the random value when the carry flag came back set, and
/// `None` when the generator had no entropy yet and must be asked again.
pub fn rdrand_outcome(carry_set: u8, value: u64) -> (r: Option<u64>)
    ensures
        r == (if carry_set != 0 { Some(value) } else { None::<u64> }),
{
    if carry_set != 0 {
        Some(value)
    } else {
        None
    }
}

} // verus!
