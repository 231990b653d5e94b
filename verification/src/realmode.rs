//! Decisions of the real-mode stage: loading stage 2 from disk, and turning
//! on the A20 line.
use vstd::prelude::*;

verus! {

/// Number of sectors that hold stage 2 (read from sector 2 to 0x7E00).
pub const STAGE2_SECTORS: u8 = 48;

/// How many times stage 1 tries to read stage 2 before it gives up.
pub const DISK_READ_ATTEMPTS: u32 = 3;

/// A real-mode segment:offset pointer.
#[derive(Clone, Copy, Debug, PartialEq, Eq, Structural)]
pub struct SegPtr(pub u16, pub u16);

impl SegPtr {
    /// The linear address that segment:offset names: `segment * 16 + offset`.
    pub open spec fn linear_spec(self) -> int {
        self.0 as int * 16 + self.1 as int
    }

    /// The linear address that segment:offset names.
    pub fn linear_address(&self) -> (a: u32)
        ensures
            a == self.linear_spec(),
            a < 0x11_0000,
    {
        self.0 as u32 * 16 + self.1 as u32
    }
}

/// The address that reaches memory: with the A20 line off, bit 20 is forced
/// to 0, so addresses 1 MiB apart alias.
pub open spec fn bus_address(addr: u32, a20_enabled: bool) -> u32 {
    if a20_enabled {
        addr
    } else {
        addr & !0x10_0000u32
    }
}

/// The low probe of the A20 check, 0000:0500 (linear 0x000500).
pub fn a20_probe_low() -> (p: SegPtr)
    ensures
        p == SegPtr(0x0000, 0x0500),
{
    SegPtr(0x0000, 0x0500)
}

/// The high probe of the A20 check, FFFF:0510 (linear 0x100500).
pub fn a20_probe_high() -> (p: SegPtr)
    ensures
        p == SegPtr(0xFFFF, 0x0510),
{
    SegPtr(0xFFFF, 0x0510)
}

/// The verdict of the A20 check: 0x00 was written to the low probe, then 0xFF
/// to the high probe, and `low_read_back` is what the low probe then holds.
/// A20 is on unless the write to the high probe landed on the low one.
pub fn a20_check_verdict(low_read_back: u8) -> (enabled: bool)
    ensures
        enabled == (low_read_back != 0xFF),
{
    low_read_back != 0xFF
}

/// The two probes are exactly 1 MiB apart, so they reach the same byte when
/// the A20 line is off and different bytes when it is on; writing 0x00 to the
/// low probe and 0xFF to the high one therefore leaves 0xFF at the low probe
/// exactly when A20 is off, and the check's verdict is right.
pub proof fn lemma_a20_check_sound(mem: Map<u32, u8>, a20_enabled: bool)
    ensures
        SegPtr(0x0000, 0x0500).linear_spec() == 0x500,
        SegPtr(0xFFFF, 0x0510).linear_spec() == 0x10_0500,
        bus_address(0x500, false) == bus_address(0x10_0500, false),
        bus_address(0x500, true) != bus_address(0x10_0500, true),
        ({
            let low = bus_address(0x500, a20_enabled);
            let high = bus_address(0x10_0500, a20_enabled);
            let after = mem.insert(low, 0u8).insert(high, 0xFFu8);
            (after[low] != 0xFF) == a20_enabled
        }),
{
    assert(0x500u32 & !0x10_0000u32 == 0x500u32 && 0x10_0500u32 & !0x10_0000u32 == 0x500u32) by (bit_vector);
}

/// The ways of turning A20 on, in the order they are tried.  The fast gate
/// comes last because it can crash some machines.
#[derive(Clone, Copy, Debug, PartialEq, Eq, Structural)]
pub enum A20Method {
    /// BIOS INT 15h, AX=2401h.
    Bios,
    /// Output port of the 8042 keyboard controller.
    KeyboardController,
    /// Bit 1 of System Control Port A (0x92).
    FastGate,
}

/// What to do next while turning A20 on.
#[derive(Clone, Copy, Debug, PartialEq, Eq, Structural)]
pub enum A20Step {
    /// A20 is on.
    Enabled,
    /// Try this method, then check again.
    Try(A20Method),
    /// Every method has been tried and A20 is still off.
    Failed,
}

/// The next step after a check of A20: `last` is the method tried before the
/// check (`None` for the first check), `enabled` the check's verdict.
pub fn a20_next_step(last: Option<A20Method>, enabled: bool) -> (step: A20Step)
    ensures
        step == (if enabled {
            A20Step::Enabled
        } else {
            match last {
                None => A20Step::Try(A20Method::Bios),
                Some(A20Method::Bios) => A20Step::Try(A20Method::KeyboardController),
                Some(A20Method::KeyboardController) => A20Step::Try(A20Method::FastGate),
                Some(A20Method::FastGate) => A20Step::Failed,
            }
        }),
{
    if enabled {
        A20Step::Enabled
    } else {
        match last {
            None => A20Step::Try(A20Method::Bios),
            Some(A20Method::Bios) => A20Step::Try(A20Method::KeyboardController),
            Some(A20Method::KeyboardController) => A20Step::Try(A20Method::FastGate),
            Some(A20Method::FastGate) => A20Step::Failed,
        }
    }
}

/// Port of the 8042 keyboard controller's status and command register.
pub const KBC_STATUS_PORT: u16 = 0x64;

/// Port of the 8042 keyboard controller's data register.
pub const KBC_DATA_PORT: u16 = 0x60;

/// Command: the next data byte goes to the controller's output port.
pub const KBC_WRITE_OUTPUT_PORT: u8 = 0xD1;

/// Output port value with the A20 gate bit set.
pub const KBC_OUTPUT_A20_ON: u8 = 0xDF;

/// System Control Port A.
pub const FAST_A20_PORT: u16 = 0x92;

/// Whether the keyboard controller's input buffer is still full (status bit
/// 1), so that it cannot take another byte yet.
pub fn kbc_input_full(status: u8) -> (busy: bool)
    ensures
        busy == (status & 2 != 0),
{
    status & 2 != 0
}

/// The value for System Control Port A that opens the A20 gate: bit 1 set,
/// the other bits as read.
pub fn fast_a20_value(port_a: u8) -> (v: u8)
    ensures
        v == port_a | 2,
        v & 2 == 2,
        v & !2u8 == port_a & !2u8,
{
    proof {
        assert((port_a | 2u8) & 2u8 == 2u8 && (port_a | 2u8) & !2u8 == port_a & !2u8) by (bit_vector);
    }
    port_a | 2
}

/// Whether a BIOS disk read of stage 2 worked: the carry flag came back clear
/// and all of its sectors were read.
pub fn disk_read_succeeded(carry_clear: bool, sectors_read: u8) -> (ok: bool)
    ensures
        ok == (carry_clear && sectors_read == STAGE2_SECTORS),
{
    carry_clear && sectors_read == STAGE2_SECTORS
}

/// What stage 1 does after a disk read.
#[derive(Clone, Copy, Debug, PartialEq, Eq, Structural)]
pub enum DiskStep {
    /// Stage 2 is in memory: jump to it.
    JumpToStage2,
    /// Read again.
    Retry,
    /// Report the error and stop.
    GiveUp,
}

/// The next step after the `attempts`-th read (counting from 1) of stage 2.
pub fn disk_next_step(attempts: u32, succeeded: bool) -> (step: DiskStep)
    ensures
        step == (if succeeded {
            DiskStep::JumpToStage2
        } else if attempts < DISK_READ_ATTEMPTS {
            DiskStep::Retry
        } else {
            DiskStep::GiveUp
        }),
{
    if succeeded {
        DiskStep::JumpToStage2
    } else if attempts < DISK_READ_ATTEMPTS {
        DiskStep::Retry
    } else {
        DiskStep::GiveUp
    }
}

} // verus!
