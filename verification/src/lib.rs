//! Verified logic of a BIOS bootloader that walks the CPU from real mode to
//! long mode and hands over to a relocated upper-half kernel.
pub mod boot;
pub mod cpu;
pub mod e820;
pub mod gdt;
pub mod kernel_image;
pub mod paging;
pub mod realmode;
pub mod relocation;
pub mod text;
pub mod vga;

pub use boot::BootInfo;
pub use e820::{E820Entry, EntryType, MAX_E820_ENTRIES, MemoryMap};
pub use gdt::{FarPtr, GDT_ENTRIES, GdtEntry, TablePointer};
pub use paging::{PAGE_PRESENT, PAGE_PS, PAGE_RW, PageTable};
pub use vga::{VGA_COLS, VGA_ROWS, Vga, WHITE_ON_BLACK, vga_cell};
