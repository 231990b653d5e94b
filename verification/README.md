# oscons

The logic of a BIOS bootloader that takes an x86 machine from real mode to
long mode and hands over to an ELF kernel relocated into the upper half of
the address space, with machine-checked proofs of its contracts.

* `src/` — the verified library: the E820 memory map and its console text,
  the boot GDT and descriptor pointers, control-register and MSR values, the
  real-mode decisions (disk reads, A20), the VGA console cursor, the boot
  page tables with a model of the page walk, the expansion of the kernel's
  `PT_LOAD` segments, and the long-mode hand-over.
* `app/` — the machine side: inline assembly, BIOS calls, the VGA buffer,
  the statics with their fixed layouts, and the stage entry points.
* `tests/` — tests of the library on concrete values.
