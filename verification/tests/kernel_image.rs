use oscons::kernel_image::{load_kernel, load_parsed_kernel, ElfLayout, LoadError, ProgramSegment, SegmentFault, PT_LOAD};
use oscons::relocation::{Relocation, R_X86_64_RELATIVE};

/// A program header: p_type, p_offset, p_vaddr, p_filesz, p_memsz.
type Phdr = [u64; 5];

/// A little-endian ELF64 file: header, program headers, payload, and, when
/// `relas` is given, a `.rela.dyn` section with those (r_offset, r_type,
/// r_addend) entries and the section name table.
fn elf_file(entry: u64, phdrs: &[Phdr], payload: &[u8], relas: Option<&[(u64, u32, i64)]>) -> Vec<u8> {
    let payload_at = 64 + 56 * phdrs.len();
    let mut body = Vec::new();
    for p in phdrs {
        body.extend_from_slice(&(p[0] as u32).to_le_bytes());
        body.extend_from_slice(&5u32.to_le_bytes()); // p_flags
        body.extend_from_slice(&p[1].to_le_bytes());
        body.extend_from_slice(&p[2].to_le_bytes());
        body.extend_from_slice(&p[2].to_le_bytes()); // p_paddr
        body.extend_from_slice(&p[3].to_le_bytes());
        body.extend_from_slice(&p[4].to_le_bytes());
        body.extend_from_slice(&0x1000u64.to_le_bytes());
    }
    body.extend_from_slice(payload);
    let (mut shoff, mut shnum, mut shstrndx) = (0u64, 0u16, 0u16);
    if let Some(relas) = relas {
        let rela_at = 64 + body.len();
        for &(off, ty, addend) in relas {
            body.extend_from_slice(&off.to_le_bytes());
            body.extend_from_slice(&(ty as u64).to_le_bytes()); // r_info: symbol 0
            body.extend_from_slice(&addend.to_le_bytes());
        }
        let strtab_at = 64 + body.len();
        let names = b"\0.rela.dyn\0.shstrtab\0";
        body.extend_from_slice(names);
        shoff = (64 + body.len()) as u64;
        let section = |name: u32, ty: u32, off: usize, size: usize, entsize: u64| {
            let mut h = Vec::new();
            h.extend_from_slice(&name.to_le_bytes());
            h.extend_from_slice(&ty.to_le_bytes());
            h.extend_from_slice(&0u64.to_le_bytes()); // sh_flags
            h.extend_from_slice(&0u64.to_le_bytes()); // sh_addr
            h.extend_from_slice(&(off as u64).to_le_bytes());
            h.extend_from_slice(&(size as u64).to_le_bytes());
            h.extend_from_slice(&0u32.to_le_bytes()); // sh_link
            h.extend_from_slice(&0u32.to_le_bytes()); // sh_info
            h.extend_from_slice(&8u64.to_le_bytes()); // sh_addralign
            h.extend_from_slice(&entsize.to_le_bytes());
            h
        };
        body.extend(section(0, 0, 0, 0, 0));
        body.extend(section(1, 4, rela_at, 24 * relas.len(), 24));
        body.extend(section(11, 3, strtab_at, names.len(), 0));
        shnum = 3;
        shstrndx = 2;
    }
    let mut f = vec![0x7F, b'E', b'L', b'F', 2, 1, 1, 0, 0, 0, 0, 0, 0, 0, 0, 0];
    f.extend_from_slice(&3u16.to_le_bytes()); // e_type: shared object
    f.extend_from_slice(&0x3Eu16.to_le_bytes()); // e_machine: x86-64
    f.extend_from_slice(&1u32.to_le_bytes()); // e_version
    f.extend_from_slice(&entry.to_le_bytes());
    let phoff: u64 = if phdrs.is_empty() { 0 } else { 64 };
    f.extend_from_slice(&phoff.to_le_bytes());
    f.extend_from_slice(&shoff.to_le_bytes());
    f.extend_from_slice(&0u32.to_le_bytes()); // e_flags
    f.extend_from_slice(&64u16.to_le_bytes()); // e_ehsize
    f.extend_from_slice(&56u16.to_le_bytes()); // e_phentsize
    f.extend_from_slice(&(phdrs.len() as u16).to_le_bytes());
    f.extend_from_slice(&64u16.to_le_bytes()); // e_shentsize
    f.extend_from_slice(&shnum.to_le_bytes());
    f.extend_from_slice(&shstrndx.to_le_bytes());
    assert_eq!(f.len(), 64);
    f.extend(body);
    assert_eq!(payload_at as u64, if phdrs.is_empty() { 64 } else { 64 + 56 * phdrs.len() as u64 });
    f
}

fn payload_offset(n: usize) -> u64 {
    64 + 56 * n as u64
}

#[test]
fn loads_segments_and_zero_fills() {
    let off = payload_offset(2);
    let file = elf_file(0x10, &[[1, off, 0x4, 3, 6], [1, off + 3, 0x20, 2, 2]], &[0xAA, 0xBB, 0xCC, 0xDD, 0xEE], None);
    let mut image = vec![0x55u8; 0x30];
    assert_eq!(load_kernel(&file, &mut image, 0xFFFF_8000_0000_0000), Ok(0x10));
    assert_eq!(&image[0..4], &[0x55; 4]);
    assert_eq!(&image[4..10], &[0xAA, 0xBB, 0xCC, 0, 0, 0]);
    assert_eq!(&image[10..0x20], &[0x55; 0x16]);
    assert_eq!(&image[0x20..0x22], &[0xDD, 0xEE]);
    assert_eq!(&image[0x22..], &[0x55; 0x0E]);
}

#[test]
fn skips_segments_that_are_not_loadable() {
    let off = payload_offset(2);
    let file = elf_file(0x44, &[[4, off, 0, 2, 2], [1, off, 8, 2, 2]], &[1, 2], None);
    let mut image = vec![9u8; 16];
    assert_eq!(load_kernel(&file, &mut image, 0), Ok(0x44));
    assert_eq!(image, vec![9, 9, 9, 9, 9, 9, 9, 9, 1, 2, 9, 9, 9, 9, 9, 9]);
}

#[test]
fn file_without_program_headers_loads_nothing() {
    let file = elf_file(0x99, &[], &[], None);
    let mut image = vec![7u8; 8];
    assert_eq!(load_kernel(&file, &mut image, 0), Ok(0x99));
    assert_eq!(image, vec![7u8; 8]);
}

#[test]
fn applies_relative_relocations_for_the_virtual_base() {
    let off = payload_offset(1);
    let file = elf_file(
        0x8,
        &[[1, off, 0, 4, 0x20]],
        &[0x11, 0x22, 0x33, 0x44],
        Some(&[(0x8, R_X86_64_RELATIVE, 0x1234), (0x10, 7, 0x99), (0x18, R_X86_64_RELATIVE, -8)]),
    );
    let mut image = vec![0xAAu8; 0x20];
    let base = 0xFFFF_8080_0020_0000u64;
    assert_eq!(load_kernel(&file, &mut image, base), Ok(0x8));
    assert_eq!(&image[0..4], &[0x11, 0x22, 0x33, 0x44]);
    assert_eq!(&image[4..8], &[0, 0, 0, 0]);
    assert_eq!(u64::from_le_bytes(image[8..16].try_into().unwrap()), base + 0x1234);
    assert_eq!(&image[0x10..0x18], &[0; 8]); // not a relative relocation: untouched
    assert_eq!(u64::from_le_bytes(image[0x18..0x20].try_into().unwrap()), base - 8);
}

#[test]
fn reports_a_relocation_outside_the_image() {
    let off = payload_offset(1);
    let file = elf_file(0, &[[1, off, 0, 1, 8]], &[1], Some(&[(0x0, R_X86_64_RELATIVE, 1), (0x1C, R_X86_64_RELATIVE, 1)]));
    let mut image = vec![0xAAu8; 0x20];
    assert_eq!(load_kernel(&file, &mut image, 0x1000), Err(LoadError::Relocation { index: 1 }));
    assert_eq!(image, vec![0xAAu8; 0x20]);
}

#[test]
fn refuses_a_file_without_elf_magic() {
    let mut file = elf_file(0x10, &[], &[], None);
    file[1] = b'X';
    let mut image = vec![3u8; 4];
    assert_eq!(load_kernel(&file, &mut image, 0), Err(LoadError::MalformedElf));
    assert_eq!(image, vec![3u8; 4]);
    assert_eq!(load_kernel(&[0x7F, b'E', b'L'], &mut image, 0), Err(LoadError::MalformedElf));
}

#[test]
fn reports_a_segment_whose_file_size_exceeds_its_memory_size() {
    let off = payload_offset(1);
    let file = elf_file(0, &[[1, off, 0, 4, 2]], &[1, 2, 3, 4], None);
    let mut image = vec![0u8; 16];
    assert_eq!(
        load_kernel(&file, &mut image, 0),
        Err(LoadError::Segment { index: 0, fault: SegmentFault::FileLargerThanMemory })
    );
}

#[test]
fn reports_a_segment_outside_the_file_and_leaves_the_image() {
    let off = payload_offset(2);
    let file = elf_file(0, &[[1, off, 0, 1, 1], [1, off, 4, 100, 100]], &[5], None);
    let mut image = vec![0u8; 256];
    assert_eq!(
        load_kernel(&file, &mut image, 0),
        Err(LoadError::Segment { index: 1, fault: SegmentFault::OutsideFile })
    );
    assert_eq!(image, vec![0u8; 256]);
}

#[test]
fn reports_a_segment_outside_the_image() {
    let off = payload_offset(1);
    let file = elf_file(0, &[[1, off, 6, 1, 4]], &[5], None);
    let mut image = vec![0u8; 8];
    assert_eq!(
        load_kernel(&file, &mut image, 0),
        Err(LoadError::Segment { index: 0, fault: SegmentFault::OutsideImage })
    );
}

#[test]
fn loads_a_parsed_layout() {
    let seg = ProgramSegment {
        p_type: PT_LOAD,
        p_offset: 1,
        p_vaddr: 2,
        p_paddr: 2,
        p_filesz: 2,
        p_memsz: 3,
        p_flags: 0,
        p_align: 1,
    };
    let layout = ElfLayout { entry: 7, segments: Some(vec![seg]) };
    let mut image = vec![0xFFu8; 16];
    let relocs = Some(vec![Relocation { r_offset: 8, r_sym: 0, r_type: R_X86_64_RELATIVE, r_addend: 2 }]);
    assert_eq!(load_parsed_kernel(&layout, &relocs, &[10, 11, 12, 13], &mut image, 0x100), Ok(7));
    assert_eq!(image, vec![0xFF, 0xFF, 11, 12, 0, 0xFF, 0xFF, 0xFF, 0x02, 0x01, 0, 0, 0, 0, 0, 0]);
    let mut small = vec![0u8; 4];
    assert_eq!(
        load_parsed_kernel(&layout, &None, &[10, 11, 12, 13], &mut small, 0),
        Err(LoadError::Segment { index: 0, fault: SegmentFault::OutsideImage })
    );
}
