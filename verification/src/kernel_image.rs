//! Expansion of the kernel ELF file into its memory image.
//!
//! The boot disk carries the kernel as an ELF file.  Every `PT_LOAD` program
//! header names a run of file bytes (`p_offset`, `p_filesz`) and the place in
//! the kernel image where they go (`p_vaddr`, `p_memsz`); the bytes between
//! `p_filesz` and `p_memsz` are zero-filled.  The image is modelled as a byte
//! slice that starts at the kernel's load base.
use vstd::prelude::*;

use elf::endian::LittleEndian;
use elf::ElfBytes;

use crate::relocation::{
    Relocation, le_bytes, lemma_last_relocation_wins, lemma_le_bytes_value, lemma_no_relocation_fault_each,
    lemma_relocations_len, lemma_relocations_keep_other_bytes, relocated_value, word_at, is_relative, apply_relocations_spec, elf_section_relocations, find_relocation_fault,
    first_relocation_fault, lemma_first_relocation_fault_bounds, parse_elf_relocations, relocate_all,
};

verus! {

/// Declares the `elf` crate's parse error so that the parser wrapper can hand it back.
#[verifier::external_type_specification]
#[verifier::external_body]
pub struct ExElfParseError(elf::ParseError);

/// The program-header type of a loadable segment (`PT_LOAD` in the ELF specification).
pub const PT_LOAD: u32 = 1;

/// One program header of the kernel file, as plain values.
#[derive(Clone, Copy, Debug, PartialEq, Eq, Structural)]
pub struct ProgramSegment {
    pub p_type: u32,
    pub p_offset: u64,
    pub p_vaddr: u64,
    pub p_paddr: u64,
    pub p_filesz: u64,
    pub p_memsz: u64,
    pub p_flags: u32,
    pub p_align: u64,
}

/// What the loader reads of a parsed ELF file: the entry point of its file
/// header and, where the file has one, its program header table.
pub struct ElfLayout {
    pub entry: u64,
    pub segments: Option<Vec<ProgramSegment>>,
}

/// The mathematical content of an [`ElfLayout`].
pub ghost struct ElfLayoutView {
    pub entry: u64,
    pub segments: Option<Seq<ProgramSegment>>,
}

impl ElfLayoutView {
    /// The program headers, an absent table counting as an empty one.
    pub open spec fn segment_list(self) -> Seq<ProgramSegment> {
        match self.segments {
            Some(s) => s,
            None => Seq::empty(),
        }
    }
}

impl View for ElfLayout {
    type V = ElfLayoutView;

    open spec fn view(&self) -> ElfLayoutView {
        ElfLayoutView {
            entry: self.entry,
            segments: match self.segments {
                Some(v) => Some(v@),
                None => None,
            },
        }
    }
}

/// What `elf::ElfBytes::<LittleEndian>::minimal_parse` makes of a file, read
/// back as its header's entry point and its segment table's program headers;
/// `None` where it refuses the file.
pub uninterp spec fn elf_file_layout(data: Seq<u8>) -> Option<ElfLayoutView>;

/// Whether the file starts with a full 16-byte ELF identification whose
/// first four bytes are the magic number `0x7F 'E' 'L' 'F'`.
pub open spec fn has_elf_magic(data: Seq<u8>) -> bool {
    &&& data.len() >= 16
    &&& data[0] == 0x7F
    &&& data[1] == 0x45
    &&& data[2] == 0x4C
    &&& data[3] == 0x46
}

/// Calls `elf::ElfBytes::<LittleEndian>::minimal_parse` on `data` and converts
/// the parsed file into an [`ElfLayout`]: the header field `e_entry`, and the
/// program headers that the table from `segments()` yields through its own
/// iterator, field by field.  The contract claims that the outcome is the
/// named function [`elf_file_layout`] of the bytes, and that a file without
/// the 16-byte identification and its magic number is refused (the crate
/// reads `data[0..16]` first and checks the magic); which other files the
/// crate accepts is left unsaid.
#[verifier::external_body]
fn parse_elf_layout(data: &[u8]) -> (r: Result<ElfLayout, elf::ParseError>)
    ensures
        r matches Ok(l) ==> elf_file_layout(data@) == Some(l@),
        r is Err ==> elf_file_layout(data@) is None,
        !has_elf_magic(data@) ==> r is Err,
{
    let file = ElfBytes::<LittleEndian>::minimal_parse(data)?;
    let segments = file.segments().map(|table| table.iter().map(|ph| ProgramSegment {
        p_type: ph.p_type, p_offset: ph.p_offset, p_vaddr: ph.p_vaddr, p_paddr: ph.p_paddr,
        p_filesz: ph.p_filesz, p_memsz: ph.p_memsz, p_flags: ph.p_flags, p_align: ph.p_align,
    }).collect());
    Ok(ElfLayout { entry: file.ehdr.e_entry, segments })
}

/// Why a loadable segment cannot be expanded.
#[derive(Clone, Copy, Debug, PartialEq, Eq, Structural)]
pub enum SegmentFault {
    /// `p_filesz` exceeds `p_memsz`.
    FileLargerThanMemory,
    /// `p_offset + p_filesz` lies beyond the end of the file.
    OutsideFile,
    /// `p_vaddr + p_memsz` lies beyond the end of the image.
    OutsideImage,
}

/// Why the kernel could not be loaded.
#[derive(Clone, Copy, Debug, PartialEq, Eq, Structural)]
pub enum LoadError {
    /// The ELF parser refused the file.
    MalformedElf,
    /// The program header at `index` describes a loadable segment that does not fit.
    Segment { index: usize, fault: SegmentFault },
    /// The relative relocation at `index` of `.rela.dyn` names a slot outside the image.
    Relocation { index: usize },
}

pub open spec fn is_load(s: ProgramSegment) -> bool {
    s.p_type == PT_LOAD
}

/// The fault of a segment, checked in this order; segments that are not
/// loadable never fault.
pub open spec fn segment_fault(s: ProgramSegment, file_len: int, image_len: int) -> Option<SegmentFault> {
    if !is_load(s) {
        None
    } else if s.p_filesz > s.p_memsz {
        Some(SegmentFault::FileLargerThanMemory)
    } else if s.p_offset + s.p_filesz > file_len {
        Some(SegmentFault::OutsideFile)
    } else if s.p_vaddr + s.p_memsz > image_len {
        Some(SegmentFault::OutsideImage)
    } else {
        None
    }
}

/// The first faulty segment, with its index.
pub open spec fn first_fault(segs: Seq<ProgramSegment>, file_len: int, image_len: int) -> Option<(int, SegmentFault)>
    decreases segs.len(),
{
    if segs.len() == 0 {
        None
    } else {
        match first_fault(segs.drop_last(), file_len, image_len) {
            Some(f) => Some(f),
            None => match segment_fault(segs.last(), file_len, image_len) {
                Some(f) => Some((segs.len() - 1, f)),
                None => None,
            },
        }
    }
}

/// Whether the segment puts a byte at image offset `a`.
pub open spec fn covers(s: ProgramSegment, a: int) -> bool {
    is_load(s) && s.p_vaddr <= a < s.p_vaddr + s.p_memsz
}

/// The byte that the segment puts at image offset `a`, for `a` that it covers.
pub open spec fn segment_byte(s: ProgramSegment, file: Seq<u8>, a: int) -> u8 {
    if a < s.p_vaddr + s.p_filesz {
        file[s.p_offset + (a - s.p_vaddr)]
    } else {
        0
    }
}

/// The image after one segment has been expanded into it.
pub open spec fn expand_segment(image: Seq<u8>, file: Seq<u8>, s: ProgramSegment) -> Seq<u8> {
    Seq::new(image.len(), |a: int| if covers(s, a) { segment_byte(s, file, a) } else { image[a] })
}

/// The image after the segments have been expanded in order.
pub open spec fn expand_segments_spec(image: Seq<u8>, file: Seq<u8>, segs: Seq<ProgramSegment>) -> Seq<u8>
    decreases segs.len(),
{
    if segs.len() == 0 {
        image
    } else {
        expand_segment(expand_segments_spec(image, file, segs.drop_last()), file, segs.last())
    }
}

proof fn lemma_first_fault_bounds(segs: Seq<ProgramSegment>, file_len: int, image_len: int)
    ensures
        first_fault(segs, file_len, image_len) matches Some((i, f)) ==> {
            &&& 0 <= i < segs.len()
            &&& segment_fault(segs[i], file_len, image_len) == Some(f)
        },
    decreases segs.len(),
{
    if segs.len() > 0 {
        lemma_first_fault_bounds(segs.drop_last(), file_len, image_len);
    }
}

proof fn lemma_expand_len(image: Seq<u8>, file: Seq<u8>, segs: Seq<ProgramSegment>)
    ensures
        expand_segments_spec(image, file, segs).len() == image.len(),
    decreases segs.len(),
{
    if segs.len() > 0 {
        lemma_expand_len(image, file, segs.drop_last());
    }
}

/// Finds the first loadable segment that does not fit the file and the image.
fn find_fault(segs: &Vec<ProgramSegment>, file_len: usize, image_len: usize) -> (r: Option<(usize, SegmentFault)>)
    ensures
        match first_fault(segs@, file_len as int, image_len as int) {
            Some((i, f)) => r == Some((i as usize, f)),
            None => r is None,
        },
{
    let mut i: usize = 0;
    while i < segs.len()
        invariant
            i <= segs.len(),
            first_fault(segs@.take(i as int), file_len as int, image_len as int) is None,
        decreases segs.len() - i,
    {
        let s = segs[i];
        assert(segs@.take(i as int + 1).drop_last() == segs@.take(i as int));
        assert(segs@.take(i as int + 1).last() == s);
        let fault = if s.p_type != PT_LOAD {
            None
        } else if s.p_filesz > s.p_memsz {
            Some(SegmentFault::FileLargerThanMemory)
        } else if s.p_offset as u128 + s.p_filesz as u128 > file_len as u128 {
            Some(SegmentFault::OutsideFile)
        } else if s.p_vaddr as u128 + s.p_memsz as u128 > image_len as u128 {
            Some(SegmentFault::OutsideImage)
        } else {
            None
        };
        match fault {
            Some(f) => {
                proof {
                    lemma_first_fault_prefix(segs@, i as int + 1, file_len as int, image_len as int);
                }
                return Some((i, f));
            },
            None => {},
        }
        i = i + 1;
    }
    assert(segs@.take(i as int) == segs@);
    None
}

/// A fault found in a prefix is the fault of the whole sequence.
proof fn lemma_first_fault_prefix(segs: Seq<ProgramSegment>, n: int, file_len: int, image_len: int)
    requires
        0 <= n <= segs.len(),
        first_fault(segs.take(n), file_len, image_len) is Some,
    ensures
        first_fault(segs, file_len, image_len) == first_fault(segs.take(n), file_len, image_len),
    decreases segs.len() - n,
{
    if n < segs.len() {
        assert(segs.take(n + 1).drop_last() == segs.take(n));
        lemma_first_fault_prefix(segs, n + 1, file_len, image_len);
    } else {
        assert(segs.take(n) == segs);
    }
}

/// Expands one loadable segment that fits into the image.
fn expand_one(image: &mut [u8], file: &[u8], s: ProgramSegment)
    requires
        is_load(s),
        segment_fault(s, file@.len() as int, old(image)@.len() as int) is None,
    ensures
        final(image)@ == expand_segment(old(image)@, file@, s),
{
    let ilen = image.len();
    let flen = file.len();
    let dst = s.p_vaddr as usize;
    let src = s.p_offset as usize;
    let filesz = s.p_filesz as usize;
    let memsz = s.p_memsz as usize;
    let ghost before = image@;
    let mut j: usize = 0;
    while j < filesz
        invariant
            j <= filesz <= memsz,
            dst + memsz <= before.len() == ilen,
            src + filesz <= file@.len() == flen,
            dst == s.p_vaddr,
            src == s.p_offset,
            filesz == s.p_filesz,
            memsz == s.p_memsz,
            image@.len() == before.len(),
            forall|a: int| 0 <= a < before.len() ==> #[trigger] image@[a] == (if dst <= a < dst + j {
                file@[src + (a - dst)]
            } else {
                before[a]
            }),
        decreases filesz - j,
    {
        image[dst + j] = file[src + j];
        j = j + 1;
    }
    while j < memsz
        invariant
            filesz <= j <= memsz,
            dst + memsz <= before.len() == ilen,
            src + filesz <= file@.len() == flen,
            dst == s.p_vaddr,
            src == s.p_offset,
            filesz == s.p_filesz,
            memsz == s.p_memsz,
            image@.len() == before.len(),
            forall|a: int| 0 <= a < before.len() ==> #[trigger] image@[a] == (if dst <= a < dst + filesz {
                file@[src + (a - dst)]
            } else if dst + filesz <= a < dst + j {
                0u8
            } else {
                before[a]
            }),
        decreases memsz - j,
    {
        image[dst + j] = 0;
        j = j + 1;
    }
    assert(image@ =~= expand_segment(before, file@, s));
}

/// Expands segments that all fit the file and the image.
fn expand_all(segs: &Vec<ProgramSegment>, file: &[u8], image: &mut [u8])
    requires
        first_fault(segs@, file@.len() as int, old(image)@.len() as int) is None,
    ensures
        final(image)@ == expand_segments_spec(old(image)@, file@, segs@),
{
    let ghost before = image@;
    let mut i: usize = 0;
    while i < segs.len()
        invariant
            i <= segs.len(),
            first_fault(segs@, file@.len() as int, before.len() as int) is None,
            image@ == expand_segments_spec(before, file@, segs@.take(i as int)),
            image@.len() == before.len(),
        decreases segs.len() - i,
    {
        let s = segs[i];
        assert(segs@.take(i as int + 1).drop_last() == segs@.take(i as int));
        assert(segs@.take(i as int + 1).last() == s);
        proof {
            lemma_no_fault_each(segs@, file@.len() as int, before.len() as int, i as int);
        }
        if s.p_type == PT_LOAD {
            expand_one(image, file, s);
        } else {
            assert(expand_segment(image@, file@, s) =~= image@);
        }
        proof {
            lemma_expand_len(before, file@, segs@.take(i as int + 1));
        }
        i = i + 1;
    }
    assert(segs@.take(i as int) == segs@);
}

/// The program headers of a layout, an absent table read as an empty one.
fn segment_list(layout: &ElfLayout) -> (segs: Vec<ProgramSegment>)
    ensures
        segs@ == layout@.segment_list(),
{
    match &layout.segments {
        Some(v) => v.clone(),
        None => Vec::new(),
    }
}

/// Where no segment faults, each one fits.
proof fn lemma_no_fault_each(segs: Seq<ProgramSegment>, file_len: int, image_len: int, i: int)
    requires
        first_fault(segs, file_len, image_len) is None,
        0 <= i < segs.len(),
    ensures
        segment_fault(segs[i], file_len, image_len) is None,
    decreases segs.len(),
{
    if i < segs.len() - 1 {
        assert(segs.drop_last()[i] == segs[i]);
        lemma_no_fault_each(segs.drop_last(), file_len, image_len, i);
    }
}

/// The outcome of loading a parsed kernel at virtual address `base`: every
/// segment and then every relocation is checked; where all fit, the segments
/// are expanded, the relocations applied, and the entry point returned;
/// otherwise the first misfit is reported and the image is left untouched.
pub open spec fn kernel_load_outcome(
    layout: ElfLayoutView,
    relocs: Seq<Relocation>,
    file: Seq<u8>,
    image: Seq<u8>,
    base: u64,
) -> (Result<u64, LoadError>, Seq<u8>) {
    let segs = layout.segment_list();
    match first_fault(segs, file.len() as int, image.len() as int) {
        Some((i, f)) => (Err(LoadError::Segment { index: i as usize, fault: f }), image),
        None => match first_relocation_fault(relocs, image.len() as int) {
            Some(i) => (Err(LoadError::Relocation { index: i as usize }), image),
            None => (
                Ok(layout.entry),
                apply_relocations_spec(expand_segments_spec(image, file, segs), base, relocs),
            ),
        },
    }
}

/// The relocation entries, an absent `.rela.dyn` read as an empty list.
pub open spec fn relocation_list(relocs: Option<Seq<Relocation>>) -> Seq<Relocation> {
    match relocs {
        Some(r) => r,
        None => Seq::empty(),
    }
}

/// Loads a parsed kernel into `image`, the memory at its load base, for the
/// virtual address `base` at which that memory will be seen: expands the
/// loadable segments, then applies the `.rela.dyn` relocations, and returns
/// the entry point (an offset from the load base).  Nothing is written unless
/// every segment and every relocation fits.
pub fn load_parsed_kernel(
    layout: &ElfLayout,
    relocs: &Option<Vec<Relocation>>,
    file: &[u8],
    image: &mut [u8],
    base: u64,
) -> (r: Result<u64, LoadError>)
    ensures
        (r, final(image)@) == kernel_load_outcome(
            layout@,
            relocation_list(match relocs {
                Some(v) => Some(v@),
                None => None::<Seq<Relocation>>,
            }),
            file@,
            old(image)@,
            base,
        ),
{
    let segs = segment_list(layout);
    let rels: Vec<Relocation> = match relocs {
        Some(v) => v.clone(),
        None => Vec::new(),
    };
    proof {
        lemma_first_fault_bounds(segs@, file@.len() as int, image@.len() as int);
        lemma_first_relocation_fault_bounds(rels@, image@.len() as int);
        lemma_expand_len(image@, file@, segs@);
    }
    match find_fault(&segs, file.len(), image.len()) {
        Some((index, fault)) => {
            return Err(LoadError::Segment { index, fault });
        },
        None => {},
    }
    match find_relocation_fault(&rels, image.len()) {
        Some(index) => {
            return Err(LoadError::Relocation { index });
        },
        None => {},
    }
    expand_all(&segs, file, image);
    relocate_all(&rels, image, base);
    Ok(layout.entry)
}

/// The outcome of loading a kernel file, as the `elf` crate reads it, at
/// virtual address `base`; the relocations come from its `.rela.dyn` section.
pub open spec fn kernel_file_outcome(file: Seq<u8>, image: Seq<u8>, base: u64) -> (Result<u64, LoadError>, Seq<u8>) {
    match elf_file_layout(file) {
        None => (Err(LoadError::MalformedElf), image),
        Some(layout) => match elf_section_relocations(file, ".rela.dyn"@) {
            None => (Err(LoadError::MalformedElf), image),
            Some(relocs) => kernel_load_outcome(layout, relocation_list(relocs), file, image, base),
        },
    }
}

/// Parses the kernel ELF file and loads it into `image`, the memory at its
/// load base, for the virtual address `base` at which that memory will be
/// seen (see [`load_parsed_kernel`]); returns the entry point as an offset
/// from the load base.  A file that the ELF parser refuses gives
/// [`LoadError::MalformedElf`] and leaves the image untouched.
pub fn load_kernel(file: &[u8], image: &mut [u8], base: u64) -> (r: Result<u64, LoadError>)
    ensures
        (r, final(image)@) == kernel_file_outcome(file@, old(image)@, base),
        !has_elf_magic(file@) ==> r == Err::<u64, LoadError>(LoadError::MalformedElf) && final(image)@ == old(image)@,
{
    let layout = match parse_elf_layout(file) {
        Ok(layout) => layout,
        Err(_) => return Err(LoadError::MalformedElf),
    };
    let relocs = match parse_elf_relocations(file, ".rela.dyn") {
        Ok(relocs) => relocs,
        Err(_) => return Err(LoadError::MalformedElf),
    };
    load_parsed_kernel(&layout, &relocs, file, image, base)
}

/// Whether no two loadable segments cover the same image byte.
pub open spec fn segments_disjoint(segs: Seq<ProgramSegment>) -> bool {
    forall|i: int, j: int, a: int|
        0 <= i < segs.len() && 0 <= j < segs.len() && i != j && #[trigger] covers(segs[i], a)
            ==> !#[trigger] covers(segs[j], a)
}

/// The byte at `a` after expansion, where the segment at `i` covers `a` and
/// no later one does, is the byte that segment puts there.
proof fn lemma_last_cover_wins(image: Seq<u8>, file: Seq<u8>, segs: Seq<ProgramSegment>, i: int, a: int)
    requires
        0 <= i < segs.len(),
        0 <= a < image.len(),
        covers(segs[i], a),
        forall|j: int| i < j < segs.len() ==> !#[trigger] covers(segs[j], a),
    ensures
        expand_segments_spec(image, file, segs)[a] == segment_byte(segs[i], file, a),
    decreases segs.len(),
{
    lemma_expand_len(image, file, segs.drop_last());
    if i < segs.len() - 1 {
        assert(!covers(segs[segs.len() - 1], a));
        assert(segs.drop_last()[i] == segs[i]);
        assert forall|j: int| i < j < segs.drop_last().len() implies !#[trigger] covers(segs.drop_last()[j], a) by {
            assert(segs.drop_last()[j] == segs[j]);
        }
        lemma_last_cover_wins(image, file, segs.drop_last(), i, a);
    }
}

/// Expansion leaves every image byte that no loadable segment covers as it was.
pub proof fn lemma_uncovered_bytes_unchanged(image: Seq<u8>, file: Seq<u8>, segs: Seq<ProgramSegment>, a: int)
    requires
        0 <= a < image.len(),
        forall|j: int| 0 <= j < segs.len() ==> !#[trigger] covers(segs[j], a),
    ensures
        expand_segments_spec(image, file, segs)[a] == image[a],
        expand_segments_spec(image, file, segs).len() == image.len(),
    decreases segs.len(),
{
    lemma_expand_len(image, file, segs);
    if segs.len() > 0 {
        lemma_expand_len(image, file, segs.drop_last());
        assert(!covers(segs[segs.len() - 1], a));
        assert forall|j: int| 0 <= j < segs.drop_last().len() implies !#[trigger] covers(segs.drop_last()[j], a) by {
            assert(segs.drop_last()[j] == segs[j]);
        }
        lemma_uncovered_bytes_unchanged(image, file, segs.drop_last(), a);
    }
}

/// When every loadable segment fits and no two overlap, expansion puts each
/// segment's file bytes at `p_vaddr .. p_vaddr + p_filesz` and zeros at
/// `p_vaddr + p_filesz .. p_vaddr + p_memsz`.
pub proof fn lemma_loaded_segment_contents(
    image: Seq<u8>,
    file: Seq<u8>,
    segs: Seq<ProgramSegment>,
    i: int,
    j: int,
)
    requires
        first_fault(segs, file.len() as int, image.len() as int) is None,
        segments_disjoint(segs),
        0 <= i < segs.len(),
        is_load(segs[i]),
        0 <= j < segs[i].p_memsz,
    ensures
        segs[i].p_vaddr + j < image.len(),
        expand_segments_spec(image, file, segs)[segs[i].p_vaddr + j] == (if j < segs[i].p_filesz {
            file[segs[i].p_offset + j]
        } else {
            0u8
        }),
{
    lemma_no_fault_each(segs, file.len() as int, image.len() as int, i);
    let a = segs[i].p_vaddr + j;
    assert(covers(segs[i], a));
    assert forall|k: int| i < k < segs.len() implies !#[trigger] covers(segs[k], a) by {
        assert(covers(segs[i], a));
    }
    lemma_last_cover_wins(image, file, segs, i, a);
}

/// A successful load expands every program header of type `PT_LOAD` (1),
/// whatever its flags: the segment fits (its file bytes lie in the file, its
/// memory in the image, and its file size is at most its memory size), and
/// each byte `j` of its memory holds file byte `p_offset + j` for
/// `j < p_filesz` and 0 from `p_filesz` up to `p_memsz`, wherever no other
/// `PT_LOAD` segment and no relative relocation slot also claims that byte.
pub proof fn lemma_load_expands_pt_load(
    layout: ElfLayoutView,
    relocs: Seq<Relocation>,
    file: Seq<u8>,
    image: Seq<u8>,
    base: u64,
    i: int,
    j: int,
)
    requires
        kernel_load_outcome(layout, relocs, file, image, base).0 is Ok,
        0 <= i < layout.segment_list().len(),
        layout.segment_list()[i].p_type == 1,
        0 <= j < layout.segment_list()[i].p_memsz,
        forall|k: int| 0 <= k < layout.segment_list().len() && k != i && (#[trigger] layout.segment_list()[k]).p_type == 1
            ==> !(layout.segment_list()[k].p_vaddr <= layout.segment_list()[i].p_vaddr + j
                < layout.segment_list()[k].p_vaddr + layout.segment_list()[k].p_memsz),
        forall|k: int| 0 <= k < relocs.len() && (#[trigger] relocs[k]).r_type == 8
            ==> !(relocs[k].r_offset <= layout.segment_list()[i].p_vaddr + j < relocs[k].r_offset + 8),
    ensures
        ({
            let s = layout.segment_list()[i];
            let out = kernel_load_outcome(layout, relocs, file, image, base).1;
            &&& s.p_filesz <= s.p_memsz
            &&& s.p_offset + s.p_filesz <= file.len()
            &&& s.p_vaddr + s.p_memsz <= image.len()
            &&& out.len() == image.len()
            &&& out[s.p_vaddr + j] == (if j < s.p_filesz { file[s.p_offset + j] } else { 0u8 })
        }),
{
    let segs = layout.segment_list();
    let s = segs[i];
    let a = s.p_vaddr + j;
    assert(first_fault(segs, file.len() as int, image.len() as int) is None);
    assert(first_relocation_fault(relocs, image.len() as int) is None);
    lemma_no_fault_each(segs, file.len() as int, image.len() as int, i);
    let expanded = expand_segments_spec(image, file, segs);
    lemma_expand_len(image, file, segs);
    assert forall|k: int| i < k < segs.len() implies !#[trigger] covers(segs[k], a) by {
        if covers(segs[k], a) {
            assert(segs[k].p_type == 1);
        }
    }
    lemma_last_cover_wins(image, file, segs, i, a);
    assert forall|k: int| 0 <= k < relocs.len() && is_relative(#[trigger] relocs[k])
        implies !(relocs[k].r_offset <= a < relocs[k].r_offset + 8) by {
        assert(relocs[k].r_type == 8);
    }
    lemma_relocations_keep_other_bytes(expanded, base, relocs, a);
    lemma_relocations_len(expanded, base, relocs);
}

/// A program header of type `PT_LOAD` (1) that does not fit (file size above
/// memory size, file bytes past the end of the file, or memory past the end
/// of the image) makes the load fail and leaves the image as it was.
pub proof fn lemma_load_refuses_misfit(
    layout: ElfLayoutView,
    relocs: Seq<Relocation>,
    file: Seq<u8>,
    image: Seq<u8>,
    base: u64,
    i: int,
)
    requires
        0 <= i < layout.segment_list().len(),
        layout.segment_list()[i].p_type == 1,
        layout.segment_list()[i].p_filesz > layout.segment_list()[i].p_memsz
            || layout.segment_list()[i].p_offset + layout.segment_list()[i].p_filesz > file.len()
            || layout.segment_list()[i].p_vaddr + layout.segment_list()[i].p_memsz > image.len(),
    ensures
        kernel_load_outcome(layout, relocs, file, image, base).0 is Err,
        kernel_load_outcome(layout, relocs, file, image, base).1 == image,
{
    let segs = layout.segment_list();
    if first_fault(segs, file.len() as int, image.len() as int) is None {
        lemma_no_fault_each(segs, file.len() as int, image.len() as int, i);
    }
}

/// A successful load leaves every relative relocation (type 8) slot holding,
/// as an 8-byte little-endian number, the virtual base plus the addend modulo
/// 2^64, wherever no other relative relocation shares a byte of the slot.
pub proof fn lemma_load_relocates_slot(
    layout: ElfLayoutView,
    relocs: Seq<Relocation>,
    file: Seq<u8>,
    image: Seq<u8>,
    base: u64,
    i: int,
)
    requires
        kernel_load_outcome(layout, relocs, file, image, base).0 is Ok,
        0 <= i < relocs.len(),
        relocs[i].r_type == 8,
        forall|k: int| 0 <= k < relocs.len() && k != i && (#[trigger] relocs[k]).r_type == 8
            ==> relocs[k].r_offset + 8 <= relocs[i].r_offset || relocs[i].r_offset + 8 <= relocs[k].r_offset,
    ensures
        relocs[i].r_offset + 8 <= image.len(),
        kernel_load_outcome(layout, relocs, file, image, base).1.len() == image.len(),
        word_at(kernel_load_outcome(layout, relocs, file, image, base).1, relocs[i].r_offset as int)
            == (base as int + relocs[i].r_addend as int) % 0x1_0000_0000_0000_0000,
{
    let segs = layout.segment_list();
    let r = relocs[i];
    let off = r.r_offset as int;
    let expanded = expand_segments_spec(image, file, segs);
    lemma_expand_len(image, file, segs);
    lemma_no_relocation_fault_each(relocs, image.len() as int, i);
    lemma_relocations_len(expanded, base, relocs);
    let out = apply_relocations_spec(expanded, base, relocs);
    let v = relocated_value(base, r.r_addend);
    assert forall|t: int| 0 <= t < 8 implies out[off + t] == #[trigger] le_bytes(v)[t] by {
        assert forall|k: int| i < k < relocs.len() && is_relative(#[trigger] relocs[k])
            implies !(relocs[k].r_offset <= off + t < relocs[k].r_offset + 8) by {
            assert(relocs[k].r_type == 8);
        }
        lemma_last_relocation_wins(expanded, base, relocs, i, off + t);
    }
    lemma_le_bytes_value(v);
    assert(word_at(out, off) == word_at(le_bytes(v), 0)) by {
        assert(out[off] == le_bytes(v)[0]);
        assert(out[off + 1] == le_bytes(v)[1]);
        assert(out[off + 2] == le_bytes(v)[2]);
        assert(out[off + 3] == le_bytes(v)[3]);
        assert(out[off + 4] == le_bytes(v)[4]);
        assert(out[off + 5] == le_bytes(v)[5]);
        assert(out[off + 6] == le_bytes(v)[6]);
        assert(out[off + 7] == le_bytes(v)[7]);
    }
}

} // verus!
