//! Relocation of the kernel image to its upper-half address.
//!
//! The kernel is linked at virtual address 0.  Every `R_X86_64_RELATIVE`
//! entry of its `.rela.dyn` section names an 8-byte slot of the image
//! (`r_offset`) that must hold the kernel's virtual base plus `r_addend`,
//! stored little-endian; this is how the absolute pointers in `.data` and
//! `.rodata` come to point into the upper half.
use vstd::prelude::*;

use elf::endian::LittleEndian;
use elf::ElfBytes;

verus! {

/// The relocation type whose slot receives the load base plus the addend.
pub const R_X86_64_RELATIVE: u32 = 8;

/// One entry of a relocation table with addends, as plain values.
#[derive(Clone, Copy, Debug, PartialEq, Eq, Structural)]
pub struct Relocation {
    pub r_offset: u64,
    pub r_sym: u32,
    pub r_type: u32,
    pub r_addend: i64,
}

/// What the `elf` crate reads as the relocation entries of the file's
/// section called `name`: `Some(None)` where the file has no such section,
/// `None` where it refuses the file or the section.
pub uninterp spec fn elf_section_relocations(data: Seq<u8>, name: Seq<char>) -> Option<Option<Seq<Relocation>>>;

/// Parses `data` with `elf::ElfBytes::<LittleEndian>::minimal_parse`, looks
/// the section `name` up with `section_header_by_name`, and converts the
/// entries that `section_data_as_relas` yields, field by field.  The contract
/// claims only that the outcome is the named function
/// [`elf_section_relocations`] of the bytes and the name; which files the
/// crate accepts, and what it finds in them, is left unsaid.
#[verifier::external_body]
pub(crate) fn parse_elf_relocations(data: &[u8], name: &str) -> (r: Result<Option<Vec<Relocation>>, elf::ParseError>)
    ensures
        r matches Ok(v) ==> elf_section_relocations(data@, name@) == Some(match v {
            Some(t) => Some(t@),
            None => None::<Seq<Relocation>>,
        }),
        r is Err ==> elf_section_relocations(data@, name@) is None,
{
    let file = ElfBytes::<LittleEndian>::minimal_parse(data)?;
    match file.section_header_by_name(name)? {
        Some(shdr) => Ok(Some(file.section_data_as_relas(&shdr)?.map(|r| Relocation {
            r_offset: r.r_offset, r_sym: r.r_sym, r_type: r.r_type, r_addend: r.r_addend,
        }).collect())),
        None => Ok(None),
    }
}

pub open spec fn is_relative(r: Relocation) -> bool {
    r.r_type == R_X86_64_RELATIVE
}

/// Whether the relocation's slot lies inside an image of `image_len` bytes;
/// relocations of other types are ignored and always fit.
pub open spec fn relocation_fits(r: Relocation, image_len: int) -> bool {
    !is_relative(r) || r.r_offset + 8 <= image_len
}

/// The index of the first relative relocation whose slot lies outside the image.
pub open spec fn first_relocation_fault(relocs: Seq<Relocation>, image_len: int) -> Option<int>
    decreases relocs.len(),
{
    if relocs.len() == 0 {
        None
    } else {
        match first_relocation_fault(relocs.drop_last(), image_len) {
            Some(i) => Some(i),
            None => if relocation_fits(relocs.last(), image_len) {
                None
            } else {
                Some(relocs.len() - 1)
            },
        }
    }
}

/// The value a relative relocation stores: the base plus the addend, modulo 2^64.
pub open spec fn relocated_value(base: u64, addend: i64) -> u64 {
    ((base as int + addend as int) % 0x1_0000_0000_0000_0000) as u64
}

/// The eight little-endian bytes of `v`.
pub open spec fn le_bytes(v: u64) -> Seq<u8> {
    seq![
        (v & 0xFF) as u8,
        ((v >> 8u64) & 0xFF) as u8,
        ((v >> 16u64) & 0xFF) as u8,
        ((v >> 24u64) & 0xFF) as u8,
        ((v >> 32u64) & 0xFF) as u8,
        ((v >> 40u64) & 0xFF) as u8,
        ((v >> 48u64) & 0xFF) as u8,
        ((v >> 56u64) & 0xFF) as u8,
    ]
}

/// The 64-bit value that eight little-endian bytes spell.
pub open spec fn le_value(b: Seq<u8>) -> u64 {
    b[0] as u64 | (b[1] as u64) << 8u64 | (b[2] as u64) << 16u64 | (b[3] as u64) << 24u64
        | (b[4] as u64) << 32u64 | (b[5] as u64) << 40u64 | (b[6] as u64) << 48u64 | (b[7] as u64) << 56u64
}

/// The image after one relocation has been applied.
pub open spec fn apply_relocation(image: Seq<u8>, base: u64, r: Relocation) -> Seq<u8> {
    if is_relative(r) {
        Seq::new(image.len(), |a: int| if r.r_offset <= a < r.r_offset + 8 {
            le_bytes(relocated_value(base, r.r_addend))[a - r.r_offset]
        } else {
            image[a]
        })
    } else {
        image
    }
}

/// The image after the relocations have been applied in order.
pub open spec fn apply_relocations_spec(image: Seq<u8>, base: u64, relocs: Seq<Relocation>) -> Seq<u8>
    decreases relocs.len(),
{
    if relocs.len() == 0 {
        image
    } else {
        apply_relocation(apply_relocations_spec(image, base, relocs.drop_last()), base, relocs.last())
    }
}

/// The value that a relative relocation stores.
fn relocated(base: u64, addend: i64) -> (v: u64)
    ensures
        v == relocated_value(base, addend),
{
    base.wrapping_add_signed(addend)
}

/// Stores `v` little-endian at `image[at..at + 8]`.
fn store_le_u64(image: &mut [u8], at: usize, v: u64)
    requires
        at + 8 <= old(image)@.len(),
    ensures
        final(image)@ == Seq::new(old(image)@.len(), |a: int| if at <= a < at + 8 {
            le_bytes(v)[a - at]
        } else {
            old(image)@[a]
        }),
{
    proof {
        assert(v & 0xFFu64 <= 0xFF && (v >> 8u64) & 0xFFu64 <= 0xFF && (v >> 16u64) & 0xFFu64 <= 0xFF
            && (v >> 24u64) & 0xFFu64 <= 0xFF && (v >> 32u64) & 0xFFu64 <= 0xFF && (v >> 40u64) & 0xFFu64 <= 0xFF
            && (v >> 48u64) & 0xFFu64 <= 0xFF && (v >> 56u64) & 0xFFu64 <= 0xFF) by (bit_vector);
    }
    image[at] = (v & 0xFF) as u8;
    image[at + 1] = ((v >> 8) & 0xFF) as u8;
    image[at + 2] = ((v >> 16) & 0xFF) as u8;
    image[at + 3] = ((v >> 24) & 0xFF) as u8;
    image[at + 4] = ((v >> 32) & 0xFF) as u8;
    image[at + 5] = ((v >> 40) & 0xFF) as u8;
    image[at + 6] = ((v >> 48) & 0xFF) as u8;
    image[at + 7] = ((v >> 56) & 0xFF) as u8;
    assert(image@ =~= Seq::new(old(image)@.len(), |a: int| if at <= a < at + 8 {
        le_bytes(v)[a - at]
    } else {
        old(image)@[a]
    }));
}

/// Finds the first relative relocation whose slot lies outside the image.
pub(crate) fn find_relocation_fault(relocs: &Vec<Relocation>, image_len: usize) -> (r: Option<usize>)
    ensures
        match first_relocation_fault(relocs@, image_len as int) {
            Some(i) => r == Some(i as usize),
            None => r is None,
        },
{
    let mut i: usize = 0;
    while i < relocs.len()
        invariant
            i <= relocs.len(),
            first_relocation_fault(relocs@.take(i as int), image_len as int) is None,
        decreases relocs.len() - i,
    {
        let r = relocs[i];
        assert(relocs@.take(i as int + 1).drop_last() == relocs@.take(i as int));
        assert(relocs@.take(i as int + 1).last() == r);
        if r.r_type == R_X86_64_RELATIVE && r.r_offset as u128 + 8 > image_len as u128 {
            proof {
                lemma_first_relocation_fault_prefix(relocs@, i as int + 1, image_len as int);
            }
            return Some(i);
        }
        i = i + 1;
    }
    assert(relocs@.take(i as int) == relocs@);
    None
}

/// A fault found in a prefix is the fault of the whole sequence.
proof fn lemma_first_relocation_fault_prefix(relocs: Seq<Relocation>, n: int, image_len: int)
    requires
        0 <= n <= relocs.len(),
        first_relocation_fault(relocs.take(n), image_len) is Some,
    ensures
        first_relocation_fault(relocs, image_len) == first_relocation_fault(relocs.take(n), image_len),
    decreases relocs.len() - n,
{
    if n < relocs.len() {
        assert(relocs.take(n + 1).drop_last() == relocs.take(n));
        lemma_first_relocation_fault_prefix(relocs, n + 1, image_len);
    } else {
        assert(relocs.take(n) == relocs);
    }
}

/// Where no relocation faults, each one fits.
pub(crate) proof fn lemma_no_relocation_fault_each(relocs: Seq<Relocation>, image_len: int, i: int)
    requires
        first_relocation_fault(relocs, image_len) is None,
        0 <= i < relocs.len(),
    ensures
        relocation_fits(relocs[i], image_len),
    decreases relocs.len(),
{
    if i < relocs.len() - 1 {
        assert(relocs.drop_last()[i] == relocs[i]);
        lemma_no_relocation_fault_each(relocs.drop_last(), image_len, i);
    }
}

pub(crate) proof fn lemma_first_relocation_fault_bounds(relocs: Seq<Relocation>, image_len: int)
    ensures
        first_relocation_fault(relocs, image_len) matches Some(i) ==> {
            &&& 0 <= i < relocs.len()
            &&& !relocation_fits(relocs[i], image_len)
        },
    decreases relocs.len(),
{
    if relocs.len() > 0 {
        lemma_first_relocation_fault_bounds(relocs.drop_last(), image_len);
    }
}

pub(crate) proof fn lemma_relocations_len(image: Seq<u8>, base: u64, relocs: Seq<Relocation>)
    ensures
        apply_relocations_spec(image, base, relocs).len() == image.len(),
    decreases relocs.len(),
{
    if relocs.len() > 0 {
        lemma_relocations_len(image, base, relocs.drop_last());
    }
}

/// Applies relocations that all fit the image.
pub(crate) fn relocate_all(relocs: &Vec<Relocation>, image: &mut [u8], base: u64)
    requires
        first_relocation_fault(relocs@, old(image)@.len() as int) is None,
    ensures
        final(image)@ == apply_relocations_spec(old(image)@, base, relocs@),
{
    let ghost before = image@;
    let mut i: usize = 0;
    while i < relocs.len()
        invariant
            i <= relocs.len(),
            first_relocation_fault(relocs@, before.len() as int) is None,
            image@ == apply_relocations_spec(before, base, relocs@.take(i as int)),
            image@.len() == before.len(),
        decreases relocs.len() - i,
    {
        let r = relocs[i];
        assert(relocs@.take(i as int + 1).drop_last() == relocs@.take(i as int));
        assert(relocs@.take(i as int + 1).last() == r);
        proof {
            lemma_no_relocation_fault_each(relocs@, before.len() as int, i as int);
        }
        if r.r_type == R_X86_64_RELATIVE {
            let ilen = image.len();
            assert(r.r_offset + 8 <= ilen);
            let at = r.r_offset as usize;
            let v = relocated(base, r.r_addend);
            store_le_u64(image, at, v);
            assert(image@ =~= apply_relocation(apply_relocations_spec(before, base, relocs@.take(i as int)), base, r));
        }
        proof {
            lemma_relocations_len(before, base, relocs@.take(i as int + 1));
        }
        i = i + 1;
    }
    assert(relocs@.take(i as int) == relocs@);
}

/// Whether no two relative relocations write to the same byte.
pub open spec fn relocations_disjoint(relocs: Seq<Relocation>) -> bool {
    forall|i: int, j: int|
        0 <= i < relocs.len() && 0 <= j < relocs.len() && i != j && is_relative(#[trigger] relocs[i])
            && is_relative(#[trigger] relocs[j]) ==> relocs[i].r_offset + 8 <= relocs[j].r_offset
            || relocs[j].r_offset + 8 <= relocs[i].r_offset
}

/// Eight bytes written little-endian read back as the value.
pub proof fn lemma_le_roundtrip(v: u64)
    ensures
        le_value(le_bytes(v)) == v,
{
    assert(((v & 0xFF) as u8) as u64 | ((((v >> 8u64) & 0xFF) as u8) as u64) << 8u64
        | ((((v >> 16u64) & 0xFF) as u8) as u64) << 16u64 | ((((v >> 24u64) & 0xFF) as u8) as u64) << 24u64
        | ((((v >> 32u64) & 0xFF) as u8) as u64) << 32u64 | ((((v >> 40u64) & 0xFF) as u8) as u64) << 40u64
        | ((((v >> 48u64) & 0xFF) as u8) as u64) << 48u64 | ((((v >> 56u64) & 0xFF) as u8) as u64) << 56u64
        == v) by (bit_vector);
}

/// Applying the relocations changes no byte outside their slots.
pub proof fn lemma_relocations_keep_other_bytes(image: Seq<u8>, base: u64, relocs: Seq<Relocation>, a: int)
    requires
        0 <= a < image.len(),
        forall|j: int| 0 <= j < relocs.len() && is_relative(#[trigger] relocs[j])
            ==> !(relocs[j].r_offset <= a < relocs[j].r_offset + 8),
    ensures
        apply_relocations_spec(image, base, relocs)[a] == image[a],
    decreases relocs.len(),
{
    lemma_relocations_len(image, base, relocs);
    if relocs.len() > 0 {
        lemma_relocations_len(image, base, relocs.drop_last());
        assert(relocs[relocs.len() - 1] == relocs.last());
        assert forall|j: int| 0 <= j < relocs.drop_last().len() && is_relative(#[trigger] relocs.drop_last()[j])
            implies !(relocs.drop_last()[j].r_offset <= a < relocs.drop_last()[j].r_offset + 8) by {
            assert(relocs.drop_last()[j] == relocs[j]);
        }
        lemma_relocations_keep_other_bytes(image, base, relocs.drop_last(), a);
    }
}

/// The byte at `a` after the relocations, where the relocation at `i` writes
/// `a` and no later one does, is the byte that relocation puts there.
pub(crate) proof fn lemma_last_relocation_wins(image: Seq<u8>, base: u64, relocs: Seq<Relocation>, i: int, a: int)
    requires
        0 <= i < relocs.len(),
        0 <= a < image.len(),
        is_relative(relocs[i]),
        relocs[i].r_offset <= a < relocs[i].r_offset + 8,
        forall|j: int| i < j < relocs.len() && is_relative(#[trigger] relocs[j])
            ==> !(relocs[j].r_offset <= a < relocs[j].r_offset + 8),
    ensures
        apply_relocations_spec(image, base, relocs)[a]
            == le_bytes(relocated_value(base, relocs[i].r_addend))[a - relocs[i].r_offset],
    decreases relocs.len(),
{
    lemma_relocations_len(image, base, relocs.drop_last());
    if i < relocs.len() - 1 {
        assert(relocs[relocs.len() - 1] == relocs.last());
        assert(relocs.drop_last()[i] == relocs[i]);
        assert forall|j: int| i < j < relocs.drop_last().len() && is_relative(#[trigger] relocs.drop_last()[j])
            implies !(relocs.drop_last()[j].r_offset <= a < relocs.drop_last()[j].r_offset + 8) by {
            assert(relocs.drop_last()[j] == relocs[j]);
        }
        lemma_last_relocation_wins(image, base, relocs.drop_last(), i, a);
    }
}

/// When every relative relocation fits and no two share a byte, the 8-byte
/// slot of each one reads back, little-endian, as the base plus its addend.
pub proof fn lemma_relocated_slot(image: Seq<u8>, base: u64, relocs: Seq<Relocation>, i: int)
    requires
        first_relocation_fault(relocs, image.len() as int) is None,
        relocations_disjoint(relocs),
        0 <= i < relocs.len(),
        is_relative(relocs[i]),
    ensures
        relocs[i].r_offset + 8 <= image.len(),
        le_value(apply_relocations_spec(image, base, relocs).subrange(
            relocs[i].r_offset as int,
            relocs[i].r_offset + 8,
        )) == relocated_value(base, relocs[i].r_addend),
{
    lemma_no_relocation_fault_each(relocs, image.len() as int, i);
    lemma_relocations_len(image, base, relocs);
    let off = relocs[i].r_offset as int;
    let out = apply_relocations_spec(image, base, relocs);
    let v = relocated_value(base, relocs[i].r_addend);
    assert forall|k: int| 0 <= k < 8 implies #[trigger] out.subrange(off, off + 8)[k] == le_bytes(v)[k] by {
        assert forall|j: int| i < j < relocs.len() && is_relative(#[trigger] relocs[j])
            implies !(relocs[j].r_offset <= off + k < relocs[j].r_offset + 8) by {
            assert(is_relative(relocs[i]));
        }
        lemma_last_relocation_wins(image, base, relocs, i, off + k);
    }
    assert(out.subrange(off, off + 8) =~= le_bytes(v));
    lemma_le_roundtrip(v);
}

/// The eight bytes at `at` of `out`, read little-endian, as a number.
pub open spec fn word_at(out: Seq<u8>, at: int) -> int {
    out[at] + out[at + 1] * 0x100 + out[at + 2] * 0x1_0000 + out[at + 3] * 0x100_0000
        + out[at + 4] * 0x1_0000_0000 + out[at + 5] * 0x100_0000_0000 + out[at + 6] * 0x1_0000_0000_0000
        + out[at + 7] * 0x100_0000_0000_0000
}

/// The little-endian bytes of a value spell it.
pub proof fn lemma_le_bytes_value(v: u64)
    ensures
        word_at(le_bytes(v), 0) == v,
{
    let b = le_bytes(v);
    assert((v & 0xFFu64) as u8 as int + ((v >> 8u64) & 0xFFu64) as u8 as int * 0x100
        + ((v >> 16u64) & 0xFFu64) as u8 as int * 0x1_0000 + ((v >> 24u64) & 0xFFu64) as u8 as int * 0x100_0000
        + ((v >> 32u64) & 0xFFu64) as u8 as int * 0x1_0000_0000 + ((v >> 40u64) & 0xFFu64) as u8 as int * 0x100_0000_0000
        + ((v >> 48u64) & 0xFFu64) as u8 as int * 0x1_0000_0000_0000
        + ((v >> 56u64) & 0xFFu64) as u8 as int * 0x100_0000_0000_0000 == v as int) by (bit_vector);
}

} // verus!
