//! The BIOS E820 memory map: how its entries are collected one BIOS call at
//! a time, and how each entry is shown on the console.
use vstd::prelude::*;

use crate::text::{dec_text, hex_text, hex_value, is_hex_digit, lemma_hex_text_roundtrip, push_decimal, push_hex};

verus! {

/// Region type of usable RAM.
pub const E820_USABLE: u32 = 1;

/// Region type of memory reserved by the firmware.
pub const E820_RESERVED: u32 = 2;

/// Region type of ACPI tables that the OS may reclaim.
pub const E820_ACPI_RECLAIMABLE: u32 = 3;

/// Region type of ACPI non-volatile storage.
pub const E820_ACPI_NVS: u32 = 4;

/// Region type of defective memory.
pub const E820_BAD_MEMORY: u32 = 5;

/// Capacity of the memory map.
pub const MAX_E820_ENTRIES: usize = 32;

/// The signature `"SMAP"` that the BIOS returns in EAX when it answers an
/// E820 query.
pub const SMAP: u32 = 0x534D_4150;

/// The type of an E820 region, as the BIOS reports it.
#[derive(Clone, Copy, Debug, PartialEq, Eq, Structural)]
pub struct EntryType(pub u32);

/// One region of the physical address space.
#[derive(Clone, Copy, Debug, PartialEq, Eq, Structural)]
pub struct E820Entry {
    pub base: u64,
    pub len: u64,
    pub entry_type: EntryType,
    /// ACPI extended attributes: bit 0 marks the entry valid, bit 1 non-volatile.
    pub acpi: u32,
}

/// The memory map that the real-mode stage fills and later stages read: the
/// first `count` entries are the regions the BIOS reported.
pub struct MemoryMap {
    pub entries: [E820Entry; 32],
    pub count: usize,
}

/// The bytes of `"Usable"`.
pub open spec fn label_usable() -> Seq<u8> {
    seq![85u8, 115, 97, 98, 108, 101]
}

/// The bytes of `"Reserved"`.
pub open spec fn label_reserved() -> Seq<u8> {
    seq![82u8, 101, 115, 101, 114, 118, 101, 100]
}

/// The bytes of `"ACPI Reclaimable"`.
pub open spec fn label_acpi_reclaimable() -> Seq<u8> {
    seq![65u8, 67, 80, 73, 32, 82, 101, 99, 108, 97, 105, 109, 97, 98, 108, 101]
}

/// The bytes of `"ACPI NVS"`.
pub open spec fn label_acpi_nvs() -> Seq<u8> {
    seq![65u8, 67, 80, 73, 32, 78, 86, 83]
}

/// The bytes of `"Bad Memory"`.
pub open spec fn label_bad_memory() -> Seq<u8> {
    seq![66u8, 97, 100, 32, 77, 101, 109, 111, 114, 121]
}

/// The bytes of `"Unknown("`.
pub open spec fn label_unknown_open() -> Seq<u8> {
    seq![85u8, 110, 107, 110, 111, 119, 110, 40]
}

/// The bytes of `")"`.
pub open spec fn label_close() -> Seq<u8> {
    seq![41u8]
}

/// The bytes of `"base: "`.
pub open spec fn label_base() -> Seq<u8> {
    seq![98u8, 97, 115, 101, 58, 32]
}

/// The bytes of `"  len: "`.
pub open spec fn label_len() -> Seq<u8> {
    seq![32u8, 32, 108, 101, 110, 58, 32]
}

/// The bytes of `"  type: "`.
pub open spec fn label_type() -> Seq<u8> {
    seq![32u8, 32, 116, 121, 112, 101, 58, 32]
}

/// The bytes of `"  acpi: 0x"`.
pub open spec fn label_acpi() -> Seq<u8> {
    seq![32u8, 32, 97, 99, 112, 105, 58, 32, 48, 120]
}

/// The bytes of `" ("`.
pub open spec fn label_open() -> Seq<u8> {
    seq![32u8, 40]
}

/// The bytes of `"valid, non-volatile"`.
pub open spec fn label_valid_non_volatile() -> Seq<u8> {
    seq![118u8, 97, 108, 105, 100, 44, 32, 110, 111, 110, 45, 118, 111, 108, 97, 116, 105, 108, 101]
}

/// The bytes of `"valid"`.
pub open spec fn label_valid() -> Seq<u8> {
    seq![118u8, 97, 108, 105, 100]
}

/// The bytes of `"invalid"`.
pub open spec fn label_invalid() -> Seq<u8> {
    seq![105u8, 110, 118, 97, 108, 105, 100]
}

/// The bytes of `"\r\n"`.
pub open spec fn label_crlf() -> Seq<u8> {
    seq![13u8, 10]
}

/// How an entry type is shown: its name, or `Unknown(<number>)`.
pub open spec fn entry_type_text(t: EntryType) -> Seq<u8> {
    if t.0 == E820_USABLE {
        label_usable()
    } else if t.0 == E820_RESERVED {
        label_reserved()
    } else if t.0 == E820_ACPI_RECLAIMABLE {
        label_acpi_reclaimable()
    } else if t.0 == E820_ACPI_NVS {
        label_acpi_nvs()
    } else if t.0 == E820_BAD_MEMORY {
        label_bad_memory()
    } else {
        label_unknown_open() + dec_text(t.0 as nat) + label_close()
    }
}

pub open spec fn acpi_valid(acpi: u32) -> bool {
    acpi & 1 != 0
}

pub open spec fn acpi_non_volatile(acpi: u32) -> bool {
    acpi & 2 != 0
}

/// How an entry is shown:
/// `base: <hex>  len: <hex>  type: <type>  acpi: 0x<hex> (<state>)`, where the
/// state is `valid, non-volatile`, `valid` or `invalid` after the ACPI bits.
pub open spec fn entry_text(e: E820Entry) -> Seq<u8> {
    label_base() + hex_text(e.base as nat) + label_len() + hex_text(e.len as nat) + label_type()
        + entry_type_text(e.entry_type) + label_acpi() + hex_text(e.acpi as nat) + label_open()
        + (if acpi_valid(e.acpi) {
        if acpi_non_volatile(e.acpi) {
            label_valid_non_volatile()
        } else {
            label_valid()
        }
    } else {
        label_invalid()
    }) + label_close()
}

/// The console listing of a map: every entry on a line of its own, each line
/// ended by a carriage return and a newline.
pub open spec fn map_text(entries: Seq<E820Entry>) -> Seq<u8>
    decreases entries.len(),
{
    if entries.len() == 0 {
        Seq::empty()
    } else {
        map_text(entries.drop_last()) + entry_text(entries.last()) + label_crlf()
    }
}

/// Appends the bytes of `b`.
fn push_bytes(out: &mut Vec<u8>, b: &[u8])
    ensures
        final(out)@ == old(out)@ + b@,
{
    out.extend_from_slice(b);
}

impl EntryType {
    /// Appends how the type is shown (see [`entry_type_text`]).
    pub fn write_text(&self, out: &mut Vec<u8>)
        ensures
            final(out)@ == old(out)@ + entry_type_text(*self),
    {
        if self.0 == E820_USABLE {
            push_bytes(out, &[85, 115, 97, 98, 108, 101]);
        } else if self.0 == E820_RESERVED {
            push_bytes(out, &[82, 101, 115, 101, 114, 118, 101, 100]);
        } else if self.0 == E820_ACPI_RECLAIMABLE {
            push_bytes(out, &[65, 67, 80, 73, 32, 82, 101, 99, 108, 97, 105, 109, 97, 98, 108, 101]);
        } else if self.0 == E820_ACPI_NVS {
            push_bytes(out, &[65, 67, 80, 73, 32, 78, 86, 83]);
        } else if self.0 == E820_BAD_MEMORY {
            push_bytes(out, &[66, 97, 100, 32, 77, 101, 109, 111, 114, 121]);
        } else {
            push_bytes(out, &[85, 110, 107, 110, 111, 119, 110, 40]);
            push_decimal(out, self.0 as u64);
            push_bytes(out, &[41]);
        }
        assert(final(out)@ =~= old(out)@ + entry_type_text(*self));
    }

    /// How the type is shown: `Usable`, `Reserved`, `ACPI Reclaimable`,
    /// `ACPI NVS`, `Bad Memory`, or `Unknown(<number>)`.
    pub fn to_text(&self) -> (t: Vec<u8>)
        ensures
            t@ == entry_type_text(*self),
    {
        let mut t: Vec<u8> = Vec::new();
        self.write_text(&mut t);
        assert(t@ =~= entry_type_text(*self));
        t
    }
}

impl E820Entry {
    /// An entry of all zeros.
    pub fn zero() -> (e: E820Entry)
        ensures
            e == (E820Entry { base: 0, len: 0, entry_type: EntryType(0), acpi: 0 }),
    {
        E820Entry { base: 0, len: 0, entry_type: EntryType(0), acpi: 0 }
    }

    /// Whether the ACPI attributes mark the entry valid (bit 0).
    pub fn is_valid(&self) -> (b: bool)
        ensures
            b == acpi_valid(self.acpi),
    {
        self.acpi & 1 != 0
    }

    /// Whether the ACPI attributes mark the region non-volatile (bit 1).
    pub fn is_non_volatile(&self) -> (b: bool)
        ensures
            b == acpi_non_volatile(self.acpi),
    {
        self.acpi & 2 != 0
    }

    /// Readies the entry for an E820 query: the ACPI attributes are set to 1
    /// (valid), in case the BIOS writes only the first 20 bytes.
    pub fn prepare_for_query(&mut self)
        ensures
            *final(self) == (E820Entry { acpi: 1, ..*old(self) }),
    {
        self.acpi = 1;
    }

    /// Appends how the entry is shown (see [`entry_text`]).
    pub fn write_text(&self, out: &mut Vec<u8>)
        ensures
            final(out)@ == old(out)@ + entry_text(*self),
    {
        push_bytes(out, &[98, 97, 115, 101, 58, 32]);
        push_hex(out, self.base);
        push_bytes(out, &[32, 32, 108, 101, 110, 58, 32]);
        push_hex(out, self.len);
        push_bytes(out, &[32, 32, 116, 121, 112, 101, 58, 32]);
        self.entry_type.write_text(out);
        push_bytes(out, &[32, 32, 97, 99, 112, 105, 58, 32, 48, 120]);
        push_hex(out, self.acpi as u64);
        push_bytes(out, &[32, 40]);
        if self.is_valid() {
            if self.is_non_volatile() {
                push_bytes(out, &[118, 97, 108, 105, 100, 44, 32, 110, 111, 110, 45, 118, 111, 108, 97, 116, 105, 108, 101]);
            } else {
                push_bytes(out, &[118, 97, 108, 105, 100]);
            }
        } else {
            push_bytes(out, &[105, 110, 118, 97, 108, 105, 100]);
        }
        push_bytes(out, &[41]);
        assert(final(out)@ =~= old(out)@ + entry_text(*self));
    }

    /// How the entry is shown on the console (see [`entry_text`]).
    pub fn to_text(&self) -> (t: Vec<u8>)
        ensures
            t@ == entry_text(*self),
    {
        let mut t: Vec<u8> = Vec::new();
        self.write_text(&mut t);
        assert(t@ =~= entry_text(*self));
        t
    }
}

/// What an E820 query returned: the continuation value for the next query
/// (0 after the last entry) when the call succeeded, that is when the carry
/// flag came back clear and EAX holds `"SMAP"`; `None` otherwise.
pub fn e820_reply(carry_clear: bool, eax: u32, next: u32) -> (r: Option<u32>)
    ensures
        r == (if carry_clear && eax == SMAP { Some(next) } else { None::<u32> }),
{
    if carry_clear && eax == SMAP {
        Some(next)
    } else {
        None
    }
}

impl MemoryMap {
    /// The map holds at most its capacity.
    pub open spec fn wf(&self) -> bool {
        self.count <= MAX_E820_ENTRIES
    }

    /// The entries that the map holds.
    pub open spec fn view(&self) -> Seq<E820Entry> {
        self.entries@.take(self.count as int)
    }

    /// An empty map.
    pub fn new() -> (m: MemoryMap)
        ensures
            m.wf(),
            m.count == 0,
            m@ == Seq::<E820Entry>::empty(),
            forall|i: int| 0 <= i < 32 ==> m.entries@[i] == E820Entry::zero_spec(),
    {
        let z = E820Entry::zero();
        MemoryMap { entries: [z; 32], count: 0 }
    }

    /// Whether another entry can be queried.
    pub fn has_room(&self) -> (b: bool)
        ensures
            b == (self.count < MAX_E820_ENTRIES),
    {
        self.count < MAX_E820_ENTRIES
    }

    /// Records the outcome of one E820 query and says whether to query again,
    /// and with which continuation.  The query writes into the slot just past
    /// the map's entries whether or not it succeeds, so `slot` (the slot as
    /// the query left it) is stored there in either case.  A failed query
    /// (`None`) ends the scan and leaves the map's entries as they were.  A
    /// successful one counts the slot as a new entry; the scan goes on with
    /// the continuation unless it is 0 (the last entry) or the map is now full.
    pub fn record_reply(&mut self, slot: E820Entry, reply: Option<u32>) -> (next: Option<u32>)
        requires
            old(self).wf(),
            old(self).count < MAX_E820_ENTRIES,
        ensures
            final(self).wf(),
            final(self).entries@ == old(self).entries@.update(old(self).count as int, slot),
            match reply {
                None => {
                    &&& next is None
                    &&& final(self).count == old(self).count
                    &&& final(self)@ == old(self)@
                },
                Some(cont) => {
                    &&& final(self).count == old(self).count + 1
                    &&& final(self)@ == old(self)@.push(slot)
                    &&& next == (if cont == 0 || final(self).count == MAX_E820_ENTRIES {
                        None::<u32>
                    } else {
                        Some(cont)
                    })
                },
            },
    {
        let c = self.count;
        self.entries[c] = slot;
        match reply {
            None => {
                assert(self@ =~= old(self)@);
                None
            },
            Some(cont) => {
                self.count = c + 1;
                assert(self@ =~= old(self)@.push(slot));
                if cont == 0 || self.count == MAX_E820_ENTRIES {
                    None
                } else {
                    Some(cont)
                }
            },
        }
    }

    /// Appends the console listing of the map (see [`map_text`]).
    pub fn write_text(&self, out: &mut Vec<u8>)
        requires
            self.wf(),
        ensures
            final(out)@ == old(out)@ + map_text(self@),
    {
        let ghost start = out@;
        let mut i: usize = 0;
        while i < self.count
            invariant
                i <= self.count <= 32,
                out@ == start + map_text(self@.take(i as int)),
            decreases self.count - i,
        {
            let e = self.entries[i];
            assert(self@.take(i as int + 1).drop_last() == self@.take(i as int));
            assert(self@.take(i as int + 1).last() == e);
            e.write_text(out);
            push_bytes(out, &[13, 10]);
            assert(out@ =~= start + map_text(self@.take(i as int + 1)));
            i = i + 1;
        }
        assert(self@.take(i as int) =~= self@);
    }

    /// The console listing of the map (see [`map_text`]).
    pub fn to_text(&self) -> (t: Vec<u8>)
        requires
            self.wf(),
        ensures
            t@ == map_text(self@),
    {
        let mut t: Vec<u8> = Vec::new();
        self.write_text(&mut t);
        assert(t@ =~= map_text(self@));
        t
    }
}

impl E820Entry {
    pub open spec fn zero_spec() -> E820Entry {
        E820Entry { base: 0, len: 0, entry_type: EntryType(0), acpi: 0 }
    }
}

/// The console text of an entry spells its fields in full: after `base: `
/// come hexadecimal digits whose value is the entry's whole 64-bit base, then
/// `  len: ` and digits whose value is its whole 64-bit length, then
/// `  type: ` and the type's name, then `  acpi: 0x` and digits whose value is
/// its ACPI attributes.
#[verifier::rlimit(60)]
pub proof fn lemma_entry_text_fields(e: E820Entry)
    ensures
        ({
            let t = entry_text(e);
            let n = hex_text(e.base as nat).len() as int;
            let m = hex_text(e.len as nat).len() as int;
            let p = 21 + n + m + entry_type_text(e.entry_type).len();
            let q = hex_text(e.acpi as nat).len() as int;
            &&& t.subrange(0, 6) == label_base()
            &&& forall|k: int| 6 <= k < 6 + n ==> is_hex_digit(#[trigger] t[k])
            &&& hex_value(t.subrange(6, 6 + n)) == e.base
            &&& t.subrange(6 + n, 13 + n) == label_len()
            &&& forall|k: int| 13 + n <= k < 13 + n + m ==> is_hex_digit(#[trigger] t[k])
            &&& hex_value(t.subrange(13 + n, 13 + n + m)) == e.len
            &&& t.subrange(13 + n + m, 21 + n + m) == label_type()
            &&& t.subrange(21 + n + m, p) == entry_type_text(e.entry_type)
            &&& t.subrange(p, p + 10) == label_acpi()
            &&& forall|k: int| p + 10 <= k < p + 10 + q ==> is_hex_digit(#[trigger] t[k])
            &&& hex_value(t.subrange(p + 10, p + 10 + q)) == e.acpi
        }),
{
    let hb = hex_text(e.base as nat);
    let hl = hex_text(e.len as nat);
    let ht = entry_type_text(e.entry_type);
    let ha = hex_text(e.acpi as nat);
    lemma_hex_text_roundtrip(e.base as nat);
    lemma_hex_text_roundtrip(e.len as nat);
    lemma_hex_text_roundtrip(e.acpi as nat);
    let state = if acpi_valid(e.acpi) {
        if acpi_non_volatile(e.acpi) {
            label_valid_non_volatile()
        } else {
            label_valid()
        }
    } else {
        label_invalid()
    };
    let a1 = label_base() + hb;
    let a2 = a1 + label_len();
    let a3 = a2 + hl;
    let a4 = a3 + label_type();
    let a5 = a4 + ht;
    let a6 = a5 + label_acpi();
    let a7 = a6 + ha;
    let t = a7 + label_open() + state + label_close();
    assert(entry_text(e) == t);
    let rest = label_open() + state + label_close();
    assert(t =~= a7 + rest);
    assert(t.subrange(0, t.len() as int) =~= t);
    lemma_prefix_of_concat(a7, rest, t, t);
    lemma_prefix_of_concat(a6, ha, t, a7);
    lemma_prefix_of_concat(a5, label_acpi(), t, a6);
    lemma_prefix_of_concat(a4, ht, t, a5);
    lemma_prefix_of_concat(a3, label_type(), t, a4);
    lemma_prefix_of_concat(a2, hl, t, a3);
    lemma_prefix_of_concat(a1, label_len(), t, a2);
    lemma_prefix_of_concat(label_base(), hb, t, a1);
    lemma_piece(Seq::empty(), label_base(), t);
    lemma_piece(label_base(), hb, t);
    lemma_piece(a1, label_len(), t);
    lemma_piece(a2, hl, t);
    lemma_piece(a3, label_type(), t);
    lemma_piece(a4, ht, t);
    lemma_piece(a5, label_acpi(), t);
    lemma_piece(a6, ha, t);
}

/// Where `t` starts with `whole`, and `whole` is `x + y`, `t` starts with `x`.
proof fn lemma_prefix_of_concat(x: Seq<u8>, y: Seq<u8>, t: Seq<u8>, whole: Seq<u8>)
    requires
        whole == x + y,
        whole.len() <= t.len(),
        t.subrange(0, whole.len() as int) == whole,
    ensures
        t.subrange(0, x.len() as int) == x,
{
    assert forall|k: int| 0 <= k < x.len() implies t.subrange(0, x.len() as int)[k] == x[k] by {
        assert(t[k] == t.subrange(0, whole.len() as int)[k]);
        assert(whole[k] == x[k]);
    }
    assert(t.subrange(0, x.len() as int) =~= x);
}

/// A piece `mid` that follows `pre` at the start of `t` is the subrange of
/// `t` at `pre`'s length.
proof fn lemma_piece(pre: Seq<u8>, mid: Seq<u8>, t: Seq<u8>)
    requires
        pre.len() + mid.len() <= t.len(),
        t.subrange(0, (pre.len() + mid.len()) as int) == pre + mid,
    ensures
        t.subrange(pre.len() as int, (pre.len() + mid.len()) as int) == mid,
        forall|k: int| pre.len() <= k < pre.len() + mid.len() ==> #[trigger] t[k] == mid[k - pre.len()],
{
    let n = (pre.len() + mid.len()) as int;
    assert forall|k: int| pre.len() <= k < n implies #[trigger] t[k] == mid[k - pre.len()] by {
        assert(t[k] == t.subrange(0, n)[k]);
        assert((pre + mid)[k] == mid[k - pre.len()]);
    }
    assert(t.subrange(pre.len() as int, n) =~= mid);
}

} // verus!
