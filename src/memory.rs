use vstd::prelude::*;

use crate::elf::{
    be16_at, be32_at, program_headers_of, section_headers_of, shnum_of, well_formed, ELF,
    ProgramHeader, SectionHeader,
};

verus! {

/// One of the four regions of the address space.
#[derive(Debug, Clone, Copy, PartialEq, Eq, Structural)]
pub enum Section {
    Text,
    Data,
    Heap,
    Stack,
}

impl Section {
    /// Declaration order; among segments that share a base address the later
    /// one is placed last in address order.
    pub open spec fn rank(self) -> int {
        match self {
            Section::Text => 0,
            Section::Data => 1,
            Section::Heap => 2,
            Section::Stack => 3,
        }
    }
}

/// Mathematical model of a `Memory`: the four byte buffers and their bases.
pub struct MemoryView {
    pub text: Seq<u8>,
    pub data: Seq<u8>,
    pub heap: Seq<u8>,
    pub stack: Seq<u8>,
    pub text_address: u32,
    pub data_address: u32,
    pub heap_address: u32,
    pub stack_address: u32,
}

/// `buf` after storing `v` at index `off`: in place when `off` is inside the
/// buffer, otherwise after zero-filling up to `off`.
pub open spec fn stored(buf: Seq<u8>, off: nat, v: u8) -> Seq<u8> {
    if off < buf.len() {
        buf.update(off as int, v)
    } else {
        buf + Seq::new((off - buf.len()) as nat, |i: int| 0u8) + seq![v]
    }
}

/// The big-endian value of four bytes, most significant first.
pub open spec fn be_word(b0: u8, b1: u8, b2: u8, b3: u8) -> u32 {
    (b0 as int * 0x1000000 + b1 as int * 0x10000 + b2 as int * 0x100 + b3 as int) as u32
}

/// The big-endian value of two bytes, most significant first.
pub open spec fn be_half(b0: u8, b1: u8) -> u16 {
    (b0 as int * 0x100 + b1 as int) as u16
}

impl MemoryView {
    pub open spec fn base(self, s: Section) -> u32 {
        match s {
            Section::Text => self.text_address,
            Section::Data => self.data_address,
            Section::Heap => self.heap_address,
            Section::Stack => self.stack_address,
        }
    }

    pub open spec fn buffer(self, s: Section) -> Seq<u8> {
        match s {
            Section::Text => self.text,
            Section::Data => self.data,
            Section::Heap => self.heap,
            Section::Stack => self.stack,
        }
    }

    /// `t` starts at or below `a` and comes after `s` once the segments are
    /// ordered by base address (equal bases keep declaration order).
    pub open spec fn after(self, t: Section, s: Section, a: u32) -> bool {
        &&& self.base(t) <= a
        &&& (self.base(t) > self.base(s) || (self.base(t) == self.base(s) && t.rank() > s.rank()))
    }

    /// Address `a` lies in segment `s`: `s` is the last segment, in address
    /// order, whose base is at or below `a`.
    pub open spec fn owns(self, s: Section, a: u32) -> bool {
        &&& self.base(s) <= a
        &&& !self.after(Section::Text, s, a)
        &&& !self.after(Section::Data, s, a)
        &&& !self.after(Section::Heap, s, a)
        &&& !self.after(Section::Stack, s, a)
    }

    /// The segment that holds `a`, if `a` is not below every base.
    pub open spec fn section_of(self, a: u32) -> Option<Section> {
        if self.owns(Section::Stack, a) {
            Some(Section::Stack)
        } else if self.owns(Section::Heap, a) {
            Some(Section::Heap)
        } else if self.owns(Section::Data, a) {
            Some(Section::Data)
        } else if self.owns(Section::Text, a) {
            Some(Section::Text)
        } else {
            None
        }
    }

    pub open spec fn mapped(self, a: u32) -> bool {
        self.section_of(a) is Some
    }

    /// Offset of `a` inside its segment.
    pub open spec fn offset(self, a: u32) -> nat {
        (a - self.base(self.section_of(a)->0)) as nat
    }

    /// `a` is mapped and inside its segment's buffer.
    pub open spec fn readable(self, a: u32) -> bool {
        self.mapped(a) && self.offset(a) < self.buffer(self.section_of(a)->0).len()
    }

    pub open spec fn byte(self, a: u32) -> u8 {
        self.buffer(self.section_of(a)->0)[self.offset(a) as int]
    }

    pub open spec fn half_readable(self, a: u32) -> bool {
        a <= u32::MAX - 1 && self.readable(a) && self.readable((a + 1) as u32)
    }

    pub open spec fn word_readable(self, a: u32) -> bool {
        &&& a <= u32::MAX - 3
        &&& self.readable(a)
        &&& self.readable((a + 1) as u32)
        &&& self.readable((a + 2) as u32)
        &&& self.readable((a + 3) as u32)
    }

    pub open spec fn half(self, a: u32) -> u16 {
        be_half(self.byte(a), self.byte((a + 1) as u32))
    }

    pub open spec fn word(self, a: u32) -> u32 {
        be_word(
            self.byte(a),
            self.byte((a + 1) as u32),
            self.byte((a + 2) as u32),
            self.byte((a + 3) as u32),
        )
    }

    pub open spec fn with_buffer(self, s: Section, b: Seq<u8>) -> MemoryView {
        match s {
            Section::Text => MemoryView { text: b, ..self },
            Section::Data => MemoryView { data: b, ..self },
            Section::Heap => MemoryView { heap: b, ..self },
            Section::Stack => MemoryView { stack: b, ..self },
        }
    }

    /// The memory after storing byte `v` at `a`.
    #[verifier::opaque]
    pub open spec fn with_byte(self, a: u32, v: u8) -> MemoryView {
        let s = self.section_of(a)->0;
        self.with_buffer(s, stored(self.buffer(s), self.offset(a), v))
    }

    /// The memory after storing `v` at `a` and `a + 1`, most significant byte first.
    pub open spec fn with_half(self, a: u32, v: u16) -> MemoryView {
        self.with_byte(a, (v >> 8u16) as u8).with_byte((a + 1) as u32, v as u8)
    }

    /// The memory after storing `v` at `a .. a + 4`, most significant byte first.
    pub open spec fn with_word(self, a: u32, v: u32) -> MemoryView {
        self.with_byte(a, (v >> 24u32) as u8).with_byte((a + 1) as u32, (v >> 16u32) as u8).with_byte(
            (a + 2) as u32,
            (v >> 8u32) as u8,
        ).with_byte((a + 3) as u32, v as u8)
    }

    pub open spec fn same_bases(self, other: MemoryView) -> bool {
        &&& self.text_address == other.text_address
        &&& self.data_address == other.data_address
        &&& self.heap_address == other.heap_address
        &&& self.stack_address == other.stack_address
    }
}

/// The string at `start` of `b` reads ".data": those five bytes, then a NUL
/// or the end of `b`.
pub open spec fn names_data(b: Seq<u8>, start: int) -> bool {
    &&& 0 <= start
    &&& start + 5 <= b.len()
    &&& b[start] == 0x2e && b[start + 1] == 0x64 && b[start + 2] == 0x61
    &&& b[start + 3] == 0x74 && b[start + 4] == 0x61
    &&& start + 5 == b.len() || b[start + 5] == 0
}

/// Offset of the section-name string table of `b`.
pub open spec fn strtab_offset(b: Seq<u8>) -> int {
    section_headers_of(b)[be16_at(b, 50) as int].sh_offset as int
}

/// The string table index of `b` names one of its sections, when it has any.
pub open spec fn names_readable(b: Seq<u8>) -> bool {
    shnum_of(b) > 0 ==> be16_at(b, 50) < shnum_of(b)
}

/// The data base after scanning `sections` in order from `start`: the
/// address of the last one named ".data", or `start` when none is.
pub open spec fn data_base(b: Seq<u8>, sections: Seq<SectionHeader>, start: u32) -> u32
    decreases sections.len(),
{
    if sections.len() == 0 {
        start
    } else {
        let h = sections.last();
        if names_data(b, strtab_offset(b) + h.sh_name) {
            h.sh_addr
        } else {
            data_base(b, sections.drop_last(), start)
        }
    }
}

/// `buf` grown with zeros to at least `loc + memsz` bytes, then `bytes`
/// written from `loc`.
pub open spec fn placed(buf: Seq<u8>, loc: nat, memsz: nat, bytes: Seq<u8>) -> Seq<u8> {
    let grown = if buf.len() < loc + memsz {
        buf + Seq::new((loc + memsz - buf.len()) as nat, |i: int| 0u8)
    } else {
        buf
    };
    grown.subrange(0, loc as int) + bytes + grown.subrange((loc + bytes.len()) as int, grown.len() as int)
}

impl MemoryView {
    /// Bases once an executable `b` is known: text at its fixed address, data
    /// at the ".data" section's address.
    pub open spec fn with_sections(self, b: Seq<u8>) -> MemoryView {
        MemoryView {
            text_address: 0x0040_0000,
            data_address: data_base(b, section_headers_of(b), self.data_address),
            ..self
        }
    }

    /// A loadable program header targets the text or data segment and its
    /// file bytes are inside `b` and fit in its memory size.
    pub open spec fn segment_loadable(self, ph: ProgramHeader, b: Seq<u8>) -> bool {
        ph.p_type == 1 ==> {
            &&& self.section_of(ph.p_paddr) == Some(Section::Text) || self.section_of(ph.p_paddr)
                == Some(Section::Data)
            &&& ph.p_filesz <= ph.p_memsz
            &&& ph.p_offset + ph.p_filesz <= b.len()
        }
    }

    /// The memory after copying one program header's bytes from `b`; headers
    /// that are not loadable leave it alone.
    pub open spec fn with_segment(self, ph: ProgramHeader, b: Seq<u8>) -> MemoryView {
        if ph.p_type != 1 {
            self
        } else {
            let s = self.section_of(ph.p_paddr)->0;
            self.with_buffer(
                s,
                placed(
                    self.buffer(s),
                    self.offset(ph.p_paddr),
                    ph.p_memsz as nat,
                    b.subrange(ph.p_offset as int, ph.p_offset + ph.p_filesz),
                ),
            )
        }
    }

    /// The memory after copying the program headers `phs` in order.
    pub open spec fn with_segments(self, phs: Seq<ProgramHeader>, b: Seq<u8>) -> MemoryView
        decreases phs.len(),
    {
        if phs.len() == 0 {
            self
        } else {
            self.with_segments(phs.drop_last(), b).with_segment(phs.last(), b)
        }
    }

    /// `b` is an executable that loads into this memory without a fatal error.
    pub open spec fn elf_loadable(self, b: Seq<u8>) -> bool {
        &&& well_formed(b)
        &&& names_readable(b)
        &&& forall|i: int|
            0 <= i < program_headers_of(b).len() ==> self.with_sections(b).segment_loadable(
                #[trigger] program_headers_of(b)[i],
                b,
            )
    }

    /// The memory after loading executable `b`.
    pub open spec fn with_elf(self, b: Seq<u8>) -> MemoryView {
        self.with_sections(b).with_segments(program_headers_of(b), b)
    }
}

/// At most one segment owns an address.
pub proof fn lemma_owner_unique(m: MemoryView, s: Section, t: Section, a: u32)
    requires
        m.owns(s, a),
        m.owns(t, a),
    ensures
        s == t,
{
    assert(!m.after(t, s, a));
    assert(!m.after(s, t, a));
}

/// Storing a byte leaves the segment layout alone, makes the stored byte
/// readable with its value, and keeps every other readable byte.
pub proof fn lemma_with_byte(m: MemoryView, a: u32, v: u8, x: u32)
    requires
        m.mapped(a),
    ensures
        m.with_byte(a, v).same_bases(m),
        m.with_byte(a, v).section_of(x) == m.section_of(x),
        m.with_byte(a, v).readable(a),
        m.with_byte(a, v).byte(a) == v,
        x != a && m.readable(x) ==> m.with_byte(a, v).readable(x) && m.with_byte(a, v).byte(x)
            == m.byte(x),
{
    reveal(MemoryView::with_byte);
    let n = m.with_byte(a, v);
    let s = m.section_of(a)->0;
    assert(n.section_of(x) == m.section_of(x));
    assert(n.section_of(a) == m.section_of(a));
    let b = m.buffer(s);
    let off = m.offset(a);
    let nb = stored(b, off, v);
    assert(n.buffer(s) == nb);
    if off >= b.len() {
        assert(nb[off as int] == v);
    }
    if x != a && m.readable(x) {
        let sx = m.section_of(x)->0;
        if sx == s {
            assert(m.offset(x) != off);
            assert(nb[m.offset(x) as int] == b[m.offset(x) as int]);
        } else {
            assert(n.buffer(sx) == m.buffer(sx));
        }
    }
}

/// An address is mapped exactly when some segment starts at or below it.
pub proof fn lemma_mapped_iff(m: MemoryView, a: u32)
    ensures
        m.mapped(a) <==> (m.text_address <= a || m.data_address <= a || m.heap_address <= a
            || m.stack_address <= a),
{
}

/// An address at or above a mapped one is mapped too.
pub proof fn lemma_mapped_above(m: MemoryView, a: u32, b: u32)
    requires
        m.mapped(a),
        a <= b,
    ensures
        m.mapped(b),
{
    lemma_mapped_iff(m, a);
    lemma_mapped_iff(m, b);
}

/// Assembling four bytes with shifts gives their big-endian value, and the
/// bytes of a word reassemble into it.
pub proof fn lemma_be_word(b0: u8, b1: u8, b2: u8, b3: u8, v: u32)
    ensures
        ((b0 as u32) << 24u32) | ((b1 as u32) << 16u32) | ((b2 as u32) << 8u32) | (b3 as u32)
            == be_word(b0, b1, b2, b3),
        be_word((v >> 24u32) as u8, (v >> 16u32) as u8, (v >> 8u32) as u8, v as u8) == v,
{
    assert(((b0 as u32) << 24u32) | ((b1 as u32) << 16u32) | ((b2 as u32) << 8u32) | (b3 as u32)
        == (b0 as int * 0x1000000 + b1 as int * 0x10000 + b2 as int * 0x100 + b3 as int) as u32)
        by (bit_vector);
    assert(v == (((v >> 24u32) as u8) as int * 0x1000000 + ((v >> 16u32) as u8) as int * 0x10000
        + ((v >> 8u32) as u8) as int * 0x100 + (v as u8) as int) as u32) by (bit_vector);
}

/// The halfword counterpart of `lemma_be_word`.
pub proof fn lemma_be_half(b0: u8, b1: u8, v: u16)
    ensures
        ((b0 as u16) << 8u16) | (b1 as u16) == be_half(b0, b1),
        be_half((v >> 8u16) as u8, v as u8) == v,
{
    assert(((b0 as u16) << 8u16) | (b1 as u16) == (b0 as int * 0x100 + b1 as int) as u16)
        by (bit_vector);
    assert(v == (((v >> 8u16) as u8) as int * 0x100 + (v as u8) as int) as u16) by (bit_vector);
}

/// Reading back a stored byte gives the byte.
pub proof fn lemma_byte_round_trip(m: MemoryView, a: u32, v: u8)
    requires
        m.mapped(a),
    ensures
        m.with_byte(a, v).readable(a),
        m.with_byte(a, v).byte(a) == v,
{
    lemma_with_byte(m, a, v, a);
}

/// Reading back a stored halfword gives the halfword; its bytes sit at
/// `a` and `a + 1`, most significant first.
pub proof fn lemma_half_round_trip(m: MemoryView, a: u32, v: u16)
    requires
        m.mapped(a),
        a <= u32::MAX - 1,
    ensures
        m.with_half(a, v).half_readable(a),
        m.with_half(a, v).byte(a) == (v >> 8u16) as u8,
        m.with_half(a, v).byte((a + 1) as u32) == v as u8,
        m.with_half(a, v).half(a) == v,
{
    let a1 = (a + 1) as u32;
    let m1 = m.with_byte(a, (v >> 8u16) as u8);
    lemma_mapped_above(m, a, a1);
    lemma_with_byte(m, a, (v >> 8u16) as u8, a1);
    lemma_with_byte(m1, a1, v as u8, a);
    lemma_be_half(0, 0, v);
}

/// Reading back a stored word gives the word; its bytes sit at `a .. a + 4`,
/// most significant first.
pub proof fn lemma_word_round_trip(m: MemoryView, a: u32, v: u32)
    requires
        m.mapped(a),
        a <= u32::MAX - 3,
    ensures
        m.with_word(a, v).word_readable(a),
        m.with_word(a, v).byte(a) == (v >> 24u32) as u8,
        m.with_word(a, v).byte((a + 1) as u32) == (v >> 16u32) as u8,
        m.with_word(a, v).byte((a + 2) as u32) == (v >> 8u32) as u8,
        m.with_word(a, v).byte((a + 3) as u32) == v as u8,
        m.with_word(a, v).word(a) == v,
{
    let a1 = (a + 1) as u32;
    let a2 = (a + 2) as u32;
    let a3 = (a + 3) as u32;
    let m1 = m.with_byte(a, (v >> 24u32) as u8);
    let m2 = m1.with_byte(a1, (v >> 16u32) as u8);
    let m3 = m2.with_byte(a2, (v >> 8u32) as u8);
    lemma_mapped_above(m, a, a1);
    lemma_mapped_above(m, a, a2);
    lemma_mapped_above(m, a, a3);
    lemma_with_byte(m, a, (v >> 24u32) as u8, a1);
    lemma_with_byte(m, a, (v >> 24u32) as u8, a2);
    lemma_with_byte(m, a, (v >> 24u32) as u8, a3);
    lemma_with_byte(m1, a1, (v >> 16u32) as u8, a);
    lemma_with_byte(m1, a1, (v >> 16u32) as u8, a2);
    lemma_with_byte(m1, a1, (v >> 16u32) as u8, a3);
    lemma_with_byte(m2, a2, (v >> 8u32) as u8, a);
    lemma_with_byte(m2, a2, (v >> 8u32) as u8, a1);
    lemma_with_byte(m2, a2, (v >> 8u32) as u8, a3);
    lemma_with_byte(m3, a3, v as u8, a);
    lemma_with_byte(m3, a3, v as u8, a1);
    lemma_with_byte(m3, a3, v as u8, a2);
    lemma_be_word(0, 0, 0, 0, v);
}

/// A byte-addressable space of four growable segments, each anchored at a
/// base address.
#[derive(Debug)]
pub struct Memory {
    pub text: Vec<u8>,
    pub data: Vec<u8>,
    pub heap: Vec<u8>,
    pub stack: Vec<u8>,
    pub text_address: u32,
    pub data_address: u32,
    pub heap_address: u32,
    pub stack_address: u32,
}

impl View for Memory {
    type V = MemoryView;

    open spec fn view(&self) -> MemoryView {
        MemoryView {
            text: self.text@,
            data: self.data@,
            heap: self.heap@,
            stack: self.stack@,
            text_address: self.text_address,
            data_address: self.data_address,
            heap_address: self.heap_address,
            stack_address: self.stack_address,
        }
    }
}

impl Default for Memory {
    /// Empty segments, every base at address zero.
    fn default() -> (m: Memory)
        ensures
            m@.text.len() == 0,
            m@.data.len() == 0,
            m@.heap.len() == 0,
            m@.stack.len() == 0,
            m.text_address == 0,
            m.data_address == 0,
            m.heap_address == 0,
            m.stack_address == 0,
    {
        Memory {
            text: Vec::new(),
            data: Vec::new(),
            heap: Vec::new(),
            stack: Vec::new(),
            text_address: 0,
            data_address: 0,
            heap_address: 0,
            stack_address: 0,
        }
    }
}

impl Memory {
    fn base_of(&self, section: Section) -> (r: u32)
        ensures
            r == self@.base(section),
    {
        match section {
            Section::Text => self.text_address,
            Section::Data => self.data_address,
            Section::Heap => self.heap_address,
            Section::Stack => self.stack_address,
        }
    }

    /// Whether some segment starts at or below `address`.
    pub fn is_mapped(&self, address: u32) -> (r: bool)
        ensures
            r == self@.mapped(address),
    {
        proof {
            lemma_mapped_iff(self@, address);
        }
        self.text_address <= address || self.data_address <= address || self.heap_address
            <= address || self.stack_address <= address
    }

    /// The segment holding `address`: the last one, in address order, whose
    /// base is at or below it.
    pub fn get_section(&self, address: u32) -> (r: Section)
        requires
            self@.mapped(address),
        ensures
            self@.section_of(address) == Some(r),
    {
        let order = [Section::Text, Section::Data, Section::Heap, Section::Stack];
        let mut best: Option<Section> = None;
        let mut i: usize = 0;
        proof {
            assert(order@[0].rank() == 0);
            assert(order@[1].rank() == 1);
            assert(order@[2].rank() == 2);
            assert(order@[3].rank() == 3);
        }
        while i < 4
            invariant
                0 <= i <= 4,
                order@ == seq![Section::Text, Section::Data, Section::Heap, Section::Stack],
                forall|k: int| 0 <= k < 4 ==> #[trigger] order@[k].rank() == k,
                forall|k: int|
                    0 <= k < i ==> #[trigger] self@.base(order@[k]) <= address ==> best is Some,
                best matches Some(b) ==> {
                    &&& self@.base(b) <= address
                    &&& b.rank() < i
                    &&& forall|k: int|
                        0 <= k < i && #[trigger] self@.base(order@[k]) <= address ==> (self@.base(
                            order@[k],
                        ) < self@.base(b) || (self@.base(order@[k]) == self@.base(b) && k
                            <= b.rank()))
                },
            decreases 4 - i,
        {
            let s = order[i];
            let base = self.base_of(s);
            if base <= address {
                match best {
                    None => {
                        best = Some(s);
                    },
                    Some(b) => {
                        if base >= self.base_of(b) {
                            best = Some(s);
                        }
                    },
                }
            }
            i = i + 1;
        }
        let r = best.unwrap();
        proof {
            assert(self@.after(order@[0], r, address) == self@.after(Section::Text, r, address));
            assert(self@.after(order@[1], r, address) == self@.after(Section::Data, r, address));
            assert(self@.after(order@[2], r, address) == self@.after(Section::Heap, r, address));
            assert(self@.after(order@[3], r, address) == self@.after(Section::Stack, r, address));
            assert(self@.owns(r, address));
            if let Some(t) = self@.section_of(address) {
                lemma_owner_unique(self@, r, t, address);
            }
        }
        r
    }

    /// Offset of `address` from the base of its segment.
    pub fn get_location(&self, address: u32) -> (r: usize)
        requires
            self@.mapped(address),
        ensures
            r == self@.offset(address),
    {
        let section = self.get_section(address);
        (address - self.base_of(section)) as usize
    }

    /// Whether `address` is mapped and inside its segment's buffer.
    pub fn is_readable(&self, address: u32) -> (r: bool)
        ensures
            r == self@.readable(address),
    {
        if !self.is_mapped(address) {
            return false;
        }
        let location = self.get_location(address);
        match self.get_section(address) {
            Section::Text => location < self.text.len(),
            Section::Data => location < self.data.len(),
            Section::Heap => location < self.heap.len(),
            Section::Stack => location < self.stack.len(),
        }
    }

    /// Whether the four bytes at `address` can all be read.
    pub fn is_word_readable(&self, address: u32) -> (r: bool)
        ensures
            r == self@.word_readable(address),
    {
        address <= u32::MAX - 3 && self.is_readable(address) && self.is_readable(address + 1)
            && self.is_readable(address + 2) && self.is_readable(address + 3)
    }

    pub fn read_byte(&self, address: u32) -> (r: u8)
        requires
            self@.readable(address),
        ensures
            r == self@.byte(address),
    {
        let section = self.get_section(address);
        let location = self.get_location(address);
        match section {
            Section::Text => self.text[location],
            Section::Data => self.data[location],
            Section::Heap => self.heap[location],
            Section::Stack => self.stack[location],
        }
    }

    /// The halfword at `address`, most significant byte first.
    pub fn read_halfword(&self, address: u32) -> (r: u16)
        requires
            self@.half_readable(address),
        ensures
            r == self@.half(address),
    {
        let b0 = self.read_byte(address);
        let b1 = self.read_byte(address + 1);
        proof {
            lemma_be_half(b0, b1, 0);
        }
        (b0 as u16) << 8 | b1 as u16
    }

    /// The word at `address`, most significant byte first.
    pub fn read_word(&self, address: u32) -> (r: u32)
        requires
            self@.word_readable(address),
        ensures
            r == self@.word(address),
    {
        let b0 = self.read_byte(address);
        let b1 = self.read_byte(address + 1);
        let b2 = self.read_byte(address + 2);
        let b3 = self.read_byte(address + 3);
        proof {
            lemma_be_word(b0, b1, b2, b3, 0);
        }
        (b0 as u32) << 24 | (b1 as u32) << 16 | (b2 as u32) << 8 | b3 as u32
    }

    /// Stores `value` at index `location`, zero-filling the buffer up to it
    /// when it is shorter.
    fn write_to_memory(memory: &mut Vec<u8>, location: usize, value: u8)
        ensures
            final(memory)@ == stored(old(memory)@, location as nat, value),
    {
        if location < memory.len() {
            memory.set(location, value);
        } else {
            let ghost start = old(memory)@;
            while memory.len() < location
                invariant
                    start.len() <= memory@.len() <= location,
                    memory@ == start + Seq::new((memory@.len() - start.len()) as nat, |i: int| 0u8),
                decreases location - memory.len(),
            {
                memory.push(0);
            }
            memory.push(value);
            assert(memory@ =~= stored(start, location as nat, value));
        }
    }

    /// Stores one byte at `address`, growing its segment when needed.
    pub fn write_byte(&mut self, address: u32, value: u8)
        requires
            old(self)@.mapped(address),
        ensures
            final(self)@ == old(self)@.with_byte(address, value),
    {
        let section = self.get_section(address);
        let location = self.get_location(address);
        proof {
            reveal(MemoryView::with_byte);
        }
        match section {
            Section::Text => Self::write_to_memory(&mut self.text, location, value),
            Section::Data => Self::write_to_memory(&mut self.data, location, value),
            Section::Heap => Self::write_to_memory(&mut self.heap, location, value),
            Section::Stack => Self::write_to_memory(&mut self.stack, location, value),
        }
    }

    /// Stores `value` at `address` and `address + 1`, most significant byte first.
    pub fn write_halfword(&mut self, address: u32, value: u16)
        requires
            old(self)@.mapped(address),
            address <= u32::MAX - 1,
        ensures
            final(self)@ == old(self)@.with_half(address, value),
    {
        proof {
            lemma_mapped_above(old(self)@, address, (address + 1) as u32);
        }
        self.write_byte(address, (value >> 8) as u8);
        proof {
            lemma_with_byte(old(self)@, address, (value >> 8u16) as u8, (address + 1) as u32);
        }
        self.write_byte(address + 1, value as u8);
    }

    /// Stores `value` at `address .. address + 4`, most significant byte first.
    pub fn write_word(&mut self, address: u32, value: u32)
        requires
            old(self)@.mapped(address),
            address <= u32::MAX - 3,
        ensures
            final(self)@ == old(self)@.with_word(address, value),
    {
        proof {
            lemma_mapped_above(old(self)@, address, (address + 1) as u32);
            lemma_mapped_above(old(self)@, address, (address + 2) as u32);
            lemma_mapped_above(old(self)@, address, (address + 3) as u32);
        }
        self.write_byte(address, (value >> 24) as u8);
        proof {
            lemma_with_byte(old(self)@, address, (value >> 24u32) as u8, (address + 1) as u32);
        }
        let ghost m1 = self@;
        self.write_byte(address + 1, (value >> 16) as u8);
        proof {
            lemma_with_byte(old(self)@, address, (value >> 24u32) as u8, (address + 2) as u32);
            lemma_with_byte(m1, (address + 1) as u32, (value >> 16u32) as u8, (address + 2) as u32);
        }
        let ghost m2 = self@;
        self.write_byte(address + 2, (value >> 8) as u8);
        proof {
            lemma_with_byte(old(self)@, address, (value >> 24u32) as u8, (address + 3) as u32);
            lemma_with_byte(m1, (address + 1) as u32, (value >> 16u32) as u8, (address + 3) as u32);
            lemma_with_byte(m2, (address + 2) as u32, (value >> 8u32) as u8, (address + 3) as u32);
        }
        self.write_byte(address + 3, value as u8);
    }

    /// Whether the string at `start` of `bytes` is ".data".
    fn is_data_name(bytes: &Vec<u8>, start: u64) -> (r: bool)
        ensures
            r == names_data(bytes@, start as int),
    {
        let len = bytes.len();
        if start > len as u64 || len as u64 - start < 5 {
            return false;
        }
        let start = start as usize;
        bytes[start] == 0x2e && bytes[start + 1] == 0x64 && bytes[start + 2] == 0x61 && bytes[start
            + 3] == 0x74 && bytes[start + 4] == 0x61 && (start + 5 == len || bytes[start + 5] == 0)
    }

    /// The address of the last section named ".data", or `start` when none is.
    fn find_data_address(elf: &ELF, start: u32) -> (r: u32)
        requires
            well_formed(elf.elf@),
            names_readable(elf.elf@),
            elf.parsed_from(elf.elf@),
        ensures
            r == data_base(elf.elf@, section_headers_of(elf.elf@), start),
    {
        let ghost b = elf.elf@;
        let ghost sections = section_headers_of(b);
        let mut address = start;
        let mut i: usize = 0;
        while i < elf.section_headers.len()
            invariant
                elf.parsed_from(b),
                names_readable(b),
                sections == section_headers_of(b),
                b == elf.elf@,
                i <= sections.len(),
                address == data_base(b, sections.take(i as int), start),
            decreases sections.len() - i,
        {
            let header_names = &elf.section_headers[elf.elf_header.shstrndx as usize];
            let name_start = header_names.sh_offset as u64 + elf.section_headers[i].sh_name as u64;
            if Self::is_data_name(&elf.elf, name_start) {
                address = elf.section_headers[i].sh_addr;
            }
            proof {
                assert(sections.take(i + 1).drop_last() =~= sections.take(i as int));
            }
            i = i + 1;
        }
        assert(sections.take(i as int) =~= sections);
        address
    }

    /// Places the text segment at its fixed address and the data segment at
    /// the ".data" section's address.
    fn set_sections(&mut self, elf: &ELF)
        requires
            well_formed(elf.elf@),
            names_readable(elf.elf@),
            elf.parsed_from(elf.elf@),
        ensures
            final(self)@ == old(self)@.with_sections(elf.elf@),
    {
        self.text_address = 0x00400000;
        self.data_address = Self::find_data_address(elf, self.data_address);
    }

    /// Grows `buf` with zeros to at least `location + memsz` bytes, then
    /// copies `count` bytes of `bytes` from `from` to `location`.
    fn copy_segment(
        buf: &mut Vec<u8>,
        location: usize,
        memsz: u32,
        bytes: &[u8],
        from: usize,
        count: usize,
    )
        requires
            location <= u32::MAX,
            count <= memsz,
            from + count <= bytes@.len(),
        ensures
            final(buf)@ == placed(
                old(buf)@,
                location as nat,
                memsz as nat,
                bytes@.subrange(from as int, from + count),
            ),
    {
        let ghost start = old(buf)@;
        let end: u64 = location as u64 + memsz as u64;
        while (buf.len() as u64) < end
            invariant
                start.len() <= buf@.len(),
                buf@.len() <= end || buf@.len() == start.len(),
                buf@ == start + Seq::new((buf@.len() - start.len()) as nat, |i: int| 0u8),
            decreases end - buf@.len(),
        {
            buf.push(0);
        }
        let ghost grown = buf@;
        let grown_len = buf.len();
        let bytes_len = bytes.len();
        assert(grown == (if start.len() < location + memsz {
            start + Seq::new((location + memsz - start.len()) as nat, |i: int| 0u8)
        } else {
            start
        }));
        let mut k: usize = 0;
        while k < count
            invariant
                k <= count,
                count <= memsz,
                from + count <= bytes@.len(),
                grown.len() >= location + memsz,
                buf@.len() == grown.len(),
                grown_len == grown.len(),
                bytes_len == bytes@.len(),
                forall|j: int| 0 <= j < location ==> buf@[j] == grown[j],
                forall|j: int| location + count <= j < grown.len() ==> buf@[j] == grown[j],
                forall|j: int|
                    location <= j < location + k ==> #[trigger] buf@[j] == bytes@[from + j - location],
                forall|j: int| location + k <= j < location + count ==> #[trigger] buf@[j] == grown[j],
            decreases count - k,
        {
            buf.set(location + k, bytes[from + k]);
            k = k + 1;
        }
        assert(buf@ =~= placed(start, location as nat, memsz as nat, bytes@.subrange(from as int, from + count)));
    }

    /// Loads executable `binary`: places the text and data segments, copies
    /// every loadable program header's bytes into its segment (zero-filling
    /// up to its memory size), and returns the entry point.
    pub fn load_elf(&mut self, binary: &[u8]) -> (entry: u32)
        requires
            old(self)@.elf_loadable(binary@),
        ensures
            final(self)@ == old(self)@.with_elf(binary@),
            entry == be32_at(binary@, 24),
    {
        let elf = ELF::parse_elf(binary);
        self.set_sections(&elf);
        let ghost b = binary@;
        let ghost phs = program_headers_of(b);
        let ghost start = self@;
        let mut i: usize = 0;
        while i < elf.program_headers.len()
            invariant
                elf.parsed_from(b),
                b == binary@,
                phs == program_headers_of(b),
                start == old(self)@.with_sections(b),
                forall|j: int| 0 <= j < phs.len() ==> start.segment_loadable(#[trigger] phs[j], b),
                i <= phs.len(),
                self@ == start.with_segments(phs.take(i as int), b),
                self@.same_bases(start),
            decreases phs.len() - i,
        {
            let ph = elf.program_headers[i];
            assert(start.segment_loadable(phs[i as int], b));
            let ghost before = self@;
            if ph.p_type == 1 {
                let section = self.get_section(ph.p_paddr);
                let location = self.get_location(ph.p_paddr);
                let from = ph.p_offset as usize;
                let count = ph.p_filesz as usize;
                match section {
                    Section::Text => Self::copy_segment(
                        &mut self.text,
                        location,
                        ph.p_memsz,
                        binary,
                        from,
                        count,
                    ),
                    _ => Self::copy_segment(
                        &mut self.data,
                        location,
                        ph.p_memsz,
                        binary,
                        from,
                        count,
                    ),
                }
            }
            proof {
                assert(phs.take(i + 1).drop_last() =~= phs.take(i as int));
                assert(self@ == before.with_segment(phs[i as int], b));
            }
            i = i + 1;
        }
        assert(phs.take(i as int) =~= phs);
        elf.elf_header.entry
    }

    /// Whether `load_elf` can load `binary` into this memory: it is a
    /// well-formed executable whose loadable program headers all target the
    /// text or data segment with their bytes inside the file.
    pub fn can_load_elf(&self, binary: &[u8]) -> (r: bool)
        ensures
            r == self@.elf_loadable(binary@),
    {
        if !ELF::is_well_formed(binary) {
            return false;
        }
        let elf = ELF::parse_elf(binary);
        if elf.section_headers.len() > 0 && elf.elf_header.shstrndx as usize
            >= elf.section_headers.len() {
            return false;
        }
        let ghost b = binary@;
        let ghost phs = program_headers_of(b);
        let ghost start = self@.with_sections(b);
        let probe = Memory {
            text: Vec::new(),
            data: Vec::new(),
            heap: Vec::new(),
            stack: Vec::new(),
            text_address: 0x0040_0000,
            data_address: Self::find_data_address(&elf, self.data_address),
            heap_address: self.heap_address,
            stack_address: self.stack_address,
        };
        let mut i: usize = 0;
        while i < elf.program_headers.len()
            invariant
                elf.parsed_from(b),
                b == binary@,
                phs == program_headers_of(b),
                probe@.same_bases(start),
                start == self@.with_sections(b),
                i <= phs.len(),
                forall|j: int| 0 <= j < i ==> start.segment_loadable(#[trigger] phs[j], b),
            decreases phs.len() - i,
        {
            let ph = elf.program_headers[i];
            assert(ph == phs[i as int]);
            assert(probe@.section_of(ph.p_paddr) == start.section_of(ph.p_paddr));
            if ph.p_type == 1 {
                if !probe.is_mapped(ph.p_paddr) {
                    assert(!start.segment_loadable(phs[i as int], b));
                    return false;
                }
                let in_place = match probe.get_section(ph.p_paddr) {
                    Section::Text => true,
                    Section::Data => true,
                    _ => false,
                };
                if !in_place || ph.p_filesz > ph.p_memsz || ph.p_offset as u64 + ph.p_filesz as u64
                    > binary.len() as u64 {
                    assert(!start.segment_loadable(phs[i as int], b));
                    return false;
                }
            }
            i = i + 1;
        }
        true
    }
}

} // verus!
