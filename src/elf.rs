use vstd::prelude::*;

use crate::memory::{be_half, be_word, lemma_be_half, lemma_be_word};

verus! {

/// The big-endian halfword at `o`.
pub open spec fn be16_at(b: Seq<u8>, o: int) -> u16 {
    be_half(b[o], b[o + 1])
}

/// The big-endian word at `o`.
pub open spec fn be32_at(b: Seq<u8>, o: int) -> u32 {
    be_word(b[o], b[o + 1], b[o + 2], b[o + 3])
}

/// Size of the file header, and where the program headers must start.
pub const HEADER_SIZE: u32 = 0x34;

/// Size of one program header entry.
pub const PROGRAM_HEADER_SIZE: u32 = 0x20;

/// Size of one section header entry.
pub const SECTION_HEADER_SIZE: u32 = 0x28;

/// The header fields fixed for a 32-bit big-endian MIPS executable hold in
/// `b`: magic, class, byte order, versions, OS/ABI, type, machine and the
/// header layout.
pub open spec fn header_valid(b: Seq<u8>) -> bool {
    &&& b.len() >= HEADER_SIZE
    &&& b[0] == 0x7f && b[1] == 0x45 && b[2] == 0x4c && b[3] == 0x46
    &&& b[4] == 1 && b[5] == 2 && b[6] == 1 && b[7] == 0
    &&& be16_at(b, 16) == 2
    &&& be16_at(b, 18) == 8
    &&& be32_at(b, 20) == 1
    &&& be32_at(b, 28) == HEADER_SIZE
    &&& be16_at(b, 40) == HEADER_SIZE
    &&& be16_at(b, 42) == PROGRAM_HEADER_SIZE
    &&& be16_at(b, 46) == SECTION_HEADER_SIZE
}

/// Number of program headers named by the file header.
pub open spec fn phnum_of(b: Seq<u8>) -> nat {
    be16_at(b, 44) as nat
}

/// Number of section headers named by the file header.
pub open spec fn shnum_of(b: Seq<u8>) -> nat {
    be16_at(b, 48) as nat
}

/// Offset of the section header table.
pub open spec fn shoff_of(b: Seq<u8>) -> nat {
    be32_at(b, 32) as nat
}

/// `b` holds a valid header and every program and section header it names.
pub open spec fn well_formed(b: Seq<u8>) -> bool {
    &&& header_valid(b)
    &&& phnum_of(b) > 0 ==> HEADER_SIZE + phnum_of(b) * 0x20 <= b.len()
    &&& shnum_of(b) > 0 ==> shoff_of(b) + shnum_of(b) * 0x28 <= b.len()
}

/// The program headers of a well-formed file, in table order.
pub open spec fn program_headers_of(b: Seq<u8>) -> Seq<ProgramHeader> {
    Seq::new(
        phnum_of(b),
        |i: int| ProgramHeader::at(b, HEADER_SIZE + i * 0x20),
    )
}

/// The section headers of a well-formed file, in table order.
pub open spec fn section_headers_of(b: Seq<u8>) -> Seq<SectionHeader> {
    Seq::new(shnum_of(b), |i: int| SectionHeader::at(b, shoff_of(b) + i * 0x28))
}

/// The big-endian halfword at `offset`.
fn read_u16(bytes: &[u8], offset: usize) -> (r: u16)
    requires
        offset + 2 <= bytes@.len(),
    ensures
        r == be16_at(bytes@, offset as int),
{
    let b0 = bytes[offset];
    let b1 = bytes[offset + 1];
    proof {
        lemma_be_half(b0, b1, 0);
    }
    (b0 as u16) << 8 | b1 as u16
}

/// The big-endian word at `offset`.
fn read_u32(bytes: &[u8], offset: usize) -> (r: u32)
    requires
        offset + 4 <= bytes@.len(),
    ensures
        r == be32_at(bytes@, offset as int),
{
    let b0 = bytes[offset];
    let b1 = bytes[offset + 1];
    let b2 = bytes[offset + 2];
    let b3 = bytes[offset + 3];
    proof {
        lemma_be_word(b0, b1, b2, b3, 0);
    }
    (b0 as u32) << 24 | (b1 as u32) << 16 | (b2 as u32) << 8 | b3 as u32
}

/// The 32-bit big-endian ELF file header.
#[derive(Debug)]
pub struct ELFHeader {
    pub ident: [u8; 4],
    pub bit: u8,
    pub endianness: u8,
    pub elf_header_version: u8,
    pub os_abi: u8,
    pub os_abi_version: u8,
    pub e_type: u16,
    pub instruction_set: u16,
    pub elf_version: u32,
    pub entry: u32,
    pub phoff: u32,
    pub shoff: u32,
    pub flags: u32,
    pub ehsize: u16,
    pub phentsize: u16,
    pub phnum: u16,
    pub shentsize: u16,
    pub shnum: u16,
    pub shstrndx: u16,
}

impl ELFHeader {
    /// Every field holds the bytes at its fixed offset in `b`.
    pub open spec fn decoded_from(self, b: Seq<u8>) -> bool {
        &&& self.ident@ == b.subrange(0, 4)
        &&& self.bit == b[4]
        &&& self.endianness == b[5]
        &&& self.elf_header_version == b[6]
        &&& self.os_abi == b[7]
        &&& self.os_abi_version == b[8]
        &&& self.e_type == be16_at(b, 16)
        &&& self.instruction_set == be16_at(b, 18)
        &&& self.elf_version == be32_at(b, 20)
        &&& self.entry == be32_at(b, 24)
        &&& self.phoff == be32_at(b, 28)
        &&& self.shoff == be32_at(b, 32)
        &&& self.flags == be32_at(b, 36)
        &&& self.ehsize == be16_at(b, 40)
        &&& self.phentsize == be16_at(b, 42)
        &&& self.phnum == be16_at(b, 44)
        &&& self.shentsize == be16_at(b, 46)
        &&& self.shnum == be16_at(b, 48)
        &&& self.shstrndx == be16_at(b, 50)
    }

    /// The fields describe a 32-bit big-endian MIPS executable with the
    /// standard header layout.
    pub open spec fn valid(self) -> bool {
        &&& self.ident@ == seq![0x7fu8, 0x45u8, 0x4cu8, 0x46u8]
        &&& self.bit == 1
        &&& self.endianness == 2
        &&& self.elf_header_version == 1
        &&& self.os_abi == 0
        &&& self.e_type == 2
        &&& self.instruction_set == 8
        &&& self.elf_version == 1
        &&& self.phoff == HEADER_SIZE
        &&& self.ehsize == HEADER_SIZE
        &&& self.phentsize == PROGRAM_HEADER_SIZE
        &&& self.shentsize == SECTION_HEADER_SIZE
    }

    pub fn parse_elf_header(elf: &[u8]) -> (r: ELFHeader)
        requires
            elf@.len() >= HEADER_SIZE,
        ensures
            r.decoded_from(elf@),
    {
        let ident = [elf[0], elf[1], elf[2], elf[3]];
        assert(ident@ =~= elf@.subrange(0, 4));
        ELFHeader {
            ident,
            bit: elf[4],
            endianness: elf[5],
            elf_header_version: elf[6],
            os_abi: elf[7],
            os_abi_version: elf[8],
            e_type: read_u16(elf, 16),
            instruction_set: read_u16(elf, 18),
            elf_version: read_u32(elf, 20),
            entry: read_u32(elf, 24),
            phoff: read_u32(elf, 28),
            shoff: read_u32(elf, 32),
            flags: read_u32(elf, 36),
            ehsize: read_u16(elf, 40),
            phentsize: read_u16(elf, 42),
            phnum: read_u16(elf, 44),
            shentsize: read_u16(elf, 46),
            shnum: read_u16(elf, 48),
            shstrndx: read_u16(elf, 50),
        }
    }

    pub fn check(&self) -> (r: bool)
        ensures
            r == self.valid(),
    {
        let magic = self.ident[0] == 0x7f && self.ident[1] == 0x45 && self.ident[2] == 0x4c
            && self.ident[3] == 0x46;
        proof {
            if magic {
                assert(self.ident@ =~= seq![0x7fu8, 0x45u8, 0x4cu8, 0x46u8]);
            }
        }
        magic && self.bit == 1 && self.endianness == 2 && self.elf_header_version == 0x01
            && self.os_abi == 0x00 && self.e_type == 0x02
            && self.instruction_set == 0x0008 && self.elf_version == 0x00000001 && self.phoff
            == HEADER_SIZE && self.ehsize as u32 == HEADER_SIZE && self.phentsize as u32
            == PROGRAM_HEADER_SIZE && self.shentsize as u32 == SECTION_HEADER_SIZE
    }
}

/// A decoded header is valid exactly when its bytes are.
pub proof fn lemma_header_valid(h: ELFHeader, b: Seq<u8>)
    requires
        h.decoded_from(b),
        b.len() >= HEADER_SIZE,
    ensures
        h.valid() <==> header_valid(b),
{
    assert(h.ident@[0] == b[0] && h.ident@[1] == b[1] && h.ident@[2] == b[2] && h.ident@[3] == b[3]);
    if header_valid(b) {
        assert(h.ident@ =~= seq![0x7fu8, 0x45u8, 0x4cu8, 0x46u8]);
    }
}

/// One entry of the program header table.
#[derive(Debug, Clone, Copy)]
pub struct ProgramHeader {
    pub p_type: u32,
    pub p_offset: u32,
    pub _p_vaddr: u32,
    pub p_paddr: u32,
    pub p_filesz: u32,
    pub p_memsz: u32,
    pub _p_flags: u32,
    pub _p_align: u32,
}

impl ProgramHeader {
    /// The program header stored at offset `o` of `b`.
    pub open spec fn at(b: Seq<u8>, o: int) -> ProgramHeader {
        ProgramHeader {
            p_type: be32_at(b, o),
            p_offset: be32_at(b, o + 4),
            _p_vaddr: be32_at(b, o + 8),
            p_paddr: be32_at(b, o + 12),
            p_filesz: be32_at(b, o + 16),
            p_memsz: be32_at(b, o + 20),
            _p_flags: be32_at(b, o + 24),
            _p_align: be32_at(b, o + 28),
        }
    }

    pub fn parse_program_header(elf: &[u8], offset: usize) -> (r: ProgramHeader)
        requires
            offset + PROGRAM_HEADER_SIZE <= elf@.len(),
        ensures
            r == ProgramHeader::at(elf@, offset as int),
    {
        // the header ends inside the slice, whose length is a usize
        let len = elf.len();
        assert(offset + PROGRAM_HEADER_SIZE <= len);
        ProgramHeader {
            p_type: read_u32(elf, offset),
            p_offset: read_u32(elf, offset + 4),
            _p_vaddr: read_u32(elf, offset + 8),
            p_paddr: read_u32(elf, offset + 12),
            p_filesz: read_u32(elf, offset + 16),
            p_memsz: read_u32(elf, offset + 20),
            _p_flags: read_u32(elf, offset + 24),
            _p_align: read_u32(elf, offset + 28),
        }
    }
}

/// One entry of the section header table.
#[derive(Debug, Clone, Copy)]
pub struct SectionHeader {
    pub sh_name: u32,
    pub _sh_type: u32,
    pub _sh_flags: u32,
    pub sh_addr: u32,
    pub sh_offset: u32,
    pub _sh_size: u32,
    pub _sh_link: u32,
    pub _sh_info: u32,
    pub _sh_addralign: u32,
    pub _sh_entsize: u32,
}

impl SectionHeader {
    /// The section header stored at offset `o` of `b`.
    pub open spec fn at(b: Seq<u8>, o: int) -> SectionHeader {
        SectionHeader {
            sh_name: be32_at(b, o),
            _sh_type: be32_at(b, o + 4),
            _sh_flags: be32_at(b, o + 8),
            sh_addr: be32_at(b, o + 12),
            sh_offset: be32_at(b, o + 16),
            _sh_size: be32_at(b, o + 20),
            _sh_link: be32_at(b, o + 24),
            _sh_info: be32_at(b, o + 28),
            _sh_addralign: be32_at(b, o + 32),
            _sh_entsize: be32_at(b, o + 36),
        }
    }

    pub fn parse_section_header(elf: &[u8], offset: usize) -> (r: SectionHeader)
        requires
            offset + SECTION_HEADER_SIZE <= elf@.len(),
        ensures
            r == SectionHeader::at(elf@, offset as int),
    {
        // the header ends inside the slice, whose length is a usize
        let len = elf.len();
        assert(offset + SECTION_HEADER_SIZE <= len);
        SectionHeader {
            sh_name: read_u32(elf, offset),
            _sh_type: read_u32(elf, offset + 4),
            _sh_flags: read_u32(elf, offset + 8),
            sh_addr: read_u32(elf, offset + 12),
            sh_offset: read_u32(elf, offset + 16),
            _sh_size: read_u32(elf, offset + 20),
            _sh_link: read_u32(elf, offset + 24),
            _sh_info: read_u32(elf, offset + 28),
            _sh_addralign: read_u32(elf, offset + 32),
            _sh_entsize: read_u32(elf, offset + 36),
        }
    }
}

/// A parsed executable: its header, its header tables and its bytes.
#[derive(Debug)]
pub struct ELF {
    pub elf_header: ELFHeader,
    pub program_headers: Vec<ProgramHeader>,
    pub section_headers: Vec<SectionHeader>,
    pub elf: Vec<u8>,
}

impl ELF {
    /// `self` is what parsing `b` gives.
    pub open spec fn parsed_from(self, b: Seq<u8>) -> bool {
        &&& self.elf_header.decoded_from(b)
        &&& self.program_headers@ == program_headers_of(b)
        &&& self.section_headers@ == section_headers_of(b)
        &&& self.elf@ == b
    }

    /// Whether `elf` is a file that `parse_elf` accepts.
    pub fn is_well_formed(elf: &[u8]) -> (r: bool)
        ensures
            r == well_formed(elf@),
    {
        if elf.len() < HEADER_SIZE as usize {
            return false;
        }
        let header = ELFHeader::parse_elf_header(elf);
        proof {
            lemma_header_valid(header, elf@);
        }
        if !header.check() {
            return false;
        }
        let phnum = header.phnum as u64;
        let shnum = header.shnum as u64;
        let len = elf.len() as u64;
        (phnum == 0 || HEADER_SIZE as u64 + phnum * 0x20 <= len) && (shnum
            == 0 || header.shoff as u64 + shnum * 0x28 <= len)
    }

    /// Parses the header, checks it, then reads every program and section
    /// header it names.
    pub fn parse_elf(elf: &[u8]) -> (r: ELF)
        requires
            well_formed(elf@),
        ensures
            r.parsed_from(elf@),
            r.elf_header.valid(),
    {
        let len = elf.len();
        let elf_header = ELFHeader::parse_elf_header(elf);
        proof {
            lemma_header_valid(elf_header, elf@);
        }
        let mut program_headers: Vec<ProgramHeader> = Vec::new();
        let mut i: u16 = 0;
        while i < elf_header.phnum
            invariant
                well_formed(elf@),
                len == elf@.len(),
                elf_header.decoded_from(elf@),
                i <= elf_header.phnum,
                program_headers@ == program_headers_of(elf@).take(i as int),
            decreases elf_header.phnum - i,
        {
            let offset = HEADER_SIZE as usize + i as usize * 0x20;
            program_headers.push(ProgramHeader::parse_program_header(elf, offset));
            i = i + 1;
            assert(program_headers@ =~= program_headers_of(elf@).take(i as int));
        }
        let mut section_headers: Vec<SectionHeader> = Vec::new();
        let mut i: u16 = 0;
        while i < elf_header.shnum
            invariant
                well_formed(elf@),
                len == elf@.len(),
                elf_header.decoded_from(elf@),
                i <= elf_header.shnum,
                section_headers@ == section_headers_of(elf@).take(i as int),
            decreases elf_header.shnum - i,
        {
            let offset = elf_header.shoff as usize + i as usize * 0x28;
            section_headers.push(SectionHeader::parse_section_header(elf, offset));
            i = i + 1;
            assert(section_headers@ =~= section_headers_of(elf@).take(i as int));
        }
        let mut bytes: Vec<u8> = Vec::new();
        let mut k: usize = 0;
        while k < elf.len()
            invariant
                k <= elf@.len(),
                bytes@ == elf@.take(k as int),
            decreases elf@.len() - k,
        {
            bytes.push(elf[k]);
            k = k + 1;
            assert(bytes@ =~= elf@.take(k as int));
        }
        assert(program_headers@ =~= program_headers_of(elf@));
        assert(section_headers@ =~= section_headers_of(elf@));
        assert(bytes@ =~= elf@);
        ELF { elf: bytes, elf_header, program_headers, section_headers }
    }
}

} // verus!
