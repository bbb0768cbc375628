use vstd::prelude::*;

verus! {

/// The register file: 32 general-purpose words, the program counter and the
/// `hi`/`lo` pair. Register 0 reads as zero and ignores writes.
#[derive(Debug, Clone, Copy)]
pub struct Registers {
    pub zero: u32,
    pub at: u32,
    pub v0: u32,
    pub v1: u32,
    pub a0: u32,
    pub a1: u32,
    pub a2: u32,
    pub a3: u32,
    pub t0: u32,
    pub t1: u32,
    pub t2: u32,
    pub t3: u32,
    pub t4: u32,
    pub t5: u32,
    pub t6: u32,
    pub t7: u32,
    pub s0: u32,
    pub s1: u32,
    pub s2: u32,
    pub s3: u32,
    pub s4: u32,
    pub s5: u32,
    pub s6: u32,
    pub s7: u32,
    pub t8: u32,
    pub t9: u32,
    pub k0: u32,
    pub k1: u32,
    pub gp: u32,
    pub sp: u32,
    pub fp: u32,
    pub ra: u32,
    pub pc: u32,
    pub hi: u32,
    pub lo: u32,
}

/// Number of general-purpose registers.
pub const REGISTER_COUNT: u8 = 32;

/// Number of entries listed by `Registers::entry`: the general-purpose
/// registers, then `pc`, `hi` and `lo`.
pub const ENTRY_COUNT: usize = 35;

impl Registers {
    /// Value of general-purpose register `i`; register 0 is always zero.
    pub open spec fn get(self, i: int) -> u32 {
        if i == 1 {
            self.at
        } else if i == 2 {
            self.v0
        } else if i == 3 {
            self.v1
        } else if i == 4 {
            self.a0
        } else if i == 5 {
            self.a1
        } else if i == 6 {
            self.a2
        } else if i == 7 {
            self.a3
        } else if i == 8 {
            self.t0
        } else if i == 9 {
            self.t1
        } else if i == 10 {
            self.t2
        } else if i == 11 {
            self.t3
        } else if i == 12 {
            self.t4
        } else if i == 13 {
            self.t5
        } else if i == 14 {
            self.t6
        } else if i == 15 {
            self.t7
        } else if i == 16 {
            self.s0
        } else if i == 17 {
            self.s1
        } else if i == 18 {
            self.s2
        } else if i == 19 {
            self.s3
        } else if i == 20 {
            self.s4
        } else if i == 21 {
            self.s5
        } else if i == 22 {
            self.s6
        } else if i == 23 {
            self.s7
        } else if i == 24 {
            self.t8
        } else if i == 25 {
            self.t9
        } else if i == 26 {
            self.k0
        } else if i == 27 {
            self.k1
        } else if i == 28 {
            self.gp
        } else if i == 29 {
            self.sp
        } else if i == 30 {
            self.fp
        } else if i == 31 {
            self.ra
        } else {
            0
        }
    }

    /// The register file with general-purpose register `i` set to `v`;
    /// unchanged for register 0.
    pub open spec fn set(self, i: int, v: u32) -> Registers {
        if i == 1 {
            Registers { at: v, ..self }
        } else if i == 2 {
            Registers { v0: v, ..self }
        } else if i == 3 {
            Registers { v1: v, ..self }
        } else if i == 4 {
            Registers { a0: v, ..self }
        } else if i == 5 {
            Registers { a1: v, ..self }
        } else if i == 6 {
            Registers { a2: v, ..self }
        } else if i == 7 {
            Registers { a3: v, ..self }
        } else if i == 8 {
            Registers { t0: v, ..self }
        } else if i == 9 {
            Registers { t1: v, ..self }
        } else if i == 10 {
            Registers { t2: v, ..self }
        } else if i == 11 {
            Registers { t3: v, ..self }
        } else if i == 12 {
            Registers { t4: v, ..self }
        } else if i == 13 {
            Registers { t5: v, ..self }
        } else if i == 14 {
            Registers { t6: v, ..self }
        } else if i == 15 {
            Registers { t7: v, ..self }
        } else if i == 16 {
            Registers { s0: v, ..self }
        } else if i == 17 {
            Registers { s1: v, ..self }
        } else if i == 18 {
            Registers { s2: v, ..self }
        } else if i == 19 {
            Registers { s3: v, ..self }
        } else if i == 20 {
            Registers { s4: v, ..self }
        } else if i == 21 {
            Registers { s5: v, ..self }
        } else if i == 22 {
            Registers { s6: v, ..self }
        } else if i == 23 {
            Registers { s7: v, ..self }
        } else if i == 24 {
            Registers { t8: v, ..self }
        } else if i == 25 {
            Registers { t9: v, ..self }
        } else if i == 26 {
            Registers { k0: v, ..self }
        } else if i == 27 {
            Registers { k1: v, ..self }
        } else if i == 28 {
            Registers { gp: v, ..self }
        } else if i == 29 {
            Registers { sp: v, ..self }
        } else if i == 30 {
            Registers { fp: v, ..self }
        } else if i == 31 {
            Registers { ra: v, ..self }
        } else {
            self
        }
    }

    /// The register file with the upper 16 bits of register `i` replaced by
    /// `h`, the lower 16 bits kept.
    pub open spec fn set_high(self, i: int, h: u16) -> Registers {
        self.set(i, (self.get(i) & 0xffff) | ((h as u32) << 16u32))
    }

    /// Conventional name of entry `i` of the listing.
    pub open spec fn name(i: int) -> &'static str {
        if i == 0 {
            "zero"
        } else if i == 1 {
            "at"
        } else if i == 2 {
            "v0"
        } else if i == 3 {
            "v1"
        } else if i == 4 {
            "a0"
        } else if i == 5 {
            "a1"
        } else if i == 6 {
            "a2"
        } else if i == 7 {
            "a3"
        } else if i == 8 {
            "t0"
        } else if i == 9 {
            "t1"
        } else if i == 10 {
            "t2"
        } else if i == 11 {
            "t3"
        } else if i == 12 {
            "t4"
        } else if i == 13 {
            "t5"
        } else if i == 14 {
            "t6"
        } else if i == 15 {
            "t7"
        } else if i == 16 {
            "s0"
        } else if i == 17 {
            "s1"
        } else if i == 18 {
            "s2"
        } else if i == 19 {
            "s3"
        } else if i == 20 {
            "s4"
        } else if i == 21 {
            "s5"
        } else if i == 22 {
            "s6"
        } else if i == 23 {
            "s7"
        } else if i == 24 {
            "t8"
        } else if i == 25 {
            "t9"
        } else if i == 26 {
            "k0"
        } else if i == 27 {
            "k1"
        } else if i == 28 {
            "gp"
        } else if i == 29 {
            "sp"
        } else if i == 30 {
            "fp"
        } else if i == 31 {
            "ra"
        } else if i == 32 {
            "pc"
        } else if i == 33 {
            "hi"
        } else {
            "lo"
        }
    }

    /// Value of entry `i` of the listing.
    pub open spec fn value(self, i: int) -> u32 {
        if i < 32 {
            self.get(i)
        } else if i == 32 {
            self.pc
        } else if i == 33 {
            self.hi
        } else {
            self.lo
        }
    }

    pub fn read_register(&self, number: u8) -> (r: u32)
        requires
            number < REGISTER_COUNT,
        ensures
            r == self.get(number as int),
    {
        match number {
            0 => 0,
            1 => self.at,
            2 => self.v0,
            3 => self.v1,
            4 => self.a0,
            5 => self.a1,
            6 => self.a2,
            7 => self.a3,
            8 => self.t0,
            9 => self.t1,
            10 => self.t2,
            11 => self.t3,
            12 => self.t4,
            13 => self.t5,
            14 => self.t6,
            15 => self.t7,
            16 => self.s0,
            17 => self.s1,
            18 => self.s2,
            19 => self.s3,
            20 => self.s4,
            21 => self.s5,
            22 => self.s6,
            23 => self.s7,
            24 => self.t8,
            25 => self.t9,
            26 => self.k0,
            27 => self.k1,
            28 => self.gp,
            29 => self.sp,
            30 => self.fp,
            31 => self.ra,
            _ => self.ra,
        }
    }

    pub fn write_register(&mut self, number: u8, value: u32)
        requires
            number < REGISTER_COUNT,
        ensures
            *final(self) == old(self).set(number as int, value),
    {
        match number {
            0 => {},
            1 => self.at = value,
            2 => self.v0 = value,
            3 => self.v1 = value,
            4 => self.a0 = value,
            5 => self.a1 = value,
            6 => self.a2 = value,
            7 => self.a3 = value,
            8 => self.t0 = value,
            9 => self.t1 = value,
            10 => self.t2 = value,
            11 => self.t3 = value,
            12 => self.t4 = value,
            13 => self.t5 = value,
            14 => self.t6 = value,
            15 => self.t7 = value,
            16 => self.s0 = value,
            17 => self.s1 = value,
            18 => self.s2 = value,
            19 => self.s3 = value,
            20 => self.s4 = value,
            21 => self.s5 = value,
            22 => self.s6 = value,
            23 => self.s7 = value,
            24 => self.t8 = value,
            25 => self.t9 = value,
            26 => self.k0 = value,
            27 => self.k1 = value,
            28 => self.gp = value,
            29 => self.sp = value,
            30 => self.fp = value,
            31 => self.ra = value,
            _ => self.ra = value,
        }
    }

    /// Replaces the upper 16 bits of a register, keeping the lower 16.
    pub fn write_register_high(&mut self, number: u8, value: u16)
        requires
            number < REGISTER_COUNT,
        ensures
            *final(self) == old(self).set_high(number as int, value),
    {
        let low = self.read_register(number) & 0xffff;
        self.write_register(number, low | (value as u32) << 16);
    }

    /// Entry `index` of the listing in canonical order (`zero`, `at`, ...,
    /// `ra`, `pc`, `hi`, `lo`), or `None` past the end.
    pub fn entry(&self, index: usize) -> (r: Option<(&'static str, u32)>)
        ensures
            index < ENTRY_COUNT ==> r == Some((Registers::name(index as int), self.value(index as int))),
            index >= ENTRY_COUNT ==> r is None,
    {
        let name = match index {
            0 => "zero",
            1 => "at",
            2 => "v0",
            3 => "v1",
            4 => "a0",
            5 => "a1",
            6 => "a2",
            7 => "a3",
            8 => "t0",
            9 => "t1",
            10 => "t2",
            11 => "t3",
            12 => "t4",
            13 => "t5",
            14 => "t6",
            15 => "t7",
            16 => "s0",
            17 => "s1",
            18 => "s2",
            19 => "s3",
            20 => "s4",
            21 => "s5",
            22 => "s6",
            23 => "s7",
            24 => "t8",
            25 => "t9",
            26 => "k0",
            27 => "k1",
            28 => "gp",
            29 => "sp",
            30 => "fp",
            31 => "ra",
            32 => "pc",
            33 => "hi",
            34 => "lo",
            _ => return None,
        };
        let value = if index < 32 {
            self.read_register(index as u8)
        } else if index == 32 {
            self.pc
        } else if index == 33 {
            self.hi
        } else {
            self.lo
        };
        Some((name, value))
    }
}

impl Registers {
    /// Start values: all zero but the global pointer, the stack pointer and
    /// the program counter.
    pub open spec fn initial() -> Registers {
        Registers {
            zero: 0,
            at: 0,
            v0: 0,
            v1: 0,
            a0: 0,
            a1: 0,
            a2: 0,
            a3: 0,
            t0: 0,
            t1: 0,
            t2: 0,
            t3: 0,
            t4: 0,
            t5: 0,
            t6: 0,
            t7: 0,
            s0: 0,
            s1: 0,
            s2: 0,
            s3: 0,
            s4: 0,
            s5: 0,
            s6: 0,
            s7: 0,
            t8: 0,
            t9: 0,
            k0: 0,
            k1: 0,
            gp: 0x10008000,
            sp: 0x7ffffffc,
            fp: 0,
            ra: 0,
            pc: 0x00400000,
            hi: 0,
            lo: 0,
        }
    }
}

impl Default for Registers {
    fn default() -> (r: Registers)
        ensures
            r == Registers::initial(),
    {
        Registers {
            zero: 0,
            at: 0,
            v0: 0,
            v1: 0,
            a0: 0,
            a1: 0,
            a2: 0,
            a3: 0,
            t0: 0,
            t1: 0,
            t2: 0,
            t3: 0,
            t4: 0,
            t5: 0,
            t6: 0,
            t7: 0,
            s0: 0,
            s1: 0,
            s2: 0,
            s3: 0,
            s4: 0,
            s5: 0,
            s6: 0,
            s7: 0,
            t8: 0,
            t9: 0,
            k0: 0,
            k1: 0,
            gp: 0x10008000,
            sp: 0x7ffffffc,
            fp: 0,
            ra: 0,
            pc: 0x00400000,
            hi: 0,
            lo: 0,
        }
    }
}

/// A written register other than 0 reads back the value written, every other
/// register keeps its value, and register 0 ignores writes and reads as zero.
pub proof fn lemma_write_then_read(r: Registers, i: int, v: u32, j: int)
    requires
        0 <= i < 32,
        0 <= j < 32,
    ensures
        i != 0 ==> r.set(i, v).get(i) == v,
        j != i ==> r.set(i, v).get(j) == r.get(j),
        r.set(i, v).pc == r.pc && r.set(i, v).hi == r.hi && r.set(i, v).lo == r.lo,
        r.set(0, v) == r,
        r.get(0) == 0,
{
}

/// Loading the upper half of a register keeps the lower 16 bits of what was
/// last written there.
pub proof fn lemma_write_high_keeps_low(r: Registers, i: int, v: u32, h: u16)
    requires
        0 < i < 32,
    ensures
        r.set(i, v).set_high(i, h).get(i) == (v & 0xffff) | ((h as u32) << 16u32),
{
    lemma_write_then_read(r, i, v, i);
    lemma_write_then_read(r.set(i, v), i, (v & 0xffff) | ((h as u32) << 16u32), i);
}

} // verus!
