use vstd::prelude::*;

use crate::memory::MemoryView;
use crate::registers::Registers;

verus! {

/// `x` reduced to a 32-bit word (two's complement wrap-around).
pub open spec fn wrap(x: int) -> u32 {
    (x % 0x1_0000_0000) as u32
}

/// `x` read as a two's-complement signed 32-bit number.
pub open spec fn signed(x: u32) -> int {
    if x < 0x8000_0000 {
        x as int
    } else {
        x - 0x1_0000_0000
    }
}

/// A 16-bit immediate read as a two's-complement signed number.
pub open spec fn sign_extend(h: u16) -> int {
    if h < 0x8000 {
        h as int
    } else {
        h - 0x10000
    }
}

/// `x` is representable as a signed 32-bit number.
pub open spec fn fits_i32(x: int) -> bool {
    -0x8000_0000 <= x < 0x8000_0000
}

pub open spec fn abs(x: int) -> int {
    if x < 0 {
        -x
    } else {
        x
    }
}

/// Quotient of `a / b` rounded toward zero.
pub open spec fn quotient(a: int, b: int) -> int {
    if (a < 0) == (b < 0) {
        abs(a) / abs(b)
    } else {
        -(abs(a) / abs(b))
    }
}

/// Remainder of `a / b` rounded toward zero: it takes the sign of `a`.
pub open spec fn remainder(a: int, b: int) -> int {
    if a < 0 {
        -(abs(a) % abs(b))
    } else {
        abs(a) % abs(b)
    }
}

/// `x` rotated right by `n` bits, `n < 32`.
pub open spec fn rotr(x: u32, n: u32) -> u32 {
    if n == 0 {
        x
    } else {
        (x >> n) | (x << ((32 - n) as u32))
    }
}

/// The 64-bit two's-complement form of `p`, split into its high and low words.
pub open spec fn split64(p: int) -> (u32, u32) {
    let u = p % 0x1_0000_0000_0000_0000;
    ((u / 0x1_0000_0000) as u32, (u % 0x1_0000_0000) as u32)
}

/// Encoding format of an instruction, fixed by its opcode.
#[derive(Debug, Clone, Copy, PartialEq, Eq, Structural)]
pub enum InstructionKind {
    RType,
    IType,
    JType,
}

/// One decoded instruction word. All fields are taken from fixed bit
/// positions; which of them matter depends on `kind`.
#[derive(Debug, Clone, Copy)]
pub struct Instruction {
    pub opcode: u8,
    pub rs: u8,
    pub rt: u8,
    pub rd: u8,
    pub shamt: u8,
    pub funct: u8,
    pub imm: u16,
    pub address: u32,
    pub kind: InstructionKind,
}

/// The CPU's terminal condition.
#[derive(Debug, Clone, Copy, PartialEq, Eq, Structural)]
pub enum Exception {
    NoException,
    Breakpoint,
    IntegerOverflow,
    Trap,
}

/// What an instruction asks of the step that runs it.
#[derive(Debug, Clone, Copy, PartialEq, Eq, Structural)]
pub enum Flow {
    /// Go on with the next instruction.
    Continue,
    /// Go on at the given address.
    Jump(u32),
    /// Stop the CPU, raising the exception unless it is `NoException`.
    Halt(Exception),
}

/// Format of an opcode, `None` for an opcode this CPU does not know.
pub open spec fn kind_of(opcode: u8) -> Option<InstructionKind> {
    if opcode == 0b000000 {
        Some(InstructionKind::RType)
    } else if opcode == 0b000010 {
        Some(InstructionKind::JType)
    } else if opcode == 0b000100 || opcode == 0b000101 || opcode == 0b001000 || opcode == 0b001001
        || opcode == 0b001100 || opcode == 0b001111 || opcode == 0b010100 || opcode == 0b100011
        || opcode == 0b101011 {
        Some(InstructionKind::IType)
    } else {
        None
    }
}

/// `funct` selects one of the R-type instructions this CPU knows.
pub open spec fn known_funct(funct: u8) -> bool {
    ||| 0b000000 <= funct <= 0b000011 && funct != 0b000001
    ||| 0b000100 <= funct <= 0b001101 && funct != 0b000101
    ||| 0b010000 <= funct <= 0b010011
    ||| 0b011000 <= funct <= 0b011011
    ||| 0b100000 <= funct <= 0b100111
    ||| funct == 0b101010 || funct == 0b101011
    ||| 0b110000 <= funct <= 0b110100
    ||| funct == 0b110110
}

/// The fields of instruction word `w`, for an opcode with a known format.
pub open spec fn decode(w: u32) -> Instruction {
    let opcode = (w >> 26u32) as u8;
    Instruction {
        opcode,
        rs: ((w >> 21u32) & 0x1f) as u8,
        rt: ((w >> 16u32) & 0x1f) as u8,
        rd: ((w >> 11u32) & 0x1f) as u8,
        shamt: ((w >> 6u32) & 0x1f) as u8,
        funct: (w & 0x3f) as u8,
        imm: w as u16,
        address: w & 0x3ff_ffff,
        kind: kind_of(opcode)->0,
    }
}

impl Instruction {
    /// Every field fits its bit width.
    pub open spec fn wf(self) -> bool {
        &&& self.opcode < 64
        &&& self.rs < 32
        &&& self.rt < 32
        &&& self.rd < 32
        &&& self.shamt < 32
        &&& self.funct < 64
        &&& self.address < 0x400_0000
    }
}

/// The fields that `decode` extracts fit their widths.
pub proof fn lemma_decode_wf(w: u32)
    ensures
        decode(w).wf(),
{
    assert(((w >> 26u32) as u8) < 64 && (((w >> 21u32) & 0x1f) as u8) < 32 && (((w >> 16u32)
        & 0x1f) as u8) < 32 && (((w >> 11u32) & 0x1f) as u8) < 32 && (((w >> 6u32) & 0x1f) as u8)
        < 32 && ((w & 0x3f) as u8) < 64 && w & 0x3ff_ffff < 0x400_0000) by (bit_vector);
}

/// Registers after `hi` and `lo` are loaded.
pub open spec fn with_hi_lo(r: Registers, hi: u32, lo: u32) -> Registers {
    Registers { hi, lo, ..r }
}

/// Effect of an R-type instruction (opcode 0), selected by `funct`.
pub open spec fn special_effect(r: Registers, i: Instruction) -> (Registers, Flow) {
    let s = r.get(i.rs as int);
    let t = r.get(i.rt as int);
    let d = i.rd as int;
    let n = i.shamt;
    let f = i.funct;
    let v = s & 0x1f;
    if f == 0b000000 {
        // sll
        (r.set(d, t << n), Flow::Continue)
    } else if f == 0b000010 {
        // srl, or rotate right when rs is not zero
        (r.set(d, if i.rs == 0 { t >> n } else { rotr(t, n as u32) }), Flow::Continue)
    } else if f == 0b000011 {
        // sra
        (r.set(d, ((t as i32) >> n) as u32), Flow::Continue)
    } else if f == 0b000100 {
        // sllv
        (r.set(d, t << v), Flow::Continue)
    } else if f == 0b000110 {
        // srlv, or rotate right when shamt is 1
        (r.set(d, if n == 1 { rotr(t, v) } else { t >> v }), Flow::Continue)
    } else if f == 0b000111 {
        // srav
        (r.set(d, ((t as i32) >> v) as u32), Flow::Continue)
    } else if f == 0b001000 {
        // jr
        (r, Flow::Jump(s))
    } else if f == 0b001001 {
        // jalr
        (r.set(d, wrap(r.pc + 4)), Flow::Jump(s))
    } else if f == 0b001010 {
        // movz
        (if t == 0 { r.set(d, s) } else { r }, Flow::Continue)
    } else if f == 0b001011 {
        // movn
        (if t != 0 { r.set(d, s) } else { r }, Flow::Continue)
    } else if f == 0b001100 {
        // syscall: the one service offered is exit
        (r, Flow::Halt(Exception::NoException))
    } else if f == 0b001101 {
        // break
        (r, Flow::Halt(Exception::Breakpoint))
    } else if f == 0b010000 {
        // mfhi
        (r.set(d, r.hi), Flow::Continue)
    } else if f == 0b010001 {
        // mthi
        (Registers { hi: s, ..r }, Flow::Continue)
    } else if f == 0b010010 {
        // mflo
        (r.set(d, r.lo), Flow::Continue)
    } else if f == 0b010011 {
        // mtlo
        (Registers { lo: s, ..r }, Flow::Continue)
    } else if f == 0b011000 {
        // mult
        let p = split64(signed(s) * signed(t));
        (with_hi_lo(r, p.0, p.1), Flow::Continue)
    } else if f == 0b011001 {
        // multu
        let p = split64(s * t);
        (with_hi_lo(r, p.0, p.1), Flow::Continue)
    } else if f == 0b011010 {
        // div; a zero divisor clears both halves
        if t == 0 {
            (with_hi_lo(r, 0, 0), Flow::Continue)
        } else {
            (
                with_hi_lo(
                    r,
                    wrap(remainder(signed(s), signed(t))),
                    wrap(quotient(signed(s), signed(t))),
                ),
                Flow::Continue,
            )
        }
    } else if f == 0b011011 {
        // divu; a zero divisor clears both halves
        if t == 0 {
            (with_hi_lo(r, 0, 0), Flow::Continue)
        } else {
            (with_hi_lo(r, s % t, s / t), Flow::Continue)
        }
    } else if f == 0b100000 {
        // add: the wrapped sum is kept even on overflow
        (
            r.set(d, wrap(s + t)),
            if fits_i32(signed(s) + signed(t)) {
                Flow::Continue
            } else {
                Flow::Halt(Exception::IntegerOverflow)
            },
        )
    } else if f == 0b100001 {
        // addu
        (r.set(d, wrap(s + t)), Flow::Continue)
    } else if f == 0b100010 {
        // sub: the wrapped difference is kept even on overflow
        (
            r.set(d, wrap(s - t)),
            if fits_i32(signed(s) - signed(t)) {
                Flow::Continue
            } else {
                Flow::Halt(Exception::IntegerOverflow)
            },
        )
    } else if f == 0b100011 {
        // subu
        (r.set(d, wrap(s - t)), Flow::Continue)
    } else if f == 0b100100 {
        (r.set(d, s & t), Flow::Continue)
    } else if f == 0b100101 {
        (r.set(d, s | t), Flow::Continue)
    } else if f == 0b100110 {
        (r.set(d, s ^ t), Flow::Continue)
    } else if f == 0b100111 {
        (r.set(d, !(s | t)), Flow::Continue)
    } else if f == 0b101010 {
        // slt
        (r.set(d, if signed(s) < signed(t) { 1 } else { 0 }), Flow::Continue)
    } else if f == 0b101011 {
        // sltu
        (r.set(d, if s < t { 1 } else { 0 }), Flow::Continue)
    } else if f == 0b110000 {
        // tge
        (r, if signed(s) >= signed(t) { Flow::Halt(Exception::Trap) } else { Flow::Continue })
    } else if f == 0b110001 {
        // tgeu
        (r, if s >= t { Flow::Halt(Exception::Trap) } else { Flow::Continue })
    } else if f == 0b110010 {
        // tlt
        (r, if signed(s) < signed(t) { Flow::Halt(Exception::Trap) } else { Flow::Continue })
    } else if f == 0b110011 {
        // tltu
        (r, if s < t { Flow::Halt(Exception::Trap) } else { Flow::Continue })
    } else if f == 0b110100 {
        // teq
        (r, if s == t { Flow::Halt(Exception::Trap) } else { Flow::Continue })
    } else if f == 0b110110 {
        // tne
        (r, if s != t { Flow::Halt(Exception::Trap) } else { Flow::Continue })
    } else {
        (r, Flow::Continue)
    }
}

/// Target of a taken branch at `pc`: the next instruction plus `imm` words.
pub open spec fn branch_target(pc: u32, imm: u16) -> u32 {
    wrap(pc + 4 + sign_extend(imm) * 4)
}

/// Effect of a J-type or I-type instruction that does not touch memory.
pub open spec fn immediate_effect(r: Registers, i: Instruction) -> (Registers, Flow) {
    let s = r.get(i.rs as int);
    let t = r.get(i.rt as int);
    let d = i.rt as int;
    let op = i.opcode;
    if op == 0b000010 {
        // j: stays in the current 256 MB region
        (r, Flow::Jump((r.pc & 0xf000_0000) | (i.address << 2u32)))
    } else if op == 0b000100 || op == 0b010100 {
        // beq, beql
        (r, if s == t { Flow::Jump(branch_target(r.pc, i.imm)) } else { Flow::Continue })
    } else if op == 0b000101 {
        // bne
        (r, if s != t { Flow::Jump(branch_target(r.pc, i.imm)) } else { Flow::Continue })
    } else if op == 0b001000 {
        // addi: the wrapped sum is kept even on overflow
        (
            r.set(d, wrap(s + sign_extend(i.imm))),
            if fits_i32(signed(s) + sign_extend(i.imm)) {
                Flow::Continue
            } else {
                Flow::Halt(Exception::IntegerOverflow)
            },
        )
    } else if op == 0b001001 {
        // addiu, never trapping
        (r.set(d, wrap(s + sign_extend(i.imm))), Flow::Continue)
    } else if op == 0b001100 {
        // andi
        (r.set(d, s & (i.imm as u32)), Flow::Continue)
    } else if op == 0b001111 {
        // lui
        (r.set_high(d, i.imm), Flow::Continue)
    } else {
        (r, Flow::Continue)
    }
}

/// Address used by `lw` and `sw`: base register plus signed offset.
pub open spec fn effective_address(r: Registers, i: Instruction) -> u32 {
    wrap(r.get(i.rs as int) + sign_extend(i.imm))
}

/// Effect of any known instruction on registers and memory.
pub open spec fn execute(r: Registers, m: MemoryView, i: Instruction) -> (
    Registers,
    MemoryView,
    Flow,
) {
    if i.opcode == 0b000000 {
        let e = special_effect(r, i);
        (e.0, m, e.1)
    } else if i.opcode == 0b100011 {
        // lw
        (r.set(i.rt as int, m.word(effective_address(r, i))), m, Flow::Continue)
    } else if i.opcode == 0b101011 {
        // sw
        (r, m.with_word(effective_address(r, i), r.get(i.rt as int)), Flow::Continue)
    } else {
        let e = immediate_effect(r, i);
        (e.0, m, e.1)
    }
}

/// `i` can run on these registers and this memory without a fatal error:
/// its opcode and function are known, a system call asks for exit, and a
/// load or store reaches mapped memory.
pub open spec fn can_execute(r: Registers, m: MemoryView, i: Instruction) -> bool {
    &&& kind_of(i.opcode) is Some
    &&& i.opcode == 0b000000 ==> known_funct(i.funct)
    &&& i.opcode == 0b000000 && i.funct == 0b001100 ==> r.v0 == 10
    &&& i.opcode == 0b100011 ==> m.word_readable(effective_address(r, i))
    &&& i.opcode == 0b101011 ==> m.mapped(effective_address(r, i)) && effective_address(r, i)
        <= u32::MAX - 3
}

} // verus!
