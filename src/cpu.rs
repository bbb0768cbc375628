use vstd::prelude::*;

use vstd::arithmetic::div_mod::{lemma_mod_add_multiples_vanish, lemma_small_mod};

use crate::isa::{
    abs, branch_target, can_execute, decode, effective_address, execute, fits_i32, immediate_effect,
    kind_of, known_funct, lemma_decode_wf, rotr, sign_extend, signed, special_effect, split64, wrap,
    Exception, Flow, Instruction, InstructionKind,
};
use crate::memory::{lemma_word_round_trip, Memory, MemoryView};
use crate::registers::{lemma_write_then_read, Registers};

verus! {

impl Default for Exception {
    fn default() -> (e: Exception)
        ensures
            e == Exception::NoException,
    {
        Exception::NoException
    }
}

impl Exception {
    /// A short description for display.
    pub fn describe(&self) -> (r: &'static str)
        ensures
            *self == Exception::NoException ==> r == "No exception",
            *self == Exception::Breakpoint ==> r == "Breakpoint",
            *self == Exception::IntegerOverflow ==> r == "Integer overflow",
            *self == Exception::Trap ==> r == "Trap",
    {
        match self {
            Exception::NoException => "No exception",
            Exception::Breakpoint => "Breakpoint",
            Exception::IntegerOverflow => "Integer overflow",
            Exception::Trap => "Trap",
        }
    }
}

/// `base + delta` wrapped to 32 bits.
fn wrapping_offset(base: u32, delta: i64) -> (r: u32)
    requires
        -0x1_0000_0000 <= delta <= 0x1_0000_0000,
    ensures
        r == wrap(base + delta),
{
    let t = (base as i64 + delta + 0x1_0000_0000) as u64;
    proof {
        lemma_mod_add_multiples_vanish(base + delta, 0x1_0000_0000);
    }
    (t % 0x1_0000_0000) as u32
}

/// `x` read as a signed 32-bit number.
fn to_signed(x: u32) -> (r: i64)
    ensures
        r == signed(x),
{
    if x < 0x8000_0000 {
        x as i64
    } else {
        x as i64 - 0x1_0000_0000
    }
}

/// A 16-bit immediate read as a signed number.
fn sign_extended(h: u16) -> (r: i64)
    ensures
        r == sign_extend(h),
{
    if h < 0x8000 {
        h as i64
    } else {
        h as i64 - 0x10000
    }
}

/// Magnitude of `x` read as a signed 32-bit number.
fn magnitude(x: u32) -> (r: u32)
    ensures
        r == abs(signed(x)),
{
    if x < 0x8000_0000 {
        x
    } else {
        (0x1_0000_0000u64 - x as u64) as u32
    }
}

fn rotate_right(x: u32, n: u32) -> (r: u32)
    requires
        n < 32,
    ensures
        r == rotr(x, n),
{
    if n == 0 {
        x
    } else {
        (x >> n) | (x << (32 - n))
    }
}

/// High and low words of the 64-bit two's-complement form of `p`.
fn split(p: i128) -> (r: (u32, u32))
    requires
        -0x8000_0000_0000_0000 <= p < 0x1_0000_0000_0000_0000,
    ensures
        r == split64(p as int),
{
    let u: u128 = if p >= 0 {
        p as u128
    } else {
        (p + 0x1_0000_0000_0000_0000) as u128
    };
    proof {
        lemma_mod_add_multiples_vanish(p as int, 0x1_0000_0000_0000_0000);
        lemma_small_mod(u as nat, 0x1_0000_0000_0000_0000);
    }
    ((u / 0x1_0000_0000) as u32, (u % 0x1_0000_0000) as u32)
}

/// The low five bits of a word, a shift amount.
proof fn lemma_low5(x: u32)
    ensures
        x & 0x1f < 32,
{
    assert(x & 0x1f < 32) by (bit_vector);
}

/// Whether the opcode selects an instruction this CPU knows.
fn is_known_opcode(opcode: u8) -> (r: bool)
    ensures
        r == kind_of(opcode) is Some,
{
    match opcode {
        0b000000 | 0b000010 | 0b000100 | 0b000101 | 0b001000 | 0b001001 | 0b001100 | 0b001111
        | 0b010100 | 0b100011 | 0b101011 => true,
        _ => false,
    }
}

/// Whether the function field selects an R-type instruction this CPU knows.
fn is_known_funct(funct: u8) -> (r: bool)
    ensures
        r == known_funct(funct),
{
    match funct {
        0b000000 | 0b000010 | 0b000011 | 0b000100 | 0b000110 | 0b000111 | 0b001000 | 0b001001
        | 0b001010 | 0b001011 | 0b001100 | 0b001101 | 0b010000 | 0b010001 | 0b010010 | 0b010011
        | 0b011000 | 0b011001 | 0b011010 | 0b011011 | 0b100000 | 0b100001 | 0b100010 | 0b100011
        | 0b100100 | 0b100101 | 0b100110 | 0b100111 | 0b101010 | 0b101011 | 0b110000 | 0b110001
        | 0b110010 | 0b110011 | 0b110100 | 0b110110 => true,
        _ => false,
    }
}

/// The processor: register file plus run status.
#[derive(Debug, Clone, Copy)]
pub struct CPU {
    pub registers: Registers,
    pub halted: bool,
    pub exception: Exception,
}

impl Default for CPU {
    /// A running CPU with the conventional start registers and no exception.
    fn default() -> (c: CPU)
        ensures
            c.registers == Registers::initial(),
            !c.halted,
            c.exception == Exception::NoException,
    {
        CPU { registers: Registers::default(), halted: false, exception: Exception::NoException }
    }
}

impl CPU {
    /// `self` is `pre` after an R-type handler ran `i` and returned `flow`.
    pub open spec fn did_special(self, pre: CPU, i: Instruction, flow: Flow) -> bool {
        &&& (self.registers, flow) == special_effect(pre.registers, i)
        &&& self.halted == pre.halted
        &&& self.exception == pre.exception
    }

    /// `self` is `pre` after a J-type or I-type handler ran `i` and returned `flow`.
    pub open spec fn did_immediate(self, pre: CPU, i: Instruction, flow: Flow) -> bool {
        &&& (self.registers, flow) == immediate_effect(pre.registers, i)
        &&& self.halted == pre.halted
        &&& self.exception == pre.exception
    }

    /// The state once an instruction left registers `r` and asked for `flow`:
    /// the program counter moves to the jump target or on by 4; a halt stops
    /// the CPU and records its exception unless one is already recorded.
    pub open spec fn advance(self, r: Registers, flow: Flow) -> CPU {
        let pc = match flow {
            Flow::Jump(target) => target,
            _ => wrap(r.pc + 4),
        };
        CPU {
            registers: Registers { pc, ..r },
            halted: self.halted || flow is Halt,
            exception: match flow {
                Flow::Halt(e) => if self.exception == Exception::NoException {
                    e
                } else {
                    self.exception
                },
                _ => self.exception,
            },
        }
    }

    /// The instruction at the program counter.
    pub open spec fn fetched(self, m: MemoryView) -> Instruction {
        decode(m.word(self.registers.pc))
    }

    /// One step from this state runs without a fatal error.
    pub open spec fn step_defined(self, m: MemoryView) -> bool {
        &&& m.word_readable(self.registers.pc)
        &&& can_execute(self.registers, m, self.fetched(m))
    }

    /// The CPU and memory after `n` steps.
    pub open spec fn run_for(self, m: MemoryView, n: nat) -> (CPU, MemoryView)
        decreases n,
    {
        if n == 0 {
            (self, m)
        } else {
            let s = self.run_for(m, (n - 1) as nat);
            s.0.next(s.1)
        }
    }

    /// The CPU and memory after one step.
    #[verifier::opaque]
    pub open spec fn next(self, m: MemoryView) -> (CPU, MemoryView) {
        let e = execute(self.registers, m, self.fetched(m));
        (self.advance(e.0, e.2), e.1)
    }

    /// Reads and decodes the instruction word at the program counter.
    pub fn fetch_instruction(&self, memory: &Memory) -> (r: Instruction)
        requires
            memory@.word_readable(self.registers.pc),
            kind_of(decode(memory@.word(self.registers.pc)).opcode) is Some,
        ensures
            r == self.fetched(memory@),
            r.wf(),
    {
        let instruction = memory.read_word(self.registers.pc);
        proof {
            lemma_decode_wf(instruction);
        }
        let opcode = (instruction >> 26) as u8;
        let rs = ((instruction >> 21) & 0x1f) as u8;
        let rt = ((instruction >> 16) & 0x1f) as u8;
        let rd = ((instruction >> 11) & 0x1f) as u8;
        let shamt = ((instruction >> 6) & 0x1f) as u8;
        let funct = (instruction & 0x3f) as u8;
        let imm = instruction as u16;
        let address = instruction & 0x3ff_ffff;
        let kind = match opcode {
            0b000000 => InstructionKind::RType,
            0b000010 => InstructionKind::JType,
            _ => InstructionKind::IType,
        };
        Instruction { opcode, rs, rt, rd, shamt, funct, imm, address, kind }
    }

    /// Stops the CPU; the first exception raised is the one kept.
    fn trigger_exception(&mut self, exception: Exception)
        ensures
            final(self).halted,
            final(self).registers == old(self).registers,
            final(self).exception == (if old(self).exception == Exception::NoException {
                exception
            } else {
                old(self).exception
            }),
    {
        if self.exception == Exception::NoException {
            self.exception = exception;
        }
        self.halted = true;
    }

    /// Runs an R-type instruction, selected by its `funct` field.
    fn special(&mut self, instruction: &Instruction) -> (flow: Flow)
        requires
            instruction.wf(),
            known_funct(instruction.funct),
            instruction.funct == 0b001100 ==> old(self).registers.v0 == 10,
        ensures
            final(self).did_special(*old(self), *instruction, flow),
    {
        match instruction.funct {
            0b000000 => self.sll(instruction),
            0b000010 => self.srl(instruction),
            0b000011 => self.sra(instruction),
            0b000100 => self.sllv(instruction),
            0b000110 => self.srlv(instruction),
            0b000111 => self.srav(instruction),
            0b001000 => self.jr(instruction),
            0b001001 => self.jalr(instruction),
            0b001010 => self.movz(instruction),
            0b001011 => self.movn(instruction),
            0b001100 => self.syscall(instruction),
            0b001101 => self.breakpoint(instruction),
            0b010000 => self.mfhi(instruction),
            0b010001 => self.mthi(instruction),
            0b010010 => self.mflo(instruction),
            0b010011 => self.mtlo(instruction),
            0b011000 => self.mult(instruction),
            0b011001 => self.multu(instruction),
            0b011010 => self.div(instruction),
            0b011011 => self.divu(instruction),
            0b100000 => self.add(instruction),
            0b100001 => self.addu(instruction),
            0b100010 => self.sub(instruction),
            0b100011 => self.subu(instruction),
            0b100100 => self.and(instruction),
            0b100101 => self.or(instruction),
            0b100110 => self.xor(instruction),
            0b100111 => self.nor(instruction),
            0b101010 => self.slt(instruction),
            0b101011 => self.sltu(instruction),
            0b110000 => self.tge(instruction),
            0b110001 => self.tgeu(instruction),
            0b110010 => self.tlt(instruction),
            0b110011 => self.tltu(instruction),
            0b110100 => self.teq(instruction),
            _ => self.tne(instruction),
        }
    }

    /// System call; the one service offered is exit (code 10 in `v0`).
    fn syscall(&mut self, instruction: &Instruction) -> (flow: Flow)
        requires
            instruction.wf(),
            instruction.funct == 0b001100,
        ensures
            final(self).did_special(*old(self), *instruction, flow),
    {
        Flow::Halt(Exception::NoException)
    }

    /// Breakpoint: halts with `Exception::Breakpoint`.
    fn breakpoint(&mut self, instruction: &Instruction) -> (flow: Flow)
        requires
            instruction.wf(),
            instruction.funct == 0b001101,
        ensures
            final(self).did_special(*old(self), *instruction, flow),
    {
        Flow::Halt(Exception::Breakpoint)
    }

    /// Shift left logical.
    fn sll(&mut self, instruction: &Instruction) -> (flow: Flow)
        requires
            instruction.wf(),
            instruction.funct == 0b000000,
        ensures
            final(self).did_special(*old(self), *instruction, flow),
    {
        let rt = self.registers.read_register(instruction.rt);
        self.registers.write_register(instruction.rd, rt << instruction.shamt);
        Flow::Continue
    }

    /// Shift right logical; with a nonzero `rs` field, rotate right.
    fn srl(&mut self, instruction: &Instruction) -> (flow: Flow)
        requires
            instruction.wf(),
            instruction.funct == 0b000010,
        ensures
            final(self).did_special(*old(self), *instruction, flow),
    {
        let rt = self.registers.read_register(instruction.rt);
        let result = if instruction.rs == 0 {
            rt >> instruction.shamt
        } else {
            rotate_right(rt, instruction.shamt as u32)
        };
        self.registers.write_register(instruction.rd, result);
        Flow::Continue
    }

    /// Shift right arithmetic.
    fn sra(&mut self, instruction: &Instruction) -> (flow: Flow)
        requires
            instruction.wf(),
            instruction.funct == 0b000011,
        ensures
            final(self).did_special(*old(self), *instruction, flow),
    {
        let rt = self.registers.read_register(instruction.rt);
        self.registers.write_register(instruction.rd, ((rt as i32) >> instruction.shamt) as u32);
        Flow::Continue
    }

    /// Shift left logical by the low five bits of `rs`.
    fn sllv(&mut self, instruction: &Instruction) -> (flow: Flow)
        requires
            instruction.wf(),
            instruction.funct == 0b000100,
        ensures
            final(self).did_special(*old(self), *instruction, flow),
    {
        let rt = self.registers.read_register(instruction.rt);
        let rs = self.registers.read_register(instruction.rs);
        let shamt = rs & 0x1f;
        proof {
            lemma_low5(rs);
        }
        self.registers.write_register(instruction.rd, rt << shamt);
        Flow::Continue
    }

    /// Shift right logical by the low five bits of `rs`; with a `shamt` field of 1, rotate right.
    fn srlv(&mut self, instruction: &Instruction) -> (flow: Flow)
        requires
            instruction.wf(),
            instruction.funct == 0b000110,
        ensures
            final(self).did_special(*old(self), *instruction, flow),
    {
        let rt = self.registers.read_register(instruction.rt);
        let rs = self.registers.read_register(instruction.rs);
        let shamt = rs & 0x1f;
        proof {
            lemma_low5(rs);
        }
        let result = if instruction.shamt == 1 {
            rotate_right(rt, shamt)
        } else {
            rt >> shamt
        };
        self.registers.write_register(instruction.rd, result);
        Flow::Continue
    }

    /// Shift right arithmetic by the low five bits of `rs`.
    fn srav(&mut self, instruction: &Instruction) -> (flow: Flow)
        requires
            instruction.wf(),
            instruction.funct == 0b000111,
        ensures
            final(self).did_special(*old(self), *instruction, flow),
    {
        let rt = self.registers.read_register(instruction.rt);
        let rs = self.registers.read_register(instruction.rs);
        let shamt = rs & 0x1f;
        proof {
            lemma_low5(rs);
        }
        self.registers.write_register(instruction.rd, ((rt as i32) >> shamt) as u32);
        Flow::Continue
    }

    /// Jump to the address in `rs`.
    fn jr(&mut self, instruction: &Instruction) -> (flow: Flow)
        requires
            instruction.wf(),
            instruction.funct == 0b001000,
        ensures
            final(self).did_special(*old(self), *instruction, flow),
    {
        let rs = self.registers.read_register(instruction.rs);
        Flow::Jump(rs)
    }

    /// Jump to the address in `rs`, linking the next address into `rd`.
    fn jalr(&mut self, instruction: &Instruction) -> (flow: Flow)
        requires
            instruction.wf(),
            instruction.funct == 0b001001,
        ensures
            final(self).did_special(*old(self), *instruction, flow),
    {
        let rs = self.registers.read_register(instruction.rs);
        let link = wrapping_offset(self.registers.pc, 4);
        self.registers.write_register(instruction.rd, link);
        Flow::Jump(rs)
    }

    /// Copy `rs` into `rd` when `rt` is zero.
    fn movz(&mut self, instruction: &Instruction) -> (flow: Flow)
        requires
            instruction.wf(),
            instruction.funct == 0b001010,
        ensures
            final(self).did_special(*old(self), *instruction, flow),
    {
        let rs = self.registers.read_register(instruction.rs);
        let rt = self.registers.read_register(instruction.rt);
        if rt == 0 {
            self.registers.write_register(instruction.rd, rs);
        }
        Flow::Continue
    }

    /// Copy `rs` into `rd` when `rt` is not zero.
    fn movn(&mut self, instruction: &Instruction) -> (flow: Flow)
        requires
            instruction.wf(),
            instruction.funct == 0b001011,
        ensures
            final(self).did_special(*old(self), *instruction, flow),
    {
        let rs = self.registers.read_register(instruction.rs);
        let rt = self.registers.read_register(instruction.rt);
        if rt != 0 {
            self.registers.write_register(instruction.rd, rs);
        }
        Flow::Continue
    }

    /// Move from `hi`.
    fn mfhi(&mut self, instruction: &Instruction) -> (flow: Flow)
        requires
            instruction.wf(),
            instruction.funct == 0b010000,
        ensures
            final(self).did_special(*old(self), *instruction, flow),
    {
        self.registers.write_register(instruction.rd, self.registers.hi);
        Flow::Continue
    }

    /// Move to `hi`.
    fn mthi(&mut self, instruction: &Instruction) -> (flow: Flow)
        requires
            instruction.wf(),
            instruction.funct == 0b010001,
        ensures
            final(self).did_special(*old(self), *instruction, flow),
    {
        self.registers.hi = self.registers.read_register(instruction.rs);
        Flow::Continue
    }

    /// Move from `lo`.
    fn mflo(&mut self, instruction: &Instruction) -> (flow: Flow)
        requires
            instruction.wf(),
            instruction.funct == 0b010010,
        ensures
            final(self).did_special(*old(self), *instruction, flow),
    {
        self.registers.write_register(instruction.rd, self.registers.lo);
        Flow::Continue
    }

    /// Move to `lo`.
    fn mtlo(&mut self, instruction: &Instruction) -> (flow: Flow)
        requires
            instruction.wf(),
            instruction.funct == 0b010011,
        ensures
            final(self).did_special(*old(self), *instruction, flow),
    {
        self.registers.lo = self.registers.read_register(instruction.rs);
        Flow::Continue
    }

    /// Signed 64-bit product of `rs` and `rt` into `hi` and `lo`.
    fn mult(&mut self, instruction: &Instruction) -> (flow: Flow)
        requires
            instruction.wf(),
            instruction.funct == 0b011000,
        ensures
            final(self).did_special(*old(self), *instruction, flow),
    {
        let a = to_signed(self.registers.read_register(instruction.rs));
        let b = to_signed(self.registers.read_register(instruction.rt));
        proof {
            assert(-0x8000_0000 <= a <= 0x8000_0000 && -0x8000_0000 <= b <= 0x8000_0000 ==> -0x4000_0000_0000_0000
                <= a * b <= 0x4000_0000_0000_0000) by (nonlinear_arith);
        }
        let (hi, lo) = split(a as i128 * b as i128);
        self.registers.hi = hi;
        self.registers.lo = lo;
        Flow::Continue
    }

    /// Unsigned 64-bit product of `rs` and `rt` into `hi` and `lo`.
    fn multu(&mut self, instruction: &Instruction) -> (flow: Flow)
        requires
            instruction.wf(),
            instruction.funct == 0b011001,
        ensures
            final(self).did_special(*old(self), *instruction, flow),
    {
        let rs = self.registers.read_register(instruction.rs);
        let rt = self.registers.read_register(instruction.rt);
        proof {
            assert(rs <= 0xffff_ffff && rt <= 0xffff_ffff ==> rs * rt <= 0xffff_ffff * 0xffff_ffff)
                by (nonlinear_arith);
        }
        let (hi, lo) = split(rs as i128 * rt as i128);
        self.registers.hi = hi;
        self.registers.lo = lo;
        Flow::Continue
    }

    /// Signed division: quotient into `lo`, remainder into `hi`, both rounded
    /// toward zero; a zero divisor clears both.
    fn div(&mut self, instruction: &Instruction) -> (flow: Flow)
        requires
            instruction.wf(),
            instruction.funct == 0b011010,
        ensures
            final(self).did_special(*old(self), *instruction, flow),
    {
        let rs = self.registers.read_register(instruction.rs);
        let rt = self.registers.read_register(instruction.rt);
        if rt == 0 {
            self.registers.hi = 0;
            self.registers.lo = 0;
        } else {
            let a = magnitude(rs);
            let b = magnitude(rt);
            let q = a / b;
            let m = a % b;
            proof {
                lemma_small_mod(q as nat, 0x1_0000_0000);
                lemma_small_mod(m as nat, 0x1_0000_0000);
            }
            self.registers.lo = if (rs < 0x8000_0000) == (rt < 0x8000_0000) {
                q
            } else {
                wrapping_offset(0, -(q as i64))
            };
            self.registers.hi = if rs < 0x8000_0000 {
                m
            } else {
                wrapping_offset(0, -(m as i64))
            };
        }
        Flow::Continue
    }

    /// Unsigned division: quotient into `lo`, remainder into `hi`; a zero
    /// divisor clears both.
    fn divu(&mut self, instruction: &Instruction) -> (flow: Flow)
        requires
            instruction.wf(),
            instruction.funct == 0b011011,
        ensures
            final(self).did_special(*old(self), *instruction, flow),
    {
        let rs = self.registers.read_register(instruction.rs);
        let rt = self.registers.read_register(instruction.rt);
        if rt == 0 {
            self.registers.hi = 0;
            self.registers.lo = 0;
        } else {
            self.registers.hi = rs % rt;
            self.registers.lo = rs / rt;
        }
        Flow::Continue
    }

    /// Signed add; on overflow the wrapped sum is still written and the CPU halts.
    fn add(&mut self, instruction: &Instruction) -> (flow: Flow)
        requires
            instruction.wf(),
            instruction.funct == 0b100000,
        ensures
            final(self).did_special(*old(self), *instruction, flow),
    {
        let rs = self.registers.read_register(instruction.rs);
        let rt = self.registers.read_register(instruction.rt);
        let sum = to_signed(rs) + to_signed(rt);
        self.registers.write_register(instruction.rd, wrapping_offset(rs, rt as i64));
        if -0x8000_0000 <= sum && sum < 0x8000_0000 {
            Flow::Continue
        } else {
            Flow::Halt(Exception::IntegerOverflow)
        }
    }

    /// Add with wrap-around, never trapping.
    fn addu(&mut self, instruction: &Instruction) -> (flow: Flow)
        requires
            instruction.wf(),
            instruction.funct == 0b100001,
        ensures
            final(self).did_special(*old(self), *instruction, flow),
    {
        let rs = self.registers.read_register(instruction.rs);
        let rt = self.registers.read_register(instruction.rt);
        self.registers.write_register(instruction.rd, wrapping_offset(rs, rt as i64));
        Flow::Continue
    }

    /// Signed subtract; on overflow the wrapped difference is still written and the CPU halts.
    fn sub(&mut self, instruction: &Instruction) -> (flow: Flow)
        requires
            instruction.wf(),
            instruction.funct == 0b100010,
        ensures
            final(self).did_special(*old(self), *instruction, flow),
    {
        let rs = self.registers.read_register(instruction.rs);
        let rt = self.registers.read_register(instruction.rt);
        let difference = to_signed(rs) - to_signed(rt);
        self.registers.write_register(instruction.rd, wrapping_offset(rs, -(rt as i64)));
        if -0x8000_0000 <= difference && difference < 0x8000_0000 {
            Flow::Continue
        } else {
            Flow::Halt(Exception::IntegerOverflow)
        }
    }

    /// Subtract with wrap-around, never trapping.
    fn subu(&mut self, instruction: &Instruction) -> (flow: Flow)
        requires
            instruction.wf(),
            instruction.funct == 0b100011,
        ensures
            final(self).did_special(*old(self), *instruction, flow),
    {
        let rs = self.registers.read_register(instruction.rs);
        let rt = self.registers.read_register(instruction.rt);
        self.registers.write_register(instruction.rd, wrapping_offset(rs, -(rt as i64)));
        Flow::Continue
    }

    /// Bitwise and.
    fn and(&mut self, instruction: &Instruction) -> (flow: Flow)
        requires
            instruction.wf(),
            instruction.funct == 0b100100,
        ensures
            final(self).did_special(*old(self), *instruction, flow),
    {
        let rs = self.registers.read_register(instruction.rs);
        let rt = self.registers.read_register(instruction.rt);
        self.registers.write_register(instruction.rd, rs & rt);
        Flow::Continue
    }

    /// Bitwise or.
    fn or(&mut self, instruction: &Instruction) -> (flow: Flow)
        requires
            instruction.wf(),
            instruction.funct == 0b100101,
        ensures
            final(self).did_special(*old(self), *instruction, flow),
    {
        let rs = self.registers.read_register(instruction.rs);
        let rt = self.registers.read_register(instruction.rt);
        self.registers.write_register(instruction.rd, rs | rt);
        Flow::Continue
    }

    /// Bitwise exclusive or.
    fn xor(&mut self, instruction: &Instruction) -> (flow: Flow)
        requires
            instruction.wf(),
            instruction.funct == 0b100110,
        ensures
            final(self).did_special(*old(self), *instruction, flow),
    {
        let rs = self.registers.read_register(instruction.rs);
        let rt = self.registers.read_register(instruction.rt);
        self.registers.write_register(instruction.rd, rs ^ rt);
        Flow::Continue
    }

    /// Bitwise nor.
    fn nor(&mut self, instruction: &Instruction) -> (flow: Flow)
        requires
            instruction.wf(),
            instruction.funct == 0b100111,
        ensures
            final(self).did_special(*old(self), *instruction, flow),
    {
        let rs = self.registers.read_register(instruction.rs);
        let rt = self.registers.read_register(instruction.rt);
        self.registers.write_register(instruction.rd, !(rs | rt));
        Flow::Continue
    }

    /// Set on signed less than.
    fn slt(&mut self, instruction: &Instruction) -> (flow: Flow)
        requires
            instruction.wf(),
            instruction.funct == 0b101010,
        ensures
            final(self).did_special(*old(self), *instruction, flow),
    {
        let rs = self.registers.read_register(instruction.rs);
        let rt = self.registers.read_register(instruction.rt);
        self.registers.write_register(instruction.rd, if to_signed(rs) < to_signed(rt) { 1 } else { 0 });
        Flow::Continue
    }

    /// Set on unsigned less than.
    fn sltu(&mut self, instruction: &Instruction) -> (flow: Flow)
        requires
            instruction.wf(),
            instruction.funct == 0b101011,
        ensures
            final(self).did_special(*old(self), *instruction, flow),
    {
        let rs = self.registers.read_register(instruction.rs);
        let rt = self.registers.read_register(instruction.rt);
        self.registers.write_register(instruction.rd, if rs < rt { 1 } else { 0 });
        Flow::Continue
    }

    /// Trap if greater or equal, signed.
    fn tge(&mut self, instruction: &Instruction) -> (flow: Flow)
        requires
            instruction.wf(),
            instruction.funct == 0b110000,
        ensures
            final(self).did_special(*old(self), *instruction, flow),
    {
        let rs = self.registers.read_register(instruction.rs);
        let rt = self.registers.read_register(instruction.rt);
        if to_signed(rs) >= to_signed(rt) {
            Flow::Halt(Exception::Trap)
        } else {
            Flow::Continue
        }
    }

    /// Trap if greater or equal, unsigned.
    fn tgeu(&mut self, instruction: &Instruction) -> (flow: Flow)
        requires
            instruction.wf(),
            instruction.funct == 0b110001,
        ensures
            final(self).did_special(*old(self), *instruction, flow),
    {
        let rs = self.registers.read_register(instruction.rs);
        let rt = self.registers.read_register(instruction.rt);
        if rs >= rt {
            Flow::Halt(Exception::Trap)
        } else {
            Flow::Continue
        }
    }

    /// Trap if less than, signed.
    fn tlt(&mut self, instruction: &Instruction) -> (flow: Flow)
        requires
            instruction.wf(),
            instruction.funct == 0b110010,
        ensures
            final(self).did_special(*old(self), *instruction, flow),
    {
        let rs = self.registers.read_register(instruction.rs);
        let rt = self.registers.read_register(instruction.rt);
        if to_signed(rs) < to_signed(rt) {
            Flow::Halt(Exception::Trap)
        } else {
            Flow::Continue
        }
    }

    /// Trap if less than, unsigned.
    fn tltu(&mut self, instruction: &Instruction) -> (flow: Flow)
        requires
            instruction.wf(),
            instruction.funct == 0b110011,
        ensures
            final(self).did_special(*old(self), *instruction, flow),
    {
        let rs = self.registers.read_register(instruction.rs);
        let rt = self.registers.read_register(instruction.rt);
        if rs < rt {
            Flow::Halt(Exception::Trap)
        } else {
            Flow::Continue
        }
    }

    /// Trap if equal.
    fn teq(&mut self, instruction: &Instruction) -> (flow: Flow)
        requires
            instruction.wf(),
            instruction.funct == 0b110100,
        ensures
            final(self).did_special(*old(self), *instruction, flow),
    {
        let rs = self.registers.read_register(instruction.rs);
        let rt = self.registers.read_register(instruction.rt);
        if rs == rt {
            Flow::Halt(Exception::Trap)
        } else {
            Flow::Continue
        }
    }

    /// Trap if not equal.
    fn tne(&mut self, instruction: &Instruction) -> (flow: Flow)
        requires
            instruction.wf(),
            instruction.funct == 0b110110,
        ensures
            final(self).did_special(*old(self), *instruction, flow),
    {
        let rs = self.registers.read_register(instruction.rs);
        let rt = self.registers.read_register(instruction.rt);
        if rs != rt {
            Flow::Halt(Exception::Trap)
        } else {
            Flow::Continue
        }
    }

    /// Jump within the current 256 MB region.
    fn j(&mut self, instruction: &Instruction) -> (flow: Flow)
        requires
            instruction.wf(),
            instruction.opcode == 0b000010,
        ensures
            final(self).did_immediate(*old(self), *instruction, flow),
    {
        let target = instruction.address << 2;
        Flow::Jump((self.registers.pc & 0xf000_0000) | target)
    }

    /// Where a taken branch goes: the next instruction plus `imm` words.
    fn branch_destination(&self, instruction: &Instruction) -> (r: u32)
        ensures
            r == branch_target(self.registers.pc, instruction.imm),
    {
        wrapping_offset(self.registers.pc, 4 + sign_extended(instruction.imm) * 4)
    }

    /// Branch if equal.
    fn beq(&mut self, instruction: &Instruction) -> (flow: Flow)
        requires
            instruction.wf(),
            instruction.opcode == 0b000100,
        ensures
            final(self).did_immediate(*old(self), *instruction, flow),
    {
        let rs = self.registers.read_register(instruction.rs);
        let rt = self.registers.read_register(instruction.rt);
        if rs == rt {
            Flow::Jump(self.branch_destination(instruction))
        } else {
            Flow::Continue
        }
    }

    /// Branch if not equal.
    fn bne(&mut self, instruction: &Instruction) -> (flow: Flow)
        requires
            instruction.wf(),
            instruction.opcode == 0b000101,
        ensures
            final(self).did_immediate(*old(self), *instruction, flow),
    {
        let rs = self.registers.read_register(instruction.rs);
        let rt = self.registers.read_register(instruction.rt);
        if rs != rt {
            Flow::Jump(self.branch_destination(instruction))
        } else {
            Flow::Continue
        }
    }

    /// Branch if equal, likely; taken and not taken behave as for `beq`.
    fn beql(&mut self, instruction: &Instruction) -> (flow: Flow)
        requires
            instruction.wf(),
            instruction.opcode == 0b010100,
        ensures
            final(self).did_immediate(*old(self), *instruction, flow),
    {
        let rs = self.registers.read_register(instruction.rs);
        let rt = self.registers.read_register(instruction.rt);
        if rs == rt {
            Flow::Jump(self.branch_destination(instruction))
        } else {
            Flow::Continue
        }
    }

    /// Add the sign-extended immediate; on signed overflow the wrapped sum is
    /// still written and the CPU halts.
    fn addi(&mut self, instruction: &Instruction) -> (flow: Flow)
        requires
            instruction.wf(),
            instruction.opcode == 0b001000,
        ensures
            final(self).did_immediate(*old(self), *instruction, flow),
    {
        let rs = self.registers.read_register(instruction.rs);
        let imm = sign_extended(instruction.imm);
        let sum = to_signed(rs) + imm;
        self.registers.write_register(instruction.rt, wrapping_offset(rs, imm));
        if -0x8000_0000 <= sum && sum < 0x8000_0000 {
            Flow::Continue
        } else {
            Flow::Halt(Exception::IntegerOverflow)
        }
    }

    /// Add the sign-extended immediate with wrap-around, never trapping.
    fn addiu(&mut self, instruction: &Instruction) -> (flow: Flow)
        requires
            instruction.wf(),
            instruction.opcode == 0b001001,
        ensures
            final(self).did_immediate(*old(self), *instruction, flow),
    {
        let rs = self.registers.read_register(instruction.rs);
        self.registers.write_register(instruction.rt, wrapping_offset(rs, sign_extended(instruction.imm)));
        Flow::Continue
    }

    /// And with the zero-extended immediate.
    fn andi(&mut self, instruction: &Instruction) -> (flow: Flow)
        requires
            instruction.wf(),
            instruction.opcode == 0b001100,
        ensures
            final(self).did_immediate(*old(self), *instruction, flow),
    {
        let rs = self.registers.read_register(instruction.rs);
        self.registers.write_register(instruction.rt, rs & instruction.imm as u32);
        Flow::Continue
    }

    /// Load the immediate into the upper half of `rt`, keeping the lower half.
    fn lui(&mut self, instruction: &Instruction) -> (flow: Flow)
        requires
            instruction.wf(),
            instruction.opcode == 0b001111,
        ensures
            final(self).did_immediate(*old(self), *instruction, flow),
    {
        self.registers.write_register_high(instruction.rt, instruction.imm);
        Flow::Continue
    }

    /// Base register plus sign-extended offset, wrapped to 32 bits.
    fn address_of(&self, instruction: &Instruction) -> (r: u32)
        requires
            instruction.wf(),
        ensures
            r == effective_address(self.registers, *instruction),
    {
        let base = self.registers.read_register(instruction.rs);
        wrapping_offset(base, sign_extended(instruction.imm))
    }

    /// Load word.
    fn lw(&mut self, instruction: &Instruction, memory: &Memory) -> (flow: Flow)
        requires
            instruction.wf(),
            instruction.opcode == 0b100011,
            memory@.word_readable(effective_address(old(self).registers, *instruction)),
        ensures
            final(self).registers == old(self).registers.set(
                instruction.rt as int,
                memory@.word(effective_address(old(self).registers, *instruction)),
            ),
            final(self).halted == old(self).halted,
            final(self).exception == old(self).exception,
            flow == Flow::Continue,
    {
        let address = self.address_of(instruction);
        let value = memory.read_word(address);
        self.registers.write_register(instruction.rt, value);
        Flow::Continue
    }

    /// Store word.
    fn sw(&mut self, instruction: &Instruction, memory: &mut Memory) -> (flow: Flow)
        requires
            instruction.wf(),
            instruction.opcode == 0b101011,
            old(memory)@.mapped(effective_address(old(self).registers, *instruction)),
            effective_address(old(self).registers, *instruction) <= u32::MAX - 3,
        ensures
            final(memory)@ == old(memory)@.with_word(
                effective_address(old(self).registers, *instruction),
                old(self).registers.get(instruction.rt as int),
            ),
            *final(self) == *old(self),
            flow == Flow::Continue,
    {
        let address = self.address_of(instruction);
        let value = self.registers.read_register(instruction.rt);
        memory.write_word(address, value);
        Flow::Continue
    }

    /// Executes the instruction at the program counter, then moves the
    /// program counter on by 4 unless the instruction jumped, and halts the
    /// CPU when the instruction asks for it. A halted CPU stays as it is.
    pub fn step(&mut self, memory: &mut Memory)
        requires
            !old(self).halted ==> old(self).step_defined(old(memory)@),
        ensures
            old(self).halted ==> *final(self) == *old(self) && final(memory)@ == old(memory)@,
            !old(self).halted ==> (*final(self), final(memory)@) == old(self).next(old(memory)@),
    {
        proof {
            reveal(CPU::next);
        }
        if self.halted {
            return;
        }
        let instruction = self.fetch_instruction(memory);
        let flow = match instruction.opcode {
            0b000000 => self.special(&instruction),
            0b000010 => self.j(&instruction),
            0b000100 => self.beq(&instruction),
            0b000101 => self.bne(&instruction),
            0b001000 => self.addi(&instruction),
            0b001001 => self.addiu(&instruction),
            0b001100 => self.andi(&instruction),
            0b001111 => self.lui(&instruction),
            0b010100 => self.beql(&instruction),
            0b100011 => self.lw(&instruction, memory),
            _ => self.sw(&instruction, memory),
        };
        match flow {
            Flow::Jump(target) => {
                self.registers.pc = target;
            },
            Flow::Continue => {
                self.registers.pc = wrapping_offset(self.registers.pc, 4);
            },
            Flow::Halt(exception) => {
                self.trigger_exception(exception);
                self.registers.pc = wrapping_offset(self.registers.pc, 4);
            },
        }
    }

    /// Whether `step` can run from this state: the word at the program
    /// counter is readable and holds an instruction that runs without a fatal
    /// error.
    pub fn can_step(&self, memory: &Memory) -> (r: bool)
        ensures
            r == self.step_defined(memory@),
    {
        if !memory.is_word_readable(self.registers.pc) {
            return false;
        }
        let opcode = (memory.read_word(self.registers.pc) >> 26) as u8;
        if !is_known_opcode(opcode) {
            return false;
        }
        let instruction = self.fetch_instruction(memory);
        match instruction.opcode {
            0b000000 => is_known_funct(instruction.funct) && (instruction.funct != 0b001100
                || self.registers.v0 == 10),
            0b100011 => memory.is_word_readable(self.address_of(&instruction)),
            0b101011 => {
                let address = self.address_of(&instruction);
                memory.is_mapped(address) && address <= u32::MAX - 3
            },
            _ => true,
        }
    }

    /// Steps until the CPU halts, the next step would be a fatal error, or
    /// `max_steps` steps have run; returns the number of steps run.
    pub fn run(&mut self, memory: &mut Memory, max_steps: u64) -> (steps: u64)
        ensures
            steps <= max_steps,
            (*final(self), final(memory)@) == old(self).run_for(old(memory)@, steps as nat),
            forall|k: nat|
                k < steps ==> {
                    let s = #[trigger] old(self).run_for(old(memory)@, k);
                    !s.0.halted && s.0.step_defined(s.1)
                },
            final(self).halted || steps == max_steps || !final(self).step_defined(final(memory)@),
    {
        let mut steps: u64 = 0;
        while steps < max_steps && !self.halted && self.can_step(memory)
            invariant
                steps <= max_steps,
                (*self, memory@) == old(self).run_for(old(memory)@, steps as nat),
                forall|k: nat|
                    k < steps ==> {
                        let s = #[trigger] old(self).run_for(old(memory)@, k);
                        !s.0.halted && s.0.step_defined(s.1)
                    },
            decreases max_steps - steps,
        {
            self.step(memory);
            steps = steps + 1;
        }
        steps
    }
}

/// A signed add (`add`, or `addi` with its sign-extended immediate) whose
/// true sum does not fit in 32 bits halts the CPU with an integer overflow,
/// when no exception was pending, and still writes the wrapped sum.
pub proof fn lemma_add_overflow_halts(cpu: CPU, m: MemoryView)
    requires
        cpu.step_defined(m),
        cpu.exception == Exception::NoException,
        ({
            let i = cpu.fetched(m);
            let s = cpu.registers.get(i.rs as int);
            ||| i.opcode == 0b000000 && i.funct == 0b100000 && !fits_i32(
                signed(s) + signed(cpu.registers.get(i.rt as int)),
            )
            ||| i.opcode == 0b001000 && !fits_i32(signed(s) + sign_extend(i.imm))
        }),
    ensures
        ({
            let i = cpu.fetched(m);
            let s = cpu.registers.get(i.rs as int);
            let next = cpu.next(m).0;
            &&& next.halted
            &&& next.exception == Exception::IntegerOverflow
            &&& i.opcode == 0b000000 ==> next.registers == Registers {
                pc: wrap(cpu.registers.pc + 4),
                ..cpu.registers.set(i.rd as int, wrap(s + cpu.registers.get(i.rt as int)))
            }
            &&& i.opcode == 0b001000 ==> next.registers == Registers {
                pc: wrap(cpu.registers.pc + 4),
                ..cpu.registers.set(i.rt as int, wrap(s + sign_extend(i.imm)))
            }
        }),
{
    reveal(CPU::next);
}

/// An unsigned add writes the wrapped sum and never halts the CPU or raises
/// an exception, whatever its operands.
pub proof fn lemma_addu_never_traps(cpu: CPU, m: MemoryView)
    requires
        cpu.step_defined(m),
        cpu.fetched(m).opcode == 0b000000,
        cpu.fetched(m).funct == 0b100001,
    ensures
        ({
            let i = cpu.fetched(m);
            let next = cpu.next(m).0;
            &&& next.halted == cpu.halted
            &&& next.exception == cpu.exception
            &&& next.registers == Registers {
                pc: wrap(cpu.registers.pc + 4),
                ..cpu.registers.set(
                    i.rd as int,
                    wrap(cpu.registers.get(i.rs as int) + cpu.registers.get(i.rt as int)),
                )
            }
        }),
{
    reveal(CPU::next);
}

/// Dividing by zero, signed or unsigned, clears `hi` and `lo` and raises no
/// exception.
pub proof fn lemma_divide_by_zero(cpu: CPU, m: MemoryView)
    requires
        cpu.step_defined(m),
        cpu.fetched(m).opcode == 0b000000,
        cpu.fetched(m).funct == 0b011010 || cpu.fetched(m).funct == 0b011011,
        cpu.registers.get(cpu.fetched(m).rt as int) == 0,
    ensures
        cpu.next(m).0.registers.hi == 0,
        cpu.next(m).0.registers.lo == 0,
        cpu.next(m).0.halted == cpu.halted,
        cpu.next(m).0.exception == cpu.exception,
{
    reveal(CPU::next);
}

/// A taken `beq`, `bne` or `beql` moves the program counter to the next
/// instruction plus `imm` words; an untaken one moves it to the next
/// instruction.
pub proof fn lemma_branch_displacement(cpu: CPU, m: MemoryView)
    requires
        cpu.step_defined(m),
        cpu.fetched(m).opcode == 0b000100 || cpu.fetched(m).opcode == 0b000101
            || cpu.fetched(m).opcode == 0b010100,
    ensures
        ({
            let i = cpu.fetched(m);
            let s = cpu.registers.get(i.rs as int);
            let t = cpu.registers.get(i.rt as int);
            let taken = if i.opcode == 0b000101 {
                s != t
            } else {
                s == t
            };
            let pc = cpu.registers.pc;
            &&& taken ==> cpu.next(m).0.registers.pc == wrap(pc + 4 + sign_extend(i.imm) * 4)
            &&& !taken ==> cpu.next(m).0.registers.pc == wrap(pc + 4)
            &&& cpu.next(m).0.registers == Registers { pc: cpu.next(m).0.registers.pc, ..cpu.registers }
        }),
{
    reveal(CPU::next);
}

/// A `sw` followed by a `lw` with the same base register and offset loads
/// the word that was stored.
pub proof fn lemma_store_then_load(cpu: CPU, m: MemoryView)
    requires
        cpu.step_defined(m),
        cpu.fetched(m).opcode == 0b101011,
        cpu.next(m).0.step_defined(cpu.next(m).1),
        ({
            let store = cpu.fetched(m);
            let load = cpu.next(m).0.fetched(cpu.next(m).1);
            &&& load.opcode == 0b100011
            &&& load.rs == store.rs
            &&& load.imm == store.imm
            &&& load.rt != 0
        }),
    ensures
        ({
            let store = cpu.fetched(m);
            let after = cpu.next(m);
            let load = after.0.fetched(after.1);
            after.0.next(after.1).0.registers.get(load.rt as int) == cpu.registers.get(
                store.rt as int,
            )
        }),
{
    reveal(CPU::next);
    let store = cpu.fetched(m);
    lemma_decode_wf(m.word(cpu.registers.pc));
    let address = effective_address(cpu.registers, store);
    lemma_word_round_trip(m, address, cpu.registers.get(store.rt as int));
    let after = cpu.next(m);
    lemma_decode_wf(after.1.word(after.0.registers.pc));
    lemma_write_then_read(after.0.registers, after.0.fetched(after.1).rt as int, after.1.word(address), 0);
}

} // verus!
