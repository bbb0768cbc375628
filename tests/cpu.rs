use mips_emulator::{Exception, Memory, CPU};

#[test]
fn test_fetch_instruction() {
    let mut cpu = CPU::default();
    let mut memory = Memory::default();
    memory.text_address = 0x00400000;
    memory.write_word(0x00400000, 0x16aaaaaa);
    let instruction = cpu.fetch_instruction(&memory);
    assert_eq!(instruction.opcode, 0b000101);
    assert_eq!(instruction.rs, 0b10101);
    assert_eq!(instruction.rt, 0b01010);
    assert_eq!(instruction.rd, 0b10101);
    assert_eq!(instruction.shamt, 0b01010);
    assert_eq!(instruction.funct, 0b101010);
    assert_eq!(instruction.imm, 0xaaaa);
    assert_eq!(instruction.address, 0x2aaaaaa);
}

// opcode: 0b000000
// funct: 0b000000
#[test]
fn test_run_sll() {
    let mut cpu = CPU::default();
    let mut memory = Memory::default();
    memory.text_address = 0x00400000;
    memory.write_word(0x00400000, 0x000A4880); // sll $t1, $t2, 2
    cpu.registers.t2 = 0b0000_0000_0000_0000_0000_0000_0000_1010;
    cpu.step(&mut memory);
    assert_eq!(cpu.registers.t1, 0b0000_0000_0000_0000_0000_0000_0010_1000);
}

// opcode: 0b000000
// funct: 0b000010
#[test]
fn test_run_srl() {
    let mut cpu = CPU::default();
    let mut memory = Memory::default();
    memory.text_address = 0x00400000;
    memory.write_word(0x00400000, 0x000A4882); // srl $t1, $t2, 2
    cpu.registers.t2 = 0b0000_0000_0000_0000_0000_0000_0000_1010;
    cpu.step(&mut memory);
    assert_eq!(cpu.registers.t1, 0b0000_0000_0000_0000_0000_0000_0000_0010);
}

// opcode: 0b000000
// funct: 0b000011
#[test]
fn test_run_sra() {
    let mut cpu = CPU::default();
    let mut memory = Memory::default();
    memory.text_address = 0x00400000;
    memory.write_word(0x00400000, 0x000A4883); // sra $t1, $t2, 2
    cpu.registers.t2 = 0b1000_0000_0000_0000_0000_0000_0000_1010;
    cpu.step(&mut memory);
    assert_eq!(cpu.registers.t1, 0b1110_0000_0000_0000_0000_0000_0000_0010);
}

// opcode: 0b000000
// funct: 0b000010
#[test]
fn test_run_rotr() {
    let mut cpu = CPU::default();
    let mut memory = Memory::default();
    memory.text_address = 0x00400000;
    memory.write_word(0x00400000, 0x002A4882); // rotr $t1, $t2, 2
    cpu.registers.t2 = 0b0000_0000_0000_0000_0000_0000_0000_1010;
    cpu.step(&mut memory);
    assert_eq!(cpu.registers.t1, 0b1000_0000_0000_0000_0000_0000_0000_0010);
}

// opcode: 0b000000
// funct: 0b000100
#[test]
fn test_run_sllv() {
    let mut cpu = CPU::default();
    let mut memory = Memory::default();
    memory.text_address = 0x00400000;
    memory.write_word(0x00400000, 0x016A4804); // sllv $t1, $t2, $t3
    cpu.registers.t2 = 0b0000_0000_0000_0000_0000_0000_0000_1010;
    cpu.registers.t3 = 2;
    cpu.step(&mut memory);
    assert_eq!(cpu.registers.t1, 0b0000_0000_0000_0000_0000_0000_0010_1000);
}

// opcode: 0b000000
// funct: 0b000110
#[test]
fn test_run_srlv() {
    let mut cpu = CPU::default();
    let mut memory = Memory::default();
    memory.text_address = 0x00400000;
    memory.write_word(0x00400000, 0x016A4806); // srlv $t1, $t2, $t3
    cpu.registers.t2 = 0b0000_0000_0000_0000_0000_0000_0000_1010;
    cpu.registers.t3 = 2;
    cpu.step(&mut memory);
    assert_eq!(cpu.registers.t1, 0b0000_0000_0000_0000_0000_0000_0000_0010);
}

// opcode: 0b000000
// funct: 0b000111
#[test]
fn test_run_srav() {
    let mut cpu = CPU::default();
    let mut memory = Memory::default();
    memory.text_address = 0x00400000;
    memory.write_word(0x00400000, 0x016A4807); // srav $t1, $t2, $t3
    cpu.registers.t2 = 0b1000_0000_0000_0000_0000_0000_0000_1010;
    cpu.registers.t3 = 2;
    cpu.step(&mut memory);
    assert_eq!(cpu.registers.t1, 0b1110_0000_0000_0000_0000_0000_0000_0010);
}

// opcode: 0b000000
// funct: 0b000110
#[test]
fn test_run_rotrv() {
    let mut cpu = CPU::default();
    let mut memory = Memory::default();
    memory.text_address = 0x00400000;
    memory.write_word(0x00400000, 0x014B4846); // rotrv $t1, $t2, $t3
    cpu.registers.t2 = 2;
    cpu.registers.t3 = 0b0000_0000_0000_0000_0000_0000_0000_1010;
    cpu.step(&mut memory);
    assert_eq!(cpu.registers.t1, 0b1000_0000_0000_0000_0000_0000_0000_0010);
}

// opcode: 0b000000
// funct: 0b001000
#[test]
fn test_run_jr() {
    let mut cpu = CPU::default();
    let mut memory = Memory::default();
    memory.text_address = 0x00400000;
    cpu.registers.t1 = 0xDEADBEEF;
    memory.write_word(0x00400000, 0x01200008); // jr $t1
    cpu.step(&mut memory);
    assert_eq!(cpu.registers.pc, 0xDEADBEEF);
}

// opcode: 0b000000
// funct: 0b001001
#[test]
fn test_run_jalr() {
    let mut cpu = CPU::default();
    let mut memory = Memory::default();
    memory.text_address = 0x00400000;
    cpu.registers.t1 = 0xDEADBEEF;
    memory.write_word(0x00400000, 0x01205009); // jalr $t1, $t2
    cpu.step(&mut memory);
    assert_eq!(cpu.registers.pc, 0xDEADBEEF);
}

// opcode: 0b000000
// funct: 0b001010
#[test]
fn test_run_movz() {
    let mut cpu = CPU::default();
    let mut memory = Memory::default();
    memory.text_address = 0x00400000;
    cpu.registers.t1 = 0;
    cpu.registers.t2 = 0xDEADBEEF;
    cpu.registers.t3 = 0;
    memory.write_word(0x00400000, 0x014b480a); // movz $t1, $t2, $t3
    memory.write_word(0x00400004, 0x014b480a); // movz $t1, $t2, $t3
    cpu.step(&mut memory);
    assert_eq!(cpu.registers.t1, 0xDEADBEEF);
    assert_eq!(cpu.registers.t2, 0xDEADBEEF);
    assert_eq!(cpu.registers.t3, 0);
    cpu.registers.t1 = 0;
    cpu.registers.t3 = 1;
    cpu.step(&mut memory);
    assert_eq!(cpu.registers.t1, 0);
    assert_eq!(cpu.registers.t2, 0xDEADBEEF);
    assert_eq!(cpu.registers.t3, 1);
}

// opcode: 0b000000
// funct: 0b001011
#[test]
fn test_run_movn() {
    let mut cpu = CPU::default();
    let mut memory = Memory::default();
    memory.text_address = 0x00400000;
    cpu.registers.t1 = 0;
    cpu.registers.t2 = 0xDEADBEEF;
    cpu.registers.t3 = 0;
    memory.write_word(0x00400000, 0x014b480b); // movn $t1, $t2, $t3
    memory.write_word(0x00400004, 0x014b480b); // movn $t1, $t2, $t3
    cpu.step(&mut memory);
    assert_eq!(cpu.registers.t1, 0);
    assert_eq!(cpu.registers.t2, 0xDEADBEEF);
    assert_eq!(cpu.registers.t3, 0);
    cpu.registers.t3 = 1;
    cpu.step(&mut memory);
    assert_eq!(cpu.registers.t1, 0xDEADBEEF);
    assert_eq!(cpu.registers.t2, 0xDEADBEEF);
    assert_eq!(cpu.registers.t3, 1);
}

// opcode: 0b000000
// funct: 0b001100
#[test]
fn test_run_syscall() {
    let mut cpu = CPU::default();
    let mut memory = Memory::default();
    memory.text_address = 0x00400000;
    cpu.registers.v0 = 10;
    memory.write_word(0x00400000, 0x0000000c); // syscall
    cpu.step(&mut memory);
    assert_eq!(cpu.halted, true);
}

// opcode: 0b000000
// funct: 0b001101
#[test]
fn test_run_breakpoint() {
    let mut cpu = CPU::default();
    let mut memory = Memory::default();
    memory.text_address = 0x00400000;
    memory.write_word(0x00400000, 0x0000000d); // breakpoint
    cpu.step(&mut memory);
    assert_eq!(cpu.halted, true);
    assert_eq!(cpu.exception, Exception::Breakpoint);
}

// opcode: 0b000000
// funct: 0b010000
#[test]
fn test_run_mfhi() {
    let mut cpu = CPU::default();
    let mut memory = Memory::default();
    memory.text_address = 0x00400000;
    cpu.registers.hi = 0xDEADBEEF;
    memory.write_word(0x00400000, 0x00004810); // mfhi $t1
    cpu.step(&mut memory);
    assert_eq!(cpu.registers.t1, 0xDEADBEEF);
}

// opcode: 0b000000
// funct: 0b010001
#[test]
fn test_run_mthi() {
    let mut cpu = CPU::default();
    let mut memory = Memory::default();
    memory.text_address = 0x00400000;
    cpu.registers.t1 = 0xDEADBEEF;
    memory.write_word(0x00400000, 0x01200011); // mthi $t1
    cpu.step(&mut memory);
    assert_eq!(cpu.registers.hi, 0xDEADBEEF);
}

// opcode: 0b000000
// funct: 0b010010
#[test]
fn test_run_mflo() {
    let mut cpu = CPU::default();
    let mut memory = Memory::default();
    memory.text_address = 0x00400000;
    cpu.registers.lo = 0xDEADBEEF;
    memory.write_word(0x00400000, 0x00004812); // mflo $t1
    cpu.step(&mut memory);
    assert_eq!(cpu.registers.t1, 0xDEADBEEF);
}

// opcode: 0b000000
// funct: 0b010011
#[test]
fn test_run_mtlo() {
    let mut cpu = CPU::default();
    let mut memory = Memory::default();
    memory.text_address = 0x00400000;
    cpu.registers.t1 = 0xDEADBEEF;
    memory.write_word(0x00400000, 0x01200013); // mthi $t1
    cpu.step(&mut memory);
    assert_eq!(cpu.registers.lo, 0xDEADBEEF);
}

// opcode: 0b000000
// funct: 0b011000
#[test]
fn test_run_mult() {
    let mut cpu = CPU::default();
    let mut memory = Memory::default();
    memory.text_address = 0x00400000;
    cpu.registers.t1 = 0xaaaaaaaa;
    cpu.registers.t2 = 0x33333333;
    memory.write_word(0x00400000, 0x012a0018); // mult $t1, $t2
    cpu.step(&mut memory);
    // a signed product: 0xaaaaaaaa is negative
    assert_eq!(cpu.registers.hi, 0xEEEEEEEE);
    assert_eq!(cpu.registers.lo, 0xDDDDDDDE);
}

// opcode: 0b000000
// funct: 0b011001
#[test]
fn test_run_multu() {
    let mut cpu = CPU::default();
    let mut memory = Memory::default();
    memory.text_address = 0x00400000;
    cpu.registers.t1 = 0xaaaaaaaa;
    cpu.registers.t2 = 0x33333333;
    memory.write_word(0x00400000, 0x012a0019); // multu $t1, $t2
    cpu.step(&mut memory);
    assert_eq!(cpu.registers.hi, 0x22222221);
    assert_eq!(cpu.registers.lo, 0xDDDDDDDE);
}

// opcode: 0b000000
// funct: 0b011010
#[test]
fn test_run_div() {
    let mut cpu = CPU::default();
    let mut memory = Memory::default();
    memory.text_address = 0x00400000;
    cpu.registers.t1 = 10;
    cpu.registers.t2 = 3;
    memory.write_word(0x00400000, 0x012a001a); // div $t1, $t2
    cpu.step(&mut memory);
    assert_eq!(cpu.registers.hi, 1);
    assert_eq!(cpu.registers.lo, 3);
}

// opcode: 0b000000
// funct: 0b011011
#[test]
fn test_run_divu() {
    let mut cpu = CPU::default();
    let mut memory = Memory::default();
    memory.text_address = 0x00400000;
    cpu.registers.t1 = 10;
    cpu.registers.t2 = 3;
    memory.write_word(0x00400000, 0x012a001b); // div $t1, $t2
    cpu.step(&mut memory);
    assert_eq!(cpu.registers.hi, 1);
    assert_eq!(cpu.registers.lo, 3);
}

// opcode: 0b000000
// funct: 0b100000
#[test]
fn test_run_add() {
    let mut cpu = CPU::default();
    let mut memory = Memory::default();
    memory.text_address = 0x00400000;
    cpu.registers.t2 = 1;
    cpu.registers.t3 = 2;
    memory.write_word(0x00400000, 0x014b4820); // add $t1, $t2, $t3
    cpu.step(&mut memory);
    assert_eq!(cpu.registers.t1, 3);
}

// opcode: 0b000000
// funct: 0b100001
#[test]
fn test_run_addu() {
    let mut cpu = CPU::default();
    let mut memory = Memory::default();
    memory.text_address = 0x00400000;
    cpu.registers.t2 = 1;
    cpu.registers.t3 = 2;
    memory.write_word(0x00400000, 0x014b4821); // addu $t1, $t2, $t3
    cpu.step(&mut memory);
    assert_eq!(cpu.registers.t1, 3);
}

// opcode: 0b000000
// funct: 0b100010
#[test]
fn test_run_sub() {
    let mut cpu = CPU::default();
    let mut memory = Memory::default();
    memory.text_address = 0x00400000;
    cpu.registers.t2 = u32::MAX;
    cpu.registers.t3 = u32::MAX - 1;
    memory.write_word(0x00400000, 0x014b4822); // sub $t1, $t2, $t3
    cpu.step(&mut memory);
    assert_eq!(cpu.registers.t1 as i32, 1);
}

// opcode: 0b000000
// funct: 0b100011
#[test]
fn test_run_subu() {
    let mut cpu = CPU::default();
    let mut memory = Memory::default();
    memory.text_address = 0x00400000;
    cpu.registers.t2 = u32::MAX;
    cpu.registers.t3 = u32::MAX - 1;
    memory.write_word(0x00400000, 0x014b4823); // subu $t1, $t2, $t3
    cpu.step(&mut memory);
    assert_eq!(cpu.registers.t1, 1);
}

// opcode: 0b000000
// funct: 0b100100
#[test]
fn test_run_and() {
    let mut cpu = CPU::default();
    let mut memory = Memory::default();
    memory.text_address = 0x00400000;
    cpu.registers.t2 = 0b10101010;
    cpu.registers.t3 = 0b11100011;
    memory.write_word(0x00400000, 0x014b4824); // and $t1, $t2, $t3
    cpu.step(&mut memory);
    assert_eq!(cpu.registers.t1, 0b10100010);
}

// opcode: 0b000000
// funct: 0b100101
#[test]
fn test_run_or() {
    let mut cpu = CPU::default();
    let mut memory = Memory::default();
    memory.text_address = 0x00400000;
    cpu.registers.t2 = 0b10101010;
    cpu.registers.t3 = 0b11100011;
    memory.write_word(0x00400000, 0x014b4825); // or $t1, $t2, $t3
    cpu.step(&mut memory);
    assert_eq!(cpu.registers.t1, 0b11101011);
}

// opcode: 0b000000
// funct: 0b100110
#[test]
fn test_run_xor() {
    let mut cpu = CPU::default();
    let mut memory = Memory::default();
    memory.text_address = 0x00400000;
    cpu.registers.t2 = 0b10101010;
    cpu.registers.t3 = 0b11100011;
    memory.write_word(0x00400000, 0x014b4826); // xor $t1, $t2, $t3
    cpu.step(&mut memory);
    assert_eq!(cpu.registers.t1, 0b01001001);
}

// opcode: 0b000000
// funct: 0b100111
#[test]
fn test_run_nor() {
    let mut cpu = CPU::default();
    let mut memory = Memory::default();
    memory.text_address = 0x00400000;
    cpu.registers.t2 = 0x0000FAFB;
    cpu.registers.t3 = 0x0000F000;
    memory.write_word(0x00400000, 0x014b4827); // nor $t1, $t2, $t3
    cpu.step(&mut memory);
    assert_eq!(cpu.registers.t1, 0xFFFF0504);
}

// opcode: 0b000000
// funct: 0b101010
#[test]
fn test_run_slt() {
    let mut cpu = CPU::default();
    let mut memory = Memory::default();
    memory.text_address = 0x00400000;
    cpu.registers.t2 = u32::MAX - 1;
    cpu.registers.t3 = u32::MAX;
    memory.write_word(0x00400000, 0x014b482a); // slt $t1, $t2, $t3
    memory.write_word(0x00400004, 0x014b482a); // slt $t1, $t2, $t3
    cpu.step(&mut memory);
    assert_eq!(cpu.registers.t1, 1);
    cpu.registers.t2 = u32::MAX;
    cpu.registers.t3 = u32::MAX - 1;
    cpu.step(&mut memory);
    assert_eq!(cpu.registers.t1, 0);
}

// opcode: 0b000000
// funct: 0b101011
#[test]
fn test_run_sltu() {
    let mut cpu = CPU::default();
    let mut memory = Memory::default();
    memory.text_address = 0x00400000;
    cpu.registers.t2 = u32::MAX - 1;
    cpu.registers.t3 = u32::MAX;
    memory.write_word(0x00400000, 0x014b482b); // sltu $t1, $t2, $t3
    memory.write_word(0x00400004, 0x014b482b); // sltu $t1, $t2, $t3
    cpu.step(&mut memory);
    assert_eq!(cpu.registers.t1, 1);
    cpu.registers.t2 = u32::MAX;
    cpu.registers.t3 = u32::MAX - 1;
    cpu.step(&mut memory);
    assert_eq!(cpu.registers.t1, 0);
}

// opcode: 0b000000
// funct: 0b110000
#[test]
fn test_run_tge() {
    let mut cpu = CPU::default();
    let mut memory = Memory::default();
    memory.text_address = 0x00400000;
    memory.write_word(0x00400000, 0x014b4830); // tge $t2, $t3
    memory.write_word(0x00400004, 0x014b4830); // tge $t2, $t3
    memory.write_word(0x00400008, 0x014b4830); // tge $t2, $t3
    memory.write_word(0x0040000c, 0x014b4830); // tge $t2, $t3
    cpu.registers.t2 = 1;
    cpu.registers.t3 = 2;
    cpu.exception = Exception::NoException;
    cpu.halted = false;
    cpu.step(&mut memory);
    assert_eq!(cpu.exception, Exception::NoException);
    cpu.registers.t2 = 1;
    cpu.registers.t3 = 1;
    cpu.exception = Exception::NoException;
    cpu.halted = false;
    cpu.step(&mut memory);
    assert_eq!(cpu.exception, Exception::Trap);
    cpu.registers.t2 = u32::MAX;
    cpu.registers.t3 = 1;
    cpu.exception = Exception::NoException;
    cpu.halted = false;
    cpu.step(&mut memory);
    assert_eq!(cpu.exception, Exception::NoException);
    cpu.registers.t2 = 2;
    cpu.registers.t3 = 1;
    cpu.exception = Exception::NoException;
    cpu.halted = false;
    cpu.step(&mut memory);
    assert_eq!(cpu.exception, Exception::Trap);
}

// opcode: 0b000000
// funct: 0b110001
#[test]
fn test_run_tgeu() {
    let mut cpu = CPU::default();
    let mut memory = Memory::default();
    memory.text_address = 0x00400000;
    memory.write_word(0x00400000, 0x014b4831); // tgeu $t2, $t3
    memory.write_word(0x00400004, 0x014b4831); // tgeu $t2, $t3
    memory.write_word(0x00400008, 0x014b4831); // tgeu $t2, $t3
    memory.write_word(0x0040000c, 0x014b4831); // tgeu $t2, $t3
    cpu.registers.t2 = 1;
    cpu.registers.t3 = 2;
    cpu.exception = Exception::NoException;
    cpu.halted = false;
    cpu.step(&mut memory);
    assert_eq!(cpu.exception, Exception::NoException);
    cpu.registers.t2 = 1;
    cpu.registers.t3 = 1;
    cpu.exception = Exception::NoException;
    cpu.halted = false;
    cpu.step(&mut memory);
    assert_eq!(cpu.exception, Exception::Trap);
    cpu.registers.t2 = u32::MAX;
    cpu.registers.t3 = 1;
    cpu.exception = Exception::NoException;
    cpu.halted = false;
    cpu.step(&mut memory);
    assert_eq!(cpu.exception, Exception::Trap);
    cpu.registers.t2 = 2;
    cpu.registers.t3 = 1;
    cpu.exception = Exception::NoException;
    cpu.halted = false;
    cpu.step(&mut memory);
    assert_eq!(cpu.exception, Exception::Trap);
}

// opcode: 0b000000
// funct: 0b110010
#[test]
fn test_run_tlt() {
    let mut cpu = CPU::default();
    let mut memory = Memory::default();
    memory.text_address = 0x00400000;
    memory.write_word(0x00400000, 0x014b4832); // tge $t2, $t3
    memory.write_word(0x00400004, 0x014b4832); // tge $t2, $t3
    memory.write_word(0x00400008, 0x014b4832); // tge $t2, $t3
    memory.write_word(0x0040000c, 0x014b4832); // tge $t2, $t3
    cpu.registers.t2 = 1;
    cpu.registers.t3 = 2;
    cpu.exception = Exception::NoException;
    cpu.halted = false;
    cpu.step(&mut memory);
    assert_eq!(cpu.exception, Exception::Trap);
    cpu.registers.t2 = 1;
    cpu.registers.t3 = 1;
    cpu.exception = Exception::NoException;
    cpu.halted = false;
    cpu.step(&mut memory);
    assert_eq!(cpu.exception, Exception::NoException);
    cpu.registers.t2 = u32::MAX;
    cpu.registers.t3 = 1;
    cpu.exception = Exception::NoException;
    cpu.halted = false;
    cpu.step(&mut memory);
    assert_eq!(cpu.exception, Exception::Trap);
    cpu.registers.t2 = 2;
    cpu.registers.t3 = 1;
    cpu.exception = Exception::NoException;
    cpu.halted = false;
    cpu.step(&mut memory);
    assert_eq!(cpu.exception, Exception::NoException);
}

// opcode: 0b000000
// funct: 0b110011
#[test]
fn test_run_tltu() {
    let mut cpu = CPU::default();
    let mut memory = Memory::default();
    memory.text_address = 0x00400000;
    memory.write_word(0x00400000, 0x014b4833); // tgeu $t2, $t3
    memory.write_word(0x00400004, 0x014b4833); // tgeu $t2, $t3
    memory.write_word(0x00400008, 0x014b4833); // tgeu $t2, $t3
    memory.write_word(0x0040000c, 0x014b4833); // tgeu $t2, $t3
    cpu.registers.t2 = 1;
    cpu.registers.t3 = 2;
    cpu.exception = Exception::NoException;
    cpu.halted = false;
    cpu.step(&mut memory);
    assert_eq!(cpu.exception, Exception::Trap);
    cpu.registers.t2 = 1;
    cpu.registers.t3 = 1;
    cpu.exception = Exception::NoException;
    cpu.halted = false;
    cpu.step(&mut memory);
    assert_eq!(cpu.exception, Exception::NoException);
    cpu.registers.t2 = u32::MAX;
    cpu.registers.t3 = 1;
    cpu.exception = Exception::NoException;
    cpu.halted = false;
    cpu.step(&mut memory);
    assert_eq!(cpu.exception, Exception::NoException);
    cpu.registers.t2 = 2;
    cpu.registers.t3 = 1;
    cpu.exception = Exception::NoException;
    cpu.halted = false;
    cpu.step(&mut memory);
    assert_eq!(cpu.exception, Exception::NoException);
}

// opcode: 0b000000
// funct: 0b110100
#[test]
fn test_run_teq() {
    let mut cpu = CPU::default();
    let mut memory = Memory::default();
    memory.text_address = 0x00400000;
    memory.write_word(0x00400000, 0x014b4834); // teq $t2, $t3
    memory.write_word(0x00400004, 0x014b4834); // teq $t2, $t3
    cpu.registers.t2 = 1;
    cpu.registers.t3 = 2;
    cpu.step(&mut memory);
    assert_eq!(cpu.exception, Exception::NoException);
    cpu.registers.t3 = 1;
    cpu.exception = Exception::NoException;
    cpu.halted = false;
    cpu.step(&mut memory);
    assert_eq!(cpu.exception, Exception::Trap);
}

// opcode: 0b000000
// funct: 0b110110
#[test]
fn test_run_tne() {
    let mut cpu = CPU::default();
    let mut memory = Memory::default();
    memory.text_address = 0x00400000;
    memory.write_word(0x00400000, 0x014b4836); // tne $t2, $t3
    memory.write_word(0x00400004, 0x014b4836); // tne $t2, $t3
    cpu.registers.t2 = 1;
    cpu.registers.t3 = 2;
    cpu.step(&mut memory);
    assert_eq!(cpu.exception, Exception::Trap);
    cpu.registers.t3 = 1;
    cpu.exception = Exception::NoException;
    cpu.halted = false;
    cpu.step(&mut memory);
    assert_eq!(cpu.exception, Exception::NoException);
}

// opcode: 0b000010
#[test]
fn test_run_j() {
    let mut cpu = CPU::default();
    let mut memory = Memory::default();
    memory.text_address = 0x00400000;
    memory.write_word(0x00400000, 0x08100000); // j 0x00400000
    cpu.step(&mut memory);
    assert_eq!(cpu.registers.pc, 0x00400000);
}

// opcode: 0b000100
#[test]
fn test_run_beq() {
    let mut cpu = CPU::default();
    let mut memory = Memory::default();
    memory.text_address = 0x00400000;
    cpu.registers.t1 = 1;
    cpu.registers.t2 = 2;
    cpu.registers.t3 = 3;
    memory.write_word(0x00400000, 0x012a4820); // add $t1, $t1, $t2
    memory.write_word(0x00400004, 0x112bfffe); // beq $t1, $t3, -2
    cpu.step(&mut memory);
    cpu.step(&mut memory);
    assert_eq!(cpu.registers.t1, 3);
    assert_eq!(cpu.registers.t2, 2);
    assert_eq!(cpu.registers.t3, 3);
    assert_eq!(cpu.registers.pc, 0x00400000);
    cpu.step(&mut memory);
    cpu.step(&mut memory);
    assert_eq!(cpu.registers.t1, 5);
    assert_eq!(cpu.registers.t2, 2);
    assert_eq!(cpu.registers.t3, 3);
    assert_eq!(cpu.registers.pc, 0x00400008);
}

// opcode: 0b000101
#[test]
fn test_run_bne() {
    let mut cpu = CPU::default();
    let mut memory = Memory::default();
    memory.text_address = 0x00400000;
    cpu.registers.t1 = 1;
    cpu.registers.t2 = 2;
    memory.write_word(0x00400000, 0x012a4822); // sub $t1, $t1, $t2
    memory.write_word(0x00400004, 0x152afffe); // bne $t1, $t2, -2
    cpu.step(&mut memory);
    cpu.step(&mut memory);
    assert_eq!(cpu.registers.pc, 0x00400000);
}

// opcode: 0b001000
#[test]
fn test_run_addi() {
    let mut cpu = CPU::default();
    let mut memory = Memory::default();
    memory.text_address = 0x00400000;
    cpu.registers.t1 = 1;
    memory.write_word(0x00400000, 0x21290003); // addi $t1, $t1, 0x4821
    cpu.step(&mut memory);
    assert_eq!(cpu.registers.t1, 4);
}

// opcode: 0b001001
#[test]
fn test_run_addiu() {
    let mut cpu = CPU::default();
    let mut memory = Memory::default();
    memory.text_address = 0x00400000;
    cpu.registers.t1 = 1;
    memory.write_word(0x00400000, 0x25290003); // addiu $t1, $t1, 3
    cpu.step(&mut memory);
    assert_eq!(cpu.registers.t1, 4);
}

// opcode: 0b001100
#[test]
fn test_run_andi() {
    let mut cpu = CPU::default();
    let mut memory = Memory::default();
    memory.text_address = 0x00400000;
    cpu.registers.t1 = 0xDEADBEEF;
    memory.write_word(0x00400000, 0x3129BABE); // andi $t1, $t1, 3
    cpu.step(&mut memory);
    assert_eq!(cpu.registers.t1, 0x0000BAAE);
}

// opcode: 0b001111
#[test]
fn test_run_lui() {
    let mut cpu = CPU::default();
    let mut memory = Memory::default();
    memory.text_address = 0x00400000;
    memory.write_word(0x00400000, 0x3C090001); // lui $t1, 0x0001
    cpu.step(&mut memory);
    assert_eq!(cpu.registers.t1, 0x00010000);
}

// opcode: 0b010100
#[test]
fn test_run_beql() {
    let mut cpu = CPU::default();
    let mut memory = Memory::default();
    memory.text_address = 0x00400000;
    cpu.registers.t1 = 1;
    cpu.registers.t2 = 2;
    cpu.registers.t3 = 3;
    memory.write_word(0x00400000, 0x012a4820); // add $t1, $t1, $t2
    memory.write_word(0x00400004, 0x512BFFFE); // beql $t1, $t2, -2
    cpu.step(&mut memory);
    cpu.step(&mut memory);
    assert_eq!(cpu.registers.t1, 3);
    assert_eq!(cpu.registers.t2, 2);
    assert_eq!(cpu.registers.t3, 3);
    assert_eq!(cpu.registers.pc, 0x00400000);
    cpu.step(&mut memory);
    cpu.step(&mut memory);
    assert_eq!(cpu.registers.t1, 5);
    assert_eq!(cpu.registers.t2, 2);
    assert_eq!(cpu.registers.t3, 3);
    assert_eq!(cpu.registers.pc, 0x00400008);
}

// opcode: 0b100011
#[test]
fn test_run_lw() {
    let mut cpu = CPU::default();
    let mut memory = Memory::default();
    memory.text_address = 0x00400000;
    memory.data_address = 0x10000000;
    cpu.registers.t1 = 0x10000000;
    memory.write_word(0x00400000, 0x8d2a0004); // lw $t2, 4($t1)
    memory.write_word(0x10000004, 0x12345678);
    cpu.step(&mut memory);
    assert_eq!(cpu.registers.t2, 0x12345678);
    assert_eq!(memory.data.len(), 8);
}

// opcode: 0b101011
#[test]
fn test_run_sw() {
    let mut cpu = CPU::default();
    let mut memory = Memory::default();
    memory.text_address = 0x00400000;
    memory.data_address = 0x10000000;
    cpu.registers.t1 = 0x10000000;
    cpu.registers.t2 = 0x12345678;
    memory.write_word(0x00400000, 0xad2a0004); // sw $t2, 4($t1)
    cpu.step(&mut memory);
    assert_eq!(memory.read_word(0x10000004), 0x12345678);
    assert_eq!(memory.data.len(), 8);
}
