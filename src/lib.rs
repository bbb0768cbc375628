pub mod cpu;
pub mod elf;
pub mod isa;
pub mod memory;
pub mod registers;

pub use cpu::CPU;
pub use elf::{ELFHeader, ProgramHeader, SectionHeader, ELF};
pub use isa::{Exception, Flow, Instruction, InstructionKind};
pub use memory::{Memory, Section};
pub use registers::Registers;
