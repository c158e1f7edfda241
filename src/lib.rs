//! The instruction-execution core of an RV32I emulator: a decoder, a byte
//! addressable memory behind a bus, and a CPU that runs the
//! fetch / decode / execute cycle.
use vstd::prelude::*;

pub mod cpu;
pub mod machine;
pub mod memory;

pub use machine::{Machine, MachineError};
use memory::constants::RAM_BASE;
use memory::{image_contents, MemoryDump};

verus! {

/// A 32-bit RISC-V machine loaded with `memory_dump`.
pub fn create_rv32(memory_dump: MemoryDump) -> (r: Machine)
    ensures
        r.cpu.registers@ == Seq::new(32, |i: int| 0u32),
        r.cpu.pc == RAM_BASE,
        r.memory.contents@ == image_contents(memory_dump@),
{
    Machine::new(memory_dump)
}

/// How a program runs on the machine: on bare metal, as a kernel, or under an
/// operating system. No mode changes the machine's behaviour yet.
pub enum ProgramMode {
    BareMetal,
    Kernel,
    OsProvided,
}

} // verus!
