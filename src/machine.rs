//! A whole machine: one CPU and its memory.
use vstd::prelude::*;

use crate::cpu::{spec_run, Cpu, CpuError, CpuState};
use crate::memory::constants::RAM_BASE;
use crate::memory::{image_contents, Memory, MemoryBus, MemoryDump};

verus! {

/// A generic machine
pub struct Machine {
    pub cpu: Cpu,
    pub memory: Memory,
}

#[derive(Debug, Clone, Copy, PartialEq, Eq, Structural)]
pub enum MachineError {
    Cpu(CpuError),
}

/// The outcome of a run, as a machine reports it.
pub open spec fn machine_result(r: Result<(), CpuError>) -> Result<(), MachineError> {
    match r {
        Ok(()) => Ok(()),
        Err(e) => Err(MachineError::Cpu(e)),
    }
}

impl Machine {
    /// The state of the CPU together with the memory.
    pub open spec fn state(&self) -> CpuState {
        self.cpu.state(self.memory.contents@)
    }

    /// A machine whose RAM holds `memory_dump` and whose PC is at the start of RAM.
    pub fn new(memory_dump: MemoryDump) -> (r: Self)
        ensures
            r.cpu.registers@ == Seq::new(32, |i: int| 0u32),
            r.cpu.pc == RAM_BASE,
            r.memory.contents@ == image_contents(memory_dump@),
    {
        Machine { cpu: Cpu::new(RAM_BASE), memory: Memory::new(memory_dump) }
    }

    /// Boots and runs the machine until the PC leaves the memory or a cycle fails.
    pub fn boot(&mut self) -> (r: Result<(), MachineError>)
        requires
            old(self).memory.wf(),
        ensures
            exists|n: nat|
                {
                    &&& (#[trigger] spec_run(old(self).state(), n)).0 == final(self).state()
                    &&& machine_result(spec_run(old(self).state(), n).1) == r
                },
            r is Ok ==> final(self).cpu.pc >= final(self).memory.contents@.len(),
    {
        let mut memory_bus = MemoryBus::new(&mut self.memory);
        let r = self.cpu.reset(&mut memory_bus);
        assert(has_resolved(memory_bus));
        assert(has_resolved(memory_bus.memory));
        assert(memory_bus.bytes() == self.memory.contents@);
        assert(old(self).memory.contents@ == old(self).state().memory);
        match r {
            Ok(()) => Ok(()),
            Err(e) => Err(MachineError::Cpu(e)),
        }
    }
}

} // verus!
