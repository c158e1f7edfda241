//! The CPU core: register file, program counter and the instruction cycle.
use vstd::prelude::*;

pub mod constants;

use crate::memory::{spec_load, spec_store, MemoryBus, MemoryError};
use constants::{
    funct3_of, i_imm_of, lemma_fields_bounded, opcode_of, rd_of, spec_decode, spec_operation,     DecodeError, Instruction, Operation, XLENType,
};

verus! {

/// An error of one instruction cycle, by the phase that met it.
#[derive(Debug, Clone, Copy, PartialEq, Eq, Structural)]
pub enum CpuError {
    Fetch(FetchError),
    Decode(DecodeError),
    Execute(ExecuteError),
}

#[derive(Debug, Clone, Copy, PartialEq, Eq, Structural)]
pub enum FetchError {
    Memory(MemoryError),
}

#[derive(Debug, Clone, Copy, PartialEq, Eq, Structural)]
pub enum ExecuteError {
    /// A load or store failed.
    Memory(MemoryError),
    /// The instruction names no supported operation.
    IllegalInstruction,
}

/// What the CPU and the memory hold between two cycles.
pub struct CpuState {
    pub registers: Seq<u32>,
    pub pc: u32,
    pub memory: Seq<u8>,
}

/// `regs` after writing `v` to register `rd`; writes to register 0 are dropped.
pub open spec fn write_reg(regs: Seq<u32>, rd: u32, v: u32) -> Seq<u32> {
    if rd == 0 {
        regs
    } else {
        regs.update(rd as int, v)
    }
}

/// A byte, sign-extended to 32 bits.
pub open spec fn sext8(v: u64) -> u32 {
    if v < 0x80 {
        v as u32
    } else {
        (v + 0xffff_ff00) as u32
    }
}

/// A half-word, sign-extended to 32 bits.
pub open spec fn sext16(v: u64) -> u32 {
    if v < 0x8000 {
        v as u32
    } else {
        (v + 0xffff_0000) as u32
    }
}

/// The width, in bits, of the memory access that a load or store makes.
pub open spec fn access_size(op: Operation) -> usize {
    match op {
        Operation::Lb | Operation::Lbu | Operation::Sb => 8,
        Operation::Lh | Operation::Lhu | Operation::Sh => 16,
        _ => 32,
    }
}

/// The register value that a load makes of the value it read.
pub open spec fn extend_loaded(op: Operation, v: u64) -> u32 {
    match op {
        Operation::Lb => sext8(v),
        Operation::Lh => sext16(v),
        _ => v as u32,
    }
}

/// What executing `ins` does to registers `regs` and memory `mem`.
pub open spec fn spec_execute(regs: Seq<u32>, mem: Seq<u8>, ins: Instruction) -> Result<
    (Seq<u32>, Seq<u8>),
    ExecuteError,
> {
    match spec_operation(ins) {
        None => Err(ExecuteError::IllegalInstruction),
        Some(op) => match ins {
            Instruction::I(i) => {
                let sum = regs[i.rs1 as int].wrapping_add(i.imm);
                if op == Operation::Addi {
                    Ok((write_reg(regs, i.rd, sum), mem))
                } else {
                    match spec_load(mem, sum as usize, access_size(op)) {
                        Ok(v) => Ok((write_reg(regs, i.rd, extend_loaded(op, v)), mem)),
                        Err(e) => Err(ExecuteError::Memory(e)),
                    }
                }
            },
            Instruction::R(r) => {
                let a = regs[r.rs1 as int];
                let b = regs[r.rs2 as int];
                let v = if op == Operation::Add {
                    a.wrapping_add(b)
                } else {
                    a.wrapping_sub(b)
                };
                Ok((write_reg(regs, r.rd, v), mem))
            },
            Instruction::S(s) => {
                let address = regs[s.rs1 as int].wrapping_add(s.imm);
                match spec_store(mem, address as usize, access_size(op), regs[s.rs2 as int] as u64) {
                    Ok(m) => Ok((regs, m)),
                    Err(e) => Err(ExecuteError::Memory(e)),
                }
            },
            _ => Err(ExecuteError::IllegalInstruction),
        },
    }
}

/// The word fetched at `pc`.
pub open spec fn spec_fetch(mem: Seq<u8>, pc: u32) -> Result<u32, FetchError> {
    match spec_load(mem, pc as usize, 32) {
        Ok(v) => Ok(v as u32),
        Err(e) => Err(FetchError::Memory(e)),
    }
}

/// One cycle: the state it leaves and how it ended.
///
/// Register 0 is cleared first; the PC moves past the fetched word before the
/// instruction is decoded and executed.
pub open spec fn spec_advance(s: CpuState) -> (CpuState, Result<(), CpuError>) {
    let regs = s.registers.update(0, 0);
    match spec_fetch(s.memory, s.pc) {
        Err(e) => (CpuState { registers: regs, ..s }, Err(CpuError::Fetch(e))),
        Ok(raw) => {
            let pc = s.pc.wrapping_add(4);
            match spec_decode(raw) {
                Err(e) => (CpuState { registers: regs, pc, ..s }, Err(CpuError::Decode(e))),
                Ok(ins) => match spec_execute(regs, s.memory, ins) {
                    Err(e) => (CpuState { registers: regs, pc, ..s }, Err(CpuError::Execute(e))),
                    Ok((r, m)) => (CpuState { registers: r, pc, memory: m }, Ok(())),
                },
            }
        },
    }
}

/// Runs cycles while the PC lies below the memory's size, at most `fuel` of
/// them, stopping at the first error.
pub open spec fn spec_run(s: CpuState, fuel: nat) -> (CpuState, Result<(), CpuError>)
    decreases fuel,
{
    if s.pc as int >= s.memory.len() || fuel == 0 {
        (s, Ok(()))
    } else {
        let (t, r) = spec_advance(s);
        if r is Err {
            (t, r)
        } else {
            spec_run(t, (fuel - 1) as nat)
        }
    }
}

/// Executes `prog` in order, stopping at the first error.
pub open spec fn execute_all(regs: Seq<u32>, mem: Seq<u8>, prog: Seq<Instruction>) -> Result<
    (Seq<u32>, Seq<u8>),
    ExecuteError,
>
    decreases prog.len(),
{
    if prog.len() == 0 {
        Ok((regs, mem))
    } else {
        match spec_execute(regs, mem, prog[0]) {
            Ok((r, m)) => execute_all(r, m, prog.drop_first()),
            Err(e) => Err(e),
        }
    }
}

/// An `addi` word, decoded and executed on a register file of zeros, leaves
/// its destination register holding the sign-extended immediate, and every
/// other register and the memory as they were.
pub proof fn lemma_addi_loads_immediate(raw: u32, mem: Seq<u8>)
    requires
        opcode_of(raw) == 0x13,
        funct3_of(raw) == 0,
        rd_of(raw) != 0,
    ensures
        spec_decode(raw) is Ok,
        spec_execute(Seq::new(32, |i: int| 0u32), mem, spec_decode(raw)->Ok_0) == Ok::<
            (Seq<u32>, Seq<u8>),
            ExecuteError,
        >((Seq::new(32, |i: int| 0u32).update(rd_of(raw) as int, i_imm_of(raw)), mem)),
{
    lemma_fields_bounded(raw);
}

/// Register 0 reads as zero after any sequence of instructions, whatever
/// registers they write.
pub proof fn lemma_register_zero_stays_zero(regs: Seq<u32>, mem: Seq<u8>, prog: Seq<Instruction>)
    requires
        regs.len() == 32,
        regs[0] == 0,
        forall|i: int| 0 <= i < prog.len() ==> (#[trigger] prog[i]).wf(),
    ensures
        execute_all(regs, mem, prog) matches Ok((r, _)) ==> r.len() == 32 && r[0] == 0,
    decreases prog.len(),
{
    if prog.len() > 0 {
        assert(prog[0].wf());
        if let Ok((r, m)) = spec_execute(regs, mem, prog[0]) {
            lemma_register_zero_stays_zero(r, m, prog.drop_first());
        }
    }
}

pub struct Cpu {
    /// Registers x0-x31, with x0 emulated as being hardwired to zero
    pub registers: [XLENType; 32],
    /// Program counter
    pub pc: XLENType,
}

impl Cpu {
    /// The state of this CPU over memory `mem`.
    pub open spec fn state(&self, mem: Seq<u8>) -> CpuState {
        CpuState { registers: self.registers@, pc: self.pc, memory: mem }
    }

    /// A CPU with all registers zero and the PC at `reset_vector`.
    pub fn new(reset_vector: usize) -> (r: Self)
        requires
            reset_vector <= u32::MAX,
        ensures
            r.registers@ == Seq::new(32, |i: int| 0u32),
            r.pc == reset_vector,
    {
        let r = Cpu { registers: [0; 32], pc: reset_vector as u32 };
        assert(r.registers@ =~= Seq::new(32, |i: int| 0u32));
        r
    }

    /// Runs one fetch / decode / execute cycle.
    pub fn advance(&mut self, memory_bus: &mut MemoryBus) -> (r: Result<(), CpuError>)
        ensures
            spec_advance(old(self).state(old(memory_bus).bytes())) == (
            final(self).state(final(memory_bus).bytes()),
            r,
            ),
            final(self).registers@[0] == 0,
            *final(final(memory_bus).memory) == *final(old(memory_bus).memory),
    {
        self.registers[0] = 0;  // x0 is hardwired to zero
        // 1) Fetch
        let raw_instruction = match self.fetch(memory_bus) {
            Ok(raw) => raw,
            Err(e) => return Err(CpuError::Fetch(e)),
        };
        // Every instruction is four bytes long; the PC moves on before the
        // instruction runs.
        self.pc = self.pc.wrapping_add(4);
        // 2) Decode
        let instruction = match Instruction::decode(raw_instruction) {
            Ok(ins) => ins,
            Err(e) => return Err(CpuError::Decode(e)),
        };
        // 3) Execute
        match self.execute(instruction, memory_bus) {
            Ok(()) => Ok(()),
            Err(e) => Err(CpuError::Execute(e)),
        }
    }

    /// Runs cycles while the PC lies within the memory, up to the first error.
    pub fn reset(&mut self, memory_bus: &mut MemoryBus) -> (r: Result<(), CpuError>)
        requires
            old(memory_bus).memory.wf(),
        ensures
            exists|n: nat|
                #[trigger] spec_run(old(self).state(old(memory_bus).bytes()), n) == (
                final(self).state(final(memory_bus).bytes()),
                r,
                ),
            r is Ok ==> final(self).pc >= final(memory_bus).bytes().len(),
            *final(final(memory_bus).memory) == *final(old(memory_bus).memory),
    {
        let ghost start = self.state(memory_bus.bytes());
        let ghost mut k: nat = 0;
        while (self.pc as usize) < memory_bus.memory.size()
            invariant
                memory_bus.memory.wf(),
                start == old(self).state(old(memory_bus).bytes()),
                *final(memory_bus.memory) == *final(old(memory_bus).memory),
                forall|m: nat|
                    #[trigger] spec_run(self.state(memory_bus.bytes()), m) == spec_run(
                        start,
                        k + m,
                    ),
            decreases u32::MAX - self.pc,
        {
            let ghost before = self.state(memory_bus.bytes());
            let step = self.advance(memory_bus);
            let ghost after = self.state(memory_bus.bytes());
            if step.is_err() {
                assert(spec_run(before, 1) == (after, step));
                assert(spec_run(start, k + 1) == (after, step));
                return step;
            }
            proof {
                assert(spec_fetch(before.memory, before.pc) is Ok);
                assert(self.pc == before.pc + 4);
                assert forall|m: nat| #[trigger]
                    spec_run(after, m) == spec_run(start, k + 1 + m) by {
                    assert(spec_run(before, m + 1) == spec_run(start, k + (m + 1)));
                }
                k = k + 1;
            }
        }
        assert(spec_run(self.state(memory_bus.bytes()), 0) == spec_run(start, k + 0));
        Ok(())
    }

    fn fetch(&self, memory_bus: &MemoryBus) -> (r: Result<u32, FetchError>)
        ensures
            r == spec_fetch(memory_bus.bytes(), self.pc),
    {
        match memory_bus.load(self.pc as usize, 32) {
            Ok(v) => {
                proof {
                    crate::memory::lemma_le_value_bound(
                        memory_bus.bytes().subrange(
                            self.pc as usize - crate::memory::constants::RAM_BASE,
                            self.pc as usize - crate::memory::constants::RAM_BASE + 4,
                        ),
                    );
                }
                Ok(v as u32)
            },
            Err(e) => Err(FetchError::Memory(e)),
        }
    }

    /// Writes `v` to register `rd`, unless `rd` is register 0.
    fn write_register(&mut self, rd: u32, v: u32)
        requires
            rd < 32,
        ensures
            final(self).registers@ == write_reg(old(self).registers@, rd, v),
            final(self).pc == old(self).pc,
    {
        if rd != 0 {
            self.registers[rd as usize] = v;
        }
    }

    /// Executes a decoded instruction.
    pub fn execute(&mut self, instruction: Instruction, memory_bus: &mut MemoryBus) -> (r: Result<
        (),
        ExecuteError,
    >)
        requires
            instruction.wf(),
        ensures
            final(self).pc == old(self).pc,
            *final(final(memory_bus).memory) == *final(old(memory_bus).memory),
            match spec_execute(old(self).registers@, old(memory_bus).bytes(), instruction) {
                Ok((regs, mem)) => {
                    &&& r is Ok
                    &&& final(self).registers@ == regs
                    &&& final(memory_bus).bytes() == mem
                },
                Err(e) => {
                    &&& r == Err::<(), ExecuteError>(e)
                    &&& final(self).registers@ == old(self).registers@
                    &&& final(memory_bus).bytes() == old(memory_bus).bytes()
                },
            },
    {
        let op = match instruction.operation() {
            Some(op) => op,
            None => return Err(ExecuteError::IllegalInstruction),
        };
        match instruction {
            Instruction::I(i) => {
                let sum = self.registers[i.rs1 as usize].wrapping_add(i.imm);
                match op {
                    Operation::Addi => {
                        self.write_register(i.rd, sum);
                        Ok(())
                    },
                    _ => {
                        let size: usize = match op {
                            Operation::Lb | Operation::Lbu => 8,
                            Operation::Lh | Operation::Lhu => 16,
                            _ => 32,
                        };
                        let v = match memory_bus.load(sum as usize, size) {
                            Ok(v) => v,
                            Err(e) => return Err(ExecuteError::Memory(e)),
                        };
                        proof {
                            let k = (sum as usize - crate::memory::constants::RAM_BASE) as int;
                            crate::memory::lemma_le_value_bound(
                                memory_bus.bytes().subrange(k, k + size / 8),
                            );
                            crate::memory::lemma_pow256_small();
                        }
                        let value: u32 = match op {
                            Operation::Lb => if v < 0x80 {
                                v as u32
                            } else {
                                v as u32 + 0xffff_ff00
                            },
                            Operation::Lh => if v < 0x8000 {
                                v as u32
                            } else {
                                v as u32 + 0xffff_0000
                            },
                            _ => v as u32,
                        };
                        self.write_register(i.rd, value);
                        Ok(())
                    },
                }
            },
            Instruction::R(r) => {
                let a = self.registers[r.rs1 as usize];
                let b = self.registers[r.rs2 as usize];
                let v = match op {
                    Operation::Add => a.wrapping_add(b),
                    _ => a.wrapping_sub(b),
                };
                self.write_register(r.rd, v);
                Ok(())
            },
            Instruction::S(s) => {
                let address = self.registers[s.rs1 as usize].wrapping_add(s.imm);
                let size: usize = match op {
                    Operation::Sb => 8,
                    Operation::Sh => 16,
                    _ => 32,
                };
                match memory_bus.store(address as usize, size, self.registers[s.rs2 as usize] as u64) {
                    Ok(()) => Ok(()),
                    Err(e) => Err(ExecuteError::Memory(e)),
                }
            },
            _ => Err(ExecuteError::IllegalInstruction),
        }
    }
}

} // verus!
