//! Instruction formats of the RISC-V base ISA and their decoding.
use vstd::prelude::*;

verus! {

/// Width of a register, in bits.
pub const XLEN: u8 = 32;

/// A value held in a register.
pub type XLENType = u32;

/// An instruction, by encoding format.
#[derive(Debug, Clone, Copy, PartialEq, Eq, Structural)]
pub enum Instruction {
    R(RType),
    I(IType),
    S(SType),
    B,
    U,
    J,
}

/// Register-immediate operations and loads.
#[derive(Debug, Clone, Copy, PartialEq, Eq, Structural)]
pub struct IType {
    /// Opcode, partially identifies the instruction
    pub opcode: u32,
    /// Destination register
    pub rd: u32,
    /// Source register n. 1
    pub rs1: u32,
    /// Immediate, sign-extended to the register width
    pub imm: u32,
    /// Complements the opcode in identifying the instruction
    pub funct3: u32,
}

/// Register-register operations.
#[derive(Debug, Clone, Copy, PartialEq, Eq, Structural)]
pub struct RType {
    /// Opcode, partially identifies the instruction
    pub opcode: u32,
    /// Destination register
    pub rd: u32,
    /// Source register n. 1
    pub rs1: u32,
    /// Source register n. 2
    pub rs2: u32,
    /// Complements the opcode and funct7 in identifying the instruction
    pub funct3: u32,
    /// Complements the opcode and funct3 in identifying the instruction
    pub funct7: u32,
}

/// Stores.
#[derive(Debug, Clone, Copy, PartialEq, Eq, Structural)]
pub struct SType {
    /// Opcode, partially identifies the instruction
    pub opcode: u32,
    /// Source register n. 1 (the base address)
    pub rs1: u32,
    /// Source register n. 2 (the value stored)
    pub rs2: u32,
    /// Immediate, sign-extended to the register width
    pub imm: u32,
    /// Complements the opcode in identifying the instruction
    pub funct3: u32,
}

/// Why a raw word does not decode.
#[derive(Debug, Clone, Copy, PartialEq, Eq, Structural)]
pub enum DecodeError {
    /// The opcode is zero: the conventional end of a program.
    OpcodeZero,
    /// The opcode belongs to no supported format.
    IllegalInstruction,
}

/// The operations that the CPU executes.
#[derive(Debug, Clone, Copy, PartialEq, Eq, Structural)]
pub enum Operation {
    Lb,
    Lh,
    Lw,
    Lbu,
    Lhu,
    Addi,
    Add,
    Sub,
    Sb,
    Sh,
    Sw,
}

pub open spec fn opcode_of(raw: u32) -> u32 {
    raw & 0x7f
}

pub open spec fn rd_of(raw: u32) -> u32 {
    (raw >> 7) & 0x1f
}

pub open spec fn rs1_of(raw: u32) -> u32 {
    (raw >> 15) & 0x1f
}

pub open spec fn rs2_of(raw: u32) -> u32 {
    (raw >> 20) & 0x1f
}

pub open spec fn funct3_of(raw: u32) -> u32 {
    (raw >> 12) & 0x7
}

pub open spec fn funct7_of(raw: u32) -> u32 {
    (raw >> 25) & 0x7f
}

/// A 12-bit field, sign-extended to 32 bits.
pub open spec fn sext12(v: u32) -> u32 {
    if v < 0x800 {
        v
    } else {
        (v + 0xffff_f000) as u32
    }
}

/// The immediate of an I-type word: bits 31..20.
pub open spec fn i_imm_of(raw: u32) -> u32 {
    sext12(raw >> 20)
}

/// The immediate of an S-type word: bits 31..25 above bits 11..7.
pub open spec fn s_imm_of(raw: u32) -> u32 {
    sext12(((raw >> 25) << 5) | ((raw >> 7) & 0x1f))
}

/// What a raw word decodes to.
pub open spec fn spec_decode(raw: u32) -> Result<Instruction, DecodeError> {
    let opcode = opcode_of(raw);
    if opcode == 0x03 || opcode == 0x13 {
        Ok(
            Instruction::I(
                IType {
                    opcode,
                    rd: rd_of(raw),
                    rs1: rs1_of(raw),
                    imm: i_imm_of(raw),
                    funct3: funct3_of(raw),
                },
            ),
        )
    } else if opcode == 0x23 {
        Ok(
            Instruction::S(
                SType {
                    opcode,
                    rs1: rs1_of(raw),
                    rs2: rs2_of(raw),
                    imm: s_imm_of(raw),
                    funct3: funct3_of(raw),
                },
            ),
        )
    } else if opcode == 0x33 {
        Ok(
            Instruction::R(
                RType {
                    opcode,
                    rd: rd_of(raw),
                    rs1: rs1_of(raw),
                    rs2: rs2_of(raw),
                    funct3: funct3_of(raw),
                    funct7: funct7_of(raw),
                },
            ),
        )
    } else if opcode == 0 {
        Err(DecodeError::OpcodeZero)
    } else {
        Err(DecodeError::IllegalInstruction)
    }
}

/// The operation that an instruction stands for, if it is a supported one.
pub open spec fn spec_operation(ins: Instruction) -> Option<Operation> {
    match ins {
        Instruction::I(i) => if i.opcode == 0x03 {
            if i.funct3 == 0 {
                Some(Operation::Lb)
            } else if i.funct3 == 1 {
                Some(Operation::Lh)
            } else if i.funct3 == 2 {
                Some(Operation::Lw)
            } else if i.funct3 == 4 {
                Some(Operation::Lbu)
            } else if i.funct3 == 5 {
                Some(Operation::Lhu)
            } else {
                None
            }
        } else if i.opcode == 0x13 && i.funct3 == 0 {
            Some(Operation::Addi)
        } else {
            None
        },
        Instruction::R(r) => if r.opcode == 0x33 && r.funct3 == 0 && r.funct7 == 0 {
            Some(Operation::Add)
        } else if r.opcode == 0x33 && r.funct3 == 0 && r.funct7 == 0x20 {
            Some(Operation::Sub)
        } else {
            None
        },
        Instruction::S(s) => if s.opcode == 0x23 {
            if s.funct3 == 0 {
                Some(Operation::Sb)
            } else if s.funct3 == 1 {
                Some(Operation::Sh)
            } else if s.funct3 == 2 {
                Some(Operation::Sw)
            } else {
                None
            }
        } else {
            None
        },
        _ => None,
    }
}

/// Register fields fit in five bits, immediates in twelve.
pub proof fn lemma_fields_bounded(raw: u32)
    by (bit_vector)
    ensures
        (raw >> 7) & 0x1f < 32,
        (raw >> 15) & 0x1f < 32,
        (raw >> 20) & 0x1f < 32,
        raw >> 20 < 0x1000,
        ((raw >> 25) << 5) | ((raw >> 7) & 0x1f) < 0x1000,
{
}

impl Instruction {
    /// Register indices are in `0..32`.
    pub open spec fn wf(&self) -> bool {
        match *self {
            Instruction::R(r) => r.rd < 32 && r.rs1 < 32 && r.rs2 < 32,
            Instruction::I(i) => i.rd < 32 && i.rs1 < 32,
            Instruction::S(s) => s.rs1 < 32 && s.rs2 < 32,
            _ => true,
        }
    }

    /// Decodes a raw instruction word.
    pub fn decode(value: u32) -> (r: Result<Self, DecodeError>)
        ensures
            r == spec_decode(value),
            r matches Ok(ins) ==> ins.wf(),
    {
        proof {
            lemma_fields_bounded(value);
        }
        let opcode = value & 0x7f;
        if opcode == 0x03 || opcode == 0x13 {
            let rd = decode_destination_register(value);
            // rs2 has no place in an I-type word
            let (rs1, _) = decode_source_registers(value);
            let imm = sign_extend_12(value >> 20);
            // neither has funct7
            let (funct3, _) = decode_functs(value);
            Ok(Instruction::I(IType { opcode, rd, rs1, imm, funct3 }))
        } else if opcode == 0x23 {
            let (rs1, rs2) = decode_source_registers(value);
            let (funct3, _) = decode_functs(value);
            let imm = sign_extend_12(((value >> 25) << 5) | ((value >> 7) & 0x1f));
            Ok(Instruction::S(SType { opcode, rs1, rs2, imm, funct3 }))
        } else if opcode == 0x33 {
            let rd = decode_destination_register(value);
            let (rs1, rs2) = decode_source_registers(value);
            let (funct3, funct7) = decode_functs(value);
            Ok(Instruction::R(RType { opcode, rd, rs1, rs2, funct3, funct7 }))
        } else if opcode == 0 {
            Err(DecodeError::OpcodeZero)
        } else {
            Err(DecodeError::IllegalInstruction)
        }
    }

    /// The operation this instruction stands for, if it is a supported one.
    pub fn operation(&self) -> (r: Option<Operation>)
        ensures
            r == spec_operation(*self),
    {
        match self {
            Instruction::I(i) => if i.opcode == 0x03 {
                match i.funct3 {
                    0 => Some(Operation::Lb),
                    1 => Some(Operation::Lh),
                    2 => Some(Operation::Lw),
                    4 => Some(Operation::Lbu),
                    5 => Some(Operation::Lhu),
                    _ => None,
                }
            } else if i.opcode == 0x13 && i.funct3 == 0 {
                Some(Operation::Addi)
            } else {
                None
            },
            Instruction::R(r) => if r.opcode == 0x33 && r.funct3 == 0 && r.funct7 == 0 {
                Some(Operation::Add)
            } else if r.opcode == 0x33 && r.funct3 == 0 && r.funct7 == 0x20 {
                Some(Operation::Sub)
            } else {
                None
            },
            Instruction::S(s) => if s.opcode == 0x23 {
                match s.funct3 {
                    0 => Some(Operation::Sb),
                    1 => Some(Operation::Sh),
                    2 => Some(Operation::Sw),
                    _ => None,
                }
            } else {
                None
            },
            _ => None,
        }
    }
}

impl TryFrom<u32> for Instruction {
    type Error = DecodeError;

    /// Same as [`Instruction::decode`].
    fn try_from(value: u32) -> Result<Self, DecodeError> {
        Instruction::decode(value)
    }
}

impl vstd::std_specs::convert::TryFromSpecImpl<u32> for Instruction {
    open spec fn obeys_try_from_spec() -> bool {
        true
    }

    open spec fn try_from_spec(v: u32) -> Result<Self, DecodeError> {
        spec_decode(v)
    }
}

/// Sign-extends a 12-bit field to 32 bits.
fn sign_extend_12(v: u32) -> (r: u32)
    requires
        v < 0x1000,
    ensures
        r == sext12(v),
{
    if v < 0x800 {
        v
    } else {
        v + 0xffff_f000
    }
}

/// Decodes the source register(s) from a raw instruction (rs1 and rs2)
pub fn decode_source_registers(raw_instruction: u32) -> (r: (u32, u32))
    ensures
        r == (rs1_of(raw_instruction), rs2_of(raw_instruction)),
{
    ((raw_instruction >> 15) & 0x1f, (raw_instruction >> 20) & 0x1f)
}

/// Decodes the destination register from a raw instruction (rd)
pub fn decode_destination_register(raw_instruction: u32) -> (r: u32)
    ensures
        r == rd_of(raw_instruction),
{
    (raw_instruction >> 7) & 0x1f
}

/// Decodes the funct3 and funct7 fields from a raw instruction
pub fn decode_functs(raw_instruction: u32) -> (r: (u32, u32))
    ensures
        r == (funct3_of(raw_instruction), funct7_of(raw_instruction)),
{
    ((raw_instruction >> 12) & 0x7, (raw_instruction >> 25) & 0x7f)
}

} // verus!
