use emu::cpu::constants::{
    decode_destination_register, decode_functs, decode_source_registers, DecodeError,
    IType, Instruction, Operation, RType, SType,
};

#[test]
fn decode_addi_fields() {
    // addi x2, x0, 16
    let ins = Instruction::decode(0x0100_0113);
    assert_eq!(
        ins,
        Ok(Instruction::I(IType { opcode: 0x13, rd: 2, rs1: 0, imm: 16, funct3: 0 }))
    );
}

#[test]
fn decode_i_type_negative_immediate() {
    // addi x1, x0, -1
    match Instruction::decode(0xfff0_0093) {
        Ok(Instruction::I(i)) => {
            assert_eq!(i.imm, 0xffff_ffff);
            assert_eq!(i.rd, 1);
        }
        other => panic!("unexpected {:?}", other),
    }
    // addi x5, x0, -2048
    match Instruction::decode(0x8000_0293) {
        Ok(Instruction::I(i)) => assert_eq!(i.imm, 0xffff_f800),
        other => panic!("unexpected {:?}", other),
    }
    // addi x5, x0, 2047
    match Instruction::decode(0x7ff0_0293) {
        Ok(Instruction::I(i)) => assert_eq!(i.imm, 0x7ff),
        other => panic!("unexpected {:?}", other),
    }
}

#[test]
fn decode_load_is_i_type() {
    // lb x3, 10(x1)
    assert_eq!(
        Instruction::decode(0x00a0_8183),
        Ok(Instruction::I(IType { opcode: 0x03, rd: 3, rs1: 1, imm: 10, funct3: 0 }))
    );
}

#[test]
fn decode_s_type_split_immediate() {
    // sw x2, -4(x1)
    assert_eq!(
        Instruction::decode(0xfe20_ae23),
        Ok(Instruction::S(SType { opcode: 0x23, rs1: 1, rs2: 2, imm: 0xffff_fffc, funct3: 2 }))
    );
    // sb x5, 37(x6): imm = 0b0000001_00101
    assert_eq!(
        Instruction::decode((1 << 25) | (5 << 20) | (6 << 15) | (5 << 7) | 0x23),
        Ok(Instruction::S(SType { opcode: 0x23, rs1: 6, rs2: 5, imm: 37, funct3: 0 }))
    );
}

#[test]
fn decode_r_type_sub() {
    // sub x3, x1, x2
    assert_eq!(
        Instruction::decode(0x4020_81b3),
        Ok(Instruction::R(RType { opcode: 0x33, rd: 3, rs1: 1, rs2: 2, funct3: 0, funct7: 0x20 }))
    );
}

#[test]
fn decode_funct7_keeps_top_bit() {
    let (funct3, funct7) = decode_functs(0xfe00_7033);
    assert_eq!(funct3, 7);
    assert_eq!(funct7, 0x7f);
}

#[test]
fn decode_opcode_zero() {
    assert_eq!(Instruction::decode(0), Err(DecodeError::OpcodeZero));
    // upper bits set, opcode still zero
    assert_eq!(Instruction::decode(0xffff_ff80), Err(DecodeError::OpcodeZero));
}

#[test]
fn decode_unsupported_opcode() {
    assert_eq!(Instruction::decode(0x0000_007f), Err(DecodeError::IllegalInstruction));
    // jal
    assert_eq!(Instruction::decode(0x0000_006f), Err(DecodeError::IllegalInstruction));
}

#[test]
fn decode_is_repeatable() {
    for raw in [0x0100_0113u32, 0xfe20_ae23, 0x4020_81b3, 0, 0x7f] {
        assert_eq!(Instruction::decode(raw), Instruction::decode(raw));
    }
}

#[test]
fn register_field_helpers() {
    let raw = (31 << 20) | (17 << 15) | (9 << 7) | 0x33;
    assert_eq!(decode_source_registers(raw), (17, 31));
    assert_eq!(decode_destination_register(raw), 9);
}

#[test]
fn operations_by_encoding() {
    let op = |raw: u32| Instruction::decode(raw).unwrap().operation();
    assert_eq!(op(0x0100_0113), Some(Operation::Addi));
    assert_eq!(op(0x00a0_8183), Some(Operation::Lb));
    assert_eq!(op(0x00a0_c183), Some(Operation::Lbu));
    assert_eq!(op(0x0020_81b3), Some(Operation::Add));
    assert_eq!(op(0x4020_81b3), Some(Operation::Sub));
    assert_eq!(op(0x0020_a023), Some(Operation::Sw));
    // slli is not supported
    assert_eq!(op(0x0010_1093), None);
    // sub with a wrong funct7
    assert_eq!(op(0x2020_81b3), None);
    assert_eq!(Instruction::B.operation(), None);
}

#[test]
fn try_from_agrees_with_decode() {
    for raw in [0x0100_0113u32, 0xfe20_ae23, 0x4020_81b3, 0, 0x7f] {
        assert_eq!(Instruction::try_from(raw), Instruction::decode(raw));
    }
}
