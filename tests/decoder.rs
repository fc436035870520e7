use neurorisc::isa::decoder::{decode, resolve};
use neurorisc::isa::instructions::{DecodeError, DecodedInstruction, Instruction};

fn r_type(funct7: u32, rs2: u32, rs1: u32, funct3: u32, rd: u32) -> u32 {
    (funct7 << 25) | (rs2 << 20) | (rs1 << 15) | (funct3 << 12) | (rd << 7) | 0b0110011
}

#[test]
fn decode_splits_register_format() {
    let w = r_type(0b0100000, 3, 2, 0, 1);
    assert_eq!(
        decode(w),
        Ok(DecodedInstruction::R { op: 0b0110011, rd: 1, funct3: 0, rs1: 2, rs2: 3, funct7: 0b0100000 })
    );
}

#[test]
fn decode_rejects_other_opcodes() {
    assert_eq!(decode(0x0000_0013), Err(DecodeError::Unsupported));
    assert_eq!(decode(0), Err(DecodeError::Unsupported));
}

#[test]
fn resolve_names_operations() {
    let ops = [
        (0, 0, Instruction::Add { rd: 5, rs1: 6, rs2: 7 }),
        (0b0100000, 0, Instruction::Sub { rd: 5, rs1: 6, rs2: 7 }),
        (0, 1, Instruction::Sll { rd: 5, rs1: 6, rs2: 7 }),
        (0, 2, Instruction::Slt { rd: 5, rs1: 6, rs2: 7 }),
        (0, 3, Instruction::Sltu { rd: 5, rs1: 6, rs2: 7 }),
        (0, 4, Instruction::Xor { rd: 5, rs1: 6, rs2: 7 }),
        (0, 5, Instruction::Srl { rd: 5, rs1: 6, rs2: 7 }),
        (0b0100000, 5, Instruction::Sra { rd: 5, rs1: 6, rs2: 7 }),
        (0, 6, Instruction::Or { rd: 5, rs1: 6, rs2: 7 }),
        (0, 7, Instruction::And { rd: 5, rs1: 6, rs2: 7 }),
    ];
    for (f7, f3, expected) in ops {
        let d = decode(r_type(f7, 7, 6, f3, 5)).unwrap();
        assert_eq!(resolve(d), Ok(expected));
    }
}

#[test]
fn resolve_rejects_unknown_fields() {
    let d = decode(r_type(0b0100000, 1, 1, 1, 1)).unwrap();
    assert_eq!(resolve(d), Err(DecodeError::Unsupported));
    let d = decode(r_type(1, 1, 1, 0, 1)).unwrap();
    assert_eq!(resolve(d), Err(DecodeError::Unsupported));
    let i = DecodedInstruction::I { op: 0b0010011, rd: 1, funct3: 0, rs1: 1, imm: 4 };
    assert_eq!(resolve(i), Err(DecodeError::Unsupported));
}
