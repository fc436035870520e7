use vstd::prelude::*;

use crate::isa::instructions::{DecodeError, DecodedInstruction, Instruction};

verus! {

/// The opcode of the register-register format.
pub const OP_REG: u8 = 0b0110011;

/// The bits `lo .. lo + width` of an instruction word, as a small integer.
pub open spec fn field(word: u32, lo: u32, mask: u32) -> u8 {
    ((word >> lo) & mask) as u8
}

/// What an instruction word decodes to, where its opcode is supported.
pub open spec fn decoded(word: u32) -> Option<DecodedInstruction> {
    if field(word, 0, 0x7f) == OP_REG {
        Some(
            DecodedInstruction::R {
                op: field(word, 0, 0x7f),
                rd: field(word, 7, 0x1f),
                funct3: field(word, 12, 0x07),
                rs1: field(word, 15, 0x1f),
                rs2: field(word, 20, 0x1f),
                funct7: field(word, 25, 0x7f),
            },
        )
    } else {
        None
    }
}

/// The operation selected by `funct3` and `funct7`, where the pair names one.
pub open spec fn operation(funct3: u8, funct7: u8, rd: u8, rs1: u8, rs2: u8) -> Option<Instruction> {
    if funct7 == 0 {
        if funct3 == 0 {
            Some(Instruction::Add { rd, rs1, rs2 })
        } else if funct3 == 1 {
            Some(Instruction::Sll { rd, rs1, rs2 })
        } else if funct3 == 2 {
            Some(Instruction::Slt { rd, rs1, rs2 })
        } else if funct3 == 3 {
            Some(Instruction::Sltu { rd, rs1, rs2 })
        } else if funct3 == 4 {
            Some(Instruction::Xor { rd, rs1, rs2 })
        } else if funct3 == 5 {
            Some(Instruction::Srl { rd, rs1, rs2 })
        } else if funct3 == 6 {
            Some(Instruction::Or { rd, rs1, rs2 })
        } else if funct3 == 7 {
            Some(Instruction::And { rd, rs1, rs2 })
        } else {
            None
        }
    } else if funct7 == 0b0100000 {
        if funct3 == 0 {
            Some(Instruction::Sub { rd, rs1, rs2 })
        } else if funct3 == 5 {
            Some(Instruction::Sra { rd, rs1, rs2 })
        } else {
            None
        }
    } else {
        None
    }
}

/// The operation that a decoded instruction names, where it names one.
pub open spec fn resolved(d: DecodedInstruction) -> Option<Instruction> {
    match d {
        DecodedInstruction::R { rd, funct3, rs1, rs2, funct7, .. } => operation(funct3, funct7, rd, rs1, rs2),
        _ => None,
    }
}

/// Splits a word of the register-register format into its fields; any other
/// opcode is unsupported.
pub fn decode(instruction: u32) -> (r: Result<DecodedInstruction, DecodeError>)
    ensures
        decoded(instruction) matches Some(d) ==> r == Ok::<DecodedInstruction, DecodeError>(d),
        decoded(instruction) is None ==> r == Err::<DecodedInstruction, DecodeError>(DecodeError::Unsupported),
{
    let op = (instruction & 0x7f) as u8;
    assert(instruction >> 0 == instruction) by (bit_vector);
    if op == OP_REG {
        let rd = ((instruction >> 7) & 0x1f) as u8;
        let funct3 = ((instruction >> 12) & 0x07) as u8;
        let rs1 = ((instruction >> 15) & 0x1f) as u8;
        let rs2 = ((instruction >> 20) & 0x1f) as u8;
        let funct7 = ((instruction >> 25) & 0x7f) as u8;
        Ok(DecodedInstruction::R { op, rd, funct3, rs1, rs2, funct7 })
    } else {
        Err(DecodeError::Unsupported)
    }
}

/// Names the operation of a decoded register-register instruction; other formats,
/// and field pairs that name no operation, are unsupported.
pub fn resolve(decoded: DecodedInstruction) -> (r: Result<Instruction, DecodeError>)
    ensures
        resolved(decoded) matches Some(i) ==> r == Ok::<Instruction, DecodeError>(i),
        resolved(decoded) is None ==> r == Err::<Instruction, DecodeError>(DecodeError::Unsupported),
{
    match decoded {
        DecodedInstruction::R { rd, funct3, rs1, rs2, funct7, .. } => {
            if funct7 == 0 {
                match funct3 {
                    0 => Ok(Instruction::Add { rd, rs1, rs2 }),
                    1 => Ok(Instruction::Sll { rd, rs1, rs2 }),
                    2 => Ok(Instruction::Slt { rd, rs1, rs2 }),
                    3 => Ok(Instruction::Sltu { rd, rs1, rs2 }),
                    4 => Ok(Instruction::Xor { rd, rs1, rs2 }),
                    5 => Ok(Instruction::Srl { rd, rs1, rs2 }),
                    6 => Ok(Instruction::Or { rd, rs1, rs2 }),
                    7 => Ok(Instruction::And { rd, rs1, rs2 }),
                    _ => Err(DecodeError::Unsupported),
                }
            } else if funct7 == 0b0100000 {
                match funct3 {
                    0 => Ok(Instruction::Sub { rd, rs1, rs2 }),
                    5 => Ok(Instruction::Sra { rd, rs1, rs2 }),
                    _ => Err(DecodeError::Unsupported),
                }
            } else {
                Err(DecodeError::Unsupported)
            }
        },
        _ => Err(DecodeError::Unsupported),
    }
}

} // verus!
