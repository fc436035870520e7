use vstd::prelude::*;

verus! {

/// The fields of a 32-bit RISC-V instruction, split by encoding format.
#[derive(Clone, Copy, Debug, PartialEq, Eq, Structural)]
pub enum DecodedInstruction {
    R { op: u8, rd: u8, funct3: u8, rs1: u8, rs2: u8, funct7: u8 },
    I { op: u8, rd: u8, funct3: u8, rs1: u8, imm: i32 },
    S { op: u8, funct3: u8, rs1: u8, rs2: u8, imm: i32 },
    B { op: u8, funct3: u8, rs1: u8, rs2: u8, imm: i32 },
    U { op: u8, rd: u8, imm: i32 },
    J { op: u8, rd: u8, imm: i32 },
}

/// The register-register operations of the base integer set.
#[derive(Clone, Copy, Debug, PartialEq, Eq, Structural)]
pub enum Instruction {
    Add { rd: u8, rs1: u8, rs2: u8 },
    Sub { rd: u8, rs1: u8, rs2: u8 },
    Sll { rd: u8, rs1: u8, rs2: u8 },
    Slt { rd: u8, rs1: u8, rs2: u8 },
    Sltu { rd: u8, rs1: u8, rs2: u8 },
    Xor { rd: u8, rs1: u8, rs2: u8 },
    Srl { rd: u8, rs1: u8, rs2: u8 },
    Sra { rd: u8, rs1: u8, rs2: u8 },
    Or { rd: u8, rs1: u8, rs2: u8 },
    And { rd: u8, rs1: u8, rs2: u8 },
}

/// Why an instruction word could not be decoded or resolved.
#[derive(Clone, Copy, Debug, PartialEq, Eq, Structural)]
pub enum DecodeError {
    Unsupported,
}

} // verus!
