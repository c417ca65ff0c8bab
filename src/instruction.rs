use vstd::prelude::*;

use crate::error::CpuError;

verus! {

/// A decoded instruction. `x` and `y` name registers, `kk` is an 8-bit
/// immediate, `addr` a 12-bit address and `n` a sprite height in rows.
#[derive(Debug, Clone, Copy, PartialEq, Eq, Structural)]
pub enum Instruction {
    Nop,
    Cls,
    Ret,
    Jmp { addr: u16 },
    Call { addr: u16 },
    SeImm { x: u8, kk: u8 },
    SneImm { x: u8, kk: u8 },
    SeReg { x: u8, y: u8 },
    LdImm { x: u8, kk: u8 },
    AddImm { x: u8, kk: u8 },
    LdReg { x: u8, y: u8 },
    Or { x: u8, y: u8 },
    And { x: u8, y: u8 },
    Xor { x: u8, y: u8 },
    AddReg { x: u8, y: u8 },
    Sub { x: u8, y: u8 },
    Shr { x: u8 },
    Subn { x: u8, y: u8 },
    Shl { x: u8 },
    SneReg { x: u8, y: u8 },
    LdI { addr: u16 },
    JmpV0 { addr: u16 },
    Rnd { x: u8, kk: u8 },
    Draw { x: u8, y: u8, n: u8 },
    Skp { x: u8 },
    Sknp { x: u8 },
    LdVxDt { x: u8 },
    LdKey { x: u8 },
    LdDtVx { x: u8 },
    LdStVx { x: u8 },
    AddI { x: u8 },
    LdFont { x: u8 },
    Bcd { x: u8 },
    Store { x: u8 },
    Load { x: u8 },
}

/// Most significant nibble of an instruction word.
pub open spec fn nib1(op: u16) -> u8 {
    (op / 4096) as u8
}

/// Second nibble: the `x` register.
pub open spec fn nib2(op: u16) -> u8 {
    ((op / 256) % 16) as u8
}

/// Third nibble: the `y` register.
pub open spec fn nib3(op: u16) -> u8 {
    ((op / 16) % 16) as u8
}

/// Least significant nibble.
pub open spec fn nib4(op: u16) -> u8 {
    (op % 16) as u8
}

/// The low twelve bits: an address.
pub open spec fn addr_of(op: u16) -> u16 {
    op % 4096
}

/// The low eight bits: an immediate byte.
pub open spec fn byte_of(op: u16) -> u8 {
    (op % 256) as u8
}

impl Instruction {
    /// Register indices below 16, addresses below 4096, heights below 16:
    /// what every decoded instruction satisfies.
    pub open spec fn wf(self) -> bool {
        match self {
            Instruction::Jmp { addr } | Instruction::Call { addr } | Instruction::LdI { addr }
            | Instruction::JmpV0 { addr } => addr < 4096,
            Instruction::SeImm { x, .. } | Instruction::SneImm { x, .. }
            | Instruction::LdImm { x, .. } | Instruction::AddImm { x, .. }
            | Instruction::Rnd { x, .. } | Instruction::Shr { x } | Instruction::Shl { x }
            | Instruction::Skp { x } | Instruction::Sknp { x } | Instruction::LdVxDt { x }
            | Instruction::LdKey { x } | Instruction::LdDtVx { x } | Instruction::LdStVx { x }
            | Instruction::AddI { x } | Instruction::LdFont { x } | Instruction::Bcd { x }
            | Instruction::Store { x } | Instruction::Load { x } => x < 16,
            Instruction::SeReg { x, y } | Instruction::LdReg { x, y } | Instruction::Or { x, y }
            | Instruction::And { x, y } | Instruction::Xor { x, y } | Instruction::AddReg { x, y }
            | Instruction::Sub { x, y } | Instruction::Subn { x, y }
            | Instruction::SneReg { x, y } => x < 16 && y < 16,
            Instruction::Draw { x, y, n } => x < 16 && y < 16 && n < 16,
            _ => true,
        }
    }
}

/// The instruction table: which instruction a 16-bit word encodes, or
/// `UnknownOpcode` where it matches no form.
pub open spec fn decode_spec(op: u16) -> Result<Instruction, CpuError> {
    let (f1, f2, f3, f4) = (nib1(op), nib2(op), nib3(op), nib4(op));
    let (x, y, kk, addr) = (f2, f3, byte_of(op), addr_of(op));
    if op == 0x0000 {
        Ok(Instruction::Nop)
    } else if op == 0x00E0 {
        Ok(Instruction::Cls)
    } else if op == 0x00EE {
        Ok(Instruction::Ret)
    } else if f1 == 1 {
        Ok(Instruction::Jmp { addr })
    } else if f1 == 2 {
        Ok(Instruction::Call { addr })
    } else if f1 == 3 {
        Ok(Instruction::SeImm { x, kk })
    } else if f1 == 4 {
        Ok(Instruction::SneImm { x, kk })
    } else if f1 == 5 && f4 == 0 {
        Ok(Instruction::SeReg { x, y })
    } else if f1 == 6 {
        Ok(Instruction::LdImm { x, kk })
    } else if f1 == 7 {
        Ok(Instruction::AddImm { x, kk })
    } else if f1 == 8 && f4 == 0 {
        Ok(Instruction::LdReg { x, y })
    } else if f1 == 8 && f4 == 1 {
        Ok(Instruction::Or { x, y })
    } else if f1 == 8 && f4 == 2 {
        Ok(Instruction::And { x, y })
    } else if f1 == 8 && f4 == 3 {
        Ok(Instruction::Xor { x, y })
    } else if f1 == 8 && f4 == 4 {
        Ok(Instruction::AddReg { x, y })
    } else if f1 == 8 && f4 == 5 {
        Ok(Instruction::Sub { x, y })
    } else if f1 == 8 && f4 == 6 {
        Ok(Instruction::Shr { x })
    } else if f1 == 8 && f4 == 7 {
        Ok(Instruction::Subn { x, y })
    } else if f1 == 8 && f4 == 0xE {
        Ok(Instruction::Shl { x })
    } else if f1 == 9 && f4 == 0 {
        Ok(Instruction::SneReg { x, y })
    } else if f1 == 0xA {
        Ok(Instruction::LdI { addr })
    } else if f1 == 0xB {
        Ok(Instruction::JmpV0 { addr })
    } else if f1 == 0xC {
        Ok(Instruction::Rnd { x, kk })
    } else if f1 == 0xD {
        Ok(Instruction::Draw { x, y, n: f4 })
    } else if f1 == 0xE && kk == 0x9E {
        Ok(Instruction::Skp { x })
    } else if f1 == 0xE && kk == 0xA1 {
        Ok(Instruction::Sknp { x })
    } else if f1 == 0xF && kk == 0x07 {
        Ok(Instruction::LdVxDt { x })
    } else if f1 == 0xF && kk == 0x0A {
        Ok(Instruction::LdKey { x })
    } else if f1 == 0xF && kk == 0x15 {
        Ok(Instruction::LdDtVx { x })
    } else if f1 == 0xF && kk == 0x18 {
        Ok(Instruction::LdStVx { x })
    } else if f1 == 0xF && kk == 0x1E {
        Ok(Instruction::AddI { x })
    } else if f1 == 0xF && kk == 0x29 {
        Ok(Instruction::LdFont { x })
    } else if f1 == 0xF && kk == 0x33 {
        Ok(Instruction::Bcd { x })
    } else if f1 == 0xF && kk == 0x55 {
        Ok(Instruction::Store { x })
    } else if f1 == 0xF && kk == 0x65 {
        Ok(Instruction::Load { x })
    } else {
        Err(CpuError::UnknownOpcode(op))
    }
}

/// Splits an instruction word into its fields and names the instruction.
pub fn decode(op: u16) -> (r: Result<Instruction, CpuError>)
    ensures
        r == decode_spec(op),
        r matches Ok(ins) ==> ins.wf(),
{
    let f1: u8 = (op / 4096) as u8;
    let x: u8 = ((op / 256) % 16) as u8;
    let y: u8 = ((op / 16) % 16) as u8;
    let f4: u8 = (op % 16) as u8;
    let kk: u8 = (op % 256) as u8;
    let addr: u16 = op % 4096;
    if op == 0x0000 {
        Ok(Instruction::Nop)
    } else if op == 0x00E0 {
        Ok(Instruction::Cls)
    } else if op == 0x00EE {
        Ok(Instruction::Ret)
    } else if f1 == 1 {
        Ok(Instruction::Jmp { addr })
    } else if f1 == 2 {
        Ok(Instruction::Call { addr })
    } else if f1 == 3 {
        Ok(Instruction::SeImm { x, kk })
    } else if f1 == 4 {
        Ok(Instruction::SneImm { x, kk })
    } else if f1 == 5 && f4 == 0 {
        Ok(Instruction::SeReg { x, y })
    } else if f1 == 6 {
        Ok(Instruction::LdImm { x, kk })
    } else if f1 == 7 {
        Ok(Instruction::AddImm { x, kk })
    } else if f1 == 8 {
        match f4 {
            0 => Ok(Instruction::LdReg { x, y }),
            1 => Ok(Instruction::Or { x, y }),
            2 => Ok(Instruction::And { x, y }),
            3 => Ok(Instruction::Xor { x, y }),
            4 => Ok(Instruction::AddReg { x, y }),
            5 => Ok(Instruction::Sub { x, y }),
            6 => Ok(Instruction::Shr { x }),
            7 => Ok(Instruction::Subn { x, y }),
            0xE => Ok(Instruction::Shl { x }),
            _ => Err(CpuError::UnknownOpcode(op)),
        }
    } else if f1 == 9 && f4 == 0 {
        Ok(Instruction::SneReg { x, y })
    } else if f1 == 0xA {
        Ok(Instruction::LdI { addr })
    } else if f1 == 0xB {
        Ok(Instruction::JmpV0 { addr })
    } else if f1 == 0xC {
        Ok(Instruction::Rnd { x, kk })
    } else if f1 == 0xD {
        Ok(Instruction::Draw { x, y, n: f4 })
    } else if f1 == 0xE && kk == 0x9E {
        Ok(Instruction::Skp { x })
    } else if f1 == 0xE && kk == 0xA1 {
        Ok(Instruction::Sknp { x })
    } else if f1 == 0xF {
        match kk {
            0x07 => Ok(Instruction::LdVxDt { x }),
            0x0A => Ok(Instruction::LdKey { x }),
            0x15 => Ok(Instruction::LdDtVx { x }),
            0x18 => Ok(Instruction::LdStVx { x }),
            0x1E => Ok(Instruction::AddI { x }),
            0x29 => Ok(Instruction::LdFont { x }),
            0x33 => Ok(Instruction::Bcd { x }),
            0x55 => Ok(Instruction::Store { x }),
            0x65 => Ok(Instruction::Load { x }),
            _ => Err(CpuError::UnknownOpcode(op)),
        }
    } else {
        Err(CpuError::UnknownOpcode(op))
    }
}

} // verus!
