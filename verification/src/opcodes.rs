use vstd::prelude::*;

use crate::cpu::MachineError;

verus! {

/// The 35 CHIP-8 instructions, tagged by the opcode pattern that selects them.
#[derive(Debug, Clone, Copy, PartialEq, Eq, Structural)]
#[allow(non_camel_case_types)]
pub enum Instruction {
    SysAddressJump_0x0NNN,
    ClearDisplay_0x00E0,
    RetFromSubroutine_0x00EE,
    JumpLocation_0x1NNN,
    CallSubroutine_0x2NNN,
    SkipInstrIfVxEqPL_0x3XNN,
    SkipInstrIfVxNotEqPL_0x4XNN,
    SkipInstrIfVxVy_0x5XY0,
    SetVxToPL_0x6XNN,
    IncrementVxByPL_0x7XNN,
    SetVxToVy_0x8XY0,
    SetVxToVxORVy_0x8XY1,
    SetVxToVxANDVy_0x8XY2,
    SetVxToVxXORVy_0x8XY3,
    IncrementVxByVyAndCarry_0x8XY4,
    DecrementVxByVyNoBorrow_0x8XY5,
    ShiftAndRotateVxRight_0x8XY6,
    DecrementVyByVxNoBorrow_0x8XY7,
    ShiftAndRotateVxLeft_0x8XYE,
    SkipInstrIfVxNotVy_0x9XY0,
    SetIndexRegToPL_0xANNN,
    JumpToV0PlusPL_0xBNNN,
    SetVxRandByteANDPL_0xCXNN,
    DisplaySpriteSetVfColl_0xDXYN,
    SkipInstrIfVxPressed_0xEX9E,
    SkipInstrIfVxNotPressed_0xEXA1,
    SetVxToDelayTimerVal_0xFX07,
    WaitForKeyStoreInVx_0xFX0A,
    SetDelayTimerToVx_0xFX15,
    SetSoundTimerToVx_0xFX18,
    IncrementIndexRegByVx_0xFX1E,
    SetIndexRegToVxSprite_0xFX29,
    StoreBCDOfVxIn3Bytes_0xFX33,
    StoreRegsUptoVx_0xFX55,
    ReadRegsUptoVx_0xFX65,
}

/// The instruction selected by a 16-bit opcode word, or `None` when the word
/// matches no instruction. Classification is by the leading nibble, with a
/// secondary dispatch on the trailing byte or nibble for the 0x0, 0x8, 0xE
/// and 0xF classes.
pub open spec fn spec_parse(code: u16) -> Option<Instruction> {
    let hi = code & 0xF000;
    if hi == 0x0000 {
        let lo = code & 0x00FF;
        if lo == 0xE0 {
            Some(Instruction::ClearDisplay_0x00E0)
        } else if lo == 0xEE {
            Some(Instruction::RetFromSubroutine_0x00EE)
        } else {
            Some(Instruction::SysAddressJump_0x0NNN)
        }
    } else if hi == 0x1000 {
        Some(Instruction::JumpLocation_0x1NNN)
    } else if hi == 0x2000 {
        Some(Instruction::CallSubroutine_0x2NNN)
    } else if hi == 0x3000 {
        Some(Instruction::SkipInstrIfVxEqPL_0x3XNN)
    } else if hi == 0x4000 {
        Some(Instruction::SkipInstrIfVxNotEqPL_0x4XNN)
    } else if hi == 0x5000 {
        Some(Instruction::SkipInstrIfVxVy_0x5XY0)
    } else if hi == 0x6000 {
        Some(Instruction::SetVxToPL_0x6XNN)
    } else if hi == 0x7000 {
        Some(Instruction::IncrementVxByPL_0x7XNN)
    } else if hi == 0x8000 {
        let lo = code & 0x000F;
        if lo == 0x0 {
            Some(Instruction::SetVxToVy_0x8XY0)
        } else if lo == 0x1 {
            Some(Instruction::SetVxToVxORVy_0x8XY1)
        } else if lo == 0x2 {
            Some(Instruction::SetVxToVxANDVy_0x8XY2)
        } else if lo == 0x3 {
            Some(Instruction::SetVxToVxXORVy_0x8XY3)
        } else if lo == 0x4 {
            Some(Instruction::IncrementVxByVyAndCarry_0x8XY4)
        } else if lo == 0x5 {
            Some(Instruction::DecrementVxByVyNoBorrow_0x8XY5)
        } else if lo == 0x6 {
            Some(Instruction::ShiftAndRotateVxRight_0x8XY6)
        } else if lo == 0x7 {
            Some(Instruction::DecrementVyByVxNoBorrow_0x8XY7)
        } else if lo == 0xE {
            Some(Instruction::ShiftAndRotateVxLeft_0x8XYE)
        } else {
            None
        }
    } else if hi == 0x9000 {
        Some(Instruction::SkipInstrIfVxNotVy_0x9XY0)
    } else if hi == 0xA000 {
        Some(Instruction::SetIndexRegToPL_0xANNN)
    } else if hi == 0xB000 {
        Some(Instruction::JumpToV0PlusPL_0xBNNN)
    } else if hi == 0xC000 {
        Some(Instruction::SetVxRandByteANDPL_0xCXNN)
    } else if hi == 0xD000 {
        Some(Instruction::DisplaySpriteSetVfColl_0xDXYN)
    } else if hi == 0xE000 {
        let lo = code & 0x00FF;
        if lo == 0x9E {
            Some(Instruction::SkipInstrIfVxPressed_0xEX9E)
        } else if lo == 0xA1 {
            Some(Instruction::SkipInstrIfVxNotPressed_0xEXA1)
        } else {
            None
        }
    } else if hi == 0xF000 {
        let lo = code & 0x00FF;
        if lo == 0x07 {
            Some(Instruction::SetVxToDelayTimerVal_0xFX07)
        } else if lo == 0x0A {
            Some(Instruction::WaitForKeyStoreInVx_0xFX0A)
        } else if lo == 0x15 {
            Some(Instruction::SetDelayTimerToVx_0xFX15)
        } else if lo == 0x18 {
            Some(Instruction::SetSoundTimerToVx_0xFX18)
        } else if lo == 0x1E {
            Some(Instruction::IncrementIndexRegByVx_0xFX1E)
        } else if lo == 0x29 {
            Some(Instruction::SetIndexRegToVxSprite_0xFX29)
        } else if lo == 0x33 {
            Some(Instruction::StoreBCDOfVxIn3Bytes_0xFX33)
        } else if lo == 0x55 {
            Some(Instruction::StoreRegsUptoVx_0xFX55)
        } else if lo == 0x65 {
            Some(Instruction::ReadRegsUptoVx_0xFX65)
        } else {
            None
        }
    } else {
        None
    }
}

/// Classify a 16-bit opcode word. Decoding is total: every word yields either
/// exactly one instruction or the `UnknownOpcode` error carrying the word;
/// unknown words are never treated as a no-op.
pub fn parse_opcode(code: u16) -> (r: Result<Instruction, MachineError>)
    ensures
        spec_parse(code) matches Some(i) ==> r == Ok::<Instruction, MachineError>(i),
        spec_parse(code) is None ==> r == Err::<Instruction, MachineError>(
            MachineError::UnknownOpcode(code),
        ),
{
    match code & 0xF000 {
        0x0000 => match code & 0x00FF {
            0xE0 => Ok(Instruction::ClearDisplay_0x00E0),
            0xEE => Ok(Instruction::RetFromSubroutine_0x00EE),
            _ => Ok(Instruction::SysAddressJump_0x0NNN),
        },
        0x1000 => Ok(Instruction::JumpLocation_0x1NNN),
        0x2000 => Ok(Instruction::CallSubroutine_0x2NNN),
        0x3000 => Ok(Instruction::SkipInstrIfVxEqPL_0x3XNN),
        0x4000 => Ok(Instruction::SkipInstrIfVxNotEqPL_0x4XNN),
        0x5000 => Ok(Instruction::SkipInstrIfVxVy_0x5XY0),
        0x6000 => Ok(Instruction::SetVxToPL_0x6XNN),
        0x7000 => Ok(Instruction::IncrementVxByPL_0x7XNN),
        0x8000 => match code & 0x000F {
            0x0 => Ok(Instruction::SetVxToVy_0x8XY0),
            0x1 => Ok(Instruction::SetVxToVxORVy_0x8XY1),
            0x2 => Ok(Instruction::SetVxToVxANDVy_0x8XY2),
            0x3 => Ok(Instruction::SetVxToVxXORVy_0x8XY3),
            0x4 => Ok(Instruction::IncrementVxByVyAndCarry_0x8XY4),
            0x5 => Ok(Instruction::DecrementVxByVyNoBorrow_0x8XY5),
            0x6 => Ok(Instruction::ShiftAndRotateVxRight_0x8XY6),
            0x7 => Ok(Instruction::DecrementVyByVxNoBorrow_0x8XY7),
            0xE => Ok(Instruction::ShiftAndRotateVxLeft_0x8XYE),
            _ => Err(MachineError::UnknownOpcode(code)),
        },
        0x9000 => Ok(Instruction::SkipInstrIfVxNotVy_0x9XY0),
        0xA000 => Ok(Instruction::SetIndexRegToPL_0xANNN),
        0xB000 => Ok(Instruction::JumpToV0PlusPL_0xBNNN),
        0xC000 => Ok(Instruction::SetVxRandByteANDPL_0xCXNN),
        0xD000 => Ok(Instruction::DisplaySpriteSetVfColl_0xDXYN),
        0xE000 => match code & 0x00FF {
            0x9E => Ok(Instruction::SkipInstrIfVxPressed_0xEX9E),
            0xA1 => Ok(Instruction::SkipInstrIfVxNotPressed_0xEXA1),
            _ => Err(MachineError::UnknownOpcode(code)),
        },
        0xF000 => match code & 0x00FF {
            0x07 => Ok(Instruction::SetVxToDelayTimerVal_0xFX07),
            0x0A => Ok(Instruction::WaitForKeyStoreInVx_0xFX0A),
            0x15 => Ok(Instruction::SetDelayTimerToVx_0xFX15),
            0x18 => Ok(Instruction::SetSoundTimerToVx_0xFX18),
            0x1E => Ok(Instruction::IncrementIndexRegByVx_0xFX1E),
            0x29 => Ok(Instruction::SetIndexRegToVxSprite_0xFX29),
            0x33 => Ok(Instruction::StoreBCDOfVxIn3Bytes_0xFX33),
            0x55 => Ok(Instruction::StoreRegsUptoVx_0xFX55),
            0x65 => Ok(Instruction::ReadRegsUptoVx_0xFX65),
            _ => Err(MachineError::UnknownOpcode(code)),
        },
        _ => Err(MachineError::UnknownOpcode(code)),
    }
}

/// The one leading-nibble class (the value of `word & 0xF000`) that can
/// produce each instruction.
pub open spec fn class_nibble(i: Instruction) -> u16 {
    match i {
        Instruction::SysAddressJump_0x0NNN => 0x0000,
        Instruction::ClearDisplay_0x00E0 => 0x0000,
        Instruction::RetFromSubroutine_0x00EE => 0x0000,
        Instruction::JumpLocation_0x1NNN => 0x1000,
        Instruction::CallSubroutine_0x2NNN => 0x2000,
        Instruction::SkipInstrIfVxEqPL_0x3XNN => 0x3000,
        Instruction::SkipInstrIfVxNotEqPL_0x4XNN => 0x4000,
        Instruction::SkipInstrIfVxVy_0x5XY0 => 0x5000,
        Instruction::SetVxToPL_0x6XNN => 0x6000,
        Instruction::IncrementVxByPL_0x7XNN => 0x7000,
        Instruction::SetVxToVy_0x8XY0 => 0x8000,
        Instruction::SetVxToVxORVy_0x8XY1 => 0x8000,
        Instruction::SetVxToVxANDVy_0x8XY2 => 0x8000,
        Instruction::SetVxToVxXORVy_0x8XY3 => 0x8000,
        Instruction::IncrementVxByVyAndCarry_0x8XY4 => 0x8000,
        Instruction::DecrementVxByVyNoBorrow_0x8XY5 => 0x8000,
        Instruction::ShiftAndRotateVxRight_0x8XY6 => 0x8000,
        Instruction::DecrementVyByVxNoBorrow_0x8XY7 => 0x8000,
        Instruction::ShiftAndRotateVxLeft_0x8XYE => 0x8000,
        Instruction::SkipInstrIfVxNotVy_0x9XY0 => 0x9000,
        Instruction::SetIndexRegToPL_0xANNN => 0xA000,
        Instruction::JumpToV0PlusPL_0xBNNN => 0xB000,
        Instruction::SetVxRandByteANDPL_0xCXNN => 0xC000,
        Instruction::DisplaySpriteSetVfColl_0xDXYN => 0xD000,
        Instruction::SkipInstrIfVxPressed_0xEX9E => 0xE000,
        Instruction::SkipInstrIfVxNotPressed_0xEXA1 => 0xE000,
        Instruction::SetVxToDelayTimerVal_0xFX07 => 0xF000,
        Instruction::WaitForKeyStoreInVx_0xFX0A => 0xF000,
        Instruction::SetDelayTimerToVx_0xFX15 => 0xF000,
        Instruction::SetSoundTimerToVx_0xFX18 => 0xF000,
        Instruction::IncrementIndexRegByVx_0xFX1E => 0xF000,
        Instruction::SetIndexRegToVxSprite_0xFX29 => 0xF000,
        Instruction::StoreBCDOfVxIn3Bytes_0xFX33 => 0xF000,
        Instruction::StoreRegsUptoVx_0xFX55 => 0xF000,
        Instruction::ReadRegsUptoVx_0xFX65 => 0xF000,
    }
}

/// Decoding is total and unambiguous: every word maps to exactly one variant
/// or to none (`parse_opcode` then returns `UnknownOpcode`), and no variant
/// can arise from two different leading-nibble classes — whenever a word
/// decodes to an instruction, the word's leading nibble is that instruction's
/// one class.
pub proof fn lemma_decode_classes_disjoint(w: u16)
    ensures
        spec_parse(w) matches Some(i) ==> (w & 0xF000) == class_nibble(i),
{
}

/// The nibble fields of an opcode word.
pub open spec fn op_x(w: u16) -> u16 {
    (w >> 8) & 0xF
}

pub open spec fn op_y(w: u16) -> u16 {
    (w >> 4) & 0xF
}

pub open spec fn op_z(w: u16) -> u16 {
    w & 0xF
}

pub open spec fn op_yz(w: u16) -> u16 {
    w & 0xFF
}

pub open spec fn op_xyz(w: u16) -> u16 {
    w & 0xFFF
}

/// Ranges of the opcode fields, forced by their bit masks.
pub proof fn lemma_field_bounds(w: u16)
    by (bit_vector)
    ensures
        op_x(w) < 16,
        op_y(w) < 16,
        op_z(w) < 16,
        op_yz(w) < 256,
        op_xyz(w) < 4096,
{
}

/// The big-endian opcode word formed by two bytes.
pub open spec fn word_of(b1: u8, b2: u8) -> u16 {
    (b1 as u16) << 8 | (b2 as u16)
}

/// A 16-bit opcode word together with the instruction it decodes to.
pub struct Opcode {
    pub value: u16,
    pub instr: Instruction,
}

impl Opcode {
    /// The tag matches the word.
    pub open spec fn wf(self) -> bool {
        spec_parse(self.value) == Some(self.instr)
    }

    /// Build an opcode from the two bytes of a big-endian instruction word.
    /// A word that decodes to no instruction is rejected by the caller first.
    pub fn from_bytes(b1: u8, b2: u8) -> (r: Opcode)
        requires
            spec_parse(word_of(b1, b2)) is Some,
        ensures
            r.value == word_of(b1, b2),
            r.wf(),
    {
        let value: u16 = (b1 as u16) << 8 | (b2 as u16);
        Opcode { value, instr: parse_opcode(value).unwrap() }
    }

    /// Build an opcode from a word that decodes to an instruction.
    pub fn from_code(code: u16) -> (r: Opcode)
        requires
            spec_parse(code) is Some,
        ensures
            r.value == code,
            r.wf(),
    {
        Opcode { value: code, instr: parse_opcode(code).unwrap() }
    }

    /// The X register field: the second nibble.
    pub fn x(&self) -> (r: usize)
        ensures
            r == op_x(self.value) as usize,
            r < 16,
    {
        proof {
            lemma_field_bounds(self.value);
        }
        (self.value >> 8 & 0xF) as usize
    }

    /// The Y register field: the third nibble.
    pub fn y(&self) -> (r: usize)
        ensures
            r == op_y(self.value) as usize,
            r < 16,
    {
        proof {
            lemma_field_bounds(self.value);
        }
        (self.value >> 4 & 0xF) as usize
    }

    /// The trailing nibble.
    pub fn z(&self) -> (r: usize)
        ensures
            r == op_z(self.value) as usize,
            r < 16,
    {
        proof {
            lemma_field_bounds(self.value);
        }
        (self.value & 0xF) as usize
    }

    /// The trailing byte, the immediate operand.
    pub fn yz(&self) -> (r: u16)
        ensures
            r == op_yz(self.value),
            r < 256,
    {
        proof {
            lemma_field_bounds(self.value);
        }
        self.value & 0xFF
    }

    /// The trailing 12 bits, the address operand.
    pub fn xyz(&self) -> (r: u16)
        ensures
            r == op_xyz(self.value),
            r < 4096,
    {
        proof {
            lemma_field_bounds(self.value);
        }
        self.value & 0xFFF
    }

    /// The three nibble fields at once.
    pub fn parse(&self) -> (r: (usize, usize, usize))
        ensures
            r == (op_x(self.value) as usize, op_y(self.value) as usize, op_z(self.value) as usize),
    {
        (self.x(), self.y(), self.z())
    }
}

} // verus!
