use rip8::cpu::MachineError;
use rip8::opcodes::{parse_opcode, Instruction, Opcode};

#[test]
pub fn test_parse_opcode() {
    let code_results: Vec<(u16, Instruction)> = vec![
        (0x00EE, Instruction::RetFromSubroutine_0x00EE),
        (0x00E0, Instruction::ClearDisplay_0x00E0),
        (0x0000, Instruction::SysAddressJump_0x0NNN),
        (0x1000, Instruction::JumpLocation_0x1NNN),
        (0x2000, Instruction::CallSubroutine_0x2NNN),
        (0x3000, Instruction::SkipInstrIfVxEqPL_0x3XNN),
        (0x4000, Instruction::SkipInstrIfVxNotEqPL_0x4XNN),
        (0x5000, Instruction::SkipInstrIfVxVy_0x5XY0),
        (0x6000, Instruction::SetVxToPL_0x6XNN),
        (0x7000, Instruction::IncrementVxByPL_0x7XNN),
        (0x8FF0, Instruction::SetVxToVy_0x8XY0),
        (0x8FF1, Instruction::SetVxToVxORVy_0x8XY1),
        (0x8FF2, Instruction::SetVxToVxANDVy_0x8XY2),
        (0x8FF3, Instruction::SetVxToVxXORVy_0x8XY3),
        (0x8FF4, Instruction::IncrementVxByVyAndCarry_0x8XY4),
        (0x8FF5, Instruction::DecrementVxByVyNoBorrow_0x8XY5),
        (0x8FF6, Instruction::ShiftAndRotateVxRight_0x8XY6),
        (0x8FF7, Instruction::DecrementVyByVxNoBorrow_0x8XY7),
        (0x8FFE, Instruction::ShiftAndRotateVxLeft_0x8XYE),
        (0x9000, Instruction::SkipInstrIfVxNotVy_0x9XY0),
        (0xA000, Instruction::SetIndexRegToPL_0xANNN),
        (0xB000, Instruction::JumpToV0PlusPL_0xBNNN),
        (0xC000, Instruction::SetVxRandByteANDPL_0xCXNN),
        (0xD000, Instruction::DisplaySpriteSetVfColl_0xDXYN),
        (0xEF9E, Instruction::SkipInstrIfVxPressed_0xEX9E),
        (0xEFA1, Instruction::SkipInstrIfVxNotPressed_0xEXA1),
        (0xFF07, Instruction::SetVxToDelayTimerVal_0xFX07),
        (0xFF0A, Instruction::WaitForKeyStoreInVx_0xFX0A),
        (0xFF15, Instruction::SetDelayTimerToVx_0xFX15),
        (0xFF18, Instruction::SetSoundTimerToVx_0xFX18),
        (0xFF1E, Instruction::IncrementIndexRegByVx_0xFX1E),
        (0xFF29, Instruction::SetIndexRegToVxSprite_0xFX29),
        (0xFF33, Instruction::StoreBCDOfVxIn3Bytes_0xFX33),
        (0xFF55, Instruction::StoreRegsUptoVx_0xFX55),
        (0xFF65, Instruction::ReadRegsUptoVx_0xFX65),
    ];

    for (code, res) in &code_results {
        assert_eq!(*res, parse_opcode(*code).unwrap());
    }
}

#[test]
fn every_word_decodes_or_fails_with_the_word() {
    // Totality over the whole 16-bit space: each word either decodes or
    // comes back as an UnknownOpcode carrying exactly that word.
    for w in 0..=0xFFFFu16 {
        match parse_opcode(w) {
            Ok(_) => {},
            Err(e) => assert_eq!(e, MachineError::UnknownOpcode(w)),
        }
    }
}

#[test]
fn undecodable_words_in_each_secondary_class() {
    assert!(parse_opcode(0x8FF8).is_err());
    assert!(parse_opcode(0xE000).is_err());
    assert!(parse_opcode(0xEF9F).is_err());
    assert!(parse_opcode(0xF000).is_err());
    assert!(parse_opcode(0xFF66).is_err());
}

#[test]
fn opcode_fields_come_from_the_right_nibbles() {
    let op = Opcode::from_code(0xD123);
    assert_eq!(op.value, 0xD123);
    assert_eq!(op.x(), 1);
    assert_eq!(op.y(), 2);
    assert_eq!(op.z(), 3);
    assert_eq!(op.yz(), 0x23);
    assert_eq!(op.xyz(), 0x123);
    assert_eq!(op.parse(), (1, 2, 3));
}

#[test]
fn opcode_from_bytes_is_big_endian() {
    let op = Opcode::from_bytes(0x6A, 0x42);
    assert_eq!(op.value, 0x6A42);
    assert_eq!(op.instr, Instruction::SetVxToPL_0x6XNN);
}
