use rip8::cpu::{MachineError, CPU};

#[test]
pub fn test_run_operation_for_goto() {
    let mut cpu = CPU::new();
    cpu.mem[0x200] = 0x10;
    cpu.mem[0x201] = 0xF0;
    cpu.cycle(0).unwrap();
    assert_eq!(0x0F0, cpu.pc);
}

#[test]
pub fn test_run_operation_for_call_sub() {
    let mut cpu = CPU::new();
    cpu.mem[0x200] = 0x21;
    cpu.mem[0x201] = 0x00;
    cpu.cycle(0).unwrap();
    // The call pushes the program counter of the call site itself; the
    // matching return pops it and steps past the call.
    assert_eq!(cpu.stack.current_index(), Some(0));
    assert_eq!(cpu.stack.get(0), Some(0x200));
    assert_eq!(cpu.pc, 0x100);
}

#[test]
pub fn test_return_from_sub() {
    let mut cpu = CPU::new();
    cpu.mem[0x200] = 0x23;
    cpu.mem[0x201] = 0x00;
    cpu.mem[0x300] = 0x00;
    cpu.mem[0x301] = 0xEE;
    cpu.cycle(0).unwrap();
    cpu.cycle(0).unwrap();
    assert_eq!(cpu.pc, 0x202);
    assert_eq!(cpu.stack.current_index(), None);
}

#[test]
fn jump_sets_pc_exactly() {
    // JP 0x2F0 from PC = 0x200 lands on 0x2F0, no off-by-one.
    let mut cpu = CPU::new();
    cpu.mem[0x200] = 0x12;
    cpu.mem[0x201] = 0xF0;
    cpu.cycle(0).unwrap();
    assert_eq!(cpu.pc, 0x2F0);
}

#[test]
fn call_and_ret_round_trip_from_0x202() {
    // CALL 0x100 from PC = 0x202 pushes 0x202 and jumps; RET comes back to
    // 0x204.
    let mut cpu = CPU::new();
    cpu.pc = 0x202;
    cpu.mem[0x202] = 0x21;
    cpu.mem[0x203] = 0x00;
    cpu.mem[0x100] = 0x00;
    cpu.mem[0x101] = 0xEE;
    cpu.cycle(0).unwrap();
    assert_eq!(cpu.stack.get(0), Some(0x202));
    assert_eq!(cpu.pc, 0x100);
    cpu.cycle(0).unwrap();
    assert_eq!(cpu.pc, 0x204);
    assert_eq!(cpu.stack.current_index(), None);
}

#[test]
fn add_vx_vy_sets_carry_flag() {
    // 0xFF + 0x01 wraps to 0x00 with VF = 1; 0x01 + 0x01 is 0x02 with VF = 0.
    let mut cpu = CPU::new();
    cpu.regs[1] = 0xFF;
    cpu.regs[2] = 0x01;
    cpu.mem[0x200] = 0x81;
    cpu.mem[0x201] = 0x24;
    cpu.cycle(0).unwrap();
    assert_eq!(cpu.regs[1], 0x00);
    assert_eq!(cpu.regs[0xF], 1);

    let mut cpu = CPU::new();
    cpu.regs[1] = 0x01;
    cpu.regs[2] = 0x01;
    cpu.mem[0x200] = 0x81;
    cpu.mem[0x201] = 0x24;
    cpu.cycle(0).unwrap();
    assert_eq!(cpu.regs[1], 0x02);
    assert_eq!(cpu.regs[0xF], 0);
}

#[test]
fn sub_vx_vy_sets_no_borrow_flag() {
    // 5 - 3 = 2 with VF = 1 (no borrow); 3 - 5 wraps to 0xFE with VF = 0.
    let mut cpu = CPU::new();
    cpu.regs[1] = 0x05;
    cpu.regs[2] = 0x03;
    cpu.mem[0x200] = 0x81;
    cpu.mem[0x201] = 0x25;
    cpu.cycle(0).unwrap();
    assert_eq!(cpu.regs[1], 0x02);
    assert_eq!(cpu.regs[0xF], 1);

    let mut cpu = CPU::new();
    cpu.regs[1] = 0x03;
    cpu.regs[2] = 0x05;
    cpu.mem[0x200] = 0x81;
    cpu.mem[0x201] = 0x25;
    cpu.cycle(0).unwrap();
    assert_eq!(cpu.regs[1], 0xFE);
    assert_eq!(cpu.regs[0xF], 0);
}

#[test]
fn store_then_load_registers_round_trip() {
    // LD [I],V3 then LD V3,[I] reproduces V0..V3, and I never moves.
    let mut cpu = CPU::new();
    cpu.regs[0] = 11;
    cpu.regs[1] = 22;
    cpu.regs[2] = 33;
    cpu.regs[3] = 44;
    cpu.index = 0x300;
    cpu.mem[0x200] = 0xF3;
    cpu.mem[0x201] = 0x55;
    cpu.mem[0x202] = 0xF3;
    cpu.mem[0x203] = 0x65;
    cpu.cycle(0).unwrap();
    assert_eq!(cpu.index, 0x300);
    assert_eq!(
        &cpu.mem[0x300..0x304],
        &[11, 22, 33, 44]
    );
    cpu.regs[0] = 0;
    cpu.regs[1] = 0;
    cpu.regs[2] = 0;
    cpu.regs[3] = 0;
    cpu.cycle(0).unwrap();
    assert_eq!(cpu.index, 0x300);
    assert_eq!(cpu.regs[0], 11);
    assert_eq!(cpu.regs[1], 22);
    assert_eq!(cpu.regs[2], 33);
    assert_eq!(cpu.regs[3], 44);
}

#[test]
fn draw_twice_clears_and_reports_collision() {
    // Drawing the glyph for 0 twice at the same spot restores the blank
    // screen; the first draw reports no collision, the second reports one.
    let mut cpu = CPU::new();
    cpu.index = 0;  // the font glyph for 0 lives at address 0
    cpu.mem[0x200] = 0xD0;
    cpu.mem[0x201] = 0x05;
    cpu.mem[0x202] = 0xD0;
    cpu.mem[0x203] = 0x05;
    let fx = cpu.cycle(0).unwrap();
    assert!(fx.redraw);
    assert_eq!(cpu.regs[0xF], 0);
    // Top row of the glyph is 0xF0: the four leftmost pixels are lit.
    assert!(cpu.display.pixels[0] && cpu.display.pixels[3]);
    assert!(!cpu.display.pixels[4]);
    cpu.cycle(0).unwrap();
    assert_eq!(cpu.regs[0xF], 1);
    for p in 0..2048 {
        assert!(!cpu.display.pixels[p]);
    }
}

#[test]
fn unknown_opcode_is_a_fatal_error() {
    // 0x8008 matches no instruction; the cycle aborts with the raw word and
    // never silently falls through to a no-op.
    let mut cpu = CPU::new();
    cpu.mem[0x200] = 0x80;
    cpu.mem[0x201] = 0x08;
    assert_eq!(cpu.cycle(0), Err(MachineError::UnknownOpcode(0x8008)));
    assert_eq!(cpu.pc, 0x200);
}

#[test]
fn call_overflow_is_a_stack_fault() {
    // CALL 0x200 at 0x200 calls itself forever; the seventeenth call finds
    // all 16 stack slots full.
    let mut cpu = CPU::new();
    cpu.mem[0x200] = 0x22;
    cpu.mem[0x201] = 0x00;
    for _ in 0..16 {
        cpu.cycle(0).unwrap();
    }
    assert_eq!(cpu.cycle(0), Err(MachineError::StackFault));
}

#[test]
fn ret_on_empty_stack_is_a_stack_fault() {
    let mut cpu = CPU::new();
    cpu.mem[0x200] = 0x00;
    cpu.mem[0x201] = 0xEE;
    assert_eq!(cpu.cycle(0), Err(MachineError::StackFault));
}

#[test]
fn memory_accesses_past_the_end_are_out_of_memory() {
    // A sprite read reaching past 4095 is fatal.
    let mut cpu = CPU::new();
    cpu.index = 4095;
    cpu.mem[0x200] = 0xD0;
    cpu.mem[0x201] = 0x02;
    assert_eq!(cpu.cycle(0), Err(MachineError::OutOfMemory));

    // So is a BCD write whose third byte would land at 4096.
    let mut cpu = CPU::new();
    cpu.index = 4094;
    cpu.mem[0x200] = 0xF0;
    cpu.mem[0x201] = 0x33;
    assert_eq!(cpu.cycle(0), Err(MachineError::OutOfMemory));

    // And a program counter with no room left for a 2-byte fetch.
    let mut cpu = CPU::new();
    cpu.pc = 4095;
    assert_eq!(cpu.cycle(0), Err(MachineError::OutOfMemory));
}

#[test]
fn load_rom_copies_at_0x200_and_rejects_oversize() {
    let mut cpu = CPU::new();
    let rom = vec![0xAA, 0xBB, 0xCC];
    cpu.load_rom(&rom).unwrap();
    assert_eq!(cpu.mem[0x200], 0xAA);
    assert_eq!(cpu.mem[0x201], 0xBB);
    assert_eq!(cpu.mem[0x202], 0xCC);
    assert_eq!(cpu.mem[0x203], 0);

    let too_big = vec![0u8; 3585];
    assert_eq!(cpu.load_rom(&too_big), Err(MachineError::OutOfMemory));
    // The refused image left memory alone.
    assert_eq!(cpu.mem[0x200], 0xAA);
}

#[test]
fn rnd_masks_the_random_byte() {
    // RND V1,0x0F: whatever byte came back, the high nibble is masked away.
    let mut cpu = CPU::new();
    cpu.regs[1] = 0xFF;
    cpu.mem[0x200] = 0xC1;
    cpu.mem[0x201] = 0x0F;
    cpu.cycle(0).unwrap();
    assert_eq!(cpu.regs[1] & 0xF0, 0);
    assert_eq!(cpu.pc, 0x202);
}

#[test]
fn shifts_capture_the_outgoing_bit() {
    let mut cpu = CPU::new();
    cpu.regs[1] = 0x05;
    cpu.mem[0x200] = 0x81;
    cpu.mem[0x201] = 0x06;
    cpu.cycle(0).unwrap();
    assert_eq!(cpu.regs[1], 0x02);
    assert_eq!(cpu.regs[0xF], 1);

    let mut cpu = CPU::new();
    cpu.regs[1] = 0x81;
    cpu.mem[0x200] = 0x81;
    cpu.mem[0x201] = 0x0E;
    cpu.cycle(0).unwrap();
    assert_eq!(cpu.regs[1], 0x02);
    assert_eq!(cpu.regs[0xF], 1);
}

#[test]
fn bcd_writes_three_decimal_digits() {
    let mut cpu = CPU::new();
    cpu.regs[4] = 234;
    cpu.index = 0x400;
    cpu.mem[0x200] = 0xF4;
    cpu.mem[0x201] = 0x33;
    cpu.cycle(0).unwrap();
    assert_eq!(cpu.mem[0x400], 2);
    assert_eq!(cpu.mem[0x401], 3);
    assert_eq!(cpu.mem[0x402], 4);
    assert_eq!(cpu.index, 0x400);
}

#[test]
fn add_index_masks_to_12_bits() {
    let mut cpu = CPU::new();
    cpu.index = 0xFFF;
    cpu.regs[2] = 2;
    cpu.mem[0x200] = 0xF2;
    cpu.mem[0x201] = 0x1E;
    cpu.cycle(0).unwrap();
    assert_eq!(cpu.index, 0x001);
    assert_eq!(cpu.regs[0xF], 1);
}

#[test]
fn font_sprite_address_is_digit_times_five() {
    let mut cpu = CPU::new();
    cpu.regs[7] = 0xA;
    cpu.mem[0x200] = 0xF7;
    cpu.mem[0x201] = 0x29;
    cpu.cycle(0).unwrap();
    assert_eq!(cpu.index, 50);
}

#[test]
fn skip_family_moves_pc_by_two_or_four() {
    // SE Vx,byte taken and not taken.
    let mut cpu = CPU::new();
    cpu.regs[1] = 0x42;
    cpu.mem[0x200] = 0x31;
    cpu.mem[0x201] = 0x42;
    cpu.cycle(0).unwrap();
    assert_eq!(cpu.pc, 0x204);

    let mut cpu = CPU::new();
    cpu.regs[1] = 0x41;
    cpu.mem[0x200] = 0x31;
    cpu.mem[0x201] = 0x42;
    cpu.cycle(0).unwrap();
    assert_eq!(cpu.pc, 0x202);

    // SNE Vx,Vy taken.
    let mut cpu = CPU::new();
    cpu.regs[1] = 1;
    cpu.regs[2] = 2;
    cpu.mem[0x200] = 0x91;
    cpu.mem[0x201] = 0x20;
    cpu.cycle(0).unwrap();
    assert_eq!(cpu.pc, 0x204);
}

#[test]
fn wait_for_key_holds_pc_until_a_key_arrives() {
    let mut cpu = CPU::new();
    cpu.mem[0x200] = 0xF1;
    cpu.mem[0x201] = 0x0A;
    cpu.cycle(0).unwrap();
    assert_eq!(cpu.pc, 0x200);
    // The 'q' key drives keypad value 4.
    cpu.keyboard.handle_event('q', true);
    cpu.cycle(0).unwrap();
    assert_eq!(cpu.pc, 0x202);
    assert_eq!(cpu.regs[1], 4);
    assert!(!cpu.keyboard.key_is_pressed());
}

#[test]
fn skp_and_sknp_follow_the_keypad() {
    let mut cpu = CPU::new();
    cpu.regs[1] = 4;
    cpu.keyboard.handle_event('q', true);
    cpu.mem[0x200] = 0xE1;
    cpu.mem[0x201] = 0x9E;
    cpu.cycle(0).unwrap();
    assert_eq!(cpu.pc, 0x204);

    let mut cpu = CPU::new();
    cpu.regs[1] = 4;
    cpu.mem[0x200] = 0xE1;
    cpu.mem[0x201] = 0xA1;
    cpu.cycle(0).unwrap();
    assert_eq!(cpu.pc, 0x204);
}

#[test]
fn delay_timer_instructions_arm_and_read() {
    let mut cpu = CPU::new();
    cpu.regs[3] = 9;
    cpu.mem[0x200] = 0xF3;
    cpu.mem[0x201] = 0x15;
    cpu.mem[0x202] = 0xF5;
    cpu.mem[0x203] = 0x07;
    cpu.cycle(0).unwrap();
    assert_eq!(cpu.delay_timer.get_delay(), 9);
    // Reading it back into V5 one nanosecond later: far less than a period,
    // so still 9.
    cpu.cycle(1).unwrap();
    assert_eq!(cpu.regs[5], 9);
}

#[test]
fn sound_timer_gates_the_audio() {
    let mut cpu = CPU::new();
    cpu.regs[2] = 3;
    cpu.mem[0x200] = 0xF2;
    cpu.mem[0x201] = 0x18;
    // The timer is armed during this cycle, so the tone was still off when
    // the cycle began.
    let fx = cpu.cycle(0).unwrap();
    assert!(!fx.audio_on);
    cpu.mem[0x202] = 0x00;
    cpu.mem[0x203] = 0xE0;
    let fx = cpu.cycle(1).unwrap();
    assert!(fx.audio_on);
}

#[test]
fn jump_v0_adds_the_register() {
    let mut cpu = CPU::new();
    cpu.regs[0] = 0x10;
    cpu.mem[0x200] = 0xB3;
    cpu.mem[0x201] = 0x00;
    cpu.cycle(0).unwrap();
    assert_eq!(cpu.pc, 0x310);
}

#[test]
fn sys_is_a_no_op_that_advances_pc() {
    let mut cpu = CPU::new();
    cpu.mem[0x200] = 0x03;
    cpu.mem[0x201] = 0x45;
    cpu.cycle(0).unwrap();
    assert_eq!(cpu.pc, 0x202);
}

#[test]
fn alu_moves_and_bitwise_ops() {
    let mut cpu = CPU::new();
    cpu.regs[1] = 0b1100;
    cpu.regs[2] = 0b1010;
    cpu.mem[0x200] = 0x81; // OR
    cpu.mem[0x201] = 0x21;
    cpu.mem[0x202] = 0x83; // AND into V3
    cpu.mem[0x203] = 0x22;
    cpu.mem[0x204] = 0x85; // XOR into V5
    cpu.mem[0x205] = 0x23;
    cpu.regs[3] = 0b1100;
    cpu.regs[5] = 0b1100;
    cpu.cycle(0).unwrap();
    assert_eq!(cpu.regs[1], 0b1110);
    cpu.cycle(0).unwrap();
    assert_eq!(cpu.regs[3], 0b1000);
    cpu.cycle(0).unwrap();
    assert_eq!(cpu.regs[5], 0b0110);
}

#[test]
fn subn_mirrors_sub() {
    let mut cpu = CPU::new();
    cpu.regs[1] = 0x03;
    cpu.regs[2] = 0x05;
    cpu.mem[0x200] = 0x81;
    cpu.mem[0x201] = 0x27;
    cpu.cycle(0).unwrap();
    assert_eq!(cpu.regs[1], 0x02);
    assert_eq!(cpu.regs[0xF], 1);
}

#[test]
fn add_immediate_wraps_without_touching_vf() {
    let mut cpu = CPU::new();
    cpu.regs[1] = 0xFF;
    cpu.regs[0xF] = 7;
    cpu.mem[0x200] = 0x71;
    cpu.mem[0x201] = 0x02;
    cpu.cycle(0).unwrap();
    assert_eq!(cpu.regs[1], 0x01);
    assert_eq!(cpu.regs[0xF], 7);
}

#[test]
fn new_machine_has_fonts_and_defaults() {
    let cpu = CPU::new();
    assert_eq!(cpu.hz, 500);
    assert_eq!(cpu.program_delay, 2_000_000);
    assert_eq!(cpu.pc, 0x200);
    assert_eq!(cpu.index, 0x200);
    assert_eq!(cpu.mem[0], 0xF0); // first byte of the glyph for 0
    assert_eq!(cpu.mem[79], 0x80); // last byte of the glyph for F
    assert_eq!(cpu.mem[80], 0);
}

#[test]
fn reset_wipes_the_machine_state() {
    let mut cpu = CPU::new();
    cpu.regs[3] = 9;
    cpu.pc = 0x300;
    cpu.mem[0x200] = 0xAB;
    cpu.reset();
    assert_eq!(cpu.pc, 0x200);
    assert_eq!(cpu.regs[3], 0);
    // Program memory is cleared, but the font table is the machine's own,
    // loaded at creation and never lost.
    assert_eq!(cpu.mem[0x200], 0);
    assert_eq!(cpu.mem[0], 0xF0);
    assert_eq!(cpu.mem[79], 0x80);
    assert_eq!(cpu.mem[80], 0);
    assert_eq!(cpu.stack.current_index(), None);
}

#[test]
fn set_speed_hz_recomputes_the_delay() {
    let mut cpu = CPU::new();
    cpu.set_speed_hz(1000);
    assert_eq!(cpu.hz, 1000);
    assert_eq!(cpu.program_delay, 1_000_000);
    cpu.set_speed_hz(1); // too slow: ignored
    assert_eq!(cpu.hz, 1000);
}

#[test]
fn get_sub_arr_reads_eight_bytes() {
    let mut cpu = CPU::new();
    cpu.mem[100] = 7;
    cpu.mem[107] = 9;
    let sub = rip8::cpu::get_sub_arr(&cpu.mem, 100);
    assert_eq!(sub[0], 7);
    assert_eq!(sub[7], 9);
    assert_eq!(sub[1], 0);
}

#[test]
fn opcode_at_address_reads_big_endian() {
    let mut cpu = CPU::new();
    cpu.mem[0x210] = 0x1A;
    cpu.mem[0x211] = 0xBC;
    let op = cpu.opcode_at_address(0x210);
    assert_eq!(op.value, 0x1ABC);
    assert_eq!(op.xyz(), 0xABC);
}
