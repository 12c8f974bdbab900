use rip8::debugger::{blank_string, disassemble_opcode, LimitedFifoQueue, State};
use rip8::keyboard::Keyboard;
use rip8::opcodes::Opcode;
use rip8::utils::{Stack, Timer};

#[test]
fn timer_armed_value_reads_back_and_decays_by_wall_clock() {
    // Armed with 10, the counter reads 10 at once and reaches 0 only after
    // ten whole periods of elapsed clock, never by call count alone.
    let period: u64 = 16_666_667;
    let mut t = Timer::new(period as u32);
    assert_eq!(t.get_delay(), 0);
    t.set_delay(10, 0);
    assert_eq!(t.get_delay(), 10);

    // Hammering the timer within the first period changes nothing.
    for _ in 0..1000 {
        t.touch(period);
    }
    assert_eq!(t.get_delay(), 10);

    // One touch past each period boundary takes exactly one tick each.
    let mut now: u64 = 0;
    for expected in (0..10).rev() {
        now += period + 1;
        t.touch(now);
        assert_eq!(t.get_delay(), expected);
    }

    // At zero it stays at zero, however much time passes.
    t.touch(now + 100 * period);
    assert_eq!(t.get_delay(), 0);
}

#[test]
fn timer_does_not_tick_early() {
    let mut t = Timer::new(1000);
    t.set_delay(3, 5000);
    t.touch(6000); // exactly one period: not strictly more, no tick
    assert_eq!(t.get_delay(), 3);
    t.touch(6001);
    assert_eq!(t.get_delay(), 2);
}

#[test]
fn stack_is_a_bounded_lifo() {
    let mut s = Stack::new();
    assert_eq!(s.current_index(), None);
    assert_eq!(s.pop(), None);
    assert!(s.push(0x200));
    assert!(s.push(0x300));
    assert_eq!(s.current_index(), Some(1));
    assert_eq!(s.get(0), Some(0x200));
    assert_eq!(s.get(1), Some(0x300));
    assert_eq!(s.get(2), None);
    assert_eq!(s.pop(), Some(0x300));
    assert_eq!(s.pop(), Some(0x200));
    assert_eq!(s.pop(), None);

    for i in 0..16 {
        assert!(s.push(i));
    }
    assert!(!s.push(99)); // the seventeenth entry is refused
    s.clear();
    assert_eq!(s.current_index(), None);
}

#[test]
fn keyboard_tracks_presses_by_character() {
    let mut kb = Keyboard::new();
    assert!(!kb.key_is_pressed());
    assert_eq!(kb.get_pressed_key(), None);

    kb.handle_event('q', true); // key 4
    kb.handle_event('v', true); // key B
    assert!(kb.key_is_pressed());
    assert!(kb.check_value_pressed(0x4));
    assert!(kb.check_value_pressed(0xB));
    assert!(!kb.check_value_pressed(0x1));
    assert_eq!(kb.get_pressed_key(), Some(0x4)); // lowest value first

    kb.handle_event('q', false);
    assert!(!kb.check_value_pressed(0x4));
    assert_eq!(kb.get_pressed_key(), Some(0xB));

    kb.reset();
    assert!(!kb.key_is_pressed());

    let keys = kb.keys();
    for (i, k) in keys.iter().enumerate() {
        assert_eq!(k.value() as usize, i);
        assert!(!k.is_pressed());
    }
}

#[test]
fn unmapped_characters_leave_the_keypad_alone() {
    let mut kb = Keyboard::new();
    kb.handle_event('p', true);
    assert!(!kb.key_is_pressed());
}

#[test]
fn limited_fifo_queue_drops_the_oldest() {
    let mut q: LimitedFifoQueue<u32> = LimitedFifoQueue::new(2);
    q.push(1);
    q.push(2);
    q.push(3);
    assert_eq!(q.len(), 2);
    assert_eq!(*q.get(0), 3);
    assert_eq!(*q.get(1), 2);
    q.clear();
    assert_eq!(q.len(), 0);
}

#[test]
fn blank_string_is_all_spaces() {
    let s = blank_string(5);
    assert_eq!(s, "     ");
    assert_eq!(blank_string(0), "");
}

#[test]
fn state_compares_by_variant() {
    assert_eq!(State::Paused, State::Paused);
    assert!(State::Running != State::Quitting);
}

#[test]
fn disassembly_spells_the_operands() {
    assert_eq!(disassemble_opcode(&Opcode::from_code(0x00E0)), "Clear the display");
    assert_eq!(
        disassemble_opcode(&Opcode::from_code(0x1234)),
        "Jump to address: set PC = 0x234"
    );
    assert_eq!(
        disassemble_opcode(&Opcode::from_code(0x6A42)),
        "Set v[A] to 0x42"
    );
    assert_eq!(
        disassemble_opcode(&Opcode::from_code(0xD12F)),
        "Display 15-byte sprite at (v[1], v[2]). Set v[F] = 1 if collision"
    );
    assert_eq!(
        disassemble_opcode(&Opcode::from_code(0x2ABC)),
        "Call subroutine: set PC = 0xABC, set sp += 1, set pc = ABC"
    );
    assert_eq!(
        disassemble_opcode(&Opcode::from_code(0xFE65)),
        "Store mem[index] through mem[index + E] in v[0] through v[E]"
    );
}
