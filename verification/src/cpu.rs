use vstd::prelude::*;

use vstd::arithmetic::div_mod::{
    lemma_mod_add_multiples_vanish, lemma_mod_sub_multiples_vanish, lemma_small_mod,
};

use crate::display::{blit_collides, blit_grid, Display};
use crate::keyboard::{Key, Keyboard};
use crate::opcodes::{
    op_x, op_xyz, op_y, op_yz, op_z, parse_opcode, spec_parse, word_of, Instruction, Opcode,
};
use crate::utils::{Stack, Timer};

verus! {

/// The fatal faults a run can hit. Every one aborts the run: an undecodable
/// word is never treated as a no-op, and out-of-range accesses fail loudly
/// rather than wrap.
#[derive(Debug, Clone, Copy, PartialEq, Eq, Structural)]
pub enum MachineError {
    /// The fetched word decodes to no instruction; carries the raw word.
    UnknownOpcode(u16),
    /// A call overflowed the 16-entry stack, or a return found it empty.
    StackFault,
    /// A ROM or a memory access (index or block operation) went past 4095.
    OutOfMemory,
}

/// What the surroundings must do after a cycle: repaint the screen and gate
/// the audio tone on or off.
#[derive(Debug, Clone, Copy, PartialEq, Eq, Structural)]
pub struct SideEffects {
    /// The cycle drew a sprite; the display surface should be repainted.
    pub redraw: bool,
    /// The sound timer is running, so the tone plays; silent otherwise.
    pub audio_on: bool,
}

/// Relies on rand::random with the Standard distribution: a uniformly
/// distributed random value. Nothing is promised of which value comes back.
pub assume_specification<T>[ rand::random::<T> ]() -> (r: T)
    where
        rand::distributions::Standard: rand::distributions::Distribution<T>,
;

/// A value reduced to one byte, the wraparound the 8-bit arithmetic
/// instructions use.
pub open spec fn wrap8(v: int) -> u8 {
    (v % 256) as u8
}

/// Euclidean remainder by 256 on the range one byte of wraparound can reach.
proof fn lemma_wrap8(v: int)
    requires
        -256 <= v < 512,
    ensures
        v % 256 == (if v < 0 {
            v + 256
        } else if v < 256 {
            v
        } else {
            v - 256
        }),
{
    if v < 0 {
        lemma_mod_add_multiples_vanish(v, 256);
        lemma_small_mod((v + 256) as nat, 256);
    } else if v < 256 {
        lemma_small_mod(v as nat, 256);
    } else {
        lemma_mod_sub_multiples_vanish(v, 256);
        lemma_small_mod((v - 256) as nat, 256);
    }
}

/// Memory after `LD [I],Vx`: registers 0 through `x` written at `i`, all
/// other bytes kept; the index register itself is not part of this picture
/// because the instruction leaves it unchanged.
pub open spec fn store_regs_mem(mem: Seq<u8>, regs: Seq<u8>, i: int, x: int) -> Seq<u8> {
    Seq::new(4096, |k: int| if i <= k <= i + x { regs[k - i] } else { mem[k] })
}

/// Registers after `LD Vx,[I]`: registers 0 through `x` read from memory at
/// `i`, the higher registers kept; the index register is again untouched.
pub open spec fn load_regs_regs(mem: Seq<u8>, regs: Seq<u8>, i: int, x: int) -> Seq<u8> {
    Seq::new(16, |k: int| if 0 <= k <= x { mem[i + k] } else { regs[k] })
}

/// Storing registers 0 through `x` at address `i` and then loading registers
/// 0 through `x` from the same address reproduces the original register
/// values exactly. Together with the step relation, which leaves the index
/// register unchanged under both block instructions, this is the store/load
/// round trip.
pub proof fn lemma_store_load_round_trip(mem: Seq<u8>, regs: Seq<u8>, i: int, x: int)
    requires
        mem.len() == 4096,
        regs.len() == 16,
        0 <= x < 16,
        0 <= i,
        i + x <= 4095,
    ensures
        load_regs_regs(store_regs_mem(mem, regs, i, x), regs, i, x) == regs,
{
    assert(load_regs_regs(store_regs_mem(mem, regs, i, x), regs, i, x) =~= regs);
}

/// The built-in font: 16 glyphs of 5 bytes each, glyph `d` at offset `d * 5`.
pub open spec fn spec_font() -> Seq<u8> {
    seq![
        0xF0u8, 0x90, 0x90, 0x90, 0xF0, // 0
        0x20, 0x60, 0x20, 0x20, 0x70, // 1
        0xF0, 0x10, 0xF0, 0x80, 0xF0, // 2
        0xF0, 0x10, 0xF0, 0x10, 0xF0, // 3
        0x90, 0x90, 0xF0, 0x10, 0x10, // 4
        0xF0, 0x80, 0xF0, 0x10, 0xF0, // 5
        0xF0, 0x80, 0xF0, 0x90, 0xF0, // 6
        0xF0, 0x10, 0x20, 0x40, 0x40, // 7
        0xF0, 0x90, 0xF0, 0x90, 0xF0, // 8
        0xF0, 0x90, 0xF0, 0x10, 0xF0, // 9
        0xF0, 0x90, 0xF0, 0x90, 0x90, // A
        0xE0, 0x90, 0xE0, 0x90, 0xE0, // B
        0xF0, 0x80, 0x80, 0x80, 0xF0, // C
        0xE0, 0x90, 0x90, 0x90, 0xE0, // D
        0xF0, 0x80, 0xF0, 0x80, 0xF0, // E
        0xF0, 0x80, 0xF0, 0x80, 0x80, // F
    ]
}

/// The font table as bytes.
fn font_set() -> (r: [u8; 80])
    ensures
        r@ == spec_font(),
{
    let r: [u8; 80] = [
        0xF0, 0x90, 0x90, 0x90, 0xF0, 0x20, 0x60, 0x20, 0x20, 0x70, 0xF0, 0x10, 0xF0, 0x80, 0xF0,
        0xF0, 0x10, 0xF0, 0x10, 0xF0, 0x90, 0x90, 0xF0, 0x10, 0x10, 0xF0, 0x80, 0xF0, 0x10, 0xF0,
        0xF0, 0x80, 0xF0, 0x90, 0xF0, 0xF0, 0x10, 0x20, 0x40, 0x40, 0xF0, 0x90, 0xF0, 0x90, 0xF0,
        0xF0, 0x90, 0xF0, 0x10, 0xF0, 0xF0, 0x90, 0xF0, 0x90, 0x90, 0xE0, 0x90, 0xE0, 0x90, 0xE0,
        0xF0, 0x80, 0x80, 0x80, 0xF0, 0xE0, 0x90, 0x90, 0x90, 0xE0, 0xF0, 0x80, 0xF0, 0x80, 0xF0,
        0xF0, 0x80, 0xF0, 0x80, 0x80,
    ];
    proof {
        assert(r@ =~= spec_font());
    }
    r
}

/// The CHIP-8 machine: memory, registers, index register, program counter,
/// call stack, the current opcode, the two timers, and the display and
/// keypad surfaces the instructions act on.
pub struct CPU {
    /// Instructions per second the driver paces to.
    pub hz: u32,
    /// Nanoseconds between scheduled cycles, `1e9 / hz`.
    pub program_delay: u64,
    pub mem: [u8; 4096],
    pub regs: [u8; 16],
    pub index: u16,
    pub stack: Stack,
    pub opcode: Opcode,
    pub pc: u16,
    pub delay_timer: Timer,
    pub sound_timer: Timer,
    pub display: Display,
    pub keyboard: Keyboard,
}

impl CPU {
    /// Every stacked return address is a program-counter snapshot, so it
    /// points at a fetchable instruction.
    pub open spec fn stack_ok(self) -> bool {
        forall|i: int| 0 <= i < self.stack@.len() ==> self.stack@[i] <= 4094
    }

    /// A fresh machine: fonts in low memory, everything else zeroed, the
    /// program counter and index register at 0x200, both timers idle with a
    /// sixtieth of a second as their period, and a 500 Hz pace.
    pub fn new() -> (c: CPU)
        ensures
            c.hz == 500,
            c.program_delay == 2_000_000,
            forall|i: int| 0 <= i < 80 ==> c.mem@[i] == spec_font()[i],
            forall|i: int| 80 <= i < 4096 ==> c.mem@[i] == 0,
            forall|i: int| 0 <= i < 16 ==> c.regs@[i] == 0,
            c.index == 0x200,
            c.pc == 0x200,
            c.stack@ == Seq::<u16>::empty(),
            c.opcode.value == 0 && c.opcode.wf(),
            c.delay_timer == (Timer {
                last_nanos: Option::<u64>::None,
                delay: 0u8,
                duration: 16_666_667u32,
            }),
            c.sound_timer == (Timer {
                last_nanos: Option::<u64>::None,
                delay: 0u8,
                duration: 16_666_667u32,
            }),
            forall|p: int| 0 <= p < 2048 ==> !c.display.pixels@[p],
            c.keyboard.wf(),
            forall|i: int| 0 <= i < 16 ==> !(#[trigger] c.keyboard.spec_key(i)).is_pressed,
            c.stack_ok(),
    {
        let hz: u32 = 500;
        proof {
            assert(0u16 & 0xF000 == 0u16) by (bit_vector);
        }
        let mut cpu = CPU {
            hz,
            program_delay: 1_000_000_000 / (hz as u64),
            mem: [0; 4096],
            regs: [0; 16],
            stack: Stack::new(),
            index: 0x200,
            opcode: Opcode::from_code(0),
            pc: 0x200,
            delay_timer: Timer::new(16_666_667),
            sound_timer: Timer::new(16_666_667),
            display: Display::new(),
            keyboard: Keyboard::new(),
        };
        cpu.set_fonts();
        cpu
    }

    /// Wipe program memory, registers, stack and timers, and put the program
    /// counter and index register back at 0x200. The font table belongs to
    /// the machine, not to the program, so after a reset the low 80 bytes
    /// still hold it. The pace, opcode latch, display and keypad keep their
    /// state.
    pub fn reset(&mut self)
        ensures
            forall|i: int| 0 <= i < 80 ==> final(self).mem@[i] == spec_font()[i],
            forall|i: int| 80 <= i < 4096 ==> final(self).mem@[i] == 0,
            forall|i: int| 0 <= i < 16 ==> final(self).regs@[i] == 0,
            final(self).stack@ == Seq::<u16>::empty(),
            final(self).index == 0x200,
            final(self).pc == 0x200,
            final(self).delay_timer == (Timer {
                last_nanos: Option::<u64>::None,
                delay: 0u8,
                duration: 16_666_667u32,
            }),
            final(self).sound_timer == (Timer {
                last_nanos: Option::<u64>::None,
                delay: 0u8,
                duration: 16_666_667u32,
            }),
            final(self).hz == old(self).hz,
            final(self).program_delay == old(self).program_delay,
            final(self).opcode == old(self).opcode,
            final(self).display == old(self).display,
            final(self).keyboard == old(self).keyboard,
            final(self).stack_ok(),
    {
        self.initialize();
        self.mem = [0; 4096];
        self.regs = [0; 16];
        self.stack.clear();
        self.index = 0x200;
        self.pc = 0x200;
        self.delay_timer = Timer::new(16_666_667);
        self.sound_timer = Timer::new(16_666_667);
        self.set_fonts();
    }

    /// Nothing to do before the first cycle; kept as the explicit start of a
    /// run.
    pub fn initialize(&mut self)
        ensures
            *final(self) == *old(self),
    {
    }

    /// Set the driver pace; a rate of one cycle per second or less is
    /// ignored.
    pub fn set_speed_hz(&mut self, hertz: u32)
        ensures
            hertz > 1 ==> *final(self) == (CPU {
                hz: hertz,
                program_delay: (1_000_000_000u64 / hertz as u64) as u64,
                ..*old(self)
            }),
            hertz <= 1 ==> *final(self) == *old(self),
    {
        if hertz > 1 {
            self.program_delay = 1_000_000_000 / (hertz as u64);
            self.hz = hertz;
        }
    }

    /// Copy a ROM image into memory at 0x200, the program load address. An
    /// image larger than the 3584 bytes of program space is refused whole
    /// with `OutOfMemory` and memory is untouched.
    pub fn load_rom(&mut self, rom: &Vec<u8>) -> (r: Result<(), MachineError>)
        ensures
            rom@.len() <= 3584 ==> {
                &&& r == Ok::<(), MachineError>(())
                &&& *final(self) == (CPU { mem: final(self).mem, ..*old(self) })
                &&& final(self).mem@.len() == 4096
                &&& forall|i: int| 0 <= i < 512 ==> final(self).mem@[i] == old(self).mem@[i]
                &&& forall|i: int|
                    0 <= i < rom@.len() ==> final(self).mem@[512 + i] == rom@[i]
                &&& forall|i: int|
                    512 + rom@.len() <= i < 4096 ==> final(self).mem@[i] == old(self).mem@[i]
            },
            rom@.len() > 3584 ==> r == Err::<(), MachineError>(MachineError::OutOfMemory)
                && *final(self) == *old(self),
    {
        if rom.len() > 3584 {
            return Err(MachineError::OutOfMemory);
        }
        let mut i: usize = 0;
        while i < rom.len()
            invariant
                i <= rom@.len(),
                rom@.len() <= 3584,
                *self == (CPU { mem: self.mem, ..*old(self) }),
                self.mem@.len() == 4096,
                forall|k: int| 0 <= k < 512 ==> self.mem@[k] == old(self).mem@[k],
                forall|k: int| 0 <= k < i ==> self.mem@[512 + k] == rom@[k],
                forall|k: int| 512 + i <= k < 4096 ==> self.mem@[k] == old(self).mem@[k],
            decreases rom@.len() - i,
        {
            self.mem[i + 512] = rom[i];
            i = i + 1;
        }
        Ok(())
    }

    /// Write the font table into the first 80 bytes of memory.
    fn set_fonts(&mut self)
        ensures
            *final(self) == (CPU { mem: final(self).mem, ..*old(self) }),
            final(self).mem@.len() == 4096,
            forall|i: int| 0 <= i < 80 ==> final(self).mem@[i] == spec_font()[i],
            forall|i: int| 80 <= i < 4096 ==> final(self).mem@[i] == old(self).mem@[i],
    {
        let fonts = font_set();
        let mut i: usize = 0;
        while i < 80
            invariant
                i <= 80,
                fonts@ == spec_font(),
                *self == (CPU { mem: self.mem, ..*old(self) }),
                self.mem@.len() == 4096,
                forall|k: int| 0 <= k < i ==> self.mem@[k] == spec_font()[k],
                forall|k: int| i <= k < 4096 ==> self.mem@[k] == old(self).mem@[k],
            decreases 80 - i,
        {
            self.mem[i] = fonts[i];
            i = i + 1;
        }
    }

    /// SYS addr: 0nnn — a legacy machine-code call, documented as a no-op;
    /// only the program counter moves on.
    fn system_address_jump(&mut self)
        requires
            old(self).pc <= 4094,
        ensures
            *final(self) == (CPU { pc: (old(self).pc + 2) as u16, ..*old(self) }),
    {
        self.pc = self.pc + 2;
    }

    /// RET: 00EE — pop the call stack into the program counter and move past
    /// the call instruction; a pop of an empty stack is a `StackFault`.
    fn return_from_sub(&mut self) -> (r: Result<(), MachineError>)
        requires
            old(self).pc <= 4094,
            old(self).stack_ok(),
        ensures
            old(self).stack@.len() == 0 ==> r == Err::<(), MachineError>(MachineError::StackFault)
                && *final(self) == *old(self),
            old(self).stack@.len() > 0 ==> r == Ok::<(), MachineError>(()) && *final(self) == (CPU {
                stack: final(self).stack,
                pc: (old(self).stack@.last() + 2) as u16,
                ..*old(self)
            }) && final(self).stack@ == old(self).stack@.drop_last(),
    {
        match self.stack.pop() {
            Some(res) => {
                proof {
                    assert(old(self).stack@[old(self).stack@.len() - 1] <= 4094);
                }
                self.pc = res;
                self.pc = self.pc + 2;
                Ok(())
            },
            None => Err(MachineError::StackFault),
        }
    }

    /// CLS: 00E0 — clear the display surface.
    fn clear_display(&mut self)
        requires
            old(self).pc <= 4094,
        ensures
            *final(self) == (CPU {
                display: final(self).display,
                pc: (old(self).pc + 2) as u16,
                ..*old(self)
            }),
            final(self).display.pixels@.len() == 2048,
            forall|p: int| 0 <= p < 2048 ==> !final(self).display.pixels@[p],
    {
        self.display.clear();
        self.pc = self.pc + 2;
    }

    /// JP addr: 1nnn — set the program counter to nnn, exactly.
    fn jump_to_location(&mut self)
        ensures
            *final(self) == (CPU { pc: op_xyz(old(self).opcode.value), ..*old(self) }),
    {
        self.pc = self.opcode.xyz();
    }

    /// CALL addr: 2nnn — push the current program counter, then jump to nnn;
    /// a push onto a full 16-entry stack is a `StackFault`.
    fn call_subroutine(&mut self) -> (r: Result<(), MachineError>)
        requires
            old(self).pc <= 4094,
        ensures
            old(self).stack@.len() < 16 ==> r == Ok::<(), MachineError>(()) && *final(self) == (CPU {
                stack: final(self).stack,
                pc: op_xyz(old(self).opcode.value),
                ..*old(self)
            }) && final(self).stack@ == old(self).stack@.push(old(self).pc),
            old(self).stack@.len() >= 16 ==> r == Err::<(), MachineError>(MachineError::StackFault)
                && *final(self) == *old(self),
    {
        let pc = self.pc;
        if self.stack.push(pc) {
            self.pc = self.opcode.xyz();
            Ok(())
        } else {
            Err(MachineError::StackFault)
        }
    }

    /// SE Vx,byte: 3xkk — skip the next instruction when Vx equals kk; the
    /// program counter moves by 4 instead of 2.
    fn skip_instr_if_vx_eq_pl(&mut self)
        requires
            old(self).pc <= 4094,
        ensures
            ({
                let v = old(self).opcode.value;
                *final(self) == (CPU {
                    pc: if old(self).regs@[op_x(v) as int] == op_yz(v) as u8 {
                        (old(self).pc + 4) as u16
                    } else {
                        (old(self).pc + 2) as u16
                    },
                    ..*old(self)
                })
            }),
    {
        let vx = self.regs[self.opcode.x()];
        if vx == self.opcode.yz() as u8 {
            self.pc = self.pc + 2;
        }
        self.pc = self.pc + 2;
    }

    /// SNE Vx,byte: 4xkk — skip the next instruction when Vx differs from kk.
    fn skip_instr_if_vx_neq_pl(&mut self)
        requires
            old(self).pc <= 4094,
        ensures
            ({
                let v = old(self).opcode.value;
                *final(self) == (CPU {
                    pc: if old(self).regs@[op_x(v) as int] != op_yz(v) as u8 {
                        (old(self).pc + 4) as u16
                    } else {
                        (old(self).pc + 2) as u16
                    },
                    ..*old(self)
                })
            }),
    {
        let vx = self.regs[self.opcode.x()];
        if vx != self.opcode.yz() as u8 {
            self.pc = self.pc + 2;
        }
        self.pc = self.pc + 2;
    }

    /// SE Vx,Vy: 5xy0 — skip the next instruction when Vx equals Vy.
    fn skip_instr_if_vx_eq_vy(&mut self)
        requires
            old(self).pc <= 4094,
        ensures
            ({
                let v = old(self).opcode.value;
                *final(self) == (CPU {
                    pc: if old(self).regs@[op_x(v) as int] == old(self).regs@[op_y(v) as int] {
                        (old(self).pc + 4) as u16
                    } else {
                        (old(self).pc + 2) as u16
                    },
                    ..*old(self)
                })
            }),
    {
        if self.regs[self.opcode.x()] == self.regs[self.opcode.y()] {
            self.pc = self.pc + 2;
        }
        self.pc = self.pc + 2;
    }

    /// SNE Vx,Vy: 9xy0 — skip the next instruction when Vx differs from Vy.
    fn skip_instr_if_vx_not_vy(&mut self)
        requires
            old(self).pc <= 4094,
        ensures
            ({
                let v = old(self).opcode.value;
                *final(self) == (CPU {
                    pc: if old(self).regs@[op_x(v) as int] != old(self).regs@[op_y(v) as int] {
                        (old(self).pc + 4) as u16
                    } else {
                        (old(self).pc + 2) as u16
                    },
                    ..*old(self)
                })
            }),
    {
        let vx = self.regs[self.opcode.x()];
        let vy = self.regs[self.opcode.y()];
        if vx != vy {
            self.pc = self.pc + 2
        };
        self.pc = self.pc + 2;
    }

    /// LD Vx,byte: 6xkk — load the immediate byte into Vx.
    fn set_vx_to_pl(&mut self)
        requires
            old(self).pc <= 4094,
        ensures
            ({
                let v = old(self).opcode.value;
                &&& *final(self) == (CPU {
                    regs: final(self).regs,
                    pc: (old(self).pc + 2) as u16,
                    ..*old(self)
                })
                &&& final(self).regs@ == old(self).regs@.update(op_x(v) as int, op_yz(v) as u8)
            }),
    {
        self.regs[self.opcode.x()] = self.opcode.yz() as u8;
        self.pc = self.pc + 2;
    }

    /// ADD Vx,byte: 7xkk — add the immediate byte into Vx with 8-bit
    /// wraparound; the carry flag is not touched.
    fn increment_vx_by_pl(&mut self)
        requires
            old(self).pc <= 4094,
        ensures
            ({
                let v = old(self).opcode.value;
                let vx = old(self).regs@[op_x(v) as int];
                &&& *final(self) == (CPU {
                    regs: final(self).regs,
                    pc: (old(self).pc + 2) as u16,
                    ..*old(self)
                })
                &&& final(self).regs@ == old(self).regs@.update(
                    op_x(v) as int,
                    wrap8(vx + op_yz(v)),
                )
            }),
    {
        let x = self.opcode.x();
        let pl = self.opcode.yz();
        proof {
            lemma_wrap8(old(self).regs@[op_x(old(self).opcode.value) as int] + op_yz(
                old(self).opcode.value,
            ));
        }
        self.regs[x] = self.regs[x].wrapping_add(pl as u8);
        self.pc = self.pc + 2;
    }

    /// LD Vx,Vy: 8xy0 — copy Vy into Vx.
    fn set_vx_to_vy(&mut self)
        requires
            old(self).pc <= 4094,
        ensures
            ({
                let v = old(self).opcode.value;
                &&& *final(self) == (CPU {
                    regs: final(self).regs,
                    pc: (old(self).pc + 2) as u16,
                    ..*old(self)
                })
                &&& final(self).regs@ == old(self).regs@.update(
                    op_x(v) as int,
                    old(self).regs@[op_y(v) as int],
                )
            }),
    {
        self.regs[self.opcode.x()] = self.regs[self.opcode.y()];
        self.pc = self.pc + 2;
    }

    /// OR Vx,Vy: 8xy1 — bitwise or of Vy into Vx.
    fn set_vx_to_vx_or_vy(&mut self)
        requires
            old(self).pc <= 4094,
        ensures
            ({
                let v = old(self).opcode.value;
                let vx = old(self).regs@[op_x(v) as int];
                let vy = old(self).regs@[op_y(v) as int];
                &&& *final(self) == (CPU {
                    regs: final(self).regs,
                    pc: (old(self).pc + 2) as u16,
                    ..*old(self)
                })
                &&& final(self).regs@ == old(self).regs@.update(op_x(v) as int, vx | vy)
            }),
    {
        let x = self.opcode.x();
        let y = self.opcode.y();
        self.regs[x] = self.regs[x] | self.regs[y];
        self.pc = self.pc + 2;
    }

    /// AND Vx,Vy: 8xy2 — bitwise and of Vy into Vx.
    fn set_vx_to_vx_and_vy(&mut self)
        requires
            old(self).pc <= 4094,
        ensures
            ({
                let v = old(self).opcode.value;
                let vx = old(self).regs@[op_x(v) as int];
                let vy = old(self).regs@[op_y(v) as int];
                &&& *final(self) == (CPU {
                    regs: final(self).regs,
                    pc: (old(self).pc + 2) as u16,
                    ..*old(self)
                })
                &&& final(self).regs@ == old(self).regs@.update(op_x(v) as int, vx & vy)
            }),
    {
        let x = self.opcode.x();
        let y = self.opcode.y();
        self.regs[x] = self.regs[x] & self.regs[y];
        self.pc = self.pc + 2;
    }

    /// XOR Vx,Vy: 8xy3 — bitwise exclusive or of Vy into Vx.
    fn set_vx_to_vx_xor_vy(&mut self)
        requires
            old(self).pc <= 4094,
        ensures
            ({
                let v = old(self).opcode.value;
                let vx = old(self).regs@[op_x(v) as int];
                let vy = old(self).regs@[op_y(v) as int];
                &&& *final(self) == (CPU {
                    regs: final(self).regs,
                    pc: (old(self).pc + 2) as u16,
                    ..*old(self)
                })
                &&& final(self).regs@ == old(self).regs@.update(op_x(v) as int, vx ^ vy)
            }),
    {
        let x = self.opcode.x();
        let y = self.opcode.y();
        self.regs[x] = self.regs[x] ^ self.regs[y];
        self.pc = self.pc + 2;
    }

    /// ADD Vx,Vy: 8xy4 — add Vy into Vx; VF becomes 1 on 8-bit overflow and
    /// 0 otherwise, then the wrapped sum lands in Vx.
    fn increment_vx_by_vy_carry(&mut self)
        requires
            old(self).pc <= 4094,
        ensures
            ({
                let v = old(self).opcode.value;
                let vx = old(self).regs@[op_x(v) as int];
                let vy = old(self).regs@[op_y(v) as int];
                &&& *final(self) == (CPU {
                    regs: final(self).regs,
                    pc: (old(self).pc + 2) as u16,
                    ..*old(self)
                })
                &&& final(self).regs@ == old(self).regs@.update(
                    15,
                    if vx + vy > 255 {
                        1u8
                    } else {
                        0u8
                    },
                ).update(op_x(v) as int, wrap8(vx + vy))
            }),
    {
        let vx = self.regs[self.opcode.x()];
        let vy = self.regs[self.opcode.y()];
        if vy > 0xFF - vx {
            self.regs[0xF] = 1;
        } else {
            self.regs[0xF] = 0;
        }
        proof {
            lemma_wrap8(vx + vy);
        }
        let x = self.opcode.x();
        self.regs[x] = vx.wrapping_add(vy);
        self.pc = self.pc + 2;
    }

    /// SUB Vx,Vy: 8xy5 — subtract Vy from Vx; VF becomes 1 when Vx > Vy (no
    /// borrow) and 0 otherwise, then the wrapped difference lands in Vx.
    fn decrement_vx_by_vy_no_borrow(&mut self)
        requires
            old(self).pc <= 4094,
        ensures
            ({
                let v = old(self).opcode.value;
                let vx = old(self).regs@[op_x(v) as int];
                let vy = old(self).regs@[op_y(v) as int];
                &&& *final(self) == (CPU {
                    regs: final(self).regs,
                    pc: (old(self).pc + 2) as u16,
                    ..*old(self)
                })
                &&& final(self).regs@ == old(self).regs@.update(
                    15,
                    if vx > vy {
                        1u8
                    } else {
                        0u8
                    },
                ).update(op_x(v) as int, wrap8(vx - vy))
            }),
    {
        let vx = self.regs[self.opcode.x()];
        let vy = self.regs[self.opcode.y()];
        if vx > vy {
            self.regs[0xF] = 1;
        } else {
            self.regs[0xF] = 0;
        }
        proof {
            lemma_wrap8(vx - vy);
        }
        let x = self.opcode.x();
        self.regs[x] = vx.wrapping_sub(vy);
        self.pc = self.pc + 2;
    }

    /// SHR Vx: 8xy6 — VF captures Vx's low bit, then Vx shifts right by one.
    fn shift_and_rotate_vx_right(&mut self)
        requires
            old(self).pc <= 4094,
        ensures
            ({
                let v = old(self).opcode.value;
                let vx = old(self).regs@[op_x(v) as int];
                &&& *final(self) == (CPU {
                    regs: final(self).regs,
                    pc: (old(self).pc + 2) as u16,
                    ..*old(self)
                })
                &&& final(self).regs@ == old(self).regs@.update(15, vx & 1).update(
                    op_x(v) as int,
                    vx >> 1u8,
                )
            }),
    {
        let x = self.opcode.x();
        let vx = self.regs[x];
        self.regs[0xF] = vx & 1;
        self.regs[x] = vx >> 1u8;
        self.pc = self.pc + 2;
    }

    /// SUBN Vx,Vy: 8xy7 — the mirror subtraction, Vy minus Vx; VF becomes 1
    /// when Vy > Vx and 0 otherwise, then the wrapped difference lands in Vx.
    fn decrement_vy_by_vx_no_borrow(&mut self)
        requires
            old(self).pc <= 4094,
        ensures
            ({
                let v = old(self).opcode.value;
                let vx = old(self).regs@[op_x(v) as int];
                let vy = old(self).regs@[op_y(v) as int];
                &&& *final(self) == (CPU {
                    regs: final(self).regs,
                    pc: (old(self).pc + 2) as u16,
                    ..*old(self)
                })
                &&& final(self).regs@ == old(self).regs@.update(
                    15,
                    if vy > vx {
                        1u8
                    } else {
                        0u8
                    },
                ).update(op_x(v) as int, wrap8(vy - vx))
            }),
    {
        let x = self.opcode.x();
        let vx = self.regs[x];
        let vy = self.regs[self.opcode.y()];
        if vy > vx {
            self.regs[0xF] = 1;
        } else {
            self.regs[0xF] = 0
        }
        proof {
            lemma_wrap8(vy - vx);
        }
        self.regs[x] = vy.wrapping_sub(vx);
        self.pc = self.pc + 2;
    }

    /// SHL Vx: 8xyE — VF captures Vx's high bit, sampled before the shift,
    /// then Vx shifts left by one with wraparound.
    fn shift_and_rotate_vx_left(&mut self)
        requires
            old(self).pc <= 4094,
        ensures
            ({
                let v = old(self).opcode.value;
                let vx = old(self).regs@[op_x(v) as int];
                &&& *final(self) == (CPU {
                    regs: final(self).regs,
                    pc: (old(self).pc + 2) as u16,
                    ..*old(self)
                })
                &&& final(self).regs@ == old(self).regs@.update(15, vx >> 7u8).update(
                    op_x(v) as int,
                    wrap8(vx + vx),
                )
            }),
    {
        let x = self.opcode.x();
        let vx = self.regs[x];
        self.regs[0xF] = vx >> 7u8;
        proof {
            lemma_wrap8(vx + vx);
        }
        self.regs[x] = vx.wrapping_add(vx);
        self.pc = self.pc + 2;
    }

    /// LD I,addr: Annn — load nnn into the index register.
    fn set_index_register_to_pl(&mut self)
        requires
            old(self).pc <= 4094,
        ensures
            *final(self) == (CPU {
                index: op_xyz(old(self).opcode.value),
                pc: (old(self).pc + 2) as u16,
                ..*old(self)
            }),
    {
        self.index = self.opcode.xyz();
        self.pc = self.pc + 2;
    }

    /// JP V0,addr: Bnnn — jump to nnn plus V0.
    fn jump_to_v0_plus_pl(&mut self)
        ensures
            *final(self) == (CPU {
                pc: (op_xyz(old(self).opcode.value) + old(self).regs@[0]) as u16,
                ..*old(self)
            }),
    {
        let v0 = self.regs[0] as u16;
        let nnn = self.opcode.xyz();
        self.pc = nnn.wrapping_add(v0);
    }

    /// RND Vx,byte: Cxkk — load a random byte masked by kk into Vx. The byte
    /// comes from the system generator, so only its masking is promised.
    fn set_vx_rand_byte_and_pl(&mut self)
        requires
            old(self).pc <= 4094,
        ensures
            ({
                let v = old(self).opcode.value;
                &&& *final(self) == (CPU {
                    regs: final(self).regs,
                    pc: (old(self).pc + 2) as u16,
                    ..*old(self)
                })
                &&& exists|b: u8|
                    final(self).regs@ == old(self).regs@.update(
                        op_x(v) as int,
                        #[trigger] (b & (op_yz(v) as u8)),
                    )
            }),
    {
        let x = self.opcode.x();
        let b: u8 = rand::random::<u8>();
        let masked = b & (self.opcode.yz() as u8);
        self.regs[x] = masked;
        self.pc = self.pc + 2;
        proof {
            let v = old(self).opcode.value;
            assert(final(self).regs@ == old(self).regs@.update(op_x(v) as int, b & (op_yz(v) as u8)));
        }
    }

    /// DRW Vx,Vy,n: Dxyn — XOR-draw the n-byte sprite at memory[I..] onto the
    /// display at the wrapped coordinates (Vx, Vy); VF becomes 1 exactly when
    /// a set pixel was cleared. Reading past address 4095 is `OutOfMemory`.
    fn display_sprite_set_vf_collision(&mut self) -> (r: Result<(), MachineError>)
        requires
            old(self).pc <= 4094,
        ensures
            ({
                let v = old(self).opcode.value;
                let i0 = old(self).index as int;
                let z = op_z(v) as int;
                let sprite = old(self).mem@.subrange(i0, i0 + z);
                let sx = old(self).regs@[op_x(v) as int] as int;
                let sy = old(self).regs@[op_y(v) as int] as int;
                if i0 + z > 4096 {
                    r == Err::<(), MachineError>(MachineError::OutOfMemory) && *final(self) == *old(
                        self,
                    )
                } else {
                    &&& r == Ok::<(), MachineError>(())
                    &&& *final(self) == (CPU {
                        regs: final(self).regs,
                        display: final(self).display,
                        pc: (old(self).pc + 2) as u16,
                        ..*old(self)
                    })
                    &&& final(self).display.pixels@ == blit_grid(
                        old(self).display.pixels@,
                        sprite,
                        sx,
                        sy,
                    )
                    &&& final(self).regs@ == old(self).regs@.update(
                        15,
                        if blit_collides(old(self).display.pixels@, sprite, sx, sy) {
                            1u8
                        } else {
                            0u8
                        },
                    )
                }
            }),
    {
        let x = self.regs[self.opcode.x()] as usize;
        let y = self.regs[self.opcode.y()] as usize;
        let z = self.opcode.z();
        let i0 = self.index as usize;
        if i0 > 4096 || z > 4096 - i0 {
            return Err(MachineError::OutOfMemory);
        }
        self.regs[0xF] = 0;
        let mut new: Vec<u8> = Vec::new();
        let mut i: usize = 0;
        while i < z
            invariant
                i <= z,
                i0 + z <= 4096,
                *self == (CPU { regs: self.regs, ..*old(self) }),
                i0 == old(self).index as int,
                new@ == old(self).mem@.subrange(i0 as int, i0 + i),
            decreases z - i,
        {
            new.push(self.mem[i + i0]);
            proof {
                assert(old(self).mem@.subrange(i0 as int, i0 + i + 1) =~= old(self).mem@.subrange(
                    i0 as int,
                    i0 + i as int,
                ).push(old(self).mem@[i0 + i]));
            }
            i = i + 1;
        }
        let rv = self.display.write_bytes(new, x, y);
        self.regs[0xF] = rv;
        self.pc = self.pc + 2;
        proof {
            assert(final(self).regs@ =~= old(self).regs@.update(
                15,
                final(self).regs@[15int],
            ));
        }
        Ok(())
    }

    /// SKP Vx: Ex9E — skip the next instruction when the key with value Vx
    /// is held down.
    fn skip_instr_if_vx_pressed(&mut self)
        requires
            old(self).pc <= 4094,
        ensures
            ({
                let v = old(self).opcode.value;
                let vx = old(self).regs@[op_x(v) as int];
                *final(self) == (CPU {
                    pc: if old(self).keyboard.value_pressed_from(vx, 0) {
                        (old(self).pc + 4) as u16
                    } else {
                        (old(self).pc + 2) as u16
                    },
                    ..*old(self)
                })
            }),
    {
        let vx = self.regs[self.opcode.x()];
        if self.keyboard.check_value_pressed(vx) {
            self.pc = self.pc + 2;
        }
        self.pc = self.pc + 2;
    }

    /// SKNP Vx: ExA1 — skip the next instruction when the key with value Vx
    /// is not held down.
    fn skip_instr_if_vx_not_pressed(&mut self)
        requires
            old(self).pc <= 4094,
        ensures
            ({
                let v = old(self).opcode.value;
                let vx = old(self).regs@[op_x(v) as int];
                *final(self) == (CPU {
                    pc: if !old(self).keyboard.value_pressed_from(vx, 0) {
                        (old(self).pc + 4) as u16
                    } else {
                        (old(self).pc + 2) as u16
                    },
                    ..*old(self)
                })
            }),
    {
        let vx = self.regs[self.opcode.x()];
        if !self.keyboard.check_value_pressed(vx) {
            self.pc = self.pc + 2;
        }
        self.pc = self.pc + 2;
    }

    /// LD Vx,DT: Fx07 — read the delay timer into Vx.
    fn set_vx_to_delay_timer_val(&mut self)
        requires
            old(self).pc <= 4094,
        ensures
            ({
                let v = old(self).opcode.value;
                &&& *final(self) == (CPU {
                    regs: final(self).regs,
                    pc: (old(self).pc + 2) as u16,
                    ..*old(self)
                })
                &&& final(self).regs@ == old(self).regs@.update(
                    op_x(v) as int,
                    old(self).delay_timer.delay,
                )
            }),
    {
        let d = self.delay_timer.get_delay();
        self.regs[self.opcode.x()] = d;
        self.pc = self.pc + 2;
    }

    /// LD Vx,K: Fx0A — wait for a key. While no key is down nothing changes,
    /// the program counter included, so the instruction runs again next
    /// cycle. Once a key is observed its value lands in Vx, the whole keypad
    /// is released, and the program counter moves on.
    fn wait_for_key_and_store_in_vx(&mut self)
        requires
            old(self).pc <= 4094,
        ensures
            ({
                let v = old(self).opcode.value;
                match old(self).keyboard.first_pressed_from(0) {
                    Option::None => *final(self) == *old(self),
                    Option::Some(k) => {
                        &&& *final(self) == (CPU {
                            regs: final(self).regs,
                            keyboard: final(self).keyboard,
                            pc: (old(self).pc + 2) as u16,
                            ..*old(self)
                        })
                        &&& final(self).regs@ == old(self).regs@.update(op_x(v) as int, k)
                        &&& forall|i: int|
                            0 <= i < 16 ==> (#[trigger] final(self).keyboard.spec_key(i)) == (Key {
                                is_pressed: false,
                                value: old(self).keyboard.spec_key(i).value,
                            })
                    },
                }
            }),
    {
        match self.keyboard.get_pressed_key() {
            Some(value) => {
                let x = self.opcode.x();
                self.regs[x] = value;
                self.keyboard.reset();
                self.pc = self.pc + 2;
            },
            None => {},
        }
    }

    /// LD DT,Vx: Fx15 — arm the delay timer with Vx, starting its 60 Hz
    /// countdown at the given clock reading.
    fn set_delay_timer_to_vx(&mut self, now_nanos: u64)
        requires
            old(self).pc <= 4094,
        ensures
            ({
                let v = old(self).opcode.value;
                *final(self) == (CPU {
                    delay_timer: (Timer {
                        last_nanos: Option::Some(now_nanos),
                        delay: old(self).regs@[op_x(v) as int],
                        duration: old(self).delay_timer.duration,
                    }),
                    pc: (old(self).pc + 2) as u16,
                    ..*old(self)
                })
            }),
    {
        let vx = self.regs[self.opcode.x()];
        self.delay_timer.set_delay(vx, now_nanos);
        self.pc = self.pc + 2;
    }

    /// LD ST,Vx: Fx18 — arm the sound timer with Vx; while it is above zero
    /// the audio gate stays open.
    fn set_sound_timer_to_vx(&mut self, now_nanos: u64)
        requires
            old(self).pc <= 4094,
        ensures
            ({
                let v = old(self).opcode.value;
                *final(self) == (CPU {
                    sound_timer: (Timer {
                        last_nanos: Option::Some(now_nanos),
                        delay: old(self).regs@[op_x(v) as int],
                        duration: old(self).sound_timer.duration,
                    }),
                    pc: (old(self).pc + 2) as u16,
                    ..*old(self)
                })
            }),
    {
        let vx = self.regs[self.opcode.x()];
        self.sound_timer.set_delay(vx, now_nanos);
        self.pc = self.pc + 2;
    }

    /// ADD I,Vx: Fx1E — add Vx into the index register with 12-bit masking;
    /// VF becomes 1 when the sum passed 0xFFF and 0 otherwise.
    fn increment_index_register_by_vx(&mut self)
        requires
            old(self).pc <= 4094,
        ensures
            ({
                let v = old(self).opcode.value;
                let s = old(self).index + old(self).regs@[op_x(v) as int];
                &&& *final(self) == (CPU {
                    index: final(self).index,
                    regs: final(self).regs,
                    pc: (old(self).pc + 2) as u16,
                    ..*old(self)
                })
                &&& final(self).index == s % 4096
                &&& final(self).regs@ == old(self).regs@.update(
                    15,
                    if s > 0xFFF {
                        1u8
                    } else {
                        0u8
                    },
                )
            }),
    {
        let x = self.opcode.x();
        let r: u32 = self.index as u32 + self.regs[x] as u32;
        proof {
            assert(r & 0xFFF == r % 4096) by (bit_vector);
        }
        self.index = (r & 0xFFF) as u16;
        if r > 0xFFF {
            self.regs[0xF] = 1;
        } else {
            self.regs[0xF] = 0;
        }
        self.pc = self.pc + 2;
    }

    /// LD F,Vx: Fx29 — point the index register at the font glyph for digit
    /// Vx; each glyph is 5 bytes, so the address is Vx times 5.
    fn set_index_register_to_vx_sprite(&mut self)
        requires
            old(self).pc <= 4094,
        ensures
            ({
                let v = old(self).opcode.value;
                *final(self) == (CPU {
                    index: (old(self).regs@[op_x(v) as int] * 5) as u16,
                    pc: (old(self).pc + 2) as u16,
                    ..*old(self)
                })
            }),
    {
        let vx = self.regs[self.opcode.x()];
        self.index = (vx as u16) * 5;
        self.pc = self.pc + 2;
    }

    /// LD B,Vx: Fx33 — write the three decimal digits of Vx (hundreds, tens,
    /// ones) at memory[I], memory[I+1], memory[I+2]. Writing past address
    /// 4095 is `OutOfMemory`.
    fn store_bcd_of_vx_3bytes(&mut self) -> (r: Result<(), MachineError>)
        requires
            old(self).pc <= 4094,
        ensures
            ({
                let v = old(self).opcode.value;
                let vx = old(self).regs@[op_x(v) as int];
                let i0 = old(self).index as int;
                if i0 + 2 > 4095 {
                    r == Err::<(), MachineError>(MachineError::OutOfMemory) && *final(self) == *old(
                        self,
                    )
                } else {
                    &&& r == Ok::<(), MachineError>(())
                    &&& *final(self) == (CPU {
                        mem: final(self).mem,
                        pc: (old(self).pc + 2) as u16,
                        ..*old(self)
                    })
                    &&& final(self).mem@ == old(self).mem@.update(i0, (vx / 100) as u8).update(
                        i0 + 1,
                        ((vx % 100) / 10) as u8,
                    ).update(i0 + 2, (vx % 10) as u8)
                }
            }),
    {
        let i0 = self.index as usize;
        if i0 + 2 > 4095 {
            return Err(MachineError::OutOfMemory);
        }
        let vx = self.regs[self.opcode.x()];
        self.mem[i0] = vx / 100;
        self.mem[i0 + 1] = (vx % 100) / 10;
        self.mem[i0 + 2] = vx % 10;
        self.pc = self.pc + 2;
        Ok(())
    }

    /// LD [I],Vx: Fx55 — store registers 0 through x at memory[I..I+x]; the
    /// index register itself stays unchanged. Writing past address 4095 is
    /// `OutOfMemory`.
    fn store_registers_through_vx(&mut self) -> (r: Result<(), MachineError>)
        requires
            old(self).pc <= 4094,
        ensures
            ({
                let v = old(self).opcode.value;
                let x = op_x(v) as int;
                let i0 = old(self).index as int;
                if i0 + x > 4095 {
                    r == Err::<(), MachineError>(MachineError::OutOfMemory) && *final(self) == *old(
                        self,
                    )
                } else {
                    &&& r == Ok::<(), MachineError>(())
                    &&& *final(self) == (CPU {
                        mem: final(self).mem,
                        pc: (old(self).pc + 2) as u16,
                        ..*old(self)
                    })
                    &&& final(self).mem@ == store_regs_mem(old(self).mem@, old(self).regs@, i0, x)
                }
            }),
    {
        let x = self.opcode.x();
        let i0 = self.index as usize;
        if i0 > 4095 || x > 4095 - i0 {
            return Err(MachineError::OutOfMemory);
        }
        let mut i: usize = 0;
        while i < x + 1
            invariant
                i <= x + 1,
                x < 16,
                i0 + x <= 4095,
                x == op_x(old(self).opcode.value) as int,
                i0 == old(self).index as int,
                *self == (CPU { mem: self.mem, ..*old(self) }),
                self.mem@.len() == 4096,
                forall|k: int| i0 <= k < i0 + i ==> self.mem@[k] == old(self).regs@[k - i0],
                forall|k: int|
                    0 <= k < 4096 && !(i0 <= k < i0 + i) ==> self.mem@[k] == old(self).mem@[k],
            decreases x + 1 - i,
        {
            self.mem[i0 + i] = self.regs[i];
            i = i + 1;
        }
        self.pc = self.pc + 2;
        proof {
            assert(final(self).mem@ =~= store_regs_mem(
                old(self).mem@,
                old(self).regs@,
                i0 as int,
                x as int,
            ));
        }
        Ok(())
    }

    /// LD Vx,[I]: Fx65 — load registers 0 through x from memory[I..I+x]; the
    /// index register itself stays unchanged. Reading past address 4095 is
    /// `OutOfMemory`.
    fn read_registers_through_vx(&mut self) -> (r: Result<(), MachineError>)
        requires
            old(self).pc <= 4094,
        ensures
            ({
                let v = old(self).opcode.value;
                let x = op_x(v) as int;
                let i0 = old(self).index as int;
                if i0 + x > 4095 {
                    r == Err::<(), MachineError>(MachineError::OutOfMemory) && *final(self) == *old(
                        self,
                    )
                } else {
                    &&& r == Ok::<(), MachineError>(())
                    &&& *final(self) == (CPU {
                        regs: final(self).regs,
                        pc: (old(self).pc + 2) as u16,
                        ..*old(self)
                    })
                    &&& final(self).regs@ == load_regs_regs(old(self).mem@, old(self).regs@, i0, x)
                }
            }),
    {
        let x = self.opcode.x();
        let i0 = self.index as usize;
        if i0 > 4095 || x > 4095 - i0 {
            return Err(MachineError::OutOfMemory);
        }
        let mut i: usize = 0;
        while i < x + 1
            invariant
                i <= x + 1,
                x < 16,
                i0 + x <= 4095,
                x == op_x(old(self).opcode.value) as int,
                i0 == old(self).index as int,
                *self == (CPU { regs: self.regs, ..*old(self) }),
                self.regs@.len() == 16,
                forall|k: int| 0 <= k < i ==> self.regs@[k] == old(self).mem@[i0 + k],
                forall|k: int| i <= k < 16 ==> self.regs@[k] == old(self).regs@[k],
            decreases x + 1 - i,
        {
            self.regs[i] = self.mem[i0 + i];
            i = i + 1;
        }
        self.pc = self.pc + 2;
        proof {
            assert(final(self).regs@ =~= load_regs_regs(
                old(self).mem@,
                old(self).regs@,
                i0 as int,
                x as int,
            ));
        }
        Ok(())
    }

    /// Dispatch the latched opcode to its one handler. The caller has fetched
    /// and decoded it, so the program counter is known fetchable; the clock
    /// reading is handed through for the two timer-arming instructions.
    pub fn run_opcode_instruction(&mut self, now_nanos: u64) -> (r: Result<(), MachineError>)
        requires
            old(self).pc <= 4094,
            old(self).stack_ok(),
        ensures
            step_effect(*old(self), *final(self), now_nanos, r),
            final(self).stack_ok(),
    {
        match self.opcode.instr {
            Instruction::SysAddressJump_0x0NNN => {
                self.system_address_jump();
                Ok(())
            },
            Instruction::ClearDisplay_0x00E0 => {
                self.clear_display();
                Ok(())
            },
            Instruction::RetFromSubroutine_0x00EE => self.return_from_sub(),
            Instruction::JumpLocation_0x1NNN => {
                self.jump_to_location();
                Ok(())
            },
            Instruction::CallSubroutine_0x2NNN => {
                let r = self.call_subroutine();
                proof {
                    if old(self).stack@.len() < 16 {
                        assert(final(self).stack@ == old(self).stack@.push(old(self).pc));
                        assert forall|i: int|
                            0 <= i < final(self).stack@.len() implies final(self).stack@[i]
                            <= 4094 by {
                            if i < old(self).stack@.len() {
                                assert(old(self).stack@[i] <= 4094);
                            }
                        }
                    }
                }
                r
            },
            Instruction::SkipInstrIfVxEqPL_0x3XNN => {
                self.skip_instr_if_vx_eq_pl();
                Ok(())
            },
            Instruction::SkipInstrIfVxNotEqPL_0x4XNN => {
                self.skip_instr_if_vx_neq_pl();
                Ok(())
            },
            Instruction::SkipInstrIfVxVy_0x5XY0 => {
                self.skip_instr_if_vx_eq_vy();
                Ok(())
            },
            Instruction::SetVxToPL_0x6XNN => {
                self.set_vx_to_pl();
                Ok(())
            },
            Instruction::IncrementVxByPL_0x7XNN => {
                self.increment_vx_by_pl();
                Ok(())
            },
            Instruction::SetVxToVy_0x8XY0 => {
                self.set_vx_to_vy();
                Ok(())
            },
            Instruction::SetVxToVxORVy_0x8XY1 => {
                self.set_vx_to_vx_or_vy();
                Ok(())
            },
            Instruction::SetVxToVxANDVy_0x8XY2 => {
                self.set_vx_to_vx_and_vy();
                Ok(())
            },
            Instruction::SetVxToVxXORVy_0x8XY3 => {
                self.set_vx_to_vx_xor_vy();
                Ok(())
            },
            Instruction::IncrementVxByVyAndCarry_0x8XY4 => {
                self.increment_vx_by_vy_carry();
                Ok(())
            },
            Instruction::DecrementVxByVyNoBorrow_0x8XY5 => {
                self.decrement_vx_by_vy_no_borrow();
                Ok(())
            },
            Instruction::ShiftAndRotateVxRight_0x8XY6 => {
                self.shift_and_rotate_vx_right();
                Ok(())
            },
            Instruction::DecrementVyByVxNoBorrow_0x8XY7 => {
                self.decrement_vy_by_vx_no_borrow();
                Ok(())
            },
            Instruction::ShiftAndRotateVxLeft_0x8XYE => {
                self.shift_and_rotate_vx_left();
                Ok(())
            },
            Instruction::SkipInstrIfVxNotVy_0x9XY0 => {
                self.skip_instr_if_vx_not_vy();
                Ok(())
            },
            Instruction::SetIndexRegToPL_0xANNN => {
                self.set_index_register_to_pl();
                Ok(())
            },
            Instruction::JumpToV0PlusPL_0xBNNN => {
                self.jump_to_v0_plus_pl();
                Ok(())
            },
            Instruction::SetVxRandByteANDPL_0xCXNN => {
                self.set_vx_rand_byte_and_pl();
                Ok(())
            },
            Instruction::DisplaySpriteSetVfColl_0xDXYN => self.display_sprite_set_vf_collision(),
            Instruction::SkipInstrIfVxPressed_0xEX9E => {
                self.skip_instr_if_vx_pressed();
                Ok(())
            },
            Instruction::SkipInstrIfVxNotPressed_0xEXA1 => {
                self.skip_instr_if_vx_not_pressed();
                Ok(())
            },
            Instruction::SetVxToDelayTimerVal_0xFX07 => {
                self.set_vx_to_delay_timer_val();
                Ok(())
            },
            Instruction::WaitForKeyStoreInVx_0xFX0A => {
                self.wait_for_key_and_store_in_vx();
                Ok(())
            },
            Instruction::SetDelayTimerToVx_0xFX15 => {
                self.set_delay_timer_to_vx(now_nanos);
                Ok(())
            },
            Instruction::SetSoundTimerToVx_0xFX18 => {
                self.set_sound_timer_to_vx(now_nanos);
                Ok(())
            },
            Instruction::IncrementIndexRegByVx_0xFX1E => {
                self.increment_index_register_by_vx();
                Ok(())
            },
            Instruction::SetIndexRegToVxSprite_0xFX29 => {
                self.set_index_register_to_vx_sprite();
                Ok(())
            },
            Instruction::StoreBCDOfVxIn3Bytes_0xFX33 => self.store_bcd_of_vx_3bytes(),
            Instruction::StoreRegsUptoVx_0xFX55 => self.store_registers_through_vx(),
            Instruction::ReadRegsUptoVx_0xFX65 => self.read_registers_through_vx(),
        }
    }

    /// One fetch-decode-execute cycle at clock reading `now_nanos`. The word
    /// at the program counter is fetched big-endian and decoded; a program
    /// counter past the last fetchable pair or an undecodable word aborts
    /// with the machine unchanged. Otherwise the opcode is latched, both
    /// timers advance, and the one handler runs. On success the side effects
    /// say whether to repaint (a sprite was drawn) and whether the tone
    /// plays (the sound timer was running when the cycle began).
    pub fn cycle(&mut self, now_nanos: u64) -> (r: Result<SideEffects, MachineError>)
        requires
            old(self).stack_ok(),
        ensures
            cycle_effect(*old(self), *final(self), now_nanos, r),
            final(self).stack_ok(),
    {
        let audio_on = self.sound_timer.get_delay() != 0;
        if self.pc >= 4095 {
            return Err(MachineError::OutOfMemory);
        }
        let pcu = self.pc as usize;
        let w: u16 = (self.mem[pcu] as u16) << 8 | (self.mem[pcu + 1] as u16);
        match parse_opcode(w) {
            Err(e) => {
                return Err(e);
            },
            Ok(_) => {},
        }
        self.opcode = self.opcode_at_address(pcu);
        self.delay_timer.touch(now_nanos);
        self.sound_timer.touch(now_nanos);
        let redraw = matches!(self.opcode.instr, Instruction::DisplaySpriteSetVfColl_0xDXYN);
        proof {
            assert(self.opcode == (Opcode { value: w, instr: spec_parse(w)->Some_0 }));
            assert(*self == (CPU {
                opcode: (Opcode { value: w, instr: spec_parse(w)->Some_0 }),
                delay_timer: old(self).delay_timer.spec_touched(now_nanos),
                sound_timer: old(self).sound_timer.spec_touched(now_nanos),
                ..*old(self)
            }));
        }
        match self.run_opcode_instruction(now_nanos) {
            Ok(()) => Ok(SideEffects { redraw, audio_on }),
            Err(e) => Err(e),
        }
    }

    /// The opcode stored big-endian at `address`. The caller answers for the
    /// address being fetchable and the word decoding to an instruction;
    /// `cycle` checks both and fails loudly instead.
    pub fn opcode_at_address(&self, address: usize) -> (r: Opcode)
        requires
            address + 1 < 4096,
            spec_parse(word_of(self.mem@[address as int], self.mem@[address as int + 1])) is Some,
        ensures
            r.value == word_of(self.mem@[address as int], self.mem@[address as int + 1]),
            r.wf(),
    {
        Opcode::from_bytes(self.mem[address], self.mem[address + 1])
    }
}

/// What one executed instruction does to the machine: the exact relation
/// between the state before (`pre`, whose latched opcode is the instruction)
/// and after (`post`), the clock reading handed to the timer-arming
/// instructions, and the handler's result. This is the authority `cycle`'s
/// contract appeals to, one arm per instruction.
pub open spec fn step_effect(pre: CPU, post: CPU, now: u64, r: Result<(), MachineError>) -> bool {
    let v = pre.opcode.value;
    let x = op_x(v) as int;
    let vx = pre.regs@[x];
    let vy = pre.regs@[op_y(v) as int];
    let pc2 = (pre.pc + 2) as u16;
    let pc4 = (pre.pc + 4) as u16;
    let ok = Ok::<(), MachineError>(());
    match pre.opcode.instr {
        Instruction::SysAddressJump_0x0NNN => r == ok && post == (CPU { pc: pc2, ..pre }),
        Instruction::ClearDisplay_0x00E0 => {
            &&& r == ok
            &&& post == (CPU { display: post.display, pc: pc2, ..pre })
            &&& post.display.pixels@.len() == 2048
            &&& forall|p: int| 0 <= p < 2048 ==> !post.display.pixels@[p]
        },
        Instruction::RetFromSubroutine_0x00EE => {
            if pre.stack@.len() == 0 {
                r == Err::<(), MachineError>(MachineError::StackFault) && post == pre
            } else {
                &&& r == ok
                &&& post == (CPU {
                    stack: post.stack,
                    pc: (pre.stack@.last() + 2) as u16,
                    ..pre
                })
                &&& post.stack@ == pre.stack@.drop_last()
            }
        },
        Instruction::JumpLocation_0x1NNN => r == ok && post == (CPU { pc: op_xyz(v), ..pre }),
        Instruction::CallSubroutine_0x2NNN => {
            if pre.stack@.len() < 16 {
                &&& r == ok
                &&& post == (CPU { stack: post.stack, pc: op_xyz(v), ..pre })
                &&& post.stack@ == pre.stack@.push(pre.pc)
            } else {
                r == Err::<(), MachineError>(MachineError::StackFault) && post == pre
            }
        },
        Instruction::SkipInstrIfVxEqPL_0x3XNN => r == ok && post == (CPU {
            pc: if vx == op_yz(v) as u8 {
                pc4
            } else {
                pc2
            },
            ..pre
        }),
        Instruction::SkipInstrIfVxNotEqPL_0x4XNN => r == ok && post == (CPU {
            pc: if vx != op_yz(v) as u8 {
                pc4
            } else {
                pc2
            },
            ..pre
        }),
        Instruction::SkipInstrIfVxVy_0x5XY0 => r == ok && post == (CPU {
            pc: if vx == vy {
                pc4
            } else {
                pc2
            },
            ..pre
        }),
        Instruction::SetVxToPL_0x6XNN => {
            &&& r == ok
            &&& post == (CPU { regs: post.regs, pc: pc2, ..pre })
            &&& post.regs@ == pre.regs@.update(x, op_yz(v) as u8)
        },
        Instruction::IncrementVxByPL_0x7XNN => {
            &&& r == ok
            &&& post == (CPU { regs: post.regs, pc: pc2, ..pre })
            &&& post.regs@ == pre.regs@.update(x, wrap8(vx + op_yz(v)))
        },
        Instruction::SetVxToVy_0x8XY0 => {
            &&& r == ok
            &&& post == (CPU { regs: post.regs, pc: pc2, ..pre })
            &&& post.regs@ == pre.regs@.update(x, vy)
        },
        Instruction::SetVxToVxORVy_0x8XY1 => {
            &&& r == ok
            &&& post == (CPU { regs: post.regs, pc: pc2, ..pre })
            &&& post.regs@ == pre.regs@.update(x, vx | vy)
        },
        Instruction::SetVxToVxANDVy_0x8XY2 => {
            &&& r == ok
            &&& post == (CPU { regs: post.regs, pc: pc2, ..pre })
            &&& post.regs@ == pre.regs@.update(x, vx & vy)
        },
        Instruction::SetVxToVxXORVy_0x8XY3 => {
            &&& r == ok
            &&& post == (CPU { regs: post.regs, pc: pc2, ..pre })
            &&& post.regs@ == pre.regs@.update(x, vx ^ vy)
        },
        Instruction::IncrementVxByVyAndCarry_0x8XY4 => {
            &&& r == ok
            &&& post == (CPU { regs: post.regs, pc: pc2, ..pre })
            &&& post.regs@ == pre.regs@.update(
                15,
                if vx + vy > 255 {
                    1u8
                } else {
                    0u8
                },
            ).update(x, wrap8(vx + vy))
        },
        Instruction::DecrementVxByVyNoBorrow_0x8XY5 => {
            &&& r == ok
            &&& post == (CPU { regs: post.regs, pc: pc2, ..pre })
            &&& post.regs@ == pre.regs@.update(
                15,
                if vx > vy {
                    1u8
                } else {
                    0u8
                },
            ).update(x, wrap8(vx - vy))
        },
        Instruction::ShiftAndRotateVxRight_0x8XY6 => {
            &&& r == ok
            &&& post == (CPU { regs: post.regs, pc: pc2, ..pre })
            &&& post.regs@ == pre.regs@.update(15, vx & 1).update(x, vx >> 1u8)
        },
        Instruction::DecrementVyByVxNoBorrow_0x8XY7 => {
            &&& r == ok
            &&& post == (CPU { regs: post.regs, pc: pc2, ..pre })
            &&& post.regs@ == pre.regs@.update(
                15,
                if vy > vx {
                    1u8
                } else {
                    0u8
                },
            ).update(x, wrap8(vy - vx))
        },
        Instruction::ShiftAndRotateVxLeft_0x8XYE => {
            &&& r == ok
            &&& post == (CPU { regs: post.regs, pc: pc2, ..pre })
            &&& post.regs@ == pre.regs@.update(15, vx >> 7u8).update(x, wrap8(vx + vx))
        },
        Instruction::SkipInstrIfVxNotVy_0x9XY0 => r == ok && post == (CPU {
            pc: if vx != vy {
                pc4
            } else {
                pc2
            },
            ..pre
        }),
        Instruction::SetIndexRegToPL_0xANNN => r == ok && post == (CPU {
            index: op_xyz(v),
            pc: pc2,
            ..pre
        }),
        Instruction::JumpToV0PlusPL_0xBNNN => r == ok && post == (CPU {
            pc: (op_xyz(v) + pre.regs@[0]) as u16,
            ..pre
        }),
        Instruction::SetVxRandByteANDPL_0xCXNN => {
            &&& r == ok
            &&& post == (CPU { regs: post.regs, pc: pc2, ..pre })
            &&& exists|b: u8| post.regs@ == pre.regs@.update(x, #[trigger] (b & (op_yz(v) as u8)))
        },
        Instruction::DisplaySpriteSetVfColl_0xDXYN => {
            let i0 = pre.index as int;
            let z = op_z(v) as int;
            let sprite = pre.mem@.subrange(i0, i0 + z);
            if i0 + z > 4096 {
                r == Err::<(), MachineError>(MachineError::OutOfMemory) && post == pre
            } else {
                &&& r == ok
                &&& post == (CPU { regs: post.regs, display: post.display, pc: pc2, ..pre })
                &&& post.display.pixels@ == blit_grid(
                    pre.display.pixels@,
                    sprite,
                    vx as int,
                    vy as int,
                )
                &&& post.regs@ == pre.regs@.update(
                    15,
                    if blit_collides(pre.display.pixels@, sprite, vx as int, vy as int) {
                        1u8
                    } else {
                        0u8
                    },
                )
            }
        },
        Instruction::SkipInstrIfVxPressed_0xEX9E => r == ok && post == (CPU {
            pc: if pre.keyboard.value_pressed_from(vx, 0) {
                pc4
            } else {
                pc2
            },
            ..pre
        }),
        Instruction::SkipInstrIfVxNotPressed_0xEXA1 => r == ok && post == (CPU {
            pc: if !pre.keyboard.value_pressed_from(vx, 0) {
                pc4
            } else {
                pc2
            },
            ..pre
        }),
        Instruction::SetVxToDelayTimerVal_0xFX07 => {
            &&& r == ok
            &&& post == (CPU { regs: post.regs, pc: pc2, ..pre })
            &&& post.regs@ == pre.regs@.update(x, pre.delay_timer.delay)
        },
        Instruction::WaitForKeyStoreInVx_0xFX0A => {
            match pre.keyboard.first_pressed_from(0) {
                Option::None => r == ok && post == pre,
                Option::Some(k) => {
                    &&& r == ok
                    &&& post == (CPU {
                        regs: post.regs,
                        keyboard: post.keyboard,
                        pc: pc2,
                        ..pre
                    })
                    &&& post.regs@ == pre.regs@.update(x, k)
                    &&& forall|i: int|
                        0 <= i < 16 ==> (#[trigger] post.keyboard.spec_key(i)) == (Key {
                            is_pressed: false,
                            value: pre.keyboard.spec_key(i).value,
                        })
                },
            }
        },
        Instruction::SetDelayTimerToVx_0xFX15 => r == ok && post == (CPU {
            delay_timer: (Timer {
                last_nanos: Option::Some(now),
                delay: vx,
                duration: pre.delay_timer.duration,
            }),
            pc: pc2,
            ..pre
        }),
        Instruction::SetSoundTimerToVx_0xFX18 => r == ok && post == (CPU {
            sound_timer: (Timer {
                last_nanos: Option::Some(now),
                delay: vx,
                duration: pre.sound_timer.duration,
            }),
            pc: pc2,
            ..pre
        }),
        Instruction::IncrementIndexRegByVx_0xFX1E => {
            let s = pre.index + vx;
            &&& r == ok
            &&& post == (CPU { index: post.index, regs: post.regs, pc: pc2, ..pre })
            &&& post.index == s % 4096
            &&& post.regs@ == pre.regs@.update(
                15,
                if s > 0xFFF {
                    1u8
                } else {
                    0u8
                },
            )
        },
        Instruction::SetIndexRegToVxSprite_0xFX29 => r == ok && post == (CPU {
            index: (vx * 5) as u16,
            pc: pc2,
            ..pre
        }),
        Instruction::StoreBCDOfVxIn3Bytes_0xFX33 => {
            let i0 = pre.index as int;
            if i0 + 2 > 4095 {
                r == Err::<(), MachineError>(MachineError::OutOfMemory) && post == pre
            } else {
                &&& r == ok
                &&& post == (CPU { mem: post.mem, pc: pc2, ..pre })
                &&& post.mem@ == pre.mem@.update(i0, (vx / 100) as u8).update(
                    i0 + 1,
                    ((vx % 100) / 10) as u8,
                ).update(i0 + 2, (vx % 10) as u8)
            }
        },
        Instruction::StoreRegsUptoVx_0xFX55 => {
            let i0 = pre.index as int;
            if i0 + x > 4095 {
                r == Err::<(), MachineError>(MachineError::OutOfMemory) && post == pre
            } else {
                &&& r == ok
                &&& post == (CPU { mem: post.mem, pc: pc2, ..pre })
                &&& post.mem@ == store_regs_mem(pre.mem@, pre.regs@, i0, x)
            }
        },
        Instruction::ReadRegsUptoVx_0xFX65 => {
            let i0 = pre.index as int;
            if i0 + x > 4095 {
                r == Err::<(), MachineError>(MachineError::OutOfMemory) && post == pre
            } else {
                &&& r == ok
                &&& post == (CPU { regs: post.regs, pc: pc2, ..pre })
                &&& post.regs@ == load_regs_regs(pre.mem@, pre.regs@, i0, x)
            }
        },
    }
}

/// What one whole cycle does to the machine at clock reading `now`: an
/// unfetchable program counter or an undecodable word aborts with the
/// machine unchanged; otherwise the fetched opcode is latched, both timers
/// advance by one touch, and the instruction's own step relation holds. On
/// success the side effects ask for a repaint exactly when a sprite was
/// drawn, and gate the audio on exactly when the sound timer was running as
/// the cycle began.
pub open spec fn cycle_effect(
    pre: CPU,
    post: CPU,
    now: u64,
    r: Result<SideEffects, MachineError>,
) -> bool {
    let audio = pre.sound_timer.delay != 0;
    if pre.pc >= 4095 {
        r == Err::<SideEffects, MachineError>(MachineError::OutOfMemory) && post == pre
    } else {
        let w = word_of(pre.mem@[pre.pc as int], pre.mem@[pre.pc as int + 1]);
        match spec_parse(w) {
            Option::None => r == Err::<SideEffects, MachineError>(MachineError::UnknownOpcode(w))
                && post == pre,
            Option::Some(ins) => {
                let mid = CPU {
                    opcode: (Opcode { value: w, instr: ins }),
                    delay_timer: pre.delay_timer.spec_touched(now),
                    sound_timer: pre.sound_timer.spec_touched(now),
                    ..pre
                };
                match r {
                    Ok(se) => step_effect(mid, post, now, Ok::<(), MachineError>(())) && se == (
                    SideEffects {
                        redraw: ins == Instruction::DisplaySpriteSetVfColl_0xDXYN,
                        audio_on: audio,
                    }),
                    Err(e) => step_effect(mid, post, now, Err::<(), MachineError>(e)),
                }
            },
        }
    }
}

/// A jump lands exactly on its operand: whenever the step relation holds of
/// a machine whose latched instruction is `JP addr`, the new program counter
/// is the opcode's low 12 bits, with no offset, and nothing else of the
/// machine moves.
pub proof fn lemma_jump_sets_pc_exactly(
    pre: CPU,
    post: CPU,
    now: u64,
    r: Result<(), MachineError>,
)
    requires
        pre.opcode.instr == Instruction::JumpLocation_0x1NNN,
        step_effect(pre, post, now, r),
    ensures
        r == Ok::<(), MachineError>(()),
        post.pc == pre.opcode.value & 0xFFF,
        post.mem == pre.mem,
        post.regs == pre.regs,
        post.index == pre.index,
        post.stack == pre.stack,
        post.delay_timer == pre.delay_timer,
        post.sound_timer == pre.sound_timer,
        post.display == pre.display,
        post.keyboard == pre.keyboard,
{
}

/// A call followed by its matching return is a round trip: the call pushes
/// the call site's program counter as the one new stack entry and jumps to
/// its operand; the return, run on any later state that still carries that
/// stack, pops the entry and lands two bytes past the call.
pub proof fn lemma_call_then_ret_round_trip(
    pre: CPU,
    mid: CPU,
    mid2: CPU,
    post: CPU,
    now1: u64,
    now2: u64,
    r1: Result<(), MachineError>,
    r2: Result<(), MachineError>,
)
    requires
        pre.opcode.instr == Instruction::CallSubroutine_0x2NNN,
        pre.stack@.len() < 16,
        pre.pc <= 4094,
        step_effect(pre, mid, now1, r1),
        mid2.opcode.instr == Instruction::RetFromSubroutine_0x00EE,
        mid2.stack == mid.stack,
        step_effect(mid2, post, now2, r2),
    ensures
        r1 == Ok::<(), MachineError>(()),
        r2 == Ok::<(), MachineError>(()),
        mid.pc == pre.opcode.value & 0xFFF,
        mid.stack@ == pre.stack@.push(pre.pc),
        post.pc == pre.pc + 2,
        post.stack@ == pre.stack@,
{
    assert(pre.stack@.push(pre.pc).drop_last() =~= pre.stack@);
}

/// A seventeenth nested call is a fatal `StackFault` and moves nothing.
pub proof fn lemma_call_overflow_faults(
    pre: CPU,
    post: CPU,
    now: u64,
    r: Result<(), MachineError>,
)
    requires
        pre.opcode.instr == Instruction::CallSubroutine_0x2NNN,
        pre.stack@.len() >= 16,
        step_effect(pre, post, now, r),
    ensures
        r == Err::<(), MachineError>(MachineError::StackFault),
        post == pre,
{
}

/// A return with no call outstanding is a fatal `StackFault` and moves
/// nothing; no phantom address is ever popped.
pub proof fn lemma_ret_on_empty_faults(
    pre: CPU,
    post: CPU,
    now: u64,
    r: Result<(), MachineError>,
)
    requires
        pre.opcode.instr == Instruction::RetFromSubroutine_0x00EE,
        pre.stack@.len() == 0,
        step_effect(pre, post, now, r),
    ensures
        r == Err::<(), MachineError>(MachineError::StackFault),
        post == pre,
{
}

/// The block store/load round trip at the machine level: `LD [I],Vx` writes
/// registers 0 through x at the index register without moving it, and a
/// later `LD Vx,[I]` with the same x, the same index register and that
/// memory untouched reads the original register values back — whatever
/// happened to the registers in between — again without moving the index
/// register.
pub proof fn lemma_store_then_load_round_trip(
    pre: CPU,
    mid: CPU,
    mid2: CPU,
    post: CPU,
    now1: u64,
    now2: u64,
    r1: Result<(), MachineError>,
    r2: Result<(), MachineError>,
)
    requires
        pre.opcode.instr == Instruction::StoreRegsUptoVx_0xFX55,
        pre.index + op_x(pre.opcode.value) <= 4095,
        step_effect(pre, mid, now1, r1),
        mid2.opcode.instr == Instruction::ReadRegsUptoVx_0xFX65,
        op_x(mid2.opcode.value) == op_x(pre.opcode.value),
        mid2.index == pre.index,
        mid2.mem == mid.mem,
        step_effect(mid2, post, now2, r2),
    ensures
        r1 == Ok::<(), MachineError>(()),
        r2 == Ok::<(), MachineError>(()),
        mid.index == pre.index,
        post.index == pre.index,
        forall|i: int|
            0 <= i <= op_x(pre.opcode.value) ==> post.regs@[i] == pre.regs@[i],
        forall|i: int|
            op_x(pre.opcode.value) < i < 16 ==> post.regs@[i] == mid2.regs@[i],
{
    let x = op_x(pre.opcode.value) as int;
    let i0 = pre.index as int;
    crate::opcodes::lemma_field_bounds(pre.opcode.value);
    assert(mid.mem@ == store_regs_mem(pre.mem@, pre.regs@, i0, x));
    assert(post.regs@ == load_regs_regs(mid2.mem@, mid2.regs@, i0, x));
    assert forall|i: int| 0 <= i <= x implies post.regs@[i] == pre.regs@[i] by {
        assert(post.regs@[i] == mid2.mem@[i0 + i]);
        assert(store_regs_mem(pre.mem@, pre.regs@, i0, x)[i0 + i] == pre.regs@[i]);
    }
}

/// Eight consecutive memory bytes starting at `start`.
pub fn get_sub_arr(arr: &[u8; 4096], start: usize) -> (r: [u8; 8])
    requires
        start + 8 <= 4096,
    ensures
        forall|i: int| 0 <= i < 8 ==> r@[i] == arr@[start + i],
{
    let mut list: [u8; 8] = [0; 8];
    let mut i: usize = 0;
    while i < 8
        invariant
            i <= 8,
            start + 8 <= 4096,
            list@.len() == 8,
            forall|k: int| 0 <= k < i ==> list@[k] == arr@[start + k],
        decreases 8 - i,
    {
        list[i] = arr[i + start];
        i = i + 1;
    }
    list
}

} // verus!
