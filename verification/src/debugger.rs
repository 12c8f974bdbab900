use vstd::prelude::*;

use std::collections::VecDeque;
use vstd::string::StringExecFns;

use crate::opcodes::{lemma_field_bounds, op_x, op_xyz, op_y, op_yz, op_z, Instruction, Opcode};

verus! {

/// What the step debugger is doing between cycles.
#[derive(PartialEq, Eq, Structural, Debug, Clone, Copy)]
pub enum State {
    Quitting,
    Paused,
    Running,
}

/// A first-in, first-out queue that keeps at most `size` elements: pushing
/// onto a full queue drops the oldest element. The debugger keeps the most
/// recent disassembly lines in one.
pub struct LimitedFifoQueue<T> {
    pub size: usize,
    pub store: VecDeque<T>,
}

impl<T> LimitedFifoQueue<T> {
    pub fn new(size: usize) -> (q: LimitedFifoQueue<T>)
        ensures
            q.size == size,
            q.store@ == Seq::<T>::empty(),
    {
        let q = LimitedFifoQueue { size, store: VecDeque::with_capacity(size) };
        proof {
            assert(q.store@ =~= Seq::<T>::empty());
        }
        q
    }

    /// Put `elem` at the front; when the queue already holds `size` elements
    /// the element at the back — the oldest — falls off.
    pub fn push(&mut self, elem: T)
        ensures
            old(self).store@.len() < old(self).size ==> final(self).store@ == seq![elem] + old(
                self,
            ).store@,
            old(self).store@.len() >= old(self).size ==> final(self).store@ == (seq![elem] + old(
                self,
            ).store@).drop_last(),
            final(self).size == old(self).size,
    {
        self.store.push_front(elem);
        if self.store.len() > self.size {
            self.store.pop_back();
            proof {
                assert((seq![elem] + old(self).store@).drop_last() =~= self.store@);
            }
        }
    }

    /// Drop every element.
    pub fn clear(&mut self)
        ensures
            final(self).store@ == Seq::<T>::empty(),
            final(self).size == old(self).size,
    {
        self.store.clear();
        proof {
            assert(self.store@ =~= Seq::<T>::empty());
        }
    }

    /// How many elements the queue holds.
    pub fn len(&self) -> (n: usize)
        ensures
            n == self.store@.len(),
    {
        self.store.len()
    }

    /// The element `i` places from the front; the caller keeps `i` in range.
    pub fn get(&self, i: usize) -> (r: &T)
        requires
            i < self.store@.len(),
        ensures
            *r == self.store@[i as int],
    {
        &self.store[i]
    }
}

/// A string of `size` spaces, used to blank a terminal row.
pub fn blank_string(size: usize) -> (r: String)
    ensures
        r@.len() == size,
        forall|i: int| 0 <= i < size ==> r@[i] == ' ',
{
    let mut s = String::new();
    let mut i: usize = 0;
    while i < size
        invariant
            i <= size,
            s@.len() == i,
            forall|k: int| 0 <= k < i ==> s@[k] == ' ',
        decreases size - i,
    {
        s.append(" ");
        proof {
            reveal_strlit(" ");
        }
        i = i + 1;
    }
    s
}

/// The uppercase hexadecimal digit for a value below 16.
pub open spec fn hex_digit(d: int) -> char {
    if d == 0 {
        '0'
    } else if d == 1 {
        '1'
    } else if d == 2 {
        '2'
    } else if d == 3 {
        '3'
    } else if d == 4 {
        '4'
    } else if d == 5 {
        '5'
    } else if d == 6 {
        '6'
    } else if d == 7 {
        '7'
    } else if d == 8 {
        '8'
    } else if d == 9 {
        '9'
    } else if d == 10 {
        'A'
    } else if d == 11 {
        'B'
    } else if d == 12 {
        'C'
    } else if d == 13 {
        'D'
    } else if d == 14 {
        'E'
    } else {
        'F'
    }
}

/// One, two and three hexadecimal digits, zero padded.
pub open spec fn hex1(d: int) -> Seq<char> {
    seq![hex_digit(d)]
}

pub open spec fn hex2(b: int) -> Seq<char> {
    hex1(b / 16) + hex1(b % 16)
}

pub open spec fn hex3(n: int) -> Seq<char> {
    hex1(n / 256) + hex1(n / 16 % 16) + hex1(n % 16)
}

/// A nibble in decimal: one digit below ten, two digits from ten on.
pub open spec fn dec2(z: int) -> Seq<char> {
    if z < 10 {
        hex1(z)
    } else {
        seq!['1'] + hex1(z - 10)
    }
}

/// The uppercase hexadecimal digit of a value below 16, as text.
fn hex_digit_str(d: u16) -> (r: &'static str)
    requires
        d < 16,
    ensures
        r@ == hex1(d as int),
{
    if d == 0 {
        proof {
            reveal_strlit("0");
            assert("0"@ =~= hex1(0));
        }
        "0"
    } else if d == 1 {
        proof {
            reveal_strlit("1");
            assert("1"@ =~= hex1(1));
        }
        "1"
    } else if d == 2 {
        proof {
            reveal_strlit("2");
            assert("2"@ =~= hex1(2));
        }
        "2"
    } else if d == 3 {
        proof {
            reveal_strlit("3");
            assert("3"@ =~= hex1(3));
        }
        "3"
    } else if d == 4 {
        proof {
            reveal_strlit("4");
            assert("4"@ =~= hex1(4));
        }
        "4"
    } else if d == 5 {
        proof {
            reveal_strlit("5");
            assert("5"@ =~= hex1(5));
        }
        "5"
    } else if d == 6 {
        proof {
            reveal_strlit("6");
            assert("6"@ =~= hex1(6));
        }
        "6"
    } else if d == 7 {
        proof {
            reveal_strlit("7");
            assert("7"@ =~= hex1(7));
        }
        "7"
    } else if d == 8 {
        proof {
            reveal_strlit("8");
            assert("8"@ =~= hex1(8));
        }
        "8"
    } else if d == 9 {
        proof {
            reveal_strlit("9");
            assert("9"@ =~= hex1(9));
        }
        "9"
    } else if d == 10 {
        proof {
            reveal_strlit("A");
            assert("A"@ =~= hex1(10));
        }
        "A"
    } else if d == 11 {
        proof {
            reveal_strlit("B");
            assert("B"@ =~= hex1(11));
        }
        "B"
    } else if d == 12 {
        proof {
            reveal_strlit("C");
            assert("C"@ =~= hex1(12));
        }
        "C"
    } else if d == 13 {
        proof {
            reveal_strlit("D");
            assert("D"@ =~= hex1(13));
        }
        "D"
    } else if d == 14 {
        proof {
            reveal_strlit("E");
            assert("E"@ =~= hex1(14));
        }
        "E"
    } else {
        proof {
            reveal_strlit("F");
            assert("F"@ =~= hex1(15));
        }
        "F"
    }
}

/// A nibble in decimal, as text.
fn dec_str(z: u16) -> (r: String)
    requires
        z < 16,
    ensures
        r@ == dec2(z as int),
{
    if z < 10 {
        hex_digit_str(z).to_owned()
    } else {
        let mut s = ("1").to_owned();
        proof {
            reveal_strlit("1");
            assert("1"@ =~= seq!['1']);
        }
        s.append(hex_digit_str(z - 10));
        s
    }
}

/// The disassembly line for each instruction, with its operand fields in
/// uppercase hexadecimal (the sprite height in decimal).
pub open spec fn spec_disassembly(op: Opcode) -> Seq<char> {
    let v = op.value;
    let x = hex1(op_x(v) as int);
    let y = hex1(op_y(v) as int);
    let kk = hex2(op_yz(v) as int);
    let nnn = hex3(op_xyz(v) as int);
    match op.instr {
        Instruction::SysAddressJump_0x0NNN => "Jump to address "@ + nnn,
        Instruction::ClearDisplay_0x00E0 => "Clear the display"@,
        Instruction::RetFromSubroutine_0x00EE => "Return from sub: set pc = stack[sp] and set pc -= 1"@,
        Instruction::JumpLocation_0x1NNN => "Jump to address: set PC = 0x"@ + nnn,
        Instruction::CallSubroutine_0x2NNN => "Call subroutine: set PC = 0x"@ + nnn
            + ", set sp += 1, set pc = "@ + nnn,
        Instruction::SkipInstrIfVxEqPL_0x3XNN => "Skip instruction if v["@ + x + "] == 0x"@ + kk,
        Instruction::SkipInstrIfVxNotEqPL_0x4XNN => "Skip instruction if v["@ + x + "] != 0x"@
            + kk,
        Instruction::SkipInstrIfVxVy_0x5XY0 => "Skip instruction if v["@ + x + "] == v["@ + y
            + "]"@,
        Instruction::SetVxToPL_0x6XNN => "Set v["@ + x + "] to 0x"@ + kk,
        Instruction::IncrementVxByPL_0x7XNN => "Increment v["@ + x + "] by 0x"@ + kk,
        Instruction::SetVxToVy_0x8XY0 => "Set v["@ + x + "] to v["@ + y + "]"@,
        Instruction::SetVxToVxORVy_0x8XY1 => "Set v["@ + x + "] to v["@ + x + "] | v["@ + y
            + "]"@,
        Instruction::SetVxToVxANDVy_0x8XY2 => "Set v["@ + x + "] to v["@ + x + "] & v["@ + y
            + "]"@,
        Instruction::SetVxToVxXORVy_0x8XY3 => "Set v["@ + x + "] to v["@ + x + "] ^ v["@ + y
            + "]"@,
        Instruction::IncrementVxByVyAndCarry_0x8XY4 => "Increment v["@ + x + "] by v["@ + y
            + "](yy) and set v[F] = 1 if overflow"@,
        Instruction::DecrementVxByVyNoBorrow_0x8XY5 => "Decrement v["@ + x + "] by v["@ + y
            + "](yy) and set v[F] = 1 if v[x] > v["@ + y + "]"@,
        Instruction::ShiftAndRotateVxRight_0x8XY6 => "Shift and rotate v["@ + x + "] right"@,
        Instruction::DecrementVyByVxNoBorrow_0x8XY7 => "Decrement v["@ + y + "](yy) by v["@ + x
            + "] and set v[F] = 1 if v["@ + y + "] > v["@ + x + "]"@,
        Instruction::ShiftAndRotateVxLeft_0x8XYE => "Shift and rotate v["@ + x + "] left"@,
        Instruction::SkipInstrIfVxNotVy_0x9XY0 => "Skip instruction if v["@ + x + "] != v["@ + y
            + "]"@,
        Instruction::SetIndexRegToPL_0xANNN => "Set index to 0x"@ + nnn,
        Instruction::JumpToV0PlusPL_0xBNNN => "Jump to location: set pc = v[0] + 0x"@ + nnn,
        Instruction::SetVxRandByteANDPL_0xCXNN => "Set v["@ + x + "] to randbyte(0xNNN) & 0x"@
            + kk,
        Instruction::DisplaySpriteSetVfColl_0xDXYN => "Display "@ + dec2(op_z(v) as int)
            + "-byte sprite at (v["@ + x + "], v["@ + y + "]). Set v[F] = 1 if collision"@,
        Instruction::SkipInstrIfVxPressed_0xEX9E => "Skip instruction if v["@ + x
            + "](keycode) pressed"@,
        Instruction::SkipInstrIfVxNotPressed_0xEXA1 => "Skip instruction if v["@ + x
            + "](keycode) not pressed"@,
        Instruction::SetVxToDelayTimerVal_0xFX07 => "Set v["@ + x
            + "] to value of delay timer (xxx)"@,
        Instruction::WaitForKeyStoreInVx_0xFX0A => "Wait for key and store it's value in v["@ + x
            + "]"@,
        Instruction::SetDelayTimerToVx_0xFX15 => "Set delay timer to v["@ + x + "]"@,
        Instruction::SetSoundTimerToVx_0xFX18 => "Set sound timer to v["@ + x + "]"@,
        Instruction::IncrementIndexRegByVx_0xFX1E => "Set index = index + v["@ + x + "]"@,
        Instruction::SetIndexRegToVxSprite_0xFX29 => "Set index equal to the v["@ + x
            + "]th sprite (v["@ + x + "] * 5)"@,
        Instruction::StoreBCDOfVxIn3Bytes_0xFX33 => "Store BCD of v["@ + x
            + "](xxx) in mem[i], mem[i+1], mem[i+2]"@,
        Instruction::StoreRegsUptoVx_0xFX55 => "Store v[0] through v["@ + x
            + "] in mem[index] through mem[index + "@ + x + "]"@,
        Instruction::ReadRegsUptoVx_0xFX65 => "Store mem[index] through mem[index + "@ + x
            + "] in v[0] through v["@ + x + "]"@,
    }
}

/// The human-readable line for one opcode, exactly as `spec_disassembly`
/// spells it.
pub fn disassemble_opcode(opcode: &Opcode) -> (r: String)
    ensures
        r@ == spec_disassembly(*opcode),
{
    let v = opcode.value;
    proof {
        lemma_field_bounds(v);
    }
    let x = v >> 8 & 0xF;
    let y = v >> 4 & 0xF;
    let z = v & 0xF;
    let kk = v & 0xFF;
    let nnn = v & 0xFFF;
    match opcode.instr {
        Instruction::SysAddressJump_0x0NNN => {
            let mut s = ("Jump to address ").to_owned();
            append_hex3(&mut s, nnn);
            s
        },
        Instruction::ClearDisplay_0x00E0 => ("Clear the display").to_owned(),
        Instruction::RetFromSubroutine_0x00EE => (
        "Return from sub: set pc = stack[sp] and set pc -= 1").to_owned(),
        Instruction::JumpLocation_0x1NNN => {
            let mut s = ("Jump to address: set PC = 0x").to_owned();
            append_hex3(&mut s, nnn);
            s
        },
        Instruction::CallSubroutine_0x2NNN => {
            let mut s = ("Call subroutine: set PC = 0x").to_owned();
            append_hex3(&mut s, nnn);
            s.append(", set sp += 1, set pc = ");
            append_hex3(&mut s, nnn);
            s
        },
        Instruction::SkipInstrIfVxEqPL_0x3XNN => {
            let mut s = ("Skip instruction if v[").to_owned();
            s.append(hex_digit_str(x));
            s.append("] == 0x");
            append_hex2(&mut s, kk);
            s
        },
        Instruction::SkipInstrIfVxNotEqPL_0x4XNN => {
            let mut s = ("Skip instruction if v[").to_owned();
            s.append(hex_digit_str(x));
            s.append("] != 0x");
            append_hex2(&mut s, kk);
            s
        },
        Instruction::SkipInstrIfVxVy_0x5XY0 => {
            let mut s = ("Skip instruction if v[").to_owned();
            s.append(hex_digit_str(x));
            s.append("] == v[");
            s.append(hex_digit_str(y));
            s.append("]");
            s
        },
        Instruction::SetVxToPL_0x6XNN => {
            let mut s = ("Set v[").to_owned();
            s.append(hex_digit_str(x));
            s.append("] to 0x");
            append_hex2(&mut s, kk);
            s
        },
        Instruction::IncrementVxByPL_0x7XNN => {
            let mut s = ("Increment v[").to_owned();
            s.append(hex_digit_str(x));
            s.append("] by 0x");
            append_hex2(&mut s, kk);
            s
        },
        Instruction::SetVxToVy_0x8XY0 => {
            let mut s = ("Set v[").to_owned();
            s.append(hex_digit_str(x));
            s.append("] to v[");
            s.append(hex_digit_str(y));
            s.append("]");
            s
        },
        Instruction::SetVxToVxORVy_0x8XY1 => {
            let mut s = ("Set v[").to_owned();
            s.append(hex_digit_str(x));
            s.append("] to v[");
            s.append(hex_digit_str(x));
            s.append("] | v[");
            s.append(hex_digit_str(y));
            s.append("]");
            s
        },
        Instruction::SetVxToVxANDVy_0x8XY2 => {
            let mut s = ("Set v[").to_owned();
            s.append(hex_digit_str(x));
            s.append("] to v[");
            s.append(hex_digit_str(x));
            s.append("] & v[");
            s.append(hex_digit_str(y));
            s.append("]");
            s
        },
        Instruction::SetVxToVxXORVy_0x8XY3 => {
            let mut s = ("Set v[").to_owned();
            s.append(hex_digit_str(x));
            s.append("] to v[");
            s.append(hex_digit_str(x));
            s.append("] ^ v[");
            s.append(hex_digit_str(y));
            s.append("]");
            s
        },
        Instruction::IncrementVxByVyAndCarry_0x8XY4 => {
            let mut s = ("Increment v[").to_owned();
            s.append(hex_digit_str(x));
            s.append("] by v[");
            s.append(hex_digit_str(y));
            s.append("](yy) and set v[F] = 1 if overflow");
            s
        },
        Instruction::DecrementVxByVyNoBorrow_0x8XY5 => {
            let mut s = ("Decrement v[").to_owned();
            s.append(hex_digit_str(x));
            s.append("] by v[");
            s.append(hex_digit_str(y));
            s.append("](yy) and set v[F] = 1 if v[x] > v[");
            s.append(hex_digit_str(y));
            s.append("]");
            s
        },
        Instruction::ShiftAndRotateVxRight_0x8XY6 => {
            let mut s = ("Shift and rotate v[").to_owned();
            s.append(hex_digit_str(x));
            s.append("] right");
            s
        },
        Instruction::DecrementVyByVxNoBorrow_0x8XY7 => {
            let mut s = ("Decrement v[").to_owned();
            s.append(hex_digit_str(y));
            s.append("](yy) by v[");
            s.append(hex_digit_str(x));
            s.append("] and set v[F] = 1 if v[");
            s.append(hex_digit_str(y));
            s.append("] > v[");
            s.append(hex_digit_str(x));
            s.append("]");
            s
        },
        Instruction::ShiftAndRotateVxLeft_0x8XYE => {
            let mut s = ("Shift and rotate v[").to_owned();
            s.append(hex_digit_str(x));
            s.append("] left");
            s
        },
        Instruction::SkipInstrIfVxNotVy_0x9XY0 => {
            let mut s = ("Skip instruction if v[").to_owned();
            s.append(hex_digit_str(x));
            s.append("] != v[");
            s.append(hex_digit_str(y));
            s.append("]");
            s
        },
        Instruction::SetIndexRegToPL_0xANNN => {
            let mut s = ("Set index to 0x").to_owned();
            append_hex3(&mut s, nnn);
            s
        },
        Instruction::JumpToV0PlusPL_0xBNNN => {
            let mut s = ("Jump to location: set pc = v[0] + 0x").to_owned();
            append_hex3(&mut s, nnn);
            s
        },
        Instruction::SetVxRandByteANDPL_0xCXNN => {
            let mut s = ("Set v[").to_owned();
            s.append(hex_digit_str(x));
            s.append("] to randbyte(0xNNN) & 0x");
            append_hex2(&mut s, kk);
            s
        },
        Instruction::DisplaySpriteSetVfColl_0xDXYN => {
            let mut s = ("Display ").to_owned();
            let d = dec_str(z);
            s.append(d.as_str());
            s.append("-byte sprite at (v[");
            s.append(hex_digit_str(x));
            s.append("], v[");
            s.append(hex_digit_str(y));
            s.append("]). Set v[F] = 1 if collision");
            s
        },
        Instruction::SkipInstrIfVxPressed_0xEX9E => {
            let mut s = ("Skip instruction if v[").to_owned();
            s.append(hex_digit_str(x));
            s.append("](keycode) pressed");
            s
        },
        Instruction::SkipInstrIfVxNotPressed_0xEXA1 => {
            let mut s = ("Skip instruction if v[").to_owned();
            s.append(hex_digit_str(x));
            s.append("](keycode) not pressed");
            s
        },
        Instruction::SetVxToDelayTimerVal_0xFX07 => {
            let mut s = ("Set v[").to_owned();
            s.append(hex_digit_str(x));
            s.append("] to value of delay timer (xxx)");
            s
        },
        Instruction::WaitForKeyStoreInVx_0xFX0A => {
            let mut s = ("Wait for key and store it's value in v[").to_owned();
            s.append(hex_digit_str(x));
            s.append("]");
            s
        },
        Instruction::SetDelayTimerToVx_0xFX15 => {
            let mut s = ("Set delay timer to v[").to_owned();
            s.append(hex_digit_str(x));
            s.append("]");
            s
        },
        Instruction::SetSoundTimerToVx_0xFX18 => {
            let mut s = ("Set sound timer to v[").to_owned();
            s.append(hex_digit_str(x));
            s.append("]");
            s
        },
        Instruction::IncrementIndexRegByVx_0xFX1E => {
            let mut s = ("Set index = index + v[").to_owned();
            s.append(hex_digit_str(x));
            s.append("]");
            s
        },
        Instruction::SetIndexRegToVxSprite_0xFX29 => {
            let mut s = ("Set index equal to the v[").to_owned();
            s.append(hex_digit_str(x));
            s.append("]th sprite (v[");
            s.append(hex_digit_str(x));
            s.append("] * 5)");
            s
        },
        Instruction::StoreBCDOfVxIn3Bytes_0xFX33 => {
            let mut s = ("Store BCD of v[").to_owned();
            s.append(hex_digit_str(x));
            s.append("](xxx) in mem[i], mem[i+1], mem[i+2]");
            s
        },
        Instruction::StoreRegsUptoVx_0xFX55 => {
            let mut s = ("Store v[0] through v[").to_owned();
            s.append(hex_digit_str(x));
            s.append("] in mem[index] through mem[index + ");
            s.append(hex_digit_str(x));
            s.append("]");
            s
        },
        Instruction::ReadRegsUptoVx_0xFX65 => {
            let mut s = ("Store mem[index] through mem[index + ").to_owned();
            s.append(hex_digit_str(x));
            s.append("] in v[0] through v[");
            s.append(hex_digit_str(x));
            s.append("]");
            s
        },
    }
}

/// Append the two hexadecimal digits of a byte.
fn append_hex2(s: &mut String, b: u16)
    requires
        b < 256,
    ensures
        final(s)@ == old(s)@ + hex2(b as int),
{
    s.append(hex_digit_str(b / 16));
    s.append(hex_digit_str(b % 16));
}

/// Append the three hexadecimal digits of a 12-bit address.
fn append_hex3(s: &mut String, n: u16)
    requires
        n < 4096,
    ensures
        final(s)@ == old(s)@ + hex3(n as int),
{
    s.append(hex_digit_str(n / 256));
    s.append(hex_digit_str(n / 16 % 16));
    s.append(hex_digit_str(n % 16));
}

} // verus!
