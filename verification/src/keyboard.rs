use vstd::prelude::*;

verus! {

/// One keypad key: its CHIP-8 value and whether it is held down.
#[derive(Debug, Clone, Copy, PartialEq, Eq, Structural)]
pub struct Key {
    pub is_pressed: bool,
    pub value: u8,
}

impl Key {
    pub fn new(value: u8) -> (k: Key)
        ensures
            k == (Key { is_pressed: false, value }),
    {
        Key { is_pressed: false, value }
    }

    pub fn reset(&mut self)
        ensures
            *final(self) == (Key { is_pressed: false, value: old(self).value }),
    {
        self.is_pressed = false
    }

    pub fn press(&mut self)
        ensures
            *final(self) == (Key { is_pressed: true, value: old(self).value }),
    {
        self.is_pressed = true
    }

    pub fn value(&self) -> (v: u8)
        ensures
            v == self.value,
    {
        self.value
    }

    pub fn is_pressed(&self) -> (p: bool)
        ensures
            p == self.is_pressed,
    {
        self.is_pressed
    }
}

/// The 16-key CHIP-8 keypad, key values 0x0 through 0xF.
#[derive(Debug, Clone, Copy, PartialEq, Eq, Structural)]
pub struct Keyboard {
    pub key_0: Key,
    pub key_1: Key,
    pub key_2: Key,
    pub key_3: Key,
    pub key_4: Key,
    pub key_5: Key,
    pub key_6: Key,
    pub key_7: Key,
    pub key_8: Key,
    pub key_9: Key,
    pub key_a: Key,
    pub key_b: Key,
    pub key_c: Key,
    pub key_d: Key,
    pub key_e: Key,
    pub key_f: Key,
}

/// The key value driven by a character of the host keyboard's left block, or
/// `None` for a character outside the 4-by-4 block.
pub open spec fn key_of_char(c: char) -> Option<int> {
    if c == '1' {
        Some(0x1int)
    } else if c == '2' {
        Some(0x2int)
    } else if c == '3' {
        Some(0x3int)
    } else if c == '4' {
        Some(0xcint)
    } else if c == 'q' {
        Some(0x4int)
    } else if c == 'w' {
        Some(0x5int)
    } else if c == 'e' {
        Some(0x6int)
    } else if c == 'r' {
        Some(0xdint)
    } else if c == 'a' {
        Some(0x7int)
    } else if c == 's' {
        Some(0x8int)
    } else if c == 'd' {
        Some(0x9int)
    } else if c == 'f' {
        Some(0xeint)
    } else if c == 'z' {
        Some(0xaint)
    } else if c == 'x' {
        Some(0x0int)
    } else if c == 'c' {
        Some(0xfint)
    } else if c == 'v' {
        Some(0xbint)
    } else {
        None
    }
}

impl Keyboard {
    /// The key holding value `i`.
    pub open spec fn spec_key(self, i: int) -> Key {
        if i == 0 {
            self.key_0
        } else if i == 1 {
            self.key_1
        } else if i == 2 {
            self.key_2
        } else if i == 3 {
            self.key_3
        } else if i == 4 {
            self.key_4
        } else if i == 5 {
            self.key_5
        } else if i == 6 {
            self.key_6
        } else if i == 7 {
            self.key_7
        } else if i == 8 {
            self.key_8
        } else if i == 9 {
            self.key_9
        } else if i == 10 {
            self.key_a
        } else if i == 11 {
            self.key_b
        } else if i == 12 {
            self.key_c
        } else if i == 13 {
            self.key_d
        } else if i == 14 {
            self.key_e
        } else {
            self.key_f
        }
    }

    /// The sixteen keys in value order.
    pub open spec fn keys_seq(self) -> Seq<Key> {
        Seq::new(16, |i: int| self.spec_key(i))
    }

    /// Every key stores its own value.
    pub open spec fn wf(self) -> bool {
        forall|i: int| 0 <= i < 16 ==> (#[trigger] self.spec_key(i)).value == i
    }

    pub fn new() -> (kb: Keyboard)
        ensures
            kb.wf(),
            forall|i: int| 0 <= i < 16 ==> !(#[trigger] kb.spec_key(i)).is_pressed,
    {
        Keyboard {
            key_0: Key::new(0x0),
            key_1: Key::new(0x1),
            key_2: Key::new(0x2),
            key_3: Key::new(0x3),
            key_4: Key::new(0x4),
            key_5: Key::new(0x5),
            key_6: Key::new(0x6),
            key_7: Key::new(0x7),
            key_8: Key::new(0x8),
            key_9: Key::new(0x9),
            key_a: Key::new(0xa),
            key_b: Key::new(0xb),
            key_c: Key::new(0xc),
            key_d: Key::new(0xd),
            key_e: Key::new(0xe),
            key_f: Key::new(0xf),
        }
    }

    /// Record a key-down or key-up event for the key driven by character `c`;
    /// a character that drives no key changes nothing.
    pub fn handle_event(&mut self, c: char, down: bool)
        ensures
            key_of_char(c) matches Some(k) ==> final(self).keys_seq() == old(self).keys_seq()
                .update(
                k,
                Key { is_pressed: down, value: old(self).spec_key(k).value },
            ),
            key_of_char(c) is None ==> *final(self) == *old(self),
    {
        match c {
            '1' => if down {
                self.key_1.press()
            } else {
                self.key_1.reset()
            },
            '2' => if down {
                self.key_2.press()
            } else {
                self.key_2.reset()
            },
            '3' => if down {
                self.key_3.press()
            } else {
                self.key_3.reset()
            },
            '4' => if down {
                self.key_c.press()
            } else {
                self.key_c.reset()
            },
            'q' => if down {
                self.key_4.press()
            } else {
                self.key_4.reset()
            },
            'w' => if down {
                self.key_5.press()
            } else {
                self.key_5.reset()
            },
            'e' => if down {
                self.key_6.press()
            } else {
                self.key_6.reset()
            },
            'r' => if down {
                self.key_d.press()
            } else {
                self.key_d.reset()
            },
            'a' => if down {
                self.key_7.press()
            } else {
                self.key_7.reset()
            },
            's' => if down {
                self.key_8.press()
            } else {
                self.key_8.reset()
            },
            'd' => if down {
                self.key_9.press()
            } else {
                self.key_9.reset()
            },
            'f' => if down {
                self.key_e.press()
            } else {
                self.key_e.reset()
            },
            'z' => if down {
                self.key_a.press()
            } else {
                self.key_a.reset()
            },
            'x' => if down {
                self.key_0.press()
            } else {
                self.key_0.reset()
            },
            'c' => if down {
                self.key_f.press()
            } else {
                self.key_f.reset()
            },
            'v' => if down {
                self.key_b.press()
            } else {
                self.key_b.reset()
            },
            _ => {},
        }
        proof {
            if key_of_char(c) is Some {
                let k = key_of_char(c)->Some_0;
                assert(final(self).keys_seq() =~= old(self).keys_seq().update(
                    k,
                    Key { is_pressed: down, value: old(self).spec_key(k).value },
                ));
            }
        }
    }

    /// Copies of the sixteen keys in value order.
    pub fn keys(&self) -> (r: [Key; 16])
        ensures
            r@ == self.keys_seq(),
    {
        let r = [
            self.key_0,
            self.key_1,
            self.key_2,
            self.key_3,
            self.key_4,
            self.key_5,
            self.key_6,
            self.key_7,
            self.key_8,
            self.key_9,
            self.key_a,
            self.key_b,
            self.key_c,
            self.key_d,
            self.key_e,
            self.key_f,
        ];
        proof {
            assert(r@ =~= self.keys_seq());
        }
        r
    }

    /// Release every key.
    pub fn reset(&mut self)
        ensures
            forall|i: int|
                0 <= i < 16 ==> (#[trigger] final(self).spec_key(i)) == (Key {
                    is_pressed: false,
                    value: old(self).spec_key(i).value,
                }),
    {
        self.key_0.reset();
        self.key_1.reset();
        self.key_2.reset();
        self.key_3.reset();
        self.key_4.reset();
        self.key_5.reset();
        self.key_6.reset();
        self.key_7.reset();
        self.key_8.reset();
        self.key_9.reset();
        self.key_a.reset();
        self.key_b.reset();
        self.key_c.reset();
        self.key_d.reset();
        self.key_e.reset();
        self.key_f.reset();
    }

    /// Whether any key at all is held down.
    pub fn key_is_pressed(&self) -> (r: bool)
        ensures
            r == exists|i: int| 0 <= i < 16 && (#[trigger] self.spec_key(i)).is_pressed,
    {
        let ks = self.keys();
        let mut any: bool = false;
        let mut i: usize = 0;
        while i < 16
            invariant
                i <= 16,
                ks@ == self.keys_seq(),
                any == exists|j: int| 0 <= j < i && (#[trigger] self.spec_key(j)).is_pressed,
            decreases 16 - i,
        {
            if ks[i].is_pressed() {
                any = true;
            }
            i = i + 1;
        }
        any
    }

    /// The value of the lowest-valued key that is held down, in scan order.
    pub open spec fn first_pressed_from(self, i: int) -> Option<u8>
        decreases 16 - i,
    {
        if i < 0 || i >= 16 {
            None
        } else if self.spec_key(i).is_pressed {
            Some(self.spec_key(i).value)
        } else {
            self.first_pressed_from(i + 1)
        }
    }

    /// The value of the first key in scan order that is held down, or `None`
    /// when no key is.
    pub fn get_pressed_key(&self) -> (r: Option<u8>)
        ensures
            r == self.first_pressed_from(0),
    {
        let ks = self.keys();
        let mut i: usize = 0;
        while i < 16
            invariant
                i <= 16,
                ks@ == self.keys_seq(),
                self.first_pressed_from(0) == self.first_pressed_from(i as int),
                forall|j: int| 0 <= j < i ==> !(#[trigger] self.spec_key(j)).is_pressed,
            decreases 16 - i,
        {
            if ks[i].is_pressed() {
                return Some(ks[i].value());
            }
            i = i + 1;
        }
        None
    }

    /// Whether the key holding `value` is pressed, scanning the keys in
    /// order; false when no key holds that value.
    pub open spec fn value_pressed_from(self, value: u8, i: int) -> bool
        decreases 16 - i,
    {
        if i < 0 || i >= 16 {
            false
        } else if self.spec_key(i).value == value {
            self.spec_key(i).is_pressed
        } else {
            self.value_pressed_from(value, i + 1)
        }
    }

    /// Whether the key holding `value` is held down.
    pub fn check_value_pressed(&self, value: u8) -> (r: bool)
        ensures
            r == self.value_pressed_from(value, 0),
    {
        let ks = self.keys();
        let mut i: usize = 0;
        while i < 16
            invariant
                i <= 16,
                ks@ == self.keys_seq(),
                self.value_pressed_from(value, 0) == self.value_pressed_from(value, i as int),
                forall|j: int| 0 <= j < i ==> (#[trigger] self.spec_key(j)).value != value,
            decreases 16 - i,
        {
            if ks[i].value() == value {
                return ks[i].is_pressed();
            }
            i = i + 1;
        }
        false
    }
}

} // verus!
