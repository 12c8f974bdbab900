use vstd::prelude::*;

verus! {

/// A countdown counter that decays at a fixed wall-clock rate.
///
/// `last_nanos` is the monotonic-clock reading (in nanoseconds) taken when the
/// counter was armed or last decremented, or `None` while the counter is idle.
/// `touch` decrements the counter by exactly one when strictly more than
/// `duration` nanoseconds have elapsed since that moment, so decay is paced by
/// the clock readings handed in, never by how often `touch` is called. A
/// counter that reaches zero stays at zero until it is armed again.
pub struct Timer {
    pub last_nanos: Option<u64>,
    pub delay: u8,
    pub duration: u32,
}

impl Timer {
    /// The timer as it stands after one `touch` at clock reading `now`.
    pub open spec fn spec_touched(self, now: u64) -> Timer {
        match self.last_nanos {
            Option::None => self,
            Option::Some(last) => {
                if now > last && now - last > self.duration && self.delay > 0 {
                    Timer {
                        last_nanos: if self.delay == 1 {
                            Option::<u64>::None
                        } else {
                            Option::Some(now)
                        },
                        delay: (self.delay - 1) as u8,
                        duration: self.duration,
                    }
                } else {
                    self
                }
            },
        }
    }

    pub fn new(duration: u32) -> (t: Timer)
        ensures
            t == (Timer { last_nanos: Option::<u64>::None, delay: 0u8, duration }),
    {
        Timer { last_nanos: None, delay: 0, duration }
    }

    /// Advance the timer to clock reading `now_nanos`: decrement the counter
    /// once if more than one period has elapsed since the last decrement,
    /// otherwise leave it as it is.
    pub fn touch(&mut self, now_nanos: u64)
        ensures
            *final(self) == old(self).spec_touched(now_nanos),
    {
        match self.last_nanos {
            None => {},
            Some(last) => {
                if now_nanos > last && now_nanos - last > self.duration as u64 && self.delay > 0 {
                    self.delay = self.delay - 1;
                    if self.delay == 0 {
                        self.last_nanos = None;
                    } else {
                        self.last_nanos = Some(now_nanos);
                    }
                }
            },
        }
    }

    /// Arm the counter with `delay` ticks, starting its period at clock
    /// reading `now_nanos`.
    pub fn set_delay(&mut self, delay: u8, now_nanos: u64)
        ensures
            *final(self) == (Timer {
                last_nanos: Option::Some(now_nanos),
                delay,
                duration: old(self).duration,
            }),
    {
        self.delay = delay;
        self.last_nanos = Some(now_nanos);
    }

    pub fn get_delay(&self) -> (d: u8)
        ensures
            d == self.delay,
    {
        self.delay
    }
}

/// The timer after a whole sequence of `touch` calls, one per clock reading.
pub open spec fn touch_all(t: Timer, times: Seq<u64>) -> Timer
    decreases times.len(),
{
    if times.len() == 0 {
        t
    } else {
        touch_all(t.spec_touched(times[0]), times.drop_first())
    }
}

/// An armed counter decays by wall-clock time alone: through any sequence of
/// touches whose clock readings stay at or below the arming moment plus
/// `delay` whole periods, the counter never reaches zero, however many
/// touches occur. Each decrement needs strictly more than one period.
pub proof fn lemma_decay_takes_wall_time(t: Timer, times: Seq<u64>)
    requires
        t.delay > 0,
        t.last_nanos matches Some(last) && forall|i: int|
            0 <= i < times.len() ==> times[i] <= last + t.delay * t.duration,
    ensures
        touch_all(t, times).delay > 0,
    decreases times.len(),
{
    if times.len() > 0 {
        let last = t.last_nanos->Some_0;
        let t2 = t.spec_touched(times[0]);
        if t2 == t {
            lemma_decay_takes_wall_time(t, times.drop_first());
            assert(touch_all(t, times) == touch_all(t2, times.drop_first()));
        } else {
            // A decrement happened, so times[0] > last + duration; with
            // delay == 1 the bound times[0] <= last + duration forbids that.
            assert(times[0] <= last + t.delay * t.duration);
            if t.delay == 1 {
                assert(1 * t.duration == t.duration) by (nonlinear_arith);
                assert(false);
            }
            assert(t2.delay == t.delay - 1);
            assert(t2.last_nanos == Some(times[0]));
            assert forall|i: int| 0 <= i < times.drop_first().len() implies times.drop_first()[i]
                <= times[0] + t2.delay * t2.duration by {
                assert(times.drop_first()[i] == times[i + 1]);
                assert(times[i + 1] <= last + t.delay * t.duration);
                assert((t.delay - 1) * t.duration + t.duration == t.delay * t.duration)
                    by (nonlinear_arith);
                assert(last + t.duration < times[0]);
            }
            lemma_decay_takes_wall_time(t2, times.drop_first());
        }
    }
}

/// A bounded LIFO call stack of return addresses, capacity 16.
pub struct Stack {
    slots: [u16; 16],
    len: usize,
}

impl Stack {
    #[verifier::type_invariant]
    pub closed spec fn wf(self) -> bool {
        self.len <= 16
    }

    /// The live entries, bottom of the stack first.
    pub closed spec fn view(&self) -> Seq<u16> {
        self.slots@.take(self.len as int)
    }

    pub fn new() -> (s: Stack)
        ensures
            s@ == Seq::<u16>::empty(),
    {
        let s = Stack { slots: [0; 16], len: 0 };
        proof {
            assert(s@ =~= Seq::<u16>::empty());
        }
        s
    }

    /// The slot index of the most recent entry, or `None` when empty.
    pub fn current_index(&self) -> (r: Option<usize>)
        ensures
            r == if self@.len() == 0 {
                Option::<usize>::None
            } else {
                Option::Some((self@.len() - 1) as usize)
            },
    {
        proof {
            use_type_invariant(&*self);
        }
        if self.len == 0 {
            None
        } else {
            Some(self.len - 1)
        }
    }

    /// Push a return address; `ok` is false exactly when the stack already
    /// holds 16 entries, in which case nothing changes.
    pub fn push(&mut self, value: u16) -> (ok: bool)
        ensures
            old(self)@.len() < 16 ==> ok && final(self)@ == old(self)@.push(value),
            old(self)@.len() >= 16 ==> !ok && *final(self) == *old(self),
    {
        proof {
            use_type_invariant(&*self);
        }
        if self.len < 16 {
            self.slots[self.len] = value;
            self.len = self.len + 1;
            proof {
                assert(self@ =~= old(self)@.push(value));
            }
            true
        } else {
            false
        }
    }

    /// Pop the most recent entry; `None` exactly when the stack is empty, in
    /// which case nothing changes.
    pub fn pop(&mut self) -> (r: Option<u16>)
        ensures
            old(self)@.len() > 0 ==> r == Option::Some(old(self)@.last()) && final(self)@
                == old(self)@.drop_last(),
            old(self)@.len() == 0 ==> r is None && *final(self) == *old(self),
    {
        proof {
            use_type_invariant(&*self);
        }
        if self.len > 0 {
            let rv = self.slots[self.len - 1];
            self.len = self.len - 1;
            proof {
                assert(self@ =~= old(self)@.drop_last());
            }
            Some(rv)
        } else {
            None
        }
    }

    /// Read the entry at slot `i`, or `None` when `i` is not a live slot.
    pub fn get(&self, i: usize) -> (r: Option<u16>)
        ensures
            r == if i < self@.len() {
                Option::Some(self@[i as int])
            } else {
                Option::<u16>::None
            },
    {
        proof {
            use_type_invariant(&*self);
        }
        if i < self.len {
            Some(self.slots[i])
        } else {
            None
        }
    }

    /// Drop every entry.
    pub fn clear(&mut self)
        ensures
            final(self)@ == Seq::<u16>::empty(),
    {
        self.len = 0;
        proof {
            assert(self@ =~= Seq::<u16>::empty());
        }
    }
}

} // verus!
