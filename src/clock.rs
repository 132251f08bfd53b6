//! Logical clocks that advance by one device frame at a time.
use vstd::prelude::*;

verus! {

/// The largest tick count a clock can be asked to advance from.
pub const MAX_TICKS: u64 = 0xffff_fffe_0000_0000;

/// A clock that counts ticks at `ticks_per_second`. The fraction of the
/// next tick is kept exactly, as `frac / sample_rate` of a tick, so a frame
/// of `1 / sample_rate` seconds adds `ticks_per_second` to `frac`.
#[derive(Clone, Copy, Debug, PartialEq, Eq, Structural)]
pub struct Clock {
    pub id: u64,
    pub ticking: bool,
    pub ticks: u64,
    pub frac: u64,
    pub ticks_per_second: u32,
}

impl Clock {
    pub open spec fn wf(self) -> bool {
        self.frac <= u32::MAX
    }

    /// A stopped clock at tick zero.
    pub fn new(id: u64, ticks_per_second: u32) -> (r: Clock)
        ensures
            r.wf(),
            r == (Clock { id, ticking: false, ticks: 0, frac: 0, ticks_per_second }),
    {
        Clock { id, ticking: false, ticks: 0, frac: 0, ticks_per_second }
    }

    pub fn start(&mut self)
        ensures
            *final(self) == (Clock { ticking: true, ..*old(self) }),
    {
        self.ticking = true;
    }

    pub fn pause(&mut self)
        ensures
            *final(self) == (Clock { ticking: false, ..*old(self) }),
    {
        self.ticking = false;
    }

    /// The clock after one frame at `sample_rate`.
    pub open spec fn spec_tick(self, sample_rate: u32) -> Clock {
        if self.ticking {
            Clock {
                ticks: (self.ticks + (self.frac + self.ticks_per_second) / (sample_rate as int)) as u64,
                frac: ((self.frac + self.ticks_per_second) % (sample_rate as int)) as u64,
                ..self
            }
        } else {
            self
        }
    }

    /// Advances a ticking clock by one frame at `sample_rate`: whole ticks
    /// move into `ticks`, the remainder stays in `frac`. A paused clock does
    /// not move.
    pub fn tick(&mut self, sample_rate: u32)
        requires
            old(self).wf(),
            sample_rate > 0,
            old(self).ticks <= MAX_TICKS,
        ensures
            final(self).wf(),
            *final(self) == old(self).spec_tick(sample_rate),
            *final(self) == if old(self).ticking {
                Clock {
                    ticks: (old(self).ticks + (old(self).frac + old(self).ticks_per_second)
                        / (sample_rate as int)) as u64,
                    frac: ((old(self).frac + old(self).ticks_per_second) % (
                    sample_rate as int)) as u64,
                    ..*old(self)
                }
            } else {
                *old(self)
            },
            old(self).ticking ==> final(self).ticks * sample_rate + final(self).frac == old(
                self,
            ).ticks * sample_rate + old(self).frac + old(self).ticks_per_second,
    {
        if self.ticking {
            let total: u64 = self.frac + self.ticks_per_second as u64;
            let q: u64 = total / sample_rate as u64;
            let r: u64 = total % sample_rate as u64;
            assert(q <= total) by {
                vstd::arithmetic::div_mod::lemma_div_is_ordered_by_denominator(
                    total as int,
                    1,
                    sample_rate as int,
                );
            }
            proof {
                vstd::arithmetic::div_mod::lemma_fundamental_div_mod(
                    total as int,
                    sample_rate as int,
                );
                let t0 = self.ticks as int;
                assert(t0 * sample_rate + q * sample_rate == (t0 + q) * sample_rate)
                    by (nonlinear_arith);
            }
            self.ticks = self.ticks + q;
            self.frac = r;
        }
    }

    /// The clock has reached tick `t`.
    pub fn reached(&self, t: u64) -> (r: bool)
        ensures
            r == (self.ticks >= t),
    {
        self.ticks >= t
    }
}

} // verus!
