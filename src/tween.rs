//! Scalar values that ramp linearly toward a target, one frame at a time.
use crate::frame::div_trunc;
use vstd::prelude::*;

verus! {

/// A value that is either at rest or moving linearly from `start` to
/// `target` over `duration` frames, `elapsed` of which have passed.
#[derive(Clone, Copy, Debug, PartialEq, Eq, Structural)]
pub enum Tweener {
    Idle(i64),
    Tweening { start: i64, target: i64, elapsed: u32, duration: u32 },
}

/// The point `elapsed / duration` of the way from `start` to `target`,
/// rounded toward `start`.
pub open spec fn lerp_at(start: int, target: int, elapsed: int, duration: int) -> int {
    start + div_trunc((target - start) * elapsed, duration)
}

pub open spec fn between(v: int, a: int, b: int) -> bool {
    (a <= v <= b) || (b <= v <= a)
}

proof fn lemma_lerp_between(start: int, target: int, elapsed: int, duration: int)
    requires
        0 <= elapsed <= duration,
        0 < duration,
    ensures
        between(lerp_at(start, target, elapsed, duration), start, target),
{
    let d = target - start;
    if d >= 0 {
        assert(0 <= d * elapsed <= d * duration) by (nonlinear_arith)
            requires
                0 <= elapsed <= duration,
                d >= 0,
        ;
        vstd::arithmetic::div_mod::lemma_div_is_ordered(d * elapsed, d * duration, duration);
        vstd::arithmetic::div_mod::lemma_div_by_multiple(d, duration);
        vstd::arithmetic::div_mod::lemma_div_pos_is_pos(d * elapsed, duration);
        assert(d * duration == duration * d) by (nonlinear_arith);
    } else {
        let e = -d;
        assert(0 <= e * elapsed <= e * duration) by (nonlinear_arith)
            requires
                0 <= elapsed <= duration,
                e >= 0,
        ;
        assert(d * elapsed == -(e * elapsed)) by (nonlinear_arith)
            requires
                e == -d,
        ;
        vstd::arithmetic::div_mod::lemma_div_is_ordered(e * elapsed, e * duration, duration);
        vstd::arithmetic::div_mod::lemma_div_by_multiple(e, duration);
        vstd::arithmetic::div_mod::lemma_div_pos_is_pos(e * elapsed, duration);
    }
}

impl Tweener {
    /// A tween in progress has frames left to run.
    pub open spec fn wf(self) -> bool {
        match self {
            Tweener::Idle(_) => true,
            Tweener::Tweening { elapsed, duration, .. } => elapsed < duration,
        }
    }

    /// The value the tween has now.
    pub open spec fn spec_value(self) -> int {
        match self {
            Tweener::Idle(v) => v as int,
            Tweener::Tweening { start, target, elapsed, duration } => lerp_at(
                start as int,
                target as int,
                elapsed as int,
                duration as int,
            ),
        }
    }

    /// The value the tween comes to rest at.
    pub open spec fn spec_target(self) -> int {
        match self {
            Tweener::Idle(v) => v as int,
            Tweener::Tweening { target, .. } => target as int,
        }
    }

    /// Both the current value and the target lie in `[lo, hi]`.
    pub open spec fn within(self, lo: int, hi: int) -> bool {
        match self {
            Tweener::Idle(v) => lo <= v <= hi,
            Tweener::Tweening { start, target, .. } => lo <= start <= hi && lo <= target <= hi,
        }
    }

    /// The value after one more frame.
    pub open spec fn spec_advance(self) -> Tweener {
        match self {
            Tweener::Idle(v) => Tweener::Idle(v),
            Tweener::Tweening { start, target, elapsed, duration } => if elapsed + 1
                >= duration {
                Tweener::Idle(target)
            } else {
                Tweener::Tweening { start, target, elapsed: (elapsed + 1) as u32, duration }
            },
        }
    }

    /// The tween after `set(target, duration)`.
    pub open spec fn spec_set(self, target: i64, duration: u32) -> Tweener {
        if duration == 0 {
            Tweener::Idle(target)
        } else {
            Tweener::Tweening { start: self.spec_value() as i64, target, elapsed: 0, duration }
        }
    }

    /// The value now, which lies between where the tween started and its
    /// target.
    pub fn value(&self) -> (r: i64)
        requires
            self.wf(),
        ensures
            r == self.spec_value(),
            forall|lo: int, hi: int| self.within(lo, hi) ==> lo <= r <= hi,
    {
        match *self {
            Tweener::Idle(v) => v,
            Tweener::Tweening { start, target, elapsed, duration } => {
                proof {
                    lemma_lerp_between(start as int, target as int, elapsed as int, duration as int);
                }
                let d: i128 = target as i128 - start as i128;
                assert(-0x1_0000_0000_0000_0000 * 0x1_0000_0000 <= d * elapsed
                    <= 0x1_0000_0000_0000_0000 * 0x1_0000_0000) by (nonlinear_arith)
                    requires
                        -0x1_0000_0000_0000_0000 <= d <= 0x1_0000_0000_0000_0000,
                        0 <= elapsed <= 0x1_0000_0000,
                ;
                let q: i128 = crate::frame::div_trunc_i128(d * elapsed as i128, duration as i128);
                (start as i128 + q) as i64
            },
        }
    }

    /// Moves the tween on by one frame; it comes to rest at its target when
    /// its duration has run.
    pub fn advance(&mut self)
        requires
            old(self).wf(),
        ensures
            final(self).wf(),
            *final(self) == old(self).spec_advance(),
            final(self).spec_target() == old(self).spec_target(),
            forall|lo: int, hi: int| old(self).within(lo, hi) ==> final(self).within(lo, hi),
    {
        match *self {
            Tweener::Idle(_) => {},
            Tweener::Tweening { start, target, elapsed, duration } => {
                if elapsed + 1 >= duration {
                    *self = Tweener::Idle(target);
                } else {
                    *self = Tweener::Tweening { start, target, elapsed: elapsed + 1, duration };
                }
            },
        }
    }

    /// Starts a ramp from the current value to `target` over `duration`
    /// frames; with no duration the value jumps to `target`.
    pub fn set(&mut self, target: i64, duration: u32)
        requires
            old(self).wf(),
        ensures
            final(self).wf(),
            *final(self) == old(self).spec_set(target, duration),
            final(self).spec_target() == target,
            final(self).spec_value() == if duration == 0 {
                target as int
            } else {
                old(self).spec_value()
            },
            forall|lo: int, hi: int|
                old(self).within(lo, hi) && lo <= target <= hi ==> final(self).within(lo, hi),
    {
        if duration == 0 {
            *self = Tweener::Idle(target);
        } else {
            let start: i64 = self.value();
            proof {
                assert(div_trunc((target - start) * 0, duration as int) == 0);
            }
            *self = Tweener::Tweening { start, target, elapsed: 0, duration };
        }
    }
}

} // verus!
