//! The playback state machine of one sound over a shared frame buffer.
use crate::command::{FrameRegion, SoundCommands, StateCommand, ValueCommand};
use crate::data::{
    effective_len, position_frames, share, slice_fits, slice_start, window, window_of, Region,
    StartTime, StaticSoundData, StaticSoundSettings, TrackIndex, Tween, MICROS_PER_SECOND,
};
use crate::frame::{
    cubic, cubic_frame, div_trunc, div_trunc_i128, lemma_cubic_at_zero, lemma_mul_unit,
    lemma_sqrt_floor_is, pan_gains, pan_left, pan_right, scaled,
    scaled_each, Frame, UNIT,
};
use crate::tween::Tweener;
use std::sync::Arc;
use vstd::prelude::*;

verus! {

/// The largest volume, as a fixed-point amplitude: the largest `i64`, so
/// any non-negative amplitude is accepted.
pub const MAX_GAIN: i64 = 0x7fff_ffff_ffff_ffff;

/// The largest playback rate in either direction, as a fixed-point factor
/// (64.0).
pub const MAX_RATE: i64 = 64_000_000;

/// The largest sample rate, of an asset or of a device, in Hz.
pub const MAX_SAMPLE_RATE: u32 = 1_000_000;

/// The largest number of frames a sound plays.
pub const MAX_FRAMES: usize = 4_000_000_000;

/// Where a sound is in its life.
#[derive(Clone, Copy, Debug, PartialEq, Eq, Structural)]
pub enum PlaybackState {
    /// Waiting for its start time.
    Queued,
    Playing,
    Paused,
    /// Fading out before it stops.
    Stopping,
    /// Done: it only produces silence and can be reclaimed.
    Stopped,
}

/// The cursor movement per device frame, in micro-frames of the asset: the
/// playback rate (negated when reversed) scaled by asset rate over device
/// rate. A 1000 Hz asset on a 2000 Hz device moves half a frame per device
/// frame at rate 1.
pub open spec fn step_of(rate: int, reverse: bool, asset_rate: int, device_rate: int) -> int {
    let r = if reverse {
        -rate
    } else {
        rate
    };
    div_trunc(r * asset_rate, device_rate)
}

/// The position a cursor reads from: the cursor itself going forward, one
/// frame before it going backward, so that a backward sound started at its
/// end plays its last frame first.
pub open spec fn read_position(cursor: int, step: int) -> int {
    if step < 0 {
        cursor - UNIT
    } else {
        cursor
    }
}

/// The cursor after one step. Inside a loop region `[a, b)` going forward,
/// a cursor that reaches `b` wraps back by whole loop lengths; going
/// backward, one that reaches `a` wraps forward into `(a, b]`. Without a
/// loop the cursor stays within the audio.
pub open spec fn next_cursor(cursor: int, step: int, lp: Option<FrameRegion>, len: int) -> int {
    let u = UNIT as int;
    let n = cursor + step;
    match lp {
        Some(r) => {
            let a = r.start * u;
            let b = r.end * u;
            if step >= 0 {
                if n >= b {
                    a + (n - a) % (b - a)
                } else {
                    n
                }
            } else {
                if n <= a {
                    b - (a - n) % (b - a)
                } else {
                    n
                }
            }
        },
        None => if n < 0 {
            0
        } else if n > len * u {
            len * u
        } else {
            n
        },
    }
}

/// What the control side sees of a playing sound: its cursor (in
/// micro-frames) and its playback state, as of the last callback.
#[derive(Clone, Copy, Debug, PartialEq, Eq, Structural)]
pub struct SharedState {
    pub position: i64,
    pub state: PlaybackState,
}

/// The control side of one sound: the id of the sound it controls, the
/// command slots that reach that sound, and the last view of it published
/// by the renderer.
#[derive(Clone, Copy, Debug, PartialEq, Eq, Structural)]
pub struct StaticSoundHandle {
    pub id: u64,
    pub commands: SoundCommands,
    pub shared: SharedState,
}

impl StaticSoundHandle {
    /// The playback position last published, in micro-frames.
    pub fn position(&self) -> (r: i64)
        ensures
            r == self.shared.position,
    {
        self.shared.position
    }

    /// The playback state last published.
    pub fn state(&self) -> (r: PlaybackState)
        ensures
            r == self.shared.state,
    {
        self.shared.state
    }

    /// Takes in a view of the sound published by the renderer.
    pub fn update_shared(&mut self, shared: SharedState)
        ensures
            *final(self) == (StaticSoundHandle { shared, ..*old(self) }),
    {
        self.shared = shared;
    }
}

/// One sound being played.
pub struct StaticSound {
    /// The id its handle knows it by.
    pub id: u64,
    pub frames: Arc<Vec<Frame>>,
    pub slice: Option<(usize, usize)>,
    /// The sample rate of the audio, in Hz.
    pub asset_rate: u32,
    /// The sample rate of the device, in Hz.
    pub device_rate: u32,
    /// The playback position, in micro-frames from the start of the slice.
    pub cursor: i64,
    pub rate: Tweener,
    pub volume: Tweener,
    pub panning: Tweener,
    /// A volume multiplier for fading in and out, from 0 to `UNIT`.
    pub fade: Tweener,
    /// A region of frames, relative to the slice, that playback loops.
    pub loop_region: Option<FrameRegion>,
    pub reverse: bool,
    pub start_time: StartTime,
    pub state: PlaybackState,
    pub output: TrackIndex,
}

impl StaticSound {
    /// The view of this sound that its handle sees.
    pub open spec fn spec_shared(&self) -> SharedState {
        SharedState { position: self.cursor, state: self.state }
    }

    /// The number of frames the sound plays.
    pub open spec fn spec_len(&self) -> int {
        effective_len(self.frames@.len() as int, self.slice)
    }

    pub open spec fn wf(&self) -> bool {
        &&& slice_fits(self.frames@.len() as int, self.slice)
        &&& self.spec_len() <= MAX_FRAMES
        &&& 1 <= self.asset_rate <= MAX_SAMPLE_RATE
        &&& 1 <= self.device_rate <= MAX_SAMPLE_RATE
        &&& self.rate.wf() && self.rate.within(-MAX_RATE, MAX_RATE as int)
        &&& self.volume.wf() && self.volume.within(0, MAX_GAIN as int)
        &&& self.panning.wf() && self.panning.within(0, UNIT as int)
        &&& self.fade.wf() && self.fade.within(0, UNIT as int)
        &&& 0 <= self.cursor <= self.spec_len() * UNIT
        &&& match self.loop_region {
            Some(r) => r.start < r.end <= self.spec_len(),
            None => true,
        }
    }

    /// The cursor movement of the next frame.
    pub open spec fn spec_step(&self) -> int {
        step_of(
            self.rate.spec_value(),
            self.reverse,
            self.asset_rate as int,
            self.device_rate as int,
        )
    }

    /// The frame at index `k` of the slice, or silence outside it.
    pub open spec fn spec_frame_or_silent(&self, k: int) -> Frame {
        if 0 <= k < self.spec_len() {
            self.frames@[slice_start(self.slice) + k]
        } else {
            Frame { left: 0, right: 0 }
        }
    }

    /// The cubic interpolation of the audio at micro-frame position `p`,
    /// from the frames before, at, and the two after `p`.
    pub open spec fn spec_sample_at(&self, p: int) -> Frame {
        let i = p / (UNIT as int);
        let x = p % (UNIT as int);
        let y0 = self.spec_frame_or_silent(i - 1);
        let y1 = self.spec_frame_or_silent(i);
        let y2 = self.spec_frame_or_silent(i + 1);
        let y3 = self.spec_frame_or_silent(i + 2);
        Frame {
            left: cubic(y0.left as int, y1.left as int, y2.left as int, y3.left as int, x) as i32,
            right: cubic(y0.right as int, y1.right as int, y2.right as int, y3.right as int, x)
                as i32,
        }
    }

    /// The output at position `p`: the sample, times the volume and the
    /// fade, panned.
    pub open spec fn spec_rendered(&self, p: int) -> Frame {
        let pan = self.panning.spec_value();
        scaled_each(
            scaled(scaled(self.spec_sample_at(p), self.volume.spec_value()), self.fade.spec_value()),
            pan_left(pan),
            pan_right(pan),
        )
    }

    /// The position `p` lies within the audio.
    pub open spec fn in_audio(&self, p: int) -> bool {
        0 <= p < self.spec_len() * UNIT
    }

    /// What one device frame of playback outputs, and the sound after it.
    pub open spec fn spec_process(self) -> (Frame, StaticSound) {
        let silent = Frame { left: 0, right: 0 };
        if self.state == PlaybackState::Stopping && self.fade.spec_value() == 0 {
            (silent, StaticSound { state: PlaybackState::Stopped, ..self })
        } else if self.state != PlaybackState::Playing && self.state != PlaybackState::Stopping {
            (silent, self)
        } else {
            let p = read_position(self.cursor as int, self.spec_step());
            if !self.in_audio(p) {
                (silent, StaticSound { state: PlaybackState::Stopping, fade: Tweener::Idle(0), ..self })
            } else {
                (
                    self.spec_rendered(p),
                    StaticSound {
                        cursor: next_cursor(
                            self.cursor as int,
                            self.spec_step(),
                            self.loop_region,
                            self.spec_len(),
                        ) as i64,
                        rate: self.rate.spec_advance(),
                        volume: self.volume.spec_advance(),
                        panning: self.panning.spec_advance(),
                        fade: self.fade.spec_advance(),
                        ..self
                    },
                )
            }
        }
    }

    /// The view of this sound that its handle sees.
    pub fn shared(&self) -> (r: SharedState)
        ensures
            r == self.spec_shared(),
    {
        SharedState { position: self.cursor, state: self.state }
    }

    /// The number of frames the sound plays.
    pub fn len(&self) -> (r: usize)
        requires
            self.wf(),
        ensures
            r == self.spec_len(),
    {
        crate::data::num_frames(self.frames.as_slice(), self.slice)
    }

    /// The cursor movement of the next frame.
    pub fn step(&self) -> (r: i64)
        requires
            self.wf(),
        ensures
            r == self.spec_step(),
            -64_000_000_000_000 <= r <= 64_000_000_000_000,
    {
        let v: i64 = self.rate.value();
        let rv: i64 = if self.reverse {
            -v
        } else {
            v
        };
        let ar: u32 = self.asset_rate;
        assert(-64_000_000_000_000 <= rv * ar <= 64_000_000_000_000) by (nonlinear_arith)
            requires
                -64_000_000 <= rv <= 64_000_000,
                1 <= ar <= 1_000_000,
        ;
        let q: i128 = div_trunc_i128(rv as i128 * ar as i128, self.device_rate as i128);
        proof {
            let a = rv as int * ar as int;
            let d = self.device_rate as int;
            if a >= 0 {
                vstd::arithmetic::div_mod::lemma_div_is_ordered_by_denominator(a, 1, d);
                vstd::arithmetic::div_mod::lemma_div_pos_is_pos(a, d);
            } else {
                vstd::arithmetic::div_mod::lemma_div_is_ordered_by_denominator(-a, 1, d);
                vstd::arithmetic::div_mod::lemma_div_pos_is_pos(-a, d);
            }
        }
        q as i64
    }

    /// The frame at index `k` of the slice, or silence outside it.
    fn frame_or_silent(&self, k: i64) -> (r: Frame)
        requires
            self.wf(),
        ensures
            r == self.spec_frame_or_silent(k as int),
    {
        let len: usize = self.len();
        if 0 <= k && (k as u64) < (len as u64) {
            let start: usize = match self.slice {
                Some((s, _)) => s,
                None => 0,
            };
            self.frames[start + k as usize]
        } else {
            Frame::silent()
        }
    }

    /// The interpolated audio at micro-frame position `p`.
    fn sample_at(&self, p: i64) -> (r: Frame)
        requires
            self.wf(),
            self.in_audio(p as int),
        ensures
            r == self.spec_sample_at(p as int),
    {
        let i: i64 = p / UNIT;
        let x: i64 = p % UNIT;
        let y0: Frame = self.frame_or_silent(i - 1);
        let y1: Frame = self.frame_or_silent(i);
        let y2: Frame = self.frame_or_silent(i + 1);
        let y3: Frame = self.frame_or_silent(i + 2);
        cubic_frame(y0, y1, y2, y3, x)
    }

    /// The output at position `p`.
    fn rendered(&self, p: i64) -> (r: Frame)
        requires
            self.wf(),
            self.in_audio(p as int),
        ensures
            r == self.spec_rendered(p as int),
    {
        let pan: i64 = self.panning.value();
        let (gl, gr): (i64, i64) = pan_gains(pan);
        self.sample_at(p).scale(self.volume.value()).scale(self.fade.value()).scale_each(gl, gr)
    }
}

impl StaticSound {
    /// Plays one device frame: returns its output and moves the sound on.
    /// A sound that reads past its audio (with no loop to wrap it) goes to
    /// `Stopping` with its fade at zero and outputs silence; a `Stopping`
    /// sound whose fade has reached zero becomes `Stopped`.
    pub fn process(&mut self) -> (r: Frame)
        requires
            old(self).wf(),
        ensures
            final(self).wf(),
            (r, *final(self)) == old(self).spec_process(),
    {
        if self.state == PlaybackState::Stopping && self.fade.value() == 0 {
            self.state = PlaybackState::Stopped;
            return Frame::silent();
        }
        if self.state != PlaybackState::Playing && self.state != PlaybackState::Stopping {
            return Frame::silent();
        }
        let step: i64 = self.step();
        let p: i64 = if step < 0 {
            self.cursor - UNIT
        } else {
            self.cursor
        };
        let len: usize = self.len();
        if p < 0 || p >= len as i64 * UNIT {
            self.state = PlaybackState::Stopping;
            self.fade = Tweener::Idle(0);
            return Frame::silent();
        }
        let out: Frame = self.rendered(p);
        self.cursor = next_cursor_exec(self.cursor, step, self.loop_region, len);
        self.rate.advance();
        self.volume.advance();
        self.panning.advance();
        self.fade.advance();
        out
    }
}

/// The cursor after one step.
pub fn next_cursor_exec(cursor: i64, step: i64, lp: Option<FrameRegion>, len: usize) -> (r: i64)
    requires
        0 <= cursor <= len * UNIT,
        len <= MAX_FRAMES,
        -64_000_000_000_000 <= step <= 64_000_000_000_000,
        match lp {
            Some(r) => r.start < r.end <= len,
            None => true,
        },
    ensures
        r == next_cursor(cursor as int, step as int, lp, len as int),
        0 <= r <= len * UNIT,
{
    let n: i64 = cursor + step;
    let top: i64 = len as i64 * UNIT;
    match lp {
        Some(reg) => {
            let a: i64 = reg.start as i64 * UNIT;
            let b: i64 = reg.end as i64 * UNIT;
            assert(a < b <= top) by (nonlinear_arith)
                requires
                    reg.start < reg.end <= len,
                    a == reg.start * 1_000_000,
                    b == reg.end * 1_000_000,
                    top == len * 1_000_000,
            ;
            if step >= 0 {
                if n >= b {
                    let m: u64 = ((n - a) as u64) % ((b - a) as u64);
                    a + m as i64
                } else {
                    n
                }
            } else {
                if n <= a {
                    let m: u64 = ((a - n) as u64) % ((b - a) as u64);
                    b - m as i64
                } else {
                    n
                }
            }
        },
        None => if n < 0 {
            0
        } else if n > top {
            top
        } else {
            n
        },
    }
}

} // verus!

verus! {

/// At unity (volume 1, centered panning, no fade, rate 1, asset and device
/// at the same sample rate) a cursor on a whole frame outputs exactly that
/// frame of the audio.
pub proof fn law_unity_playback(s: StaticSound)
    requires
        s.wf(),
        s.state == PlaybackState::Playing,
        s.volume == Tweener::Idle(UNIT),
        s.panning == Tweener::Idle((UNIT / 2) as i64),
        s.fade == Tweener::Idle(UNIT),
        s.rate == Tweener::Idle(UNIT),
        !s.reverse,
        s.asset_rate == s.device_rate,
        s.cursor % UNIT == 0,
        s.cursor < s.spec_len() * UNIT,
    ensures
        s.spec_process().0 == s.spec_frame_or_silent(s.cursor / UNIT),
{
    let u = UNIT as int;
    let ar = s.asset_rate as int;
    vstd::arithmetic::div_mod::lemma_div_by_multiple(u, ar);
    assert(s.spec_step() == u);
    let i = s.cursor as int / u;
    let y0 = s.spec_frame_or_silent(i - 1);
    let y1 = s.spec_frame_or_silent(i);
    let y2 = s.spec_frame_or_silent(i + 1);
    let y3 = s.spec_frame_or_silent(i + 2);
    lemma_cubic_at_zero(y0.left as int, y1.left as int, y2.left as int, y3.left as int);
    lemma_cubic_at_zero(y0.right as int, y1.right as int, y2.right as int, y3.right as int);
    assert(s.spec_sample_at(s.cursor as int) == y1);
    lemma_mul_unit(y1.left as int);
    lemma_mul_unit(y1.right as int);
    assert(2 * (UNIT - UNIT / 2) * UNIT == UNIT * UNIT);
    assert(2 * (UNIT / 2) * UNIT == UNIT * UNIT);
    assert((u + 1) * (u + 1) == u * u + 2 * u + 1) by (nonlinear_arith);
    lemma_sqrt_floor_is(u, u * u);
    assert(pan_left(UNIT / 2) == u);
    assert(pan_right(UNIT / 2) == u);
}

/// Loop continuity: a playing sound whose cursor is inside its loop region
/// `[a, b)` (going forward) or `(a, b]` (going backward) keeps playing, plays
/// the interpolated audio under its cursor, and ends the frame with its
/// cursor still inside the region, whatever the rate.
pub proof fn law_loop_continuity(s: StaticSound)
    requires
        s.wf(),
        s.state == PlaybackState::Playing,
        s.loop_region.is_some(),
        ({
            let a = s.loop_region.unwrap().start * UNIT;
            let b = s.loop_region.unwrap().end * UNIT;
            if s.spec_step() >= 0 {
                a <= s.cursor < b
            } else {
                a < s.cursor <= b && UNIT <= s.cursor
            }
        }),
    ensures
        ({
            let (out, t) = s.spec_process();
            let a = s.loop_region.unwrap().start * UNIT;
            let b = s.loop_region.unwrap().end * UNIT;
            &&& t.state == PlaybackState::Playing
            &&& out == s.spec_rendered(read_position(s.cursor as int, s.spec_step()))
            &&& if s.spec_step() >= 0 {
                a <= t.cursor < b
            } else {
                a < t.cursor <= b
            }
        }),
{
    let r = s.loop_region.unwrap();
    let a = r.start * UNIT;
    let b = r.end * UNIT;
    assert(b <= s.spec_len() * UNIT) by (nonlinear_arith)
        requires
            r.end <= s.spec_len(),
            b == r.end * UNIT,
    ;
    assert(a < b) by (nonlinear_arith)
        requires
            r.start < r.end,
            a == r.start * UNIT,
            b == r.end * UNIT,
    ;
    let step = s.spec_step();
    let n = s.cursor + step;
    if step >= 0 {
        if n >= b {
            vstd::arithmetic::div_mod::lemma_mod_pos_bound(n - a, b - a);
        }
    } else {
        if n <= a {
            vstd::arithmetic::div_mod::lemma_mod_pos_bound(a - n, b - a);
        }
    }
}

/// The sound after `n` device frames of playback.
pub open spec fn process_n(s: StaticSound, n: nat) -> StaticSound
    decreases n,
{
    if n == 0 {
        s
    } else {
        process_n(s.spec_process().1, (n - 1) as nat)
    }
}

/// A playing sound at a fixed rate whose loop region `[a, b)` holds its
/// cursor (`(a, b]` going backward, where the region must not start at 0
/// so that the frame before the cursor exists).
pub open spec fn held_in_loop(s: StaticSound) -> bool {
    &&& s.state == PlaybackState::Playing
    &&& s.rate is Idle
    &&& s.spec_len() <= MAX_FRAMES
    &&& match s.loop_region {
        Some(r) => {
            let a = r.start * UNIT;
            let b = r.end * UNIT;
            &&& r.start < r.end <= s.spec_len()
            &&& if s.spec_step() >= 0 {
                a <= s.cursor < b
            } else {
                a < s.cursor <= b && r.start >= 1
            }
        },
        None => false,
    }
}

proof fn lemma_loop_step(s: StaticSound)
    requires
        held_in_loop(s),
    ensures
        held_in_loop(s.spec_process().1),
        s.spec_process().1.loop_region == s.loop_region,
        s.spec_process().1.spec_step() == s.spec_step(),
        s.spec_process().0 == s.spec_rendered(read_position(s.cursor as int, s.spec_step())),
{
    let r = s.loop_region.unwrap();
    let a = r.start * UNIT;
    let b = r.end * UNIT;
    assert(b <= s.spec_len() * UNIT) by (nonlinear_arith)
        requires
            r.end <= s.spec_len(),
            b == r.end * UNIT,
    ;
    assert(s.spec_len() * UNIT <= 4_000_000_000 * 1_000_000) by (nonlinear_arith)
        requires
            s.spec_len() <= 4_000_000_000,
    ;
    assert(a < b) by (nonlinear_arith)
        requires
            r.start < r.end,
            a == r.start * UNIT,
            b == r.end * UNIT,
    ;
    assert(a >= 0) by (nonlinear_arith)
        requires
            a == r.start * UNIT,
            r.start >= 0,
    ;
    if r.start >= 1 {
        assert(a >= UNIT) by (nonlinear_arith)
            requires
                a == r.start * UNIT,
                r.start >= 1,
        ;
    }
    let step = s.spec_step();
    let n = s.cursor + step;
    if step >= 0 {
        if n >= b {
            vstd::arithmetic::div_mod::lemma_mod_pos_bound(n - a, b - a);
        }
    } else {
        if n <= a {
            vstd::arithmetic::div_mod::lemma_mod_pos_bound(a - n, b - a);
        }
    }
    let t = s.spec_process().1;
    assert(t.rate == s.rate);
    assert(t.spec_len() == s.spec_len());
}

/// Loop continuity over any number of frames: a sound held in its loop
/// region stays held there, playing, frame after frame, and every frame it
/// outputs is the interpolated audio under its cursor.
pub proof fn law_loop_continuity_n(s: StaticSound, n: nat)
    requires
        held_in_loop(s),
    ensures
        held_in_loop(process_n(s, n)),
        process_n(s, n).loop_region == s.loop_region,
        process_n(s, n).state == PlaybackState::Playing,
    decreases n,
{
    if n > 0 {
        lemma_loop_step(s);
        law_loop_continuity_n(s.spec_process().1, (n - 1) as nat);
    }
}

/// A playing sound at a fixed rate with no loop region, whose cursor reads
/// inside the audio at each of the next `n` frames, moves exactly as
/// `advance_n` says: `n` steps of its step. Together with
/// `law_rate_inversion` this brings a sound played `n` frames at rate `r`
/// and `n` frames at `-r` back to where it started.
pub proof fn law_process_follows_steps(s: StaticSound, n: nat)
    requires
        s.state == PlaybackState::Playing,
        s.rate is Idle,
        s.loop_region is None,
        s.spec_len() <= MAX_FRAMES,
        forall|k: int|
            0 <= k <= n ==> 0 <= #[trigger] (s.cursor + k * s.spec_step()) <= s.spec_len() * UNIT,
        forall|k: int|
            0 <= k < n ==> s.in_audio(
                read_position(#[trigger] (s.cursor + k * s.spec_step()), s.spec_step()),
            ),
    ensures
        process_n(s, n).cursor == s.cursor + n * s.spec_step(),
        process_n(s, n).cursor == advance_n(s.cursor as int, s.spec_step(), n, s.spec_len()),
        process_n(s, n).state == PlaybackState::Playing,
    decreases n,
{
    let step = s.spec_step();
    if n == 0 {
        assert(s.cursor + 0 * step == s.cursor);
        assert(n * step == 0) by (nonlinear_arith)
            requires
                n == 0,
        ;
    } else {
        assert(s.cursor + 0 * step == s.cursor);
        assert(s.cursor + 1 * step == s.cursor + step);
        assert(s.spec_len() * UNIT <= 4_000_000_000 * 1_000_000) by (nonlinear_arith)
            requires
                s.spec_len() <= 4_000_000_000,
        ;
        let t = s.spec_process().1;
        assert(t.cursor == s.cursor + step);
        assert(t.spec_step() == step);
        assert(t.spec_len() == s.spec_len());
        let m = (n - 1) as nat;
        assert forall|k: int| 0 <= k <= m implies 0 <= #[trigger] (t.cursor + k * t.spec_step())
            <= t.spec_len() * UNIT by {
            assert(t.cursor + k * step == s.cursor + (k + 1) * step) by (nonlinear_arith)
                requires
                    t.cursor == s.cursor + step,
            ;
            assert(0 <= s.cursor + (k + 1) * step <= s.spec_len() * UNIT);
        }
        assert forall|k: int| 0 <= k < m implies t.in_audio(
            read_position(#[trigger] (t.cursor + k * t.spec_step()), t.spec_step()),
        ) by {
            assert(t.cursor + k * step == s.cursor + (k + 1) * step) by (nonlinear_arith)
                requires
                    t.cursor == s.cursor + step,
            ;
            assert(s.in_audio(read_position(s.cursor + (k + 1) * step, step)));
        }
        law_process_follows_steps(t, m);
        assert(s.cursor + n * step == t.cursor + m * step) by (nonlinear_arith)
            requires
                t.cursor == s.cursor + step,
                m == n - 1,
        ;
        lemma_advance_straight(s.cursor as int, step, n, s.spec_len());
        assert(0 <= s.cursor + n * step <= s.spec_len() * UNIT);
    }
}

/// The cursor after `n` steps of `step` with no loop region.
pub open spec fn advance_n(cursor: int, step: int, n: nat, len: int) -> int
    decreases n,
{
    if n == 0 {
        cursor
    } else {
        advance_n(next_cursor(cursor, step, None, len), step, (n - 1) as nat, len)
    }
}

pub proof fn lemma_advance_straight(cursor: int, step: int, n: nat, len: int)
    requires
        0 <= cursor <= len * UNIT,
        0 <= cursor + n * step <= len * UNIT,
    ensures
        advance_n(cursor, step, n, len) == cursor + n * step,
    decreases n,
{
    if n > 0 {
        let m = (n - 1) as nat;
        assert(cursor + n * step == cursor + step + m * step) by (nonlinear_arith)
            requires
                m == n - 1,
        ;
        assert(0 <= cursor + step <= len * UNIT) by (nonlinear_arith)
            requires
                0 <= cursor <= len * UNIT,
                0 <= cursor + n * step <= len * UNIT,
                n >= 1,
        ;
        assert(next_cursor(cursor, step, None, len) == cursor + step);
        lemma_advance_straight(cursor + step, step, m, len);
        assert(advance_n(cursor, step, n, len) == advance_n(cursor + step, step, m, len));
    } else {
        assert(n * step == 0) by (nonlinear_arith)
            requires
                n == 0,
        ;
    }
}

/// Rate inversion: the step of rate `-r` is the opposite of the step of
/// rate `r`, so playing `n` frames at `r` and then `n` frames at `-r`
/// brings the cursor back exactly where it started, as long as the first
/// part stays within the audio.
pub proof fn law_rate_inversion(
    cursor: int,
    rate: int,
    reverse: bool,
    asset_rate: int,
    device_rate: int,
    n: nat,
    len: int,
)
    requires
        device_rate > 0,
        0 <= cursor <= len * UNIT,
        0 <= cursor + n * step_of(rate, reverse, asset_rate, device_rate) <= len * UNIT,
    ensures
        step_of(-rate, reverse, asset_rate, device_rate) == -step_of(
            rate,
            reverse,
            asset_rate,
            device_rate,
        ),
        advance_n(
            advance_n(cursor, step_of(rate, reverse, asset_rate, device_rate), n, len),
            step_of(-rate, reverse, asset_rate, device_rate),
            n,
            len,
        ) == cursor,
{
    let r = if reverse {
        -rate
    } else {
        rate
    };
    assert((-r) * asset_rate == -(r * asset_rate)) by (nonlinear_arith);
    let s = step_of(rate, reverse, asset_rate, device_rate);
    let t = step_of(-rate, reverse, asset_rate, device_rate);
    assert(t == -s);
    lemma_advance_straight(cursor, s, n, len);
    let c = cursor + n * s;
    assert(c + n * t == cursor) by (nonlinear_arith)
        requires
            t == -s,
            c == cursor + n * s,
    ;
    lemma_advance_straight(c, t, n, len);
}

} // verus!

verus! {

/// `v` limited to `[lo, hi]`.
pub open spec fn clamp(v: int, lo: int, hi: int) -> int {
    if v < lo {
        lo
    } else if v > hi {
        hi
    } else {
        v
    }
}

fn clamp_i64(v: i64, lo: i64, hi: i64) -> (r: i64)
    requires
        lo <= hi,
    ensures
        r == clamp(v as int, lo as int, hi as int),
{
    if v < lo {
        lo
    } else if v > hi {
        hi
    } else {
        v
    }
}

/// Where a sound starts: its start position, clamped to the audio, counted
/// from the end when the sound is reversed.
pub open spec fn initial_cursor(settings: StaticSoundSettings, sample_rate: int, len: int) -> int {
    let p = clamp(position_frames(settings.start_position, sample_rate), 0, len);
    if settings.reverse {
        (len - p) * UNIT
    } else {
        p * UNIT
    }
}

/// The number of device frames a fade-in lasts, saturating.
pub open spec fn fade_frames(t: Tween, device_rate: int) -> int {
    clamp(t.duration_micros * device_rate / (MICROS_PER_SECOND as int), 0, u32::MAX as int)
}

/// The fade a sound starts with: a ramp from silence to full volume, or
/// full volume at once.
pub open spec fn initial_fade(t: Option<Tween>, device_rate: int) -> Tweener {
    match t {
        Some(tw) => if fade_frames(tw, device_rate) == 0 {
            Tweener::Idle(UNIT)
        } else {
            Tweener::Tweening {
                start: 0,
                target: UNIT,
                elapsed: 0,
                duration: fade_frames(tw, device_rate) as u32,
            }
        },
        None => Tweener::Idle(UNIT),
    }
}

/// The loop region a region selects from `len` frames, if it is not empty.
pub open spec fn loop_of(region: Option<Region>, sample_rate: int, len: int) -> Option<FrameRegion> {
    match region {
        Some(reg) => {
            let w = window_of(reg, sample_rate, len);
            if w.0 < w.1 {
                Some(FrameRegion { start: w.0 as usize, end: w.1 as usize })
            } else {
                None
            }
        },
        None => None,
    }
}

/// A loop region with its end clamped to `len` frames, if it is not empty.
pub open spec fn loop_clamped(region: Option<FrameRegion>, len: int) -> Option<FrameRegion> {
    match region {
        Some(r) => {
            let end = if r.end < len {
                r.end as int
            } else {
                len
            };
            if r.start < end {
                Some(FrameRegion { start: r.start, end: end as usize })
            } else {
                None
            }
        },
        None => None,
    }
}

/// The playback state after a state command.
pub open spec fn state_after(s: PlaybackState, c: StateCommand) -> PlaybackState {
    match c {
        StateCommand::Pause => if s == PlaybackState::Playing {
            PlaybackState::Paused
        } else {
            s
        },
        StateCommand::Resume => if s == PlaybackState::Paused {
            PlaybackState::Playing
        } else {
            s
        },
        StateCommand::Stop { .. } => if s == PlaybackState::Playing || s
            == PlaybackState::Stopping {
            PlaybackState::Stopping
        } else {
            PlaybackState::Stopped
        },
    }
}

/// The cursor after an optional seek to an absolute time and then an
/// optional seek by a time offset, both in micro-seconds of an asset at
/// `asset_rate`, each clamped to the audio. A micro-second at `r` Hz is `r`
/// micro-frames.
pub open spec fn cursor_after_seeks(
    cursor: int,
    to: Option<i64>,
    by: Option<i64>,
    asset_rate: int,
    len: int,
) -> int {
    let c = match to {
        Some(t) => clamp(t * asset_rate, 0, len * UNIT),
        None => cursor,
    };
    match by {
        Some(d) => clamp(c + d * asset_rate, 0, len * UNIT),
        None => c,
    }
}

/// A sound after an optional state command: pause and resume switch
/// between `Playing` and `Paused`; stop fades a playing (or stopping) sound
/// to silence over the given frames, and stops any other at once.
pub open spec fn state_applied(s: StaticSound, st: Option<StateCommand>) -> StaticSound {
    match st {
        None => s,
        Some(c) => match c {
            StateCommand::Stop { fade_frames } => if s.state == PlaybackState::Playing || s.state
                == PlaybackState::Stopping {
                StaticSound { state: PlaybackState::Stopping, fade: s.fade.spec_set(0, fade_frames), ..s }
            } else {
                StaticSound { state: PlaybackState::Stopped, ..s }
            },
            _ => StaticSound { state: state_after(s.state, c), ..s },
        },
    }
}

/// A tween after an optional value command, its target clamped to
/// `[lo, hi]`.
pub open spec fn value_applied(t: Tweener, c: Option<ValueCommand>, lo: int, hi: int) -> Tweener {
    match c {
        Some(v) => t.spec_set(clamp(v.target as int, lo, hi) as i64, v.frames),
        None => t,
    }
}

impl StaticSound {
    /// The sound after its pending commands are applied, in the order
    /// state, seek to, seek by, loop region, volume, panning, rate.
    pub open spec fn spec_apply(self, c: SoundCommands) -> StaticSound {
        let s1 = state_applied(self, c.state.pending);
        let s2 = StaticSound {
            cursor: cursor_after_seeks(
                s1.cursor as int,
                c.seek_to.pending,
                c.seek_by.pending,
                s1.asset_rate as int,
                s1.spec_len(),
            ) as i64,
            ..s1
        };
        let s3 = StaticSound {
            loop_region: match c.loop_region.pending {
                Some(l) => loop_clamped(l, s2.spec_len()),
                None => s2.loop_region,
            },
            ..s2
        };
        StaticSound {
            volume: value_applied(s3.volume, c.volume.pending, 0, MAX_GAIN as int),
            panning: value_applied(s3.panning, c.panning.pending, 0, UNIT as int),
            rate: value_applied(s3.rate, c.playback_rate.pending, -MAX_RATE, MAX_RATE as int),
            ..s3
        }
    }
}

impl StaticSoundData {
    /// The sound this data plays on a device running at `device_rate`, and
    /// the empty command slots that control it. The sound starts playing at
    /// once or waits for its clock; volume, panning and rate are clamped to
    /// their ranges.
    pub fn split(&self, device_rate: u32, id: u64) -> (r: (StaticSound, StaticSoundHandle))
        requires
            self.wf(),
            1 <= self.sample_rate <= MAX_SAMPLE_RATE,
            1 <= device_rate <= MAX_SAMPLE_RATE,
            self.spec_num_frames() <= MAX_FRAMES,
        ensures
            r.0.wf(),
            r.0.frames == self.frames,
            r.0.slice == self.slice,
            r.0.asset_rate == self.sample_rate,
            r.0.device_rate == device_rate,
            r.0.cursor == initial_cursor(
                self.settings,
                self.sample_rate as int,
                self.spec_num_frames(),
            ),
            r.0.state == match self.settings.start_time {
                StartTime::Immediate => PlaybackState::Playing,
                StartTime::ClockTime { .. } => PlaybackState::Queued,
            },
            r.0.volume == Tweener::Idle(clamp(self.settings.volume as int, 0, MAX_GAIN as int) as i64),
            r.0.panning == Tweener::Idle(clamp(self.settings.panning as int, 0, UNIT as int) as i64),
            r.0.rate == Tweener::Idle(
                clamp(self.settings.playback_rate as int, -MAX_RATE, MAX_RATE as int) as i64,
            ),
            r.0.fade == initial_fade(self.settings.fade_in_tween, device_rate as int),
            r.0.loop_region == loop_of(
                self.settings.loop_region,
                self.sample_rate as int,
                self.spec_num_frames(),
            ),
            r.0.reverse == self.settings.reverse,
            r.0.start_time == self.settings.start_time,
            r.0.output == self.settings.output_destination,
            r.0.id == id,
            r.1.id == id,
            r.1.commands == SoundCommands::spec_empty(),
            r.1.shared == r.0.spec_shared(),
    {
        let settings: StaticSoundSettings = self.settings;
        let len: usize = self.num_frames();
        let sp: usize = settings.start_position.into_samples(self.sample_rate);
        let p: usize = if sp > len {
            len
        } else {
            sp
        };
        assert(len as int * UNIT <= 4_000_000_000 * 1_000_000) by (nonlinear_arith)
            requires
                len <= 4_000_000_000,
        ;
        assert((len - p) as int * UNIT <= len * UNIT && p as int * UNIT <= len * UNIT)
            by (nonlinear_arith)
            requires
                p <= len,
        ;
        let cursor: i64 = if settings.reverse {
            (len - p) as i64 * UNIT
        } else {
            p as i64 * UNIT
        };
        let fade: Tweener = match settings.fade_in_tween {
            Some(tw) => {
                assert(tw.duration_micros as int * device_rate as int <= 0xffff_ffff_ffff_ffff
                    * 1_000_000) by (nonlinear_arith)
                    requires
                        tw.duration_micros <= 0xffff_ffff_ffff_ffff,
                        device_rate <= 1_000_000,
                ;
                let f: u128 = (tw.duration_micros as u128 * device_rate as u128)
                    / MICROS_PER_SECOND as u128;
                let frames: u32 = if f > u32::MAX as u128 {
                    u32::MAX
                } else {
                    f as u32
                };
                if frames == 0 {
                    Tweener::Idle(UNIT)
                } else {
                    Tweener::Tweening { start: 0, target: UNIT, elapsed: 0, duration: frames }
                }
            },
            None => Tweener::Idle(UNIT),
        };
        let loop_region: Option<FrameRegion> = match settings.loop_region {
            Some(reg) => {
                let (a, b): (usize, usize) = window(reg, self.sample_rate, len);
                if a < b {
                    Some(FrameRegion { start: a, end: b })
                } else {
                    None
                }
            },
            None => None,
        };
        let state: PlaybackState = match settings.start_time {
            StartTime::Immediate => PlaybackState::Playing,
            StartTime::ClockTime { .. } => PlaybackState::Queued,
        };
        let sound = StaticSound {
            id,
            frames: share(&self.frames),
            slice: self.slice,
            asset_rate: self.sample_rate,
            device_rate,
            cursor,
            rate: Tweener::Idle(clamp_i64(settings.playback_rate, -MAX_RATE, MAX_RATE)),
            volume: Tweener::Idle(clamp_i64(settings.volume, 0, MAX_GAIN)),
            panning: Tweener::Idle(clamp_i64(settings.panning, 0, UNIT)),
            fade,
            loop_region,
            reverse: settings.reverse,
            start_time: settings.start_time,
            state,
            output: settings.output_destination,
        };
        let shared: SharedState = sound.shared();
        (sound, StaticSoundHandle { id, commands: SoundCommands::new(), shared })
    }
}

impl StaticSound {
    /// Applies the pending commands, each at most once and in this order:
    /// the state change, the seek to a position, the seek by an offset, the
    /// loop region, then volume, panning and playback rate. Every slot is
    /// left empty.
    pub fn apply_commands(&mut self, cmds: &mut SoundCommands)
        requires
            old(self).wf(),
        ensures
            final(self).wf(),
            *final(cmds) == SoundCommands::spec_empty(),
            *final(self) == old(self).spec_apply(*old(cmds)),
            final(self).frames == old(self).frames,
            final(self).slice == old(self).slice,
            final(self).asset_rate == old(self).asset_rate,
            final(self).device_rate == old(self).device_rate,
            final(self).state == match old(cmds).state.pending {
                Some(c) => state_after(old(self).state, c),
                None => old(self).state,
            },
            match old(cmds).state.pending {
                Some(StateCommand::Stop { fade_frames }) => (old(self).state
                    == PlaybackState::Playing || old(self).state == PlaybackState::Stopping)
                    ==> final(self).fade.spec_target() == 0 && (fade_frames == 0
                    ==> final(self).fade.spec_value() == 0),
                _ => final(self).fade == old(self).fade,
            },
            final(self).cursor == cursor_after_seeks(
                old(self).cursor as int,
                old(cmds).seek_to.pending,
                old(cmds).seek_by.pending,
                old(self).asset_rate as int,
                old(self).spec_len(),
            ),
            final(self).loop_region == match old(cmds).loop_region.pending {
                Some(l) => loop_clamped(l, old(self).spec_len()),
                None => old(self).loop_region,
            },
            match old(cmds).volume.pending {
                Some(c) => final(self).volume.spec_target() == clamp(
                    c.target as int,
                    0,
                    MAX_GAIN as int,
                ) && (c.frames == 0 ==> final(self).volume.spec_value()
                    == final(self).volume.spec_target()),
                None => final(self).volume == old(self).volume,
            },
            match old(cmds).panning.pending {
                Some(c) => final(self).panning.spec_target() == clamp(c.target as int, 0, UNIT as int)
                    && (c.frames == 0 ==> final(self).panning.spec_value()
                    == final(self).panning.spec_target()),
                None => final(self).panning == old(self).panning,
            },
            match old(cmds).playback_rate.pending {
                Some(c) => final(self).rate.spec_target() == clamp(
                    c.target as int,
                    -MAX_RATE,
                    MAX_RATE as int,
                ) && (c.frames == 0 ==> final(self).rate.spec_value()
                    == final(self).rate.spec_target()),
                None => final(self).rate == old(self).rate,
            },
    {
        let st: Option<StateCommand> = cmds.state.read();
        self.apply_state(st);
        let to: Option<i64> = cmds.seek_to.read();
        let by: Option<i64> = cmds.seek_by.read();
        self.apply_seeks(to, by);
        let lp: Option<Option<FrameRegion>> = cmds.loop_region.read();
        self.apply_loop_region(lp);
        let v: Option<ValueCommand> = cmds.volume.read();
        let p: Option<ValueCommand> = cmds.panning.read();
        let r: Option<ValueCommand> = cmds.playback_rate.read();
        self.apply_values(v, p, r);
    }

    fn apply_state(&mut self, st: Option<StateCommand>)
        requires
            old(self).wf(),
        ensures
            final(self).wf(),
            *final(self) == state_applied(*old(self), st),
            final(self).state == match st {
                Some(c) => state_after(old(self).state, c),
                None => old(self).state,
            },
            match st {
                Some(StateCommand::Stop { fade_frames }) => (old(self).state
                    == PlaybackState::Playing || old(self).state == PlaybackState::Stopping)
                    ==> final(self).fade.spec_target() == 0 && (fade_frames == 0
                    ==> final(self).fade.spec_value() == 0),
                _ => final(self).fade == old(self).fade,
            },
    {
        match st {
            Some(StateCommand::Pause) => {
                if self.state == PlaybackState::Playing {
                    self.state = PlaybackState::Paused;
                }
            },
            Some(StateCommand::Resume) => {
                if self.state == PlaybackState::Paused {
                    self.state = PlaybackState::Playing;
                }
            },
            Some(StateCommand::Stop { fade_frames }) => {
                if self.state == PlaybackState::Playing || self.state == PlaybackState::Stopping {
                    self.state = PlaybackState::Stopping;
                    self.fade.set(0, fade_frames);
                } else {
                    self.state = PlaybackState::Stopped;
                }
            },
            None => {},
        }
    }

    fn apply_seeks(&mut self, to: Option<i64>, by: Option<i64>)
        requires
            old(self).wf(),
        ensures
            final(self).wf(),
            *final(self) == (StaticSound {
                cursor: cursor_after_seeks(
                    old(self).cursor as int,
                    to,
                    by,
                    old(self).asset_rate as int,
                    old(self).spec_len(),
                ) as i64,
                ..*old(self)
            }),
    {
        let len: usize = self.len();
        assert(len as int * UNIT <= 4_000_000_000 * 1_000_000) by (nonlinear_arith)
            requires
                len <= 4_000_000_000,
        ;
        let top: i64 = len as i64 * UNIT;
        let ar: i128 = self.asset_rate as i128;
        match to {
            Some(t) => {
                assert(-0x8000_0000_0000_0000 * 1_000_000 <= t * ar <= 0x8000_0000_0000_0000
                    * 1_000_000) by (nonlinear_arith)
                    requires
                        -0x8000_0000_0000_0000 <= t < 0x8000_0000_0000_0000,
                        1 <= ar <= 1_000_000,
                ;
                let p: i128 = t as i128 * ar;
                self.cursor = if p < 0 {
                    0
                } else if p > top as i128 {
                    top
                } else {
                    p as i64
                };
            },
            None => {},
        }
        match by {
            Some(d) => {
                assert(-0x8000_0000_0000_0000 * 1_000_000 <= d * ar <= 0x8000_0000_0000_0000
                    * 1_000_000) by (nonlinear_arith)
                    requires
                        -0x8000_0000_0000_0000 <= d < 0x8000_0000_0000_0000,
                        1 <= ar <= 1_000_000,
                ;
                let c: i128 = self.cursor as i128 + d as i128 * ar;
                self.cursor = if c < 0 {
                    0
                } else if c > top as i128 {
                    top
                } else {
                    c as i64
                };
            },
            None => {},
        }
    }

    fn apply_loop_region(&mut self, lp: Option<Option<FrameRegion>>)
        requires
            old(self).wf(),
        ensures
            final(self).wf(),
            *final(self) == (StaticSound {
                loop_region: match lp {
                    Some(l) => loop_clamped(l, old(self).spec_len()),
                    None => old(self).loop_region,
                },
                ..*old(self)
            }),
    {
        let len: usize = self.len();
        match lp {
            Some(l) => {
                self.loop_region = match l {
                    Some(r) => {
                        let end: usize = if r.end < len {
                            r.end
                        } else {
                            len
                        };
                        if r.start < end {
                            Some(FrameRegion { start: r.start, end })
                        } else {
                            None
                        }
                    },
                    None => None,
                };
            },
            None => {},
        }
    }

    fn apply_values(
        &mut self,
        v: Option<ValueCommand>,
        p: Option<ValueCommand>,
        r: Option<ValueCommand>,
    )
        requires
            old(self).wf(),
        ensures
            final(self).wf(),
            *final(self) == (StaticSound {
                volume: value_applied(old(self).volume, v, 0, MAX_GAIN as int),
                panning: value_applied(old(self).panning, p, 0, UNIT as int),
                rate: value_applied(old(self).rate, r, -MAX_RATE, MAX_RATE as int),
                ..*old(self)
            }),
            match v {
                Some(c) => final(self).volume.spec_target() == clamp(
                    c.target as int,
                    0,
                    MAX_GAIN as int,
                ) && (c.frames == 0 ==> final(self).volume.spec_value()
                    == final(self).volume.spec_target()),
                None => final(self).volume == old(self).volume,
            },
            match p {
                Some(c) => final(self).panning.spec_target() == clamp(c.target as int, 0, UNIT as int)
                    && (c.frames == 0 ==> final(self).panning.spec_value()
                    == final(self).panning.spec_target()),
                None => final(self).panning == old(self).panning,
            },
            match r {
                Some(c) => final(self).rate.spec_target() == clamp(
                    c.target as int,
                    -MAX_RATE,
                    MAX_RATE as int,
                ) && (c.frames == 0 ==> final(self).rate.spec_value()
                    == final(self).rate.spec_target()),
                None => final(self).rate == old(self).rate,
            },
    {
        match v {
            Some(c) => {
                self.volume.set(clamp_i64(c.target, 0, MAX_GAIN), c.frames);
            },
            None => {},
        }
        match p {
            Some(c) => {
                self.panning.set(clamp_i64(c.target, 0, UNIT), c.frames);
            },
            None => {},
        }
        match r {
            Some(c) => {
                self.rate.set(clamp_i64(c.target, -MAX_RATE, MAX_RATE), c.frames);
            },
            None => {},
        }
    }

    /// Moves the sound to a device running at `sample_rate`: later cursor
    /// steps scale by the new rate, nothing else changes.
    pub fn on_change_sample_rate(&mut self, sample_rate: u32)
        requires
            old(self).wf(),
            1 <= sample_rate <= MAX_SAMPLE_RATE,
        ensures
            final(self).wf(),
            *final(self) == (StaticSound { device_rate: sample_rate, ..*old(self) }),
    {
        self.device_rate = sample_rate;
    }

    /// Starts a queued sound whose start time has come: at once for an
    /// immediate start, or when the clock `clock` has reached the start tick.
    pub fn on_clock(&mut self, clock: u64, ticks: u64)
        requires
            old(self).wf(),
        ensures
            final(self).wf(),
            *final(self) == (StaticSound {
                state: if old(self).state == PlaybackState::Queued && old(self).start_due(
                    clock,
                    ticks,
                ) {
                    PlaybackState::Playing
                } else {
                    old(self).state
                },
                ..*old(self)
            }),
    {
        if self.state == PlaybackState::Queued {
            let due: bool = match self.start_time {
                StartTime::Immediate => true,
                StartTime::ClockTime { clock: c, ticks: t } => c == clock && ticks >= t,
            };
            if due {
                self.state = PlaybackState::Playing;
            }
        }
    }

    /// The sound after `on_clock(clock, ticks)`.
    pub open spec fn spec_on_clock(self, clock: u64, ticks: u64) -> StaticSound {
        StaticSound {
            state: if self.state == PlaybackState::Queued && self.start_due(clock, ticks) {
                PlaybackState::Playing
            } else {
                self.state
            },
            ..self
        }
    }

    /// The start time has come when the given clock reads `ticks`.
    pub open spec fn start_due(&self, clock: u64, ticks: u64) -> bool {
        match self.start_time {
            StartTime::Immediate => true,
            StartTime::ClockTime { clock: c, ticks: t } => c == clock && ticks >= t,
        }
    }

    /// The sound is done and can be reclaimed.
    pub fn is_stopped(&self) -> (r: bool)
        ensures
            r == (self.state == PlaybackState::Stopped),
    {
        self.state == PlaybackState::Stopped
    }
}

} // verus!
