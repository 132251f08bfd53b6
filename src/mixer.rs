//! Mixer tracks, their effect chains, and the mixer that sums them.
use crate::data::TrackIndex;
use crate::tween::Tweener;
use crate::frame::{
    clip, mul_fx, pan_gains, pan_left, pan_right, scaled, scaled_each, sum, Frame, UNIT,
};
use vstd::prelude::*;

verus! {

/// An effect on a track.
#[derive(Clone, Copy, Debug, PartialEq, Eq, Structural)]
pub enum Effect {
    /// Multiplies by a fixed-point factor.
    Gain(i64),
    /// Adds a constant to both channels.
    Offset(i32),
}

/// What an effect makes of a frame.
pub open spec fn effect_output(e: Effect, f: Frame) -> Frame {
    match e {
        Effect::Gain(g) => scaled(f, g as int),
        Effect::Offset(o) => sum(f, Frame { left: o, right: o }),
    }
}

/// The point `mix` (fixed point) of the way from `a` to `b`, per channel.
pub open spec fn lerp_frame(a: Frame, b: Frame, mix: int) -> Frame {
    Frame {
        left: clip(a.left + mul_fx(b.left - a.left, mix)) as i32,
        right: clip(a.right + mul_fx(b.right - a.right, mix)) as i32,
    }
}

impl Effect {
    pub fn process(&self, f: Frame) -> (r: Frame)
        ensures
            r == effect_output(*self, f),
    {
        match *self {
            Effect::Gain(g) => f.scale(g),
            Effect::Offset(o) => f.add(Frame::from_mono(o)),
        }
    }
}

/// `a + (b - a) * mix`, per channel, saturating.
pub fn lerp(a: Frame, b: Frame, mix: i64) -> (r: Frame)
    requires
        0 <= mix <= UNIT,
    ensures
        r == lerp_frame(a, b, mix as int),
{
    let dl: i64 = b.left as i64 - a.left as i64;
    let dr: i64 = b.right as i64 - a.right as i64;
    let ml: i64 = mul_exec(dl, mix);
    let mr: i64 = mul_exec(dr, mix);
    Frame {
        left: crate::frame::clip_i128(a.left as i128 + ml as i128),
        right: crate::frame::clip_i128(a.right as i128 + mr as i128),
    }
}

fn mul_exec(d: i64, mix: i64) -> (r: i64)
    requires
        -0x1_0000_0000 <= d <= 0x1_0000_0000,
        0 <= mix <= UNIT,
    ensures
        r == mul_fx(d as int, mix as int),
{
    assert(-0x1_0000_0000 * 1_000_000 <= d * mix <= 0x1_0000_0000 * 1_000_000)
        by (nonlinear_arith)
        requires
            -0x1_0000_0000 <= d <= 0x1_0000_0000,
            0 <= mix <= 1_000_000,
    ;
    let q: i128 = crate::frame::div_trunc_i128(d as i128 * mix as i128, UNIT as i128);
    proof {
        let a = d as int * mix as int;
        if a >= 0 {
            vstd::arithmetic::div_mod::lemma_div_is_ordered_by_denominator(a, 1, UNIT as int);
        } else {
            vstd::arithmetic::div_mod::lemma_div_is_ordered_by_denominator(-a, 1, UNIT as int);
        }
    }
    q as i64
}

/// An effect in a track, with an id, an on/off switch and a dry/wet mix
/// from 0 (the input only) to `UNIT` (the effect only).
#[derive(Clone, Copy, Debug, PartialEq, Eq, Structural)]
pub struct EffectSlot {
    pub id: u64,
    pub effect: Effect,
    pub enabled: bool,
    pub mix: i64,
}

/// What a slot makes of a frame.
pub open spec fn slot_output(s: EffectSlot, f: Frame) -> Frame {
    if s.enabled {
        lerp_frame(f, effect_output(s.effect, f), s.mix as int)
    } else {
        f
    }
}

/// A frame passed through a chain of slots, first to last.
pub open spec fn chain_output(slots: Seq<EffectSlot>, f: Frame) -> Frame
    decreases slots.len(),
{
    if slots.len() == 0 {
        f
    } else {
        slot_output(slots.last(), chain_output(slots.drop_last(), f))
    }
}

impl EffectSlot {
    pub open spec fn wf(self) -> bool {
        0 <= self.mix <= UNIT
    }

    pub fn process(&self, f: Frame) -> (r: Frame)
        requires
            self.wf(),
        ensures
            r == slot_output(*self, f),
    {
        if self.enabled {
            lerp(f, self.effect.process(f), self.mix)
        } else {
            f
        }
    }
}

/// A mixer track: an input accumulator, an effect chain, a volume tween
/// (fixed point), a panning tween (0 to `UNIT`), and the track its output
/// goes to.
pub struct Track {
    pub input: Frame,
    pub effects: Vec<EffectSlot>,
    pub volume: Tweener,
    pub panning: Tweener,
    pub route: TrackIndex,
}

/// What a track outputs for an input.
pub open spec fn track_output(effects: Seq<EffectSlot>, volume: int, panning: int, input: Frame) -> Frame {
    scaled_each(
        scaled(chain_output(effects, input), volume),
        pan_left(panning),
        pan_right(panning),
    )
}

impl Track {
    pub open spec fn wf(&self) -> bool {
        &&& self.volume.wf()
        &&& self.panning.wf() && self.panning.within(0, UNIT as int)
        &&& forall|i: int| 0 <= i < self.effects@.len() ==> (#[trigger] self.effects@[i]).wf()
    }

    /// The track after it has run for a frame.
    pub open spec fn spec_after_process(&self) -> Track {
        Track {
            input: Frame::spec_silent(),
            volume: self.volume.spec_advance(),
            panning: self.panning.spec_advance(),
            ..*self
        }
    }

    /// What this track outputs for its accumulated input.
    pub open spec fn spec_output(&self) -> Frame {
        track_output(
            self.effects@,
            self.volume.spec_value(),
            self.panning.spec_value(),
            self.input,
        )
    }

    /// A track with no effects, silent input, full volume and centered
    /// panning.
    pub fn new() -> (r: Track)
        ensures
            r.wf(),
            r.input == Frame::spec_silent(),
            r.effects@.len() == 0,
            r.volume == Tweener::Idle(UNIT),
            r.panning == Tweener::Idle((UNIT / 2) as i64),
            r.route == TrackIndex::Main,
    {
        Track {
            input: Frame::silent(),
            effects: Vec::new(),
            volume: Tweener::Idle(UNIT),
            panning: Tweener::Idle(UNIT / 2),
            route: TrackIndex::Main,
        }
    }

    /// Adds a frame to the input accumulator.
    pub fn add_input(&mut self, f: Frame)
        ensures
            final(self).input == sum(old(self).input, f),
            final(self).effects == old(self).effects,
            final(self).volume == old(self).volume,
            final(self).panning == old(self).panning,
            final(self).route == old(self).route,
    {
        self.input = self.input.add(f);
    }

    /// Appends an effect to the end of the chain.
    pub fn add_effect(&mut self, slot: EffectSlot)
        requires
            old(self).wf(),
            slot.wf(),
        ensures
            final(self).wf(),
            final(self).effects@ == old(self).effects@.push(slot),
            final(self).input == old(self).input,
            final(self).volume == old(self).volume,
            final(self).panning == old(self).panning,
            final(self).route == old(self).route,
    {
        self.effects.push(slot);
    }

    /// The position of the effect with id `id` in the chain.
    pub fn find_effect(&self, id: u64) -> (r: Option<usize>)
        ensures
            match r {
                Some(i) => i < self.effects@.len() && self.effects@[i as int].id == id,
                None => forall|j: int| 0 <= j < self.effects@.len() ==> self.effects@[j].id != id,
            },
    {
        let mut i: usize = 0;
        while i < self.effects.len()
            invariant
                i <= self.effects@.len(),
                forall|j: int| 0 <= j < i ==> self.effects@[j].id != id,
            decreases self.effects@.len() - i,
        {
            if self.effects[i].id == id {
                return Some(i);
            }
            i = i + 1;
        }
        None
    }

    /// Takes the effect with id `id` out of the chain, keeping the order of
    /// the others.
    pub fn remove_effect(&mut self, id: u64) -> (r: Option<EffectSlot>)
        requires
            old(self).wf(),
        ensures
            final(self).wf(),
            final(self).input == old(self).input,
            final(self).volume == old(self).volume,
            final(self).panning == old(self).panning,
            final(self).route == old(self).route,
            match r {
                Some(s) => s.id == id && exists|i: int|
                    0 <= i < old(self).effects@.len() && old(self).effects@[i] == s
                        && final(self).effects@ == old(self).effects@.remove(i),
                None => final(self).effects@ == old(self).effects@ && forall|j: int|
                    0 <= j < old(self).effects@.len() ==> old(self).effects@[j].id != id,
            },
    {
        match self.find_effect(id) {
            Some(i) => {
                let s: EffectSlot = self.effects.remove(i);
                assert(forall|j: int|
                    0 <= j < self.effects@.len() ==> #[trigger] self.effects@[j] == old(
                        self,
                    ).effects@[if j < i {
                        j
                    } else {
                        j + 1
                    }]);
                Some(s)
            },
            None => None,
        }
    }

    /// Runs the input through the effect chain, the volume and the panning,
    /// clears the input, and moves the volume and panning tweens on by one
    /// frame.
    pub fn process(&mut self) -> (r: Frame)
        requires
            old(self).wf(),
        ensures
            final(self).wf(),
            r == old(self).spec_output(),
            *final(self) == old(self).spec_after_process(),
    {
        let mut f: Frame = self.input;
        let mut i: usize = 0;
        while i < self.effects.len()
            invariant
                i <= self.effects@.len(),
                self.wf(),
                f == chain_output(self.effects@.subrange(0, i as int), self.input),
            decreases self.effects@.len() - i,
        {
            proof {
                let s = self.effects@.subrange(0, i as int + 1);
                assert(s.drop_last() =~= self.effects@.subrange(0, i as int));
            }
            f = self.effects[i].process(f);
            i = i + 1;
        }
        assert(self.effects@.subrange(0, i as int) =~= self.effects@);
        let (gl, gr): (i64, i64) = pan_gains(self.panning.value());
        let out: Frame = f.scale(self.volume.value()).scale_each(gl, gr);
        self.input = Frame::silent();
        self.volume.advance();
        self.panning.advance();
        out
    }
}

} // verus!

verus! {

/// A change to the mixer, sent from the control side.
pub enum MixerCommand {
    /// Adds a sub-track under an id; a track already under that id is
    /// replaced and handed back for disposal.
    AddSubTrack(u64, Track),
    AddEffect(TrackIndex, EffectSlot),
    RemoveSubTrack(u64),
    /// Removes the effect with the given id from a track.
    RemoveEffect(TrackIndex, u64),
}

/// Where the output of sub-track `i` goes: the position of the sub-track
/// its route names when that track was added before it, otherwise the main
/// track (`None`). Routes thus only lead to earlier tracks, so they never
/// form a cycle.
pub open spec fn target_of(subs: Seq<(u64, Track)>, i: int) -> Option<int> {
    match subs[i].1.route {
        TrackIndex::Sub(id) => if exists|j: int| 0 <= j < i && subs[j].0 == id {
            Some(choose|j: int| 0 <= j < i && subs[j].0 == id)
        } else {
            None
        },
        TrackIndex::Main => None,
    }
}

/// Runs sub-tracks `k - 1` down to `0`, each into its target: returns the
/// sub-tracks afterwards and what reached the main track on top of
/// `main_in`.
pub open spec fn routed(subs: Seq<(u64, Track)>, main_in: Frame, k: int) -> (
    Seq<(u64, Track)>,
    Frame,
)
    decreases k,
{
    if k <= 0 || k > subs.len() {
        (subs, main_in)
    } else {
        let i = k - 1;
        let t = subs[i].1;
        let out = t.spec_output();
        let cleared = subs.update(i, (subs[i].0, t.spec_after_process()));
        match target_of(subs, i) {
            Some(j) => routed(
                cleared.update(
                    j,
                    (cleared[j].0, Track { input: sum(cleared[j].1.input, out), ..cleared[j].1 }),
                ),
                main_in,
                i,
            ),
            None => routed(cleared, sum(main_in, out), i),
        }
    }
}

/// The position of the sub-track with id `id`, if there is one.
pub open spec fn sub_index(subs: Seq<(u64, Track)>, id: u64) -> Option<int> {
    if exists|j: int| 0 <= j < subs.len() && subs[j].0 == id {
        Some(choose|j: int| 0 <= j < subs.len() && subs[j].0 == id)
    } else {
        None
    }
}

/// The main track and sub-tracks after adding `f` to the input of the
/// track `index` names, or of the main track when no sub-track has that id.
pub open spec fn input_added(
    main: Track,
    subs: Seq<(u64, Track)>,
    index: TrackIndex,
    f: Frame,
) -> (Track, Seq<(u64, Track)>) {
    let to_main = (Track { input: sum(main.input, f), ..main }, subs);
    match index {
        TrackIndex::Sub(id) => match sub_index(subs, id) {
            Some(j) => (
                main,
                subs.update(j, (subs[j].0, Track { input: sum(subs[j].1.input, f), ..subs[j].1 })),
            ),
            None => to_main,
        },
        TrackIndex::Main => to_main,
    }
}

/// One run of the mixer: its output, then the main track and the
/// sub-tracks afterwards.
pub open spec fn mix_output(main: Track, subs: Seq<(u64, Track)>) -> (Frame, Track, Seq<(u64, Track)>) {
    let (subs2, main_in) = routed(subs, Frame::spec_silent(), subs.len() as int);
    (
        track_output(
            main.effects@,
            main.volume.spec_value(),
            main.panning.spec_value(),
            sum(main.input, main_in),
        ),
        main.spec_after_process(),
        subs2,
    )
}

/// The track an index names, if it exists.
pub open spec fn track_of(m: &Mixer, index: TrackIndex) -> Option<Track> {
    match index {
        TrackIndex::Main => Some(m.main_track),
        TrackIndex::Sub(id) => match sub_index(m.sub_tracks@, id) {
            Some(i) => Some(m.sub_tracks@[i].1),
            None => None,
        },
    }
}

/// `b` is `a` with only its effects changed as `change` says; every other
/// track is unchanged. When `index` names no track, nothing changes.
pub open spec fn tracks_changed(
    a: &Mixer,
    b: &Mixer,
    index: TrackIndex,
    change: spec_fn(Track, Track) -> bool,
) -> bool {
    let kept = |x: Track, y: Track|
        y.input == x.input && y.volume == x.volume && y.panning == x.panning && y.route
            == x.route && change(x, y);
    match index {
        TrackIndex::Main => kept(a.main_track, b.main_track) && b.sub_tracks@ == a.sub_tracks@,
        TrackIndex::Sub(id) => match sub_index(a.sub_tracks@, id) {
            Some(i) => {
                &&& b.main_track == a.main_track
                &&& b.sub_tracks@.len() == a.sub_tracks@.len()
                &&& b.sub_tracks@[i].0 == a.sub_tracks@[i].0
                &&& kept(a.sub_tracks@[i].1, b.sub_tracks@[i].1)
                &&& forall|j: int|
                    0 <= j < a.sub_tracks@.len() && j != i ==> b.sub_tracks@[j]
                        == a.sub_tracks@[j]
            },
            None => b.main_track == a.main_track && b.sub_tracks@ == a.sub_tracks@,
        },
    }
}

/// The effect with id `eid` left the chain `a` (the others keep their
/// order) and went onto the disposal list; when there is none, neither
/// changed.
pub open spec fn effect_removed(
    a: Seq<EffectSlot>,
    b: Seq<EffectSlot>,
    eid: u64,
    unload_a: Seq<EffectSlot>,
    unload_b: Seq<EffectSlot>,
) -> bool {
    if exists|k: int| 0 <= k < a.len() && a[k].id == eid {
        exists|k: int|
            0 <= k < a.len() && a[k].id == eid && b == a.remove(k) && unload_b == unload_a.push(
                a[k],
            )
    } else {
        b == a && unload_b == unload_a
    }
}

/// With unique ids, the track found at `i` is the one `sub_index` names.
proof fn lemma_sub_index(subs: Seq<(u64, Track)>, i: int)
    requires
        0 <= i < subs.len(),
        forall|a: int, b: int|
            0 <= a < b < subs.len() ==> #[trigger] subs[a].0 != #[trigger] subs[b].0,
    ensures
        sub_index(subs, subs[i].0) == Some(i),
{
    let id = subs[i].0;
    assert(0 <= i < subs.len() && subs[i].0 == id);
    let c = choose|m: int| 0 <= m < subs.len() && subs[m].0 == id;
    if c != i {
        if c < i {
            assert(subs[c].0 != subs[i].0);
        } else {
            assert(subs[i].0 != subs[c].0);
        }
    }
}

/// Running sub-tracks `k - 1` down to `0` leaves each of them with silent
/// input and every later one as it was.
proof fn lemma_routed_clears(subs: Seq<(u64, Track)>, main_in: Frame, k: int)
    requires
        0 <= k <= subs.len(),
    ensures
        routed(subs, main_in, k).0.len() == subs.len(),
        forall|i: int|
            0 <= i < k ==> (#[trigger] routed(subs, main_in, k).0[i]).1.input
                == Frame::spec_silent(),
        forall|i: int| k <= i < subs.len() ==> #[trigger] routed(subs, main_in, k).0[i] == subs[i],
    decreases k,
{
    if k > 0 {
        let i = k - 1;
        let t = subs[i].1;
        let out = t.spec_output();
        let cleared = subs.update(i, (subs[i].0, t.spec_after_process()));
        match target_of(subs, i) {
            Some(j) => {
                let s2 = cleared.update(
                    j,
                    (cleared[j].0, Track { input: sum(cleared[j].1.input, out), ..cleared[j].1 }),
                );
                let c = choose|m: int| 0 <= m < i && subs[m].0 == subs[i].1.route->Sub_0;
                assert(j == c && j < i);
                lemma_routed_clears(s2, main_in, i);
            },
            None => {
                lemma_routed_clears(cleared, sum(main_in, out), i);
            },
        }
    }
}

/// The main track and the sub-tracks that feed it, in the order they were
/// added.
pub struct Mixer {
    pub main_track: Track,
    pub sub_tracks: Vec<(u64, Track)>,
}

impl Mixer {
    /// Every track is well formed and no two sub-tracks share an id.
    pub open spec fn wf(&self) -> bool {
        &&& self.main_track.wf()
        &&& forall|i: int|
            0 <= i < self.sub_tracks@.len() ==> (#[trigger] self.sub_tracks@[i]).1.wf()
        &&& forall|i: int, j: int|
            0 <= i < j < self.sub_tracks@.len() ==> #[trigger] self.sub_tracks@[i].0
                != #[trigger] self.sub_tracks@[j].0
    }

    /// A mixer with an empty main track and no sub-tracks.
    pub fn new() -> (r: Mixer)
        ensures
            r.wf(),
            r.sub_tracks@.len() == 0,
            r.main_track.effects@.len() == 0,
            r.main_track.input == Frame::spec_silent(),
            r.main_track.volume == Tweener::Idle(UNIT),
            r.main_track.panning == Tweener::Idle((UNIT / 2) as i64),
            r.main_track.route == TrackIndex::Main,
    {
        Mixer { main_track: Track::new(), sub_tracks: Vec::new() }
    }

    /// The position of the sub-track with id `id`.
    pub fn find_sub_track(&self, id: u64) -> (r: Option<usize>)
        ensures
            match r {
                Some(i) => i < self.sub_tracks@.len() && self.sub_tracks@[i as int].0 == id,
                None => forall|j: int|
                    0 <= j < self.sub_tracks@.len() ==> self.sub_tracks@[j].0 != id,
            },
    {
        let mut i: usize = 0;
        while i < self.sub_tracks.len()
            invariant
                i <= self.sub_tracks@.len(),
                forall|j: int| 0 <= j < i ==> self.sub_tracks@[j].0 != id,
            decreases self.sub_tracks@.len() - i,
        {
            if self.sub_tracks[i].0 == id {
                return Some(i);
            }
            i = i + 1;
        }
        None
    }

    /// Adds a frame to a track's input: the main track, or the sub-track with
    /// the id, or the main track when there is no such sub-track.
    pub fn add_input(&mut self, index: TrackIndex, input: Frame)
        requires
            old(self).wf(),
        ensures
            final(self).wf(),
            (final(self).main_track, final(self).sub_tracks@) == input_added(
                old(self).main_track,
                old(self).sub_tracks@,
                index,
                input,
            ),
    {
        let found: Option<usize> = match index {
            TrackIndex::Main => None,
            TrackIndex::Sub(id) => self.find_sub_track(id),
        };
        match found {
            Some(i) => {
                proof {
                    let subs = old(self).sub_tracks@;
                    let id = subs[i as int].0;
                    assert(0 <= i < subs.len() && subs[i as int].0 == id);
                    let c = choose|m: int| 0 <= m < subs.len() && subs[m].0 == id;
                    if c != i {
                        assert(subs[c].0 != subs[i as int].0);
                    }
                }
                self.sub_tracks[i].1.add_input(input);
                assert(self.sub_tracks@ =~= old(self).sub_tracks@.update(
                    i as int,
                    (
                        old(self).sub_tracks@[i as int].0,
                        Track {
                            input: sum(old(self).sub_tracks@[i as int].1.input, input),
                            ..old(self).sub_tracks@[i as int].1
                        },
                    ),
                ));
            },
            None => {
                self.main_track.add_input(input);
            },
        }
    }

    /// The target of sub-track `i`.
    pub fn route_target(&self, i: usize) -> (r: Option<usize>)
        requires
            self.wf(),
            i < self.sub_tracks@.len(),
        ensures
            match r {
                Some(j) => target_of(self.sub_tracks@, i as int) == Some(j as int),
                None => target_of(self.sub_tracks@, i as int) == None::<int>,
            },
    {
        match self.sub_tracks[i].1.route {
            TrackIndex::Main => None,
            TrackIndex::Sub(id) => {
                let mut j: usize = 0;
                while j < i
                    invariant
                        j <= i,
                        i < self.sub_tracks@.len(),
                        self.wf(),
                        self.sub_tracks@[i as int].1.route == TrackIndex::Sub(id),
                        forall|m: int| 0 <= m < j ==> self.sub_tracks@[m].0 != id,
                    decreases i - j,
                {
                    if self.sub_tracks[j].0 == id {
                        proof {
                            let subs = self.sub_tracks@;
                            assert(0 <= j < i && subs[j as int].0 == id);
                            let c = choose|m: int| 0 <= m < i && subs[m].0 == id;
                            assert(0 <= c < i && subs[c].0 == id);
                            if c != j {
                                assert(subs[c].0 != subs[j as int].0);
                            }
                        }
                        return Some(j);
                    }
                    j = j + 1;
                }
                None
            },
        }
    }

    /// Runs the sub-tracks from the last added to the first, each into its
    /// target (an earlier sub-track or the main track), then runs the main
    /// track and returns its output. Every input is left silent.
    pub fn process(&mut self) -> (r: Frame)
        requires
            old(self).wf(),
        ensures
            final(self).wf(),
            ({
                let (subs, main_in) = routed(
                    old(self).sub_tracks@,
                    Frame::spec_silent(),
                    old(self).sub_tracks@.len() as int,
                );
                &&& final(self).sub_tracks@ == subs
                &&& r == track_output(
                    old(self).main_track.effects@,
                    old(self).main_track.volume.spec_value(),
                    old(self).main_track.panning.spec_value(),
                    sum(old(self).main_track.input, main_in),
                )
            }),
            final(self).main_track == old(self).main_track.spec_after_process(),
            forall|i: int|
                0 <= i < final(self).sub_tracks@.len() ==> (#[trigger] final(self).sub_tracks@[i]).1.input
                    == Frame::spec_silent(),
            (r, final(self).main_track, final(self).sub_tracks@) == mix_output(
                old(self).main_track,
                old(self).sub_tracks@,
            ),
    {
        let mut main_input: Frame = Frame::silent();
        let mut i: usize = self.sub_tracks.len();
        let ghost subs0 = self.sub_tracks@;
        while i > 0
            invariant
                i <= self.sub_tracks@.len(),
                self.sub_tracks@.len() == subs0.len(),
                self.main_track == old(self).main_track,
                subs0 == old(self).sub_tracks@,
                self.wf(),
                forall|m: int|
                    0 <= m < self.sub_tracks@.len() ==> (#[trigger] self.sub_tracks@[m]).0
                        == subs0[m].0,
                routed(subs0, Frame::spec_silent(), subs0.len() as int) == routed(
                    self.sub_tracks@,
                    main_input,
                    i as int,
                ),
            decreases i,
        {
            i = i - 1;
            let ghost before = self.sub_tracks@;
            let target: Option<usize> = self.route_target(i);
            let out: Frame = self.sub_tracks[i].1.process();
            let ghost cleared = before.update(
                i as int,
                (before[i as int].0, before[i as int].1.spec_after_process()),
            );
            assert(self.sub_tracks@ =~= cleared);
            match target {
                Some(j) => {
                    self.sub_tracks[j].1.add_input(out);
                    assert(self.sub_tracks@ =~= cleared.update(
                        j as int,
                        (
                            cleared[j as int].0,
                            Track {
                                input: sum(cleared[j as int].1.input, out),
                                ..cleared[j as int].1
                            },
                        ),
                    ));
                },
                None => {
                    main_input = main_input.add(out);
                },
            }
        }
        proof {
            lemma_routed_clears(subs0, Frame::spec_silent(), subs0.len() as int);
        }
        self.main_track.add_input(main_input);
        self.main_track.process()
    }
}

impl Mixer {
    /// Applies a command. Nothing is dropped here: a sub-track that is
    /// removed or replaced goes onto `tracks_to_unload`, a removed effect
    /// onto `effect_slots_to_unload`, for the control side to dispose of.
    /// A command about a track or an effect that does not exist does
    /// nothing.
    pub fn run_command(
        &mut self,
        command: MixerCommand,
        tracks_to_unload: &mut Vec<Track>,
        effect_slots_to_unload: &mut Vec<EffectSlot>,
    )
        requires
            old(self).wf(),
            match command {
                MixerCommand::AddSubTrack(_, t) => t.wf(),
                MixerCommand::AddEffect(_, s) => s.wf(),
                _ => true,
            },
        ensures
            final(self).wf(),
            match command {
                MixerCommand::AddSubTrack(id, t) => {
                    &&& final(self).main_track == old(self).main_track
                    &&& final(effect_slots_to_unload)@ == old(effect_slots_to_unload)@
                    &&& match sub_index(old(self).sub_tracks@, id) {
                        Some(i) => final(self).sub_tracks@ == old(self).sub_tracks@.update(
                            i,
                            (id, t),
                        ) && final(tracks_to_unload)@ == old(tracks_to_unload)@.push(
                            old(self).sub_tracks@[i].1,
                        ),
                        None => final(self).sub_tracks@ == old(self).sub_tracks@.push((id, t))
                            && final(tracks_to_unload)@ == old(tracks_to_unload)@,
                    }
                },
                MixerCommand::RemoveSubTrack(id) => {
                    &&& final(self).main_track == old(self).main_track
                    &&& final(effect_slots_to_unload)@ == old(effect_slots_to_unload)@
                    &&& match sub_index(old(self).sub_tracks@, id) {
                        Some(i) => final(self).sub_tracks@ == old(self).sub_tracks@.remove(i)
                            && final(tracks_to_unload)@ == old(tracks_to_unload)@.push(
                            old(self).sub_tracks@[i].1,
                        ),
                        None => final(self).sub_tracks@ == old(self).sub_tracks@
                            && final(tracks_to_unload)@ == old(tracks_to_unload)@,
                    }
                },
                MixerCommand::AddEffect(index, slot) => {
                    &&& final(tracks_to_unload)@ == old(tracks_to_unload)@
                    &&& final(effect_slots_to_unload)@ == old(effect_slots_to_unload)@
                    &&& tracks_changed(
                        old(self),
                        final(self),
                        index,
                        |a: Track, b: Track| b.effects@ == a.effects@.push(slot),
                    )
                },
                MixerCommand::RemoveEffect(index, eid) => {
                    &&& final(tracks_to_unload)@ == old(tracks_to_unload)@
                    &&& match track_of(old(self), index) {
                        Some(a) => tracks_changed(
                            old(self),
                            final(self),
                            index,
                            |a2: Track, b: Track|
                                effect_removed(
                                    a2.effects@,
                                    b.effects@,
                                    eid,
                                    old(effect_slots_to_unload)@,
                                    final(effect_slots_to_unload)@,
                                ),
                        ),
                        None => final(self).main_track == old(self).main_track
                            && final(self).sub_tracks@ == old(self).sub_tracks@
                            && final(effect_slots_to_unload)@ == old(effect_slots_to_unload)@,
                    }
                },
            },
    {
        match command {
            MixerCommand::AddSubTrack(id, track) => {
                match self.find_sub_track(id) {
                    Some(i) => {
                        proof {
                            lemma_sub_index(self.sub_tracks@, i as int);
                        }
                        let mut t: Track = track;
                        std::mem::swap(&mut self.sub_tracks[i].1, &mut t);
                        tracks_to_unload.push(t);
                        assert(self.sub_tracks@ =~= old(self).sub_tracks@.update(
                            i as int,
                            (id, track),
                        ));
                    },
                    None => {
                        self.sub_tracks.push((id, track));
                    },
                }
            },
            MixerCommand::RemoveSubTrack(id) => {
                match self.find_sub_track(id) {
                    Some(i) => {
                        proof {
                            lemma_sub_index(self.sub_tracks@, i as int);
                        }
                        let (_, t): (u64, Track) = self.sub_tracks.remove(i);
                        tracks_to_unload.push(t);
                        assert(forall|j: int|
                            0 <= j < self.sub_tracks@.len() ==> #[trigger] self.sub_tracks@[j]
                                == old(self).sub_tracks@[if j < i {
                                j
                            } else {
                                j + 1
                            }]);
                    },
                    None => {},
                }
            },
            MixerCommand::AddEffect(index, slot) => {
                match index {
                    TrackIndex::Main => {
                        self.main_track.add_effect(slot);
                    },
                    TrackIndex::Sub(id) => {
                        match self.find_sub_track(id) {
                            Some(i) => {
                                proof {
                                    lemma_sub_index(self.sub_tracks@, i as int);
                                }
                                self.sub_tracks[i].1.add_effect(slot);
                                assert(forall|j: int|
                                    0 <= j < self.sub_tracks@.len() && j != i
                                        ==> self.sub_tracks@[j] == old(self).sub_tracks@[j]);
                            },
                            None => {},
                        }
                    },
                }
            },
            MixerCommand::RemoveEffect(index, eid) => {
                match index {
                    TrackIndex::Main => {
                        match self.main_track.remove_effect(eid) {
                            Some(s) => {
                                effect_slots_to_unload.push(s);
                            },
                            None => {},
                        }
                    },
                    TrackIndex::Sub(id) => {
                        match self.find_sub_track(id) {
                            Some(i) => {
                                proof {
                                    lemma_sub_index(self.sub_tracks@, i as int);
                                }
                                match self.sub_tracks[i].1.remove_effect(eid) {
                                    Some(s) => {
                                        effect_slots_to_unload.push(s);
                                    },
                                    None => {},
                                }
                                assert(forall|j: int|
                                    0 <= j < self.sub_tracks@.len() && j != i
                                        ==> self.sub_tracks@[j] == old(self).sub_tracks@[j]);
                            },
                            None => {},
                        }
                    },
                }
            },
        }
    }
}

/// The slot turns silence into silence: it is off, or fully dry, or its
/// effect only scales, or adds nothing.
pub open spec fn keeps_silence(s: EffectSlot) -> bool {
    !s.enabled || s.mix == 0 || s.effect is Gain || s.effect == Effect::Offset(0)
}

/// Every slot of a chain keeps silence.
pub open spec fn chain_keeps_silence(slots: Seq<EffectSlot>) -> bool {
    forall|i: int| 0 <= i < slots.len() ==> keeps_silence(#[trigger] slots[i])
}

proof fn lemma_mul_zero(g: int)
    ensures
        mul_fx(0, g) == 0,
{
    assert(0 * g == 0);
}

proof fn lemma_chain_silent(slots: Seq<EffectSlot>)
    requires
        chain_keeps_silence(slots),
    ensures
        chain_output(slots, Frame::spec_silent()) == Frame::spec_silent(),
    decreases slots.len(),
{
    if slots.len() > 0 {
        let rest = slots.drop_last();
        assert(chain_keeps_silence(rest)) by {
            assert forall|i: int| 0 <= i < rest.len() implies keeps_silence(#[trigger] rest[i]) by {
                assert(rest[i] == slots[i]);
            }
        }
        lemma_chain_silent(rest);
        let last = slots[slots.len() - 1];
        assert(keeps_silence(last));
        match last.effect {
            Effect::Gain(g) => lemma_mul_zero(g as int),
            Effect::Offset(_) => {},
        }
        lemma_mul_zero(last.mix as int);
        let o = effect_output(last.effect, Frame::spec_silent());
        assert(o.left * 0 == 0 && o.right * 0 == 0);
    }
}

/// A track with silent input and a chain that keeps silence outputs
/// silence.
pub proof fn lemma_track_silent(effects: Seq<EffectSlot>, volume: int, panning: int)
    requires
        chain_keeps_silence(effects),
    ensures
        track_output(effects, volume, panning, Frame::spec_silent()) == Frame::spec_silent(),
{
    lemma_chain_silent(effects);
    lemma_mul_zero(volume);
    lemma_mul_zero(pan_left(panning));
    lemma_mul_zero(pan_right(panning));
}

impl Mixer {
    /// No track has input waiting, and every effect keeps silence.
    pub open spec fn quiet(&self) -> bool {
        &&& self.main_track.input == Frame::spec_silent()
        &&& chain_keeps_silence(self.main_track.effects@)
        &&& subs_quiet(self.sub_tracks@)
    }
}

/// Every sub-track has silent input and a chain that keeps silence.
pub open spec fn subs_quiet(subs: Seq<(u64, Track)>) -> bool {
    forall|i: int|
        0 <= i < subs.len() ==> {
            &&& (#[trigger] subs[i]).1.input == Frame::spec_silent()
            &&& chain_keeps_silence(subs[i].1.effects@)
        }
}

proof fn lemma_routed_quiet(subs: Seq<(u64, Track)>, k: int)
    requires
        subs_quiet(subs),
    ensures
        routed(subs, Frame::spec_silent(), k).1 == Frame::spec_silent(),
        subs_quiet(routed(subs, Frame::spec_silent(), k).0),
    decreases k,
{
    if 0 < k <= subs.len() {
        let i = k - 1;
        let t = subs[i].1;
        lemma_track_silent(t.effects@, t.volume.spec_value(), t.panning.spec_value());
        let cleared = subs.update(i, (subs[i].0, t.spec_after_process()));
        assert(subs_quiet(cleared)) by {
            assert forall|m: int| 0 <= m < cleared.len() implies {
                &&& (#[trigger] cleared[m]).1.input == Frame::spec_silent()
                &&& chain_keeps_silence(cleared[m].1.effects@)
            } by {
                assert(subs[m].1.input == Frame::spec_silent());
            }
        }
        match target_of(subs, i) {
            Some(j) => {
                let s2 = cleared.update(
                    j,
                    (
                        cleared[j].0,
                        Track {
                            input: sum(cleared[j].1.input, t.spec_output()),
                            ..cleared[j].1
                        },
                    ),
                );
                assert(s2 =~= cleared);
                lemma_routed_quiet(cleared, i);
            },
            None => {
                lemma_routed_quiet(cleared, i);
            },
        }
    }
}

/// Silence in, silence out: a quiet mixer outputs silence, and after it
/// runs its sub-tracks are quiet still.
pub proof fn law_quiet_mixer_is_silent(m: &Mixer)
    requires
        m.wf(),
        m.quiet(),
    ensures
        routed(m.sub_tracks@, Frame::spec_silent(), m.sub_tracks@.len() as int).1
            == Frame::spec_silent(),
        subs_quiet(routed(m.sub_tracks@, Frame::spec_silent(), m.sub_tracks@.len() as int).0),
        track_output(
            m.main_track.effects@,
            m.main_track.volume.spec_value(),
            m.main_track.panning.spec_value(),
            sum(m.main_track.input, Frame::spec_silent()),
        ) == Frame::spec_silent(),
{
    assert(subs_quiet(m.sub_tracks@));
    lemma_routed_quiet(m.sub_tracks@, m.sub_tracks@.len() as int);
    lemma_track_silent(
        m.main_track.effects@,
        m.main_track.volume.spec_value(),
        m.main_track.panning.spec_value(),
    );
}

} // verus!
