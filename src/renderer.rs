//! The per-callback render step that turns sounds and tracks into an
//! interleaved output buffer.
use crate::clock::{Clock, MAX_TICKS};
use crate::data::TrackIndex;
use crate::command::{after_writes, law_latest_wins, SoundCommands, ValueCommand};
use crate::data::StartTime;
use crate::frame::{div_trunc, div_trunc_i128, sum, Frame};
use crate::mixer::{
    chain_keeps_silence, input_added, law_quiet_mixer_is_silent, mix_output, EffectSlot, Mixer, Track,
};
use crate::sound::{
    value_applied, PlaybackState, SharedState, StaticSound, StaticSoundHandle, MAX_GAIN,
    MAX_SAMPLE_RATE,
};
use vstd::prelude::*;

verus! {

/// A sound in the renderer, with the id of its handle, the command slots
/// that control it, and the view of it that its handle is given.
pub struct Voice {
    pub id: u64,
    pub sound: StaticSound,
    pub commands: SoundCommands,
    pub shared: SharedState,
}

/// A voice that plays nothing: its sound is paused or stopped.
pub open spec fn resting(v: Voice) -> bool {
    v.sound.state == PlaybackState::Paused || v.sound.state == PlaybackState::Stopped
}

/// A resting voice with no state command pending, which stays resting
/// through a callback.
pub open spec fn dormant(v: Voice) -> bool {
    resting(v) && v.commands.state.pending is None
}

/// A voice whose shared view has been brought up to date.
pub open spec fn published(v: Voice) -> Voice {
    Voice { shared: v.sound.spec_shared(), ..v }
}

/// The value of output channel `c` of `num_channels` for a frame: the
/// average of both sides for a mono device, otherwise left and right on the
/// first two channels and silence on the rest.
pub open spec fn channel_value(f: Frame, c: int, num_channels: int) -> int {
    if num_channels == 1 {
        div_trunc(f.left + f.right, 2)
    } else if c == 0 {
        f.left as int
    } else if c == 1 {
        f.right as int
    } else {
        0
    }
}

fn channel_value_exec(f: Frame, c: u16, num_channels: u16) -> (r: i32)
    ensures
        r == channel_value(f, c as int, num_channels as int),
{
    if num_channels == 1 {
        let s: i128 = f.left as i128 + f.right as i128;
        let q: i128 = div_trunc_i128(s, 2);
        assert(-0x8000_0000 <= q < 0x8000_0000) by {
            vstd::arithmetic::div_mod::lemma_div_is_ordered(s as int, 0xffff_fffe, 2);
            vstd::arithmetic::div_mod::lemma_div_is_ordered(-(s as int), 0x1_0000_0000, 2);
        }
        q as i32
    } else if c == 0 {
        f.left
    } else if c == 1 {
        f.right
    } else {
        0
    }
}

/// Clock `i` is the first with id `id`.
pub open spec fn is_first_clock(clocks: Seq<Clock>, id: u64, i: int) -> bool {
    0 <= i < clocks.len() && clocks[i].id == id && forall|j: int| 0 <= j < i ==> clocks[j].id != id
}

/// The position of the first clock with id `id`.
pub open spec fn first_clock(clocks: Seq<Clock>, id: u64) -> Option<int> {
    if exists|i: int| is_first_clock(clocks, id, i) {
        Some(choose|i: int| is_first_clock(clocks, id, i))
    } else {
        None
    }
}

/// Every clock after one frame at `sample_rate`; a clock at the end of its
/// range stays there.
pub open spec fn ticked(clocks: Seq<Clock>, sample_rate: u32) -> Seq<Clock> {
    Seq::new(
        clocks.len(),
        |i: int|
            if clocks[i].ticks <= MAX_TICKS {
                clocks[i].spec_tick(sample_rate)
            } else {
                clocks[i]
            },
    )
}

/// A sound after its start gate: an immediate sound starts, and one waiting
/// for a clock starts once that clock has reached its tick.
pub open spec fn gated(s: StaticSound, clocks: Seq<Clock>) -> StaticSound {
    match s.start_time {
        StartTime::Immediate => s.spec_on_clock(0, 0),
        StartTime::ClockTime { clock, .. } => match first_clock(clocks, clock) {
            Some(i) => s.spec_on_clock(clock, clocks[i].ticks),
            None => s,
        },
    }
}

/// Voices `0` to `k - 1`, in order, each gated, played for one frame, and
/// its frame added to the input of its track.
pub open spec fn voices_run(
    voices: Seq<Voice>,
    clocks: Seq<Clock>,
    main: Track,
    subs: Seq<(u64, Track)>,
    k: int,
) -> (Seq<Voice>, Track, Seq<(u64, Track)>)
    decreases k,
{
    if k <= 0 || k > voices.len() {
        (voices, main, subs)
    } else {
        let (vs, m, ss) = voices_run(voices, clocks, main, subs, k - 1);
        let v = vs[k - 1];
        let (f, s2) = gated(v.sound, clocks).spec_process();
        let (m2, ss2) = input_added(m, ss, s2.output, f);
        (vs.update(k - 1, Voice { sound: s2, ..v }), m2, ss2)
    }
}

/// What the renderer holds that one frame changes.
pub struct RenderState {
    pub voices: Seq<Voice>,
    pub clocks: Seq<Clock>,
    pub main: Track,
    pub subs: Seq<(u64, Track)>,
    pub sample_rate: u32,
}

/// One device frame: the clocks tick at the sample rate, every voice plays
/// into its track, then the mixer runs; its output is the frame.
pub open spec fn frame_step(st: RenderState) -> (Frame, RenderState) {
    let clocks = ticked(st.clocks, st.sample_rate);
    let (vs, m, ss) = voices_run(st.voices, clocks, st.main, st.subs, st.voices.len() as int);
    let (f, m2, ss2) = mix_output(m, ss);
    (f, RenderState { voices: vs, clocks, main: m2, subs: ss2, sample_rate: st.sample_rate })
}

/// The frames of `n` device frames in a row, and the state after them.
pub open spec fn render_frames(st: RenderState, n: nat) -> (Seq<Frame>, RenderState)
    decreases n,
{
    if n == 0 {
        (Seq::empty(), st)
    } else {
        let (fs, s1) = render_frames(st, (n - 1) as nat);
        let (f, s2) = frame_step(s1);
        (fs.push(f), s2)
    }
}

/// The voices that have not stopped, in order.
pub open spec fn live_voices(vs: Seq<Voice>) -> Seq<Voice>
    decreases vs.len(),
{
    if vs.len() == 0 {
        vs
    } else if vs.last().sound.state == PlaybackState::Stopped {
        live_voices(vs.drop_last())
    } else {
        live_voices(vs.drop_last()).push(vs.last())
    }
}

/// The sounds of the voices that have stopped, in order.
pub open spec fn stopped_sounds(vs: Seq<Voice>) -> Seq<StaticSound>
    decreases vs.len(),
{
    if vs.len() == 0 {
        Seq::empty()
    } else if vs.last().sound.state == PlaybackState::Stopped {
        stopped_sounds(vs.drop_last()).push(vs.last().sound)
    } else {
        stopped_sounds(vs.drop_last())
    }
}

/// A voice after its pending commands are applied.
pub open spec fn commanded(v: Voice) -> Voice {
    Voice {
        sound: v.sound.spec_apply(v.commands),
        commands: SoundCommands::spec_empty(),
        ..v
    }
}

/// Latest wins through the renderer: when one or more volume commands were
/// written to a voice's slot since the last callback, applying its commands
/// sets the volume from the last of them only.
pub proof fn law_latest_volume_applied(v: Voice, earlier: Option<ValueCommand>, values: Seq<ValueCommand>)
    requires
        values.len() > 0,
        v.commands.volume.pending == after_writes(earlier, values),
    ensures
        commanded(v).sound.volume == value_applied(
            v.sound.volume,
            Some(values.last()),
            0,
            MAX_GAIN as int,
        ),
{
    law_latest_wins(earlier, values);
}

/// The audio-thread side of the engine: the mixer, the playing sounds, the
/// clocks, and the queues that hand removed values back to the control side
/// for disposal.
pub struct Renderer {
    pub sample_rate: u32,
    pub mixer: Mixer,
    pub voices: Vec<Voice>,
    pub clocks: Vec<Clock>,
    pub sounds_to_unload: Vec<StaticSound>,
    pub tracks_to_unload: Vec<Track>,
    pub effect_slots_to_unload: Vec<EffectSlot>,
}

impl Renderer {
    pub open spec fn voice_ok(&self, v: Voice) -> bool {
        v.sound.wf() && v.sound.device_rate == self.sample_rate
    }

    /// What one frame reads and changes.
    pub open spec fn state(&self) -> RenderState {
        RenderState {
            voices: self.voices@,
            clocks: self.clocks@,
            main: self.mixer.main_track,
            subs: self.mixer.sub_tracks@,
            sample_rate: self.sample_rate,
        }
    }

    pub open spec fn wf(&self) -> bool {
        &&& 1 <= self.sample_rate <= MAX_SAMPLE_RATE
        &&& self.mixer.wf()
        &&& forall|i: int| 0 <= i < self.voices@.len() ==> self.voice_ok(#[trigger] self.voices@[i])
        &&& forall|i: int| 0 <= i < self.clocks@.len() ==> (#[trigger] self.clocks@[i]).wf()
    }

    /// A renderer with no sounds, no clocks and an empty mixer.
    pub fn new(sample_rate: u32) -> (r: Renderer)
        requires
            1 <= sample_rate <= MAX_SAMPLE_RATE,
        ensures
            r.wf(),
            r.sample_rate == sample_rate,
            r.voices@.len() == 0,
            r.clocks@.len() == 0,
            r.mixer.quiet(),
            r.sounds_to_unload@.len() == 0,
    {
        Renderer {
            sample_rate,
            mixer: Mixer::new(),
            voices: Vec::new(),
            clocks: Vec::new(),
            sounds_to_unload: Vec::new(),
            tracks_to_unload: Vec::new(),
            effect_slots_to_unload: Vec::new(),
        }
    }

    /// Adds a sound under its handle: the voice takes the handle's id, the
    /// commands already written to it, and its shared view.
    pub fn add_sound(&mut self, sound: StaticSound, handle: &StaticSoundHandle)
        requires
            old(self).wf(),
            sound.wf(),
            sound.device_rate == old(self).sample_rate,
            sound.id == handle.id,
        ensures
            final(self).wf(),
            final(self).voices@ == old(self).voices@.push(
                Voice { id: handle.id, sound, commands: handle.commands, shared: handle.shared },
            ),
            final(self).mixer == old(self).mixer,
            final(self).clocks == old(self).clocks,
            final(self).sample_rate == old(self).sample_rate,
    {
        self.voices.push(
            Voice { id: handle.id, sound, commands: handle.commands, shared: handle.shared },
        );
    }

    /// The position of the first voice with id `id`, through which the
    /// control side's commands reach that sound.
    pub fn voice_index(&self, id: u64) -> (r: Option<usize>)
        ensures
            match r {
                Some(i) => i < self.voices@.len() && self.voices@[i as int].id == id && forall|j: int|
                    0 <= j < i ==> self.voices@[j].id != id,
                None => forall|j: int| 0 <= j < self.voices@.len() ==> self.voices@[j].id != id,
            },
    {
        let mut i: usize = 0;
        while i < self.voices.len()
            invariant
                i <= self.voices@.len(),
                forall|j: int| 0 <= j < i ==> self.voices@[j].id != id,
            decreases self.voices@.len() - i,
        {
            if self.voices[i].id == id {
                return Some(i);
            }
            i = i + 1;
        }
        None
    }

    /// Adds a clock.
    pub fn add_clock(&mut self, clock: Clock)
        requires
            old(self).wf(),
            clock.wf(),
        ensures
            final(self).wf(),
            final(self).clocks@ == old(self).clocks@.push(clock),
            final(self).voices == old(self).voices,
            final(self).mixer == old(self).mixer,
            final(self).sample_rate == old(self).sample_rate,
    {
        self.clocks.push(clock);
    }

    /// The tick count of the first clock with id `id`.
    pub fn clock_ticks(&self, id: u64) -> (r: Option<u64>)
        ensures
            r == match first_clock(self.clocks@, id) {
                Some(i) => Some(self.clocks@[i].ticks),
                None => None::<u64>,
            },
    {
        let mut i: usize = 0;
        while i < self.clocks.len()
            invariant
                i <= self.clocks@.len(),
                forall|j: int| 0 <= j < i ==> self.clocks@[j].id != id,
            decreases self.clocks@.len() - i,
        {
            if self.clocks[i].id == id {
                proof {
                    let cs = self.clocks@;
                    assert(is_first_clock(cs, id, i as int));
                    let c = choose|m: int| is_first_clock(cs, id, m);
                    assert(c == i);
                }
                return Some(self.clocks[i].ticks);
            }
            i = i + 1;
        }
        proof {
            let cs = self.clocks@;
            assert(!exists|m: int| is_first_clock(cs, id, m));
        }
        None
    }

    /// Moves the renderer to a device running at `sample_rate`. Every sound
    /// steps by the new rate from the next frame on, and a frame lasts
    /// `1 / sample_rate` seconds for the clocks.
    pub fn on_change_sample_rate(&mut self, sample_rate: u32)
        requires
            old(self).wf(),
            1 <= sample_rate <= MAX_SAMPLE_RATE,
        ensures
            final(self).wf(),
            final(self).sample_rate == sample_rate,
            final(self).voices@.len() == old(self).voices@.len(),
            forall|i: int|
                0 <= i < final(self).voices@.len() ==> {
                    &&& (#[trigger] final(self).voices@[i]).sound == (StaticSound {
                        device_rate: sample_rate,
                        ..old(self).voices@[i].sound
                    })
                    &&& final(self).voices@[i].commands == old(self).voices@[i].commands
                },
            final(self).mixer == old(self).mixer,
            final(self).clocks == old(self).clocks,
    {
        let mut i: usize = 0;
        while i < self.voices.len()
            invariant
                i <= self.voices@.len(),
                self.voices@.len() == old(self).voices@.len(),
                old(self).wf(),
                self.mixer == old(self).mixer,
                self.clocks == old(self).clocks,
                self.sample_rate == old(self).sample_rate,
                1 <= sample_rate <= MAX_SAMPLE_RATE,
                forall|j: int|
                    0 <= j < self.voices@.len() ==> {
                        &&& (#[trigger] self.voices@[j]).commands == old(self).voices@[j].commands
                        &&& self.voices@[j].sound == if j < i {
                            StaticSound { device_rate: sample_rate, ..old(self).voices@[j].sound }
                        } else {
                            old(self).voices@[j].sound
                        }
                    },
            decreases old(self).voices@.len() - i,
        {
            proof {
                assert(old(self).voice_ok(old(self).voices@[i as int]));
            }
            self.voices[i].sound.on_change_sample_rate(sample_rate);
            i = i + 1;
        }
        self.sample_rate = sample_rate;
    }
}

impl Renderer {
    /// Applies every sound's pending commands, each to its own sound, and
    /// empties the slots.
    pub fn apply_commands(&mut self)
        requires
            old(self).wf(),
        ensures
            final(self).wf(),
            final(self).voices@ == old(self).voices@.map_values(|v: Voice| commanded(v)),
            final(self).mixer == old(self).mixer,
            final(self).clocks == old(self).clocks,
            final(self).sample_rate == old(self).sample_rate,
            final(self).sounds_to_unload == old(self).sounds_to_unload,
    {
        let mut i: usize = 0;
        while i < self.voices.len()
            invariant
                i <= self.voices@.len(),
                self.voices@.len() == old(self).voices@.len(),
                self.wf(),
                self.mixer == old(self).mixer,
                self.clocks == old(self).clocks,
                self.sample_rate == old(self).sample_rate,
                self.sounds_to_unload == old(self).sounds_to_unload,
                forall|j: int|
                    0 <= j < self.voices@.len() ==> #[trigger] self.voices@[j] == if j < i {
                        commanded(old(self).voices@[j])
                    } else {
                        old(self).voices@[j]
                    },
            decreases old(self).voices@.len() - i,
        {
            proof {
                assert(self.voice_ok(self.voices@[i as int]));
            }
            let v: &mut Voice = &mut self.voices[i];
            v.sound.apply_commands(&mut v.commands);
            i = i + 1;
        }
        assert(self.voices@ =~= old(self).voices@.map_values(|v: Voice| commanded(v)));
    }

    /// Advances every clock by one frame at the renderer's sample rate.
    fn tick_clocks(&mut self)
        requires
            old(self).wf(),
        ensures
            final(self).wf(),
            final(self).clocks@ == ticked(old(self).clocks@, old(self).sample_rate),
            final(self).voices == old(self).voices,
            final(self).mixer == old(self).mixer,
            final(self).sample_rate == old(self).sample_rate,
            final(self).sounds_to_unload == old(self).sounds_to_unload,
    {
        let mut i: usize = 0;
        while i < self.clocks.len()
            invariant
                i <= self.clocks@.len(),
                self.clocks@.len() == old(self).clocks@.len(),
                self.wf(),
                self.voices == old(self).voices,
                self.mixer == old(self).mixer,
                self.sample_rate == old(self).sample_rate,
                self.sounds_to_unload == old(self).sounds_to_unload,
                forall|j: int|
                    0 <= j < self.clocks@.len() ==> #[trigger] self.clocks@[j] == if j < i {
                        ticked(old(self).clocks@, old(self).sample_rate)[j]
                    } else {
                        old(self).clocks@[j]
                    },
            decreases old(self).clocks@.len() - i,
        {
            let sr: u32 = self.sample_rate;
            if self.clocks[i].ticks <= MAX_TICKS {
                proof {
                    assert(self.clocks@[i as int].wf());
                }
                self.clocks[i].tick(sr);
            }
            i = i + 1;
        }
        assert(self.clocks@ =~= ticked(old(self).clocks@, old(self).sample_rate));
    }

    /// Renders one device frame (see `frame_step`). With no sounds and a
    /// quiet mixer the frame is silent and the mixer stays quiet; so it is
    /// when every sound is paused or stopped.
    pub fn render_frame(&mut self) -> (r: Frame)
        requires
            old(self).wf(),
        ensures
            final(self).wf(),
            (r, final(self).state()) == frame_step(old(self).state()),
            final(self).sounds_to_unload == old(self).sounds_to_unload,
            (forall|i: int| 0 <= i < old(self).voices@.len() ==> resting(#[trigger] old(self).voices@[i]))
                && old(self).mixer.quiet() ==> r == Frame::spec_silent() && final(self).mixer.quiet()
                && forall|i: int|
                0 <= i < final(self).voices@.len() ==> resting(#[trigger] final(self).voices@[i]),
    {
        self.tick_clocks();
        let ghost clocks = self.clocks@;
        let ghost main0 = self.mixer.main_track;
        let ghost subs0 = self.mixer.sub_tracks@;
        let ghost voices0 = self.voices@;
        let ghost quiet: bool = (forall|j: int|
            0 <= j < old(self).voices@.len() ==> resting(#[trigger] old(self).voices@[j]))
            && old(self).mixer.quiet();
        let mut i: usize = 0;
        while i < self.voices.len()
            invariant
                i <= self.voices@.len(),
                self.voices@.len() == voices0.len(),
                voices0 == old(self).voices@,
                self.wf(),
                self.clocks@ == clocks,
                self.sample_rate == old(self).sample_rate,
                self.sounds_to_unload == old(self).sounds_to_unload,
                (self.voices@, self.mixer.main_track, self.mixer.sub_tracks@) == voices_run(
                    voices0,
                    clocks,
                    main0,
                    subs0,
                    i as int,
                ),
                quiet ==> self.mixer.quiet() && forall|j: int|
                    0 <= j < self.voices@.len() ==> resting(#[trigger] self.voices@[j]),
            decreases voices0.len() - i,
        {
            let ghost before = self.voices@;
            let gate: Option<(u64, u64)> = match self.voices[i].sound.start_time {
                StartTime::Immediate => Some((0, 0)),
                StartTime::ClockTime { clock, .. } => match self.clock_ticks(clock) {
                    Some(t) => Some((clock, t)),
                    None => None,
                },
            };
            proof {
                assert(self.voice_ok(self.voices@[i as int]));
            }
            match gate {
                Some((c, t)) => {
                    self.voices[i].sound.on_clock(c, t);
                },
                None => {},
            }
            let f: Frame = self.voices[i].sound.process();
            let dest: TrackIndex = self.voices[i].sound.output;
            let ghost m_before = self.mixer.sub_tracks@;
            let ghost main_before = self.mixer.main_track;
            self.mixer.add_input(dest, f);
            proof {
                if quiet {
                    assert(f == Frame::spec_silent());
                    assert(main_before.input == Frame::spec_silent());
                    assert(sum(main_before.input, f) == Frame::spec_silent());
                    assert forall|m: int| 0 <= m < self.mixer.sub_tracks@.len() implies {
                        &&& (#[trigger] self.mixer.sub_tracks@[m]).1.input == Frame::spec_silent()
                        &&& chain_keeps_silence(self.mixer.sub_tracks@[m].1.effects@)
                    } by {
                        assert(m_before[m].1.input == Frame::spec_silent());
                        assert(chain_keeps_silence(m_before[m].1.effects@));
                    }
                }
            }
            proof {
                let v = before[i as int];
                assert(self.voices@ =~= before.update(
                    i as int,
                    Voice { sound: self.voices@[i as int].sound, ..v },
                ));
            }
            i = i + 1;
        }
        proof {
            if quiet {
                law_quiet_mixer_is_silent(&self.mixer);
            }
        }
        self.mixer.process()
    }

    /// Brings every voice's shared view up to date with its sound.
    pub fn publish(&mut self)
        requires
            old(self).wf(),
        ensures
            final(self).wf(),
            final(self).voices@ == old(self).voices@.map_values(|v: Voice| published(v)),
            final(self).mixer == old(self).mixer,
            final(self).clocks == old(self).clocks,
            final(self).sample_rate == old(self).sample_rate,
            final(self).sounds_to_unload == old(self).sounds_to_unload,
    {
        let mut i: usize = 0;
        while i < self.voices.len()
            invariant
                i <= self.voices@.len(),
                self.voices@.len() == old(self).voices@.len(),
                self.wf(),
                self.mixer == old(self).mixer,
                self.clocks == old(self).clocks,
                self.sample_rate == old(self).sample_rate,
                self.sounds_to_unload == old(self).sounds_to_unload,
                forall|j: int|
                    0 <= j < self.voices@.len() ==> #[trigger] self.voices@[j] == if j < i {
                        published(old(self).voices@[j])
                    } else {
                        old(self).voices@[j]
                    },
            decreases old(self).voices@.len() - i,
        {
            let sh: SharedState = self.voices[i].sound.shared();
            self.voices[i].shared = sh;
            i = i + 1;
        }
        assert(self.voices@ =~= old(self).voices@.map_values(|v: Voice| published(v)));
    }

    /// Moves every stopped sound, in order, onto the end of
    /// `sounds_to_unload` for the control side to drop, and keeps the other
    /// voices in order. Nothing is dropped here.
    pub fn reclaim_stopped(&mut self)
        requires
            old(self).wf(),
        ensures
            final(self).wf(),
            final(self).voices@ == live_voices(old(self).voices@),
            final(self).sounds_to_unload@ == old(self).sounds_to_unload@ + stopped_sounds(
                old(self).voices@,
            ),
            final(self).mixer == old(self).mixer,
            final(self).sample_rate == old(self).sample_rate,
            final(self).clocks == old(self).clocks,
    {
        let mut rest: Vec<Voice> = Vec::new();
        std::mem::swap(&mut rest, &mut self.voices);
        let ghost all = rest@;
        let ghost unload0 = self.sounds_to_unload@;
        let ghost mut i: int = 0;
        assert(all.subrange(0, 0) =~= Seq::<Voice>::empty());
        while rest.len() > 0
            invariant
                0 <= i <= all.len(),
                rest@ == all.subrange(i, all.len() as int),
                self.voices@ == live_voices(all.subrange(0, i)),
                self.sounds_to_unload@ == unload0 + stopped_sounds(all.subrange(0, i)),
                all == old(self).voices@,
                unload0 == old(self).sounds_to_unload@,
                old(self).wf(),
                self.mixer == old(self).mixer,
                self.sample_rate == old(self).sample_rate,
                self.clocks == old(self).clocks,
            decreases rest@.len(),
        {
            let v: Voice = rest.remove(0);
            proof {
                assert(all.subrange(0, i + 1).drop_last() =~= all.subrange(0, i));
                assert(all.subrange(0, i + 1).last() == v);
                assert(rest@ =~= all.subrange(i + 1, all.len() as int));
                i = i + 1;
            }
            if v.sound.is_stopped() {
                self.sounds_to_unload.push(v.sound);
                assert(self.sounds_to_unload@ =~= unload0 + stopped_sounds(all.subrange(0, i)));
            } else {
                self.voices.push(v);
            }
        }
        assert(all.subrange(0, i) =~= all);
        proof {
            lemma_live_voices_ok(self, all);
        }
    }

    /// Renders one device callback into `out`, interleaved with
    /// `num_channels` channels per frame. It applies the pending commands,
    /// renders one frame per group of channels (a trailing partial group
    /// gets a frame too), writes each channel with `channel_value`,
    /// publishes every voice's shared view, then hands stopped sounds back
    /// for disposal; every voice left has an up-to-date view. With no sounds and a quiet
    /// mixer every value written is zero.
    pub fn process(&mut self, out: &mut Vec<i32>, num_channels: u16)
        requires
            old(self).wf(),
            num_channels >= 1,
        ensures
            final(self).wf(),
            final(out)@.len() == old(out)@.len(),
            final(self).sample_rate == old(self).sample_rate,
            ({
                let ch = num_channels as int;
                let st0 = RenderState {
                    voices: old(self).voices@.map_values(|v: Voice| commanded(v)),
                    ..old(self).state()
                };
                let n = frames_for(old(out)@.len() as int, ch);
                let (fs, st1) = render_frames(st0, n as nat);
                &&& fs.len() == n
                &&& forall|k: int|
                    0 <= k < final(out)@.len() ==> #[trigger] final(out)@[k] == channel_value(
                        fs[k / ch],
                        k % ch,
                        ch,
                    )
                &&& final(self).voices@ == live_voices(
                    st1.voices.map_values(|v: Voice| published(v)),
                )
                &&& final(self).sounds_to_unload@ == old(self).sounds_to_unload@ + stopped_sounds(
                    st1.voices.map_values(|v: Voice| published(v)),
                )
                &&& final(self).clocks@ == st1.clocks
                &&& final(self).mixer.main_track == st1.main
                &&& final(self).mixer.sub_tracks@ == st1.subs
            }),
            forall|i: int|
                0 <= i < final(self).voices@.len() ==> (#[trigger] final(self).voices@[i]).shared
                    == final(self).voices@[i].sound.spec_shared(),
            (forall|i: int| 0 <= i < old(self).voices@.len() ==> dormant(#[trigger] old(self).voices@[i]))
                && old(self).mixer.quiet() ==> {
                &&& forall|k: int| 0 <= k < final(out)@.len() ==> #[trigger] final(out)@[k] == 0
                &&& final(self).mixer.quiet()
            },
    {
        self.apply_commands();
        let ghost quiet: bool = (forall|j: int|
            0 <= j < old(self).voices@.len() ==> dormant(#[trigger] old(self).voices@[j]))
            && old(self).mixer.quiet();
        proof {
            if quiet {
                assert forall|j: int| 0 <= j < self.voices@.len() implies resting(
                    #[trigger] self.voices@[j],
                ) by {
                    assert(dormant(old(self).voices@[j]));
                    assert(self.voices@[j] == commanded(old(self).voices@[j]));
                }
            }
        }
        let ghost st0 = self.state();
        let len: usize = out.len();
        let ch: usize = num_channels as usize;
        let n: usize = frames_for_exec(len, ch);
        let ghost mut fs: Seq<Frame> = Seq::empty();
        let mut i: usize = 0;
        while i < n
            invariant
                i <= n,
                n == frames_for(len as int, ch as int),
                len == out@.len(),
                len == old(out)@.len(),
                ch == num_channels,
                ch >= 1,
                self.wf(),
                self.sample_rate == old(self).sample_rate,
                self.sounds_to_unload == old(self).sounds_to_unload,
                (fs, self.state()) == render_frames(st0, i as nat),
                fs.len() == i,
                forall|k: int|
                    0 <= k < len && k < i * ch ==> #[trigger] out@[k] == channel_value(
                        fs[k / (ch as int)],
                        k % (ch as int),
                        ch as int,
                    ),
                quiet ==> self.mixer.quiet() && forall|j: int|
                    0 <= j < self.voices@.len() ==> resting(#[trigger] self.voices@[j]),
                quiet ==> forall|k: int| 0 <= k < len && k < i * ch ==> #[trigger] out@[k] == 0,
            decreases n - i,
        {
            let frame: Frame = self.render_frame();
            proof {
                assert forall|k: int| 0 <= k < len && k < i * ch implies #[trigger] (k / (ch as int))
                    < i by {
                    lemma_div_below(k, i as int, ch as int);
                }
                fs = fs.push(frame);
            }
            let mut c: usize = 0;
            while c < ch
                invariant
                    c <= ch,
                    i < n,
                    n == frames_for(len as int, ch as int),
                    len == out@.len(),
                    ch >= 1,
                    ch == num_channels,
                    fs.len() == i + 1,
                    fs[i as int] == frame,
                    forall|k: int|
                        0 <= k < len && k < i * ch + c ==> #[trigger] out@[k] == channel_value(
                            fs[k / (ch as int)],
                            k % (ch as int),
                            ch as int,
                        ),
                    quiet ==> frame == Frame::spec_silent(),
                    quiet ==> forall|k: int|
                        0 <= k < len && k < i * ch + c ==> #[trigger] out@[k] == 0,
                decreases ch - c,
            {
                proof {
                    lemma_index_parts(i as int, c as int, ch as int, n as int, len as int);
                }
                assert(i as int * ch as int <= 0xffff_ffff_ffff_ffff * 0xffff) by (nonlinear_arith)
                    requires
                        i <= 0xffff_ffff_ffff_ffff,
                        ch <= 0xffff,
                ;
                let k128: u128 = i as u128 * ch as u128 + c as u128;
                if k128 < len as u128 {
                    let k: usize = k128 as usize;
                    let v: i32 = channel_value_exec(frame, c as u16, num_channels);
                    out.set(k, v);
                    proof {
                        vstd::arithmetic::div_mod::lemma_fundamental_div_mod_converse(
                            k as int,
                            ch as int,
                            i as int,
                            c as int,
                        );
                        if quiet {
                            assert(div_trunc(0, 2) == 0);
                        }
                    }
                }
                c = c + 1;
            }
            proof {
                assert(fs.drop_last() =~= render_frames(st0, i as nat).0);
            }
            i = i + 1;
            proof {
                assert(i * ch == (i - 1) * ch + ch) by (nonlinear_arith);
            }
        }
        proof {
            lemma_frames_cover(len as int, ch as int, n as int);
        }
        self.publish();
        let ghost pubd = self.voices@;
        self.reclaim_stopped();
        proof {
            lemma_live_voices_all(pubd, |v: Voice| v.shared == v.sound.spec_shared());
        }
    }
}

/// The number of frames that fill `len` values at `ch` channels, counting a
/// trailing partial frame.
pub open spec fn frames_for(len: int, ch: int) -> int {
    (len + ch - 1) / ch
}

fn frames_for_exec(len: usize, ch: usize) -> (r: usize)
    requires
        ch >= 1,
    ensures
        r == frames_for(len as int, ch as int),
        r <= len,
{
    let q: u128 = (len as u128 + ch as u128 - 1) / ch as u128;
    proof {
        let a = len as int + ch as int - 1;
        vstd::arithmetic::div_mod::lemma_fundamental_div_mod(a, ch as int);
        vstd::arithmetic::div_mod::lemma_mod_pos_bound(a, ch as int);
        assert(q * ch == ch * q) by (nonlinear_arith);
        assert(q * ch <= a);
        if q > len {
            assert(q * ch >= (len + 1) * ch) by (nonlinear_arith)
                requires
                    q >= len + 1,
                    ch >= 1,
            ;
            assert((len + 1) * ch >= len + ch) by (nonlinear_arith)
                requires
                    ch >= 1,
            ;
        }
    }
    q as usize
}

proof fn lemma_index_parts(i: int, c: int, ch: int, n: int, len: int)
    requires
        0 <= i < n,
        0 <= c < ch,
        n == frames_for(len, ch),
        ch >= 1,
        len >= 0,
    ensures
        0 <= i * ch + c,
        i * ch + c < (i + 1) * ch,
{
    assert(0 <= i * ch) by (nonlinear_arith)
        requires
            i >= 0,
            ch >= 1,
    ;
    assert((i + 1) * ch == i * ch + ch) by (nonlinear_arith);
}

proof fn lemma_div_below(k: int, i: int, ch: int)
    requires
        0 <= k < i * ch,
        ch >= 1,
    ensures
        k / ch < i,
{
    vstd::arithmetic::div_mod::lemma_fundamental_div_mod(k, ch);
    vstd::arithmetic::div_mod::lemma_mod_pos_bound(k, ch);
    if k / ch >= i {
        assert(ch * (k / ch) >= ch * i) by (nonlinear_arith)
            requires
                k / ch >= i,
                ch >= 1,
        ;
        assert(ch * i == i * ch) by (nonlinear_arith);
    }
}

proof fn lemma_frames_cover(len: int, ch: int, n: int)
    requires
        ch >= 1,
        len >= 0,
        n == frames_for(len, ch),
    ensures
        n * ch >= len,
{
    let a = len + ch - 1;
    vstd::arithmetic::div_mod::lemma_fundamental_div_mod(a, ch);
    assert(a % ch < ch);
}

proof fn lemma_live_voices_all(all: Seq<Voice>, p: spec_fn(Voice) -> bool)
    requires
        forall|i: int| 0 <= i < all.len() ==> p(#[trigger] all[i]),
    ensures
        forall|i: int| 0 <= i < live_voices(all).len() ==> p(#[trigger] live_voices(all)[i]),
    decreases all.len(),
{
    if all.len() > 0 {
        let rest = all.drop_last();
        assert forall|i: int| 0 <= i < rest.len() implies p(#[trigger] rest[i]) by {
            assert(rest[i] == all[i]);
        }
        lemma_live_voices_all(rest, p);
        let x = all[all.len() - 1];
        assert(p(x));
        let lv = live_voices(rest);
        if x.sound.state != PlaybackState::Stopped {
            assert(live_voices(all) == lv.push(x));
            assert forall|i: int| 0 <= i < lv.push(x).len() implies p(#[trigger] lv.push(x)[i]) by {
                if i < lv.len() {
                    assert(lv.push(x)[i] == lv[i]);
                }
            }
        }
    }
}

proof fn lemma_live_voices_ok(r: &Renderer, all: Seq<Voice>)
    requires
        forall|i: int| 0 <= i < all.len() ==> r.voice_ok(#[trigger] all[i]),
    ensures
        forall|i: int|
            0 <= i < live_voices(all).len() ==> r.voice_ok(#[trigger] live_voices(all)[i]),
    decreases all.len(),
{
    if all.len() > 0 {
        let rest = all.drop_last();
        assert forall|i: int| 0 <= i < rest.len() implies r.voice_ok(#[trigger] rest[i]) by {
            assert(rest[i] == all[i]);
        }
        lemma_live_voices_ok(r, rest);
        let x = all[all.len() - 1];
        assert(r.voice_ok(x));
        let lv = live_voices(rest);
        if x.sound.state != PlaybackState::Stopped {
            assert(live_voices(all) == lv.push(x));
            assert forall|i: int|
                0 <= i < lv.push(x).len() implies r.voice_ok(#[trigger] lv.push(x)[i]) by {
                if i < lv.len() {
                    assert(lv.push(x)[i] == lv[i]);
                }
            }
        }
    }
}

} // verus!
