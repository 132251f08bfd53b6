//! Audio held in memory, with the settings a sound starts with.
use crate::frame::{Frame, UNIT};
use std::sync::Arc;
use vstd::prelude::*;

verus! {

/// Micro-seconds in one second.
pub const MICROS_PER_SECOND: u64 = 1_000_000;

/// A position in a piece of audio.
#[derive(Clone, Copy, Debug, PartialEq, Eq, Structural)]
pub enum PlaybackPosition {
    /// A time in micro-seconds.
    MicroSeconds(u64),
    /// A frame index.
    Samples(usize),
}

/// The frame index of a position at the given sample rate, rounded down.
pub open spec fn position_frames(p: PlaybackPosition, sample_rate: int) -> int {
    match p {
        PlaybackPosition::MicroSeconds(us) => (us * sample_rate) / (MICROS_PER_SECOND as int),
        PlaybackPosition::Samples(n) => n as int,
    }
}

impl PlaybackPosition {
    /// The frame index of this position at `sample_rate`, saturating at the
    /// largest `usize`.
    pub fn into_samples(self, sample_rate: u32) -> (r: usize)
        ensures
            r as int == if position_frames(self, sample_rate as int) <= usize::MAX {
                position_frames(self, sample_rate as int)
            } else {
                usize::MAX as int
            },
    {
        match self {
            PlaybackPosition::MicroSeconds(us) => {
                assert(us as int * sample_rate as int <= 0xffff_ffff_ffff_ffff * 0xffff_ffff)
                    by (nonlinear_arith)
                    requires
                        us <= 0xffff_ffff_ffff_ffff,
                        sample_rate <= 0xffff_ffff,
                ;
                let f: u128 = (us as u128 * sample_rate as u128) / (MICROS_PER_SECOND as u128);
                if f > usize::MAX as u128 {
                    usize::MAX
                } else {
                    f as usize
                }
            },
            PlaybackPosition::Samples(n) => n,
        }
    }
}

/// The end of a region.
#[derive(Clone, Copy, Debug, PartialEq, Eq, Structural)]
pub enum EndPosition {
    /// The end of the audio.
    EndOfAudio,
    Custom(PlaybackPosition),
}

/// A half-open span `[start, end)` of a piece of audio.
#[derive(Clone, Copy, Debug, PartialEq, Eq, Structural)]
pub struct Region {
    pub start: PlaybackPosition,
    pub end: EndPosition,
}

/// Where a track's or a sound's output goes.
#[derive(Clone, Copy, Debug, PartialEq, Eq, Structural)]
pub enum TrackIndex {
    Main,
    Sub(u64),
}

/// When a sound starts.
#[derive(Clone, Copy, Debug, PartialEq, Eq, Structural)]
pub enum StartTime {
    Immediate,
    /// When the clock with this id reaches this tick.
    ClockTime { clock: u64, ticks: u64 },
}

/// A linear ramp over a duration in micro-seconds.
#[derive(Clone, Copy, Debug, PartialEq, Eq, Structural)]
pub struct Tween {
    pub duration_micros: u64,
}

/// The settings a sound starts with. Volume, playback rate and panning are
/// fixed-point values (`UNIT` is 1.0); panning runs from 0 (hard left) to
/// `UNIT` (hard right).
#[derive(Clone, Copy, Debug, PartialEq, Eq, Structural)]
pub struct StaticSoundSettings {
    pub start_time: StartTime,
    pub start_position: PlaybackPosition,
    pub reverse: bool,
    pub loop_region: Option<Region>,
    pub volume: i64,
    pub playback_rate: i64,
    pub panning: i64,
    pub output_destination: TrackIndex,
    pub fade_in_tween: Option<Tween>,
}

impl StaticSoundSettings {
    /// Settings that play the whole sound once, at its own speed, at full
    /// volume, centered, into the main track.
    pub fn new() -> (r: StaticSoundSettings)
        ensures
            r == StaticSoundSettings::spec_default(),
    {
        StaticSoundSettings {
            start_time: StartTime::Immediate,
            start_position: PlaybackPosition::Samples(0),
            reverse: false,
            loop_region: None,
            volume: UNIT,
            playback_rate: UNIT,
            panning: UNIT / 2,
            output_destination: TrackIndex::Main,
            fade_in_tween: None,
        }
    }

    pub open spec fn spec_default() -> StaticSoundSettings {
        StaticSoundSettings {
            start_time: StartTime::Immediate,
            start_position: PlaybackPosition::Samples(0),
            reverse: false,
            loop_region: None,
            volume: UNIT,
            playback_rate: UNIT,
            panning: (UNIT / 2) as i64,
            output_destination: TrackIndex::Main,
            fade_in_tween: None,
        }
    }
}

impl Default for StaticSoundSettings {
    fn default() -> (r: StaticSoundSettings)
        ensures
            r == StaticSoundSettings::spec_default(),
    {
        StaticSoundSettings::new()
    }
}

/// The number of frames a buffer of `len` frames plays under an optional
/// slice window.
pub open spec fn effective_len(len: int, slice: Option<(usize, usize)>) -> int {
    match slice {
        Some((start, end)) => end - start,
        None => len,
    }
}

/// A slice window fits its buffer.
pub open spec fn slice_fits(len: int, slice: Option<(usize, usize)>) -> bool {
    match slice {
        Some((start, end)) => start <= end <= len,
        None => true,
    }
}

/// The first buffer index of a slice window.
pub open spec fn slice_start(slice: Option<(usize, usize)>) -> int {
    match slice {
        Some((start, _)) => start as int,
        None => 0,
    }
}

/// The number of frames played from `frames` under the slice window.
pub fn num_frames(frames: &[Frame], slice: Option<(usize, usize)>) -> (r: usize)
    requires
        match slice {
            Some((start, end)) => start <= end,
            None => true,
        },
    ensures
        r == effective_len(frames@.len() as int, slice),
{
    match slice {
        Some((start, end)) => end - start,
        None => frames.len(),
    }
}

/// The frame at `index` of the slice window, if the window has it.
pub fn frame_at_index(index: usize, frames: &[Frame], slice: Option<(usize, usize)>) -> (r: Option<
    Frame,
>)
    requires
        slice_fits(frames@.len() as int, slice),
    ensures
        r == if index < effective_len(frames@.len() as int, slice) {
            Some(frames@[slice_start(slice) + index])
        } else {
            None::<Frame>
        },
{
    if index >= num_frames(frames, slice) {
        return None;
    }
    let start: usize = match slice {
        Some((start, _)) => start,
        None => 0,
    };
    Some(frames[index + start])
}

/// The window that a region selects from a buffer of `len` frames at
/// `sample_rate`: the end is clamped to the buffer, and the start to the
/// end, so a window always has `start <= end <= len`. A region whose start
/// lies past its end selects an empty window at its (clamped) end.
pub open spec fn window_of(region: Region, sample_rate: int, len: int) -> (int, int) {
    let end = match region.end {
        EndPosition::EndOfAudio => len,
        EndPosition::Custom(p) => if position_frames(p, sample_rate) < len {
            position_frames(p, sample_rate)
        } else {
            len
        },
    };
    let start = if position_frames(region.start, sample_rate) < end {
        position_frames(region.start, sample_rate)
    } else {
        end
    };
    (start, end)
}

/// The window that `region` selects from `len` frames at `sample_rate`.
pub fn window(region: Region, sample_rate: u32, len: usize) -> (r: (usize, usize))
    ensures
        r.0 as int == window_of(region, sample_rate as int, len as int).0,
        r.1 as int == window_of(region, sample_rate as int, len as int).1,
        r.0 <= r.1 <= len,
{
    let end: usize = match region.end {
        EndPosition::EndOfAudio => len,
        EndPosition::Custom(p) => {
            let e: usize = p.into_samples(sample_rate);
            if e < len {
                e
            } else {
                len
            }
        },
    };
    let s: usize = region.start.into_samples(sample_rate);
    let start: usize = if s < end {
        s
    } else {
        end
    };
    (start, end)
}

/// Relies on `Arc::clone`: the clone points to the same allocation, so it
/// holds the same value.
#[verifier::external_body]
pub(crate) fn share(frames: &Arc<Vec<Frame>>) -> (r: Arc<Vec<Frame>>)
    ensures
        r == *frames,
{
    Arc::clone(frames)
}

/// A piece of audio loaded into memory all at once. Clones share the
/// frames.
#[derive(Clone)]
pub struct StaticSoundData {
    /// The sample rate of the audio, in Hz.
    pub sample_rate: u32,
    /// The frames that make up the audio.
    pub frames: Arc<Vec<Frame>>,
    /// The settings a sound made from this data starts with.
    pub settings: StaticSoundSettings,
    /// An optional window `(start, end)` of frames to play.
    pub slice: Option<(usize, usize)>,
}

impl StaticSoundData {
    /// The slice window fits the frames.
    pub open spec fn wf(&self) -> bool {
        slice_fits(self.frames@.len() as int, self.slice)
    }

    /// The number of frames this data plays.
    pub open spec fn spec_num_frames(&self) -> int {
        effective_len(self.frames@.len() as int, self.slice)
    }

    /// Data that plays all of `frames` with the given settings.
    pub fn new(sample_rate: u32, frames: Vec<Frame>, settings: StaticSoundSettings) -> (r: Self)
        ensures
            r.wf(),
            r.sample_rate == sample_rate,
            r.frames@ == frames@,
            r.settings == settings,
            r.slice.is_none(),
    {
        StaticSoundData { sample_rate, frames: Arc::new(frames), settings, slice: None }
    }

    /// A copy with other settings and everything else kept.
    pub fn with_settings(&self, settings: StaticSoundSettings) -> (r: Self)
        ensures
            r.sample_rate == self.sample_rate,
            r.frames == self.frames,
            r.slice == self.slice,
            r.settings == settings,
    {
        StaticSoundData {
            sample_rate: self.sample_rate,
            frames: share(&self.frames),
            settings,
            slice: self.slice,
        }
    }

    /// A cheap copy that sets when the sound starts.
    pub fn start_time(&self, start_time: StartTime) -> (r: Self)
        ensures
            r.sample_rate == self.sample_rate,
            r.frames == self.frames,
            r.slice == self.slice,
            r.settings == (StaticSoundSettings { start_time, ..self.settings }),
    {
        let mut settings = self.settings;
        settings.start_time = start_time;
        self.with_settings(settings)
    }

    /// A cheap copy that sets where in the sound playback starts.
    pub fn start_position(&self, start_position: PlaybackPosition) -> (r: Self)
        ensures
            r.sample_rate == self.sample_rate,
            r.frames == self.frames,
            r.slice == self.slice,
            r.settings == (StaticSoundSettings { start_position, ..self.settings }),
    {
        let mut settings = self.settings;
        settings.start_position = start_position;
        self.with_settings(settings)
    }

    /// A cheap copy that sets whether the sound plays in reverse.
    pub fn reverse(&self, reverse: bool) -> (r: Self)
        ensures
            r.sample_rate == self.sample_rate,
            r.frames == self.frames,
            r.slice == self.slice,
            r.settings == (StaticSoundSettings { reverse, ..self.settings }),
    {
        let mut settings = self.settings;
        settings.reverse = reverse;
        self.with_settings(settings)
    }

    /// A cheap copy that sets the portion of the sound that loops.
    pub fn loop_region(&self, loop_region: Option<Region>) -> (r: Self)
        ensures
            r.sample_rate == self.sample_rate,
            r.frames == self.frames,
            r.slice == self.slice,
            r.settings == (StaticSoundSettings { loop_region, ..self.settings }),
    {
        let mut settings = self.settings;
        settings.loop_region = loop_region;
        self.with_settings(settings)
    }

    /// A cheap copy that sets the volume, as a fixed-point amplitude.
    pub fn volume(&self, volume: i64) -> (r: Self)
        ensures
            r.sample_rate == self.sample_rate,
            r.frames == self.frames,
            r.slice == self.slice,
            r.settings == (StaticSoundSettings { volume, ..self.settings }),
    {
        let mut settings = self.settings;
        settings.volume = volume;
        self.with_settings(settings)
    }

    /// A cheap copy that sets the playback rate, as a fixed-point factor; it changes both speed and pitch.
    pub fn playback_rate(&self, playback_rate: i64) -> (r: Self)
        ensures
            r.sample_rate == self.sample_rate,
            r.frames == self.frames,
            r.slice == self.slice,
            r.settings == (StaticSoundSettings { playback_rate, ..self.settings }),
    {
        let mut settings = self.settings;
        settings.playback_rate = playback_rate;
        self.with_settings(settings)
    }

    /// A cheap copy that sets the panning, from 0 (hard left) to `UNIT` (hard right).
    pub fn panning(&self, panning: i64) -> (r: Self)
        ensures
            r.sample_rate == self.sample_rate,
            r.frames == self.frames,
            r.slice == self.slice,
            r.settings == (StaticSoundSettings { panning, ..self.settings }),
    {
        let mut settings = self.settings;
        settings.panning = panning;
        self.with_settings(settings)
    }

    /// A cheap copy that sets the track the sound plays into.
    pub fn output_destination(&self, output_destination: TrackIndex) -> (r: Self)
        ensures
            r.sample_rate == self.sample_rate,
            r.frames == self.frames,
            r.slice == self.slice,
            r.settings == (StaticSoundSettings { output_destination, ..self.settings }),
    {
        let mut settings = self.settings;
        settings.output_destination = output_destination;
        self.with_settings(settings)
    }

    /// A cheap copy that sets the ramp that fades the sound in from silence.
    pub fn fade_in_tween(&self, fade_in_tween: Option<Tween>) -> (r: Self)
        ensures
            r.sample_rate == self.sample_rate,
            r.frames == self.frames,
            r.slice == self.slice,
            r.settings == (StaticSoundSettings { fade_in_tween, ..self.settings }),
    {
        let mut settings = self.settings;
        settings.fade_in_tween = fade_in_tween;
        self.with_settings(settings)
    }

    /// The number of frames this data plays.
    pub fn num_frames(&self) -> (r: usize)
        requires
            self.wf(),
        ensures
            r == self.spec_num_frames(),
    {
        num_frames(self.frames.as_slice(), self.slice)
    }

    /// The duration of the audio in micro-seconds, rounded down.
    pub fn duration(&self) -> (r: u128)
        requires
            self.wf(),
            self.sample_rate > 0,
        ensures
            r == self.spec_num_frames() * MICROS_PER_SECOND / (self.sample_rate as int),
    {
        let n: usize = self.num_frames();
        assert(n as int * 1_000_000 <= 0xffff_ffff_ffff_ffff * 1_000_000) by (nonlinear_arith)
            requires
                n <= 0xffff_ffff_ffff_ffff,
        ;
        let d: u128 = (n as u128 * MICROS_PER_SECOND as u128) / self.sample_rate as u128;
        d
    }

    /// The frame at `index` of the played window, if there is one.
    pub fn frame_at_index(&self, index: usize) -> (r: Option<Frame>)
        requires
            self.wf(),
        ensures
            r == if index < self.spec_num_frames() {
                Some(self.frames@[slice_start(self.slice) + index])
            } else {
                None::<Frame>
            },
    {
        frame_at_index(index, self.frames.as_slice(), self.slice)
    }

    /// A cheap copy that plays only the given region, clamped as
    /// `window_of` says (end to the buffer, start to the end); `None` plays
    /// the whole buffer.
    pub fn slice(&self, region: Option<Region>) -> (r: Self)
        ensures
            r.wf(),
            r.sample_rate == self.sample_rate,
            r.frames == self.frames,
            r.settings == self.settings,
            r.slice == match region {
                Some(reg) => {
                    let w = window_of(reg, self.sample_rate as int, self.frames@.len() as int);
                    Some((w.0 as usize, w.1 as usize))
                },
                None => None::<(usize, usize)>,
            },
    {
        let window: Option<(usize, usize)> = match region {
            Some(reg) => Some(window(reg, self.sample_rate, self.frames.len())),
            None => None,
        };
        StaticSoundData {
            sample_rate: self.sample_rate,
            frames: share(&self.frames),
            settings: self.settings,
            slice: window,
        }
    }
}

} // verus!
