//! Loaded assets: their frames, their play cooldown, and the conversion of
//! decoded samples into frames.
use crate::frame::{cubic, cubic_frame, div_trunc, Frame, UNIT};
use vstd::prelude::*;

verus! {

/// Errors at the boundary of the engine.
#[derive(Clone, Copy, Debug, PartialEq, Eq, Structural)]
pub enum ConductorError {
    /// Audio with more than two channels.
    UnsupportedChannelConfiguration,
    /// A file whose extension names no supported format.
    UnsupportedAudioFileFormat,
    /// Samples that cannot be read as audio.
    DecodeFailure,
    /// A play request for an asset whose cooldown has not run out.
    StillCoolingDown,
}

/// The container formats that can be loaded.
#[derive(Clone, Copy, Debug, PartialEq, Eq, Structural)]
pub enum AudioFormat {
    Ogg,
    Flac,
    Wav,
}

/// The format a file extension names.
pub open spec fn format_of(ext: Seq<u8>) -> Option<AudioFormat> {
    if ext == seq![0x6fu8, 0x67u8, 0x67u8] {
        Some(AudioFormat::Ogg)
    } else if ext == seq![0x66u8, 0x6cu8, 0x61u8, 0x63u8] {
        Some(AudioFormat::Flac)
    } else if ext == seq![0x77u8, 0x61u8, 0x76u8] {
        Some(AudioFormat::Wav)
    } else {
        None
    }
}

fn bytes_equal(a: &[u8], b: &[u8]) -> (r: bool)
    ensures
        r == (a@ == b@),
{
    if a.len() != b.len() {
        return false;
    }
    let mut i: usize = 0;
    while i < a.len()
        invariant
            i <= a@.len(),
            a@.len() == b@.len(),
            forall|j: int| 0 <= j < i ==> a@[j] == b@[j],
        decreases a@.len() - i,
    {
        if a[i] != b[i] {
            return false;
        }
        i = i + 1;
    }
    assert(a@ =~= b@);
    true
}

/// The format of a file with extension `ext` ("ogg", "flac" or "wav").
pub fn format_from_extension(ext: &[u8]) -> (r: Result<AudioFormat, ConductorError>)
    ensures
        r == match format_of(ext@) {
            Some(f) => Ok(f),
            None => Err::<AudioFormat, ConductorError>(ConductorError::UnsupportedAudioFileFormat),
        },
{
    let ogg: [u8; 3] = [0x6f, 0x67, 0x67];
    let flac: [u8; 4] = [0x66, 0x6c, 0x61, 0x63];
    let wav: [u8; 3] = [0x77, 0x61, 0x76];
    assert(ogg@ =~= seq![0x6fu8, 0x67u8, 0x67u8]);
    assert(flac@ =~= seq![0x66u8, 0x6cu8, 0x61u8, 0x63u8]);
    assert(wav@ =~= seq![0x77u8, 0x61u8, 0x76u8]);
    if bytes_equal(ext, ogg.as_slice()) {
        Ok(AudioFormat::Ogg)
    } else if bytes_equal(ext, flac.as_slice()) {
        Ok(AudioFormat::Flac)
    } else if bytes_equal(ext, wav.as_slice()) {
        Ok(AudioFormat::Wav)
    } else {
        Err(ConductorError::UnsupportedAudioFileFormat)
    }
}

/// An integer PCM sample of `bits` bits as a fixed-point value: full scale
/// `2^(bits - 1)` maps to `UNIT`.
pub open spec fn pcm_value(sample: int, bits: nat) -> int {
    div_trunc(sample * UNIT, vstd::arithmetic::power2::pow2((bits - 1) as nat) as int)
}

/// Converts an integer PCM sample of `bits` bits (1 to 32) to fixed point;
/// other bit depths are a decoding failure.
pub fn pcm_to_fixed(sample: i32, bits: u32) -> (r: Result<i32, ConductorError>)
    ensures
        1 <= bits <= 32 ==> r == Ok::<i32, ConductorError>(
            crate::frame::clip(pcm_value(sample as int, bits as nat)) as i32,
        ),
        !(1 <= bits <= 32) ==> r == Err::<i32, ConductorError>(ConductorError::DecodeFailure),
{
    if bits < 1 || bits > 32 {
        return Err(ConductorError::DecodeFailure);
    }
    let mut scale: u64 = 1;
    let mut j: u32 = 0;
    proof {
        vstd::arithmetic::power2::lemma2_to64();
    }
    while j < bits - 1
        invariant
            j <= bits - 1,
            bits <= 32,
            scale == vstd::arithmetic::power2::pow2(j as nat),
            scale <= 0x8000_0000,
        decreases bits - 1 - j,
    {
        proof {
            vstd::arithmetic::power2::lemma2_to64();
            vstd::arithmetic::power2::lemma_pow2_unfold((j + 1) as nat);
            if j + 1 < 31 {
                vstd::arithmetic::power2::lemma_pow2_strictly_increases((j + 1) as nat, 31);
            }
        }
        assert(vstd::arithmetic::power2::pow2((j + 1) as nat) <= 0x8000_0000);
        scale = scale * 2;
        j = j + 1;
    }
    proof {
        vstd::arithmetic::power2::lemma_pow2_pos(j as nat);
    }
    assert(-0x8000_0000 * 1_000_000 <= sample * UNIT <= 0x8000_0000 * 1_000_000)
        by (nonlinear_arith)
        requires
            -0x8000_0000 <= sample < 0x8000_0000,
    ;
    let q: i128 = crate::frame::div_trunc_i128(sample as i128 * UNIT as i128, scale as i128);
    Ok(crate::frame::clip_i128(q))
}

/// Converts integer PCM samples of `bits` bits (1 to 32) to fixed point;
/// other bit depths are a decoding failure.
pub fn pcm_all(samples: &Vec<i32>, bits: u32) -> (r: Result<Vec<i32>, ConductorError>)
    ensures
        1 <= bits <= 32 ==> r is Ok && r->Ok_0@ == samples@.map_values(
            |x: i32| crate::frame::clip(pcm_value(x as int, bits as nat)) as i32,
        ),
        !(1 <= bits <= 32) ==> r == Err::<Vec<i32>, ConductorError>(ConductorError::DecodeFailure),
{
    if bits < 1 || bits > 32 {
        return Err(ConductorError::DecodeFailure);
    }
    let mut out: Vec<i32> = Vec::new();
    let mut i: usize = 0;
    while i < samples.len()
        invariant
            i <= samples@.len(),
            1 <= bits <= 32,
            out@ =~= samples@.subrange(0, i as int).map_values(
                |x: i32| crate::frame::clip(pcm_value(x as int, bits as nat)) as i32,
            ),
        decreases samples@.len() - i,
    {
        match pcm_to_fixed(samples[i], bits) {
            Ok(v) => out.push(v),
            Err(e) => return Err(e),
        }
        i = i + 1;
    }
    assert(samples@.subrange(0, i as int) =~= samples@);
    Ok(out)
}

/// The frames of interleaved fixed-point samples: one channel becomes
/// frames with the value on both sides, two channels become left/right
/// pairs (an unpaired last sample is dropped), more channels are refused.
pub open spec fn frames_of(samples: Seq<i32>, channels: int) -> Seq<Frame> {
    if channels == 1 {
        Seq::new(samples.len(), |i: int| Frame { left: samples[i], right: samples[i] })
    } else {
        Seq::new(
            samples.len() / 2,
            |i: int| Frame { left: samples[2 * i], right: samples[2 * i + 1] },
        )
    }
}

/// Frames from interleaved fixed-point samples of one or two channels.
pub fn frames_from_interleaved(samples: &Vec<i32>, channels: u16) -> (r: Result<
    Vec<Frame>,
    ConductorError,
>)
    ensures
        (channels == 1 || channels == 2) ==> r is Ok && r->Ok_0@ == frames_of(
            samples@,
            channels as int,
        ),
        !(channels == 1 || channels == 2) ==> r == Err::<Vec<Frame>, ConductorError>(
            ConductorError::UnsupportedChannelConfiguration,
        ),
{
    if channels == 1 {
        let mut out: Vec<Frame> = Vec::new();
        let mut i: usize = 0;
        while i < samples.len()
            invariant
                i <= samples@.len(),
                out@ =~= frames_of(samples@, 1).subrange(0, i as int),
            decreases samples@.len() - i,
        {
            out.push(Frame::from_mono(samples[i]));
            i = i + 1;
        }
        Ok(out)
    } else if channels == 2 {
        let mut out: Vec<Frame> = Vec::new();
        let len: usize = samples.len();
        let n: usize = len / 2;
        proof {
            vstd::arithmetic::div_mod::lemma_fundamental_div_mod(samples@.len() as int, 2);
        }
        assert(2 * n <= samples@.len());
        let mut i: usize = 0;
        while i < n
            invariant
                i <= n,
                n == samples@.len() / 2,
                2 * n <= len,
                len == samples@.len(),
                out@ =~= frames_of(samples@, 2).subrange(0, i as int),
            decreases n - i,
        {
            assert(2 * i + 1 < samples@.len());
            out.push(Frame::new(samples[2 * i], samples[2 * i + 1]));
            i = i + 1;
        }
        Ok(out)
    } else {
        Err(ConductorError::UnsupportedChannelConfiguration)
    }
}

/// Information the user attaches to a sound when loading it.
#[derive(Clone, Copy, Debug, PartialEq, Eq, Structural, Default)]
pub struct SoundMetadata {
    /// The tempo of the sound, in micro-beats per minute.
    pub tempo: Option<u64>,
}

/// Settings for loading a sound.
#[derive(Clone, Copy, Debug, PartialEq, Eq, Structural)]
pub struct SoundSettings {
    /// The shortest time between two plays of the sound, in micro-seconds.
    pub cooldown: Option<u64>,
    pub metadata: SoundMetadata,
}

impl SoundSettings {
    /// A cooldown of a hundred micro-seconds and no metadata.
    pub fn new() -> (r: SoundSettings)
        ensures
            r == (SoundSettings { cooldown: Some(100), metadata: SoundMetadata { tempo: None } }),
    {
        SoundSettings { cooldown: Some(100), metadata: SoundMetadata { tempo: None } }
    }
}

impl Default for SoundSettings {
    fn default() -> (r: SoundSettings)
        ensures
            r == (SoundSettings { cooldown: Some(100), metadata: SoundMetadata { tempo: None } }),
    {
        SoundSettings::new()
    }
}

/// A handle to a loaded sound. Two ids are equal when their indices are.
#[derive(Clone, Copy, Debug)]
pub struct SoundId {
    pub index: usize,
    /// The duration of the sound, in micro-seconds.
    pub duration: u128,
    pub metadata: SoundMetadata,
}

impl SoundId {
    pub fn new(index: usize, duration: u128, metadata: SoundMetadata) -> (r: SoundId)
        ensures
            r == (SoundId { index, duration, metadata }),
    {
        SoundId { index, duration, metadata }
    }

    /// The duration of the sound, in micro-seconds.
    pub fn duration(&self) -> (r: u128)
        ensures
            r == self.duration,
    {
        self.duration
    }

    pub fn metadata(&self) -> (r: &SoundMetadata)
        ensures
            *r == self.metadata,
    {
        &self.metadata
    }
}

impl PartialEq for SoundId {
    fn eq(&self, other: &SoundId) -> (r: bool) {
        self.index == other.index
    }
}

impl vstd::std_specs::cmp::PartialEqSpecImpl for SoundId {
    open spec fn obeys_eq_spec() -> bool {
        true
    }

    open spec fn eq_spec(&self, other: &SoundId) -> bool {
        self.index == other.index
    }
}

/// A sound loaded into memory, with its play cooldown.
pub struct Sound {
    pub sample_rate: u32,
    pub samples: Vec<Frame>,
    /// The duration, in micro-seconds.
    pub duration: u128,
    /// The shortest time between two plays, in micro-seconds.
    pub cooldown: Option<u64>,
    /// The time left before the sound may play again, in micro-seconds.
    pub cooldown_timer: u64,
}

/// The length of `frames` frames at `sample_rate`, in micro-seconds,
/// rounded down.
pub open spec fn duration_of(frames: int, sample_rate: int) -> int {
    frames * 1_000_000 / sample_rate
}

impl Sound {
    /// A sound of `samples` at `sample_rate`, not cooling down.
    pub fn new(sample_rate: u32, samples: Vec<Frame>, settings: &SoundSettings) -> (r: Sound)
        requires
            sample_rate > 0,
        ensures
            r.sample_rate == sample_rate,
            r.samples@ == samples@,
            r.duration == duration_of(samples@.len() as int, sample_rate as int),
            r.cooldown == settings.cooldown,
            r.cooldown_timer == 0,
    {
        let n: usize = samples.len();
        assert(n as int * 1_000_000 <= 0xffff_ffff_ffff_ffff * 1_000_000) by (nonlinear_arith)
            requires
                n <= 0xffff_ffff_ffff_ffff,
        ;
        let duration: u128 = (n as u128 * 1_000_000) / sample_rate as u128;
        Sound { sample_rate, samples, duration, cooldown: settings.cooldown, cooldown_timer: 0 }
    }

    /// The duration, in micro-seconds.
    pub fn duration(&self) -> (r: u128)
        ensures
            r == self.duration,
    {
        self.duration
    }

    /// The frame at index `k`, or silence outside the sound.
    pub open spec fn frame_or_silent(&self, k: int) -> Frame {
        if 0 <= k < self.samples@.len() {
            self.samples@[k]
        } else {
            Frame { left: 0, right: 0 }
        }
    }

    /// The cubic interpolation of the sound at `position` micro-seconds.
    pub open spec fn spec_sample_at(&self, position: int) -> Frame {
        let p = position * self.sample_rate;
        let i = p / (UNIT as int);
        let x = p % (UNIT as int);
        let y0 = self.frame_or_silent(i - 1);
        let y1 = self.frame_or_silent(i);
        let y2 = self.frame_or_silent(i + 1);
        let y3 = self.frame_or_silent(i + 2);
        Frame {
            left: cubic(y0.left as int, y1.left as int, y2.left as int, y3.left as int, x) as i32,
            right: cubic(y0.right as int, y1.right as int, y2.right as int, y3.right as int, x)
                as i32,
        }
    }

    fn frame_or_silent_exec(&self, k: u128) -> (r: Frame)
        ensures
            r == self.frame_or_silent(k as int),
    {
        if k < self.samples.len() as u128 {
            self.samples[k as usize]
        } else {
            Frame::silent()
        }
    }

    /// The sound at `position` micro-seconds, interpolated from the frames
    /// around it; silence past the end.
    pub fn get_sample_at_position(&self, position: u64) -> (r: Frame)
        ensures
            r == self.spec_sample_at(position as int),
    {
        assert(position as int * self.sample_rate as int <= 0xffff_ffff_ffff_ffff
            * 0xffff_ffff) by (nonlinear_arith)
            requires
                position <= 0xffff_ffff_ffff_ffff,
                self.sample_rate <= 0xffff_ffff,
        ;
        let p: u128 = position as u128 * self.sample_rate as u128;
        let i: u128 = p / UNIT as u128;
        let x: u128 = p % UNIT as u128;
        let y0: Frame = if i == 0 {
            Frame::silent()
        } else {
            self.frame_or_silent_exec(i - 1)
        };
        let y1: Frame = self.frame_or_silent_exec(i);
        let y2: Frame = self.frame_or_silent_exec(i + 1);
        let y3: Frame = self.frame_or_silent_exec(i + 2);
        cubic_frame(y0, y1, y2, y3, x as i64)
    }

    /// Starts the cooldown, if the sound has one.
    pub fn start_cooldown(&mut self)
        ensures
            final(self).cooldown_timer == match old(self).cooldown {
                Some(c) => c,
                None => old(self).cooldown_timer,
            },
            final(self).samples == old(self).samples,
            final(self).cooldown == old(self).cooldown,
    {
        if let Some(c) = self.cooldown {
            self.cooldown_timer = c;
        }
    }

    /// Lets `dt` micro-seconds of the cooldown pass.
    pub fn update_cooldown(&mut self, dt: u64)
        ensures
            final(self).cooldown_timer == if old(self).cooldown_timer > dt {
                old(self).cooldown_timer - dt
            } else {
                0
            },
            final(self).samples == old(self).samples,
            final(self).cooldown == old(self).cooldown,
    {
        if self.cooldown_timer > dt {
            self.cooldown_timer = self.cooldown_timer - dt;
        } else {
            self.cooldown_timer = 0;
        }
    }

    pub fn cooling_down(&self) -> (r: bool)
        ensures
            r == (self.cooldown_timer > 0),
    {
        self.cooldown_timer > 0
    }

    /// Admits a play request: refused while the cooldown runs, otherwise
    /// accepted, and the cooldown starts again.
    pub fn emit(&mut self) -> (r: Result<(), ConductorError>)
        ensures
            old(self).cooldown_timer > 0 ==> r == Err::<(), ConductorError>(
                ConductorError::StillCoolingDown,
            ) && final(self).cooldown_timer == old(self).cooldown_timer,
            old(self).cooldown_timer == 0 ==> r is Ok && final(self).cooldown_timer == match old(
                self,
            ).cooldown {
                Some(c) => c,
                None => 0,
            },
            final(self).samples == old(self).samples,
            final(self).cooldown == old(self).cooldown,
    {
        if self.cooling_down() {
            return Err(ConductorError::StillCoolingDown);
        }
        self.start_cooldown();
        Ok(())
    }
}

/// Half-rate interpolation of `0, 1, 0, -1` (one frame per second): between
/// 1.5 s and 2 s the sound interpolated between the peak and the zero
/// crossing falls (never rises) and stays in `[0, 1)`.
pub proof fn law_half_rate_falls(s: &Sound, p: int, q: int)
    requires
        s.sample_rate == 1,
        s.samples@ == seq![
            Frame { left: 0, right: 0 },
            Frame { left: 1_000_000, right: 1_000_000 },
            Frame { left: 0, right: 0 },
            Frame { left: -1_000_000i32, right: -1_000_000i32 },
        ],
        1_500_000 <= p <= q < 2_000_000,
    ensures
        0 <= s.spec_sample_at(q).left <= s.spec_sample_at(p).left < UNIT,
        0 <= s.spec_sample_at(q).right <= s.spec_sample_at(p).right < UNIT,
{
    let u = UNIT as int;
    vstd::arithmetic::div_mod::lemma_fundamental_div_mod_converse(p, u, 1, p - u);
    vstd::arithmetic::div_mod::lemma_fundamental_div_mod_converse(q, u, 1, q - u);
    assert(p * 1 == p && q * 1 == q);
    crate::frame::law_cubic_falls_past_peak(p - u, q - u);
}

} // verus!
