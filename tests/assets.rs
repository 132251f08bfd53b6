use kira::asset::{
    format_from_extension, frames_from_interleaved, pcm_to_fixed, AudioFormat, ConductorError,
    Sound, SoundId, SoundMetadata, SoundSettings,
};
use kira::frame::{Frame, UNIT};

#[test]
fn cooldown_refuses_then_admits() {
    let settings = SoundSettings { cooldown: Some(100_000), metadata: SoundMetadata::default() };
    let mut sound = Sound::new(1000, vec![Frame::silent(); 10], &settings);
    assert_eq!(sound.emit(), Ok(()));
    sound.update_cooldown(50_000);
    assert_eq!(sound.emit(), Err(ConductorError::StillCoolingDown));
    sound.update_cooldown(60_000);
    assert!(!sound.cooling_down());
    assert_eq!(sound.emit(), Ok(()));
    assert!(sound.cooling_down());
}

#[test]
fn no_cooldown_never_refuses() {
    let settings = SoundSettings { cooldown: None, metadata: SoundMetadata::default() };
    let mut sound = Sound::new(1000, vec![], &settings);
    assert_eq!(sound.emit(), Ok(()));
    assert_eq!(sound.emit(), Ok(()));
}

#[test]
fn default_sound_settings() {
    let s = SoundSettings::default();
    assert_eq!(s.cooldown, Some(100));
    assert_eq!(s.metadata.tempo, None);
}

#[test]
fn sound_duration_and_samples() {
    let frames = vec![
        Frame::from_mono(0),
        Frame::from_mono(UNIT as i32),
        Frame::from_mono(0),
        Frame::from_mono(-(UNIT as i32)),
    ];
    let sound = Sound::new(4, frames, &SoundSettings::default());
    assert_eq!(sound.duration(), 1_000_000);
    assert_eq!(sound.get_sample_at_position(250_000), Frame::from_mono(UNIT as i32));
    assert_eq!(sound.get_sample_at_position(375_000), Frame::from_mono(625_000));
    assert_eq!(sound.get_sample_at_position(2_000_000), Frame::silent());
}

#[test]
fn sound_ids_compare_by_index() {
    let a = SoundId::new(1, 5, SoundMetadata { tempo: Some(120_000_000) });
    let b = SoundId::new(1, 9, SoundMetadata::default());
    let c = SoundId::new(2, 5, SoundMetadata::default());
    assert!(a == b);
    assert!(a != c);
    assert_eq!(a.duration(), 5);
    assert_eq!(a.metadata().tempo, Some(120_000_000));
}

#[test]
fn extensions_pick_formats() {
    assert_eq!(format_from_extension(b"ogg"), Ok(AudioFormat::Ogg));
    assert_eq!(format_from_extension(b"flac"), Ok(AudioFormat::Flac));
    assert_eq!(format_from_extension(b"wav"), Ok(AudioFormat::Wav));
    assert_eq!(format_from_extension(b"mp3"), Err(ConductorError::UnsupportedAudioFileFormat));
    assert_eq!(format_from_extension(b""), Err(ConductorError::UnsupportedAudioFileFormat));
}

#[test]
fn pcm_scaling() {
    assert_eq!(pcm_to_fixed(16_384, 16), Ok(500_000));
    assert_eq!(pcm_to_fixed(-32_768, 16), Ok(-1_000_000));
    assert_eq!(pcm_to_fixed(-1, 16), Ok(-30));
    assert_eq!(pcm_to_fixed(64, 8), Ok(500_000));
    assert_eq!(pcm_to_fixed(1, 0), Err(ConductorError::DecodeFailure));
    assert_eq!(pcm_to_fixed(1, 33), Err(ConductorError::DecodeFailure));
}

#[test]
fn channel_layouts() {
    assert_eq!(
        frames_from_interleaved(&vec![1, 2], 1),
        Ok(vec![Frame::from_mono(1), Frame::from_mono(2)])
    );
    assert_eq!(frames_from_interleaved(&vec![1, 2, 3], 2), Ok(vec![Frame::new(1, 2)]));
    assert_eq!(
        frames_from_interleaved(&vec![1, 2, 3], 3),
        Err(ConductorError::UnsupportedChannelConfiguration)
    );
    assert_eq!(
        frames_from_interleaved(&vec![], 0),
        Err(ConductorError::UnsupportedChannelConfiguration)
    );
}
