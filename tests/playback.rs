use kira::command::{FrameRegion, StateCommand, ValueCommand};
use kira::data::{
    frame_at_index, num_frames, EndPosition, PlaybackPosition, Region, StartTime,
    StaticSoundData, StaticSoundSettings, TrackIndex, Tween,
};
use kira::frame::{Frame, UNIT};
use kira::renderer::Renderer;
use kira::sound::{PlaybackState, StaticSound};

fn mono(values: &[i32]) -> Vec<Frame> {
    values.iter().map(|v| Frame::from_mono(*v)).collect()
}

fn sound_of(values: &[i32], rate: u32, settings: StaticSoundSettings) -> StaticSound {
    let data = StaticSoundData::new(rate, mono(values), settings);
    data.split(rate, 1).0
}

#[test]
fn mono_playback_then_stop() {
    let mut renderer = Renderer::new(1000);
    let data = StaticSoundData::new(
        1000,
        mono(&[100_000, 200_000, 300_000, 400_000]),
        StaticSoundSettings::new(),
    );
    let (sound, handle) = data.split(1000, 1);
    renderer.add_sound(sound, &handle);
    let mut out = vec![7; 12];
    renderer.process(&mut out, 2);
    assert_eq!(
        out,
        vec![100_000, 100_000, 200_000, 200_000, 300_000, 300_000, 400_000, 400_000, 0, 0, 0, 0]
    );
    assert_eq!(renderer.voices.len(), 0);
    assert_eq!(renderer.sounds_to_unload.len(), 1);
    assert_eq!(renderer.sounds_to_unload[0].state, PlaybackState::Stopped);
}

#[test]
fn mono_playback_state_sequence() {
    let mut s = sound_of(&[100_000, 200_000, 300_000, 400_000], 1000, StaticSoundSettings::new());
    let mut outs = Vec::new();
    for _ in 0..4 {
        outs.push(s.process().left);
        assert_eq!(s.state, PlaybackState::Playing);
    }
    assert_eq!(outs, vec![100_000, 200_000, 300_000, 400_000]);
    assert_eq!(s.process(), Frame::silent());
    assert_eq!(s.state, PlaybackState::Stopping);
    assert_eq!(s.process(), Frame::silent());
    assert_eq!(s.state, PlaybackState::Stopped);
    assert_eq!(s.process(), Frame::silent());
}

#[test]
fn reverse_playback() {
    let settings = StaticSoundSettings {
        playback_rate: -UNIT,
        start_position: PlaybackPosition::Samples(4),
        ..StaticSoundSettings::new()
    };
    let mut s = sound_of(&[100_000, 200_000, 300_000, 400_000], 1000, settings);
    let outs: Vec<i32> = (0..4).map(|_| s.process().right).collect();
    assert_eq!(outs, vec![400_000, 300_000, 200_000, 100_000]);
    assert_eq!(s.process(), Frame::silent());
    assert_eq!(s.process(), Frame::silent());
    assert_eq!(s.state, PlaybackState::Stopped);
}

#[test]
fn reverse_flag_starts_from_the_end() {
    let data = StaticSoundData::new(
        1000,
        mono(&[100_000, 200_000, 300_000, 400_000]),
        StaticSoundSettings::new(),
    )
    .reverse(true);
    let mut s = data.split(1000, 1).0;
    assert_eq!(s.cursor, 4 * UNIT);
    assert_eq!(s.process().left, 400_000);
    assert_eq!(s.process().left, 300_000);
}

#[test]
fn loop_region_cursor_sequence() {
    let values: Vec<i32> = (1..=8).map(|v| v * UNIT as i32).collect();
    let data = StaticSoundData::new(1000, mono(&values), StaticSoundSettings::new()).loop_region(
        Some(Region {
            start: PlaybackPosition::Samples(2),
            end: EndPosition::Custom(PlaybackPosition::Samples(6)),
        }),
    );
    let mut s = data.split(1000, 1).0;
    assert_eq!(s.loop_region, Some(FrameRegion { start: 2, end: 6 }));
    let mut cursors = Vec::new();
    let mut outs = Vec::new();
    for _ in 0..20 {
        cursors.push(s.cursor / UNIT);
        outs.push(s.process().left / UNIT as i32);
    }
    assert_eq!(
        cursors,
        vec![0, 1, 2, 3, 4, 5, 2, 3, 4, 5, 2, 3, 4, 5, 2, 3, 4, 5, 2, 3]
    );
    assert_eq!(
        outs,
        vec![1, 2, 3, 4, 5, 6, 3, 4, 5, 6, 3, 4, 5, 6, 3, 4, 5, 6, 3, 4]
    );
    assert_eq!(s.state, PlaybackState::Playing);
}

#[test]
fn loop_region_holds_cursor_at_fractional_rate() {
    let values: Vec<i32> = (1..=8).map(|v| v * UNIT as i32).collect();
    let settings = StaticSoundSettings {
        playback_rate: 1_700_000,
        start_position: PlaybackPosition::Samples(2),
        loop_region: Some(Region {
            start: PlaybackPosition::Samples(2),
            end: EndPosition::Custom(PlaybackPosition::Samples(6)),
        }),
        ..StaticSoundSettings::new()
    };
    let mut s = sound_of(&values, 1000, settings);
    for _ in 0..50 {
        let out = s.process();
        assert_ne!(out, Frame::silent());
        assert!(2 * UNIT <= s.cursor && s.cursor < 6 * UNIT);
    }
}

#[test]
fn half_rate_interpolation() {
    let settings = StaticSoundSettings { playback_rate: UNIT / 2, ..StaticSoundSettings::new() };
    let mut s = sound_of(&[0, UNIT as i32, 0, -(UNIT as i32)], 1000, settings);
    let outs: Vec<i32> = (0..6).map(|_| s.process().left).collect();
    assert_eq!(outs, vec![0, 562_500, 1_000_000, 625_000, 0, -625_000]);
    assert!(0 < outs[3] && outs[3] < UNIT as i32);
    assert!(outs[2] > outs[3] && outs[3] > outs[4] && outs[4] > outs[5]);
}

#[test]
fn unity_playback_reproduces_frames() {
    let frames = vec![
        Frame::new(123_456, -654_321),
        Frame::new(-1, 1),
        Frame::new(2_000_000, -2_000_000),
        Frame::new(0, 999_999),
    ];
    let data = StaticSoundData::new(44_100, frames.clone(), StaticSoundSettings::new());
    let mut s = data.split(44_100, 1).0;
    for f in &frames {
        assert_eq!(s.process(), *f);
    }
}

#[test]
fn rate_inversion_returns_cursor() {
    let values: Vec<i32> = vec![0; 100];
    let settings = StaticSoundSettings {
        playback_rate: 1_300_000,
        start_position: PlaybackPosition::Samples(10),
        ..StaticSoundSettings::new()
    };
    let mut s = sound_of(&values, 1000, settings);
    let start = s.cursor;
    let (_, mut h) = StaticSoundData::new(1000, mono(&values), settings).split(1000, 1);
    for _ in 0..25 {
        s.process();
    }
    assert_eq!(s.cursor, start + 25 * 1_300_000);
    h.commands.playback_rate.write(ValueCommand { target: -1_300_000, frames: 0 });
    s.apply_commands(&mut h.commands);
    for _ in 0..25 {
        s.process();
    }
    assert_eq!(s.cursor, start);
}

#[test]
fn latest_volume_command_wins() {
    let mut renderer = Renderer::new(1000);
    let settings = StaticSoundSettings {
        loop_region: Some(Region { start: PlaybackPosition::Samples(0), end: EndPosition::EndOfAudio }),
        ..StaticSoundSettings::new()
    };
    let data = StaticSoundData::new(1000, mono(&[UNIT as i32; 4]), settings);
    let (sound, mut handle) = data.split(1000, 1);
    handle.commands.volume.write(ValueCommand { target: 100_000, frames: 0 });
    renderer.add_sound(sound, &handle);
    renderer.voices[0].commands.volume.write(ValueCommand { target: 300_000, frames: 0 });
    renderer.voices[0].commands.volume.write(ValueCommand { target: 250_000, frames: 0 });
    let mut out = vec![0; 4];
    renderer.process(&mut out, 2);
    assert_eq!(out, vec![250_000, 250_000, 250_000, 250_000]);
    assert_eq!(renderer.voices[0].commands.volume.pending, None);
}

#[test]
fn change_sample_rate() {
    let mut renderer = Renderer::new(100);
    let data = StaticSoundData::new(100, mono(&[0; 1000]), StaticSoundSettings::new());
    let (sound, handle) = data.split(100, 1);
    renderer.add_sound(sound, &handle);
    assert_eq!(renderer.voices[0].sound.step(), UNIT);
    let mut out = vec![0; 2];
    renderer.process(&mut out, 2);
    assert_eq!(renderer.voices[0].sound.cursor, UNIT);
    renderer.on_change_sample_rate(200);
    assert_eq!(renderer.sample_rate, 200);
    assert_eq!(renderer.voices[0].sound.device_rate, 200);
    assert_eq!(renderer.voices[0].sound.step(), UNIT / 2);
    renderer.process(&mut out, 2);
    assert_eq!(renderer.voices[0].sound.cursor, UNIT + UNIT / 2);
}

#[test]
fn stopped_sound_is_released_off_the_render_path() {
    let mut renderer = Renderer::new(1000);
    let data = StaticSoundData::new(1000, mono(&[1, 2]), StaticSoundSettings::new());
    let (sound, handle) = data.split(1000, 1);
    renderer.add_sound(sound, &handle);
    assert_eq!(std::sync::Arc::strong_count(&data.frames), 2);
    let mut out = vec![0; 10];
    renderer.process(&mut out, 1);
    assert_eq!(renderer.voices.len(), 0);
    assert_eq!(std::sync::Arc::strong_count(&data.frames), 2);
    renderer.sounds_to_unload.clear();
    assert_eq!(std::sync::Arc::strong_count(&data.frames), 1);
}

#[test]
fn silence_for_any_size_and_channels() {
    for channels in 1..=6u16 {
        for len in [0usize, 1, 5, 64, 513] {
            let mut renderer = Renderer::new(48_000);
            let mut out = vec![9; len];
            renderer.process(&mut out, channels);
            assert!(out.iter().all(|v| *v == 0));
        }
    }
}

#[test]
fn extra_channels_are_silent_and_mono_averages() {
    let mut renderer = Renderer::new(1000);
    let data = StaticSoundData::new(1000, vec![Frame::new(300, 100)], StaticSoundSettings::new());
    let (sound, handle) = data.split(1000, 1);
    renderer.add_sound(sound, &handle);
    let mut out = vec![5; 4];
    renderer.process(&mut out, 4);
    assert_eq!(out, vec![300, 100, 0, 0]);
    let mut renderer = Renderer::new(1000);
    let (sound, handle) = data.split(1000, 1);
    renderer.add_sound(sound, &handle);
    let mut out = vec![5; 1];
    renderer.process(&mut out, 1);
    assert_eq!(out, vec![200]);
}

#[test]
fn pause_resume_and_stop_commands() {
    let settings = StaticSoundSettings {
        loop_region: Some(Region { start: PlaybackPosition::Samples(0), end: EndPosition::EndOfAudio }),
        ..StaticSoundSettings::new()
    };
    let (mut s, mut h) =
        StaticSoundData::new(1000, mono(&[UNIT as i32; 4]), settings).split(1000, 1);
    h.commands.state.write(StateCommand::Pause);
    s.apply_commands(&mut h.commands);
    assert_eq!(s.state, PlaybackState::Paused);
    assert_eq!(s.process(), Frame::silent());
    h.commands.state.write(StateCommand::Resume);
    s.apply_commands(&mut h.commands);
    assert_eq!(s.state, PlaybackState::Playing);
    h.commands.state.write(StateCommand::Stop { fade_frames: 2 });
    s.apply_commands(&mut h.commands);
    assert_eq!(s.state, PlaybackState::Stopping);
    assert_eq!(s.process().left, UNIT as i32);
    assert_eq!(s.process().left, UNIT as i32 / 2);
    assert_eq!(s.process(), Frame::silent());
    assert_eq!(s.state, PlaybackState::Stopped);
}

#[test]
fn seek_commands_clamp_to_the_audio() {
    let (mut s, mut h) =
        StaticSoundData::new(1000, mono(&[0; 4]), StaticSoundSettings::new()).split(1000, 1);
    h.commands.seek_to.write(10_000);
    s.apply_commands(&mut h.commands);
    assert_eq!(s.cursor, 4 * UNIT);
    h.commands.seek_to.write(1_000);
    h.commands.seek_by.write(500);
    s.apply_commands(&mut h.commands);
    assert_eq!(s.cursor, UNIT + UNIT / 2);
    h.commands.seek_by.write(-10_000);
    s.apply_commands(&mut h.commands);
    assert_eq!(s.cursor, 0);
}

#[test]
fn fade_in_ramps_from_silence() {
    let data = StaticSoundData::new(1000, mono(&[UNIT as i32; 8]), StaticSoundSettings::new())
        .fade_in_tween(Some(Tween { duration_micros: 4_000 }));
    let mut s = data.split(1000, 1).0;
    let outs: Vec<i32> = (0..6).map(|_| s.process().left).collect();
    assert_eq!(outs, vec![0, 250_000, 500_000, 750_000, 1_000_000, 1_000_000]);
}

#[test]
fn clock_start_time_waits_for_its_tick() {
    let mut renderer = Renderer::new(1000);
    let mut clock = kira::clock::Clock::new(7, 1000);
    clock.start();
    renderer.add_clock(clock);
    let data = StaticSoundData::new(1000, mono(&[UNIT as i32; 8]), StaticSoundSettings::new())
        .start_time(StartTime::ClockTime { clock: 7, ticks: 3 });
    let (sound, handle) = data.split(1000, 1);
    renderer.add_sound(sound, &handle);
    let mut out = vec![0; 4];
    renderer.process(&mut out, 1);
    assert_eq!(out, vec![0, 0, UNIT as i32, UNIT as i32]);
}

#[test]
fn builders_keep_everything_else() {
    let data = StaticSoundData::new(1000, mono(&[1, 2, 3]), StaticSoundSettings::new());
    let d = data
        .volume(500_000)
        .panning(0)
        .playback_rate(2 * UNIT)
        .output_destination(TrackIndex::Sub(3))
        .start_position(PlaybackPosition::MicroSeconds(1_000));
    assert_eq!(d.settings.volume, 500_000);
    assert_eq!(d.settings.panning, 0);
    assert_eq!(d.settings.playback_rate, 2 * UNIT);
    assert_eq!(d.settings.output_destination, TrackIndex::Sub(3));
    assert_eq!(d.settings.start_position, PlaybackPosition::MicroSeconds(1_000));
    assert_eq!(d.settings.reverse, false);
    assert_eq!(d.sample_rate, 1000);
    assert!(std::sync::Arc::ptr_eq(&d.frames, &data.frames));
    let w = data.with_settings(StaticSoundSettings { reverse: true, ..StaticSoundSettings::new() });
    assert!(w.settings.reverse);
    assert_eq!(StaticSoundSettings::default(), StaticSoundSettings::new());
}

#[test]
fn slice_clamps_and_selects() {
    let data = StaticSoundData::new(1000, mono(&[10, 20, 30, 40, 50]), StaticSoundSettings::new());
    let s = data.slice(Some(Region {
        start: PlaybackPosition::Samples(1),
        end: EndPosition::Custom(PlaybackPosition::Samples(3)),
    }));
    assert_eq!(s.slice, Some((1, 3)));
    assert_eq!(s.num_frames(), 2);
    assert_eq!(s.frame_at_index(0), Some(Frame::from_mono(20)));
    assert_eq!(s.frame_at_index(1), Some(Frame::from_mono(30)));
    assert_eq!(s.frame_at_index(2), None);
    let c = data.slice(Some(Region {
        start: PlaybackPosition::Samples(9),
        end: EndPosition::Custom(PlaybackPosition::Samples(99)),
    }));
    assert_eq!(c.slice, Some((5, 5)));
    assert_eq!(c.num_frames(), 0);
    let t = data.slice(Some(Region {
        start: PlaybackPosition::MicroSeconds(2_000),
        end: EndPosition::EndOfAudio,
    }));
    assert_eq!(t.slice, Some((2, 5)));
    assert_eq!(data.slice(None).slice, None);
    assert_eq!(num_frames(&mono(&[1, 2, 3]), None), 3);
    assert_eq!(frame_at_index(1, &mono(&[1, 2, 3]), Some((1, 3))), Some(Frame::from_mono(3)));
}

#[test]
fn sliced_sound_plays_its_window() {
    let data = StaticSoundData::new(1000, mono(&[10, 20, 30, 40, 50]), StaticSoundSettings::new())
        .slice(Some(Region {
            start: PlaybackPosition::Samples(1),
            end: EndPosition::Custom(PlaybackPosition::Samples(3)),
        }));
    let mut s = data.split(1000, 1).0;
    assert_eq!(s.process().left, 20);
    assert_eq!(s.process().left, 30);
    assert_eq!(s.process(), Frame::silent());
}

#[test]
fn duration_in_micros() {
    let data = StaticSoundData::new(1000, mono(&[0; 1500]), StaticSoundSettings::new());
    assert_eq!(data.duration(), 1_500_000);
    let data = StaticSoundData::new(3, mono(&[0; 1]), StaticSoundSettings::new());
    assert_eq!(data.duration(), 333_333);
}

#[test]
fn asset_rate_scales_the_step() {
    let data = StaticSoundData::new(1000, mono(&[0; 10]), StaticSoundSettings::new());
    let s = data.split(2000, 1).0;
    assert_eq!(s.step(), UNIT / 2);
    let s = data.split(500, 1).0;
    assert_eq!(s.step(), 2 * UNIT);
}

#[test]
fn slice_with_start_past_end_is_empty() {
    let data = StaticSoundData::new(1000, mono(&[1, 2, 3, 4, 5, 6]), StaticSoundSettings::new());
    let s = data.slice(Some(Region {
        start: PlaybackPosition::Samples(5),
        end: EndPosition::Custom(PlaybackPosition::Samples(3)),
    }));
    assert_eq!(s.slice, Some((3, 3)));
    assert_eq!(s.num_frames(), 0);
}

#[test]
fn commands_written_before_adding_reach_the_sound() {
    let mut renderer = Renderer::new(1000);
    let data = StaticSoundData::new(1000, mono(&[UNIT as i32; 4]), StaticSoundSettings::new());
    let (sound, mut handle) = data.split(1000, 1);
    handle.commands.state.write(StateCommand::Pause);
    renderer.add_sound(sound, &handle);
    let mut out = vec![1; 2];
    renderer.process(&mut out, 2);
    assert_eq!(out, vec![0, 0]);
    assert_eq!(renderer.voices[0].sound.state, PlaybackState::Paused);
}

#[test]
fn handle_sees_the_published_state() {
    let mut renderer = Renderer::new(1000);
    let data = StaticSoundData::new(1000, mono(&[1, 2, 3, 4]), StaticSoundSettings::new());
    let (sound, mut handle) = data.split(1000, 42);
    assert_eq!(sound.id, 42);
    assert_eq!(handle.id, 42);
    assert_eq!(handle.position(), 0);
    assert_eq!(handle.state(), PlaybackState::Playing);
    renderer.add_sound(sound, &handle);
    assert_eq!(renderer.voice_index(42), Some(0));
    assert_eq!(renderer.voice_index(7), None);
    let mut out = vec![0; 4];
    renderer.process(&mut out, 2);
    assert_eq!(renderer.voices[0].shared.position, 2 * UNIT);
    handle.update_shared(renderer.voices[0].shared);
    assert_eq!(handle.position(), 2 * UNIT);
    assert_eq!(handle.state(), PlaybackState::Playing);
}

#[test]
fn paused_sounds_render_silence() {
    let mut renderer = Renderer::new(1000);
    let data = StaticSoundData::new(1000, mono(&[UNIT as i32; 8]), StaticSoundSettings::new());
    let (sound, mut handle) = data.split(1000, 3);
    handle.commands.state.write(StateCommand::Pause);
    renderer.add_sound(sound, &handle);
    let mut out = vec![9; 6];
    renderer.process(&mut out, 3);
    assert_eq!(out, vec![0; 6]);
    let mut out = vec![9; 5];
    renderer.process(&mut out, 2);
    assert_eq!(out, vec![0; 5]);
    assert_eq!(renderer.voices[0].shared.state, PlaybackState::Paused);
}
