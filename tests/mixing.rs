use kira::clock::Clock;
use kira::command::CommandSlot;
use kira::data::TrackIndex;
use kira::frame::{cubic_sample, floor_sqrt, pan_gains, Frame, UNIT};
use kira::mixer::{lerp, Effect, EffectSlot, Mixer, MixerCommand, Track};
use kira::tween::Tweener;

fn slot(id: u64, effect: Effect, mix: i64) -> EffectSlot {
    EffectSlot { id, effect, enabled: true, mix }
}

#[test]
fn effect_chain_in_order() {
    let mut track = Track::new();
    track.add_effect(slot(1, Effect::Gain(500_000), UNIT));
    track.add_effect(slot(2, Effect::Offset(250_000), UNIT));
    track.add_input(Frame::from_mono(UNIT as i32));
    assert_eq!(track.process(), Frame::from_mono(750_000));
    assert_eq!(track.input, Frame::silent());
}

#[test]
fn effect_chain_with_dry_mix() {
    let mut track = Track::new();
    track.add_effect(slot(1, Effect::Gain(500_000), UNIT));
    track.add_effect(slot(2, Effect::Offset(250_000), 0));
    track.add_input(Frame::from_mono(UNIT as i32));
    assert_eq!(track.process(), Frame::from_mono(500_000));
}

#[test]
fn disabled_effect_is_bypassed() {
    let mut track = Track::new();
    track.add_effect(EffectSlot { id: 1, effect: Effect::Offset(9), enabled: false, mix: UNIT });
    track.add_input(Frame::new(4, -4));
    assert_eq!(track.process(), Frame::new(4, -4));
}

#[test]
fn lerp_halfway() {
    assert_eq!(lerp(Frame::new(0, 100), Frame::new(100, 0), 500_000), Frame::new(50, 50));
}

#[test]
fn remove_effect_keeps_order() {
    let mut track = Track::new();
    track.add_effect(slot(1, Effect::Gain(1), UNIT));
    track.add_effect(slot(2, Effect::Gain(2), UNIT));
    track.add_effect(slot(3, Effect::Gain(3), UNIT));
    assert_eq!(track.remove_effect(2).map(|s| s.id), Some(2));
    assert_eq!(track.effects.iter().map(|s| s.id).collect::<Vec<_>>(), vec![1, 3]);
    assert_eq!(track.remove_effect(2), None);
}

#[test]
fn mixer_sums_sub_tracks_into_main() {
    let mut mixer = Mixer::new();
    let mut tracks = Vec::new();
    let mut slots = Vec::new();
    let mut quiet = Track::new();
    quiet.volume = Tweener::Idle(500_000);
    mixer.run_command(MixerCommand::AddSubTrack(1, quiet), &mut tracks, &mut slots);
    mixer.run_command(MixerCommand::AddSubTrack(2, Track::new()), &mut tracks, &mut slots);
    mixer.add_input(TrackIndex::Sub(1), Frame::from_mono(1000));
    mixer.add_input(TrackIndex::Sub(2), Frame::from_mono(10));
    mixer.add_input(TrackIndex::Sub(99), Frame::from_mono(1));
    mixer.add_input(TrackIndex::Main, Frame::from_mono(2));
    assert_eq!(mixer.process(), Frame::from_mono(513));
    assert_eq!(mixer.process(), Frame::silent());
}

#[test]
fn removed_tracks_and_effects_are_handed_back() {
    let mut mixer = Mixer::new();
    let mut tracks = Vec::new();
    let mut slots = Vec::new();
    mixer.run_command(MixerCommand::AddSubTrack(1, Track::new()), &mut tracks, &mut slots);
    mixer.run_command(MixerCommand::AddSubTrack(2, Track::new()), &mut tracks, &mut slots);
    mixer.run_command(
        MixerCommand::AddEffect(TrackIndex::Sub(2), slot(5, Effect::Gain(0), UNIT)),
        &mut tracks,
        &mut slots,
    );
    mixer.run_command(MixerCommand::RemoveEffect(TrackIndex::Sub(2), 5), &mut tracks, &mut slots);
    assert_eq!(slots.len(), 1);
    assert_eq!(slots[0].id, 5);
    mixer.run_command(MixerCommand::RemoveSubTrack(1), &mut tracks, &mut slots);
    assert_eq!(tracks.len(), 1);
    assert_eq!(mixer.sub_tracks.iter().map(|t| t.0).collect::<Vec<_>>(), vec![2]);
    mixer.run_command(MixerCommand::AddSubTrack(2, Track::new()), &mut tracks, &mut slots);
    assert_eq!(tracks.len(), 2);
    assert_eq!(mixer.sub_tracks.len(), 1);
    mixer.run_command(MixerCommand::RemoveSubTrack(42), &mut tracks, &mut slots);
    assert_eq!(tracks.len(), 2);
}

#[test]
fn panning_gains_keep_power() {
    assert_eq!(pan_gains(UNIT / 2), (UNIT, UNIT));
    assert_eq!(pan_gains(0), (1_414_213, 0));
    assert_eq!(pan_gains(UNIT), (0, 1_414_213));
    for p in (0..=UNIT).step_by(12_345) {
        let (l, r) = pan_gains(p);
        let power = (l as i128) * (l as i128) + (r as i128) * (r as i128);
        let full = 2 * (UNIT as i128) * (UNIT as i128);
        assert!(power <= full);
        assert!(power > full - 2 * (l + r) as i128 - 2);
    }
}

#[test]
fn hard_left_panning_silences_the_right() {
    let mut track = Track::new();
    track.panning = Tweener::Idle(0);
    track.add_input(Frame::from_mono(UNIT as i32));
    assert_eq!(track.process(), Frame::new(1_414_213, 0));
}

#[test]
fn floor_sqrt_values() {
    assert_eq!(floor_sqrt(0), 0);
    assert_eq!(floor_sqrt(15), 3);
    assert_eq!(floor_sqrt(16), 4);
    assert_eq!(floor_sqrt(4 * 1_000_000_000_000), 2_000_000);
}

#[test]
fn cubic_values() {
    assert_eq!(cubic_sample(0, 7, 9, 11, 0), 7);
    assert_eq!(cubic_sample(0, 1_000_000, 0, -1_000_000, 500_000), 625_000);
    assert_eq!(cubic_sample(i32::MAX, i32::MIN, i32::MAX, i32::MIN, 500_000), 0);
    assert_eq!(cubic_sample(0, i32::MAX, i32::MAX, 0, 500_000), i32::MAX);
}

#[test]
fn frame_arithmetic_saturates() {
    assert_eq!(Frame::new(i32::MAX, 1).add(Frame::new(1, 1)), Frame::new(i32::MAX, 2));
    assert_eq!(Frame::new(i32::MIN, 0).sub(Frame::new(1, 1)), Frame::new(i32::MIN, -1));
    assert_eq!(Frame::new(-3, 3).scale(500_000), Frame::new(-1, 1));
    assert_eq!(Frame::new(i32::MAX, 2).scale(2 * UNIT), Frame::new(i32::MAX, 4));
}

#[test]
fn command_slot_latest_wins() {
    let mut slot = CommandSlot::new();
    assert_eq!(slot.read(), None);
    slot.write(1);
    slot.write(2);
    slot.write(3);
    assert_eq!(slot.read(), Some(3));
    assert_eq!(slot.read(), None);
}

#[test]
fn clock_counts_exact_ticks() {
    let mut clock = Clock::new(1, 3);
    clock.tick(2);
    assert_eq!(clock.ticks, 0);
    clock.start();
    clock.tick(2);
    assert_eq!((clock.ticks, clock.frac), (1, 1));
    clock.tick(2);
    assert_eq!((clock.ticks, clock.frac), (3, 0));
    clock.pause();
    clock.tick(2);
    assert_eq!(clock.ticks, 3);
    assert!(clock.reached(3));
    assert!(!clock.reached(4));
}

#[test]
fn sub_track_routes_into_earlier_sub_track() {
    let mut mixer = Mixer::new();
    let mut tracks = Vec::new();
    let mut slots = Vec::new();
    let mut bus = Track::new();
    bus.volume = Tweener::Idle(500_000);
    mixer.run_command(MixerCommand::AddSubTrack(1, bus), &mut tracks, &mut slots);
    let mut leaf = Track::new();
    leaf.route = TrackIndex::Sub(1);
    mixer.run_command(MixerCommand::AddSubTrack(2, leaf), &mut tracks, &mut slots);
    mixer.add_input(TrackIndex::Sub(2), Frame::from_mono(1000));
    assert_eq!(mixer.process(), Frame::from_mono(500));
    assert_eq!(mixer.route_target(1), Some(0));
    assert_eq!(mixer.route_target(0), None);
}

#[test]
fn route_to_missing_or_later_track_goes_to_main() {
    let mut mixer = Mixer::new();
    let mut tracks = Vec::new();
    let mut slots = Vec::new();
    let mut first = Track::new();
    first.route = TrackIndex::Sub(2);
    first.volume = Tweener::Idle(500_000);
    mixer.run_command(MixerCommand::AddSubTrack(1, first), &mut tracks, &mut slots);
    let mut second = Track::new();
    second.volume = Tweener::Idle(2 * UNIT);
    mixer.run_command(MixerCommand::AddSubTrack(2, second), &mut tracks, &mut slots);
    mixer.add_input(TrackIndex::Sub(1), Frame::from_mono(1000));
    assert_eq!(mixer.process(), Frame::from_mono(500));
    assert_eq!(mixer.route_target(0), None);
}

#[test]
fn track_volume_ramps_down() {
    let mut track = Track::new();
    track.volume.set(0, 4);
    let mut outs = Vec::new();
    for _ in 0..5 {
        track.add_input(Frame::from_mono(1000));
        outs.push(track.process().left);
    }
    assert_eq!(outs, vec![1000, 750, 500, 250, 0]);
    assert_eq!(track.volume, Tweener::Idle(0));
}

#[test]
fn effects_on_sub_tracks_and_missing_tracks() {
    let mut mixer = Mixer::new();
    let mut tracks = Vec::new();
    let mut slots = Vec::new();
    mixer.run_command(MixerCommand::AddSubTrack(1, Track::new()), &mut tracks, &mut slots);
    mixer.run_command(
        MixerCommand::AddEffect(TrackIndex::Sub(1), slot(7, Effect::Gain(500_000), UNIT)),
        &mut tracks,
        &mut slots,
    );
    mixer.run_command(
        MixerCommand::AddEffect(TrackIndex::Sub(9), slot(8, Effect::Gain(0), UNIT)),
        &mut tracks,
        &mut slots,
    );
    assert_eq!(mixer.sub_tracks[0].1.effects.len(), 1);
    assert_eq!(mixer.main_track.effects.len(), 0);
    mixer.add_input(TrackIndex::Sub(1), Frame::from_mono(1000));
    assert_eq!(mixer.process(), Frame::from_mono(500));
    mixer.run_command(MixerCommand::RemoveEffect(TrackIndex::Sub(9), 7), &mut tracks, &mut slots);
    assert!(slots.is_empty());
    mixer.run_command(MixerCommand::RemoveEffect(TrackIndex::Sub(1), 7), &mut tracks, &mut slots);
    assert_eq!(slots.len(), 1);
    assert!(mixer.sub_tracks[0].1.effects.is_empty());
    assert!(tracks.is_empty());
}

#[test]
fn dry_offset_slot_keeps_silence() {
    let mut track = Track::new();
    track.add_effect(slot(1, Effect::Offset(250_000), 0));
    assert_eq!(track.process(), Frame::silent());
}
