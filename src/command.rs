//! Single-slot command channels: the newest value written is the one read.
use vstd::prelude::*;

verus! {

/// A channel of capacity one. Writing replaces any value not yet read, so
/// the reader sees only the latest.
#[derive(Clone, Copy, Debug, PartialEq, Eq, Structural)]
pub struct CommandSlot<T> {
    pub pending: Option<T>,
}

/// What a slot holds after writing each of `values` in turn.
pub open spec fn after_writes<T>(pending: Option<T>, values: Seq<T>) -> Option<T>
    decreases values.len(),
{
    if values.len() == 0 {
        pending
    } else {
        after_writes(Some(values[0]), values.drop_first())
    }
}

/// Latest wins: after one or more writes, the slot holds the last value
/// written, whatever it held before.
pub proof fn law_latest_wins<T>(pending: Option<T>, values: Seq<T>)
    requires
        values.len() > 0,
    ensures
        after_writes(pending, values) == Some(values.last()),
    decreases values.len(),
{
    reveal_with_fuel(after_writes, 2);
    if values.len() > 1 {
        law_latest_wins(Some(values[0]), values.drop_first());
        assert(values.drop_first().last() == values.last());
    }
}

impl<T> CommandSlot<T> {
    pub fn new() -> (r: Self)
        ensures
            r.pending.is_none(),
    {
        CommandSlot { pending: None }
    }

    /// Replaces any pending value by `value`.
    pub fn write(&mut self, value: T)
        ensures
            final(self).pending == Some(value),
            final(self).pending == after_writes(old(self).pending, seq![value]),
    {
        self.pending = Some(value);
        proof {
            reveal_with_fuel(after_writes, 2);
            assert(seq![value].drop_first() =~= Seq::<T>::empty());
        }
    }

    /// Takes the pending value, if there is one.
    pub fn read(&mut self) -> (r: Option<T>)
        ensures
            r == old(self).pending,
            final(self).pending.is_none(),
    {
        self.pending.take()
    }
}

/// A half-open span `[start, end)` of frames.
#[derive(Clone, Copy, Debug, PartialEq, Eq, Structural)]
pub struct FrameRegion {
    pub start: usize,
    pub end: usize,
}

/// A change of a sound's playback state.
#[derive(Clone, Copy, Debug, PartialEq, Eq, Structural)]
pub enum StateCommand {
    Pause,
    Resume,
    /// Stop after fading out over this many frames; zero stops at once.
    Stop { fade_frames: u32 },
}

/// A ramp of a value to `target` over `frames` frames.
#[derive(Clone, Copy, Debug, PartialEq, Eq, Structural)]
pub struct ValueCommand {
    pub target: i64,
    pub frames: u32,
}

/// The commands a control thread sends to one sound. Each field is its own
/// single-slot channel.
#[derive(Clone, Copy, Debug, PartialEq, Eq, Structural)]
pub struct SoundCommands {
    pub state: CommandSlot<StateCommand>,
    /// An absolute playback position, in micro-seconds.
    pub seek_to: CommandSlot<i64>,
    /// A playback offset, in micro-seconds.
    pub seek_by: CommandSlot<i64>,
    /// A new loop region `[start, end)` in frames, or none.
    pub loop_region: CommandSlot<Option<FrameRegion>>,
    pub volume: CommandSlot<ValueCommand>,
    pub panning: CommandSlot<ValueCommand>,
    pub playback_rate: CommandSlot<ValueCommand>,
}

impl SoundCommands {
    /// Slots with nothing pending.
    pub open spec fn spec_empty() -> SoundCommands {
        SoundCommands {
            state: CommandSlot { pending: None },
            seek_to: CommandSlot { pending: None },
            seek_by: CommandSlot { pending: None },
            loop_region: CommandSlot { pending: None },
            volume: CommandSlot { pending: None },
            panning: CommandSlot { pending: None },
            playback_rate: CommandSlot { pending: None },
        }
    }

    pub fn new() -> (r: Self)
        ensures
            r == Self::spec_empty(),
            r.state.pending.is_none(),
            r.seek_to.pending.is_none(),
            r.seek_by.pending.is_none(),
            r.loop_region.pending.is_none(),
            r.volume.pending.is_none(),
            r.panning.pending.is_none(),
            r.playback_rate.pending.is_none(),
    {
        SoundCommands {
            state: CommandSlot::new(),
            seek_to: CommandSlot::new(),
            seek_by: CommandSlot::new(),
            loop_region: CommandSlot::new(),
            volume: CommandSlot::new(),
            panning: CommandSlot::new(),
            playback_rate: CommandSlot::new(),
        }
    }
}

} // verus!
