//! The render side: commands from the control side, the resources they act
//! on, and the pass that turns them into one block of output.
use crate::arena::{all_items, lemma_all_items_kept, Arena, ArenaError, ResourceId, Slot};
use crate::clock::{Clock, ClockState, TickRange, SUBTICKS_PER_TICK};
use crate::instance::{advance_spec, advances_in, wrapped, Instance, InstanceSettings, PlaybackState, StartTime, MAX_FRAMES};
use crate::mixer::{after_subs, buffer_slot, route_allowed, route_set_seq, track_output, Mixer, Track, TrackId};
use crate::queue::{CommandQueue, QueueError};
use crate::sample::{mixed, UNITY_GAIN};
use crate::sequence::{Sequence, SequenceAction, Step};
use crate::tween::{advanced, resolved, Easing, Parameter, Value};
use vstd::prelude::*;

verus! {

/// Samples held in memory, with the loop start the sound suggests.
#[derive(Debug)]
pub struct Sound {
    pub samples: Vec<i32>,
    pub loop_start: Option<u64>,
}

/// An instance and the sound it plays.
#[derive(Debug, Clone, Copy, PartialEq, Eq, Structural)]
pub struct Voice {
    pub sound: ResourceId,
    /// When the voice starts: at once, or once a clock reaches a tick. A
    /// voice waiting for its tick is neither played nor moved on.
    pub start_time: StartTime,
    /// The volume, resolved against the parameters every block.
    pub volume: Value,
    /// The panning, resolved against the parameters every block.
    pub panning: Value,
    /// The playback rate, resolved against the parameters every block.
    pub playback_rate: Value,
    pub instance: Instance,
}

/// Operations on instances. Pausing, resuming and stopping carry the
/// frames of their fade.
#[derive(Debug, Clone, Copy, PartialEq, Eq, Structural)]
pub enum InstanceCommand {
    Pause(ResourceId, u32),
    Resume(ResourceId, u32),
    Stop(ResourceId, u32),
    SetVolume(ResourceId, Value),
    SetPlaybackRate(ResourceId, Value),
    SeekTo(ResourceId, u64),
}

/// Operations on clocks.
#[derive(Debug, Clone, Copy, PartialEq, Eq, Structural)]
pub enum ClockCommand {
    Start(ResourceId),
    Pause(ResourceId),
    Stop(ResourceId),
    /// A new speed, and the frames of the change.
    SetSpeed(ResourceId, u32, u32),
}

/// Operations on parameters.
#[derive(Debug, Clone, Copy, PartialEq, Eq, Structural)]
pub enum ParameterCommand {
    /// A new value, reached linearly over the given frames from where the
    /// parameter is now.
    SetValue(ResourceId, i32, u32),
}

/// Operations on the mixer's tracks.
#[derive(Debug, Clone, Copy, PartialEq, Eq, Structural)]
pub enum MixerCommand {
    SetTrackVolume(TrackId, u32),
    /// Sets the send from one sub track to an older track (or the main
    /// track) to a volume; a send that would not go upstream is ignored.
    SetTrackRoute(TrackId, TrackId, u32),
}

/// A request from the control side, by the kind of resource it acts on.
#[derive(Debug, Clone, Copy, PartialEq, Eq, Structural)]
pub enum Command {
    Instance(InstanceCommand),
    Clock(ClockCommand),
    Parameter(ParameterCommand),
    Mixer(MixerCommand),
    /// Removes a resource of the given kind.
    Remove(ResourceKind, ResourceId),
}

/// The kinds of resource the engine keeps.
#[derive(Debug, Clone, Copy, PartialEq, Eq, Structural)]
pub enum ResourceKind {
    Sound,
    Instance,
    Parameter,
    Clock,
    Sequence,
}

/// `post` is `pre` with the resource that `id` names taken out, its slot
/// moved to the next generation; unchanged when `id` names nothing.
pub open spec fn removed_from<T>(pre: &Arena<T>, post: &Arena<T>, id: ResourceId) -> bool {
    &&& post.capacity() == pre.capacity()
    &&& !pre.is_live(id) ==> post.slots() == pre.slots()
    &&& pre.is_live(id) ==> {
        &&& post.slots()[id.index as int].item is None
        &&& post.generation_at(id.index as int) == id.generation + 1
        &&& forall|i: int| 0 <= i < pre.capacity() && i != id.index ==> post.slots()[i] == pre.slots()[i]
    }
}

/// `command` removes a resource of kind `kind`.
pub open spec fn removes(command: Command, kind: ResourceKind) -> bool {
    command matches Command::Remove(k, _) && k == kind
}

/// Why a resource could not be added.
#[derive(Debug, Clone, Copy, PartialEq, Eq, Structural)]
pub enum EngineError {
    CapacityExceeded,
    /// The sound is gone, or the settings do not fit it.
    BadInstance,
    /// The clock speed does not fit a gain.
    BadSpeed,
    /// The steps of a sequence are not in the order of their ticks.
    BadSequence,
}

/// The number of frames of the sound in the slot that `id` names.
pub open spec fn sound_len(sounds: &Arena<Sound>, id: ResourceId) -> int {
    sounds.slots()[id.index as int].item->Some_0.samples@.len() as int
}

/// `settings` fit a sound of `len` frames whose own loop start is
/// `sound_loop_start`.
pub open spec fn settings_fit(settings: InstanceSettings, len: int, sound_loop_start: Option<u64>) -> bool {
    &&& settings.start_position < len
    &&& len <= MAX_FRAMES
    &&& (crate::instance::loop_start_for(settings.loop_start, sound_loop_start) matches Some(ls) ==> ls < len)
}

/// Every instance in `voices` is well formed.
pub open spec fn voices_wf(voices: &Arena<Voice>) -> bool {
    all_items(voices, |v: Voice| v.instance.wf())
}

/// Every clock in `clocks` is well formed.
pub open spec fn clocks_wf(clocks: &Arena<Clock>) -> bool {
    all_items(clocks, |c: Clock| c.wf())
}

/// Every parameter in `params` is well formed.
pub open spec fn params_wf(params: &Arena<Parameter>) -> bool {
    all_items(params, |p: Parameter| p.wf())
}

/// Every sequence in `sequences` is well formed.
pub open spec fn sequences_wf(sequences: &Arena<Sequence>) -> bool {
    all_items(sequences, |q: Sequence| q.wf())
}

/// No stopped instance is left among `voices`.
pub open spec fn none_stopped(voices: &Arena<Voice>) -> bool {
    forall|i: int| 0 <= i < voices.capacity() ==>
        ((#[trigger] voices.slots()[i]).item matches Some(v) ==> v.instance.state != PlaybackState::Stopped)
}

/// The resources of the render side, and the queue of commands to it.
#[derive(Debug)]
pub struct Engine {
    pub sounds: Arena<Sound>,
    pub voices: Arena<Voice>,
    pub clocks: Arena<Clock>,
    pub sequences: Arena<Sequence>,
    pub parameters: Arena<Parameter>,
    pub mixer: Mixer,
    pub commands: CommandQueue<Command>,
    /// Custom events from sequences, for the control side to take. When it
    /// is full, the newest event is dropped.
    pub events: CommandQueue<u32>,
    pub block_frames: u32,
}

/// The instance that an instance command acts on.
pub open spec fn instance_target(c: InstanceCommand) -> ResourceId {
    match c {
        InstanceCommand::Pause(id, _) => id,
        InstanceCommand::Resume(id, _) => id,
        InstanceCommand::Stop(id, _) => id,
        InstanceCommand::SetVolume(id, _) => id,
        InstanceCommand::SetPlaybackRate(id, _) => id,
        InstanceCommand::SeekTo(id, _) => id,
    }
}

/// The clock that a clock command acts on.
pub open spec fn clock_target(c: ClockCommand) -> ResourceId {
    match c {
        ClockCommand::Start(id) => id,
        ClockCommand::Pause(id) => id,
        ClockCommand::Stop(id) => id,
        ClockCommand::SetSpeed(id, _, _) => id,
    }
}

/// The voice in the slot that `id` names.
pub open spec fn voice_at(voices: &Arena<Voice>, id: ResourceId) -> Voice {
    voices.slots()[id.index as int].item->Some_0
}

/// The clock in the slot that `id` names.
pub open spec fn clock_at(clocks: &Arena<Clock>, id: ResourceId) -> Clock {
    clocks.slots()[id.index as int].item->Some_0
}

/// The instance that plays a block: `i` with its fade moved on by the
/// block, so that a block is played at the gain its fade reaches.
pub open spec fn faded(i: Instance, frames: nat) -> Instance {
    Instance { fade: advanced(i.fade, frames), ..i }
}

/// The gain of voice `v` this block: its volume resolved against
/// `params`, falling back on the gain it last had, held at zero from below.
pub open spec fn resolved_gain(v: Voice, params: &Arena<Parameter>) -> u32 {
    let fallback: i32 = if v.instance.volume > i32::MAX { i32::MAX } else { v.instance.volume as i32 };
    let g = resolved(v.volume, params, fallback);
    if g < 0 { 0 } else { g as u32 }
}

/// The panning of voice `v` this block: resolved against `params`,
/// falling back on the panning it last had, held within `[0, UNITY_GAIN]`.
pub open spec fn resolved_pan(v: Voice, params: &Arena<Parameter>) -> u32 {
    let g = resolved(v.panning, params, v.instance.panning as i32);
    if g < 0 { 0 } else if g > UNITY_GAIN { UNITY_GAIN } else { g as u32 }
}

/// The playback rate of voice `v` this block: resolved against `params`,
/// falling back on the rate it last had, held at zero from below.
pub open spec fn resolved_rate(v: Voice, params: &Arena<Parameter>) -> u32 {
    let fallback: i32 = if v.instance.playback_rate > i32::MAX { i32::MAX } else { v.instance.playback_rate as i32 };
    let g = resolved(v.playback_rate, params, fallback);
    if g < 0 { 0 } else { g as u32 }
}

/// Voice `v` with its instance's gain, panning and playback rate set to
/// this block's resolved values.
pub open spec fn refreshed(v: Voice, params: &Arena<Parameter>) -> Voice {
    Voice {
        instance: Instance {
            volume: resolved_gain(v, params),
            panning: resolved_pan(v, params),
            playback_rate: resolved_rate(v, params),
            ..v.instance
        },
        ..v
    }
}

/// Voice `v` is still waiting for the tick of a live clock to start.
pub open spec fn held(v: Voice, clocks: &Arena<Clock>) -> bool {
    match v.start_time {
        StartTime::ClockTime(clock, tick) => clocks.is_live(clock) && clock_at(clocks, clock).ticks() < tick
            && v.instance.state != PlaybackState::Stopped,
        StartTime::Immediate => false,
    }
}

/// Voice `v`, started.
pub open spec fn released(v: Voice) -> Voice {
    Voice { start_time: StartTime::Immediate, ..v }
}

/// What voice `v` plays in a block of `frames` frames: its instance's
/// render of its sound, or nothing when the sound is gone or is not the
/// length the instance was made for.
pub open spec fn voice_block(v: Voice, sounds: &Arena<Sound>, frames: nat) -> Option<Seq<i32>> {
    if sounds.is_live(v.sound) && sound_len(sounds, v.sound) == v.instance.duration {
        let f = faded(v.instance, frames);
        let samples = sounds.slots()[v.sound.index as int].item->Some_0.samples@;
        Some(Seq::new(2 * frames, |k: int| f.stereo_output(samples, k as nat)))
    } else {
        None
    }
}

/// The track buffers `bufs` of a mixer with `n_subs` sub tracks and blocks
/// of `block_len` samples, with `block` added into track `t`; unchanged
/// when there is no such track or the block is not one block long.
pub open spec fn added(bufs: Seq<Seq<i32>>, t: TrackId, block: Seq<i32>, n_subs: nat, block_len: nat) -> Seq<Seq<i32>> {
    let known = match t {
        TrackId::Main => true,
        TrackId::Sub(k) => k < n_subs,
    };
    if known && block.len() == block_len {
        bufs.update(buffer_slot(t), Seq::new(block.len(), |i: int|
            mixed(bufs[buffer_slot(t)][i] as int, block[i] as int) as i32))
    } else {
        bufs
    }
}

/// The track buffers after the voices in the first `k` slots have added
/// their blocks into their tracks.
pub open spec fn deposited(
    slots: Seq<Slot<Voice>>,
    sounds: &Arena<Sound>,
    params: &Arena<Parameter>,
    clocks: &Arena<Clock>,
    frames: nat,
    bufs: Seq<Seq<i32>>,
    k: nat,
    n_subs: nat,
    block_len: nat,
) -> Seq<Seq<i32>>
    decreases k,
{
    if k == 0 {
        bufs
    } else {
        let prev = deposited(slots, sounds, params, clocks, frames, bufs, (k - 1) as nat, n_subs, block_len);
        match slots[k - 1].item {
            Some(v) => if held(v, clocks) {
                prev
            } else {
                match voice_block(refreshed(released(v), params), sounds, frames) {
                    Some(b) => added(prev, v.instance.track, b, n_subs, block_len),
                    None => prev,
                }
            },
            None => prev,
        }
    }
}

/// A voice slot after a block: a voice still waiting for its tick stays as
/// it is; any other starts, is moved on, and leaves its slot, which moves to
/// the next generation, exactly when it ends up stopped.
pub open spec fn stepped(
    before: Slot<Voice>,
    after: Slot<Voice>,
    params: &Arena<Parameter>,
    clocks: &Arena<Clock>,
    frames: nat,
) -> bool {
    match before.item {
        None => after == before,
        Some(v0) => if held(v0, clocks) {
            after == before
        } else {
            let v = refreshed(released(v0), params);
            let a = advance_spec(v.instance, frames);
            if a.state == PlaybackState::Stopped {
                after.item is None && after.generation == before.generation + 1
            } else {
                after.item == Some(Voice { instance: a, ..v }) && after.generation == before.generation
            }
        },
    }
}

/// What applying `command` to `pre` leaves in `post`: a command on an
/// identifier that names nothing changes nothing.
pub open spec fn applied(pre: &Engine, post: &Engine, command: Command) -> bool {
    &&& (post.commands == pre.commands)
    &&& (post.events == pre.events)
    &&& (!removes(command, ResourceKind::Sequence) ==> post.sequences.slots() == pre.sequences.slots())
    &&& (!(command is Mixer) ==> post.mixer == pre.mixer)
    &&& (post.mixer.spec_buffers() == pre.mixer.spec_buffers())
    &&& (post.mixer.spec_block_len() == pre.mixer.spec_block_len())
    &&& (command matches Command::Mixer(MixerCommand::SetTrackVolume(t, volume)) ==> {
        &&& post.voices == pre.voices
        &&& post.clocks == pre.clocks
        &&& post.parameters == pre.parameters
        &&& !pre.mixer.has_track(t) ==> post.mixer == pre.mixer
        &&& (pre.mixer.has_track(t) && t == TrackId::Main) ==> post.mixer.spec_main()
            == (Track { volume, ..pre.mixer.spec_main() }) && post.mixer.spec_subs() == pre.mixer.spec_subs()
        &&& (pre.mixer.has_track(t) && t is Sub) ==> post.mixer.spec_main() == pre.mixer.spec_main()
            && post.mixer.spec_subs() == pre.mixer.spec_subs().update(t->Sub_0 as int,
                Track { volume, ..pre.mixer.spec_subs()[t->Sub_0 as int] })
    })
    &&& (!removes(command, ResourceKind::Sound) ==> post.sounds == pre.sounds)
    &&& (command matches Command::Mixer(MixerCommand::SetTrackRoute(from, to, volume)) ==> {
        &&& post.voices == pre.voices
        &&& post.clocks == pre.clocks
        &&& post.parameters == pre.parameters
        &&& post.mixer.spec_main() == pre.mixer.spec_main()
        &&& !(from is Sub && from->Sub_0 < pre.mixer.spec_subs().len() && route_allowed(to, from->Sub_0 as nat))
            ==> post.mixer == pre.mixer
        &&& (from is Sub && from->Sub_0 < pre.mixer.spec_subs().len() && route_allowed(to, from->Sub_0 as nat)) ==> {
            let k = from->Sub_0 as int;
            &&& post.mixer.spec_subs().len() == pre.mixer.spec_subs().len()
            &&& forall|j: int| 0 <= j < pre.mixer.spec_subs().len() && j != k
                ==> post.mixer.spec_subs()[j] == pre.mixer.spec_subs()[j]
            &&& post.mixer.spec_subs()[k].volume == pre.mixer.spec_subs()[k].volume
            &&& post.mixer.spec_subs()[k].routes@ == route_set_seq(pre.mixer.spec_subs()[k].routes@, to, volume)
        }
    })
    &&& (command matches Command::Remove(kind, id) ==> {
        &&& kind == ResourceKind::Sound ==> removed_from(&pre.sounds, &post.sounds, id)
        &&& kind == ResourceKind::Instance ==> removed_from(&pre.voices, &post.voices, id)
        &&& kind != ResourceKind::Instance ==> post.voices == pre.voices
        &&& kind == ResourceKind::Parameter ==> removed_from(&pre.parameters, &post.parameters, id)
        &&& kind == ResourceKind::Clock ==> removed_from(&pre.clocks, &post.clocks, id)
        &&& kind != ResourceKind::Clock ==> post.clocks == pre.clocks
        &&& kind == ResourceKind::Sequence ==> removed_from(&pre.sequences, &post.sequences, id)
    })
    &&& (post.block_frames == pre.block_frames)
    &&& (post.voices.capacity() == pre.voices.capacity())
    &&& (command matches Command::Instance(c) ==> {
        &&& post.clocks.slots() == pre.clocks.slots()
        &&& !pre.voices.is_live(instance_target(c))
            ==> post.voices.slots() == pre.voices.slots()
        &&& forall|i: int| 0 <= i < pre.voices.capacity() && i != instance_target(c).index
            ==> post.voices.slots()[i] == pre.voices.slots()[i]
        &&& pre.voices.is_live(instance_target(c)) ==> {
            let before = voice_at(&pre.voices, instance_target(c)).instance;
            let after = voice_at(&post.voices, instance_target(c)).instance;
            &&& post.voices.is_live(instance_target(c))
            &&& !(c is SeekTo) ==> after.position == before.position
            &&& voice_at(&post.voices, instance_target(c)).sound == voice_at(&pre.voices, instance_target(c)).sound
            &&& c is SetVolume ==> after == before
                && voice_at(&post.voices, instance_target(c)).volume == c->SetVolume_1
            &&& !(c is SetVolume) ==> voice_at(&post.voices, instance_target(c)).volume
                == voice_at(&pre.voices, instance_target(c)).volume
            &&& c is SetPlaybackRate ==> after == before
                && voice_at(&post.voices, instance_target(c)).playback_rate == c->SetPlaybackRate_1
            &&& !(c is SetPlaybackRate) ==> voice_at(&post.voices, instance_target(c)).playback_rate
                == voice_at(&pre.voices, instance_target(c)).playback_rate
            &&& c is SeekTo ==> match wrapped(c->SeekTo_1 as int, before.loop_start, before.duration as int) {
                Some(p) => after == (Instance { position: p as u64, subframe: 0, ..before }),
                None => after == (Instance { state: PlaybackState::Stopped, ..before }),
            }
            &&& (c is Stop && before.state != PlaybackState::Stopped) ==> (
                after.fade.settles_on() == 0
                && after.state == (if c->Stop_1 == 0 { PlaybackState::Stopped } else { PlaybackState::Stopping }))
            &&& (c is Pause && (before.state == PlaybackState::Playing
                || before.state == PlaybackState::Resuming)) ==> (
                after.fade.settles_on() == 0
                && after.state == (if c->Pause_1 == 0 { PlaybackState::Paused } else { PlaybackState::Pausing }))
            &&& (c is Resume && (before.state == PlaybackState::Paused
                || before.state == PlaybackState::Pausing)) ==> (
                after.fade.settles_on() == UNITY_GAIN
                && after.state == (if c->Resume_1 == 0 { PlaybackState::Playing } else { PlaybackState::Resuming }))
        }
    })
    &&& (command matches Command::Parameter(ParameterCommand::SetValue(id, target, frames)) ==> {
        &&& post.voices.slots() == pre.voices.slots()
        &&& post.clocks.slots() == pre.clocks.slots()
        &&& !pre.parameters.is_live(id) ==> post.parameters.slots() == pre.parameters.slots()
        &&& pre.parameters.is_live(id) ==> {
            let before = pre.parameters.slots()[id.index as int].item->Some_0;
            let after = post.parameters.slots()[id.index as int].item->Some_0;
            &&& after.settles_on() == target
            &&& frames > 0 ==> after.current() == before.current()
            &&& frames == 0 ==> after.current() == target
        }
    })
    &&& (!(command is Parameter) && !removes(command, ResourceKind::Parameter)
        ==> post.parameters.slots() == pre.parameters.slots())
    &&& (command matches Command::Clock(c) ==> {
        &&& post.voices.slots() == pre.voices.slots()
        &&& !pre.clocks.is_live(clock_target(c))
            ==> post.clocks.slots() == pre.clocks.slots()
        &&& forall|i: int| 0 <= i < pre.clocks.capacity() && i != clock_target(c).index
            ==> post.clocks.slots()[i] == pre.clocks.slots()[i]
        &&& pre.clocks.is_live(clock_target(c)) ==> {
            let before = clock_at(&pre.clocks, clock_target(c));
            let after = clock_at(&post.clocks, clock_target(c));
            &&& c is Start ==> (after.state == ClockState::Started
                && after.subticks == before.subticks)
            &&& c is Pause ==> after.state == (
                if before.state == ClockState::Started { ClockState::Paused } else { before.state })
            &&& c is Stop ==> (after.state == ClockState::Stopped && after.subticks == 0)
            &&& c is SetSpeed ==> (if c->SetSpeed_1 <= i32::MAX {
                after.speed.settles_on() == c->SetSpeed_1 && after.state == before.state
            } else {
                after == before
            })
        }
    })
}

/// `post` is `pre` after applying `commands` one by one, in order.
pub open spec fn applied_in_order(pre: Engine, post: Engine, commands: Seq<Command>) -> bool
    decreases commands.len(),
{
    if commands.len() == 0 {
        pre == post
    } else {
        exists|mid: Engine| #[trigger] applied(&mid, &post, commands.last()) && mid.wf()
            && applied_in_order(pre, mid, commands.drop_last())
    }
}

/// Every sequence in `sequences` has fired all its steps.
pub open spec fn sequences_idle(sequences: &Arena<Sequence>) -> bool {
    all_items(sequences, |q: Sequence| q.cursor >= q.steps@.len())
}

/// A parameter slot after a block of `frames` frames: a parameter's
/// transition moves on, in place.
pub open spec fn param_stepped(before: Slot<Parameter>, after: Slot<Parameter>, frames: nat) -> bool {
    match before.item {
        None => after == before,
        Some(p) => after.item == Some(advanced(p, frames)) && after.generation == before.generation,
    }
}

/// From engine `b`, the time of one block of `frames` frames moved every
/// parameter and clock on and fired the sequence steps due, giving `c`:
/// sounds and mixer stay, each parameter steps, and with no sequence step
/// left to fire the voices stay too.
pub open spec fn ticked(b: &Engine, c: &Engine, frames: nat) -> bool {
    &&& c.sounds == b.sounds
    &&& c.mixer == b.mixer
    &&& c.voices.capacity() == b.voices.capacity()
    &&& c.parameters.capacity() == b.parameters.capacity()
    &&& forall|i: int| 0 <= i < b.parameters.capacity()
        ==> #[trigger] param_stepped(b.parameters.slots()[i], c.parameters.slots()[i], frames)
    &&& sequences_idle(&b.sequences) ==> c.voices == b.voices
}

/// From engine `c`, one block of `frames` frames played every voice and
/// moved it on into `e`, and mixed the result down to `out`: each voice
/// slot stepped, and `out` is the mixer's output over its buffers with
/// every voice's block added into its track, slot by slot.
pub open spec fn voices_played(c: &Engine, e: &Engine, frames: nat, out: Seq<i32>) -> bool {
    &&& c.voices.capacity() == e.voices.capacity()
    &&& forall|i: int| 0 <= i < c.voices.capacity()
        ==> #[trigger] stepped(c.voices.slots()[i], e.voices.slots()[i], &c.parameters, &c.clocks, frames)
    &&& out == track_output(c.mixer.spec_main(), after_subs(c.mixer.spec_subs(),
        deposited(c.voices.slots(), &c.sounds, &c.parameters, &c.clocks, frames, c.mixer.spec_buffers(), c.voices.capacity(),
            c.mixer.spec_subs().len(), c.mixer.spec_block_len()), 0)[0])
}

/// Puts `v` in place of the voice `id` names, keeping every instance well
/// formed.
fn put_voice(voices: &mut Arena<Voice>, id: ResourceId, v: Voice)
    requires
        old(voices).wf(),
        voices_wf(old(voices)),
        v.instance.wf(),
    ensures
        final(voices).wf(),
        voices_wf(final(voices)),
        final(voices).capacity() == old(voices).capacity(),
        old(voices).is_live(id) ==> final(voices).slots()[id.index as int].item == Some(v)
            && final(voices).is_live(id)
            && final(voices).slots()[id.index as int].generation == id.generation,
        !old(voices).is_live(id) ==> final(voices).slots() == old(voices).slots(),
        forall|i: int| 0 <= i < old(voices).capacity() && i != id.index
            ==> final(voices).slots()[i] == old(voices).slots()[i],
{
    let ghost before = *voices;
    voices.replace(id, v);
    proof {
        lemma_all_items_kept(&before, &voices, id.index as int, |x: Voice| x.instance.wf());
    }
}

/// Puts `c` in place of the clock `id` names, keeping every clock well
/// formed.
fn put_clock(clocks: &mut Arena<Clock>, id: ResourceId, c: Clock)
    requires
        old(clocks).wf(),
        clocks_wf(old(clocks)),
        c.wf(),
    ensures
        final(clocks).wf(),
        clocks_wf(final(clocks)),
        final(clocks).capacity() == old(clocks).capacity(),
        old(clocks).is_live(id) ==> final(clocks).slots()[id.index as int].item == Some(c),
        !old(clocks).is_live(id) ==> final(clocks).slots() == old(clocks).slots(),
        forall|i: int| 0 <= i < old(clocks).capacity() && i != id.index
            ==> final(clocks).slots()[i] == old(clocks).slots()[i],
{
    let ghost before = *clocks;
    clocks.replace(id, c);
    proof {
        lemma_all_items_kept(&before, &clocks, id.index as int, |x: Clock| x.wf());
    }
}

/// Puts `p` in place of the parameter `id` names, keeping every parameter
/// well formed.
fn put_param(params: &mut Arena<Parameter>, id: ResourceId, p: Parameter)
    requires
        old(params).wf(),
        params_wf(old(params)),
        p.wf(),
    ensures
        final(params).wf(),
        params_wf(final(params)),
        final(params).capacity() == old(params).capacity(),
        old(params).is_live(id) ==> final(params).slots()[id.index as int].item == Some(p)
            && final(params).slots()[id.index as int].generation == id.generation,
        !old(params).is_live(id) ==> final(params).slots() == old(params).slots(),
        forall|i: int| 0 <= i < old(params).capacity() && i != id.index
            ==> final(params).slots()[i] == old(params).slots()[i],
{
    let ghost before = *params;
    params.replace(id, p);
    proof {
        lemma_all_items_kept(&before, &params, id.index as int, |x: Parameter| x.wf());
    }
}

impl Engine {
    pub open spec fn wf(&self) -> bool {
        &&& self.sounds.wf()
        &&& self.voices.wf()
        &&& self.clocks.wf()
        &&& self.mixer.wf()
        &&& self.commands.wf()
        &&& self.events.wf()
        &&& self.sequences.wf()
        &&& sequences_wf(&self.sequences)
        &&& self.parameters.wf()
        &&& params_wf(&self.parameters)
        &&& voices_wf(&self.voices)
        &&& clocks_wf(&self.clocks)
        &&& self.mixer.spec_block_len() == 2 * self.block_frames
        &&& self.block_frames <= 0x7fff_ffff
    }

    /// An engine with room for `capacity` resources of each kind and
    /// `capacity` sub tracks, `capacity` pending commands, and blocks of
    /// `block_frames` frames.
    pub fn new(block_frames: u32, capacity: usize) -> (r: Engine)
        requires
            capacity < usize::MAX,
            block_frames <= 0x7fff_ffff,
        ensures
            r.wf(),
            r.block_frames == block_frames,
            r.commands@.len() == 0,
            r.commands.spec_capacity() == capacity,
            r.events@.len() == 0,
            r.events.spec_capacity() == capacity,
            r.voices.capacity() == capacity,
            r.mixer.spec_subs().len() == 0,
    {
        let voices: Arena<Voice> = Arena::new(capacity);
        let clocks: Arena<Clock> = Arena::new(capacity);
        let sequences: Arena<Sequence> = Arena::new(capacity);
        let parameters: Arena<Parameter> = Arena::new(capacity);
        let r = Engine {
            parameters,
            sounds: Arena::new(capacity),
            voices,
            clocks,
            sequences,
            mixer: Mixer::new(2 * (block_frames as usize), capacity),
            commands: CommandQueue::new(capacity),
            events: CommandQueue::new(capacity),
            block_frames,
        };
        assert forall|i: int| 0 <= i < r.parameters.capacity() implies
            ((#[trigger] r.parameters.slots()[i]).item matches Some(p) ==> p.wf()) by {
            assert(parameters.slots()[i].item is None);
        }
        assert forall|i: int| 0 <= i < r.sequences.capacity() implies
            ((#[trigger] r.sequences.slots()[i]).item matches Some(q) ==> q.wf()) by {
            assert(sequences.slots()[i].item is None);
        }
        assert forall|i: int| 0 <= i < r.voices.capacity() implies
            ((#[trigger] r.voices.slots()[i]).item matches Some(v) ==> v.instance.wf()) by {
            assert(voices.slots()[i].item is None);
        }
        assert forall|i: int| 0 <= i < r.clocks.capacity() implies
            ((#[trigger] r.clocks.slots()[i]).item matches Some(c) ==> c.wf()) by {
            assert(clocks.slots()[i].item is None);
        }
        r
    }

    /// Queues `command` for the next block, or refuses it when the queue is
    /// full.
    pub fn send(&mut self, command: Command) -> (r: Result<(), QueueError>)
        requires
            old(self).wf(),
        ensures
            final(self).wf(),
            r is Err <==> old(self).commands@.len() == old(self).commands.spec_capacity(),
            r is Ok ==> final(self).commands@ == old(self).commands@.push(command),
            r is Err ==> final(self).commands@ == old(self).commands@,
    {
        self.commands.push(command)
    }

    /// Adds a sound.
    pub fn add_sound(&mut self, sound: Sound) -> (r: Result<ResourceId, EngineError>)
        requires
            old(self).wf(),
        ensures
            final(self).wf(),
            r is Err <==> !old(self).sounds.has_room(),
            r is Err ==> final(self).sounds.slots() == old(self).sounds.slots(),
            r matches Ok(id) ==> final(self).sounds.is_live(id)
                && final(self).sounds.slots()[id.index as int].item == Some(sound)
                && forall|i: int| 0 <= i < old(self).sounds.capacity() && i != id.index
                    ==> final(self).sounds.slots()[i] == old(self).sounds.slots()[i],
            final(self).voices == old(self).voices,
            final(self).mixer == old(self).mixer,
    {
        match self.sounds.insert(sound) {
            Ok(id) => Ok(id),
            Err(ArenaError::CapacityExceeded) => Err(EngineError::CapacityExceeded),
        }
    }

    /// Adds a parameter holding `value`.
    pub fn add_parameter(&mut self, value: i32) -> (r: Result<ResourceId, EngineError>)
        requires
            old(self).wf(),
        ensures
            final(self).wf(),
            r is Err <==> !old(self).parameters.has_room(),
            r matches Ok(id) ==> final(self).parameters.is_live(id)
                && final(self).parameters.slots()[id.index as int].item->Some_0.current() == value,
    {
        let ghost before = self.parameters;
        match self.parameters.insert(Parameter::new(value)) {
            Ok(id) => {
                proof {
                    lemma_all_items_kept(&before, &self.parameters, id.index as int, |x: Parameter| x.wf());
                }
                Ok(id)
            },
            Err(ArenaError::CapacityExceeded) => Err(EngineError::CapacityExceeded),
        }
    }

    /// Adds a clock, stopped at tick zero, gaining `speed` sub-ticks a frame.
    pub fn add_clock(&mut self, speed: u32) -> (r: Result<ResourceId, EngineError>)
        requires
            old(self).wf(),
        ensures
            final(self).wf(),
            speed > i32::MAX ==> r == Err::<ResourceId, EngineError>(EngineError::BadSpeed),
            speed <= i32::MAX ==> (r is Err <==> !old(self).clocks.has_room()),
            r is Err ==> final(self).clocks.slots() == old(self).clocks.slots(),
            r matches Ok(id) ==> final(self).clocks.is_live(id)
                && clock_at(&final(self).clocks, id).state == ClockState::Stopped
                && clock_at(&final(self).clocks, id).subticks == 0
                && clock_at(&final(self).clocks, id).speed.current() == speed
                && clock_at(&final(self).clocks, id).speed.tween is None
                && forall|i: int| 0 <= i < old(self).clocks.capacity() && i != id.index
                    ==> final(self).clocks.slots()[i] == old(self).clocks.slots()[i],
    {
        if speed > i32::MAX as u32 {
            return Err(EngineError::BadSpeed);
        }
        let ghost before = self.clocks;
        match self.clocks.insert(Clock::new(speed)) {
            Ok(id) => {
                proof {
                    lemma_all_items_kept(&before, &self.clocks, id.index as int, |x: Clock| x.wf());
                }
                Ok(id)
            },
            Err(ArenaError::CapacityExceeded) => Err(EngineError::CapacityExceeded),
        }
    }

    /// Starts an instance of sound `sound`. It is refused when the sound is
    /// gone, when the settings do not fit the sound, or when no slot is left.
    pub fn play(&mut self, sound: ResourceId, settings: InstanceSettings) -> (r: Result<ResourceId, EngineError>)
        requires
            old(self).wf(),
        ensures
            final(self).wf(),
            r is Ok <==> old(self).sounds.is_live(sound)
                && settings_fit(settings, sound_len(&old(self).sounds, sound),
                    old(self).sounds.slots()[sound.index as int].item->Some_0.loop_start)
                && old(self).voices.has_room(),
            !old(self).sounds.is_live(sound) ==> r == Err::<ResourceId, EngineError>(EngineError::BadInstance),
            r is Err ==> final(self).voices.slots() == old(self).voices.slots(),
            final(self).sounds == old(self).sounds,
            final(self).mixer == old(self).mixer,
            final(self).commands == old(self).commands,
            r matches Ok(id) ==> {
                let v = final(self).voices.slots()[id.index as int].item->Some_0;
                &&& final(self).voices.is_live(id)
                &&& forall|i: int| 0 <= i < old(self).voices.capacity() && i != id.index
                    ==> final(self).voices.slots()[i] == old(self).voices.slots()[i]
                &&& v.sound == sound
                &&& v.instance.position == settings.start_position
                &&& v.instance.duration == sound_len(&old(self).sounds, sound)
                &&& v.instance.loop_start == crate::instance::loop_start_for(settings.loop_start,
                    old(self).sounds.slots()[sound.index as int].item->Some_0.loop_start)
                &&& v.volume == settings.volume
                &&& v.start_time == settings.start_time
                &&& v.panning == settings.panning
                &&& v.instance.panning == crate::instance::initial_pan(settings.panning)
                &&& v.instance.volume == crate::instance::initial_gain(settings.volume)
                &&& v.instance.playback_rate == crate::instance::initial_gain(settings.playback_rate)
                &&& v.playback_rate == settings.playback_rate
                &&& v.instance.track == settings.track
                &&& v.instance.state == PlaybackState::Playing
                &&& v.instance.fade.settles_on() == UNITY_GAIN
                &&& settings.fade_in_duration == 0 ==> v.instance.fade_gain() == UNITY_GAIN
                &&& settings.fade_in_duration > 0 ==> v.instance.fade_gain() == 0
            },
    {
        let (duration, loop_start) = match self.sounds.get(sound) {
            Some(s) => (s.samples.len() as u64, s.loop_start),
            None => {
                return Err(EngineError::BadInstance);
            },
        };
        let instance = match Instance::new(settings, duration, loop_start) {
            Some(i) => i,
            None => {
                return Err(EngineError::BadInstance);
            },
        };
        let ghost before = self.voices;
        match self.voices.insert(Voice { sound, start_time: settings.start_time, volume: settings.volume, panning: settings.panning, playback_rate: settings.playback_rate, instance }) {
            Ok(id) => {
                proof {
                    lemma_all_items_kept(&before, &self.voices, id.index as int, |x: Voice| x.instance.wf());
                }
                Ok(id)
            },
            Err(ArenaError::CapacityExceeded) => Err(EngineError::CapacityExceeded),
        }
    }
}

impl Engine {
    /// Adds a sequence on clock `clock`, its cursor at the start. It is
    /// refused when its steps are not in the order of their ticks, or when no
    /// slot is left.
    pub fn add_sequence(&mut self, clock: ResourceId, steps: Vec<Step>) -> (r: Result<ResourceId, EngineError>)
        requires
            old(self).wf(),
        ensures
            final(self).wf(),
            !crate::sequence::sorted_by_tick(steps@) ==> r == Err::<ResourceId, EngineError>(EngineError::BadSequence),
            crate::sequence::sorted_by_tick(steps@) ==> (r is Err <==> !old(self).sequences.has_room()),
            r is Err ==> final(self).sequences.slots() == old(self).sequences.slots(),
            r matches Ok(id) ==> final(self).sequences.is_live(id)
                && final(self).sequences.slots()[id.index as int].item->Some_0.clock == clock
                && final(self).sequences.slots()[id.index as int].item->Some_0.steps@ == steps@
                && final(self).sequences.slots()[id.index as int].item->Some_0.cursor == 0
                && forall|i: int| 0 <= i < old(self).sequences.capacity() && i != id.index
                    ==> final(self).sequences.slots()[i] == old(self).sequences.slots()[i],
    {
        let sequence = match Sequence::new(clock, steps) {
            Some(q) => q,
            None => {
                return Err(EngineError::BadSequence);
            },
        };
        let ghost before = self.sequences;
        match self.sequences.insert(sequence) {
            Ok(id) => {
                proof {
                    lemma_all_items_kept(&before, &self.sequences, id.index as int, |x: Sequence| x.wf());
                }
                Ok(id)
            },
            Err(ArenaError::CapacityExceeded) => Err(EngineError::CapacityExceeded),
        }
    }

    /// Fires the steps of every sequence on `clock` whose ticks are in
    /// `fired`: instance actions are applied as commands, custom events go
    /// to the outgoing queue, or are dropped when it is full.
    fn run_sequences(&mut self, clock: ResourceId, fired: TickRange)
        requires
            old(self).wf(),
        ensures
            final(self).wf(),
            final(self).commands == old(self).commands,
            final(self).block_frames == old(self).block_frames,
            final(self).clocks.slots() == old(self).clocks.slots(),
            final(self).voices.capacity() == old(self).voices.capacity(),
            final(self).mixer == old(self).mixer,
            final(self).sounds == old(self).sounds,
            final(self).parameters.slots() == old(self).parameters.slots(),
            sequences_idle(&old(self).sequences) ==> final(self).voices == old(self).voices
                && sequences_idle(&final(self).sequences),
    {
        let ns = self.sequences.capacity_of();
        let mut s: usize = 0;
        while s < ns
            invariant
                self.wf(),
                ns == self.sequences.capacity(),
                self.commands == old(self).commands,
                self.block_frames == old(self).block_frames,
                self.clocks.slots() == old(self).clocks.slots(),
                self.voices.capacity() == old(self).voices.capacity(),
                self.mixer == old(self).mixer,
                self.sounds == old(self).sounds,
                self.parameters.slots() == old(self).parameters.slots(),
                sequences_idle(&old(self).sequences) ==> self.voices == old(self).voices
                    && sequences_idle(&self.sequences),
            decreases ns - s,
        {
            match self.sequences.id_at(s) {
                Some(id) => {
                    if self.sequences.get(id).unwrap().clock == clock {
                        let ghost before = self.sequences;
                        let placeholder = Sequence { clock, steps: Vec::new(), cursor: 0 };
                        let mut sequence = self.sequences.replace(id, placeholder).unwrap();
                        assert(sequence.wf());
                        let ghost idle_before = sequence.cursor >= sequence.steps@.len();
                        let actions = sequence.fire(fired);
                        self.sequences.replace(id, sequence);
                        proof {
                            lemma_all_items_kept(&before, &self.sequences, id.index as int, |x: Sequence| x.wf());
                            if sequences_idle(&old(self).sequences) {
                                assert(idle_before);
                                lemma_all_items_kept(&before, &self.sequences, id.index as int,
                                    |x: Sequence| x.cursor >= x.steps@.len());
                            }
                        }
                        let mut a: usize = 0;
                        while a < actions.len()
                            invariant
                                self.wf(),
                                ns == self.sequences.capacity(),
                                self.commands == old(self).commands,
                                self.block_frames == old(self).block_frames,
                                self.clocks.slots() == old(self).clocks.slots(),
                                self.voices.capacity() == old(self).voices.capacity(),
                                self.mixer == old(self).mixer,
                                self.sounds == old(self).sounds,
                                self.parameters.slots() == old(self).parameters.slots(),
                                sequences_idle(&old(self).sequences) ==> actions@.len() == 0
                                    && self.voices == old(self).voices && sequences_idle(&self.sequences),
                            decreases actions@.len() - a,
                        {
                            match actions[a] {
                                SequenceAction::StopInstance(i, f) => {
                                    self.apply(Command::Instance(InstanceCommand::Stop(i, f)));
                                },
                                SequenceAction::PauseInstance(i, f) => {
                                    self.apply(Command::Instance(InstanceCommand::Pause(i, f)));
                                },
                                SequenceAction::ResumeInstance(i, f) => {
                                    self.apply(Command::Instance(InstanceCommand::Resume(i, f)));
                                },
                                SequenceAction::Emit(e) => {
                                    let _ = self.events.push(e);
                                },
                            }
                            a = a + 1;
                        }
                    }
                },
                None => {},
            }
            s = s + 1;
        }
    }

    /// Takes every custom event emitted so far, oldest first.
    pub fn take_events(&mut self) -> (r: Vec<u32>)
        requires
            old(self).wf(),
        ensures
            final(self).wf(),
            r@ == old(self).events@,
            final(self).events@.len() == 0,
    {
        self.events.drain()
    }

    /// Applies one command. A command on an identifier that names nothing
    /// any more is ignored.
    pub fn apply(&mut self, command: Command)
        requires
            old(self).wf(),
        ensures
            final(self).wf(),
            applied(&*old(self), &*final(self), command),
    {
        match command {
            Command::Instance(c) => {
                let id = match c {
                    InstanceCommand::Pause(id, _) => id,
                    InstanceCommand::Resume(id, _) => id,
                    InstanceCommand::Stop(id, _) => id,
                    InstanceCommand::SetVolume(id, _) => id,
                    InstanceCommand::SetPlaybackRate(id, _) => id,
                    InstanceCommand::SeekTo(id, _) => id,
                };
                let mut v = match self.voices.get(id) {
                    Some(v) => *v,
                    None => {
                        return;
                    },
                };
                assert(v.instance.wf());
                match c {
                    InstanceCommand::Pause(_, frames) => v.instance.pause(frames),
                    InstanceCommand::Resume(_, frames) => v.instance.resume(frames),
                    InstanceCommand::Stop(_, frames) => v.instance.stop(frames),
                    InstanceCommand::SetVolume(_, volume) => {
                        v.volume = volume;
                    },
                    InstanceCommand::SetPlaybackRate(_, rate) => {
                        v.playback_rate = rate;
                    },
                    InstanceCommand::SeekTo(_, position) => v.instance.seek_to(position),
                }
                put_voice(&mut self.voices, id, v);
            },
            Command::Clock(c) => {
                let id = match c {
                    ClockCommand::Start(id) => id,
                    ClockCommand::Pause(id) => id,
                    ClockCommand::Stop(id) => id,
                    ClockCommand::SetSpeed(id, _, _) => id,
                };
                let mut clock = match self.clocks.get(id) {
                    Some(c) => *c,
                    None => {
                        return;
                    },
                };
                assert(clock.wf());
                match c {
                    ClockCommand::Start(_) => clock.start(),
                    ClockCommand::Pause(_) => clock.pause(),
                    ClockCommand::Stop(_) => clock.stop(),
                    ClockCommand::SetSpeed(_, speed, frames) => {
                        if speed > i32::MAX as u32 {
                            return;
                        }
                        clock.set_speed(speed, frames);
                    },
                }
                put_clock(&mut self.clocks, id, clock);
            },
            Command::Remove(kind, id) => {
                match kind {
                    ResourceKind::Sound => {
                        self.sounds.remove(id);
                    },
                    ResourceKind::Instance => {
                        let ghost before = self.voices;
                        self.voices.remove(id);
                        proof {
                            lemma_all_items_kept(&before, &self.voices, id.index as int, |x: Voice| x.instance.wf());
                        }
                    },
                    ResourceKind::Parameter => {
                        let ghost before = self.parameters;
                        self.parameters.remove(id);
                        proof {
                            lemma_all_items_kept(&before, &self.parameters, id.index as int, |x: Parameter| x.wf());
                        }
                    },
                    ResourceKind::Clock => {
                        let ghost before = self.clocks;
                        self.clocks.remove(id);
                        proof {
                            lemma_all_items_kept(&before, &self.clocks, id.index as int, |x: Clock| x.wf());
                        }
                    },
                    ResourceKind::Sequence => {
                        let ghost before = self.sequences;
                        self.sequences.remove(id);
                        proof {
                            lemma_all_items_kept(&before, &self.sequences, id.index as int, |x: Sequence| x.wf());
                        }
                    },
                }
            },
            Command::Mixer(MixerCommand::SetTrackRoute(from, to, volume)) => {
                let _ = self.mixer.set_route(from, to, volume);
            },
            Command::Mixer(MixerCommand::SetTrackVolume(t, volume)) => {
                self.mixer.set_track_volume(t, volume);
            },
            Command::Parameter(ParameterCommand::SetValue(id, target, frames)) => {
                let mut p = match self.parameters.get(id) {
                    Some(p) => *p,
                    None => {
                        return;
                    },
                };
                assert(p.wf());
                p.set(target, frames, Easing::Linear);
                put_param(&mut self.parameters, id, p);
            },
        }
    }

    /// Renders one block: applies every queued command in order, moves every
    /// parameter's transition on, moves every clock on and fires the sequence steps on its crossed ticks, plays every instance into its track, at the fade
    /// gain it reaches by the end of the block, and moves it on,
    /// removes the instances that stopped, and mixes the tracks. The block
    /// comes back; no stopped instance is left, and the queue is empty.
    pub fn process(&mut self) -> (r: Vec<i32>)
        requires
            old(self).wf(),
        ensures
            final(self).wf(),
            r@.len() == 2 * old(self).block_frames,
            final(self).commands@.len() == 0,
            none_stopped(&final(self).voices),
            exists|a: Engine, b: Engine, c: Engine|
                #![trigger applied_in_order(a, b, old(self).commands@), ticked(&b, &c, old(self).block_frames as nat)]
                {
                    &&& a.commands@.len() == 0 && a.voices == old(self).voices && a.clocks == old(self).clocks
                    &&& a.parameters == old(self).parameters && a.sequences == old(self).sequences
                    &&& a.sounds == old(self).sounds && a.mixer == old(self).mixer && a.events == old(self).events
                    &&& a.block_frames == old(self).block_frames
                    &&& applied_in_order(a, b, old(self).commands@)
                    &&& ticked(&b, &c, old(self).block_frames as nat)
                    &&& voices_played(&c, &*final(self), old(self).block_frames as nat, r@)
                },
    {
        let pending = self.commands.drain();
        let ghost start = *self;
        proof {
            assert(pending@.take(0) =~= Seq::<Command>::empty());
        }
        let mut c: usize = 0;
        while c < pending.len()
            invariant
                self.wf(),
                start.wf(),
                c <= pending@.len(),
                applied_in_order(start, *self, pending@.take(c as int)),
                self.commands@.len() == 0,
                self.block_frames == old(self).block_frames,
                self.mixer.spec_buffers() == old(self).mixer.spec_buffers(),
                self.mixer.spec_block_len() == old(self).mixer.spec_block_len(),
            decreases pending@.len() - c,
        {
            let ghost prev = *self;
            self.apply(pending[c]);
            proof {
                assert(pending@.take(c as int + 1).drop_last() =~= pending@.take(c as int));
                assert(pending@.take(c as int + 1).last() == pending@[c as int]);
                assert(applied(&prev, &*self, pending@.take(c as int + 1).last()));
            }
            c = c + 1;
        }
        proof {
            assert(pending@.take(pending@.len() as int) =~= pending@);
        }
        let frames = self.block_frames;
        let ghost mixer_now = self.mixer;
        let ghost b = *self;
        let np = self.parameters.capacity_of();
        let mut q: usize = 0;
        while q < np
            invariant
                self.wf(),
                b.wf(),
                np == self.parameters.capacity(),
                np == b.parameters.capacity(),
                q <= np,
                self.voices == b.voices,
                self.sequences == b.sequences,
                self.sounds == b.sounds,
                forall|j: int| 0 <= j < q ==> #[trigger] param_stepped(b.parameters.slots()[j],
                    self.parameters.slots()[j], frames as nat),
                forall|j: int| q <= j < np ==> #[trigger] self.parameters.slots()[j] == b.parameters.slots()[j],
                self.commands@.len() == 0,
                self.block_frames == frames,
                frames == old(self).block_frames,
                self.mixer == mixer_now,
                self.sounds == b.sounds,
            decreases np - q,
        {
            match self.parameters.id_at(q) {
                Some(id) => {
                    let ghost before = self.parameters;
                    let mut p = *self.parameters.get(id).unwrap();
                    p.advance(frames);
                    put_param(&mut self.parameters, id, p);
                    proof {
                        assert(self.parameters.slots()[q as int].item == Some(p));
                        assert forall|j: int| 0 <= j < q + 1 implies #[trigger] param_stepped(b.parameters.slots()[j],
                            self.parameters.slots()[j], frames as nat) by {
                            if j != q {
                                assert(self.parameters.slots()[j] == before.slots()[j]);
                            }
                        }
                        assert forall|j: int| q + 1 <= j < np implies
                            #[trigger] self.parameters.slots()[j] == b.parameters.slots()[j] by {
                            assert(self.parameters.slots()[j] == before.slots()[j]);
                        }
                    }
                },
                None => {
                    proof {
                        assert(param_stepped(b.parameters.slots()[q as int], self.parameters.slots()[q as int], frames as nat));
                    }
                },
            }
            q = q + 1;
        }
        let ghost stepped_params = self.parameters;
        let nc = self.clocks.capacity_of();
        let mut k: usize = 0;
        while k < nc
            invariant
                self.wf(),
                b.wf(),
                self.parameters.slots() == stepped_params.slots(),
                np == b.parameters.capacity(),
                forall|j: int| 0 <= j < np ==> #[trigger] param_stepped(b.parameters.slots()[j],
                    stepped_params.slots()[j], frames as nat),
                stepped_params.capacity() == np,
                self.voices.capacity() == b.voices.capacity(),
                self.sounds == b.sounds,
                sequences_idle(&b.sequences) ==> self.voices == b.voices && sequences_idle(&self.sequences),
                nc == self.clocks.capacity(),
                self.commands@.len() == 0,
                self.block_frames == frames,
                frames == old(self).block_frames,
                self.mixer == mixer_now,
                self.sounds == b.sounds,
            decreases nc - k,
        {
            match self.clocks.id_at(k) {
                Some(id) => {
                    let mut clock = *self.clocks.get(id).unwrap();
                    let fired = clock.advance(frames);
                    put_clock(&mut self.clocks, id, clock);
                    self.run_sequences(id, fired);
                },
                None => {},
            }
            k = k + 1;
        }
        let ghost c0 = *self;
        proof {
            assert(ticked(&b, &c0, frames as nat));
        }
        let nv = self.voices.capacity_of();
        let ghost n_subs: nat = self.mixer.spec_subs().len();
        let mut i: usize = 0;
        while i < nv
            invariant
                self.wf(),
                c0.wf(),
                nv == self.voices.capacity(),
                nv == c0.voices.capacity(),
                i <= nv,
                self.commands@.len() == 0,
                self.block_frames == frames,
                frames == old(self).block_frames,
                self.sounds == c0.sounds,
                self.parameters == c0.parameters,
                self.clocks == c0.clocks,
                self.mixer.spec_subs() == c0.mixer.spec_subs(),
                self.mixer.spec_main() == c0.mixer.spec_main(),
                self.mixer.spec_block_len() == c0.mixer.spec_block_len(),
                self.mixer.spec_max_sub_tracks() == c0.mixer.spec_max_sub_tracks(),
                n_subs == c0.mixer.spec_subs().len(),
                self.mixer.spec_buffers() == deposited(c0.voices.slots(), &c0.sounds, &c0.parameters, &c0.clocks, frames as nat,
                    c0.mixer.spec_buffers(), i as nat, n_subs, c0.mixer.spec_block_len()),
                forall|j: int| 0 <= j < i ==> #[trigger] stepped(c0.voices.slots()[j], self.voices.slots()[j], &c0.parameters, &c0.clocks, frames as nat),
                forall|j: int| i <= j < nv ==> #[trigger] self.voices.slots()[j] == c0.voices.slots()[j],
                forall|j: int| 0 <= j < i ==>
                    ((#[trigger] self.voices.slots()[j]).item matches Some(v)
                        ==> v.instance.state != PlaybackState::Stopped),
            decreases nv - i,
        {
            let ghost before = self.voices;
            let ghost bufs = self.mixer.spec_buffers();
            proof {
                assert(self.voices.slots()[i as int] == c0.voices.slots()[i as int]);
            }
            match self.voices.id_at(i) {
                Some(id) => {
                    let mut v = *self.voices.get(id).unwrap();
                    assert(v.instance.wf());
                    let ghost v_stored = v;
                    let hold: bool = match v.start_time {
                        StartTime::ClockTime(clock, tick) => match self.clocks.get(clock) {
                            Some(c) => c.subticks / SUBTICKS_PER_TICK < tick
                                && v.instance.state != PlaybackState::Stopped,
                            None => false,
                        },
                        StartTime::Immediate => false,
                    };
                    if hold {
                        proof {
                            assert(held(v_stored, &c0.clocks));
                            assert(self.mixer.spec_buffers() == deposited(c0.voices.slots(), &c0.sounds, &c0.parameters,
                                &c0.clocks, frames as nat, c0.mixer.spec_buffers(), (i + 1) as nat, n_subs,
                                c0.mixer.spec_block_len()));
                            assert(stepped(c0.voices.slots()[i as int], self.voices.slots()[i as int], &c0.parameters,
                                &c0.clocks, frames as nat));
                        }
                    } else {
                    v.start_time = StartTime::Immediate;
                        let fallback: i32 = if v.instance.volume > i32::MAX as u32 {
                            i32::MAX
                        } else {
                            v.instance.volume as i32
                        };
                        let g = v.volume.resolve(&self.parameters, fallback);
                        let pan = v.panning.resolve(&self.parameters, v.instance.panning as i32);
                        let rate_fallback: i32 = if v.instance.playback_rate > i32::MAX as u32 {
                            i32::MAX
                        } else {
                            v.instance.playback_rate as i32
                        };
                        let rate = v.playback_rate.resolve(&self.parameters, rate_fallback);
                        v.instance.set_volume(if g < 0 { 0 } else { g as u32 });
                        v.instance.panning = if pan < 0 { 0 } else if pan > UNITY_GAIN as i32 { UNITY_GAIN } else { pan as u32 };
                        v.instance.set_playback_rate(if rate < 0 { 0 } else { rate as u32 });
                        assert(v == refreshed(released(v_stored), &c0.parameters));
                        match self.sounds.get(v.sound) {
                            Some(sound) => {
                                if sound.samples.len() as u64 == v.instance.duration {
                                    let mut faded_instance = v.instance;
                                    faded_instance.fade.advance(frames);
                                    let block = faded_instance.render(&sound.samples, frames);
                                    proof {
                                        assert(faded_instance == faded(v.instance, frames as nat));
                                        assert(block@ =~= voice_block(refreshed(released(v_stored), &c0.parameters), &c0.sounds, frames as nat)->Some_0);
                                    }
                                    self.mixer.add_input(v.instance.track, &block);
                                    proof {
                                        assert(self.mixer.spec_buffers() =~= added(bufs, v.instance.track, block@,
                                            n_subs, c0.mixer.spec_block_len()));
                                    }
                                }
                            },
                            None => {},
                        }
                        proof {
                            assert(self.mixer.spec_buffers() == deposited(c0.voices.slots(), &c0.sounds, &c0.parameters, &c0.clocks, frames as nat,
                                c0.mixer.spec_buffers(), (i + 1) as nat, n_subs, c0.mixer.spec_block_len()));
                        }
                        let ghost v0 = v;
                        v.instance.advance(frames);
                        if v.instance.state == PlaybackState::Stopped {
                            self.voices.remove(id);
                            proof {
                                lemma_all_items_kept(&before, &self.voices, id.index as int, |x: Voice| x.instance.wf());
                            }
                        } else {
                            put_voice(&mut self.voices, id, v);
                            proof {
                                assert(v == (Voice { instance: advance_spec(v0.instance, frames as nat), ..v0 }));
                            }
                        }
                        proof {
                            assert(stepped(c0.voices.slots()[i as int], self.voices.slots()[i as int], &c0.parameters, &c0.clocks, frames as nat));
                            assert forall|j: int| 0 <= j < i + 1 implies
                                #[trigger] stepped(c0.voices.slots()[j], self.voices.slots()[j], &c0.parameters, &c0.clocks, frames as nat) by {
                                if j != i {
                                    assert(self.voices.slots()[j] == before.slots()[j]);
                                }
                            }
                            assert forall|j: int| i + 1 <= j < nv implies
                                #[trigger] self.voices.slots()[j] == c0.voices.slots()[j] by {
                                assert(self.voices.slots()[j] == before.slots()[j]);
                            }
                            assert forall|j: int| 0 <= j < i + 1 implies
                                ((#[trigger] self.voices.slots()[j]).item matches Some(w)
                                    ==> w.instance.state != PlaybackState::Stopped) by {
                                if j != i {
                                    assert(self.voices.slots()[j] == before.slots()[j]);
                                }
                            }
                        }
                    }
                },
                None => {
                    proof {
                        assert(self.mixer.spec_buffers() == deposited(c0.voices.slots(), &c0.sounds, &c0.parameters, &c0.clocks, frames as nat,
                            c0.mixer.spec_buffers(), (i + 1) as nat, n_subs, c0.mixer.spec_block_len()));
                        assert(stepped(c0.voices.slots()[i as int], self.voices.slots()[i as int], &c0.parameters, &c0.clocks, frames as nat));
                    }
                },
            }
            i = i + 1;
        }
        let r = self.mixer.render();
        proof {
            assert(voices_played(&c0, &*self, frames as nat, r@));
        }
        r
    }
}

} // verus!
