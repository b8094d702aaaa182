//! Sound instances: one playing occurrence of a sound, with its position,
//! loop, volume, and the fades of pausing, resuming and stopping.
//! Positions and durations count frames.
use crate::arena::ResourceId;
use crate::mixer::TrackId;
use crate::sample::{scale, scale_frac, scaled, scaled_frac, UNITY_GAIN};
use crate::tween::{Value, advanced, level_den, level_num, lemma_tween_between, value_at, Easing, Parameter, Tween};
use vstd::prelude::*;

verus! {

/// Where a looping instance goes back to when it reaches the end.
#[derive(Debug, Clone, Copy, PartialEq, Eq, Structural)]
pub enum InstanceLoopStart {
    /// The loop start that the sound itself suggests.
    DefaultForSoundData,
    /// This frame.
    Custom(u64),
    /// No loop: the instance stops at the end.
    NoLoop,
}

/// The loop start that `l` picks, given the sound's own.
pub open spec fn loop_start_for(l: InstanceLoopStart, sound_default: Option<u64>) -> Option<u64> {
    match l {
        InstanceLoopStart::DefaultForSoundData => sound_default,
        InstanceLoopStart::Custom(f) => Some(f),
        InstanceLoopStart::NoLoop => None,
    }
}

impl InstanceLoopStart {
    /// The loop start this setting picks, given the sound's own.
    pub fn as_option(self, sound_default: Option<u64>) -> (r: Option<u64>)
        ensures
            r == loop_start_for(self, sound_default),
    {
        match self {
            InstanceLoopStart::DefaultForSoundData => sound_default,
            InstanceLoopStart::Custom(f) => Some(f),
            InstanceLoopStart::NoLoop => None,
        }
    }

    /// `Custom` for a frame, `None` for none.
    pub fn from_option(loop_start: Option<u64>) -> (r: InstanceLoopStart)
        ensures
            r == match loop_start {
                Some(f) => InstanceLoopStart::Custom(f),
                None => InstanceLoopStart::NoLoop,
            },
    {
        match loop_start {
            Some(f) => InstanceLoopStart::Custom(f),
            None => InstanceLoopStart::NoLoop,
        }
    }
}

impl Default for InstanceLoopStart {
    fn default() -> (r: InstanceLoopStart)
        ensures
            r == InstanceLoopStart::DefaultForSoundData,
    {
        InstanceLoopStart::DefaultForSoundData
    }
}

/// The gain an instance starts with: a fixed volume, held at zero from
/// below; a volume that follows a parameter is resolved every block and
/// starts at full.
pub open spec fn initial_gain(v: Value) -> u32 {
    match v {
        Value::Fixed(x) => if x < 0 { 0 } else { x as u32 },
        Value::Parameter(_) => UNITY_GAIN,
    }
}

/// The exact level of a fade gain, as a numerator and a denominator.
fn fade_level(p: &Parameter) -> (r: (u128, u128))
    requires
        fade_in_range(*p),
    ensures
        r.0 as int == level_num(*p),
        r.1 as int == level_den(*p),
        0 < r.1 < 0x1_0000_0000_0000_0000u128,
        r.0 <= r.1 * 0x1_0000_0000u128,
{
    match &p.tween {
        Some(tw) => {
            if tw.elapsed < tw.duration {
                let t = tw.elapsed as u128;
                let d = tw.duration as u128;
                assert(t * t <= d * d) by (nonlinear_arith)
                    requires t < d;
                assert((d - t) * (d - t) <= d * d) by (nonlinear_arith)
                    requires t < d;
                assert(d * d < 0x1_0000_0000_0000_0000u128) by (nonlinear_arith)
                    requires d < 0x1_0000_0000u128;
                assert(0 < d * d) by (nonlinear_arith)
                    requires t < d;
                assert(d <= d * d) by (nonlinear_arith)
                    requires t < d;
                let (en, ed): (u128, u128) = match tw.easing {
                    Easing::Linear => (t, d),
                    Easing::InQuad => (t * t, d * d),
                    Easing::OutQuad => (d * d - (d - t) * (d - t), d * d),
                };
                let a = tw.start as u128;
                let b = tw.target as u128;
                assert(a * (ed - en) + b * en <= 65536 * ed) by (nonlinear_arith)
                    requires a <= 65536, b <= 65536, en <= ed;
                let num = a * (ed - en) + b * en;
                assert(num as int == (a as int) * (ed as int) + ((b as int) - (a as int)) * (en as int))
                    by (nonlinear_arith)
                    requires num == a * (ed - en) + b * en, en <= ed;
                (num, ed)
            } else {
                (tw.target as u128, 1)
            }
        },
        None => (p.value as u128, 1),
    }
}

/// The panning that leaves both channels at full gain.
pub const CENTRE: u32 = 32768;

/// The panning an instance starts with: a fixed panning held within
/// `[0, UNITY_GAIN]`; a panning that follows a parameter is resolved every
/// block and starts at the centre.
pub open spec fn initial_pan(v: Value) -> u32 {
    match v {
        Value::Fixed(x) => if x < 0 { 0 } else if x > UNITY_GAIN { UNITY_GAIN } else { x as u32 },
        Value::Parameter(_) => CENTRE,
    }
}

/// The gain of the left channel at panning `p`: full up to the centre,
/// then falling to silence at the far right.
pub open spec fn left_gain(p: nat) -> nat {
    if p <= CENTRE { UNITY_GAIN as nat } else { (2 * (UNITY_GAIN - p)) as nat }
}

/// The gain of the right channel at panning `p`: rising from silence at
/// the far left to full at the centre.
pub open spec fn right_gain(p: nat) -> nat {
    if p >= CENTRE { UNITY_GAIN as nat } else { 2 * p }
}

/// When an instance starts.
#[derive(Debug, Clone, Copy, PartialEq, Eq, Structural)]
pub enum StartTime {
    /// In the next block.
    Immediate,
    /// When a clock reaches a tick.
    ClockTime(ResourceId, u64),
}

/// How an instance is to be played.
#[derive(Debug, Clone, Copy, PartialEq, Eq, Structural)]
pub struct InstanceSettings {
    pub start_time: StartTime,
    /// The first frame played.
    pub start_position: u64,
    /// A gain, in which `UNITY_GAIN` is full volume, fixed or following a
    /// parameter.
    pub volume: Value,
    /// Frames of the sound per frame of output, in which `UNITY_GAIN` is
    /// the sound's own speed.
    pub playback_rate: Value,
    pub loop_start: InstanceLoopStart,
    /// The track the instance plays into.
    pub track: TrackId,
    /// Frames over which the instance fades in from silence; none when zero.
    pub fade_in_duration: u32,
    /// Where the instance sits between the left (zero) and the right
    /// (`UNITY_GAIN`) channel, fixed or following a parameter.
    pub panning: Value,
    /// Plays the sound backwards.
    pub reverse: bool,
}

impl InstanceSettings {
    /// Immediate start at the first frame, full volume, normal speed, the
    /// sound's own loop, into the main track.
    pub fn new() -> (r: InstanceSettings)
        ensures
            r == (InstanceSettings {
                start_time: StartTime::Immediate,
                start_position: 0,
                volume: Value::Fixed(UNITY_GAIN as i32),
                playback_rate: Value::Fixed(UNITY_GAIN as i32),
                loop_start: InstanceLoopStart::DefaultForSoundData,
                track: TrackId::Main,
                fade_in_duration: 0,
                panning: Value::Fixed(CENTRE as i32),
                reverse: false,
            }),
    {
        InstanceSettings {
            start_time: StartTime::Immediate,
            start_position: 0,
            volume: Value::Fixed(UNITY_GAIN as i32),
            playback_rate: Value::Fixed(UNITY_GAIN as i32),
            loop_start: InstanceLoopStart::DefaultForSoundData,
            track: TrackId::Main,
            fade_in_duration: 0,
            panning: Value::Fixed(CENTRE as i32),
            reverse: false,
        }
    }

    pub fn start_time(self, start_time: StartTime) -> (r: InstanceSettings)
        ensures
            r == (InstanceSettings { start_time, ..self }),
    {
        InstanceSettings { start_time, ..self }
    }

    pub fn start_position(self, start_position: u64) -> (r: InstanceSettings)
        ensures
            r == (InstanceSettings { start_position, ..self }),
    {
        InstanceSettings { start_position, ..self }
    }

    pub fn volume(self, volume: Value) -> (r: InstanceSettings)
        ensures
            r == (InstanceSettings { volume, ..self }),
    {
        InstanceSettings { volume, ..self }
    }

    pub fn playback_rate(self, playback_rate: Value) -> (r: InstanceSettings)
        ensures
            r == (InstanceSettings { playback_rate, ..self }),
    {
        InstanceSettings { playback_rate, ..self }
    }

    pub fn loop_start(self, loop_start: InstanceLoopStart) -> (r: InstanceSettings)
        ensures
            r == (InstanceSettings { loop_start, ..self }),
    {
        InstanceSettings { loop_start, ..self }
    }

    pub fn panning(self, panning: Value) -> (r: InstanceSettings)
        ensures
            r == (InstanceSettings { panning, ..self }),
    {
        InstanceSettings { panning, ..self }
    }

    pub fn fade_in_duration(self, fade_in_duration: u32) -> (r: InstanceSettings)
        ensures
            r == (InstanceSettings { fade_in_duration, ..self }),
    {
        InstanceSettings { fade_in_duration, ..self }
    }

    /// Plays the sound backwards.
    pub fn reverse(self) -> (r: InstanceSettings)
        ensures
            r == (InstanceSettings { reverse: true, ..self }),
    {
        InstanceSettings { reverse: true, ..self }
    }

    pub fn track(self, track: TrackId) -> (r: InstanceSettings)
        ensures
            r == (InstanceSettings { track, ..self }),
    {
        InstanceSettings { track, ..self }
    }
}

impl Default for InstanceSettings {
    fn default() -> (r: InstanceSettings)
        ensures
            r == (InstanceSettings {
                start_time: StartTime::Immediate,
                start_position: 0,
                volume: Value::Fixed(UNITY_GAIN as i32),
                playback_rate: Value::Fixed(UNITY_GAIN as i32),
                loop_start: InstanceLoopStart::DefaultForSoundData,
                track: TrackId::Main,
                fade_in_duration: 0,
                panning: Value::Fixed(CENTRE as i32),
                reverse: false,
            }),
    {
        InstanceSettings::new()
    }
}

/// Where a frame position lands in a sound of `duration` frames: as it is
/// within the sound; past the end, wrapped into `[loop_start, duration)`
/// when looping, or nowhere when not.
pub open spec fn wrapped(pos: int, loop_start: Option<u64>, duration: int) -> Option<int> {
    if pos < duration {
        Some(pos)
    } else {
        match loop_start {
            Some(ls) => Some(ls + (pos - ls) % (duration - ls)),
            None => None,
        }
    }
}

/// Where a position that moved backwards to `pos` lands in a sound of
/// `duration` frames: as it is while it has not passed the start (or the
/// loop start, when looping); past it, wrapped into `[loop_start, duration)`
/// from the end when looping, or nowhere when not.
pub open spec fn wrapped_back(pos: int, loop_start: Option<u64>, duration: int) -> Option<int> {
    match loop_start {
        Some(ls) => if pos >= ls {
            Some(pos)
        } else {
            Some(duration - 1 - (ls - 1 - pos) % (duration - ls))
        },
        None => if pos >= 0 { Some(pos) } else { None },
    }
}

/// Wraps `pos` as `wrapped` does.
pub fn wrap_position(pos: u64, loop_start: Option<u64>, duration: u64) -> (r: Option<u64>)
    requires
        loop_start matches Some(ls) ==> ls < duration,
    ensures
        r matches Some(p) ==> Some(p as int) == wrapped(pos as int, loop_start, duration as int),
        r is None <==> wrapped(pos as int, loop_start, duration as int) is None,
        r matches Some(p) ==> p < duration,
{
    if pos < duration {
        Some(pos)
    } else {
        match loop_start {
            Some(ls) => Some(ls + (pos - ls) % (duration - ls)),
            None => None,
        }
    }
}

/// Where an instance is in its life.
#[derive(Debug, Clone, Copy, PartialEq, Eq, Structural)]
pub enum PlaybackState {
    Playing,
    /// Fading out; paused once the fade ends.
    Pausing,
    Paused,
    /// Fading back in; playing once the fade ends.
    Resuming,
    /// Fading out; stopped once the fade ends.
    Stopping,
    /// Done: the instance is to be removed.
    Stopped,
}

/// The longest sound an instance plays, in frames, so that a position
/// plus one block's advance always fits in a `u64`.
pub const MAX_FRAMES: u64 = 0xffff_0000_0000_0000;

/// One playing occurrence of a sound.
#[derive(Debug, Clone, Copy, PartialEq, Eq, Structural)]
pub struct Instance {
    pub position: u64,
    /// The fraction of a frame played past `position`, in units of
    /// `1 / UNITY_GAIN` frame, so that a rate that is not a whole number of
    /// frames per frame loses nothing from block to block.
    pub subframe: u32,
    pub duration: u64,
    pub loop_start: Option<u64>,
    pub playback_rate: u32,
    pub volume: u32,
    /// The fade gain, between silence and `UNITY_GAIN`.
    pub fade: Parameter,
    pub state: PlaybackState,
    pub track: TrackId,
    /// Where the instance sits between the channels, at most `UNITY_GAIN`.
    pub panning: u32,
    /// The position moves backwards.
    pub reverse: bool,
}

/// A fade gain lies between silence and `UNITY_GAIN`, and so do both ends
/// of its transition.
pub open spec fn fade_in_range(p: Parameter) -> bool {
    &&& p.wf()
    &&& 0 <= p.value <= UNITY_GAIN
    &&& p.tween matches Some(tw) ==> 0 <= tw.start <= UNITY_GAIN && 0 <= tw.target <= UNITY_GAIN
}

/// Whole sound frames covered by `frames` frames of output at `rate`,
/// starting `subframe` units into a frame.
pub open spec fn frames_covered(subframe: nat, frames: nat, rate: nat) -> int {
    (subframe + frames * rate) as int / UNITY_GAIN as int
}

/// The fraction of a frame left over after `frames` frames of output at
/// `rate`, starting `subframe` units into a frame.
pub open spec fn subframe_after(subframe: nat, frames: nat, rate: nat) -> int {
    (subframe + frames * rate) as int % UNITY_GAIN as int
}

/// The state that a state with a fade becomes once the fade is over.
pub open spec fn settled(s: PlaybackState) -> PlaybackState {
    match s {
        PlaybackState::Pausing => PlaybackState::Paused,
        PlaybackState::Resuming => PlaybackState::Playing,
        PlaybackState::Stopping => PlaybackState::Stopped,
        _ => s,
    }
}

/// Where `i` lands after moving `steps` whole frames in its direction.
pub open spec fn moved(i: Instance, steps: int) -> Option<int> {
    if i.reverse {
        wrapped_back(i.position - steps, i.loop_start, i.duration as int)
    } else {
        wrapped(i.position + steps, i.loop_start, i.duration as int)
    }
}

/// `i` after one block of `frames` output frames, as `Instance::advance`
/// leaves it.
pub open spec fn advance_spec(i: Instance, frames: nat) -> Instance {
    if !advances_in(i.state) {
        i
    } else {
        let fade = advanced(i.fade, frames);
        match moved(i, frames_covered(i.subframe as nat, frames, i.playback_rate as nat)) {
            Some(p) => Instance {
                position: p as u64,
                subframe: subframe_after(i.subframe as nat, frames, i.playback_rate as nat) as u32,
                fade,
                state: if fade.tween is None { settled(i.state) } else { i.state },
                ..i
            },
            None => Instance { fade, state: PlaybackState::Stopped, ..i },
        }
    }
}

/// The instance moves through its sound in this state.
pub open spec fn advances_in(s: PlaybackState) -> bool {
    s != PlaybackState::Paused && s != PlaybackState::Stopped
}

impl Instance {
    /// The position lies in the sound, the loop start before its end, and
    /// the fade in range.
    pub open spec fn wf(&self) -> bool {
        &&& self.position < self.duration
        &&& self.subframe < UNITY_GAIN
        &&& self.panning <= UNITY_GAIN
        &&& self.duration <= MAX_FRAMES
        &&& self.loop_start matches Some(ls) ==> ls < self.duration
        &&& fade_in_range(self.fade)
    }

    /// An instance of a sound of `duration` frames, whose loop start is
    /// `sound_loop_start` unless `settings` says otherwise. A start position
    /// past the end, or a loop start at or past it, is refused.
    pub fn new(settings: InstanceSettings, duration: u64, sound_loop_start: Option<u64>) -> (r: Option<Instance>)
        ensures
            r is Some <==> settings.start_position < duration && duration <= MAX_FRAMES
                && (loop_start_for(settings.loop_start, sound_loop_start) matches Some(ls) ==> ls < duration),
            r matches Some(i) ==> {
                &&& i.wf()
                &&& i.position == settings.start_position
                &&& i.duration == duration
                &&& i.loop_start == loop_start_for(settings.loop_start, sound_loop_start)
                &&& i.playback_rate == initial_gain(settings.playback_rate)
                &&& i.volume == initial_gain(settings.volume)
                &&& i.fade.settles_on() == UNITY_GAIN
                &&& settings.fade_in_duration == 0 ==> i.fade.current() == UNITY_GAIN && i.fade.tween is None
                &&& settings.fade_in_duration > 0 ==> i.fade.current() == 0 && i.fade.tween == Some(Tween {
                    start: 0, target: UNITY_GAIN as i32, duration: settings.fade_in_duration, elapsed: 0,
                    easing: Easing::Linear })
                &&& i.state == PlaybackState::Playing
                &&& i.track == settings.track
                &&& i.reverse == settings.reverse
                &&& i.panning == initial_pan(settings.panning)
            },
    {
        let loop_start = settings.loop_start.as_option(sound_loop_start);
        if settings.start_position >= duration || duration > MAX_FRAMES {
            return None;
        }
        match loop_start {
            Some(ls) => {
                if ls >= duration {
                    return None;
                }
            },
            None => {},
        }
        Some(Instance {
            position: settings.start_position,
            subframe: 0,
            duration,
            loop_start,
            playback_rate: match settings.playback_rate {
                Value::Fixed(x) => if x < 0 { 0 } else { x as u32 },
                Value::Parameter(_) => UNITY_GAIN,
            },
            volume: match settings.volume {
                Value::Fixed(x) => if x < 0 { 0 } else { x as u32 },
                Value::Parameter(_) => UNITY_GAIN,
            },
            fade: if settings.fade_in_duration == 0 {
                Parameter::new(UNITY_GAIN as i32)
            } else {
                Parameter {
                    value: 0,
                    tween: Some(Tween::new(0, UNITY_GAIN as i32, settings.fade_in_duration, Easing::Linear)),
                }
            },
            state: PlaybackState::Playing,
            track: settings.track,
            reverse: settings.reverse,
            panning: match settings.panning {
                Value::Fixed(x) => if x < 0 { 0 } else if x > UNITY_GAIN as i32 { UNITY_GAIN } else { x as u32 },
                Value::Parameter(_) => CENTRE,
            },
        })
    }

    /// Where the instance lands after moving `steps` whole frames in its
    /// direction.
    pub fn move_by(&self, steps: u64) -> (r: Option<u64>)
        requires
            self.wf(),
            steps < 0x1_0000_0000_0000u64,
        ensures
            r is None <==> moved(*self, steps as int) is None,
            r matches Some(p) ==> Some(p as int) == moved(*self, steps as int) && p < self.duration,
    {
        if !self.reverse {
            return wrap_position(self.position + steps, self.loop_start, self.duration);
        }
        match self.loop_start {
            Some(ls) => {
                if steps <= self.position && self.position - steps >= ls {
                    Some(self.position - steps)
                } else {
                    let deficit: u64 = ls + steps - self.position - 1;
                    Some(self.duration - 1 - deficit % (self.duration - ls))
                }
            },
            None => {
                if steps <= self.position {
                    Some(self.position - steps)
                } else {
                    None
                }
            },
        }
    }

    /// The gain of the fade now.
    pub open spec fn fade_gain(&self) -> int {
        self.fade.current()
    }

    /// Begins a fade to silence over `frames` frames, after which the
    /// instance stops; with no frames it stops at once. A stopped instance
    /// stays as it is.
    pub fn stop(&mut self, frames: u32)
        requires
            old(self).wf(),
        ensures
            final(self).wf(),
            old(self).state == PlaybackState::Stopped ==> *final(self) == *old(self),
            old(self).state != PlaybackState::Stopped ==> {
                &&& final(self).position == old(self).position
                &&& final(self).fade.settles_on() == 0
                &&& frames == 0 ==> final(self).state == PlaybackState::Stopped && final(self).fade_gain() == 0
                &&& frames > 0 ==> final(self).state == PlaybackState::Stopping
                    && final(self).fade.tween == Some(Tween {
                        start: old(self).fade_gain() as i32, target: 0, duration: frames, elapsed: 0, easing: Easing::Linear })
            },
    {
        if self.state == PlaybackState::Stopped {
            return;
        }
        self.fade_to(0, frames);
        self.state = if frames == 0 { PlaybackState::Stopped } else { PlaybackState::Stopping };
    }

    /// Begins a fade to silence over `frames` frames, after which the
    /// instance pauses. Only a playing or resuming instance pauses.
    pub fn pause(&mut self, frames: u32)
        requires
            old(self).wf(),
        ensures
            final(self).wf(),
            !(old(self).state == PlaybackState::Playing || old(self).state == PlaybackState::Resuming)
                ==> *final(self) == *old(self),
            (old(self).state == PlaybackState::Playing || old(self).state == PlaybackState::Resuming) ==> {
                &&& final(self).position == old(self).position
                &&& final(self).fade.settles_on() == 0
                &&& frames == 0 ==> final(self).state == PlaybackState::Paused
                &&& frames > 0 ==> final(self).state == PlaybackState::Pausing
                    && final(self).fade_gain() == old(self).fade_gain()
            },
    {
        if !(self.state == PlaybackState::Playing || self.state == PlaybackState::Resuming) {
            return;
        }
        self.fade_to(0, frames);
        self.state = if frames == 0 { PlaybackState::Paused } else { PlaybackState::Pausing };
    }

    /// Begins a fade back to full gain over `frames` frames, after which the
    /// instance plays. Only a paused or pausing instance resumes.
    pub fn resume(&mut self, frames: u32)
        requires
            old(self).wf(),
        ensures
            final(self).wf(),
            !(old(self).state == PlaybackState::Paused || old(self).state == PlaybackState::Pausing)
                ==> *final(self) == *old(self),
            (old(self).state == PlaybackState::Paused || old(self).state == PlaybackState::Pausing) ==> {
                &&& final(self).position == old(self).position
                &&& final(self).fade.settles_on() == UNITY_GAIN
                &&& frames == 0 ==> final(self).state == PlaybackState::Playing
                &&& frames > 0 ==> final(self).state == PlaybackState::Resuming
                    && final(self).fade_gain() == old(self).fade_gain()
            },
    {
        if !(self.state == PlaybackState::Paused || self.state == PlaybackState::Pausing) {
            return;
        }
        self.fade_to(UNITY_GAIN as i32, frames);
        self.state = if frames == 0 { PlaybackState::Playing } else { PlaybackState::Resuming };
    }

    fn fade_to(&mut self, target: i32, frames: u32)
        requires
            old(self).wf(),
            0 <= target <= UNITY_GAIN,
        ensures
            final(self).wf(),
            final(self).position == old(self).position,
            final(self).state == old(self).state,
            final(self).fade.settles_on() == target,
            frames == 0 ==> final(self).fade_gain() == target,
            frames > 0 ==> final(self).fade_gain() == old(self).fade_gain()
                && final(self).fade.tween == Some(Tween {
                    start: old(self).fade_gain() as i32, target, duration: frames, elapsed: 0, easing: Easing::Linear }),
    {
        proof {
            if let Some(tw) = self.fade.tween {
                lemma_tween_between(tw);
            }
        }
        self.fade.set(target, frames, Easing::Linear);
    }

    /// Sets the volume.
    pub fn set_volume(&mut self, volume: u32)
        ensures
            *final(self) == (Instance { volume, ..*old(self) }),
    {
        self.volume = volume;
    }

    /// Sets the playback rate.
    pub fn set_playback_rate(&mut self, playback_rate: u32)
        ensures
            *final(self) == (Instance { playback_rate, ..*old(self) }),
    {
        self.playback_rate = playback_rate;
    }

    /// Moves to frame `position`, wrapped into the loop as playback would
    /// wrap it; past the end of a sound that does not loop, the instance
    /// stops.
    pub fn seek_to(&mut self, position: u64)
        requires
            old(self).wf(),
        ensures
            final(self).wf(),
            match wrapped(position as int, old(self).loop_start, old(self).duration as int) {
                Some(p) => *final(self) == (Instance { position: p as u64, subframe: 0, ..*old(self) }),
                None => *final(self) == (Instance { state: PlaybackState::Stopped, ..*old(self) }),
            },
    {
        match wrap_position(position, self.loop_start, self.duration) {
            Some(p) => {
                self.position = p;
                self.subframe = 0;
            },
            None => {
                self.state = PlaybackState::Stopped;
            },
        }
    }

    /// Output frame `i` of the next block of a playing instance: the sound
    /// frame it lands on, scaled by the volume and then by the fade, or
    /// silence past the end of a sound that does not loop.
    pub open spec fn frame_output(&self, sound: Seq<i32>, i: nat) -> i32 {
        match moved(*self, frames_covered(self.subframe as nat, i, self.playback_rate as nat)) {
            Some(p) => scaled_frac(scaled(sound[p] as int, self.volume as nat),
                level_num(self.fade) as nat, level_den(self.fade) as nat) as i32,
            None => 0i32,
        }
    }

    /// Sample `k` of the next stereo block, left and right interleaved:
    /// output frame `k / 2` scaled by the gain of its channel, or silence
    /// when the instance is paused or stopped.
    pub open spec fn stereo_output(&self, sound: Seq<i32>, k: nat) -> i32 {
        if advances_in(self.state) {
            let m = self.frame_output(sound, k / 2) as int;
            if k % 2 == 0 {
                scaled(m, left_gain(self.panning as nat)) as i32
            } else {
                scaled(m, right_gain(self.panning as nat)) as i32
            }
        } else {
            0i32
        }
    }

    /// The next block of `frames` stereo frames, read from `sound`: left and
    /// right samples interleaved. A paused or stopped instance is silent.
    pub fn render(&self, sound: &Vec<i32>, frames: u32) -> (r: Vec<i32>)
        requires
            self.wf(),
            sound@.len() == self.duration,
        ensures
            r@.len() == 2 * frames,
            forall|k: int| 0 <= k < 2 * frames ==> r@[k] == self.stereo_output(sound@, k as nat),
    {
        let left: u32 = if self.panning <= CENTRE { UNITY_GAIN } else { 2 * (UNITY_GAIN - self.panning) };
        let right: u32 = if self.panning >= CENTRE { UNITY_GAIN } else { 2 * self.panning };
        proof {
            if let Some(tw) = self.fade.tween {
                lemma_tween_between(tw);
            }
        }
        let playing = self.state != PlaybackState::Paused && self.state != PlaybackState::Stopped;
        let (num, den) = fade_level(&self.fade);
        let n = sound.len();
        let mut out: Vec<i32> = Vec::with_capacity(frames as usize);
        let mut i: u32 = 0;
        while i < frames
            invariant
                i <= frames,
                n == sound@.len(),
                self.wf(),
                sound@.len() == self.duration,
                num as int == level_num(self.fade),
                den as int == level_den(self.fade),
                0 < den < 0x1_0000_0000_0000_0000u128,
                num <= den * 0x1_0000_0000u128,
                playing == advances_in(self.state),
                left as nat == left_gain(self.panning as nat),
                right as nat == right_gain(self.panning as nat),
                out@.len() == 2 * i,
                forall|k: int| 0 <= k < 2 * i ==> out@[k] == self.stereo_output(sound@, k as nat),
            decreases frames - i,
        {
            let mut v: i32 = 0;
            if playing {
                assert((i as nat) * (self.playback_rate as nat) <= 0xffff_ffff * 0xffff_ffff) by (nonlinear_arith)
                    requires i <= 0xffff_ffffu32, self.playback_rate <= 0xffff_ffffu32;
                let step: u64 = ((self.subframe as u64) + (i as u64) * (self.playback_rate as u64)) / (UNITY_GAIN as u64);
                assert(step < 0x1_0000_0000_0000u64) by (nonlinear_arith)
                    requires
                        step == (self.subframe as nat + (i as nat) * (self.playback_rate as nat)) / 65536,
                        self.subframe < 65536,
                        (i as nat) * (self.playback_rate as nat) <= 0xffff_ffff * 0xffff_ffff;
                match self.move_by(step) {
                    Some(p) => {
                        assert(p < n);
                        v = scale_frac(scale(sound[p as usize], self.volume), num, den);
                    },
                    None => {},
                }
            }
            proof {
                assert((2 * i as int) / 2 == i as int && (2 * i as int) % 2 == 0);
                assert((2 * i as int + 1) / 2 == i as int && (2 * i as int + 1) % 2 == 1);
                assert(playing ==> v == self.frame_output(sound@, i as nat));
            }
            out.push(if playing { scale(v, left) } else { 0 });
            out.push(if playing { scale(v, right) } else { 0 });
            i = i + 1;
        }
        out
    }

    /// Moves the instance on by one block of `frames` output frames: the
    /// fade moves on, the position moves by the sound frames the block
    /// covers, wrapping into the loop or, without one, stopping at the end;
    /// a fade that is over settles the state. A paused or stopped instance
    /// stays as it is.
    pub fn advance(&mut self, frames: u32)
        requires
            old(self).wf(),
        ensures
            final(self).wf(),
            *final(self) == advance_spec(*old(self), frames as nat),
            !advances_in(old(self).state) ==> *final(self) == *old(self),
            advances_in(old(self).state) ==> {
                &&& final(self).fade == advanced(old(self).fade, frames as nat)
                &&& match moved(*old(self), frames_covered(old(self).subframe as nat, frames as nat, old(self).playback_rate as nat)) {
                    Some(p) => final(self).position == p && final(self).state == (
                        if final(self).fade.tween is None { settled(old(self).state) } else { old(self).state }),
                    None => final(self).state == PlaybackState::Stopped && final(self).position == old(self).position,
                }
                &&& final(self).duration == old(self).duration
                &&& final(self).loop_start == old(self).loop_start
                &&& final(self).playback_rate == old(self).playback_rate
                &&& final(self).volume == old(self).volume
                &&& final(self).track == old(self).track
            },
    {
        if !(self.state != PlaybackState::Paused && self.state != PlaybackState::Stopped) {
            return;
        }
        proof {
            if let Some(tw) = self.fade.tween {
                lemma_tween_between(tw);
            }
        }
        self.fade.advance(frames);
        assert((frames as nat) * (self.playback_rate as nat) <= 0xffff_ffff * 0xffff_ffff) by (nonlinear_arith)
            requires frames <= 0xffff_ffffu32, self.playback_rate <= 0xffff_ffffu32;
        let total: u64 = (self.subframe as u64) + (frames as u64) * (self.playback_rate as u64);
        let step: u64 = total / (UNITY_GAIN as u64);
        assert(step < 0x1_0000_0000_0000u64) by (nonlinear_arith)
            requires
                step == (self.subframe as nat + (frames as nat) * (self.playback_rate as nat)) / 65536,
                self.subframe < 65536,
                (frames as nat) * (self.playback_rate as nat) <= 0xffff_ffff * 0xffff_ffff;
        match self.move_by(step) {
            Some(p) => {
                self.position = p;
                self.subframe = (total % (UNITY_GAIN as u64)) as u32;
                if self.fade.tween.is_none() {
                    self.state = match self.state {
                        PlaybackState::Pausing => PlaybackState::Paused,
                        PlaybackState::Resuming => PlaybackState::Playing,
                        PlaybackState::Stopping => PlaybackState::Stopped,
                        s => s,
                    };
                }
            },
            None => {
                self.state = PlaybackState::Stopped;
            },
        }
    }
}

/// While a stop fade runs from a gain above zero, every block makes the
/// instance strictly quieter: the exact level of its fade after the block
/// is below the level before it, as fractions. On the block that ends the
/// fade the level is exactly zero, and the instance is then stopped.
pub proof fn lemma_stop_fades_out(inst: Instance, frames: u32)
    requires
        inst.wf(),
        inst.state == PlaybackState::Stopping,
        frames > 0,
        inst.fade.tween matches Some(tw) && tw.target == 0 && tw.easing == Easing::Linear && tw.start > 0,
    ensures
        level_den(advanced(inst.fade, frames as nat)) > 0,
        level_num(advanced(inst.fade, frames as nat)) * level_den(inst.fade)
            < level_num(inst.fade) * level_den(advanced(inst.fade, frames as nat)),
        advanced(inst.fade, frames as nat).tween is None ==> level_num(advanced(inst.fade, frames as nat)) == 0
            && advance_spec(inst, frames as nat).state == PlaybackState::Stopped,
{
    let tw = inst.fade.tween->Some_0;
    let d = tw.duration as int;
    let t = tw.elapsed as int;
    let a = tw.start as int;
    let f = frames as int;
    assert(level_num(inst.fade) == a * d + (0 - a) * t);
    assert(a * d + (0 - a) * t == a * (d - t)) by (nonlinear_arith);
    assert(a * (d - t) > 0) by (nonlinear_arith)
        requires a > 0, t < d;
    if t + f < d {
        assert(level_num(advanced(inst.fade, frames as nat)) == a * d + (0 - a) * (t + f));
        assert((a * d + (0 - a) * (t + f)) * d < (a * (d - t)) * d) by (nonlinear_arith)
            requires a > 0, f > 0, d > 0;
    }
}

} // verus!
