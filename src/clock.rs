//! Clocks: virtual timelines whose ticks fire scheduled events.
//! A clock counts in sub-ticks, `SUBTICKS_PER_TICK` to the tick, and its
//! speed is the number of sub-ticks it gains per frame.
use crate::tween::{advanced, Easing, Parameter};
use vstd::prelude::*;

verus! {

/// Sub-ticks in one tick.
pub const SUBTICKS_PER_TICK: u64 = 65536;

/// The most sub-ticks a clock counts before it stops gaining.
pub const MAX_SUBTICKS: u64 = 0xffff_0000_0000_0000;

#[derive(Debug, Clone, Copy, PartialEq, Eq, Structural)]
pub enum ClockState {
    Stopped,
    Started,
    Paused,
}

/// A virtual timeline.
#[derive(Debug, Clone, Copy, PartialEq, Eq, Structural)]
pub struct Clock {
    /// Sub-ticks gained per frame; never negative.
    pub speed: Parameter,
    pub state: ClockState,
    /// Sub-ticks gained since the clock was last stopped.
    pub subticks: u64,
}

/// The ticks that fired in a block: every tick `t` with
/// `first <= t < end`. Tick `t` fires when the count reaches `t` whole
/// ticks, so an empty range means no tick was crossed.
#[derive(Debug, Clone, Copy, PartialEq, Eq, Structural)]
pub struct TickRange {
    pub first: u64,
    pub end: u64,
}

/// The sub-ticks a clock at `subticks` reaches after `frames` frames at
/// `speed`, held at `MAX_SUBTICKS`.
pub open spec fn subticks_after(subticks: int, speed: int, frames: int) -> int {
    if subticks + speed * frames > MAX_SUBTICKS as int {
        MAX_SUBTICKS as int
    } else {
        subticks + speed * frames
    }
}

impl Clock {
    /// The speed never falls below zero, at rest or in a transition.
    pub open spec fn wf(&self) -> bool {
        &&& self.speed.wf()
        &&& self.speed.value >= 0
        &&& self.speed.tween matches Some(tw) ==> tw.start >= 0 && tw.target >= 0
        &&& self.subticks <= MAX_SUBTICKS
    }

    /// The whole ticks counted.
    pub open spec fn ticks(&self) -> int {
        self.subticks as int / SUBTICKS_PER_TICK as int
    }

    /// A stopped clock at tick zero gaining `speed` sub-ticks per frame.
    pub fn new(speed: u32) -> (r: Clock)
        requires
            speed <= i32::MAX,
        ensures
            r.wf(),
            r.state == ClockState::Stopped,
            r.subticks == 0,
            r.speed.current() == speed,
            r.speed.tween is None,
    {
        Clock { speed: Parameter::new(speed as i32), state: ClockState::Stopped, subticks: 0 }
    }

    /// Starts or resumes counting.
    pub fn start(&mut self)
        ensures
            *final(self) == (Clock { state: ClockState::Started, ..*old(self) }),
    {
        self.state = ClockState::Started;
    }

    /// Freezes a started clock where it is.
    pub fn pause(&mut self)
        ensures
            old(self).state == ClockState::Started
                ==> *final(self) == (Clock { state: ClockState::Paused, ..*old(self) }),
            old(self).state != ClockState::Started ==> *final(self) == *old(self),
    {
        if self.state == ClockState::Started {
            self.state = ClockState::Paused;
        }
    }

    /// Stops the clock and sets it back to tick zero.
    pub fn stop(&mut self)
        ensures
            *final(self) == (Clock { state: ClockState::Stopped, subticks: 0, ..*old(self) }),
    {
        self.state = ClockState::Stopped;
        self.subticks = 0;
    }

    /// Heads for a new speed over `frames` frames.
    pub fn set_speed(&mut self, speed: u32, frames: u32)
        requires
            old(self).wf(),
            speed <= i32::MAX,
        ensures
            final(self).wf(),
            final(self).state == old(self).state,
            final(self).subticks == old(self).subticks,
            final(self).speed.settles_on() == speed,
            frames == 0 ==> final(self).speed.current() == speed,
            frames > 0 ==> final(self).speed.current() == old(self).speed.current(),
    {
        proof {
            if let Some(tw) = self.speed.tween {
                crate::tween::lemma_tween_between(tw);
            }
        }
        self.speed.set(speed as i32, frames, Easing::Linear);
    }

    /// Moves the clock on by a block of `frames` frames. A started clock
    /// gains its current speed times the frames, and the ticks it crosses
    /// are returned; the speed's transition moves on in any state.
    pub fn advance(&mut self, frames: u32) -> (r: TickRange)
        requires
            old(self).wf(),
        ensures
            final(self).wf(),
            final(self).state == old(self).state,
            final(self).speed == advanced(old(self).speed, frames as nat),
            old(self).state == ClockState::Started ==> final(self).subticks
                == subticks_after(old(self).subticks as int, old(self).speed.current(), frames as int),
            old(self).state != ClockState::Started ==> final(self).subticks == old(self).subticks,
            r.first == old(self).ticks() + 1,
            r.end == final(self).ticks() + 1,
    {
        proof {
            if let Some(tw) = self.speed.tween {
                crate::tween::lemma_tween_between(tw);
            }
        }
        let before = self.subticks;
        if self.state == ClockState::Started {
            let speed = self.speed.value() as u64;
            assert(speed * frames <= 0x7fff_ffff * 0xffff_ffff) by (nonlinear_arith)
                requires speed <= 0x7fff_ffffu64, frames <= 0xffff_ffffu32;
            let gain = speed * (frames as u64);
            self.subticks = if gain > MAX_SUBTICKS - before { MAX_SUBTICKS } else { before + gain };
        }
        self.speed.advance(frames);
        let first: u64 = before / SUBTICKS_PER_TICK + 1;
        let end: u64 = self.subticks / SUBTICKS_PER_TICK + 1;
        TickRange { first, end }
    }
}

} // verus!
