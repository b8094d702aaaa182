//! Timed transitions of scalar values.
use vstd::arithmetic::div_mod::{
    lemma_div_by_multiple, lemma_div_by_multiple_is_strongly_ordered, lemma_div_is_ordered, lemma_div_plus_one, lemma_div_pos_is_pos,
};
use crate::arena::{Arena, ResourceId};
use vstd::prelude::*;

verus! {

/// The shape of a transition, applied to its progress.
#[derive(Debug, Clone, Copy, PartialEq, Eq, Structural)]
pub enum Easing {
    /// Progress is used as it is.
    Linear,
    /// Progress is squared: slow start, fast finish.
    InQuad,
    /// The mirror of `InQuad`: fast start, slow finish.
    OutQuad,
}

/// Numerator of the eased progress at `t` frames of a `d`-frame transition.
pub open spec fn eased_num(e: Easing, t: nat, d: nat) -> int {
    match e {
        Easing::Linear => t as int,
        Easing::InQuad => (t * t) as int,
        Easing::OutQuad => d * d - (d - t) * (d - t),
    }
}

/// Denominator of the eased progress of a `d`-frame transition.
pub open spec fn eased_den(e: Easing, d: nat) -> int {
    match e {
        Easing::Linear => d as int,
        _ => (d * d) as int,
    }
}

/// The point at fraction `num / den` of the way from `start` to `target`,
/// rounded towards `start`.
pub open spec fn interpolate(start: int, target: int, num: int, den: int) -> int {
    if target >= start {
        start + (target - start) * num / den
    } else {
        start - (start - target) * num / den
    }
}

/// A transition from `start` to `target` over `duration` frames, of which
/// `elapsed` have passed.
#[derive(Debug, Clone, Copy, PartialEq, Eq, Structural)]
pub struct Tween {
    pub start: i32,
    pub target: i32,
    pub duration: u32,
    pub elapsed: u32,
    pub easing: Easing,
}

/// The value of a transition after `t` frames: progress is clamped to the
/// duration, eased, and interpolated between the two ends.
pub open spec fn value_at(start: int, target: int, duration: nat, e: Easing, t: nat) -> int {
    if t >= duration {
        target
    } else {
        interpolate(start, target, eased_num(e, t, duration), eased_den(e, duration))
    }
}

proof fn lemma_eased_bounds(e: Easing, t: nat, d: nat)
    requires
        t < d,
    ensures
        0 <= eased_num(e, t, d) <= eased_den(e, d),
        eased_den(e, d) > 0,
{
    assert(t * t <= d * d) by (nonlinear_arith)
        requires
            t < d,
    ;
    assert(d * d > 0) by (nonlinear_arith)
        requires
            t < d,
    ;
    assert((d - t) * (d - t) <= d * d) by (nonlinear_arith)
        requires
            t < d,
    ;
}

proof fn lemma_interpolate_between(start: int, target: int, num: int, den: int)
    requires
        0 <= num,
        num <= den,
        den > 0,
    ensures
        start <= target ==> start <= interpolate(start, target, num, den) <= target,
        target < start ==> target <= interpolate(start, target, num, den) <= start,
{
    let diff: int = if target >= start { target - start } else { start - target };
    assert(diff * num <= diff * den) by (nonlinear_arith)
        requires
            0 <= num <= den,
            diff >= 0,
    ;
    assert(0 <= diff * num) by (nonlinear_arith)
        requires
            0 <= num,
            diff >= 0,
    ;
    lemma_div_is_ordered(diff * num, diff * den, den);
    lemma_div_by_multiple(diff, den);
    lemma_div_pos_is_pos(diff * num, den);
}

/// At the start of a transition that takes time its value is its start.
pub proof fn lemma_value_at_start(start: int, target: int, duration: nat, e: Easing)
    requires
        duration > 0,
    ensures
        value_at(start, target, duration, e, 0) == start,
{
    assert(eased_num(e, 0, duration) == 0) by (nonlinear_arith);
    lemma_eased_bounds(e, 0, duration);
    assert((target - start) * 0 == 0);
    assert((start - target) * 0 == 0);
}

/// At or after its duration a transition's value is exactly its target.
pub proof fn lemma_value_at_end(start: int, target: int, duration: nat, e: Easing, t: nat)
    requires
        t >= duration,
    ensures
        value_at(start, target, duration, e, t) == target,
{
}

impl Tween {
    pub open spec fn spec_value(self) -> int {
        value_at(self.start as int, self.target as int, self.duration as nat, self.easing, self.elapsed as nat)
    }

    pub open spec fn is_finished(self) -> bool {
        self.elapsed >= self.duration
    }

    /// A transition from `start` to `target` that has not begun.
    pub fn new(start: i32, target: i32, duration: u32, easing: Easing) -> (r: Tween)
        ensures
            r == (Tween { start, target, duration, elapsed: 0, easing }),
    {
        Tween { start, target, duration, elapsed: 0, easing }
    }

    /// The value after the frames elapsed so far.
    pub fn value(&self) -> (r: i32)
        ensures
            r as int == self.spec_value(),
    {
        if self.elapsed >= self.duration {
            return self.target;
        }
        proof {
            lemma_eased_bounds(self.easing, self.elapsed as nat, self.duration as nat);
            lemma_interpolate_between(self.start as int, self.target as int,
                eased_num(self.easing, self.elapsed as nat, self.duration as nat),
                eased_den(self.easing, self.duration as nat));
        }
        let t = self.elapsed as u128;
        let d = self.duration as u128;
        assert(t * t <= d * d) by (nonlinear_arith)
            requires t < d;
        assert(d * d <= 0xffff_ffff_ffff_ffff_ffff_ffffu128) by (nonlinear_arith)
            requires d < 0x1_0000_0000u128;
        let (num, den): (u128, u128) = match self.easing {
            Easing::Linear => (t, d),
            Easing::InQuad => (t * t, d * d),
            Easing::OutQuad => (d * d - (d - t) * (d - t), d * d),
        };
        assert((d - t) * (d - t) <= d * d) by (nonlinear_arith)
            requires t < d;
        assert(t <= d * d) by (nonlinear_arith)
            requires t < d;
        let s = self.start as i64;
        let g = self.target as i64;
        if g >= s {
            let diff = (g - s) as u128;
            assert(diff * num <= 0x1_0000_0000u128 * (d * d)) by (nonlinear_arith)
                requires diff < 0x1_0000_0000u128, num <= d * d;
            assert(0x1_0000_0000u128 * (d * d) <= 0x1_0000_0000u128 * 0xffff_ffff_ffff_ffff_ffff_ffffu128) by (nonlinear_arith)
                requires d * d <= 0xffff_ffff_ffff_ffff_ffff_ffffu128;
            let q = diff * num / den;
            (s + q as i64) as i32
        } else {
            let diff = (s - g) as u128;
            assert(diff * num <= 0x1_0000_0000u128 * (d * d)) by (nonlinear_arith)
                requires diff < 0x1_0000_0000u128, num <= d * d;
            assert(0x1_0000_0000u128 * (d * d) <= 0x1_0000_0000u128 * 0xffff_ffff_ffff_ffff_ffff_ffffu128) by (nonlinear_arith)
                requires d * d <= 0xffff_ffff_ffff_ffff_ffff_ffffu128;
            let q = diff * num / den;
            (s - q as i64) as i32
        }
    }
}

/// A transition moves one way only: from its start towards its target, as
/// the frames elapse.
pub proof fn lemma_value_monotone(start: int, target: int, duration: nat, e: Easing, t1: nat, t2: nat)
    requires
        t1 <= t2,
    ensures
        start <= target ==> start <= value_at(start, target, duration, e, t1)
            <= value_at(start, target, duration, e, t2) <= target,
        target < start ==> start >= value_at(start, target, duration, e, t1)
            >= value_at(start, target, duration, e, t2) >= target,
{
    if t1 < duration {
        lemma_eased_bounds(e, t1, duration);
        lemma_interpolate_between(start, target, eased_num(e, t1, duration), eased_den(e, duration));
    }
    if t2 < duration {
        lemma_eased_bounds(e, t2, duration);
        lemma_interpolate_between(start, target, eased_num(e, t2, duration), eased_den(e, duration));
        let d = duration as int;
        assert(eased_num(e, t1, duration) <= eased_num(e, t2, duration)) by {
            assert(t1 * t1 <= t2 * t2) by (nonlinear_arith)
                requires t1 <= t2;
            assert((d - t2) * (d - t2) <= (d - t1) * (d - t1)) by (nonlinear_arith)
                requires t1 <= t2, t2 < d;
        }
        let n1 = eased_num(e, t1, duration);
        let n2 = eased_num(e, t2, duration);
        let den = eased_den(e, duration);
        let diff: int = if target >= start { target - start } else { start - target };
        assert(diff * n1 <= diff * n2) by (nonlinear_arith)
            requires n1 <= n2, diff >= 0;
        lemma_div_is_ordered(diff * n1, diff * n2, den);
    }
}

/// Each value of a transition lies between its two ends.
pub proof fn lemma_tween_between(tw: Tween)
    ensures
        tw.start <= tw.target ==> tw.start <= tw.spec_value() <= tw.target,
        tw.target < tw.start ==> tw.target <= tw.spec_value() <= tw.start,
{
    if tw.elapsed < tw.duration {
        lemma_eased_bounds(tw.easing, tw.elapsed as nat, tw.duration as nat);
        lemma_interpolate_between(tw.start as int, tw.target as int,
            eased_num(tw.easing, tw.elapsed as nat, tw.duration as nat),
            eased_den(tw.easing, tw.duration as nat));
    }
}

/// `p` after `frames` more frames: a running transition moves on, and is
/// retired, leaving its target, once it reaches its end.
pub open spec fn advanced(p: Parameter, frames: nat) -> Parameter {
    match p.tween {
        None => p,
        Some(tw) => if tw.elapsed + frames >= tw.duration {
            Parameter { value: tw.target, tween: None }
        } else {
            Parameter { value: p.value, tween: Some(Tween { elapsed: (tw.elapsed + frames) as u32, ..tw }) }
        },
    }
}

/// The exact level of `p` is `level_num(p) / level_den(p)`: a running
/// transition's eased progress, kept as a fraction rather than rounded.
pub open spec fn level_num(p: Parameter) -> int {
    match p.tween {
        Some(tw) => if tw.elapsed < tw.duration {
            tw.start * eased_den(tw.easing, tw.duration as nat)
                + (tw.target - tw.start) * eased_num(tw.easing, tw.elapsed as nat, tw.duration as nat)
        } else {
            tw.target as int
        },
        None => p.value as int,
    }
}

/// The denominator of the exact level of `p`.
pub open spec fn level_den(p: Parameter) -> int {
    match p.tween {
        Some(tw) => if tw.elapsed < tw.duration { eased_den(tw.easing, tw.duration as nat) } else { 1 },
        None => 1,
    }
}

/// A scalar that may be in transition towards a new value.
#[derive(Debug, Clone, Copy, PartialEq, Eq, Structural)]
pub struct Parameter {
    /// The value when no transition is running.
    pub value: i32,
    /// The running transition, retired once it reaches its target.
    pub tween: Option<Tween>,
}

impl Parameter {
    /// The value the parameter has now.
    pub open spec fn current(self) -> int {
        match self.tween {
            Some(tw) => tw.spec_value(),
            None => self.value as int,
        }
    }

    /// The value the parameter settles on.
    pub open spec fn settles_on(self) -> int {
        match self.tween {
            Some(tw) => tw.target as int,
            None => self.value as int,
        }
    }

    /// A running transition has not yet reached its end.
    pub open spec fn wf(self) -> bool {
        match self.tween {
            Some(tw) => tw.elapsed < tw.duration,
            None => true,
        }
    }

    /// A parameter holding `value`, with no transition.
    pub fn new(value: i32) -> (r: Parameter)
        ensures
            r.wf(),
            r.current() == value,
            r.tween is None,
    {
        Parameter { value, tween: None }
    }

    /// The value the parameter has now.
    pub fn value(&self) -> (r: i32)
        ensures
            r as int == self.current(),
    {
        match &self.tween {
            Some(tw) => tw.value(),
            None => self.value,
        }
    }

    /// Heads for `target` over `duration` frames, starting from where the
    /// parameter is now, so that retargeting never jumps. A zero duration
    /// sets the value at once.
    pub fn set(&mut self, target: i32, duration: u32, easing: Easing)
        requires
            old(self).wf(),
        ensures
            final(self).wf(),
            final(self).settles_on() == target,
            duration == 0 ==> final(self).current() == target && final(self).tween is None,
            duration > 0 ==> final(self).current() == old(self).current()
                && final(self).value == old(self).current()
                && final(self).tween == Some(Tween { start: old(self).current() as i32, target, duration, elapsed: 0, easing }),
    {
        let here = self.value();
        if duration == 0 {
            self.value = target;
            self.tween = None;
        } else {
            self.value = here;
            self.tween = Some(Tween::new(here, target, duration, easing));
            proof {
                lemma_value_at_start(here as int, target as int, duration as nat, easing);
            }
        }
    }

    /// Moves a running transition on by `frames` frames, retiring it at its end.
    pub fn advance(&mut self, frames: u32)
        requires
            old(self).wf(),
        ensures
            final(self).wf(),
            final(self).settles_on() == old(self).settles_on(),
            *final(self) == advanced(*old(self), frames as nat),
    {
        match self.tween {
            None => {},
            Some(tw) => {
                if frames >= tw.duration - tw.elapsed {
                    self.value = tw.target;
                    self.tween = None;
                } else {
                    self.tween = Some(Tween { elapsed: tw.elapsed + frames, ..tw });
                }
            },
        }
    }
}

/// A setting that is either fixed or follows a parameter.
#[derive(Debug, Clone, Copy, PartialEq, Eq, Structural)]
pub enum Value {
    Fixed(i32),
    Parameter(ResourceId),
}

/// What `v` resolves to among `params`: a fixed value is itself; a bound
/// value is its parameter's current value, or `fallback` once the
/// parameter is gone.
pub open spec fn resolved(v: Value, params: &Arena<Parameter>, fallback: i32) -> int {
    match v {
        Value::Fixed(x) => x as int,
        Value::Parameter(id) => if params.is_live(id) {
            params.slots()[id.index as int].item->Some_0.current()
        } else {
            fallback as int
        },
    }
}

impl Value {
    /// Resolves the value for this block.
    pub fn resolve(&self, params: &Arena<Parameter>, fallback: i32) -> (r: i32)
        ensures
            r as int == resolved(*self, params, fallback),
    {
        match self {
            Value::Fixed(x) => *x,
            Value::Parameter(id) => match params.get(*id) {
                Some(p) => p.value(),
                None => fallback,
            },
        }
    }
}

} // verus!
