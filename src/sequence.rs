//! Sequences: timed scripts of actions, driven by the ticks of a clock.
use crate::arena::ResourceId;
use crate::clock::TickRange;
use vstd::prelude::*;

verus! {

/// What a step of a sequence does when its tick fires.
#[derive(Debug, Clone, Copy, PartialEq, Eq, Structural)]
pub enum SequenceAction {
    /// Stops an instance, fading over the given frames.
    StopInstance(ResourceId, u32),
    /// Pauses an instance, fading over the given frames.
    PauseInstance(ResourceId, u32),
    /// Resumes an instance, fading over the given frames.
    ResumeInstance(ResourceId, u32),
    /// Hands a custom event to the control side.
    Emit(u32),
}

/// An action and the tick it fires at.
#[derive(Debug, Clone, Copy, PartialEq, Eq, Structural)]
pub struct Step {
    pub tick: u64,
    pub action: SequenceAction,
}

/// Steps in the order of their ticks.
pub open spec fn sorted_by_tick(steps: Seq<Step>) -> bool {
    forall|i: int, j: int| 0 <= i <= j < steps.len() ==> steps[i].tick <= steps[j].tick
}

/// A script of steps and a cursor at the first step not yet fired, driven
/// by a clock.
#[derive(Debug, Clone, PartialEq, Eq)]
pub struct Sequence {
    pub clock: ResourceId,
    pub steps: Vec<Step>,
    pub cursor: usize,
}

impl Sequence {
    /// Steps are sorted and the cursor lies within them.
    pub open spec fn wf(&self) -> bool {
        &&& sorted_by_tick(self.steps@)
        &&& self.cursor <= self.steps@.len()
    }

    /// A sequence on `clock` with the cursor at the start, or `None` when
    /// the steps are not in the order of their ticks.
    pub fn new(clock: ResourceId, steps: Vec<Step>) -> (r: Option<Sequence>)
        ensures
            r is Some <==> sorted_by_tick(steps@),
            r matches Some(s) ==> s.wf() && s.clock == clock && s.steps@ == steps@ && s.cursor == 0,
    {
        let n = steps.len();
        let mut i: usize = 1;
        while i < n
            invariant
                n == steps@.len(),
                1 <= i,
                forall|a: int, b: int| 0 <= a <= b < i && b < n ==> steps@[a].tick <= steps@[b].tick,
            decreases n - i,
        {
            if steps[i - 1].tick > steps[i].tick {
                return None;
            }
            proof {
                assert forall|a: int, b: int| 0 <= a <= b < i + 1 && b < n implies steps@[a].tick <= steps@[b].tick by {
                    if b == i && a < i {
                        assert(steps@[a].tick <= steps@[i - 1].tick);
                    }
                }
            }
            i = i + 1;
        }
        Some(Sequence { clock, steps, cursor: 0 })
    }

    /// The actions of the steps whose ticks fired in `fired`, in order; the
    /// cursor moves past them. Steps whose ticks came before the range fire
    /// too, late rather than never.
    pub fn fire(&mut self, fired: TickRange) -> (r: Vec<SequenceAction>)
        requires
            old(self).wf(),
        ensures
            final(self).wf(),
            final(self).clock == old(self).clock,
            final(self).steps@ == old(self).steps@,
            old(self).cursor <= final(self).cursor,
            r@.len() == final(self).cursor - old(self).cursor,
            forall|i: int| 0 <= i < r@.len() ==> r@[i] == old(self).steps@[old(self).cursor + i].action,
            forall|i: int| old(self).cursor <= i < final(self).cursor ==> old(self).steps@[i].tick < fired.end,
            final(self).cursor < final(self).steps@.len()
                ==> final(self).steps@[final(self).cursor as int].tick >= fired.end,
    {
        let mut out: Vec<SequenceAction> = Vec::new();
        let n = self.steps.len();
        while self.cursor < n && self.steps[self.cursor].tick < fired.end
            invariant
                self.wf(),
                n == self.steps@.len(),
                self.clock == old(self).clock,
                self.steps@ == old(self).steps@,
                old(self).cursor <= self.cursor,
                out@.len() == self.cursor - old(self).cursor,
                forall|i: int| 0 <= i < out@.len() ==> out@[i] == old(self).steps@[old(self).cursor + i].action,
                forall|i: int| old(self).cursor <= i < self.cursor ==> old(self).steps@[i].tick < fired.end,
            decreases n - self.cursor,
        {
            out.push(self.steps[self.cursor].action);
            self.cursor = self.cursor + 1;
        }
        out
    }

    /// Every step has fired.
    pub fn is_finished(&self) -> (r: bool)
        ensures
            r <==> self.cursor >= self.steps@.len(),
    {
        self.cursor >= self.steps.len()
    }
}

} // verus!
