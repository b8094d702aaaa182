//! A bounded first-in first-out channel of commands.
use vstd::prelude::*;

verus! {

/// The queue was full and the command was not taken.
#[derive(Debug, Clone, Copy, PartialEq, Eq, Structural)]
pub enum QueueError {
    QueueFull,
}

/// Holds at most `capacity` pending commands, handed out in the order they
/// came. Sending never waits: a full queue refuses.
#[derive(Debug)]
pub struct CommandQueue<T> {
    items: Vec<T>,
    capacity: usize,
}

impl<T> View for CommandQueue<T> {
    type V = Seq<T>;

    closed spec fn view(&self) -> Seq<T> {
        self.items@
    }
}

impl<T> CommandQueue<T> {
    /// How many commands the queue can hold.
    pub closed spec fn spec_capacity(&self) -> nat {
        self.capacity as nat
    }

    /// The queue holds no more than its capacity.
    pub closed spec fn wf(&self) -> bool {
        self.items@.len() <= self.capacity
    }

    /// An empty queue that can hold `capacity` commands.
    pub fn new(capacity: usize) -> (r: CommandQueue<T>)
        ensures
            r.wf(),
            r@ == Seq::<T>::empty(),
            r.spec_capacity() == capacity,
    {
        CommandQueue { items: Vec::with_capacity(capacity), capacity }
    }

    /// How many commands are pending.
    pub fn len(&self) -> (r: usize)
        ensures
            r == self@.len(),
    {
        self.items.len()
    }

    /// How many commands the queue can hold.
    pub fn capacity(&self) -> (r: usize)
        ensures
            r == self.spec_capacity(),
    {
        self.capacity
    }

    /// Appends `command`, or refuses it when the queue is full.
    pub fn push(&mut self, command: T) -> (r: Result<(), QueueError>)
        requires
            old(self).wf(),
        ensures
            final(self).wf(),
            final(self).spec_capacity() == old(self).spec_capacity(),
            r is Err <==> old(self)@.len() == old(self).spec_capacity(),
            r is Err ==> final(self)@ == old(self)@,
            r is Ok ==> final(self)@ == old(self)@.push(command),
    {
        if self.items.len() >= self.capacity {
            Err(QueueError::QueueFull)
        } else {
            self.items.push(command);
            Ok(())
        }
    }

    /// Takes every pending command, oldest first, and leaves the queue empty.
    pub fn drain(&mut self) -> (r: Vec<T>)
        requires
            old(self).wf(),
        ensures
            final(self).wf(),
            final(self).spec_capacity() == old(self).spec_capacity(),
            r@ == old(self)@,
            final(self)@ == Seq::<T>::empty(),
    {
        let mut taken: Vec<T> = Vec::with_capacity(self.capacity);
        std::mem::swap(&mut taken, &mut self.items);
        taken
    }
}

} // verus!
