use vstd::prelude::*;
use std::collections::VecDeque;

verus! {

/// What a receive on the queue yields.
pub enum Received<J> {
    /// The job at the front of the queue, now owned by the receiver.
    Job(J),
    /// The queue is open and holds nothing: the receiver waits and tries again.
    Empty,
    /// The queue is closed and drained: no job will ever come.
    Closed,
}

/// An unbounded FIFO channel of jobs that can be closed.
///
/// Jobs already queued when the queue is closed are still handed out;
/// after that every receive reports `Closed`.
pub struct JobQueue<J> {
    items: VecDeque<J>,
    closed: bool,
}

impl<J> JobQueue<J> {
    /// The jobs waiting, front first.
    pub closed spec fn pending(&self) -> Seq<J> {
        self.items@
    }

    pub closed spec fn is_closed_spec(&self) -> bool {
        self.closed
    }

    /// An open queue with nothing in it.
    pub fn new() -> (r: Self)
        ensures
            r.pending() == Seq::<J>::empty(),
            !r.is_closed_spec(),
    {
        JobQueue { items: VecDeque::new(), closed: false }
    }

    pub fn is_closed(&self) -> (r: bool)
        ensures
            r == self.is_closed_spec(),
    {
        self.closed
    }

    pub fn len(&self) -> (r: usize)
        ensures
            r == self.pending().len(),
    {
        self.items.len()
    }

    /// Appends `job` at the back. A closed queue refuses it and hands it back.
    pub fn send(&mut self, job: J) -> (r: Result<(), J>)
        ensures
            final(self).is_closed_spec() == old(self).is_closed_spec(),
            old(self).is_closed_spec() ==> {
                &&& r == Err::<(), J>(job)
                &&& final(self).pending() == old(self).pending()
            },
            !old(self).is_closed_spec() ==> {
                &&& r is Ok
                &&& final(self).pending() == old(self).pending().push(job)
            },
    {
        if self.closed {
            Err(job)
        } else {
            self.items.push_back(job);
            Ok(())
        }
    }

    /// Takes the job at the front, if any; reports `Closed` only once the
    /// queue is both closed and empty.
    pub fn receive(&mut self) -> (r: Received<J>)
        ensures
            final(self).is_closed_spec() == old(self).is_closed_spec(),
            old(self).pending().len() > 0 ==> {
                &&& r == Received::Job(old(self).pending()[0])
                &&& final(self).pending() == old(self).pending().drop_first()
            },
            old(self).pending().len() == 0 ==> {
                &&& final(self).pending() == old(self).pending()
                &&& (r is Closed <==> old(self).is_closed_spec())
                &&& (r is Empty <==> !old(self).is_closed_spec())
            },
    {
        match self.items.pop_front() {
            Some(job) => Received::Job(job),
            None => if self.closed {
                Received::Closed
            } else {
                Received::Empty
            },
        }
    }

    /// Stops the queue from taking new jobs. Closing twice is the same as once.
    pub fn close(&mut self)
        ensures
            final(self).is_closed_spec(),
            final(self).pending() == old(self).pending(),
    {
        self.closed = true;
    }
}

} // verus!
