//! Serialisation of regeneration work: producers enqueue requests without
//! waiting, a single worker takes them one at a time, and each successful
//! cycle advances the generation counter.
use vstd::prelude::*;

verus! {

/// A unit of work for the regeneration worker.
#[derive(PartialEq, Eq, Structural, Clone, Copy, Debug)]
pub enum Event {
    GenerateConfiguration,
}

/// The bounded queue of requests and the state of the single worker.
pub struct Coordinator {
    queue: Vec<Event>,
    capacity: usize,
    running: bool,
    generation: u64,
    started: Ghost<nat>,
    finished: Ghost<nat>,
}

impl Coordinator {
    /// The requests waiting for the worker, oldest first.
    pub closed spec fn pending(&self) -> Seq<Event> {
        self.queue@
    }

    /// How many requests may wait at once.
    pub closed spec fn max_pending(&self) -> nat {
        self.capacity as nat
    }

    /// A compile-and-deploy cycle is under way.
    pub closed spec fn busy(&self) -> bool {
        self.running
    }

    /// The number of successful cycles so far.
    pub closed spec fn current_generation(&self) -> nat {
        self.generation as nat
    }

    /// The number of cycles the worker has begun.
    pub closed spec fn cycles_started(&self) -> nat {
        self.started@
    }

    /// The number of cycles the worker has ended, successfully or not.
    pub closed spec fn cycles_finished(&self) -> nat {
        self.finished@
    }

    pub closed spec fn wf(&self) -> bool {
        &&& 0 < self.capacity
        &&& self.queue@.len() <= self.capacity
        &&& self.started@ == self.finished@ + if self.running { 1nat } else { 0nat }
    }

    /// An idle coordinator whose queue holds at most `capacity` requests.
    pub fn new(capacity: usize) -> (r: Coordinator)
        requires
            capacity > 0,
        ensures
            r.wf(),
            r.pending() == Seq::<Event>::empty(),
            r.max_pending() == capacity,
            !r.busy(),
            r.current_generation() == 0,
            r.cycles_started() == 0,
            r.cycles_finished() == 0,
    {
        Coordinator {
            queue: Vec::new(),
            capacity,
            running: false,
            generation: 0,
            started: Ghost(0),
            finished: Ghost(0),
        }
    }

    /// Asks for a regeneration without waiting for it. The request is queued
    /// when there is room and dropped when the queue is full; the result says
    /// which.
    pub fn request_regeneration(&mut self) -> (queued: bool)
        requires
            old(self).wf(),
        ensures
            final(self).wf(),
            queued == (old(self).pending().len() < old(self).max_pending()),
            queued ==> final(self).pending() == old(self).pending().push(Event::GenerateConfiguration),
            !queued ==> final(self).pending() == old(self).pending(),
            final(self).max_pending() == old(self).max_pending(),
            final(self).busy() == old(self).busy(),
            final(self).current_generation() == old(self).current_generation(),
            final(self).cycles_started() == old(self).cycles_started(),
            final(self).cycles_finished() == old(self).cycles_finished(),
    {
        if self.queue.len() < self.capacity {
            self.queue.push(Event::GenerateConfiguration);
            true
        } else {
            false
        }
    }

    /// The worker takes the oldest request and begins its cycle. Nothing is
    /// taken while a cycle is under way or when no request waits, so cycles
    /// never overlap and run in the order of their requests.
    pub fn start_cycle(&mut self) -> (r: Option<Event>)
        requires
            old(self).wf(),
        ensures
            final(self).wf(),
            r is Some <==> !old(self).busy() && old(self).pending().len() > 0,
            r is Some ==> r == Some(old(self).pending()[0]) && final(self).pending() == old(self).pending().drop_first()
                && final(self).busy() && final(self).cycles_started() == old(self).cycles_started() + 1,
            r is None ==> final(self).pending() == old(self).pending() && final(self).busy() == old(self).busy()
                && final(self).cycles_started() == old(self).cycles_started(),
            final(self).max_pending() == old(self).max_pending(),
            final(self).current_generation() == old(self).current_generation(),
            final(self).cycles_finished() == old(self).cycles_finished(),
    {
        if self.running || self.queue.len() == 0 {
            return None;
        }
        let e = self.queue.remove(0);
        self.running = true;
        self.started = Ghost(self.started@ + 1);
        Some(e)
    }

    /// The worker ends its cycle; a deployed cycle advances the generation
    /// by exactly one. Returns the generation now current.
    pub fn finish_cycle(&mut self, deployed: bool) -> (g: u64)
        requires
            old(self).wf(),
            old(self).busy(),
            deployed ==> old(self).current_generation() < u64::MAX,
        ensures
            final(self).wf(),
            !final(self).busy(),
            final(self).current_generation() == old(self).current_generation() + if deployed { 1nat } else { 0nat },
            g == final(self).current_generation(),
            final(self).pending() == old(self).pending(),
            final(self).max_pending() == old(self).max_pending(),
            final(self).cycles_started() == old(self).cycles_started(),
            final(self).cycles_finished() == old(self).cycles_finished() + 1,
    {
        if deployed {
            self.generation = self.generation + 1;
        }
        self.running = false;
        self.finished = Ghost(self.finished@ + 1);
        self.generation
    }

    /// The number of successful cycles so far.
    pub fn generation(&self) -> (g: u64)
        ensures
            g == self.current_generation(),
    {
        self.generation
    }

    /// The worker is in the middle of a cycle.
    pub fn is_busy(&self) -> (b: bool)
        ensures
            b == self.busy(),
    {
        self.running
    }

    /// The number of requests waiting.
    pub fn pending_len(&self) -> (n: usize)
        ensures
            n == self.pending().len(),
    {
        self.queue.len()
    }
}

/// However producers and the worker interleave, at most one cycle is under
/// way at any moment: the cycles begun exceed the cycles ended by at most one,
/// and by one exactly while the worker is busy.
pub proof fn lemma_cycles_never_overlap(c: &Coordinator)
    requires
        c.wf(),
    ensures
        c.cycles_started() <= c.cycles_finished() + 1,
        c.busy() <==> c.cycles_started() == c.cycles_finished() + 1,
        !c.busy() <==> c.cycles_started() == c.cycles_finished(),
{
}

} // verus!
