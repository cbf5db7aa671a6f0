use vstd::prelude::*;

verus! {

/// What a worker does next.
pub enum Next<T> {
    /// A task to run.
    Run(T),
    /// No task is queued yet: wait for one.
    Idle,
    /// The queue was closed and every task in it has been handed out: exit.
    Stop,
}

/// The shared first-in, first-out queue of a worker pool. Closing it refuses new
/// tasks but lets the queued ones be handed out; workers stop once it is drained.
pub struct TaskQueue<T> {
    pending: Vec<T>,
    accepting: bool,
    /// Every task ever accepted, in order.
    accepted: Ghost<Seq<T>>,
    /// Every task handed out, in order.
    taken: Ghost<Seq<T>>,
}

impl<T> TaskQueue<T> {
    pub closed spec fn pending(&self) -> Seq<T> {
        self.pending@
    }

    pub closed spec fn accepting(&self) -> bool {
        self.accepting
    }

    pub closed spec fn accepted(&self) -> Seq<T> {
        self.accepted@
    }

    pub closed spec fn taken(&self) -> Seq<T> {
        self.taken@
    }

    /// The tasks handed out, followed by those still queued, are the tasks
    /// accepted, in order: none is lost, repeated or reordered.
    pub open spec fn wf(&self) -> bool {
        self.taken() + self.pending() == self.accepted()
    }

    pub fn new() -> (r: TaskQueue<T>)
        ensures
            r.wf(),
            r.accepting(),
            r.pending() == Seq::<T>::empty(),
            r.accepted() == Seq::<T>::empty(),
            r.taken() == Seq::<T>::empty(),
    {
        let r = TaskQueue {
            pending: Vec::new(),
            accepting: true,
            accepted: Ghost(Seq::empty()),
            taken: Ghost(Seq::empty()),
        };
        assert(r.taken() + r.pending() =~= r.accepted());
        r
    }

    /// Queues `task` at the back, unless the queue was closed: then the task is
    /// handed back.
    pub fn submit(&mut self, task: T) -> (r: Result<(), T>)
        requires
            old(self).wf(),
        ensures
            final(self).wf(),
            final(self).taken() == old(self).taken(),
            final(self).accepting() == old(self).accepting(),
            old(self).accepting() ==> r is Ok && final(self).pending() == old(self).pending().push(task)
                && final(self).accepted() == old(self).accepted().push(task),
            !old(self).accepting() ==> r == Err::<(), T>(task) && final(self).pending() == old(self).pending()
                && final(self).accepted() == old(self).accepted(),
    {
        if self.accepting {
            self.pending.push(task);
            self.accepted = Ghost(self.accepted@.push(task));
            assert(self.taken() + self.pending() =~= self.accepted());
            Ok(())
        } else {
            Err(task)
        }
    }

    /// Hands out the oldest queued task.
    pub fn next(&mut self) -> (r: Next<T>)
        requires
            old(self).wf(),
        ensures
            final(self).wf(),
            final(self).accepted() == old(self).accepted(),
            final(self).accepting() == old(self).accepting(),
            old(self).pending().len() > 0 ==> r == Next::Run(old(self).pending()[0])
                && final(self).pending() == old(self).pending().drop_first()
                && final(self).taken() == old(self).taken().push(old(self).pending()[0]),
            old(self).pending().len() == 0 ==> final(self).pending() == old(self).pending()
                && final(self).taken() == old(self).taken(),
            old(self).pending().len() == 0 && old(self).accepting() ==> r is Idle,
            old(self).pending().len() == 0 && !old(self).accepting() ==> r is Stop
                && final(self).taken() == final(self).accepted(),
    {
        if self.pending.len() > 0 {
            let t = self.pending.remove(0);
            self.taken = Ghost(self.taken@.push(t));
            assert(self.taken() + self.pending() =~= self.accepted());
            Next::Run(t)
        } else if self.accepting {
            Next::Idle
        } else {
            assert(self.taken() + self.pending() =~= self.taken());
            Next::Stop
        }
    }

    /// Refuses every later task; those already queued are still handed out.
    pub fn close(&mut self)
        requires
            old(self).wf(),
        ensures
            final(self).wf(),
            !final(self).accepting(),
            final(self).pending() == old(self).pending(),
            final(self).accepted() == old(self).accepted(),
            final(self).taken() == old(self).taken(),
    {
        self.accepting = false;
    }

    pub fn len(&self) -> (r: usize)
        ensures
            r == self.pending().len(),
    {
        self.pending.len()
    }

    pub fn is_accepting(&self) -> (r: bool)
        ensures
            r == self.accepting(),
    {
        self.accepting
    }
}

} // verus!
