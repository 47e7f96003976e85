//! An ordered queue of named deferred actions.  Each queued action runs at
//! most once, in enqueue order, either on an explicit [`Callbacks::run`] or
//! at the latest when the owning session is torn down.

use vstd::prelude::*;

use crate::error::YumaError;

verus! {

/// A single deferred action; calling it consumes it, so it runs at most once.
pub struct YumaCallback<F: FnOnce() -> Result<(), YumaError>>(F);

impl<F: FnOnce() -> Result<(), YumaError>> YumaCallback<F> {
    /// The wrapped action.
    pub closed spec fn action(self) -> F {
        self.0
    }

    /// Wraps an action for deferred execution.
    pub fn new(f: F) -> (r: Self)
        ensures
            r.action() == f,
    {
        YumaCallback(f)
    }

    /// Runs the wrapped action, consuming it.
    pub fn call(self) -> (r: Result<(), YumaError>)
        requires
            call_requires(self.action(), ()),
        ensures
            call_ensures(self.action(), (), r),
    {
        (self.0)()
    }
}

/// Holds when running a queue failed at position `j`: every action before
/// `j` ran and returned success, and the action at `j` returned the error.
pub open spec fn failed_at<F: FnOnce() -> Result<(), YumaError>>(
    actions: Seq<F>,
    e: YumaError,
    j: int,
) -> bool {
    &&& 0 <= j < actions.len()
    &&& call_ensures(actions[j], (), Err::<(), YumaError>(e))
    &&& forall|i: int| 0 <= i < j ==> call_ensures(#[trigger] actions[i], (), Ok::<(), YumaError>(()))
}

/// The queue of scheduled callbacks, drained in FIFO order by [`Callbacks::run`].
pub struct Callbacks<F: FnOnce() -> Result<(), YumaError>> {
    queued: Vec<(String, YumaCallback<F>)>,
}

impl<F: FnOnce() -> Result<(), YumaError>> Callbacks<F> {
    /// Every queued action is ready to be called.
    #[verifier::type_invariant]
    spec fn wf(self) -> bool {
        forall|i: int|
            0 <= i < self.queued.len() ==> call_requires(
                (#[trigger] self.queued@[i]).1.action(),
                (),
            )
    }

    /// The names of the queued actions, oldest first.
    pub closed spec fn names(self) -> Seq<Seq<char>> {
        self.queued@.map_values(|p: (String, YumaCallback<F>)| p.0@)
    }

    /// The queued actions themselves, oldest first.
    pub closed spec fn actions(self) -> Seq<F> {
        self.queued@.map_values(|p: (String, YumaCallback<F>)| p.1.action())
    }

    /// An empty queue.
    pub fn new() -> (r: Self)
        ensures
            r.names() =~= Seq::<Seq<char>>::empty(),
            r.actions() =~= Seq::<F>::empty(),
    {
        Self { queued: Vec::new() }
    }

    /// Appends a named action at the back of the queue.
    pub fn add(&mut self, name: String, f: F)
        requires
            call_requires(f, ()),
        ensures
            final (self).names() =~= old(self).names().push(name@),
            final (self).actions() =~= old(self).actions().push(f),
    {
        proof {
            use_type_invariant(&*self);
        }
        let mut taken: Vec<(String, YumaCallback<F>)> = Vec::new();
        core::mem::swap(&mut taken, &mut self.queued);
        taken.push((name, YumaCallback::new(f)));
        self.queued = taken;
    }

    /// Drains the queue front to back, invoking each action exactly once.
    /// The first failing action's error is returned at once; because the
    /// whole queue is taken at the start, actions after a failure are
    /// discarded, not retried.  The queue is empty afterwards in every case.
    pub fn run(&mut self) -> (r: Result<(), YumaError>)
        ensures
            final (self).actions() =~= Seq::<F>::empty(),
            old(self).actions().len() == 0 ==> r is Ok,
            r is Ok ==> forall|i: int|
                0 <= i < old(self).actions().len() ==> call_ensures(
                    #[trigger] old(self).actions()[i],
                    (),
                    Ok::<(), YumaError>(()),
                ),
            r matches Err(e) ==> exists|j: int| failed_at(old(self).actions(), e, j),
    {
        proof {
            use_type_invariant(&*self);
        }
        let ghost all = self.actions();
        let mut taken: Vec<(String, YumaCallback<F>)> = Vec::new();
        core::mem::swap(&mut taken, &mut self.queued);
        let n = taken.len();
        let ghost total = n as nat;
        let mut done: usize = 0;
        while taken.len() > 0
            invariant
                all == old(self).actions(),
                done + taken@.len() == total,
                total <= usize::MAX,
                all.len() == total,
                self.queued@.len() == 0,
                forall|i: int|
                    0 <= i < taken@.len() ==> (#[trigger] taken@[i]).1.action() == all[done + i],
                forall|i: int|
                    0 <= i < taken@.len() ==> call_requires((#[trigger] taken@[i]).1.action(), ()),
                forall|i: int|
                    0 <= i < done ==> call_ensures(#[trigger] all[i], (), Ok::<(), YumaError>(())),
            decreases taken@.len(),
        {
            proof {
                assert(taken@[0].1.action() == all[done as int]);
            }
            let (_name, cb) = taken.remove(0);
            let res = cb.call();
            match res {
                Ok(u) => {
                    proof {
                        assert(res == Ok::<(), YumaError>(u));
                        assert(call_ensures(all[done as int], (), Ok::<(), YumaError>(())));
                    }
                },
                Err(e) => {
                    proof {
                        assert(failed_at(old(self).actions(), e, done as int));
                        assert(exists|j: int| failed_at(old(self).actions(), e, j));
                    }
                    return Err(e);
                },
            }
            done = done + 1;
        }
        Ok(())
    }

    /// How many actions are queued.
    pub fn len(&self) -> (r: usize)
        ensures
            r == self.actions().len(),
    {
        self.queued.len()
    }

    /// Reserved for future background execution; completes at once today.
    pub fn wait(&mut self) -> (r: Result<(), YumaError>)
        ensures
            *final (self) == *old(self),
            r is Ok,
    {
        Ok(())
    }

    /// Reserved for future cancellation support; has no effect today.
    pub fn abort(&mut self)
        ensures
            *final (self) == *old(self),
    {
    }
}

} // verus!
