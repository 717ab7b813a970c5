//! Work for the host's main thread: host calls may only be made there, so
//! service handlers hand work to a queue that the main thread's timer
//! drains, in order. Before the task support is installed, work handed in
//! is dropped. The timer also fires the callbacks registered with it.
use vstd::prelude::*;

verus! {

/// Work waiting for the main thread, and whether the task support that
/// carries it there is installed.
pub struct MainThreadQueue<F> {
    installed: bool,
    pending: Vec<F>,
}

impl<F> MainThreadQueue<F> {
    /// Whether the task support is installed.
    pub closed spec fn installed(&self) -> bool {
        self.installed
    }

    /// The work waiting, oldest first.
    pub closed spec fn pending(&self) -> Seq<F> {
        self.pending@
    }

    /// No task support yet, nothing waiting.
    pub fn new() -> (r: Self)
        ensures
            !r.installed(),
            r.pending().len() == 0,
    {
        MainThreadQueue { installed: false, pending: Vec::new() }
    }

    /// Install the task support (once; installing again changes nothing).
    pub fn set_task_support(&mut self)
        ensures
            final(self).installed(),
            final(self).pending() == old(self).pending(),
    {
        self.installed = true;
    }

    /// Whether work can be handed to the main thread now; a query made
    /// without task support gives nothing.
    pub fn can_query(&self) -> (r: bool)
        ensures
            r == self.installed(),
    {
        self.installed
    }

    /// Hand `f` to the main thread, fire and forget: it waits behind the
    /// work already queued; without task support it is dropped.
    pub fn run(&mut self, f: F)
        ensures
            final(self).installed() == old(self).installed(),
            old(self).installed() ==> final(self).pending() == old(self).pending().push(f),
            !old(self).installed() ==> final(self).pending() == old(self).pending(),
    {
        if self.installed {
            self.pending.push(f);
        }
    }

    /// The main thread takes all waiting work, oldest first.
    pub fn take_pending(&mut self) -> (r: Vec<F>)
        ensures
            r@ == old(self).pending(),
            final(self).pending().len() == 0,
            final(self).installed() == old(self).installed(),
    {
        let mut taken: Vec<F> = Vec::new();
        std::mem::swap(&mut taken, &mut self.pending);
        taken
    }
}

/// The callbacks that the main thread's timer fires, in registration order.
pub struct TimerCallbacks<C> {
    callbacks: Vec<C>,
}

impl<C> TimerCallbacks<C> {
    /// The callbacks, in registration order.
    pub closed spec fn registered(&self) -> Seq<C> {
        self.callbacks@
    }

    /// No callbacks.
    pub fn new() -> (r: Self)
        ensures
            r.registered().len() == 0,
    {
        TimerCallbacks { callbacks: Vec::new() }
    }

    /// Register another callback; it fires after those registered before.
    pub fn register_internal_timer(&mut self, callback: C)
        ensures
            final(self).registered() == old(self).registered().push(callback),
    {
        self.callbacks.push(callback);
    }

    /// The callbacks to fire, in registration order.
    pub fn callbacks(&self) -> (r: &[C])
        ensures
            r@ == self.registered(),
    {
        self.callbacks.as_slice()
    }
}

} // verus!
