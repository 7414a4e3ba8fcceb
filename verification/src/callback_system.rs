//! Events that are handed to their handlers at a chosen moment.
//!
//! An event that is raised is kept, not handled. The handlers are called
//! when the owner of the manager says so, with the event that was raised
//! last since they were called before.

use vstd::prelude::*;

verus! {

/// The handlers of events of type `T`, and the event that waits for them.
pub struct EventManager<T, F> {
    /// The handlers, in the order in which they were registered.
    pub handlers: Vec<F>,
    /// The event that was raised last and not handled yet.
    pub pending: Option<T>,
}

impl<T, F: Fn(&T)> EventManager<T, F> {
    /// Every handler can be called with every event.
    pub open spec fn wf(&self) -> bool {
        forall|i: int, event: &T|
            0 <= i < self.handlers@.len() ==> (#[trigger] self.handlers@[i].requires((event,)))
    }

    /// A manager without handlers and without an event.
    pub fn new() -> (manager: Self)
        ensures
            manager.wf(),
            manager.handlers@.len() == 0,
            manager.pending is None,
    {
        EventManager { handlers: Vec::new(), pending: None }
    }

    /// Adds a handler behind those that are registered.
    pub fn register(&mut self, handler: F)
        requires
            old(self).wf(),
            forall|event: &T| handler.requires((event,)),
        ensures
            final(self).wf(),
            final(self).handlers@ == old(self).handlers@.push(handler),
            final(self).pending == old(self).pending,
    {
        self.handlers.push(handler);
        proof {
            assert forall|i: int, event: &T| 0 <= i < self.handlers@.len() implies (
            #[trigger] self.handlers@[i].requires((event,))) by {
                if i < old(self).handlers@.len() {
                    assert(self.handlers@[i] == old(self).handlers@[i]);
                    assert(old(self).handlers@[i].requires((event,)));
                }
            }
        }
    }

    /// Raises an event: it takes the place of the one that waits, if one
    /// does.
    pub fn emit(&mut self, event: T)
        ensures
            final(self).handlers == old(self).handlers,
            final(self).pending == Some(event),
    {
        self.pending = Some(event);
    }

    /// Calls every handler with the event that waits, in the order in which
    /// they were registered, and keeps the event no longer. Without an event
    /// nothing is called.
    pub fn update(&mut self)
        requires
            old(self).wf(),
        ensures
            final(self).wf(),
            final(self).handlers == old(self).handlers,
            final(self).pending is None,
    {
        let event = match self.pending.take() {
            Some(event) => event,
            None => {
                return ;
            },
        };
        let mut i: usize = 0;
        while i < self.handlers.len()
            invariant
                i <= self.handlers@.len(),
                self.wf(),
                self.handlers == old(self).handlers,
                self.pending is None,
            decreases self.handlers@.len() - i,
        {
            (self.handlers[i])(&event);
            i = i + 1;
        }
    }
}

} // verus!
