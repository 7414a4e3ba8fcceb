//! Signals: sets of callbacks that are called with a value.

use std::collections::HashMap;
use vstd::prelude::*;
use vstd::std_specs::hash::group_hash_axioms;

verus! {

broadcast use group_hash_axioms;

/// Names a connection of a callback to a signal.
pub type SlotId = u32;

/// A signal that carries values of type `T` to callbacks of type `F`.
pub struct Signal<T, F> {
    /// The connected callbacks, each under the identifier of its connection.
    pub slots: HashMap<SlotId, F>,
    /// The identifier that the next connection gets.
    pub next_id: SlotId,
    /// The type of the values has no place in the fields.
    pub carried: core::marker::PhantomData<T>,
}

impl<T, F: Fn(&T)> Signal<T, F> {
    /// Every callback can be called with every value, and every identifier
    /// in use is smaller than the next one, so that a new connection never
    /// takes the place of one that is there.
    pub open spec fn wf(&self) -> bool {
        &&& forall|id: SlotId, value: &T|
            self.slots@.contains_key(id) ==> (#[trigger] self.slots@[id].requires((value,)))
        &&& forall|id: SlotId| #[trigger] self.slots@.contains_key(id) ==> id < self.next_id
    }

    /// The identifiers of the connections.
    pub open spec fn ids(&self) -> Set<SlotId> {
        self.slots@.dom()
    }

    /// A signal without connections.
    pub fn new() -> (signal: Self)
        ensures
            signal.wf(),
            signal.ids() == Set::<SlotId>::empty(),
            signal.next_id == 0,
    {
        let signal = Signal { slots: HashMap::new(), next_id: 0, carried: core::marker::PhantomData };
        assert(signal.ids() =~= Set::<SlotId>::empty());
        signal
    }

    /// Connects a callback, and gives the connection the next identifier.
    pub fn connect(&mut self, callback: F) -> (id: SlotId)
        requires
            old(self).wf(),
            old(self).next_id < u32::MAX,
            forall|value: &T| callback.requires((value,)),
        ensures
            final(self).wf(),
            id == old(self).next_id,
            final(self).next_id == id + 1,
            final(self).slots@ == old(self).slots@.insert(id, callback),
            final(self).ids() == old(self).ids().insert(id),
            !old(self).ids().contains(id),
    {
        let id = self.next_id;
        self.next_id = self.next_id + 1;
        self.slots.insert(id, callback);
        assert(self.ids() =~= old(self).ids().insert(id));
        id
    }

    /// Takes the connection with the identifier away, and tells whether
    /// there was one. A second call with the same identifier finds none.
    pub fn disconnect(&mut self, id: SlotId) -> (found: bool)
        requires
            old(self).wf(),
        ensures
            final(self).wf(),
            found == old(self).ids().contains(id),
            final(self).slots@ == old(self).slots@.remove(id),
            final(self).ids() == old(self).ids().remove(id),
            !final(self).ids().contains(id),
            final(self).next_id == old(self).next_id,
    {
        let removed = self.slots.remove(&id);
        assert(self.ids() =~= old(self).ids().remove(id));
        removed.is_some()
    }

    /// Calls every connected callback with the value, each once, in no
    /// particular order.
    pub fn emit(&self, data: &T)
        requires
            self.wf(),
    {
        for callback in it: self.slots.values()
            invariant
                self.wf(),
                it.seq().unref().to_set() == self.slots@.values(),
        {
            proof {
                let called = *callback;
                assert(it.seq().unref()[it.index() as int] == called);
                assert(it.seq().unref().to_set().contains(called));
                assert(self.slots@.values().contains(called));
                let id = choose|id: SlotId|
                    self.slots@.contains_key(id) && self.slots@[id] == called;
                assert(self.slots@[id].requires((data,)));
            }
            callback(data);
        }
    }
}

/// A signal under the name that callers of typed signals know it by.
pub struct TypedSignal<T, F> {
    pub signal: Signal<T, F>,
}

impl<T, F: Fn(&T)> TypedSignal<T, F> {
    /// The signal underneath is well formed.
    pub open spec fn wf(&self) -> bool {
        self.signal.wf()
    }

    /// The identifiers of the connections.
    pub open spec fn ids(&self) -> Set<SlotId> {
        self.signal.ids()
    }

    /// A signal without connections.
    pub fn new() -> (signal: Self)
        ensures
            signal.wf(),
            signal.ids() == Set::<SlotId>::empty(),
            signal.signal.next_id == 0,
    {
        TypedSignal { signal: Signal::new() }
    }

    /// Connects a callback, and gives the connection the next identifier.
    pub fn connect(&mut self, callback: F) -> (id: SlotId)
        requires
            old(self).wf(),
            old(self).signal.next_id < u32::MAX,
            forall|value: &T| callback.requires((value,)),
        ensures
            final(self).wf(),
            id == old(self).signal.next_id,
            final(self).signal.next_id == id + 1,
            final(self).signal.slots@ == old(self).signal.slots@.insert(id, callback),
            final(self).ids() == old(self).ids().insert(id),
            !old(self).ids().contains(id),
    {
        self.signal.connect(callback)
    }

    /// Takes the connection with the identifier away, and tells whether
    /// there was one. A second call with the same identifier finds none.
    pub fn disconnect(&mut self, id: SlotId) -> (found: bool)
        requires
            old(self).wf(),
        ensures
            final(self).wf(),
            found == old(self).ids().contains(id),
            final(self).signal.slots@ == old(self).signal.slots@.remove(id),
            final(self).ids() == old(self).ids().remove(id),
            !final(self).ids().contains(id),
            final(self).signal.next_id == old(self).signal.next_id,
    {
        self.signal.disconnect(id)
    }

    /// Calls every connected callback with the value, each once, in no
    /// particular order.
    pub fn emit(&self, data: &T)
        requires
            self.wf(),
    {
        self.signal.emit(data)
    }
}

} // verus!
