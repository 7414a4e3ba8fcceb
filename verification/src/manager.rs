//! A registry of hooks by name.
//!
//! Each name has a slot that holds the record of the hook installed under
//! that name, or nothing. A slot holds at most one record, so at most one
//! hook is in place under a name. The registry reads and writes no memory: it
//! hands out the records whose hooks are to be undone, and takes in the
//! records of hooks that were installed.

use crate::injection::InjectionRecord;
use crate::injection::InjectionState;
use vstd::prelude::*;

verus! {

/// A named place for one hook.
#[derive(Debug)]
pub struct Slot {
    pub name: String,
    pub record: Option<InjectionRecord>,
}

/// The registry.
#[derive(Debug)]
pub struct InjectionManager {
    /// The slots, in the order in which they were added.
    pub injections: Vec<Slot>,
    /// The process that the hooks are in.
    pub pid: u32,
}

/// Index of the first slot at or after `from` that has the name, if there is
/// one.
pub open spec fn slot_from(slots: Seq<Slot>, name: Seq<char>, from: int) -> Option<int>
    decreases slots.len() - from,
{
    if from < 0 || from >= slots.len() {
        None
    } else if slots[from].name@ == name {
        Some(from)
    } else {
        slot_from(slots, name, from + 1)
    }
}

/// Index of the slot that has the name, if there is one.
pub open spec fn slot_of(slots: Seq<Slot>, name: Seq<char>) -> Option<int> {
    slot_from(slots, name, 0)
}

/// The record in the slot of that name, if there is such a slot and it holds
/// one.
pub open spec fn active(slots: Seq<Slot>, name: Seq<char>) -> Option<InjectionRecord> {
    match slot_of(slots, name) {
        Some(i) => slots[i].record,
        None => None,
    }
}

/// The record with its state set.
pub open spec fn in_state(record: InjectionRecord, state: InjectionState) -> InjectionRecord {
    InjectionRecord { state, ..record }
}

/// The slots with the slot at `index` holding `record`.
pub open spec fn with_record(slots: Seq<Slot>, index: int, record: Option<InjectionRecord>) -> Seq<
    Slot,
> {
    slots.update(index, Slot { name: slots[index].name, record })
}

/// The slots after a hook was taken out from under the name: the slot of that
/// name is empty, and nothing else has changed.
pub open spec fn after_remove(slots: Seq<Slot>, name: Seq<char>) -> Seq<Slot> {
    match slot_of(slots, name) {
        Some(i) => with_record(slots, i, None),
        None => slots,
    }
}

/// A hook can be registered under the name: there is a slot of that name,
/// and it is empty.
pub open spec fn vacant(slots: Seq<Slot>, name: Seq<char>) -> bool {
    slot_of(slots, name) is Some && active(slots, name) is None
}

/// The slots after a hook was registered under the name.
pub open spec fn after_apply(slots: Seq<Slot>, name: Seq<char>, record: InjectionRecord) -> Seq<
    Slot,
> {
    if vacant(slots, name) {
        with_record(slots, slot_of(slots, name)->0, Some(in_state(record, InjectionState::Active)))
    } else {
        slots
    }
}

/// The records held by the first `upto` slots, in the order of the slots,
/// each marked as removed.
pub open spec fn records_upto(slots: Seq<Slot>, upto: int) -> Seq<InjectionRecord>
    decreases upto,
{
    if upto <= 0 {
        Seq::empty()
    } else {
        match slots[upto - 1].record {
            Some(r) => records_upto(slots, upto - 1).push(in_state(r, InjectionState::Removed)),
            None => records_upto(slots, upto - 1),
        }
    }
}

/// The slots with every slot emptied.
pub open spec fn all_removed(slots: Seq<Slot>) -> Seq<Slot> {
    Seq::new(slots.len(), |i: int| Slot { name: slots[i].name, record: None })
}

/// No two slots have the same name: a name has one slot, as a key of a map
/// has one value.
pub open spec fn names_distinct(slots: Seq<Slot>) -> bool {
    forall|i: int, j: int|
        0 <= i < j < slots.len() ==> (#[trigger] slots[i]).name@ != (#[trigger] slots[j]).name@
}

/// Slots that differ only in their records have distinct names if the
/// others have.
pub proof fn lemma_names_kept(a: Seq<Slot>, b: Seq<Slot>)
    requires
        a.len() == b.len(),
        forall|i: int| 0 <= i < a.len() ==> (#[trigger] a[i]).name@ == (#[trigger] b[i]).name@,
        names_distinct(a),
    ensures
        names_distinct(b),
{
    assert forall|i: int, j: int| 0 <= i < j < b.len() implies (#[trigger] b[i]).name@ != (
    #[trigger] b[j]).name@ by {
        assert(a[i].name@ == b[i].name@);
        assert(a[j].name@ == b[j].name@);
    }
}

/// A slot that is found lies in the list and has the name; none is found
/// only if no slot has the name.
pub proof fn lemma_slot_from(slots: Seq<Slot>, name: Seq<char>, from: int)
    requires
        0 <= from,
    ensures
        match slot_from(slots, name, from) {
            Some(i) => from <= i < slots.len() && slots[i].name@ == name,
            None => forall|i: int| from <= i < slots.len() ==> (#[trigger] slots[i]).name@ != name,
        },
    decreases slots.len() - from,
{
    if from < slots.len() && slots[from].name@ != name {
        lemma_slot_from(slots, name, from + 1);
    }
}

/// Changing the records of slots does not change where a name is found.
pub proof fn lemma_slot_from_names(a: Seq<Slot>, b: Seq<Slot>, name: Seq<char>, from: int)
    requires
        0 <= from,
        a.len() == b.len(),
        forall|i: int| 0 <= i < a.len() ==> (#[trigger] a[i]).name@ == (#[trigger] b[i]).name@,
    ensures
        slot_from(a, name, from) == slot_from(b, name, from),
    decreases a.len() - from,
{
    if from < a.len() {
        assert(a[from].name@ == b[from].name@);
        if a[from].name@ != name {
            lemma_slot_from_names(a, b, name, from + 1);
        }
    }
}

/// Applying a hook twice under one name leaves one hook in place. To apply a
/// hook is to take out what the slot holds, to be undone, and then to
/// register the new record. After the first record was applied the slot holds
/// it; applying the second hands the first out again, so that its code cave
/// is freed, and the slot then holds the second and nothing else. The other
/// slots are not touched.
pub proof fn lemma_apply_twice_leaves_one(
    slots: Seq<Slot>,
    name: Seq<char>,
    first: InjectionRecord,
    second: InjectionRecord,
)
    requires
        slot_of(slots, name) is Some,
    ensures
        ({
            let once = after_apply(after_remove(slots, name), name, first);
            let between = after_remove(once, name);
            let twice = after_apply(between, name, second);
            let at = slot_of(slots, name)->0;
            &&& active(once, name) == Some(in_state(first, InjectionState::Active))
            &&& active(between, name) is None
            &&& active(twice, name) == Some(in_state(second, InjectionState::Active))
            &&& twice.len() == slots.len()
            &&& forall|i: int| 0 <= i < slots.len() && i != at ==> #[trigger] twice[i] == slots[i]
        }),
{
    let at = slot_of(slots, name)->0;
    lemma_slot_from(slots, name, 0);
    let emptied = after_remove(slots, name);
    lemma_slot_from_names(slots, emptied, name, 0);
    let once = after_apply(emptied, name, first);
    lemma_slot_from_names(emptied, once, name, 0);
    let between = after_remove(once, name);
    lemma_slot_from_names(once, between, name, 0);
    let twice = after_apply(between, name, second);
    lemma_slot_from_names(between, twice, name, 0);
}

impl InjectionManager {
    /// No two slots have the same name.
    pub open spec fn wf(&self) -> bool {
        names_distinct(self.injections@)
    }

    /// A registry for the process `pid`, without slots.
    pub fn new(pid: u32) -> (manager: InjectionManager)
        ensures
            manager.wf(),
            manager.pid == pid,
            manager.injections@.len() == 0,
    {
        InjectionManager { injections: Vec::new(), pid }
    }

    /// Finds the slot called `name`.
    fn find(&self, name: &str) -> (index: Option<usize>)
        ensures
            match index {
                Some(i) => slot_of(self.injections@, name@) == Some(i as int) && i
                    < self.injections@.len() && self.injections@[i as int].name@ == name@,
                None => slot_of(self.injections@, name@) is None,
            },
    {
        let wanted = name.to_string();
        let mut i: usize = 0;
        while i < self.injections.len()
            invariant
                i <= self.injections@.len(),
                wanted@ == name@,
                slot_of(self.injections@, name@) == slot_from(self.injections@, name@, i as int),
            decreases self.injections@.len() - i,
        {
            if self.injections[i].name == wanted {
                return Some(i);
            }
            i = i + 1;
        }
        None
    }

    /// Puts `record` into the slot at `index` and hands out what the slot
    /// held.
    fn exchange(&mut self, index: usize, record: Option<InjectionRecord>) -> (held: Option<
        InjectionRecord,
    >)
        requires
            index < old(self).injections@.len(),
        ensures
            final(self).pid == old(self).pid,
            final(self).injections@ == with_record(old(self).injections@, index as int, record),
            held == old(self).injections@[index as int].record,
            old(self).wf() ==> final(self).wf(),
    {
        let mut slot = Slot { name: self.injections[index].name.clone(), record };
        self.injections.set_and_swap(index, &mut slot);
        proof {
            if old(self).wf() {
                lemma_names_kept(old(self).injections@, self.injections@);
            }
        }
        slot.record
    }

    /// Adds an empty slot called `name`. If there is such a slot already it
    /// is emptied, and the record that it held is handed out: its hook is
    /// still in place, and is the caller's to undo.
    pub fn add_injection(&mut self, name: String) -> (displaced: Option<InjectionRecord>)
        ensures
            final(self).pid == old(self).pid,
            match slot_of(old(self).injections@, name@) {
                Some(i) => {
                    &&& final(self).injections@ == with_record(old(self).injections@, i, None)
                    &&& displaced == match old(self).injections@[i].record {
                        Some(r) => Some(in_state(r, InjectionState::Removed)),
                        None => None,
                    }
                },
                None => {
                    &&& final(self).injections@ == old(self).injections@.push(
                        Slot { name, record: None },
                    )
                    &&& displaced is None
                },
            },
            active(final(self).injections@, name@) is None,
            slot_of(final(self).injections@, name@) is Some,
            old(self).wf() ==> final(self).wf(),
    {
        let ghost before = self.injections@;
        match self.find(name.as_str()) {
            Some(i) => {
                let held = self.exchange(i, None);
                proof {
                    lemma_slot_from_names(before, self.injections@, name@, 0);
                }
                match held {
                    Some(mut record) => {
                        record.state = InjectionState::Removed;
                        Some(record)
                    },
                    None => None,
                }
            },
            None => {
                self.injections.push(Slot { name, record: None });
                proof {
                    lemma_slot_from(before, name@, 0);
                    self.lemma_found_at_end(before, name@, 0);
                    if names_distinct(before) {
                        assert forall|i: int, j: int|
                            0 <= i < j < self.injections@.len() implies (
                        #[trigger] self.injections@[i]).name@ != (
                        #[trigger] self.injections@[j]).name@ by {
                            assert(self.injections@[i] == before[i]);
                            if j < before.len() {
                                assert(self.injections@[j] == before[j]);
                            }
                        }
                    }
                }
                None
            },
        }
    }

    /// A name that no earlier slot has is found in the slot added last.
    proof fn lemma_found_at_end(&self, before: Seq<Slot>, name: Seq<char>, from: int)
        requires
            0 <= from <= before.len(),
            self.injections@.len() == before.len() + 1,
            self.injections@.last().name@ == name,
            forall|i: int| 0 <= i < before.len() ==> self.injections@[i] == before[i],
            forall|i: int| 0 <= i < before.len() ==> (#[trigger] before[i]).name@ != name,
        ensures
            slot_from(self.injections@, name, from) == Some(before.len() as int),
        decreases before.len() - from,
    {
        if from < before.len() {
            assert(self.injections@[from] == before[from]);
            self.lemma_found_at_end(before, name, from + 1);
        }
    }

    /// Tells whether a hook is in place under `name`.
    pub fn has_active(&self, name: &str) -> (held: bool)
        ensures
            held == (active(self.injections@, name@) is Some),
    {
        match self.find(name) {
            Some(i) => self.injections[i].record.is_some(),
            None => false,
        }
    }

    /// Tells whether there is a slot called `name`.
    pub fn has_injection(&self, name: &str) -> (known: bool)
        ensures
            known == (slot_of(self.injections@, name@) is Some),
    {
        self.find(name).is_some()
    }

    /// Registers the hook that was installed under `name`. This needs an
    /// empty slot of that name: a hook that is in place under the name has
    /// to be taken out and undone first. Without such a slot the record
    /// comes back, and the registry is as it was.
    pub fn apply_injection(&mut self, name: &str, record: InjectionRecord) -> (refused: Result<
        (),
        InjectionRecord,
    >)
        ensures
            final(self).pid == old(self).pid,
            final(self).injections@ == after_apply(old(self).injections@, name@, record),
            refused is Ok <==> vacant(old(self).injections@, name@),
            refused is Err ==> refused->Err_0 == record,
            refused is Ok ==> active(final(self).injections@, name@) == Some(
                in_state(record, InjectionState::Active),
            ),            old(self).wf() ==> final(self).wf(),
    {
        let ghost before = self.injections@;
        match self.find(name) {
            Some(i) => {
                if self.injections[i].record.is_some() {
                    return Err(record);
                }
                let mut kept = record;
                kept.state = InjectionState::Active;
                let _ = self.exchange(i, Some(kept));
                proof {
                    lemma_slot_from_names(before, self.injections@, name@, 0);
                }
                Ok(())
            },
            None => Err(record),
        }
    }

    /// Takes the hook that is in place under `name` out of the registry, to
    /// be undone. The slot is empty afterwards.
    pub fn remove_injection(&mut self, name: &str) -> (removed: Option<InjectionRecord>)
        ensures
            final(self).pid == old(self).pid,
            final(self).injections@ == after_remove(old(self).injections@, name@),
            removed == match active(old(self).injections@, name@) {
                Some(r) => Some(in_state(r, InjectionState::Removed)),
                None => None,
            },
            active(final(self).injections@, name@) is None,
            slot_of(final(self).injections@, name@) == slot_of(old(self).injections@, name@),            old(self).wf() ==> final(self).wf(),
    {
        let ghost before = self.injections@;
        match self.find(name) {
            Some(i) => {
                let held = self.exchange(i, None);
                proof {
                    lemma_slot_from_names(before, self.injections@, name@, 0);
                }
                match held {
                    Some(mut record) => {
                        record.state = InjectionState::Removed;
                        Some(record)
                    },
                    None => None,
                }
            },
            None => None,
        }
    }

    /// Takes every hook out of the registry, to be undone. The records come
    /// in the order of their slots, and every slot is empty afterwards.
    pub fn remove_all(&mut self) -> (removed: Vec<InjectionRecord>)
        ensures
            final(self).pid == old(self).pid,
            final(self).injections@ == all_removed(old(self).injections@),
            removed@ == records_upto(old(self).injections@, old(self).injections@.len() as int),            old(self).wf() ==> final(self).wf(),
    {
        let ghost before = self.injections@;
        let mut removed: Vec<InjectionRecord> = Vec::new();
        let mut i: usize = 0;
        while i < self.injections.len()
            invariant
                i <= before.len(),
                self.pid == old(self).pid,
                self.injections@.len() == before.len(),
                forall|k: int|
                    0 <= k < i ==> #[trigger] self.injections@[k] == (Slot {
                        name: before[k].name,
                        record: None,
                    }),
                forall|k: int| i <= k < before.len() ==> #[trigger] self.injections@[k] == before[k],
                removed@ == records_upto(before, i as int),
            decreases before.len() - i,
        {
            let held = self.exchange(i, None);
            match held {
                Some(mut record) => {
                    record.state = InjectionState::Removed;
                    removed.push(record);
                },
                None => {},
            }
            i = i + 1;
        }
        assert(self.injections@ =~= all_removed(before));
        proof {
            if names_distinct(before) {
                lemma_names_kept(before, self.injections@);
            }
        }
        removed
    }
}

} // verus!
