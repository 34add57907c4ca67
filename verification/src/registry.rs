//! The mathematical model of the instance registry: a dense sequence of
//! slots, each holding a handle and its record, split into a visible prefix
//! and an invisible rest.

use vstd::prelude::*;

verus! {

/// `s` with the items at `i` and `j` exchanged.
pub open spec fn swapped<T>(s: Seq<T>, i: int, j: int) -> Seq<T> {
    s.update(i, s[j]).update(j, s[i])
}

/// What a model holds, slot by slot.
pub struct ModelView<V, I> {
    /// The geometry's vertices.
    pub vertices: Seq<V>,
    /// The triangle list over `vertices`.
    pub indices: Seq<u32>,
    /// The handle that owns each slot.
    pub handles: Seq<usize>,
    /// The record in each slot.
    pub instances: Seq<I>,
    /// The number of visible instances: slots below it are visible.
    pub first_invisible: nat,
    /// The handle that the next insertion hands out.
    pub next_handle: nat,
}

impl<V, I> ModelView<V, I> {
    /// Slots and handles correspond one to one, the visible prefix lies
    /// within the slots, and every handle in use was handed out before.
    pub open spec fn wf(self) -> bool {
        &&& self.handles.len() == self.instances.len()
        &&& self.first_invisible <= self.handles.len()
        &&& self.next_handle <= usize::MAX
        &&& self.handles.no_duplicates()
        &&& forall|i: int|
            0 <= i < self.handles.len() ==> (#[trigger] self.handles[i]) < self.next_handle
    }

    /// The number of instances.
    pub open spec fn len(self) -> nat {
        self.handles.len()
    }

    /// Whether `handle` names an instance.
    pub open spec fn contains(self, handle: usize) -> bool {
        self.handles.contains(handle)
    }

    /// The slot in which the instance of `handle` lies.
    pub open spec fn slot_of(self, handle: usize) -> int {
        choose|i: int| 0 <= i < self.handles.len() && self.handles[i] == handle
    }

    /// The record of `handle`.
    pub open spec fn record(self, handle: usize) -> I {
        self.instances[self.slot_of(handle)]
    }

    /// Whether the instance of `handle` lies in the visible prefix.
    pub open spec fn is_visible(self, handle: usize) -> bool {
        self.slot_of(handle) < self.first_invisible
    }

    /// The registry as a map from each handle to its record and visibility.
    pub open spec fn entries(self) -> Map<usize, (I, bool)> {
        Map::new(
            |h: usize| self.contains(h),
            |h: usize| (self.record(h), self.is_visible(h)),
        )
    }

    /// The handles of the visible instances.
    pub open spec fn visible_handles(self) -> Set<usize> {
        Set::new(|h: usize| self.contains(h) && self.is_visible(h))
    }

    /// The records of the visible prefix, in slot order.
    pub open spec fn visible_instances(self) -> Seq<I> {
        self.instances.subrange(0, self.first_invisible as int)
    }

    /// The slots `i` and `j` exchanged, handle and record together.
    pub open spec fn swap_slots(self, i: int, j: int) -> Self {
        ModelView {
            handles: swapped(self.handles, i, j),
            instances: swapped(self.instances, i, j),
            ..self
        }
    }

    /// A new invisible instance in a new last slot, under the next handle.
    pub open spec fn insert(self, record: I) -> Self {
        ModelView {
            handles: self.handles.push(self.next_handle as usize),
            instances: self.instances.push(record),
            next_handle: self.next_handle + 1,
            ..self
        }
    }

    /// The instance of `handle` moved to the first invisible slot, which then
    /// joins the visible prefix; nothing where it is visible already.
    pub open spec fn make_visible(self, handle: usize) -> Self {
        if self.is_visible(handle) {
            self
        } else {
            ModelView {
                first_invisible: self.first_invisible + 1,
                ..self.swap_slots(self.slot_of(handle), self.first_invisible as int)
            }
        }
    }

    /// The instance of `handle` moved to the last visible slot, which then
    /// leaves the visible prefix; nothing where it is invisible already.
    pub open spec fn make_invisible(self, handle: usize) -> Self {
        if !self.is_visible(handle) {
            self
        } else {
            ModelView {
                first_invisible: (self.first_invisible - 1) as nat,
                ..self.swap_slots(self.slot_of(handle), self.first_invisible - 1)
            }
        }
    }

    /// A new instance made visible at once.
    pub open spec fn insert_visibly(self, record: I) -> Self {
        self.insert(record).make_visible(self.next_handle as usize)
    }

    /// The instance of `handle` made invisible, moved to the last slot and
    /// dropped with it.
    pub open spec fn remove(self, handle: usize) -> Self {
        let hidden = self.make_invisible(handle);
        let moved = hidden.swap_slots(hidden.slot_of(handle), hidden.len() - 1);
        ModelView {
            handles: moved.handles.drop_last(),
            instances: moved.instances.drop_last(),
            ..moved
        }
    }

    /// The slots of `first` and `second` exchanged.
    pub open spec fn swap_by_handle(self, first: usize, second: usize) -> Self {
        self.swap_slots(self.slot_of(first), self.slot_of(second))
    }

    /// The record of `handle` replaced by `record`.
    pub open spec fn with_record(self, handle: usize, record: I) -> Self {
        ModelView { instances: self.instances.update(self.slot_of(handle), record), ..self }
    }

    /// In a well-formed registry a handle lies in one slot only.
    pub proof fn lemma_slot_of(self, i: int)
        requires
            self.wf(),
            0 <= i < self.handles.len(),
        ensures
            self.contains(self.handles[i]),
            self.slot_of(self.handles[i]) == i,
    {
    }

    /// The slot of a handle in use lies within the slots and holds it.
    pub proof fn lemma_slot_in_range(self, handle: usize)
        requires
            self.contains(handle),
        ensures
            0 <= self.slot_of(handle) < self.handles.len(),
            self.handles[self.slot_of(handle)] == handle,
    {
    }

    /// Exchanging two slots keeps the registry well formed, keeps every
    /// handle and its record, and moves only the two handles concerned.
    pub proof fn lemma_swap_slots(self, i: int, j: int)
        requires
            self.wf(),
            0 <= i < self.len(),
            0 <= j < self.len(),
        ensures
            self.swap_slots(i, j).wf(),
            self.swap_slots(i, j).slot_of(self.handles[i]) == j,
            self.swap_slots(i, j).slot_of(self.handles[j]) == i,
            forall|h: usize| self.contains(h) <==> self.swap_slots(i, j).contains(h),
            forall|h: usize|
                self.contains(h) ==> self.swap_slots(i, j).record(h) == self.record(h),
            forall|h: usize|
                self.contains(h) && h != self.handles[i] && h != self.handles[j]
                    ==> self.swap_slots(i, j).slot_of(h) == self.slot_of(h),
    {
        let after = self.swap_slots(i, j);
        after.lemma_slot_of(i);
        after.lemma_slot_of(j);
        assert forall|h: usize| self.contains(h) implies after.contains(h) && after.record(h)
            == self.record(h) && (h != self.handles[i] && h != self.handles[j] ==> after.slot_of(h)
            == self.slot_of(h)) by {
            let s = self.slot_of(h);
            let t = if s == i { j } else if s == j { i } else { s };
            after.lemma_slot_of(t);
        }
    }

    /// An insertion keeps the registry well formed and every instance as it
    /// was, and adds the new one, invisible, under a handle that was not in
    /// use.
    pub proof fn lemma_insert(self, record: I)
        requires
            self.wf(),
            self.next_handle < usize::MAX,
        ensures
            self.insert(record).wf(),
            !self.contains(self.next_handle as usize),
            self.insert(record).contains(self.next_handle as usize),
            self.insert(record).entries() == self.entries().insert(
                self.next_handle as usize,
                (record, false),
            ),
    {
        let after = self.insert(record);
        after.lemma_slot_of(self.handles.len() as int);
        assert forall|h: usize| self.contains(h) implies after.contains(h) && after.slot_of(h)
            == self.slot_of(h) by {
            let s = self.slot_of(h);
            after.lemma_slot_of(s);
        }
    }

    /// Making an instance visible keeps the registry well formed and every
    /// record, and changes the visibility of that instance alone.
    pub proof fn lemma_make_visible(self, handle: usize)
        requires
            self.wf(),
            self.contains(handle),
        ensures
            self.make_visible(handle).wf(),
            self.make_visible(handle).entries() == self.entries().insert(
                handle,
                (self.record(handle), true),
            ),
    {
        let after = self.make_visible(handle);
        if !self.is_visible(handle) {
            let s = self.slot_of(handle);
            let b = self.first_invisible as int;
            let mid = self.swap_slots(s, b);
            self.lemma_swap_slots(s, b);
            assert forall|h: usize| after.contains(h) implies after.slot_of(h) == mid.slot_of(
                h,
            ) by {
                mid.lemma_slot_of(mid.slot_of(h));
                after.lemma_slot_of(mid.slot_of(h));
            }
            assert forall|h: usize| self.contains(h) && h != handle implies after.is_visible(h)
                == self.is_visible(h) by {
                if h == self.handles[b] {
                    self.lemma_slot_of(b);
                }
            }
        }
    }

    /// Making an instance invisible keeps the registry well formed and every
    /// record, and changes the visibility of that instance alone.
    pub proof fn lemma_make_invisible(self, handle: usize)
        requires
            self.wf(),
            self.contains(handle),
        ensures
            self.make_invisible(handle).wf(),
            self.make_invisible(handle).contains(handle),
            !self.make_invisible(handle).is_visible(handle),
            self.make_invisible(handle).entries() == self.entries().insert(
                handle,
                (self.record(handle), false),
            ),
    {
        let after = self.make_invisible(handle);
        if self.is_visible(handle) {
            let s = self.slot_of(handle);
            let b = self.first_invisible - 1;
            let mid = self.swap_slots(s, b);
            self.lemma_swap_slots(s, b);
            assert forall|h: usize| after.contains(h) implies after.slot_of(h) == mid.slot_of(
                h,
            ) by {
                mid.lemma_slot_of(mid.slot_of(h));
                after.lemma_slot_of(mid.slot_of(h));
            }
            assert forall|h: usize| self.contains(h) && h != handle implies after.is_visible(h)
                == self.is_visible(h) by {
                if h == self.handles[b] {
                    self.lemma_slot_of(b);
                }
            }
        }
    }

    /// A removal keeps the registry well formed, takes out that instance
    /// alone, and keeps the record and the visibility of every other.
    pub proof fn lemma_remove(self, handle: usize)
        requires
            self.wf(),
            self.contains(handle),
        ensures
            self.remove(handle).wf(),
            self.remove(handle).entries() == self.entries().remove(handle),
            self.remove(handle).next_handle == self.next_handle,
    {
        let hidden = self.make_invisible(handle);
        self.lemma_make_invisible(handle);
        let s = hidden.slot_of(handle);
        let last = hidden.len() - 1;
        let moved = hidden.swap_slots(s, last);
        hidden.lemma_swap_slots(s, last);
        let after = self.remove(handle);
        moved.lemma_slot_of(last);
        if after.contains(handle) {
            let t = after.slot_of(handle);
            moved.lemma_slot_of(t);
        }
        assert forall|h: usize| self.contains(h) && h != handle implies after.contains(h)
            && after.record(h) == self.record(h) && after.is_visible(h) == self.is_visible(h) by {
            assert(hidden.entries().contains_key(h));
            let t = moved.slot_of(h);
            after.lemma_slot_of(t);
            if h == hidden.handles[last] {
                hidden.lemma_slot_of(last);
            }
        }
    }
}

} // verus!
