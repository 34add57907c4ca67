//! What holds of the registry over whole runs of operations.

use vstd::prelude::*;
use crate::registry::ModelView;
use crate::utils::low_32_bits;

verus! {

/// One change that a caller can ask of the registry.
pub enum Operation<I> {
    /// `insert` with this record.
    Insert(I),
    /// `insert_visibly` with this record.
    InsertVisibly(I),
    /// `make_visible` with this handle.
    MakeVisible(usize),
    /// `make_invisible` with this handle.
    MakeInvisible(usize),
    /// `remove` with this handle.
    Remove(usize),
}

impl<V, I> ModelView<V, I> {
    /// The registry after `op`. An operation on a handle that names no
    /// instance fails and changes nothing.
    pub open spec fn apply(self, op: Operation<I>) -> Self {
        match op {
            Operation::Insert(record) => self.insert(record),
            Operation::InsertVisibly(record) => self.insert_visibly(record),
            Operation::MakeVisible(handle) => if self.contains(handle) {
                self.make_visible(handle)
            } else {
                self
            },
            Operation::MakeInvisible(handle) => if self.contains(handle) {
                self.make_invisible(handle)
            } else {
                self
            },
            Operation::Remove(handle) => if self.contains(handle) {
                self.remove(handle)
            } else {
                self
            },
        }
    }

    /// The registry after the operations `ops`, first to last.
    pub open spec fn run(self, ops: Seq<Operation<I>>) -> Self
        decreases ops.len(),
    {
        if ops.len() == 0 {
            self
        } else {
            self.run(ops.drop_last()).apply(ops.last())
        }
    }

    /// The handles that, after `ops`, were last made visible and neither made
    /// invisible nor removed since, starting from those visible now.
    pub open spec fn shown_after(self, ops: Seq<Operation<I>>) -> Set<usize>
        decreases ops.len(),
    {
        if ops.len() == 0 {
            self.visible_handles()
        } else {
            let before = self.run(ops.drop_last());
            let shown = self.shown_after(ops.drop_last());
            match ops.last() {
                Operation::Insert(_) => shown,
                Operation::InsertVisibly(_) => shown.insert(before.next_handle as usize),
                Operation::MakeVisible(handle) => if before.contains(handle) {
                    shown.insert(handle)
                } else {
                    shown
                },
                Operation::MakeInvisible(handle) => shown.remove(handle),
                Operation::Remove(handle) => shown.remove(handle),
            }
        }
    }

    /// What one operation does to a well-formed registry: it stays well
    /// formed, the counter of handles moves on by one on an insertion and not
    /// at all otherwise, and the map from handles to records and visibility
    /// changes at the one handle concerned.
    pub proof fn lemma_apply(self, op: Operation<I>)
        requires
            self.wf(),
            self.next_handle < usize::MAX,
        ensures
            self.apply(op).wf(),
            self.apply(op).vertices == self.vertices,
            self.apply(op).indices == self.indices,
            self.apply(op).next_handle == match op {
                Operation::Insert(_) => self.next_handle + 1,
                Operation::InsertVisibly(_) => self.next_handle + 1,
                _ => self.next_handle,
            },
            self.apply(op).entries() == match op {
                Operation::Insert(record) => self.entries().insert(
                    self.next_handle as usize,
                    (record, false),
                ),
                Operation::InsertVisibly(record) => self.entries().insert(
                    self.next_handle as usize,
                    (record, true),
                ),
                Operation::MakeVisible(handle) => if self.contains(handle) {
                    self.entries().insert(handle, (self.record(handle), true))
                } else {
                    self.entries()
                },
                Operation::MakeInvisible(handle) => if self.contains(handle) {
                    self.entries().insert(handle, (self.record(handle), false))
                } else {
                    self.entries()
                },
                Operation::Remove(handle) => self.entries().remove(handle),
            },
    {
        match op {
            Operation::Insert(record) => {
                self.lemma_insert(record);
            },
            Operation::InsertVisibly(record) => {
                let fresh = self.next_handle as usize;
                let inserted = self.insert(record);
                self.lemma_insert(record);
                inserted.lemma_make_visible(fresh);
            },
            Operation::MakeVisible(handle) => {
                if self.contains(handle) {
                    self.lemma_make_visible(handle);
                }
            },
            Operation::MakeInvisible(handle) => {
                if self.contains(handle) {
                    self.lemma_make_invisible(handle);
                }
            },
            Operation::Remove(handle) => {
                if self.contains(handle) {
                    self.lemma_remove(handle);
                }
            },
        }
    }

    /// A run keeps the registry well formed, and its counter of handles
    /// never goes back nor moves by more than one for each operation.
    pub proof fn lemma_run_wf(self, ops: Seq<Operation<I>>)
        requires
            self.wf(),
            self.next_handle + ops.len() <= usize::MAX,
        ensures
            self.run(ops).wf(),
            self.next_handle <= self.run(ops).next_handle <= self.next_handle + ops.len(),
        decreases ops.len(),
    {
        if ops.len() > 0 {
            self.lemma_run_wf(ops.drop_last());
            self.run(ops.drop_last()).lemma_apply(ops.last());
        }
    }

    /// The partition invariant. After any run of insertions, removals and
    /// changes of visibility, the slots below `first_invisible` hold exactly
    /// the handles that were last made visible and neither made invisible nor
    /// removed since, and the slots from there on hold exactly the other
    /// handles in use.
    pub proof fn lemma_partition_invariant(self, ops: Seq<Operation<I>>)
        requires
            self.wf(),
            self.next_handle + ops.len() <= usize::MAX,
        ensures
            self.run(ops).wf(),
            self.run(ops).visible_handles() == self.shown_after(ops),
            forall|slot: int|
                0 <= slot < self.run(ops).len() ==> (slot < self.run(ops).first_invisible
                    <==> self.shown_after(ops).contains(#[trigger] self.run(ops).handles[slot])),
            forall|handle: usize|
                self.shown_after(ops).contains(handle) ==> self.run(ops).contains(handle)
                    && self.run(ops).slot_of(handle) < self.run(ops).first_invisible,
        decreases ops.len(),
    {
        let after = self.run(ops);
        self.lemma_run_wf(ops);
        if ops.len() > 0 {
            let before = self.run(ops.drop_last());
            self.lemma_partition_invariant(ops.drop_last());
            self.lemma_run_wf(ops.drop_last());
            before.lemma_apply(ops.last());
            assert forall|h: usize| after.visible_handles().contains(h) == self.shown_after(
                ops,
            ).contains(h) by {
                assert(after.entries().contains_key(h) == after.contains(h));
                if after.contains(h) {
                    assert(after.entries()[h].1 == after.is_visible(h));
                }
            }
        }
        assert forall|slot: int| 0 <= slot < after.len() implies (slot < after.first_invisible
            <==> self.shown_after(ops).contains(#[trigger] after.handles[slot])) by {
            after.lemma_slot_of(slot);
            assert(after.visible_handles().contains(after.handles[slot]) == (slot
                < after.first_invisible));
        }
        assert forall|handle: usize| self.shown_after(ops).contains(handle) implies after.contains(
            handle,
        ) && after.slot_of(handle) < after.first_invisible by {
            assert(after.visible_handles().contains(handle));
        }
    }

    /// Handle stability. As long as a handle is not itself removed, it goes
    /// on naming the record that it was given, whatever is inserted, removed
    /// or made visible or invisible, that instance included.
    pub proof fn lemma_handle_stability(self, handle: usize, ops: Seq<Operation<I>>)
        requires
            self.wf(),
            self.next_handle + ops.len() <= usize::MAX,
            self.contains(handle),
            forall|k: int| 0 <= k < ops.len() ==> #[trigger] ops[k] != Operation::<I>::Remove(handle),
        ensures
            self.run(ops).contains(handle),
            self.run(ops).record(handle) == self.record(handle),
        decreases ops.len(),
    {
        if ops.len() > 0 {
            let before = self.run(ops.drop_last());
            let after = self.run(ops);
            self.lemma_handle_stability(handle, ops.drop_last());
            self.lemma_run_wf(ops.drop_last());
            before.lemma_apply(ops.last());
            before.lemma_slot_in_range(handle);
            assert(after.entries().contains_key(handle));
            assert(after.entries()[handle].0 == after.record(handle));
        }
    }

    /// No reuse. The counter of handles never goes back, and a handle below
    /// it that names no instance, be it removed or never used, names none
    /// ever after.
    pub proof fn lemma_no_reuse(self, handle: usize, ops: Seq<Operation<I>>)
        requires
            self.wf(),
            self.next_handle + ops.len() <= usize::MAX,
            handle < self.next_handle,
            !self.contains(handle),
        ensures
            self.run(ops).next_handle >= self.next_handle,
            !self.run(ops).contains(handle),
        decreases ops.len(),
    {
        self.lemma_run_wf(ops);
        if ops.len() > 0 {
            let before = self.run(ops.drop_last());
            let after = self.run(ops);
            self.lemma_no_reuse(handle, ops.drop_last());
            self.lemma_run_wf(ops.drop_last());
            before.lemma_apply(ops.last());
            assert(after.entries().contains_key(handle) == after.contains(handle));
        }
    }

    /// A handle that an insertion hands out was never in use before: it is
    /// the counter's value, above every handle in use.
    pub proof fn lemma_fresh_handle(self, record: I)
        requires
            self.wf(),
            self.next_handle < usize::MAX,
        ensures
            !self.contains(self.next_handle as usize),
            forall|h: usize| self.contains(h) ==> h < self.next_handle,
            self.insert(record).contains(self.next_handle as usize),
            self.insert(record).next_handle == self.next_handle + 1,
    {
        self.lemma_insert(record);
        assert forall|h: usize| self.contains(h) implies h < self.next_handle by {
            self.lemma_slot_in_range(h);
        }
    }

    /// Idempotence. To make an instance visible twice in a row is to make it
    /// visible once, and likewise to make it invisible.
    pub proof fn lemma_visibility_idempotent(self, handle: usize)
        requires
            self.wf(),
        ensures
            self.apply(Operation::MakeVisible(handle)).apply(Operation::MakeVisible(handle))
                == self.apply(Operation::MakeVisible(handle)),
            self.apply(Operation::MakeInvisible(handle)).apply(Operation::MakeInvisible(handle))
                == self.apply(Operation::MakeInvisible(handle)),
    {
        if self.contains(handle) {
            self.lemma_make_visible(handle);
            self.lemma_make_invisible(handle);
        }
    }

    /// Draw count correctness. The visible prefix, which is what the instance
    /// buffer mirrors and what a draw counts, holds the records of the
    /// visible instances, each once, and of no other; and a count that fits
    /// 32 bits reaches the draw command unchanged.
    pub proof fn lemma_draw_count(self)
        requires
            self.wf(),
        ensures
            self.visible_instances().len() == self.first_invisible,
            forall|slot: int|
                0 <= slot < self.first_invisible ==> {
                    &&& self.contains(#[trigger] self.handles[slot])
                    &&& self.is_visible(self.handles[slot])
                    &&& self.visible_instances()[slot] == self.record(self.handles[slot])
                },
            forall|handle: usize|
                self.contains(handle) && self.is_visible(handle) ==> {
                    &&& 0 <= #[trigger] self.slot_of(handle) < self.first_invisible
                    &&& self.visible_instances()[self.slot_of(handle)] == self.record(handle)
                },
            self.visible_instances().to_set() == Set::new(
                |record: I|
                    exists|handle: usize|
                        self.contains(handle) && self.is_visible(handle) && #[trigger] self.record(
                            handle,
                        ) == record,
            ),
            self.visible_handles().finite(),
            self.visible_handles().len() == self.first_invisible,
            self.first_invisible <= u32::MAX ==> low_32_bits(self.first_invisible)
                == self.first_invisible,
    {
        let prefix = self.visible_instances();
        assert forall|slot: int| 0 <= slot < self.first_invisible implies {
            &&& self.contains(#[trigger] self.handles[slot])
            &&& self.is_visible(self.handles[slot])
            &&& prefix[slot] == self.record(self.handles[slot])
        } by {
            self.lemma_slot_of(slot);
        }
        assert forall|handle: usize| self.contains(handle) && self.is_visible(handle) implies {
            &&& 0 <= #[trigger] self.slot_of(handle) < self.first_invisible
            &&& prefix[self.slot_of(handle)] == self.record(handle)
        } by {
            self.lemma_slot_in_range(handle);
        }
        let records = Set::new(
            |record: I|
                exists|handle: usize|
                    self.contains(handle) && self.is_visible(handle) && #[trigger] self.record(
                        handle,
                    ) == record,
        );
        assert forall|record: I| prefix.to_set().contains(record) == records.contains(record) by {
            if prefix.to_set().contains(record) {
                let slot = choose|slot: int| 0 <= slot < prefix.len() && prefix[slot] == record;
                self.lemma_slot_of(slot);
            }
            if records.contains(record) {
                let handle = choose|handle: usize|
                    self.contains(handle) && self.is_visible(handle) && #[trigger] self.record(
                        handle,
                    ) == record;
                self.lemma_slot_in_range(handle);
            }
        }
        let leading = self.handles.subrange(0, self.first_invisible as int);
        assert forall|h: usize| leading.to_set().contains(h) == self.visible_handles().contains(
            h,
        ) by {
            if leading.to_set().contains(h) {
                let slot = choose|slot: int| 0 <= slot < leading.len() && leading[slot] == h;
                self.lemma_slot_of(slot);
            }
            if self.visible_handles().contains(h) {
                self.lemma_slot_in_range(h);
                assert(leading[self.slot_of(h)] == h);
            }
        }
        assert(leading.to_set() =~= self.visible_handles());
        leading.unique_seq_to_set();
        vstd::seq_lib::seq_to_set_is_finite(leading);
    }
}

} // verus!
