//! The instance registry: geometry shared by all instances of a model, the
//! instances themselves behind stable handles, and the device buffers that
//! mirror them.

use crate::buffers::{
    plan_upload, upload_step, AllocationError, Buffer, BufferUsage, MemoryUsage, UploadStep,
};
use crate::refinement::{distinct_edges, edges, refine_geometry, triangle_refined, vertices_refined};
use crate::registry::ModelView;
use crate::utils::{checked_payload_bytes, low_32_bits, payload_bytes};
use std::collections::HashMap;
use vstd::layout::size_of;
use vstd::prelude::*;

verus! {

broadcast use vstd::std_specs::hash::group_hash_axioms;

/// `<[T]>::swap`, which exchanges the items at `a` and `b` and leaves the
/// others alone; it panics on an index beyond the end.
pub assume_specification<Elem>[ <[Elem]>::swap ](slice: &mut [Elem], a: usize, b: usize)
    requires
        a < old(slice)@.len(),
        b < old(slice)@.len(),
    ensures
        final(slice)@ == old(slice)@.update(a as int, old(slice)@[b as int]).update(
            b as int,
            old(slice)@[a as int],
        ),
;

/// The handle names no instance: it was never handed out, or its instance
/// was removed.
#[derive(Clone, Copy, Debug, PartialEq, Eq, Structural)]
pub struct InvalidHandle;

impl InvalidHandle {
    /// The error in words.
    pub fn message(&self) -> (text: String)
        ensures
            text@ == "invalid handle"@,
    {
        "invalid handle".to_owned()
    }
}

/// One indexed, instanced draw of a model, with the buffers to bind for it.
pub struct DrawCall<'a, H> {
    /// Bound as vertex input 0, from its start.
    pub vertexbuffer: &'a H,
    /// Bound as vertex input 1, from its start.
    pub instancebuffer: &'a H,
    /// Bound as the index buffer, with 32-bit indices, from its start.
    pub indexbuffer: &'a H,
    /// The number of indices to draw.
    pub index_count: u32,
    /// The number of instances to draw.
    pub instance_count: u32,
    /// The position in the triangle list at which the draw starts.
    pub first_index: u32,
    /// What is added to each index before it selects a vertex.
    pub vertex_offset: i32,
    /// The instance at which the draw starts.
    pub first_instance: u32,
}

/// A model: vertices and a triangle list, and any number of instances of it,
/// the visible ones in the leading slots.
pub struct Model<V, I, H> {
    vertexdata: Vec<V>,
    indexdata: Vec<u32>,
    handle_to_index: HashMap<usize, usize>,
    handles: Vec<usize>,
    instances: Vec<I>,
    first_invisible: usize,
    next_handle: usize,
    vertexbuffer: Option<Buffer<H>>,
    indexbuffer: Option<Buffer<H>>,
    instancebuffer: Option<Buffer<H>>,
}

impl<V, I, H> View for Model<V, I, H> {
    type V = ModelView<V, I>;

    closed spec fn view(&self) -> ModelView<V, I> {
        ModelView {
            vertices: self.vertexdata@,
            indices: self.indexdata@,
            handles: self.handles@,
            instances: self.instances@,
            first_invisible: self.first_invisible as nat,
            next_handle: self.next_handle as nat,
        }
    }
}

impl<V, I, H> Model<V, I, H> {
    /// The lookup table sends each handle in use to its slot, and nothing else
    /// anywhere.
    pub closed spec fn index_agrees(&self) -> bool {
        &&& forall|i: int|
            0 <= i < self.handles@.len() ==> self.handle_to_index@.contains_key(
                #[trigger] self.handles@[i],
            ) && self.handle_to_index@[self.handles@[i]] == i
        &&& forall|h: usize| #[trigger]
            self.handle_to_index@.contains_key(h) ==> self.handle_to_index@[h]
                < self.handles@.len() && self.handles@[self.handle_to_index@[h] as int] == h
    }

    /// The registry is well formed and its lookup table agrees with its slots.
    pub open spec fn wf(&self) -> bool {
        self@.wf() && self.index_agrees()
    }

    /// The device buffer that mirrors the vertices, if there is one.
    pub closed spec fn spec_vertexbuffer(&self) -> Option<Buffer<H>> {
        self.vertexbuffer
    }

    /// The device buffer that mirrors the triangle list, if there is one.
    pub closed spec fn spec_indexbuffer(&self) -> Option<Buffer<H>> {
        self.indexbuffer
    }

    /// The device buffer that mirrors the visible instances, if there is one.
    pub closed spec fn spec_instancebuffer(&self) -> Option<Buffer<H>> {
        self.instancebuffer
    }

    /// Whether there is anything to draw: all three device buffers, and a
    /// visible instance.
    pub open spec fn can_draw(&self) -> bool {
        &&& self.spec_vertexbuffer().is_some()
        &&& self.spec_indexbuffer().is_some()
        &&& self.spec_instancebuffer().is_some()
        &&& self@.first_invisible > 0
    }

    /// Both models have the same three device buffers.
    pub open spec fn same_buffers(&self, other: &Self) -> bool {
        &&& self.spec_vertexbuffer() == other.spec_vertexbuffer()
        &&& self.spec_indexbuffer() == other.spec_indexbuffer()
        &&& self.spec_instancebuffer() == other.spec_instancebuffer()
    }

    /// A model of the given geometry, without instances and without device
    /// buffers.
    pub fn new(vertexdata: Vec<V>, indexdata: Vec<u32>) -> (model: Self)
        ensures
            model.wf(),
            model@.vertices == vertexdata@,
            model@.indices == indexdata@,
            model@.handles == Seq::<usize>::empty(),
            model@.instances == Seq::<I>::empty(),
            model@.first_invisible == 0,
            model@.next_handle == 0,
            model.spec_vertexbuffer().is_none(),
            model.spec_indexbuffer().is_none(),
            model.spec_instancebuffer().is_none(),
    {
        Model {
            vertexdata,
            indexdata,
            handle_to_index: HashMap::new(),
            handles: Vec::new(),
            instances: Vec::new(),
            first_invisible: 0,
            next_handle: 0,
            vertexbuffer: None,
            indexbuffer: None,
            instancebuffer: None,
        }
    }

    /// The slot of `handle`, where it names an instance.
    fn index_of(&self, handle: usize) -> (slot: Option<usize>)
        requires
            self.wf(),
        ensures
            match slot {
                Some(i) => self@.contains(handle) && i == self@.slot_of(handle) && i
                    < self@.len(),
                None => !self@.contains(handle),
            },
    {
        match self.handle_to_index.get(&handle) {
            Some(index) => {
                proof {
                    self@.lemma_slot_of(*index as int);
                }
                Some(*index)
            },
            None => None,
        }
    }

    /// The record of `handle`, where it names an instance.
    pub fn get(&self, handle: usize) -> (found: Option<&I>)
        requires
            self.wf(),
        ensures
            match found {
                Some(record) => self@.contains(handle) && *record == self@.record(handle),
                None => !self@.contains(handle),
            },
    {
        match self.index_of(handle) {
            Some(index) => Some(&self.instances[index]),
            None => None,
        }
    }

    /// The record of `handle`, to be changed in place, where it names an
    /// instance. Whatever is written through it becomes that instance's
    /// record; nothing else changes.
    pub fn get_mut(&mut self, handle: usize) -> (found: Option<&mut I>)
        requires
            old(self).wf(),
        ensures
            final(self).wf(),
            final(self).same_buffers(old(self)),
            match found {
                Some(record) => {
                    &&& old(self)@.contains(handle)
                    &&& *record == old(self)@.record(handle)
                    &&& final(self)@ == old(self)@.with_record(handle, *final(record))
                },
                None => !old(self)@.contains(handle) && final(self)@ == old(self)@,
            },
    {
        match self.index_of(handle) {
            Some(index) => Some(&mut self.instances[index]),
            None => None,
        }
    }

    /// Whether the instance of `handle` is visible.
    pub fn is_visible(&self, handle: usize) -> (answer: Result<bool, InvalidHandle>)
        requires
            self.wf(),
        ensures
            match answer {
                Ok(visible) => self@.contains(handle) && visible == self@.is_visible(handle),
                Err(_) => !self@.contains(handle),
            },
    {
        match self.index_of(handle) {
            Some(index) => Ok(index < self.first_invisible),
            None => Err(InvalidHandle),
        }
    }

    /// Exchanges two slots, handle and record together, and keeps the lookup
    /// table in step.
    fn swap_by_index(&mut self, index1: usize, index2: usize)
        requires
            old(self).wf(),
            index1 < old(self)@.len(),
            index2 < old(self)@.len(),
        ensures
            final(self).wf(),
            final(self)@ == old(self)@.swap_slots(index1 as int, index2 as int),
            final(self).same_buffers(old(self)),
    {
        if index1 == index2 {
            assert(self@.handles =~= self@.swap_slots(index1 as int, index2 as int).handles);
            assert(self@.instances =~= self@.swap_slots(index1 as int, index2 as int).instances);
            return ;
        }
        let handle1 = self.handles[index1];
        let handle2 = self.handles[index2];
        self.handles.swap(index1, index2);
        self.instances.swap(index1, index2);
        self.handle_to_index.insert(handle1, index2);
        self.handle_to_index.insert(handle2, index1);
    }

    /// Stores `element` as a new invisible instance, in a new last slot, and
    /// hands out its handle, which no instance has had before.
    pub fn insert(&mut self, element: I) -> (handle: usize)
        requires
            old(self).wf(),
            old(self)@.next_handle < usize::MAX,
        ensures
            final(self).wf(),
            handle == old(self)@.next_handle,
            !old(self)@.contains(handle),
            final(self)@.contains(handle),
            final(self)@ == old(self)@.insert(element),
            final(self)@.entries() == old(self)@.entries().insert(handle, (element, false)),
            final(self).same_buffers(old(self)),
    {
        proof {
            self@.lemma_insert(element);
        }
        let handle = self.next_handle;
        self.next_handle += 1;
        let index = self.instances.len();
        self.instances.push(element);
        self.handles.push(handle);
        self.handle_to_index.insert(handle, index);
        handle
    }

    /// Moves the instance of `handle` into the visible prefix: it changes
    /// places with the first invisible instance, and the prefix grows by that
    /// slot. Nothing happens where it is visible already.
    pub fn make_visible(&mut self, handle: usize) -> (done: Result<(), InvalidHandle>)
        requires
            old(self).wf(),
        ensures
            final(self).wf(),
            final(self).same_buffers(old(self)),
            done.is_ok() <==> old(self)@.contains(handle),
            done.is_ok() ==> final(self)@ == old(self)@.make_visible(handle),
            done.is_ok() ==> final(self)@.entries() == old(self)@.entries().insert(
                handle,
                (old(self)@.record(handle), true),
            ),
            done.is_err() ==> final(self)@ == old(self)@,
    {
        match self.index_of(handle) {
            Some(index) => {
                proof {
                    self@.lemma_make_visible(handle);
                }
                if index < self.first_invisible {
                    return Ok(());
                }
                self.swap_by_index(index, self.first_invisible);
                assert(self.first_invisible < self.handles.len());
                self.first_invisible += 1;
                Ok(())
            },
            None => Err(InvalidHandle),
        }
    }

    /// Moves the instance of `handle` out of the visible prefix: it changes
    /// places with the last visible instance, and the prefix shrinks by that
    /// slot. Nothing happens where it is invisible already.
    pub fn make_invisible(&mut self, handle: usize) -> (done: Result<(), InvalidHandle>)
        requires
            old(self).wf(),
        ensures
            final(self).wf(),
            final(self).same_buffers(old(self)),
            done.is_ok() <==> old(self)@.contains(handle),
            done.is_ok() ==> final(self)@ == old(self)@.make_invisible(handle),
            done.is_ok() ==> final(self)@.entries() == old(self)@.entries().insert(
                handle,
                (old(self)@.record(handle), false),
            ),
            done.is_err() ==> final(self)@ == old(self)@,
    {
        match self.index_of(handle) {
            Some(index) => {
                proof {
                    self@.lemma_make_invisible(handle);
                }
                if index >= self.first_invisible {
                    return Ok(());
                }
                self.swap_by_index(index, self.first_invisible - 1);
                self.first_invisible -= 1;
                Ok(())
            },
            None => Err(InvalidHandle),
        }
    }

    /// Stores `element` as a new instance and makes it visible at once.
    pub fn insert_visibly(&mut self, element: I) -> (handle: usize)
        requires
            old(self).wf(),
            old(self)@.next_handle < usize::MAX,
        ensures
            final(self).wf(),
            handle == old(self)@.next_handle,
            !old(self)@.contains(handle),
            final(self)@.contains(handle),
            final(self)@ == old(self)@.insert_visibly(element),
            final(self)@.entries() == old(self)@.entries().insert(handle, (element, true)),
            final(self).same_buffers(old(self)),
    {
        let new_handle = self.insert(element);
        proof {
            old(self)@.lemma_insert(element);
            self@.lemma_slot_of(self@.len() - 1);
            self@.lemma_make_visible(new_handle);
        }
        let _ = self.make_visible(new_handle);
        assert(self@.entries().contains_key(new_handle));
        new_handle
    }

    /// Takes the instance of `handle` out of the registry and hands back its
    /// record. A visible instance first leaves the visible prefix; then it
    /// changes places with the instance in the last slot, and that slot goes.
    /// The handle names nothing from then on.
    pub fn remove(&mut self, handle: usize) -> (removed: Result<I, InvalidHandle>)
        requires
            old(self).wf(),
        ensures
            final(self).wf(),
            final(self).same_buffers(old(self)),
            match removed {
                Ok(record) => {
                    &&& old(self)@.contains(handle)
                    &&& record == old(self)@.record(handle)
                    &&& final(self)@ == old(self)@.remove(handle)
                    &&& final(self)@.entries() == old(self)@.entries().remove(handle)
                },
                Err(_) => !old(self)@.contains(handle) && final(self)@ == old(self)@,
            },
    {
        match self.index_of(handle) {
            Some(found) => {
                proof {
                    self@.lemma_remove(handle);
                }
                let mut index = found;
                if index < self.first_invisible {
                    self.swap_by_index(index, self.first_invisible - 1);
                    self.first_invisible -= 1;
                    index = self.first_invisible;
                }
                proof {
                    self@.lemma_slot_of(index as int);
                }
                let last = self.instances.len() - 1;
                self.swap_by_index(index, last);
                self.handles.pop();
                self.handle_to_index.remove(&handle);
                let record = self.instances.pop();
                match record {
                    Some(record) => Ok(record),
                    None => Err(InvalidHandle),
                }
            },
            None => Err(InvalidHandle),
        }
    }

    /// Exchanges the slots of two instances. Each record stays with its
    /// handle; the two exchange their places in slot order, and with them
    /// their visibility. Nothing happens where both handles are the same.
    pub fn swap_by_handle(&mut self, handle1: usize, handle2: usize) -> (done: Result<
        (),
        InvalidHandle,
    >)
        requires
            old(self).wf(),
        ensures
            final(self).wf(),
            final(self).same_buffers(old(self)),
            done.is_ok() <==> handle1 == handle2 || (old(self)@.contains(handle1) && old(
                self,
            )@.contains(handle2)),
            done.is_ok() && handle1 != handle2 ==> final(self)@ == old(self)@.swap_by_handle(
                handle1,
                handle2,
            ),
            done.is_err() || handle1 == handle2 ==> final(self)@ == old(self)@,
    {
        if handle1 == handle2 {
            return Ok(());
        }
        match (self.index_of(handle1), self.index_of(handle2)) {
            (Some(index1), Some(index2)) => {
                self.swap_by_index(index1, index2);
                Ok(())
            },
            _ => Err(InvalidHandle),
        }
    }

    /// The number of visible instances.
    pub fn visible_count(&self) -> (count: usize)
        ensures
            count == self@.first_invisible,
    {
        self.first_invisible
    }

    /// The handle that the next insertion hands out.
    pub fn next_handle(&self) -> (handle: usize)
        ensures
            handle == self@.next_handle,
    {
        self.next_handle
    }

    /// The number of instances, visible or not.
    pub fn len(&self) -> (count: usize)
        ensures
            count == self@.instances.len(),
    {
        self.instances.len()
    }

    /// The handle whose instance lies in `slot`, if the slot exists.
    pub fn handle_at(&self, slot: usize) -> (found: Option<usize>)
        ensures
            found == if slot < self@.handles.len() {
                Some(self@.handles[slot as int])
            } else {
                None
            },
    {
        if slot < self.handles.len() {
            Some(self.handles[slot])
        } else {
            None
        }
    }

    /// The vertices.
    pub fn vertices(&self) -> (data: &[V])
        ensures
            data@ == self@.vertices,
    {
        self.vertexdata.as_slice()
    }

    /// The triangle list.
    pub fn indices(&self) -> (data: &[u32])
        ensures
            data@ == self@.indices,
    {
        self.indexdata.as_slice()
    }

    /// The records of the visible instances, in slot order: what the
    /// instance buffer mirrors.
    pub fn visible_instances(&self) -> (data: &[I])
        requires
            self.wf(),
        ensures
            data@ == self@.visible_instances(),
    {
        vstd::slice::slice_subrange(self.instances.as_slice(), 0, self.first_invisible)
    }

    /// The device buffer that mirrors the vertices.
    pub fn vertexbuffer(&self) -> (buffer: &Option<Buffer<H>>)
        ensures
            *buffer == self.spec_vertexbuffer(),
    {
        &self.vertexbuffer
    }

    /// The device buffer that mirrors the triangle list.
    pub fn indexbuffer(&self) -> (buffer: &Option<Buffer<H>>)
        ensures
            *buffer == self.spec_indexbuffer(),
    {
        &self.indexbuffer
    }

    /// The device buffer that mirrors the visible instances.
    pub fn instancebuffer(&self) -> (buffer: &Option<Buffer<H>>)
        ensures
            *buffer == self.spec_instancebuffer(),
    {
        &self.instancebuffer
    }

    /// The place of the vertex buffer, to put one there or to replace it.
    pub fn vertexbuffer_mut(&mut self) -> (buffer: &mut Option<Buffer<H>>)
        ensures
            *buffer == old(self).spec_vertexbuffer(),
            final(self).spec_vertexbuffer() == *final(buffer),
            final(self).spec_indexbuffer() == old(self).spec_indexbuffer(),
            final(self).spec_instancebuffer() == old(self).spec_instancebuffer(),
            final(self)@ == old(self)@,
            old(self).wf() ==> final(self).wf(),
    {
        &mut self.vertexbuffer
    }

    /// The place of the index buffer, to put one there or to replace it.
    pub fn indexbuffer_mut(&mut self) -> (buffer: &mut Option<Buffer<H>>)
        ensures
            *buffer == old(self).spec_indexbuffer(),
            final(self).spec_indexbuffer() == *final(buffer),
            final(self).spec_vertexbuffer() == old(self).spec_vertexbuffer(),
            final(self).spec_instancebuffer() == old(self).spec_instancebuffer(),
            final(self)@ == old(self)@,
            old(self).wf() ==> final(self).wf(),
    {
        &mut self.indexbuffer
    }

    /// The place of the instance buffer, to put one there or to replace it.
    pub fn instancebuffer_mut(&mut self) -> (buffer: &mut Option<Buffer<H>>)
        ensures
            *buffer == old(self).spec_instancebuffer(),
            final(self).spec_instancebuffer() == *final(buffer),
            final(self).spec_vertexbuffer() == old(self).spec_vertexbuffer(),
            final(self).spec_indexbuffer() == old(self).spec_indexbuffer(),
            final(self)@ == old(self)@,
            old(self).wf() ==> final(self).wf(),
    {
        &mut self.instancebuffer
    }

    /// Cuts every triangle of the model into four, as `refine_geometry` does:
    /// the vertices in the middle of the edges, which `midpoint` makes, join
    /// the vertices at the end, and the triangle list is replaced. The
    /// instances and the device buffers stay as they are; the buffers mirror
    /// the new geometry only after the next upload.
    pub fn refine<F: Fn(&V, &V) -> V>(&mut self, midpoint: F)
        requires
            old(self).wf(),
            old(self)@.indices.len() % 3 == 0,
            forall|i: int|
                0 <= i < old(self)@.indices.len() ==> (#[trigger] old(self)@.indices[i]) < old(
                    self,
                )@.vertices.len(),
            old(self)@.vertices.len() + old(self)@.indices.len() < u32::MAX,
            forall|x: &V, y: &V| call_requires(midpoint, (x, y)),
        ensures
            final(self).wf(),
            final(self).same_buffers(old(self)),
            final(self)@.handles == old(self)@.handles,
            final(self)@.instances == old(self)@.instances,
            final(self)@.first_invisible == old(self)@.first_invisible,
            final(self)@.next_handle == old(self)@.next_handle,
            vertices_refined(
                final(self)@.vertices,
                old(self)@.vertices,
                distinct_edges(edges(old(self)@.indices)),
                midpoint,
            ),
            final(self)@.indices.len() == 4 * old(self)@.indices.len(),
            forall|t: int|
                0 <= t < old(self)@.indices.len() / 3 ==> #[trigger] triangle_refined(
                    distinct_edges(edges(old(self)@.indices)),
                    old(self)@.vertices.len(),
                    old(self)@.indices,
                    final(self)@.indices,
                    t,
                ),
            forall|i: int|
                0 <= i < final(self)@.indices.len() ==> (#[trigger] final(self)@.indices[i])
                    < final(self)@.vertices.len(),
    {
        let refined = refine_geometry(&mut self.vertexdata, &self.indexdata, midpoint);
        self.indexdata = refined;
    }

    /// Decides what the device has to do so that the vertex buffer mirrors
    /// the vertices: a first allocation of their exact size, or a fill of the
    /// buffer that is there. Fails where their size is beyond what a device
    /// allocation can have.
    pub fn update_vertexbuffer(&self) -> (step: Result<UploadStep, AllocationError>)
        ensures
            match step {
                Ok(step) => {
                    let bytes = payload_bytes(self@.vertices.len(), size_of::<V>());
                    &&& bytes <= u64::MAX
                    &&& step == upload_step(
                        self.spec_vertexbuffer(),
                        bytes as u64,
                        BufferUsage::Vertex,
                        MemoryUsage::CpuToGpu,
                    )
                },
                Err(_) => payload_bytes(self@.vertices.len(), size_of::<V>()) > u64::MAX,
            },
    {
        match checked_payload_bytes(self.vertexdata.len(), core::mem::size_of::<V>()) {
            Some(bytes) => Ok(
                plan_upload(
                    &self.vertexbuffer,
                    bytes,
                    BufferUsage::Vertex,
                    MemoryUsage::CpuToGpu,
                ),
            ),
            None => Err(AllocationError),
        }
    }

    /// Decides what the device has to do so that the index buffer mirrors
    /// the triangle list.
    pub fn update_indexbuffer(&self) -> (step: Result<UploadStep, AllocationError>)
        ensures
            match step {
                Ok(step) => {
                    let bytes = payload_bytes(self@.indices.len(), size_of::<u32>());
                    &&& bytes <= u64::MAX
                    &&& step == upload_step(
                        self.spec_indexbuffer(),
                        bytes as u64,
                        BufferUsage::Index,
                        MemoryUsage::CpuToGpu,
                    )
                },
                Err(_) => payload_bytes(self@.indices.len(), size_of::<u32>()) > u64::MAX,
            },
    {
        match checked_payload_bytes(self.indexdata.len(), core::mem::size_of::<u32>()) {
            Some(bytes) => Ok(
                plan_upload(&self.indexbuffer, bytes, BufferUsage::Index, MemoryUsage::CpuToGpu),
            ),
            None => Err(AllocationError),
        }
    }

    /// Decides what the device has to do so that the instance buffer mirrors
    /// the visible instances. The invisible ones take no part: the payload is
    /// the visible prefix alone.
    pub fn update_instancebuffer(&self) -> (step: Result<UploadStep, AllocationError>)
        ensures
            match step {
                Ok(step) => {
                    let bytes = payload_bytes(self@.first_invisible, size_of::<I>());
                    &&& bytes <= u64::MAX
                    &&& step == upload_step(
                        self.spec_instancebuffer(),
                        bytes as u64,
                        BufferUsage::Instance,
                        MemoryUsage::CpuToGpu,
                    )
                },
                Err(_) => payload_bytes(self@.first_invisible, size_of::<I>()) > u64::MAX,
            },
    {
        match checked_payload_bytes(self.first_invisible, core::mem::size_of::<I>()) {
            Some(bytes) => Ok(
                plan_upload(
                    &self.instancebuffer,
                    bytes,
                    BufferUsage::Instance,
                    MemoryUsage::CpuToGpu,
                ),
            ),
            None => Err(AllocationError),
        }
    }

    /// The one draw that shows the model: all indices from the first, and as
    /// many instances as are visible, from the first. There is none while a
    /// buffer is missing or no instance is visible. A count beyond 32 bits
    /// reaches the command cut to its low 32 bits.
    pub fn draw(&self) -> (call: Option<DrawCall<'_, H>>)
        ensures
            match call {
                Some(call) => {
                    &&& self.can_draw()
                    &&& *call.vertexbuffer == self.spec_vertexbuffer().unwrap().buffer
                    &&& *call.instancebuffer == self.spec_instancebuffer().unwrap().buffer
                    &&& *call.indexbuffer == self.spec_indexbuffer().unwrap().buffer
                    &&& call.index_count == low_32_bits(self@.indices.len())
                    &&& call.instance_count == low_32_bits(self@.first_invisible)
                    &&& call.first_index == 0
                    &&& call.vertex_offset == 0
                    &&& call.first_instance == 0
                },
                None => !self.can_draw(),
            },
    {
        match (&self.vertexbuffer, &self.indexbuffer, &self.instancebuffer) {
            (Some(vertexbuffer), Some(indexbuffer), Some(instancebuffer)) => {
                if self.first_invisible > 0 {
                    Some(
                        DrawCall {
                            vertexbuffer: &vertexbuffer.buffer,
                            instancebuffer: &instancebuffer.buffer,
                            indexbuffer: &indexbuffer.buffer,
                            index_count: low_bits(self.indexdata.len()),
                            instance_count: low_bits(self.first_invisible),
                            first_index: 0,
                            vertex_offset: 0,
                            first_instance: 0,
                        },
                    )
                } else {
                    None
                }
            },
            _ => None,
        }
    }
}

/// The low 32 bits of `count`.
fn low_bits(count: usize) -> (low: u32)
    ensures
        low == low_32_bits(count as nat),
{
    let wide: u64 = count as u64;
    (wide % 0x1_0000_0000) as u32
}

} // verus!
