//! The host-side record of a device buffer and its growth policy.
//!
//! The device work itself (allocating, mapping, copying, freeing) is done by
//! the caller. A `Buffer` records what was allocated, decides what a write of
//! a given size needs, and takes the replacement once the caller has made it.

use vstd::layout::size_of;
use vstd::prelude::*;
use crate::utils::{checked_payload_bytes, payload_bytes};

verus! {

/// What a device buffer is bound as.
#[derive(Clone, Copy, Debug, PartialEq, Eq, Structural)]
pub enum BufferUsage {
    Vertex,
    Index,
    Instance,
    Uniform,
    Storage,
}

/// Which side writes a buffer's memory and which side reads it.
#[derive(Clone, Copy, Debug, PartialEq, Eq, Structural)]
pub enum MemoryUsage {
    /// Written by the host, read by the device.
    CpuToGpu,
    /// Reached by the device alone.
    GpuOnly,
    /// Written by the device, read by the host.
    GpuToCpu,
}

/// The device cannot provide an allocation of the size asked for.
#[derive(Clone, Copy, Debug, PartialEq, Eq, Structural)]
pub struct AllocationError;

impl AllocationError {
    /// The error in words.
    pub fn message(&self) -> (text: String)
        ensures
            text@ == "device allocation failed"@,
    {
        "device allocation failed".to_owned()
    }
}

/// What the device has to do before a payload can be copied into a buffer.
#[derive(Clone, Copy, Debug, PartialEq, Eq, Structural)]
pub enum FillStep {
    /// The payload fits: map the allocation, copy, unmap.
    Write,
    /// The payload does not fit: free the allocation, make one of exactly
    /// `size_in_bytes` bytes with the same usage, hand it to `replace`, and
    /// write into that.
    Reallocate { size_in_bytes: u64 },
}

/// The capacity of a buffer of `capacity` bytes once `bytes_to_write` bytes
/// were written to it: a payload that fits leaves it alone, one that does not
/// gets an exact fit.
pub open spec fn capacity_after_fill(capacity: u64, bytes_to_write: u64) -> u64 {
    if bytes_to_write > capacity {
        bytes_to_write
    } else {
        capacity
    }
}

/// One device allocation, named by the caller's handle `H`.
pub struct Buffer<H> {
    /// The caller's handle of the allocation; never looked into here.
    pub buffer: H,
    /// The capacity of the allocation.
    pub size_in_bytes: u64,
    /// What the allocation is bound as.
    pub buffer_usage: BufferUsage,
    /// The residency class of the allocation's memory.
    pub memory_usage: MemoryUsage,
}

impl<H> Buffer<H> {
    /// The step that a write of `bytes_to_write` bytes starts with.
    pub open spec fn fill_step(&self, bytes_to_write: u64) -> FillStep {
        if bytes_to_write > self.size_in_bytes {
            FillStep::Reallocate { size_in_bytes: bytes_to_write }
        } else {
            FillStep::Write
        }
    }

    /// The record of an allocation of `size_in_bytes` bytes that the caller
    /// has made under `buffer`.
    pub fn new(
        buffer: H,
        size_in_bytes: u64,
        buffer_usage: BufferUsage,
        memory_usage: MemoryUsage,
    ) -> (created: Buffer<H>)
        ensures
            created.buffer == buffer,
            created.size_in_bytes == size_in_bytes,
            created.buffer_usage == buffer_usage,
            created.memory_usage == memory_usage,
    {
        Buffer { buffer, size_in_bytes, buffer_usage, memory_usage }
    }

    /// Decides how the payload `data` gets into the buffer: in place where
    /// it fits, through a new allocation of exactly its size where it does
    /// not. Fails where its size is beyond what a device allocation can have.
    pub fn fill<T>(&self, data: &[T]) -> (step: Result<FillStep, AllocationError>)
        ensures
            match step {
                Ok(step) => {
                    let bytes = payload_bytes(data@.len(), size_of::<T>());
                    &&& bytes <= u64::MAX
                    &&& step == self.fill_step(bytes as u64)
                },
                Err(_) => payload_bytes(data@.len(), size_of::<T>()) > u64::MAX,
            },
    {
        match checked_payload_bytes(data.len(), core::mem::size_of::<T>()) {
            Some(bytes_to_write) => Ok(self.fill_bytes(bytes_to_write)),
            None => Err(AllocationError),
        }
    }

    /// Decides how a payload of `bytes_to_write` bytes gets into the buffer.
    pub fn fill_bytes(&self, bytes_to_write: u64) -> (step: FillStep)
        ensures
            step == self.fill_step(bytes_to_write),
            (step == FillStep::Write) <==> bytes_to_write <= self.size_in_bytes,
    {
        if bytes_to_write > self.size_in_bytes {
            FillStep::Reallocate { size_in_bytes: bytes_to_write }
        } else {
            FillStep::Write
        }
    }

    /// Takes the allocation that the caller made for a `Reallocate` step and
    /// hands back the handle that it replaces, which is no longer valid.
    pub fn replace(&mut self, buffer: H, size_in_bytes: u64) -> (retired: H)
        ensures
            retired == old(self).buffer,
            final(self).buffer == buffer,
            final(self).size_in_bytes == size_in_bytes,
            final(self).buffer_usage == old(self).buffer_usage,
            final(self).memory_usage == old(self).memory_usage,
    {
        let mut retired = buffer;
        core::mem::swap(&mut self.buffer, &mut retired);
        self.size_in_bytes = size_in_bytes;
        retired
    }
}

/// What the device has to do so that a buffer, which may not exist yet,
/// holds a payload.
#[derive(Clone, Copy, Debug, PartialEq, Eq, Structural)]
pub enum UploadStep {
    /// There is no buffer: make an allocation of exactly `size_in_bytes`
    /// bytes, hand it to `complete_upload`, and write into it.
    Create { size_in_bytes: u64, buffer_usage: BufferUsage, memory_usage: MemoryUsage },
    /// There is a buffer: fill it.
    Fill(FillStep),
}

/// The step that an upload of `bytes_to_write` bytes starts with.
pub open spec fn upload_step<H>(
    buffer: Option<Buffer<H>>,
    bytes_to_write: u64,
    buffer_usage: BufferUsage,
    memory_usage: MemoryUsage,
) -> UploadStep {
    match buffer {
        Some(existing) => UploadStep::Fill(existing.fill_step(bytes_to_write)),
        None => UploadStep::Create { size_in_bytes: bytes_to_write, buffer_usage, memory_usage },
    }
}

/// Whether `step` asks the device for a new allocation.
pub open spec fn needs_allocation(step: UploadStep) -> bool {
    step != UploadStep::Fill(FillStep::Write)
}

/// The buffer after the device has done `step`, where `fresh` is the
/// allocation that it made, if it made one. Without a new allocation the
/// record stays as it is.
pub open spec fn after_upload<H>(buffer: Option<Buffer<H>>, step: UploadStep, fresh: Option<H>) -> Option<
    Buffer<H>,
> {
    match (step, fresh) {
        (UploadStep::Create { size_in_bytes, buffer_usage, memory_usage }, Some(handle)) => Some(
            Buffer { buffer: handle, size_in_bytes, buffer_usage, memory_usage },
        ),
        (UploadStep::Fill(FillStep::Reallocate { size_in_bytes }), Some(handle)) => match buffer {
            Some(existing) => Some(Buffer { buffer: handle, size_in_bytes, ..existing }),
            None => None,
        },
        _ => buffer,
    }
}

/// The handle that is left over once `after_upload` has taken place: the one
/// that was replaced, or `fresh` itself where there was no use for it.
pub open spec fn retired_by_upload<H>(
    buffer: Option<Buffer<H>>,
    step: UploadStep,
    fresh: Option<H>,
) -> Option<H> {
    match (step, fresh) {
        (UploadStep::Create { .. }, Some(_)) => match buffer {
            Some(existing) => Some(existing.buffer),
            None => None,
        },
        (UploadStep::Fill(FillStep::Reallocate { .. }), Some(_)) => match buffer {
            Some(existing) => Some(existing.buffer),
            None => fresh,
        },
        _ => fresh,
    }
}

/// Decides how a payload of `bytes_to_write` bytes gets onto the device:
/// into a first allocation of exactly that size where there is no buffer
/// yet, else as `Buffer::fill` says.
pub fn plan_upload<H>(
    buffer: &Option<Buffer<H>>,
    bytes_to_write: u64,
    buffer_usage: BufferUsage,
    memory_usage: MemoryUsage,
) -> (step: UploadStep)
    ensures
        step == upload_step(*buffer, bytes_to_write, buffer_usage, memory_usage),
{
    match buffer {
        Some(existing) => UploadStep::Fill(existing.fill_bytes(bytes_to_write)),
        None => UploadStep::Create { size_in_bytes: bytes_to_write, buffer_usage, memory_usage },
    }
}

/// Takes the device's answer to `step`: `fresh` is the allocation that it
/// made, or nothing where it made none. A step that asked for an allocation
/// and got none fails and leaves the record as it was. Otherwise the record
/// is brought up to date, and the handle that is left over comes back: the
/// one that was replaced, which is no longer valid, or `fresh` where the step
/// had no use for it.
pub fn complete_upload<H>(buffer: &mut Option<Buffer<H>>, step: UploadStep, fresh: Option<H>) -> (done:
    Result<Option<H>, AllocationError>)
    ensures
        match done {
            Ok(retired) => {
                &&& !(needs_allocation(step) && fresh.is_none())
                &&& *final(buffer) == after_upload(*old(buffer), step, fresh)
                &&& retired == retired_by_upload(*old(buffer), step, fresh)
            },
            Err(_) => {
                &&& needs_allocation(step) && fresh.is_none()
                &&& *final(buffer) == *old(buffer)
            },
        },
{
    match (step, fresh) {
        (UploadStep::Fill(FillStep::Write), fresh) => Ok(fresh),
        (_, None) => Err(AllocationError),
        (UploadStep::Create { size_in_bytes, buffer_usage, memory_usage }, Some(handle)) => {
            let mut slot = Some(Buffer::new(handle, size_in_bytes, buffer_usage, memory_usage));
            core::mem::swap(buffer, &mut slot);
            match slot {
                Some(existing) => Ok(Some(existing.buffer)),
                None => Ok(None),
            }
        },
        (UploadStep::Fill(FillStep::Reallocate { size_in_bytes }), Some(handle)) => match buffer {
            Some(existing) => Ok(Some(existing.replace(handle, size_in_bytes))),
            None => Ok(Some(handle)),
        },
    }
}

/// Once an upload is complete the payload fits the buffer, provided that the
/// step was planned for that payload and that buffer.
pub proof fn lemma_upload_fits<H>(
    buffer: Option<Buffer<H>>,
    bytes_to_write: u64,
    buffer_usage: BufferUsage,
    memory_usage: MemoryUsage,
    fresh: Option<H>,
)
    requires
        needs_allocation(upload_step(buffer, bytes_to_write, buffer_usage, memory_usage))
            ==> fresh.is_some(),
    ensures
        ({
            let step = upload_step(buffer, bytes_to_write, buffer_usage, memory_usage);
            let after = after_upload(buffer, step, fresh);
            &&& after.is_some()
            &&& after.unwrap().size_in_bytes == match buffer {
                Some(existing) => capacity_after_fill(existing.size_in_bytes, bytes_to_write),
                None => bytes_to_write,
            }
            &&& after.unwrap().size_in_bytes >= bytes_to_write
            &&& upload_step(after, bytes_to_write, buffer_usage, memory_usage) == UploadStep::Fill(
                FillStep::Write,
            )
        }),
{
}

/// A reallocation gives the payload's size exactly, a write in place keeps
/// the capacity; either way the payload fits afterwards, and so does every
/// later payload that is no larger than the capacity reached.
pub proof fn lemma_fill_exact_fit(capacity: u64, bytes_to_write: u64, later: u64)
    ensures
        capacity_after_fill(capacity, bytes_to_write) >= bytes_to_write,
        capacity_after_fill(capacity, bytes_to_write) >= capacity,
        bytes_to_write > capacity ==> capacity_after_fill(capacity, bytes_to_write)
            == bytes_to_write,
        bytes_to_write <= capacity ==> capacity_after_fill(capacity, bytes_to_write) == capacity,
        later <= capacity_after_fill(capacity, bytes_to_write) ==> capacity_after_fill(
            capacity_after_fill(capacity, bytes_to_write),
            later,
        ) == capacity_after_fill(capacity, bytes_to_write),
{
}

} // verus!
