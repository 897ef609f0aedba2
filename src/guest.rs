//! The guest's transform step: decode the inbound archive, compute, encode.
use vstd::prelude::*;
use crate::archive::{
    archive_of, bytes_result, decode, decode_view, encode, encode_result, MAX_ARCHIVE_LEN,
};
use crate::error::BridgeError;
use crate::memory::{MemoryHandle, read_region, region};
use crate::value::{SharedValue, transformed};

verus! {

/// What [`guest_transform`] returns once the input decoded to `v`: the
/// encoding of the transformed value when `v` has the items the transform
/// rewrites, else `TransformRejected`.
pub open spec fn transform_result(v: SharedValue) -> Result<Seq<u8>, BridgeError> {
    if v.list.len() >= 1 && v.other_list.len() >= 2 {
        encode_result(transformed(v))
    } else {
        Err(BridgeError::TransformRejected)
    }
}

/// What [`guest_transform`] returns for the input bytes `b`.
pub open spec fn guest_result(b: Seq<u8>) -> Result<Seq<u8>, BridgeError> {
    match decode_view(b) {
        Some(v) => transform_result(v),
        None => Err(BridgeError::CorruptEncoding),
    }
}

/// The guest entry point's work on the bytes it was handed: decode them,
/// transform the value and encode the result for the host.
pub fn guest_transform(input: &[u8]) -> (r: Result<Vec<u8>, BridgeError>)
    ensures
        bytes_result(r) == guest_result(input@),
        forall|v: SharedValue| #[trigger] archive_of(v) == input@ && input@.len() <= MAX_ARCHIVE_LEN
            ==> bytes_result(r) == transform_result(v),
{
    let value = match decode(input) {
        Ok(v) => v,
        Err(e) => return Err(e),
    };
    if !value.can_transform() {
        return Err(BridgeError::TransformRejected);
    }
    let result = value.transform();
    encode(&result)
}

/// What [`guest_transform_at`] returns for a memory and a handle into it.
pub open spec fn guest_result_at(mem: Seq<u8>, h: MemoryHandle) -> Result<Seq<u8>, BridgeError> {
    if h.within(mem.len() as int) {
        guest_result(region(mem, h))
    } else {
        Err(BridgeError::BoundaryViolation)
    }
}

/// The entry point's work on its own memory: the `len` bytes at `ptr` are
/// the input; a range outside the memory is a `BoundaryViolation`.
pub fn guest_transform_at(memory: &[u8], ptr: i32, len: i32) -> (r: Result<Vec<u8>, BridgeError>)
    ensures
        bytes_result(r) == guest_result_at(memory@, MemoryHandle::from_raw_spec(ptr, len)),
{
    let h = MemoryHandle::from_raw(ptr, len);
    match read_region(memory, h) {
        Ok(input) => guest_transform(input.as_slice()),
        Err(e) => Err(e),
    }
}

/// The guest's result depends on the input range only: memories that agree
/// on it, whatever lies around it, give the same result.
pub proof fn lemma_guest_ignores_outside(m1: Seq<u8>, m2: Seq<u8>, h: MemoryHandle)
    requires
        h.within(m1.len() as int),
        h.within(m2.len() as int),
        forall|i: int| h.offset <= i < h.end() ==> m1[i] == m2[i],
    ensures
        guest_result_at(m1, h) == guest_result_at(m2, h),
{
    crate::memory::lemma_region_depends_on_range_only(m1, m2, h);
}

} // verus!
