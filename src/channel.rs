//! The host's result channel: storage that the guest's callback fills and the
//! host reads after the guest call returns.
use vstd::prelude::*;
use crate::archive::{archive_of, decode, decoded, MAX_ARCHIVE_LEN};
use crate::error::BridgeError;
use crate::memory::{MemoryHandle, read_region, region};
use crate::value::{SharedStruct, SharedValue};

verus! {

/// Host-owned bytes that the callback the guest invokes fills, and that the
/// host reads once the call is over.
pub struct ResultBuffer {
    bytes: Vec<u8>,
}

impl View for ResultBuffer {
    type V = Seq<u8>;

    closed spec fn view(&self) -> Seq<u8> {
        self.bytes@
    }
}

/// What the storage holds after the callback ran with `ptr` and `len` on
/// `mem`: the bytes of that range, or the earlier contents if the range lies
/// outside the memory.
pub open spec fn after_callback(stored: Seq<u8>, mem: Seq<u8>, ptr: i32, len: i32) -> Seq<u8> {
    let h = MemoryHandle::from_raw_spec(ptr, len);
    if h.within(mem.len() as int) {
        region(mem, h)
    } else {
        stored
    }
}

impl ResultBuffer {
    /// Empty storage for one guest call.
    pub fn new() -> (r: ResultBuffer)
        ensures
            r@ == Seq::<u8>::empty(),
    {
        ResultBuffer { bytes: Vec::new() }
    }

    /// The callback's work: replaces the stored bytes with the `len` bytes at
    /// `ptr` in the guest's `memory`. A range outside the memory is a
    /// `BoundaryViolation` and leaves the storage as it was.
    pub fn set_transform_result(&mut self, memory: &[u8], ptr: i32, len: i32) -> (r: Result<
        (),
        BridgeError,
    >)
        ensures
            final(self)@ == after_callback(old(self)@, memory@, ptr, len),
            r is Ok <==> MemoryHandle::from_raw_spec(ptr, len).within(memory@.len() as int),
            r is Err ==> r->Err_0 == BridgeError::BoundaryViolation,
    {
        let h = MemoryHandle::from_raw(ptr, len);
        match read_region(memory, h) {
            Ok(b) => {
                self.bytes = b;
                Ok(())
            },
            Err(e) => Err(e),
        }
    }

    /// The stored bytes, and what they decode to.
    pub fn read_result(&self) -> (r: (Vec<u8>, Result<SharedStruct, BridgeError>))
        ensures
            r.0@ == self@,
            decoded(self@, r.1),
    {
        let bytes = self.bytes.clone();
        let value = decode(bytes.as_slice());
        (bytes, value)
    }
}

/// Calling the callback twice with the same range on the same memory stores
/// what calling it once does.
pub proof fn lemma_callback_idempotent(stored: Seq<u8>, mem: Seq<u8>, ptr: i32, len: i32)
    ensures
        after_callback(after_callback(stored, mem, ptr, len), mem, ptr, len) == after_callback(
            stored,
            mem,
            ptr,
            len,
        ),
{
}

/// The result is ready when the call returns: once the callback has handed
/// over a range holding the archive of `w`, reading the storage, with no
/// further step, gives `w` whatever the storage held before.
pub proof fn lemma_result_ready(
    stored: Seq<u8>,
    mem: Seq<u8>,
    ptr: i32,
    len: i32,
    w: SharedValue,
    r: Result<SharedStruct, BridgeError>,
)
    requires
        MemoryHandle::from_raw_spec(ptr, len).within(mem.len() as int),
        region(mem, MemoryHandle::from_raw_spec(ptr, len)) == archive_of(w),
        archive_of(w).len() <= MAX_ARCHIVE_LEN,
        decoded(after_callback(stored, mem, ptr, len), r),
    ensures
        r is Ok,
        r->Ok_0@ == w,
{
}

} // verus!
