//! Handles into a linear memory and the bounds-checked reads and writes
//! through them.
use vstd::prelude::*;
use crate::archive::{archive_of, decoded, MAX_ARCHIVE_LEN};
use crate::error::BridgeError;
use crate::value::{SharedStruct, SharedValue};

verus! {

/// A (base offset, byte length) pair naming a byte range of one side's linear
/// memory; meaningful only relative to that memory.
#[derive(Clone, Copy, Debug, PartialEq, Eq, Structural)]
pub struct MemoryHandle {
    pub offset: u32,
    pub len: u32,
}

/// Largest length that a 32-bit guest can be handed.
pub const MAX_GUEST_LEN: usize = 0x7fff_ffff;

impl MemoryHandle {
    /// One past the last byte of the range.
    pub open spec fn end(self) -> int {
        self.offset + self.len
    }

    /// Whether the range lies inside a memory of `size` bytes.
    pub open spec fn within(self, size: int) -> bool {
        self.end() <= size
    }

    /// The handle that [`MemoryHandle::from_raw`] makes.
    pub open spec fn from_raw_spec(ptr: i32, len: i32) -> MemoryHandle {
        MemoryHandle { offset: unsigned_of(ptr), len: unsigned_of(len) }
    }

    /// The handle that a guest describes with two 32-bit integers, read as
    /// unsigned offsets the way linear memory addresses are.
    pub fn from_raw(ptr: i32, len: i32) -> (r: MemoryHandle)
        ensures
            r == MemoryHandle::from_raw_spec(ptr, len),
    {
        MemoryHandle { offset: to_unsigned(ptr), len: to_unsigned(len) }
    }

    /// The two 32-bit integers that describe this handle to the guest.
    pub fn to_raw(&self) -> (r: (i32, i32))
        ensures
            unsigned_of(r.0) == self.offset,
            unsigned_of(r.1) == self.len,
    {
        (to_signed(self.offset), to_signed(self.len))
    }
}

/// A 32-bit integer read as unsigned, the way linear memory reads addresses.
pub open spec fn unsigned_of(x: i32) -> u32 {
    if x >= 0 {
        x as u32
    } else {
        (x + 0x1_0000_0000) as u32
    }
}

fn to_unsigned(x: i32) -> (r: u32)
    ensures
        r == unsigned_of(x),
{
    if x >= 0 {
        x as u32
    } else {
        (x as i64 + 0x1_0000_0000i64) as u32
    }
}

fn to_signed(x: u32) -> (r: i32)
    ensures
        unsigned_of(r) == x,
{
    if x <= 0x7fff_ffffu32 {
        x as i32
    } else {
        (x as i64 - 0x1_0000_0000i64) as i32
    }
}

/// The bytes of `mem` inside the range of `h`.
pub open spec fn region(mem: Seq<u8>, h: MemoryHandle) -> Seq<u8> {
    mem.subrange(h.offset as int, h.end())
}

/// `mem` with the range of `h` replaced by `bytes`.
pub open spec fn written(mem: Seq<u8>, h: MemoryHandle, bytes: Seq<u8>) -> Seq<u8> {
    mem.subrange(0, h.offset as int) + bytes + mem.subrange(h.end(), mem.len() as int)
}

/// Copies the bytes of `memory` inside the range of `h`; a range that does
/// not fit the memory is a `BoundaryViolation`.
pub fn read_region(memory: &[u8], h: MemoryHandle) -> (r: Result<Vec<u8>, BridgeError>)
    ensures
        h.within(memory@.len() as int) ==> r == Ok::<Vec<u8>, BridgeError>(r->Ok_0)
            && r->Ok_0@ == region(memory@, h),
        !h.within(memory@.len() as int) ==> r == Err::<Vec<u8>, BridgeError>(
            BridgeError::BoundaryViolation,
        ),
{
    let start = h.offset as usize;
    let n = h.len as usize;
    let size = memory.len();
    if n > size || start > size - n {
        return Err(BridgeError::BoundaryViolation);
    }
    let mut out: Vec<u8> = Vec::with_capacity(n);
    let mut i: usize = 0;
    while i < n
        invariant
            i <= n,
            size == memory@.len(),
            start + n <= size,
            start == h.offset,
            n == h.len,
            out@ == memory@.subrange(start as int, start + i),
        decreases n - i,
    {
        out.push(memory[start + i]);
        proof {
            assert(out@ =~= memory@.subrange(start as int, start + i + 1));
        }
        i = i + 1;
    }
    Ok(out)
}

/// Copies `bytes` into `memory` at `ptr` and returns the handle of the copy.
/// It is a `BoundaryViolation`, and `memory` is left as it was, when `bytes`
/// is too long for a 32-bit guest or does not fit at `ptr`.
pub fn write_bytes_into_guest(memory: &mut [u8], ptr: i32, bytes: &[u8]) -> (r: Result<
    MemoryHandle,
    BridgeError,
>)
    ensures
        ({
            let h = MemoryHandle { offset: unsigned_of(ptr), len: bytes@.len() as u32 };
            if bytes@.len() <= MAX_GUEST_LEN && h.within(old(memory)@.len() as int) {
                r == Ok::<MemoryHandle, BridgeError>(h) && final(memory)@ == written(
                    old(memory)@,
                    h,
                    bytes@,
                )
            } else {
                r == Err::<MemoryHandle, BridgeError>(BridgeError::BoundaryViolation)
                    && final(memory)@ == old(memory)@
            }
        }),
{
    let n = bytes.len();
    if n > MAX_GUEST_LEN {
        return Err(BridgeError::BoundaryViolation);
    }
    let h = MemoryHandle { offset: to_unsigned(ptr), len: n as u32 };
    let start = h.offset as usize;
    let size = memory.len();
    if n > size || start > size - n {
        return Err(BridgeError::BoundaryViolation);
    }
    let mut i: usize = 0;
    while i < n
        invariant
            i <= n,
            n == bytes@.len(),
            size == memory@.len(),
            start + n <= size,
            memory@.len() == old(memory)@.len(),
            forall|j: int|
                0 <= j < size ==> #[trigger] memory@[j] == if start <= j < start + i {
                    bytes@[j - start]
                } else {
                    old(memory)@[j]
                },
        decreases n - i,
    {
        memory[start + i] = bytes[i];
        i = i + 1;
    }
    proof {
        assert(memory@ =~= written(old(memory)@, h, bytes@));
    }
    Ok(h)
}

/// Reading back what was written: the range of a write holds exactly the
/// bytes written there.
pub proof fn lemma_read_after_write(mem: Seq<u8>, h: MemoryHandle, bytes: Seq<u8>)
    requires
        h.within(mem.len() as int),
        bytes.len() == h.len,
    ensures
        written(mem, h, bytes).len() == mem.len(),
        region(written(mem, h, bytes), h) == bytes,
{
    assert(region(written(mem, h, bytes), h) =~= bytes);
}

/// A read through a handle depends on the bytes inside its range only:
/// memories that agree there give the same bytes, whatever lies around it.
pub proof fn lemma_region_depends_on_range_only(m1: Seq<u8>, m2: Seq<u8>, h: MemoryHandle)
    requires
        h.within(m1.len() as int),
        h.within(m2.len() as int),
        forall|i: int| h.offset <= i < h.end() ==> m1[i] == m2[i],
    ensures
        region(m1, h) == region(m2, h),
{
    assert(region(m1, h) =~= region(m2, h));
}

/// A write leaves every byte outside its range as it was.
pub proof fn lemma_write_keeps_outside(mem: Seq<u8>, h: MemoryHandle, bytes: Seq<u8>, i: int)
    requires
        h.within(mem.len() as int),
        bytes.len() == h.len,
        0 <= i < mem.len(),
        !(h.offset <= i < h.end()),
    ensures
        written(mem, h, bytes)[i] == mem[i],
{
    if i < h.offset {
        assert(written(mem, h, bytes)[i] == mem.subrange(0, h.offset as int)[i]);
    } else {
        assert(written(mem, h, bytes)[i] == mem.subrange(h.end(), mem.len() as int)[i - h.end()]);
    }
}

/// Cross-boundary identity: once the archive of `v` is written into a memory
/// through a handle, decoding the bytes of that handle's range gives `v`.
pub proof fn lemma_cross_boundary_identity(
    mem: Seq<u8>,
    h: MemoryHandle,
    v: SharedValue,
    r: Result<SharedStruct, BridgeError>,
)
    requires
        h.within(mem.len() as int),
        h.len == archive_of(v).len(),
        archive_of(v).len() <= MAX_ARCHIVE_LEN,
        decoded(region(written(mem, h, archive_of(v)), h), r),
    ensures
        r is Ok,
        r->Ok_0@ == v,
{
    lemma_read_after_write(mem, h, archive_of(v));
}

/// Boundary respected: a decode through a handle sees the handle's range
/// only, so bytes changed outside it leave the possible results as they were.
pub proof fn lemma_decode_ignores_outside(
    m1: Seq<u8>,
    m2: Seq<u8>,
    h: MemoryHandle,
    r: Result<SharedStruct, BridgeError>,
)
    requires
        h.within(m1.len() as int),
        h.within(m2.len() as int),
        forall|i: int| h.offset <= i < h.end() ==> m1[i] == m2[i],
    ensures
        decoded(region(m1, h), r) == decoded(region(m2, h), r),
{
    lemma_region_depends_on_range_only(m1, m2, h);
}

} // verus!
