//! The archive encoding of a [`SharedStruct`], produced and checked by rkyv.
use vstd::prelude::*;
use crate::error::BridgeError;
use vstd::string::StrSliceExecFns;
use crate::value::{SharedStruct, SharedValue, texts};

verus! {

/// Longest archive this library writes or reads. rkyv's archive addresses its
/// parts with 32-bit offsets, and its aligned buffer holds at most
/// `isize::MAX - 15` bytes: this stays below both on every platform.
pub const MAX_ARCHIVE_LEN: usize = 0x7fff_0000;

/// Room taken by the texts of a list: each character takes at most four bytes
/// and each item at most sixteen more for its header and padding.
pub open spec fn list_bound(l: Seq<Seq<char>>) -> int
    decreases l.len(),
{
    if l.len() == 0 {
        0
    } else {
        list_bound(l.drop_last()) + 4 * l.last().len() + 16
    }
}

/// An upper bound on the length of the archive of `v`: its texts and numbers,
/// their headers and padding, and the root.
pub open spec fn archive_bound(v: SharedValue) -> int {
    4 * v.name.len() + list_bound(v.list) + v.other_list.len() + 64
}

proof fn lemma_list_bound_grows(l: Seq<Seq<char>>, i: int)
    requires
        0 <= i <= l.len(),
    ensures
        list_bound(l.take(i)) <= list_bound(l),
    decreases l.len() - i,
{
    if i < l.len() {
        lemma_list_bound_grows(l, i + 1);
        assert(l.take(i + 1).drop_last() =~= l.take(i));
    } else {
        assert(l.take(i) =~= l);
    }
}

/// Whether the archive of `v` is sure to fit in [`MAX_ARCHIVE_LEN`] bytes.
pub fn fits_archive(v: &SharedStruct) -> (r: bool)
    ensures
        r == (archive_bound(v@) <= MAX_ARCHIVE_LEN),
{
    let limit: u64 = 0x7fff_0000;
    assert(limit == MAX_ARCHIVE_LEN);
    proof {
        lemma_list_bound_grows(v@.list, 0);
        assert(v@.list.take(0).len() == 0);
    }
    let name_chars = v.name.as_str().unicode_len() as u64;
    if name_chars > limit || v.other_list.len() as u64 > limit {
        return false;
    }
    let mut total: u64 = 4 * name_chars + v.other_list.len() as u64 + 64;
    if total > limit {
        return false;
    }
    let mut i: usize = 0;
    while i < v.list.len()
        invariant
            i <= v.list@.len(),
            limit == MAX_ARCHIVE_LEN,
            total <= limit,
            total == 4 * v@.name.len() + v@.other_list.len() + 64 + list_bound(v@.list.take(i as int)),
        decreases v.list@.len() - i,
    {
        let chars = v.list[i].as_str().unicode_len() as u64;
        proof {
            assert(v@.list[i as int] == v.list@[i as int]@);
            assert(v@.list.take(i + 1).drop_last() =~= v@.list.take(i as int));
        }
        if chars > limit || total + 4 * chars + 16 > limit {
            proof {
                lemma_list_bound_grows(v@.list, i + 1);
            }
            return false;
        }
        total = total + 4 * chars + 16;
        i = i + 1;
    }
    proof {
        assert(v@.list.take(i as int) =~= v@.list);
    }
    true
}

/// The archive that rkyv writes for a value. The crate is built with rkyv's
/// `archive_le` feature, so integers are little-endian on every machine and
/// the bytes depend on the value alone.
pub uninterp spec fn archive_of(v: SharedValue) -> Seq<u8>;

/// What rkyv's validating deserializer makes of some bytes: the value they
/// are an archive of, or nothing where they do not validate.
pub uninterp spec fn parsed_of(b: Seq<u8>) -> Option<SharedValue>;

/// The model of a value that rkyv hands back as a tuple of its fields.
pub open spec fn parts_view(p: (String, Vec<String>, Vec<u8>)) -> SharedValue {
    SharedValue { name: p.0@, list: texts(p.1@), other_list: p.2@ }
}

/// The model of a result that carries bytes.
pub open spec fn bytes_result(r: Result<Vec<u8>, BridgeError>) -> Result<Seq<u8>, BridgeError> {
    match r {
        Ok(b) => Ok(b@),
        Err(e) => Err(e),
    }
}

/// Whether [`encode`] archives `v`: its size bound and its archive both fit
/// in [`MAX_ARCHIVE_LEN`] bytes.
pub open spec fn encodable(v: SharedValue) -> bool {
    archive_bound(v) <= MAX_ARCHIVE_LEN && archive_of(v).len() <= MAX_ARCHIVE_LEN
}

/// What [`encode`] returns for `v`.
pub open spec fn encode_result(v: SharedValue) -> Result<Seq<u8>, BridgeError> {
    if encodable(v) {
        Ok(archive_of(v))
    } else {
        Err(BridgeError::AllocationFailure)
    }
}

/// The value that [`decode`] gives for `b`, if any.
pub open spec fn decode_view(b: Seq<u8>) -> Option<SharedValue> {
    if b.len() <= MAX_ARCHIVE_LEN {
        parsed_of(b)
    } else {
        None
    }
}

/// Relies on `rkyv::to_bytes`: it serializes the fields as a tuple into an
/// archive whose bytes are a function of the value (padding is zeroed). Its
/// scratch space has no limit, so it never returns an error; it panics where
/// an offset overflows 32 bits, which the bound keeps out.
#[verifier::external_body]
fn archive_bytes(v: &SharedStruct) -> (r: Option<Vec<u8>>)
    requires
        archive_bound(v@) <= MAX_ARCHIVE_LEN,
    ensures
        r is Some,
        r->Some_0@ == archive_of(v@),
{
    match rkyv::to_bytes::<_, 512>(&(v.name.clone(), v.list.clone(), v.other_list.clone())) {
        Ok(a) => Some(a.into_vec()),
        Err(_) => None,
    }
}

/// Relies on `rkyv::from_bytes`: it validates the bytes (after copying them to
/// an aligned buffer) and deserializes the tuple of fields, a function of the
/// bytes alone; on the archive that `rkyv::to_bytes` made of a value it
/// returns that value. The aligned copy panics beyond `isize::MAX - 15`
/// bytes, which the bound keeps out.
#[verifier::external_body]
fn unarchive_bytes(b: &[u8]) -> (r: Option<(String, Vec<String>, Vec<u8>)>)
    requires
        b@.len() <= MAX_ARCHIVE_LEN,
    ensures
        match r {
            Some(p) => parsed_of(b@) == Some(parts_view(p)),
            None => parsed_of(b@) is None,
        },
        forall|v: SharedValue| #[trigger] archive_of(v) == b@ ==> (r is Some && parts_view(r->Some_0) == v),
{
    let mut aligned = rkyv::AlignedVec::with_capacity(b.len());
    aligned.extend_from_slice(b);
    rkyv::from_bytes::<(String, Vec<String>, Vec<u8>)>(&aligned).ok()
}

/// What [`decode`] promises of its result `r` on the bytes `b`: the value
/// that rkyv validates them as, else `CorruptEncoding`; in particular the
/// archive of a value, if no longer than [`MAX_ARCHIVE_LEN`], decodes to that
/// value.
pub open spec fn decoded(b: Seq<u8>, r: Result<SharedStruct, BridgeError>) -> bool {
    &&& match decode_view(b) {
        Some(w) => r is Ok && r->Ok_0@ == w,
        None => r == Err::<SharedStruct, BridgeError>(BridgeError::CorruptEncoding),
    }
    &&& forall|v: SharedValue| #[trigger] archive_of(v) == b && b.len() <= MAX_ARCHIVE_LEN ==> (
    r is Ok && r->Ok_0@ == v)
}

/// Encodes a value as an archive. A value whose archive might not fit in
/// [`MAX_ARCHIVE_LEN`] bytes is refused with `AllocationFailure`.
pub fn encode(v: &SharedStruct) -> (r: Result<Vec<u8>, BridgeError>)
    ensures
        bytes_result(r) == encode_result(v@),
{
    if !fits_archive(v) {
        return Err(BridgeError::AllocationFailure);
    }
    match archive_bytes(v) {
        Some(b) => {
            if b.len() > MAX_ARCHIVE_LEN {
                Err(BridgeError::AllocationFailure)
            } else {
                Ok(b)
            }
        },
        None => Err(BridgeError::AllocationFailure),
    }
}

/// Decodes an archive back into a value; bytes that do not validate are
/// rejected with `CorruptEncoding`.
pub fn decode(bytes: &[u8]) -> (r: Result<SharedStruct, BridgeError>)
    ensures
        decoded(bytes@, r),
{
    if bytes.len() > MAX_ARCHIVE_LEN {
        return Err(BridgeError::CorruptEncoding);
    }
    match unarchive_bytes(bytes) {
        Some(parts) => {
            let (name, list, other_list) = parts;
            Ok(SharedStruct { name, list, other_list })
        },
        None => Err(BridgeError::CorruptEncoding),
    }
}

/// Round trip: whatever [`decode`] returns on the archive of a value (as
/// [`encode`] returns it, no longer than [`MAX_ARCHIVE_LEN`]) is that value.
pub proof fn lemma_round_trip(v: SharedValue, r: Result<SharedStruct, BridgeError>)
    requires
        archive_of(v).len() <= MAX_ARCHIVE_LEN,
        decoded(archive_of(v), r),
    ensures
        r is Ok,
        r->Ok_0@ == v,
{
}

/// Decoding is a function of the bytes: two decodes of equal bytes agree.
pub proof fn lemma_decode_deterministic(
    b: Seq<u8>,
    r1: Result<SharedStruct, BridgeError>,
    r2: Result<SharedStruct, BridgeError>,
)
    requires
        decoded(b, r1),
        decoded(b, r2),
    ensures
        r1 is Ok <==> r2 is Ok,
        r1 is Ok ==> r1->Ok_0@ == r2->Ok_0@,
        r1 is Err ==> r1 == r2,
{
}

} // verus!
