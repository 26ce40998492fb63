//! Task UUIDs as the sixteen bytes that the database stores in its `uuid` columns.

use vstd::prelude::*;

verus! {

/// The sixteen bytes of a UUID, in the order in which a UUID is written as a blob.
pub type UuidBytes = [u8; 16];

/// The nil UUID: sixteen zero bytes.
pub open spec fn nil_uuid() -> Seq<u8> {
    Seq::new(16, |i: int| 0u8)
}

/// The UUID that a stored blob stands for: the blob itself when it holds exactly sixteen
/// bytes, the nil UUID otherwise.
pub open spec fn uuid_of_blob(blob: Seq<u8>) -> Seq<u8> {
    if blob.len() == 16 {
        blob
    } else {
        nil_uuid()
    }
}

/// Reads a UUID back from a blob column.  A blob of any length other than sixteen
/// stands for the nil UUID.
pub fn uuid_from_blob(blob: &Vec<u8>) -> (res: UuidBytes)
    ensures
        res@ == uuid_of_blob(blob@),
{
    let mut out: UuidBytes = [0u8; 16];
    if blob.len() == 16 {
        let mut i: usize = 0;
        while i < 16
            invariant
                blob@.len() == 16,
                0 <= i <= 16,
                forall|j: int| 0 <= j < i ==> out@[j] == blob@[j],
            decreases 16 - i,
        {
            out[i] = blob[i];
            i += 1;
        }
        assert(out@ =~= blob@);
    } else {
        assert(out@ =~= nil_uuid());
    }
    out
}

/// The blob that stores a UUID.
pub fn uuid_to_blob(uuid: &UuidBytes) -> (res: Vec<u8>)
    ensures
        res@ == uuid@,
{
    vstd::slice::slice_to_vec(uuid.as_slice())
}

/// Whether two UUIDs are the same.
pub fn uuids_equal(a: &UuidBytes, b: &UuidBytes) -> (res: bool)
    ensures
        res == (a@ == b@),
{
    let mut i: usize = 0;
    while i < 16
        invariant
            0 <= i <= 16,
            a@.len() == 16,
            b@.len() == 16,
            forall|j: int| 0 <= j < i ==> a@[j] == b@[j],
        decreases 16 - i,
    {
        if a[i] != b[i] {
            assert(a@[i as int] != b@[i as int]);
            return false;
        }
        i += 1;
    }
    assert(a@ =~= b@);
    true
}

} // verus!
