//! Overlay identifiers.
//!
//! An overlay is addressed by two identifiers derived from the same
//! (workchain, shard, zero-state fingerprint) triple: a short identifier
//! used as the registry and single-flight key, and a full identifier
//! used only when publishing membership records to the distributed hash
//! table. Both are fixed-size opaque byte strings; this library reads
//! nothing out of them beyond equality and their raw bytes.

use vstd::prelude::*;
use crate::OVERLAY_ID_LEN;

verus! {

/// Error returned when an identifier is built from a byte string of the
/// wrong length.
#[derive(PartialEq, Eq, Structural, Clone, Copy, Debug)]
pub enum IdError {
    /// The byte string does not have `OVERLAY_ID_LEN` bytes.
    WrongLength,
}

/// Compact overlay identifier: the registry and single-flight key.
pub struct OverlayShortId {
    bytes: Vec<u8>,
}

/// Network-registration overlay identifier, used when storing the
/// signed membership record in the distributed hash table.
pub struct OverlayFullId {
    bytes: Vec<u8>,
}

impl View for OverlayShortId {
    type V = Seq<u8>;

    closed spec fn view(&self) -> Seq<u8> {
        self.bytes@
    }
}

impl View for OverlayFullId {
    type V = Seq<u8>;

    closed spec fn view(&self) -> Seq<u8> {
        self.bytes@
    }
}

impl OverlayShortId {
    /// The identifier is exactly `OVERLAY_ID_LEN` bytes long.
    pub closed spec fn wf(&self) -> bool {
        self.bytes@.len() == OVERLAY_ID_LEN
    }

    /// Builds an identifier from its raw bytes; rejects any byte string
    /// that is not exactly `OVERLAY_ID_LEN` bytes long.
    pub fn from_bytes(bytes: Vec<u8>) -> (r: Result<OverlayShortId, IdError>)
        ensures
            bytes@.len() == OVERLAY_ID_LEN <==> r is Ok,
            r matches Ok(id) ==> id@ == bytes@ && id.wf(),
            r is Err ==> r == Result::<OverlayShortId, IdError>::Err(IdError::WrongLength),
    {
        if bytes.len() == OVERLAY_ID_LEN {
            Ok(OverlayShortId { bytes })
        } else {
            Err(IdError::WrongLength)
        }
    }

    /// Raw bytes of the identifier, for encoding as a storage key.
    pub fn data(&self) -> (r: &Vec<u8>)
        ensures
            r@ == self@,
    {
        &self.bytes
    }

    /// An owned copy of the identifier.
    pub fn duplicate(&self) -> (r: OverlayShortId)
        ensures
            r@ == self@,
            self.wf() ==> r.wf(),
    {
        OverlayShortId { bytes: copy_bytes(&self.bytes) }
    }

    /// Byte-wise equality of two identifiers.
    pub fn matches(&self, other: &OverlayShortId) -> (r: bool)
        ensures
            r == (self@ == other@),
    {
        bytes_eq(&self.bytes, &other.bytes)
    }
}

impl OverlayFullId {
    /// The identifier is exactly `OVERLAY_ID_LEN` bytes long.
    pub closed spec fn wf(&self) -> bool {
        self.bytes@.len() == OVERLAY_ID_LEN
    }

    /// Builds an identifier from its raw bytes; rejects any byte string
    /// that is not exactly `OVERLAY_ID_LEN` bytes long.
    pub fn from_bytes(bytes: Vec<u8>) -> (r: Result<OverlayFullId, IdError>)
        ensures
            bytes@.len() == OVERLAY_ID_LEN <==> r is Ok,
            r matches Ok(id) ==> id@ == bytes@ && id.wf(),
            r is Err ==> r == Result::<OverlayFullId, IdError>::Err(IdError::WrongLength),
    {
        if bytes.len() == OVERLAY_ID_LEN {
            Ok(OverlayFullId { bytes })
        } else {
            Err(IdError::WrongLength)
        }
    }

    /// Raw bytes of the identifier.
    pub fn data(&self) -> (r: &Vec<u8>)
        ensures
            r@ == self@,
    {
        &self.bytes
    }

    /// An owned copy of the identifier.
    pub fn duplicate(&self) -> (r: OverlayFullId)
        ensures
            r@ == self@,
            self.wf() ==> r.wf(),
    {
        OverlayFullId { bytes: copy_bytes(&self.bytes) }
    }
}

/// Byte-wise equality of two byte vectors.
pub fn bytes_eq(a: &Vec<u8>, b: &Vec<u8>) -> (r: bool)
    ensures
        r == (a@ == b@),
{
    if a.len() != b.len() {
        assert(a@ != b@) by {
            assert(a@.len() != b@.len());
        }
        return false;
    }
    let n = a.len();
    let mut i: usize = 0;
    while i < n
        invariant
            n == a@.len(),
            n == b@.len(),
            0 <= i <= n,
            forall|j: int| 0 <= j < i ==> a@[j] == b@[j],
        decreases n - i,
    {
        if a[i] != b[i] {
            assert(a@ != b@) by {
                assert(a@[i as int] != b@[i as int]);
            }
            return false;
        }
        i += 1;
    }
    assert(a@ =~= b@);
    true
}

/// An owned copy of a byte vector.
pub fn copy_bytes(a: &Vec<u8>) -> (r: Vec<u8>)
    ensures
        r@ == a@,
{
    let n = a.len();
    let mut out: Vec<u8> = Vec::new();
    let mut i: usize = 0;
    while i < n
        invariant
            n == a@.len(),
            0 <= i <= n,
            out@ == a@.subrange(0, i as int),
        decreases n - i,
    {
        out.push(a[i]);
        assert(out@ =~= a@.subrange(0, i + 1 as int));
        i += 1;
    }
    assert(out@ =~= a@);
    out
}

} // verus!
