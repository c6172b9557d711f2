//! The registry's data model: caller identities, identifiers, and the
//! metadata record bound to each identifier.

use vstd::prelude::*;

verus! {

/// An authenticated account reference. It is opaque to the registry —
/// only equality matters — so it is carried as a plain integer key.
pub type CallerIdentity = u64;

/// Number of bytes in an identifier digest.
pub const ID_LENGTH: usize = 32;

/// A fixed-length opaque digest naming one registered DID. Immutable
/// after creation and globally unique once assigned by the registry.
#[derive(Debug, PartialEq, Eq, Hash)]
pub struct Identifier {
    /// The digest bytes; a well-formed identifier holds exactly
    /// `ID_LENGTH` of them.
    pub bytes: Vec<u8>,
}

impl View for Identifier {
    type V = Seq<u8>;

    open spec fn view(&self) -> Seq<u8> {
        self.bytes@
    }
}

impl Identifier {
    /// A well-formed identifier holds exactly `ID_LENGTH` digest bytes.
    pub open spec fn wf(&self) -> bool {
        self.bytes@.len() == ID_LENGTH
    }

    /// Wraps raw digest bytes as an identifier.
    pub fn new(bytes: Vec<u8>) -> (r: Identifier)
        requires
            bytes@.len() == ID_LENGTH,
        ensures
            r@ == bytes@,
            r.wf(),
    {
        Identifier { bytes }
    }
}

impl Clone for Identifier {
    fn clone(&self) -> (r: Identifier)
        ensures
            r@ == self@,
    {
        Identifier { bytes: clone_bytes(&self.bytes) }
    }
}

/// Byte-for-byte copy of a byte vector.
pub fn clone_bytes(v: &Vec<u8>) -> (r: Vec<u8>)
    ensures
        r@ == v@,
{
    let mut r: Vec<u8> = Vec::new();
    let mut i: usize = 0;
    while i < v.len()
        invariant
            i <= v@.len(),
            r@ == v@.take(i as int),
        decreases v@.len() - i,
    {
        r.push(v[i]);
        proof {
            assert(r@ =~= v@.take(i as int + 1));
        }
        i += 1;
    }
    proof {
        assert(r@ =~= v@);
    }
    r
}

/// Byte-for-byte equality of two byte strings.
pub fn bytes_eq(a: &[u8], b: &[u8]) -> (r: bool)
    ensures
        r == (a@ == b@),
{
    if a.len() != b.len() {
        return false;
    }
    let mut i: usize = 0;
    while i < a.len()
        invariant
            a@.len() == b@.len(),
            i <= a@.len(),
            forall|j: int| 0 <= j < i ==> a@[j] == b@[j],
        decreases a@.len() - i,
    {
        if a[i] != b[i] {
            return false;
        }
        i += 1;
    }
    proof {
        assert(a@ =~= b@);
    }
    true
}

/// The mathematical image of a `MetadataDid`: the prefix as a sequence
/// of bytes.
#[verifier::ext_equal]
pub struct RecordView {
    pub address: CallerIdentity,
    pub creator: CallerIdentity,
    pub active: bool,
    pub did_prefix: Seq<u8>,
}

/// The metadata bound to one identifier: its owning account, the account
/// that created it, an activity flag, and an immutable byte prefix.
#[derive(Debug, PartialEq, Default)]
pub struct MetadataDid {
    /// The account the identifier is bound to.
    pub address: CallerIdentity,
    /// The account that requested the registration.
    pub creator: CallerIdentity,
    /// Whether the identifier is currently active.
    pub active: bool,
    /// A validated byte prefix, immutable once stored.
    pub did_prefix: Vec<u8>,
}

impl View for MetadataDid {
    type V = RecordView;

    open spec fn view(&self) -> RecordView {
        RecordView {
            address: self.address,
            creator: self.creator,
            active: self.active,
            did_prefix: self.did_prefix@,
        }
    }
}

impl Clone for MetadataDid {
    fn clone(&self) -> (r: MetadataDid)
        ensures
            r@ == self@,
    {
        MetadataDid {
            address: self.address,
            creator: self.creator,
            active: self.active,
            did_prefix: clone_bytes(&self.did_prefix),
        }
    }
}

} // verus!
