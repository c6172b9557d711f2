//! The registry store and the registration and resolution services.
//!
//! The store keeps one entry per registered caller. Its mathematical
//! model is the sequence of entries; the forward map (caller →
//! identifier), reverse map (identifier → caller) and metadata map
//! (identifier → record) are all read off that sequence, and
//! well-formedness makes both key columns unique, so each map is
//! functional and the reverse map is the true inverse of the forward map.

use vstd::prelude::*;
use crate::derivation::spec_derive;
use crate::derivation::derive_identifier;
use crate::record::{CallerIdentity, Identifier, MetadataDid, RecordView, bytes_eq};
use crate::validation::{ValidationError, validate_did, BYTEARRAY_LIMIT};

verus! {

/// A write to the store was rejected.
#[derive(Clone, Copy, Debug, PartialEq, Eq, Structural)]
pub enum StoreError {
    /// The caller already has an identifier, or the identifier is
    /// already claimed.
    AlreadyExists,
}

/// Why a registration attempt failed.
#[derive(Clone, Copy, Debug, PartialEq, Eq, Structural)]
pub enum RegistrationError {
    /// The caller already owns an identifier.
    AlreadyRegistered,
    /// The supplied prefix failed validation.
    InvalidPrefix(ValidationError),
    /// The derived identifier is already claimed.
    IdentifierCollision,
}

/// One registered binding: the owning caller, its identifier, and the
/// metadata record created with it.
pub struct Entry {
    pub caller: CallerIdentity,
    pub id: Identifier,
    pub record: MetadataDid,
}

/// A domain event emitted by the registration service.
#[derive(Debug, PartialEq, Eq)]
pub enum Event {
    /// A new identifier was created for the caller.
    Created(CallerIdentity, Identifier),
}

/// The caller a `Created` event names.
pub open spec fn event_caller(e: Event) -> CallerIdentity {
    match e {
        Event::Created(c, _) => c,
    }
}

/// The identifier bytes a `Created` event names.
pub open spec fn event_id(e: Event) -> Seq<u8> {
    match e {
        Event::Created(_, id) => id@,
    }
}

/// The entry of the caller, scanning from the most recent entry.
pub open spec fn find_by_caller(s: Seq<Entry>, caller: CallerIdentity) -> Option<Entry>
    decreases s.len(),
{
    if s.len() == 0 {
        None
    } else if s.last().caller == caller {
        Some(s.last())
    } else {
        find_by_caller(s.drop_last(), caller)
    }
}

/// The entry of the identifier, scanning from the most recent entry.
pub open spec fn find_by_id(s: Seq<Entry>, id: Seq<u8>) -> Option<Entry>
    decreases s.len(),
{
    if s.len() == 0 {
        None
    } else if s.last().id@ == id {
        Some(s.last())
    } else {
        find_by_id(s.drop_last(), id)
    }
}

/// A caller search comes back empty exactly when no entry names the caller.
pub proof fn lemma_find_by_caller_none(s: Seq<Entry>, caller: CallerIdentity)
    ensures
        (find_by_caller(s, caller) is None) <==> (forall|i: int|
            0 <= i < s.len() ==> (#[trigger] s[i]).caller != caller),
    decreases s.len(),
{
    if s.len() > 0 {
        lemma_find_by_caller_none(s.drop_last(), caller);
        assert(forall|i: int| 0 <= i < s.len() - 1 ==> s.drop_last()[i] == #[trigger] s[i]);
        assert(s.last() == s[s.len() - 1]);
    }
}

/// An identifier search comes back empty exactly when no entry holds the
/// identifier.
pub proof fn lemma_find_by_id_none(s: Seq<Entry>, id: Seq<u8>)
    ensures
        (find_by_id(s, id) is None) <==> (forall|i: int|
            0 <= i < s.len() ==> (#[trigger] s[i]).id@ != id),
    decreases s.len(),
{
    if s.len() > 0 {
        lemma_find_by_id_none(s.drop_last(), id);
        assert(forall|i: int| 0 <= i < s.len() - 1 ==> s.drop_last()[i] == #[trigger] s[i]);
        assert(s.last() == s[s.len() - 1]);
    }
}

/// A found entry names the caller searched for and sits in the sequence.
pub proof fn lemma_find_by_caller_mem(s: Seq<Entry>, caller: CallerIdentity, e: Entry)
    requires
        find_by_caller(s, caller) == Some(e),
    ensures
        e.caller == caller,
        exists|i: int| 0 <= i < s.len() && s[i] == e,
    decreases s.len(),
{
    if s.last().caller == caller {
        assert(s[s.len() - 1] == e);
    } else {
        lemma_find_by_caller_mem(s.drop_last(), caller, e);
        let i = choose|i: int| 0 <= i < s.drop_last().len() && s.drop_last()[i] == e;
        assert(s[i] == e);
    }
}

/// A found entry holds the identifier searched for and sits in the sequence.
pub proof fn lemma_find_by_id_mem(s: Seq<Entry>, id: Seq<u8>, e: Entry)
    requires
        find_by_id(s, id) == Some(e),
    ensures
        e.id@ == id,
        exists|i: int| 0 <= i < s.len() && s[i] == e,
    decreases s.len(),
{
    if s.last().id@ == id {
        assert(s[s.len() - 1] == e);
    } else {
        lemma_find_by_id_mem(s.drop_last(), id, e);
        let i = choose|i: int| 0 <= i < s.drop_last().len() && s.drop_last()[i] == e;
        assert(s[i] == e);
    }
}

/// The registry: the store's entries, the monotonic registration
/// counter, and the domain events emitted so far.
pub struct DidRegistry {
    /// One entry per registered caller, oldest first.
    pub entries: Vec<Entry>,
    /// Total number of identifiers ever issued.
    pub did_count: u64,
    /// Events emitted by successful registrations, oldest first.
    pub events: Vec<Event>,
}

impl DidRegistry {
    /// Well-formedness: every identifier is digest-length, no caller and
    /// no identifier appears twice, and the counter equals the number of
    /// records.
    pub open spec fn wf(&self) -> bool {
        &&& forall|i: int|
            0 <= i < self.entries@.len() ==> (#[trigger] self.entries@[i]).id.wf()
        &&& forall|i: int, j: int|
            #![trigger self.entries@[i], self.entries@[j]]
            0 <= i < j < self.entries@.len() ==> self.entries@[i].caller
                != self.entries@[j].caller
        &&& forall|i: int, j: int|
            #![trigger self.entries@[i], self.entries@[j]]
            0 <= i < j < self.entries@.len() ==> self.entries@[i].id@ != self.entries@[j].id@
        &&& self.did_count == self.entries@.len()
    }

    /// Forward-map membership: whether the caller owns an identifier.
    pub open spec fn spec_has_identifier(&self, caller: CallerIdentity) -> bool {
        find_by_caller(self.entries@, caller) is Some
    }

    /// Forward-map lookup: the identifier bytes owned by the caller.
    pub open spec fn spec_get_identifier(&self, caller: CallerIdentity) -> Option<Seq<u8>> {
        match find_by_caller(self.entries@, caller) {
            Some(e) => Some(e.id@),
            None => None,
        }
    }

    /// Reverse-map lookup: the caller that owns the identifier.
    pub open spec fn spec_get_owner(&self, id: Seq<u8>) -> Option<CallerIdentity> {
        match find_by_id(self.entries@, id) {
            Some(e) => Some(e.caller),
            None => None,
        }
    }

    /// Metadata-map lookup: the record bound to the identifier.
    pub open spec fn spec_get_record(&self, id: Seq<u8>) -> Option<RecordView> {
        match find_by_id(self.entries@, id) {
            Some(e) => Some(e.record@),
            None => None,
        }
    }

    /// Resolution is exactly the metadata lookup: a function of the
    /// store and the identifier alone.
    pub open spec fn spec_resolve(&self, id: Seq<u8>) -> Option<RecordView> {
        self.spec_get_record(id)
    }

    /// An empty registry: no entries, no events, counter at zero.
    pub fn new() -> (r: DidRegistry)
        ensures
            r.wf(),
            r.entries@.len() == 0,
            r.did_count == 0,
            r.events@.len() == 0,
    {
        DidRegistry { entries: Vec::new(), did_count: 0, events: Vec::new() }
    }

    /// Index of the caller's entry, if any.
    fn find_index_by_caller(&self, caller: CallerIdentity) -> (r: Option<usize>)
        ensures
            match r {
                Some(i) => i < self.entries@.len() && find_by_caller(self.entries@, caller)
                    == Some(self.entries@[i as int]),
                None => find_by_caller(self.entries@, caller) is None,
            },
    {
        proof {
            assert(self.entries@.take(self.entries@.len() as int) =~= self.entries@);
        }
        let mut i: usize = self.entries.len();
        while i > 0
            invariant
                i <= self.entries@.len(),
                find_by_caller(self.entries@, caller) == find_by_caller(
                    self.entries@.take(i as int),
                    caller,
                ),
            decreases i,
        {
            i = i - 1;
            if self.entries[i].caller == caller {
                proof {
                    assert(self.entries@.take(i as int + 1).last() == self.entries@[i as int]);
                }
                return Some(i);
            }
            proof {
                assert(self.entries@.take(i as int + 1).drop_last() =~= self.entries@.take(
                    i as int,
                ));
            }
        }
        None
    }

    /// Index of the identifier's entry, if any.
    fn find_index_by_id(&self, id: &Identifier) -> (r: Option<usize>)
        ensures
            match r {
                Some(i) => i < self.entries@.len() && find_by_id(self.entries@, id@) == Some(
                    self.entries@[i as int],
                ),
                None => find_by_id(self.entries@, id@) is None,
            },
    {
        proof {
            assert(self.entries@.take(self.entries@.len() as int) =~= self.entries@);
        }
        let mut i: usize = self.entries.len();
        while i > 0
            invariant
                i <= self.entries@.len(),
                find_by_id(self.entries@, id@) == find_by_id(self.entries@.take(i as int), id@),
            decreases i,
        {
            i = i - 1;
            if bytes_eq(self.entries[i].id.bytes.as_slice(), id.bytes.as_slice()) {
                proof {
                    assert(self.entries@.take(i as int + 1).last() == self.entries@[i as int]);
                }
                return Some(i);
            }
            proof {
                assert(self.entries@.take(i as int + 1).drop_last() =~= self.entries@.take(
                    i as int,
                ));
            }
        }
        None
    }

    /// Whether the caller already owns an identifier.
    pub fn has_identifier(&self, caller: CallerIdentity) -> (r: bool)
        ensures
            r == self.spec_has_identifier(caller),
    {
        self.find_index_by_caller(caller).is_some()
    }

    /// The identifier owned by the caller, if any.
    pub fn get_identifier(&self, caller: CallerIdentity) -> (r: Option<Identifier>)
        ensures
            match r {
                Some(id) => self.spec_get_identifier(caller) == Some(id@),
                None => self.spec_get_identifier(caller) is None,
            },
    {
        match self.find_index_by_caller(caller) {
            Some(i) => Some(self.entries[i].id.clone()),
            None => None,
        }
    }

    /// The caller that owns the identifier, if any.
    pub fn get_owner(&self, id: &Identifier) -> (r: Option<CallerIdentity>)
        ensures
            r == self.spec_get_owner(id@),
    {
        match self.find_index_by_id(id) {
            Some(i) => Some(self.entries[i].caller),
            None => None,
        }
    }

    /// The metadata record bound to the identifier, if any.
    pub fn get_record(&self, id: &Identifier) -> (r: Option<MetadataDid>)
        ensures
            match r {
                Some(rec) => self.spec_get_record(id@) == Some(rec@),
                None => self.spec_get_record(id@) is None,
            },
    {
        match self.find_index_by_id(id) {
            Some(i) => Some(self.entries[i].record.clone()),
            None => None,
        }
    }

    /// The resolution service: looks up the metadata record bound to the
    /// identifier. Read-only; an unknown identifier is a normal outcome,
    /// answered with `None`, never an error.
    pub fn resolve(&self, id: &Identifier) -> (r: Option<MetadataDid>)
        ensures
            match r {
                Some(rec) => self.spec_resolve(id@) == Some(rec@),
                None => self.spec_resolve(id@) is None,
            },
    {
        self.get_record(id)
    }

    /// The registration counter.
    pub fn did_count(&self) -> (r: u64)
        ensures
            r == self.did_count,
    {
        self.did_count
    }

    /// The events emitted so far, oldest first.
    pub fn events(&self) -> (r: &Vec<Event>)
        ensures
            r@ == self.events@,
    {
        &self.events
    }

    /// Writes the forward-map, reverse-map and metadata entries for
    /// `(caller, id, record)` and increments the counter, as one
    /// all-or-nothing unit. Rejected with `AlreadyExists` — leaving the
    /// store untouched — exactly when the caller already has an entry or
    /// the identifier is already claimed.
    pub fn put(&mut self, caller: CallerIdentity, id: Identifier, record: MetadataDid) -> (r:
        Result<(), StoreError>)
        requires
            old(self).wf(),
            id.wf(),
            old(self).did_count < u64::MAX,
        ensures
            final(self).wf(),
            (old(self).spec_has_identifier(caller) || old(self).spec_get_owner(id@) is Some)
                ==> (r == Err::<(), StoreError>(StoreError::AlreadyExists) && *final(self)
                == *old(self)),
            (!old(self).spec_has_identifier(caller) && old(self).spec_get_owner(id@) is None)
                ==> (r == Ok::<(), StoreError>(()) && final(self).entries@ == old(
                self,
            ).entries@.push((Entry { caller, id, record })) && final(self).did_count == old(
                self,
            ).did_count + 1 && final(self).events@ == old(self).events@),
    {
        if self.has_identifier(caller) {
            return Err(StoreError::AlreadyExists);
        }
        if self.get_owner(&id).is_some() {
            return Err(StoreError::AlreadyExists);
        }
        proof {
            lemma_find_by_caller_none(self.entries@, caller);
            lemma_find_by_id_none(self.entries@, id@);
        }
        self.entries.push(Entry { caller, id, record });
        self.did_count = self.did_count + 1;
        Ok(())
    }

    /// The registration service. Rejects a caller that already owns an
    /// identifier, validates the prefix, derives a candidate identifier
    /// from the environmental inputs, writes the store atomically, and
    /// emits a `Created` event. Every failure leaves the registry
    /// exactly as it was.
    pub fn register(
        &mut self,
        caller: CallerIdentity,
        active: bool,
        did_prefix: Vec<u8>,
        entropy: &[u8],
        op_sequence: u64,
        height: u64,
    ) -> (r: Result<Identifier, RegistrationError>)
        requires
            old(self).wf(),
            old(self).did_count < u64::MAX,
        ensures
            final(self).wf(),
            old(self).spec_has_identifier(caller) ==> (r == Err::<Identifier,
                RegistrationError,
            >(RegistrationError::AlreadyRegistered) && *final(self) == *old(self)),
            (!old(self).spec_has_identifier(caller) && did_prefix@.len() == 0) ==> (r == Err::<
                Identifier,
                RegistrationError,
            >(RegistrationError::InvalidPrefix(ValidationError::EmptyInput)) && *final(self)
                == *old(self)),
            (!old(self).spec_has_identifier(caller) && did_prefix@.len() > BYTEARRAY_LIMIT) ==> (
            r == Err::<Identifier, RegistrationError>(
                RegistrationError::InvalidPrefix(ValidationError::TooLong),
            ) && *final(self) == *old(self)),
            (!old(self).spec_has_identifier(caller) && 0 < did_prefix@.len()
                <= BYTEARRAY_LIMIT && old(self).spec_get_owner(
                spec_derive(entropy@, caller, op_sequence, height),
            ) is Some) ==> (r == Err::<Identifier, RegistrationError>(
                RegistrationError::IdentifierCollision,
            ) && *final(self) == *old(self)),
            (!old(self).spec_has_identifier(caller) && 0 < did_prefix@.len()
                <= BYTEARRAY_LIMIT && old(self).spec_get_owner(
                spec_derive(entropy@, caller, op_sequence, height),
            ) is None) ==> ({
                let idb = spec_derive(entropy@, caller, op_sequence, height);
                &&& r matches Ok(id) && id@ == idb && id.wf()
                &&& final(self).entries@.len() == old(self).entries@.len() + 1
                &&& final(self).entries@.drop_last() == old(self).entries@
                &&& final(self).did_count == old(self).did_count + 1
                &&& final(self).spec_has_identifier(caller)
                &&& final(self).spec_get_identifier(caller) == Some(idb)
                &&& final(self).spec_get_owner(idb) == Some(caller)
                &&& final(self).spec_get_record(idb) == Some(
                    (RecordView {
                        address: caller,
                        creator: caller,
                        active: active,
                        did_prefix: did_prefix@,
                    }),
                )
                &&& final(self).spec_resolve(idb) == final(self).spec_get_record(idb)
                &&& final(self).events@.len() == old(self).events@.len() + 1
                &&& final(self).events@.drop_last() == old(self).events@
                &&& event_caller(final(self).events@.last()) == caller
                &&& event_id(final(self).events@.last()) == idb
            }),
    {
        if self.has_identifier(caller) {
            return Err(RegistrationError::AlreadyRegistered);
        }
        match validate_did(did_prefix.as_slice()) {
            Err(e) => {
                return Err(RegistrationError::InvalidPrefix(e));
            },
            Ok(()) => {},
        }
        let id = derive_identifier(entropy, caller, op_sequence, height);
        let id_event = id.clone();
        let id_ret = id.clone();
        let record = MetadataDid {
            address: caller,
            creator: caller,
            active: active,
            did_prefix: did_prefix,
        };
        match self.put(caller, id, record) {
            Err(StoreError::AlreadyExists) => Err(RegistrationError::IdentifierCollision),
            Ok(()) => {
                self.events.push(Event::Created(caller, id_event));
                proof {
                    assert(self.entries@.drop_last() =~= old(self).entries@);
                    assert(self.events@.drop_last() =~= old(self).events@);
                    assert(self.entries@.last() == self.entries@[self.entries@.len() - 1]);
                }
                Ok(id_ret)
            },
        }
    }
}

} // verus!
