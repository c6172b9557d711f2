//! Registry-wide laws: the forward and reverse maps are true inverses,
//! resolution round-trips and is idempotent, the counter counts the
//! records, and registered identifiers are pairwise distinct.

use vstd::prelude::*;
use crate::record::CallerIdentity;
use crate::registry::{
    DidRegistry, Entry, find_by_caller, find_by_id, lemma_find_by_caller_mem,
    lemma_find_by_id_mem,
};

verus! {

/// Identifiers are unique across the entries.
pub open spec fn ids_unique(s: Seq<Entry>) -> bool {
    forall|i: int, j: int|
        #![trigger s[i], s[j]]
        0 <= i < j < s.len() ==> s[i].id@ != s[j].id@
}

/// Callers are unique across the entries.
pub open spec fn callers_unique(s: Seq<Entry>) -> bool {
    forall|i: int, j: int|
        #![trigger s[i], s[j]]
        0 <= i < j < s.len() ==> s[i].caller != s[j].caller
}

/// Looking an entry up by caller and then by the identifier it holds
/// lands on the same entry, provided identifiers are unique.
pub proof fn lemma_find_inverse(s: Seq<Entry>, c: CallerIdentity, e: Entry)
    requires
        ids_unique(s),
        find_by_caller(s, c) == Some(e),
    ensures
        find_by_id(s, e.id@) == Some(e),
    decreases s.len(),
{
    if s.last().caller == c {
        assert(s.last() == e);
    } else {
        lemma_find_by_caller_mem(s.drop_last(), c, e);
        let i = choose|i: int| 0 <= i < s.drop_last().len() && s.drop_last()[i] == e;
        assert(s[i] == e);
        assert(s[i].id@ != s[s.len() - 1].id@);
        assert(forall|i: int, j: int|
            #![trigger s.drop_last()[i], s.drop_last()[j]]
            0 <= i < j < s.len() - 1 ==> s.drop_last()[i] == s[i] && s.drop_last()[j] == s[j]);
        lemma_find_inverse(s.drop_last(), c, e);
    }
}

/// Looking an entry up by identifier and then by the caller it names
/// lands on the same entry, provided callers are unique.
pub proof fn lemma_find_inverse_back(s: Seq<Entry>, idb: Seq<u8>, e: Entry)
    requires
        callers_unique(s),
        find_by_id(s, idb) == Some(e),
    ensures
        find_by_caller(s, e.caller) == Some(e),
    decreases s.len(),
{
    if s.last().id@ == idb {
        assert(s.last() == e);
    } else {
        lemma_find_by_id_mem(s.drop_last(), idb, e);
        let i = choose|i: int| 0 <= i < s.drop_last().len() && s.drop_last()[i] == e;
        assert(s[i] == e);
        assert(s[i].caller != s[s.len() - 1].caller);
        assert(forall|i: int, j: int|
            #![trigger s.drop_last()[i], s.drop_last()[j]]
            0 <= i < j < s.len() - 1 ==> s.drop_last()[i] == s[i] && s.drop_last()[j] == s[j]);
        lemma_find_inverse_back(s.drop_last(), idb, e);
    }
}

/// The reverse map is the true inverse of the forward map: in a
/// well-formed registry, for every caller that owns an identifier, that
/// identifier maps back to the same caller, and vice versa.
pub proof fn lemma_maps_inverse(r: DidRegistry, c: CallerIdentity, idb: Seq<u8>)
    requires
        r.wf(),
    ensures
        r.spec_get_identifier(c) matches Some(i) ==> r.spec_get_owner(i) == Some(c),
        r.spec_get_owner(idb) matches Some(o) ==> r.spec_get_identifier(o) == Some(idb),
{
    if r.spec_get_identifier(c) is Some {
        let e = choose|e: Entry| find_by_caller(r.entries@, c) == Some(e);
        lemma_find_by_caller_mem(r.entries@, c, e);
        lemma_find_inverse(r.entries@, c, e);
    }
    if r.spec_get_owner(idb) is Some {
        let e = choose|e: Entry| find_by_id(r.entries@, idb) == Some(e);
        lemma_find_by_id_mem(r.entries@, idb, e);
        lemma_find_inverse_back(r.entries@, idb, e);
    }
}

/// Round trip: for any registered caller, resolving the identifier the
/// forward map gives finds a record — the very record the metadata map
/// holds — and that identifier's owner is the caller itself.
pub proof fn lemma_resolution_round_trip(r: DidRegistry, c: CallerIdentity)
    requires
        r.wf(),
        r.spec_has_identifier(c),
    ensures
        r.spec_get_identifier(c) matches Some(idb) ==> {
            &&& r.spec_resolve(idb) == r.spec_get_record(idb)
            &&& r.spec_resolve(idb) is Some
            &&& r.spec_get_owner(idb) == Some(c)
        },
{
    let e = choose|e: Entry| find_by_caller(r.entries@, c) == Some(e);
    lemma_find_by_caller_mem(r.entries@, c, e);
    lemma_find_inverse(r.entries@, c, e);
}

/// A record exists exactly for a claimed identifier: the metadata map
/// holds an entry for an identifier if and only if the reverse map does.
pub proof fn lemma_record_iff_owned(r: DidRegistry, idb: Seq<u8>)
    ensures
        (r.spec_get_record(idb) is Some) <==> (r.spec_get_owner(idb) is Some),
{
}

/// Resolution is idempotent: with no intervening writes — the registry
/// value unchanged between the calls — repeated resolution of the same
/// identifier returns identical results.
pub proof fn lemma_resolve_idempotent(r1: DidRegistry, r2: DidRegistry, idb: Seq<u8>)
    requires
        r1 == r2,
    ensures
        r1.spec_resolve(idb) == r2.spec_resolve(idb),
{
}

/// The counter equals the cardinality of the metadata map at all times:
/// each successful registration raises both by one, and a failed one
/// leaves the registry — counter included — unchanged.
pub proof fn lemma_counter_matches_records(r: DidRegistry)
    requires
        r.wf(),
    ensures
        r.did_count == r.entries@.len(),
{
}

/// Identifiers are never shared: two distinct entries of a well-formed
/// registry always hold distinct identifiers.
pub proof fn lemma_identifiers_distinct(r: DidRegistry, i: int, j: int)
    requires
        r.wf(),
        0 <= i < r.entries@.len(),
        0 <= j < r.entries@.len(),
        i != j,
    ensures
        r.entries@[i].id@ != r.entries@[j].id@,
{
    if i < j {
        assert(r.entries@[i].id@ != r.entries@[j].id@);
    } else {
        assert(r.entries@[j].id@ != r.entries@[i].id@);
    }
}

} // verus!
