use did_registry::derivation::derive_identifier;
use did_registry::record::{Identifier, MetadataDid, ID_LENGTH};
use did_registry::registry::{DidRegistry, Event, RegistrationError, StoreError};
use did_registry::validation::{validate_did, ValidationError, BYTEARRAY_LIMIT};

#[test]
fn it_works_for_default_value() {
    let record = MetadataDid::default();
    assert_eq!(record.address, 0);
    assert_eq!(record.creator, 0);
    assert!(!record.active);
    assert!(record.did_prefix.is_empty());
    let registry = DidRegistry::new();
    assert_eq!(registry.did_count(), 0);
    assert!(registry.events().is_empty());
}

#[test]
fn validate_rejects_empty_input() {
    assert_eq!(validate_did(b""), Err(ValidationError::EmptyInput));
}

#[test]
fn validate_rejects_too_long_input() {
    let candidate = vec![0u8; 65];
    assert_eq!(validate_did(&candidate), Err(ValidationError::TooLong));
}

#[test]
fn validate_accepts_boundary_length() {
    let candidate = vec![0u8; 64];
    assert_eq!(validate_did(&candidate), Ok(()));
    assert_eq!(BYTEARRAY_LIMIT, 64);
    assert_eq!(validate_did(b"x"), Ok(()));
}

#[test]
fn derivation_is_deterministic_and_digest_length() {
    let a = derive_identifier(b"entropy", 1, 2, 3);
    let b = derive_identifier(b"entropy", 1, 2, 3);
    assert_eq!(a, b);
    assert_eq!(a.bytes.len(), ID_LENGTH);
    // Any change to an input changes the digest.
    let c = derive_identifier(b"entropy", 1, 2, 4);
    assert_ne!(a, c);
    let d = derive_identifier(b"entropx", 1, 2, 3);
    assert_ne!(a, d);
    // The digest is not the payload handed in.
    assert_ne!(a.bytes.as_slice(), b"entropy".as_slice());
}

#[test]
fn registration_scenario() {
    let caller_a = 1u64;
    let mut registry = DidRegistry::new();
    let h1 = registry
        .register(caller_a, true, b"org:acme".to_vec(), b"seed-0", 0, 10)
        .expect("first registration succeeds");
    let resolved = registry.resolve(&h1).expect("registered id resolves");
    assert_eq!(resolved.address, caller_a);
    assert_eq!(resolved.creator, caller_a);
    assert!(resolved.active);
    assert_eq!(resolved.did_prefix, b"org:acme".to_vec());

    let second = registry.register(caller_a, false, b"org:other".to_vec(), b"seed-1", 1, 11);
    assert_eq!(second, Err(RegistrationError::AlreadyRegistered));

    let unregistered = Identifier::new(vec![0u8; ID_LENGTH]);
    assert_eq!(registry.resolve(&unregistered), None);
}

#[test]
fn registered_caller_has_identifier_and_cannot_register_twice() {
    let caller = 7u64;
    let mut registry = DidRegistry::new();
    assert!(!registry.has_identifier(caller));
    registry
        .register(caller, true, b"org:acme".to_vec(), b"seed", 0, 1)
        .expect("registration succeeds");
    assert!(registry.has_identifier(caller));
    let again = registry.register(caller, true, b"org:acme".to_vec(), b"seed2", 1, 2);
    assert_eq!(again, Err(RegistrationError::AlreadyRegistered));
}

#[test]
fn owner_and_record_point_back_to_the_caller() {
    let caller = 9u64;
    let mut registry = DidRegistry::new();
    let id = registry
        .register(caller, false, b"org:x".to_vec(), b"seed", 4, 5)
        .expect("registration succeeds");
    assert_eq!(registry.get_owner(&id), Some(caller));
    let record = registry.get_record(&id).expect("record exists");
    assert_eq!(record.address, caller);
    assert_eq!(record.creator, caller);
}

#[test]
fn resolution_round_trips_through_the_forward_map() {
    let caller = 3u64;
    let mut registry = DidRegistry::new();
    registry
        .register(caller, true, b"org:y".to_vec(), b"seed", 6, 7)
        .expect("registration succeeds");
    let id = registry.get_identifier(caller).expect("caller has an identifier");
    assert_eq!(registry.resolve(&id), registry.get_record(&id));
    assert!(registry.resolve(&id).is_some());
}

#[test]
fn counter_counts_successes_and_ignores_failures() {
    let mut registry = DidRegistry::new();
    for caller in 1u64..=3 {
        registry
            .register(caller, true, b"org:acme".to_vec(), b"seed", caller, 100)
            .expect("registration succeeds");
    }
    assert_eq!(registry.did_count(), 3);

    // Failed registrations never change the counter or the store.
    let bad_prefix = registry.register(4, true, Vec::new(), b"seed", 4, 100);
    assert_eq!(
        bad_prefix,
        Err(RegistrationError::InvalidPrefix(ValidationError::EmptyInput))
    );
    let long_prefix = registry.register(4, true, vec![0u8; 65], b"seed", 5, 100);
    assert_eq!(
        long_prefix,
        Err(RegistrationError::InvalidPrefix(ValidationError::TooLong))
    );
    let duplicate = registry.register(2, true, b"org:acme".to_vec(), b"seed", 6, 100);
    assert_eq!(duplicate, Err(RegistrationError::AlreadyRegistered));
    assert_eq!(registry.did_count(), 3);
}

#[test]
fn resolution_is_idempotent() {
    let caller = 11u64;
    let mut registry = DidRegistry::new();
    let id = registry
        .register(caller, true, b"org:z".to_vec(), b"seed", 0, 1)
        .expect("registration succeeds");
    let first = registry.resolve(&id);
    let second = registry.resolve(&id);
    let third = registry.resolve(&id);
    assert_eq!(first, second);
    assert_eq!(second, third);
}

#[test]
fn two_distinct_callers_in_one_batch_both_succeed() {
    let caller_a = 21u64;
    let caller_b = 22u64;
    let height = 50u64;
    let mut registry = DidRegistry::new();
    let id_a = registry
        .register(caller_a, true, b"org:a".to_vec(), b"batch-entropy-1", 0, height)
        .expect("first of the batch succeeds");
    let id_b = registry
        .register(caller_b, true, b"org:b".to_vec(), b"batch-entropy-2", 1, height)
        .expect("second of the batch succeeds");
    assert_ne!(id_a, id_b);
    // Both writes are fully visible: every map answers for both callers.
    assert_eq!(registry.get_owner(&id_a), Some(caller_a));
    assert_eq!(registry.get_owner(&id_b), Some(caller_b));
    assert!(registry.get_record(&id_a).is_some());
    assert!(registry.get_record(&id_b).is_some());
    assert_eq!(registry.get_identifier(caller_a), Some(id_a));
    assert_eq!(registry.get_identifier(caller_b), Some(id_b));
    assert_eq!(registry.did_count(), 2);
}

#[test]
fn put_guards_duplicate_caller_and_duplicate_identifier() {
    let mut registry = DidRegistry::new();
    let id1 = Identifier::new(vec![1u8; ID_LENGTH]);
    let id2 = Identifier::new(vec![2u8; ID_LENGTH]);
    let record = |caller: u64| MetadataDid {
        address: caller,
        creator: caller,
        active: true,
        did_prefix: b"org:acme".to_vec(),
    };
    assert_eq!(registry.put(1, id1.clone(), record(1)), Ok(()));
    // Same caller again: rejected, nothing written.
    assert_eq!(registry.put(1, id2.clone(), record(1)), Err(StoreError::AlreadyExists));
    // Same identifier again under another caller: rejected too.
    assert_eq!(registry.put(2, id1.clone(), record(2)), Err(StoreError::AlreadyExists));
    assert_eq!(registry.did_count(), 1);
    assert_eq!(registry.put(2, id2, record(2)), Ok(()));
    assert_eq!(registry.did_count(), 2);
}

#[test]
fn register_reports_a_collision_on_a_claimed_identifier() {
    let caller_a = 1u64;
    let caller_b = 2u64;
    let mut registry = DidRegistry::new();
    // Claim, under another caller, exactly the identifier that the next
    // derivation will produce.
    let colliding = derive_identifier(b"seed", caller_b, 3, 4);
    let record = MetadataDid {
        address: caller_a,
        creator: caller_a,
        active: true,
        did_prefix: b"org:acme".to_vec(),
    };
    assert_eq!(registry.put(caller_a, colliding, record), Ok(()));
    let collided = registry.register(caller_b, true, b"org:acme".to_vec(), b"seed", 3, 4);
    assert_eq!(collided, Err(RegistrationError::IdentifierCollision));
    assert_eq!(registry.did_count(), 1);
}

#[test]
fn a_successful_registration_emits_a_created_event() {
    let caller = 5u64;
    let mut registry = DidRegistry::new();
    let id = registry
        .register(caller, true, b"org:acme".to_vec(), b"seed", 0, 1)
        .expect("registration succeeds");
    assert_eq!(registry.events().len(), 1);
    assert_eq!(registry.events()[0], Event::Created(caller, id));

    // Failures emit nothing.
    let failed = registry.register(caller, true, b"org:acme".to_vec(), b"seed", 1, 2);
    assert!(failed.is_err());
    assert_eq!(registry.events().len(), 1);
}
