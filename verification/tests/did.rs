use soroban_sdk::Env;
use web3_suite_identity::bytes::{Address, Bytes32};
use web3_suite_identity::did::{
    created_event, created_record, deactivated_event, deactivated_record, derive_did_id, record_is_active,
    transferred_event, transferred_record, DIDError, DIDRegistry,
};

const OWNER: &str = "GBOWNER7777777777777777777777777777777777777777777777777";
const OTHER: &str = "GBOTHER7777777777777777777777777777777777777777777777777";

fn setup() -> (Env, Address, Address) {
    let env = Env::default();
    (env, Address::from_strkey(OWNER.as_bytes()), Address::from_strkey(OTHER.as_bytes()))
}

fn sha256(env: &Env, data: &[u8]) -> Bytes32 {
    Bytes32::from_array(env.crypto().sha256(&soroban_sdk::Bytes::from_slice(env, data)).to_array())
}

#[test]
fn test_create_and_resolve() {
    let (env, owner, _) = setup();
    let mut contract = DIDRegistry::new();

    let doc = b"https://example.com/did/doc1".to_vec();
    let did_id = contract.create_did(&env, owner.duplicate(), doc.clone(), 0).unwrap();

    let record = contract.resolve_did(did_id).unwrap();
    assert_eq!(record.owner, owner);
    assert_eq!(record.document, doc);
    assert!(record.active);
}

#[test]
fn test_update_did() {
    let (env, owner, _) = setup();
    let mut contract = DIDRegistry::new();

    let did_id = contract.create_did(&env, owner.duplicate(), b"original".to_vec(), 0).unwrap();

    let new_doc = b"updated".to_vec();
    contract.update_did(did_id, owner.duplicate(), new_doc.clone(), 0).unwrap();

    let record = contract.resolve_did(did_id).unwrap();
    assert_eq!(record.document, new_doc);
}

#[test]
fn test_deactivate_did() {
    let (env, owner, _) = setup();
    let mut contract = DIDRegistry::new();

    let did_id = contract.create_did(&env, owner.duplicate(), b"doc".to_vec(), 0).unwrap();

    assert!(contract.is_active(did_id));
    contract.deactivate_did(did_id, owner.duplicate(), 0).unwrap();
    assert!(!contract.is_active(did_id));
}

#[test]
fn test_transfer_did() {
    let (env, owner, other) = setup();
    let mut contract = DIDRegistry::new();

    let did_id = contract.create_did(&env, owner.duplicate(), b"doc".to_vec(), 0).unwrap();

    contract.transfer_did(did_id, owner.duplicate(), other.duplicate(), 0).unwrap();
    let record = contract.resolve_did(did_id).unwrap();
    assert_eq!(record.owner, other);
}

#[test]
fn test_not_owner_fails() {
    let (env, owner, other) = setup();
    let mut contract = DIDRegistry::new();

    let did_id = contract.create_did(&env, owner.duplicate(), b"doc".to_vec(), 0).unwrap();

    let result = contract.update_did(did_id, other.duplicate(), b"x".to_vec(), 0);
    assert_eq!(result, Err(DIDError::NotOwner));
}

#[test]
fn test_empty_document_fails() {
    let (env, owner, _) = setup();
    let mut contract = DIDRegistry::new();

    let result = contract.create_did(&env, owner.duplicate(), Vec::new(), 0);
    assert_eq!(result, Err(DIDError::InvalidDocument));
}

#[test]
fn test_resolve_nonexistent_fails() {
    let (env, _, _) = setup();
    let contract = DIDRegistry::new();

    let fake_id = sha256(&env, b"nope");
    let result = contract.resolve_did(fake_id);
    assert_eq!(result, Err(DIDError::NotFound));
}

#[test]
fn test_deactivate_by_non_owner_fails() {
    let (env, owner, other) = setup();
    let mut contract = DIDRegistry::new();

    let did_id = contract.create_did(&env, owner.duplicate(), b"doc".to_vec(), 0).unwrap();

    let result = contract.deactivate_did(did_id, other.duplicate(), 0);
    assert_eq!(result, Err(DIDError::NotOwner));
}

// ---------------------------------------------------------------------------
// Further cases
// ---------------------------------------------------------------------------

#[test]
fn did_id_is_sha256_of_owner_counter_document() {
    let (env, owner, _) = setup();
    let doc = b"doc".to_vec();
    let mut preimage = OWNER.as_bytes().to_vec();
    preimage.extend_from_slice(&5u64.to_be_bytes());
    preimage.extend_from_slice(&doc);
    let expected = sha256(&env, &preimage);
    assert_eq!(derive_did_id(&env, &owner, 5, &doc), expected);
    // the counter moves the identifier
    assert_ne!(derive_did_id(&env, &owner, 6, &doc), expected);
}

#[test]
fn create_uses_and_advances_the_counter() {
    let (env, owner, _) = setup();
    let mut contract = DIDRegistry::new();
    let doc = b"doc".to_vec();
    let first = contract.create_did(&env, owner.duplicate(), doc.clone(), 7).unwrap();
    let second = contract.create_did(&env, owner.duplicate(), doc.clone(), 8).unwrap();
    assert_eq!(first, derive_did_id(&env, &owner, 0, &doc));
    assert_eq!(second, derive_did_id(&env, &owner, 1, &doc));
    assert_ne!(first, second);
    let record = contract.resolve_did(second).unwrap();
    assert_eq!(record.created_at, 8);
    assert_eq!(record.updated_at, 8);
}

#[test]
fn register_refuses_a_taken_identifier() {
    let (_, owner, other) = setup();
    let mut contract = DIDRegistry::new();
    let id = Bytes32::from_array([9u8; 32]);
    assert_eq!(contract.register_did(id, owner.duplicate(), b"a".to_vec(), 1), Ok(id));
    assert_eq!(contract.register_did(id, other.duplicate(), b"b".to_vec(), 2), Err(DIDError::AlreadyExists));
    assert_eq!(contract.register_did(Bytes32::from_array([1u8; 32]), owner.duplicate(), Vec::new(), 2), Err(DIDError::InvalidDocument));
    let record = contract.resolve_did(id).unwrap();
    assert_eq!(record.owner, owner);
    assert_eq!(record.document, b"a".to_vec());
}

#[test]
fn update_keeps_created_at_and_stamps_updated_at() {
    let (env, owner, _) = setup();
    let mut contract = DIDRegistry::new();
    let did_id = contract.create_did(&env, owner.duplicate(), b"doc".to_vec(), 10).unwrap();
    contract.update_did(did_id, owner.duplicate(), b"doc2".to_vec(), 25).unwrap();
    let record = contract.resolve_did(did_id).unwrap();
    assert_eq!(record.created_at, 10);
    assert_eq!(record.updated_at, 25);
}

#[test]
fn update_with_empty_document_fails_first() {
    let (env, _, other) = setup();
    let mut contract = DIDRegistry::new();
    let missing = sha256(&env, b"missing");
    assert_eq!(contract.update_did(missing, other.duplicate(), Vec::new(), 0), Err(DIDError::InvalidDocument));
    assert_eq!(contract.update_did(missing, other.duplicate(), b"x".to_vec(), 0), Err(DIDError::NotFound));
    assert_eq!(contract.deactivate_did(missing, other.duplicate(), 0), Err(DIDError::NotFound));
    assert_eq!(contract.transfer_did(missing, other.duplicate(), other.duplicate(), 0), Err(DIDError::NotFound));
    assert!(!contract.is_active(missing));
}

#[test]
fn deactivated_did_stays_inactive_and_refuses_changes() {
    let (env, owner, other) = setup();
    let mut contract = DIDRegistry::new();
    let did_id = contract.create_did(&env, owner.duplicate(), b"doc".to_vec(), 0).unwrap();
    contract.deactivate_did(did_id, owner.duplicate(), 3).unwrap();
    assert_eq!(contract.update_did(did_id, owner.duplicate(), b"x".to_vec(), 4), Err(DIDError::Inactive));
    assert_eq!(contract.transfer_did(did_id, owner.duplicate(), other.duplicate(), 4), Err(DIDError::Inactive));
    // deactivating again is accepted and keeps it inactive
    assert_eq!(contract.deactivate_did(did_id, owner.duplicate(), 5), Ok(()));
    assert!(!contract.is_active(did_id));
    assert_eq!(contract.resolve_did(did_id).unwrap().updated_at, 5);
}

#[test]
fn transfer_moves_control_to_the_new_owner() {
    let (env, owner, other) = setup();
    let mut contract = DIDRegistry::new();
    let did_id = contract.create_did(&env, owner.duplicate(), b"doc".to_vec(), 0).unwrap();
    assert_eq!(contract.transfer_did(did_id, other.duplicate(), other.duplicate(), 1), Err(DIDError::NotOwner));
    contract.transfer_did(did_id, owner.duplicate(), other.duplicate(), 2).unwrap();
    assert_eq!(contract.update_did(did_id, owner.duplicate(), b"x".to_vec(), 3), Err(DIDError::NotOwner));
    assert_eq!(contract.update_did(did_id, other.duplicate(), b"y".to_vec(), 3), Ok(()));
}

#[test]
fn creation_writes_advance_the_counter() {
    let (_, owner, _) = setup();
    let w = web3_suite_identity::did::creation_writes(false, owner.duplicate(), b"doc".to_vec(), 9, 41).unwrap();
    assert_eq!(w.counter, 42);
    assert_eq!(w.record.owner, owner);
    assert_eq!(w.record.created_at, 9);
    assert!(w.record.active);
    assert!(matches!(
        web3_suite_identity::did::creation_writes(true, owner.duplicate(), b"doc".to_vec(), 9, 41),
        Err(DIDError::AlreadyExists)
    ));
    assert!(matches!(
        web3_suite_identity::did::creation_writes(false, owner.duplicate(), Vec::new(), 9, 41),
        Err(DIDError::InvalidDocument)
    ));
}

#[test]
fn try_create_did_answers_like_create_did() {
    let (env, owner, _) = setup();
    let mut contract = DIDRegistry::new();
    let id = contract.try_create_did(&env, owner.duplicate(), b"doc".to_vec(), 0).unwrap().unwrap();
    assert_eq!(id, derive_did_id(&env, &owner, 0, &b"doc".to_vec()));
    assert_eq!(contract.try_create_did(&env, owner.duplicate(), Vec::new(), 0), Some(Err(DIDError::InvalidDocument)));
    assert!(contract.is_active(id));
}

#[test]
fn active_check_and_events_follow_the_records() {
    let (_, owner, other) = setup();
    let id = Bytes32::from_array([4u8; 32]);
    let rec = created_record(false, owner.duplicate(), b"doc".to_vec(), 11).unwrap();
    assert!(record_is_active(Some(&rec)));
    assert!(!record_is_active(None));
    let e = created_event(id, &rec);
    assert_eq!(e.did_id, id);
    assert_eq!(e.owner, owner);
    assert_eq!(e.timestamp, 11);
    let moved = transferred_record(Some(&rec), &owner, other.duplicate(), 12).unwrap();
    let t = transferred_event(id, &rec, &moved);
    assert_eq!(t.from, owner);
    assert_eq!(t.to, other);
    assert_eq!(t.timestamp, 12);
    let off = deactivated_record(Some(&moved), &other, 13).unwrap();
    assert!(!record_is_active(Some(&off)));
    assert_eq!(deactivated_event(id, &off).timestamp, 13);
}
