use soroban_sdk::Env;
use web3_suite_identity::bytes::{Address, Bytes32};
use web3_suite_identity::credentials::{derive_credential_id, issuance_accepted, CredentialError, VerifiableCredentials};

const ISSUER: &str = "GBISSUER777777777777777777777777777777777777777777777777";
const OTHER: &str = "GBOTHER7777777777777777777777777777777777777777777777777";

fn sha256(env: &Env, data: &[u8]) -> Bytes32 {
    Bytes32::from_array(env.crypto().sha256(&soroban_sdk::Bytes::from_slice(env, data)).to_array())
}

fn setup() -> (Env, Address, Bytes32) {
    let env = Env::default();
    let issuer = Address::from_strkey(ISSUER.as_bytes());
    let subject = sha256(&env, b"subject-did");
    (env, issuer, subject)
}

#[test]
fn test_issue_and_verify() {
    let (env, issuer, subject) = setup();
    let mut contract = VerifiableCredentials::new();

    let cred_type = b"ProofOfIdentity".to_vec();
    let claims = b"{\"name\":\"Alice\"}".to_vec();
    let sig = b"sig123".to_vec();

    let cred_id = contract
        .issue_credential(&env, issuer.duplicate(), subject, cred_type, claims, None, sig, 0)
        .unwrap();

    assert!(contract.verify_credential(cred_id, 0));
    let record = contract.get_credential(cred_id).unwrap();
    assert_eq!(record.issuer, issuer);
    assert!(!record.revoked);
}

#[test]
fn test_revoke_credential() {
    let (env, issuer, subject) = setup();
    let mut contract = VerifiableCredentials::new();

    let cred_id = contract
        .issue_credential(&env, issuer.duplicate(), subject, b"type".to_vec(), b"claims".to_vec(), None, b"sig".to_vec(), 0)
        .unwrap();

    assert!(contract.verify_credential(cred_id, 0));
    contract.revoke_credential(cred_id, issuer.duplicate()).unwrap();
    assert!(!contract.verify_credential(cred_id, 0));
}

#[test]
fn test_issuer_credentials_list() {
    let (env, issuer, subject) = setup();
    let mut contract = VerifiableCredentials::new();

    let _id1 = contract
        .issue_credential(&env, issuer.duplicate(), subject, b"type1".to_vec(), b"c1".to_vec(), None, b"s1".to_vec(), 0)
        .unwrap();
    let _id2 = contract
        .issue_credential(&env, issuer.duplicate(), subject, b"type2".to_vec(), b"c2".to_vec(), None, b"s2".to_vec(), 0)
        .unwrap();

    let creds = contract.get_issuer_credentials(issuer.duplicate());
    assert_eq!(creds.len(), 2);
}

#[test]
fn test_not_issuer_fails_revoke() {
    let (env, issuer, subject) = setup();
    let other = Address::from_strkey(OTHER.as_bytes());
    let mut contract = VerifiableCredentials::new();

    let cred_id = contract
        .issue_credential(&env, issuer.duplicate(), subject, b"type".to_vec(), b"claims".to_vec(), None, b"sig".to_vec(), 0)
        .unwrap();

    let result = contract.revoke_credential(cred_id, other);
    assert_eq!(result, Err(CredentialError::NotIssuer));
}

#[test]
fn test_invalid_credential_empty_type() {
    let (env, issuer, subject) = setup();
    let mut contract = VerifiableCredentials::new();

    let result = contract.issue_credential(&env, issuer, subject, Vec::new(), b"claims".to_vec(), None, b"sig".to_vec(), 0);
    assert_eq!(result, Err(CredentialError::InvalidCredential));
}

#[test]
fn test_nonexistent_credential() {
    let (env, _, _) = setup();
    let contract = VerifiableCredentials::new();

    let fake_id = sha256(&env, b"nope");
    assert!(!contract.verify_credential(fake_id, 0));
}

// ---------------------------------------------------------------------------
// Further cases
// ---------------------------------------------------------------------------

#[test]
fn credential_id_is_sha256_of_issuer_subject_counter_type() {
    let (env, issuer, subject) = setup();
    let cred_type = b"ProofOfIdentity".to_vec();
    let mut preimage = ISSUER.as_bytes().to_vec();
    preimage.extend_from_slice(&subject.bytes);
    preimage.extend_from_slice(&3u64.to_be_bytes());
    preimage.extend_from_slice(&cred_type);
    assert_eq!(derive_credential_id(&env, &issuer, &subject, 3, &cred_type), sha256(&env, &preimage));
    let mut contract = VerifiableCredentials::new();
    let id = contract
        .issue_credential(&env, issuer.duplicate(), subject, cred_type.clone(), b"c".to_vec(), None, b"s".to_vec(), 0)
        .unwrap();
    assert_eq!(id, derive_credential_id(&env, &issuer, &subject, 0, &cred_type));
}

#[test]
fn empty_claims_and_past_expiry_are_invalid() {
    let (env, issuer, subject) = setup();
    let mut contract = VerifiableCredentials::new();
    assert_eq!(
        contract.issue_credential(&env, issuer.duplicate(), subject, b"t".to_vec(), Vec::new(), None, b"s".to_vec(), 0),
        Err(CredentialError::InvalidCredential)
    );
    // an expiry equal to the issuance time is already past
    assert_eq!(
        contract.issue_credential(&env, issuer.duplicate(), subject, b"t".to_vec(), b"c".to_vec(), Some(100), b"s".to_vec(), 100),
        Err(CredentialError::InvalidCredential)
    );
    assert_eq!(contract.get_issuer_credentials(issuer.duplicate()).len(), 0);
}

#[test]
fn credential_expires_at_its_expiry() {
    let (env, issuer, subject) = setup();
    let mut contract = VerifiableCredentials::new();
    let id = contract
        .issue_credential(&env, issuer.duplicate(), subject, b"t".to_vec(), b"c".to_vec(), Some(101), b"s".to_vec(), 100)
        .unwrap();
    assert!(contract.verify_credential(id, 100));
    assert!(!contract.verify_credential(id, 101));
    assert!(!contract.verify_credential(id, 5000));
    let record = contract.get_credential(id).unwrap();
    assert_eq!(record.issued_at, 100);
    assert_eq!(record.expires_at, Some(101));
}

#[test]
fn revocation_is_final() {
    let (env, issuer, subject) = setup();
    let mut contract = VerifiableCredentials::new();
    let id = contract
        .issue_credential(&env, issuer.duplicate(), subject, b"t".to_vec(), b"c".to_vec(), None, b"s".to_vec(), 0)
        .unwrap();
    assert_eq!(contract.revoke_credential(id, issuer.duplicate()), Ok(()));
    assert_eq!(contract.revoke_credential(id, issuer.duplicate()), Err(CredentialError::AlreadyRevoked));
    assert!(contract.get_credential(id).unwrap().revoked);
    assert!(!contract.verify_credential(id, u64::MAX));
}

#[test]
fn missing_credential_is_not_found() {
    let (env, issuer, _) = setup();
    let mut contract = VerifiableCredentials::new();
    let id = sha256(&env, b"missing");
    assert_eq!(contract.get_credential(id), Err(CredentialError::NotFound));
    assert_eq!(contract.revoke_credential(id, issuer), Err(CredentialError::NotFound));
}

#[test]
fn record_credential_lists_under_issuer_and_subject() {
    let (_, issuer, subject) = setup();
    let mut contract = VerifiableCredentials::new();
    let a = Bytes32::from_array([1u8; 32]);
    let b = Bytes32::from_array([2u8; 32]);
    assert_eq!(contract.record_credential(a, issuer.duplicate(), subject, b"t".to_vec(), b"c".to_vec(), None, b"s".to_vec(), 0), Ok(a));
    assert_eq!(contract.record_credential(b, issuer.duplicate(), subject, b"t".to_vec(), b"c".to_vec(), None, b"s".to_vec(), 0), Ok(b));
    assert_eq!(contract.get_issuer_credentials(issuer.duplicate()), vec![a, b]);
    assert_eq!(contract.get_subject_credentials(subject), vec![a, b]);
    assert_eq!(contract.get_subject_credentials(Bytes32::from_array([0u8; 32])), Vec::new());
    assert_eq!(contract.get_issuer_credentials(Address::from_strkey(OTHER.as_bytes())), Vec::new());
}

#[test]
fn issuance_writes_append_to_both_lists() {
    let (_, issuer, subject) = setup();
    let a = Bytes32::from_array([1u8; 32]);
    let b = Bytes32::from_array([2u8; 32]);
    let c = Bytes32::from_array([3u8; 32]);
    let w = web3_suite_identity::credentials::issuance_writes(
        c, vec![a], vec![b, a], 7, issuer.duplicate(), subject, b"t".to_vec(), b"c".to_vec(), Some(20), b"s".to_vec(), 10,
    )
    .unwrap();
    assert_eq!(w.issuer_ids, vec![a, c]);
    assert_eq!(w.subject_ids, vec![b, a, c]);
    assert_eq!(w.counter, 8);
    assert_eq!(w.record.issuer, issuer);
    assert_eq!(w.record.issued_at, 10);
    assert!(!w.record.revoked);
    assert!(matches!(
        web3_suite_identity::credentials::issuance_writes(
            c, vec![], vec![], 7, issuer.duplicate(), subject, b"t".to_vec(), b"c".to_vec(), Some(10), b"s".to_vec(), 10,
        ),
        Err(CredentialError::InvalidCredential)
    ));
}

#[test]
fn issuance_acceptance() {
    assert!(issuance_accepted(&b"t".to_vec(), &b"c".to_vec(), None, 5));
    assert!(issuance_accepted(&b"t".to_vec(), &b"c".to_vec(), Some(6), 5));
    assert!(!issuance_accepted(&b"t".to_vec(), &b"c".to_vec(), Some(5), 5));
    assert!(!issuance_accepted(&Vec::new(), &b"c".to_vec(), None, 5));
    assert!(!issuance_accepted(&b"t".to_vec(), &Vec::new(), None, 5));
}
