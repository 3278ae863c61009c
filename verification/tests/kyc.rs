use soroban_sdk::Env;
use web3_suite_identity::bytes::{Address, Bytes32};
use web3_suite_identity::kyc::{approval_is_accepted, submitted_record, KYCError, KYCLevel, KYCStatus, KYCVerification, KYC_VALIDITY_SECONDS};

const ADMIN: &str = "GBADMIN7777777777777777777777777777777777777777777777777";
const APPLICANT: &str = "GBAPPLICANT77777777777777777777777777777777777777777777";
const FAKE: &str = "GBFAKE77777777777777777777777777777777777777777777777777";

fn setup() -> (Env, Address, Address, Bytes32) {
    let env = Env::default();
    let admin = Address::from_strkey(ADMIN.as_bytes());
    let applicant = Address::from_strkey(APPLICANT.as_bytes());
    let did_id = Bytes32::from_array(env.crypto().sha256(&soroban_sdk::Bytes::from_slice(&env, b"did123")).to_array());
    (env, admin, applicant, did_id)
}

#[test]
fn test_full_kyc_flow() {
    let (_env, admin, applicant, did_id) = setup();
    let mut contract = KYCVerification::new();

    contract.register_verifier(admin.duplicate(), admin.duplicate()).unwrap();

    contract
        .submit_kyc(applicant.duplicate(), did_id, KYCLevel::Enhanced, b"hash123".to_vec(), 0)
        .unwrap();

    let record = contract.verify_kyc(applicant.duplicate(), 0).unwrap();
    assert_eq!(record.status, KYCStatus::Pending);

    contract
        .approve_kyc(applicant.duplicate(), admin.duplicate(), b"hash123".to_vec(), 0)
        .unwrap();

    assert!(contract.is_verified(applicant.duplicate(), KYCLevel::Basic, 0));
    assert!(contract.is_verified(applicant.duplicate(), KYCLevel::Enhanced, 0));
    assert!(!contract.is_verified(applicant.duplicate(), KYCLevel::Institutional, 0));
}

#[test]
fn test_reject_kyc() {
    let (_env, admin, applicant, did_id) = setup();
    let mut contract = KYCVerification::new();

    contract.register_verifier(admin.duplicate(), admin.duplicate()).unwrap();
    contract
        .submit_kyc(applicant.duplicate(), did_id, KYCLevel::Basic, b"hash".to_vec(), 0)
        .unwrap();

    contract
        .reject_kyc(applicant.duplicate(), admin.duplicate(), b"insufficient docs".to_vec())
        .unwrap();

    assert!(!contract.is_verified(applicant.duplicate(), KYCLevel::Basic, 0));
}

#[test]
fn test_unregistered_verifier_fails() {
    let (_env, admin, applicant, did_id) = setup();
    let fake_verifier = Address::from_strkey(FAKE.as_bytes());
    let mut contract = KYCVerification::new();

    contract.register_verifier(admin.duplicate(), admin.duplicate()).unwrap();
    contract
        .submit_kyc(applicant.duplicate(), did_id, KYCLevel::Basic, b"hash".to_vec(), 0)
        .unwrap();

    let result = contract.approve_kyc(applicant.duplicate(), fake_verifier, b"hash".to_vec(), 0);
    assert_eq!(result, Err(KYCError::NotVerifier));
}

#[test]
fn test_invalid_level() {
    let (_env, _, applicant, did_id) = setup();
    let mut contract = KYCVerification::new();

    let result = contract.submit_kyc(applicant, did_id, KYCLevel::Unverified, b"hash".to_vec(), 0);
    assert_eq!(result, Err(KYCError::InvalidLevel));
}

// ---------------------------------------------------------------------------
// Further cases
// ---------------------------------------------------------------------------

#[test]
fn approval_lasts_one_year() {
    let (_env, admin, applicant, did_id) = setup();
    let mut contract = KYCVerification::new();
    contract.register_verifier(admin.duplicate(), admin.duplicate()).unwrap();
    contract.submit_kyc(applicant.duplicate(), did_id, KYCLevel::Institutional, b"h".to_vec(), 0).unwrap();
    contract.approve_kyc(applicant.duplicate(), admin.duplicate(), b"h2".to_vec(), 1000).unwrap();

    assert_eq!(KYC_VALIDITY_SECONDS, 31_536_000);
    let record = contract.verify_kyc(applicant.duplicate(), 1000).unwrap();
    assert_eq!(record.status, KYCStatus::Approved);
    assert_eq!(record.verified_at, 1000);
    assert_eq!(record.expires_at, 1000 + 31_536_000);
    assert_eq!(record.verifier, admin);
    assert_eq!(record.data_hash, b"h2".to_vec());
    assert_eq!(record.did_id, did_id);

    assert!(contract.is_verified(applicant.duplicate(), KYCLevel::Institutional, 1000 + 31_535_999));
    assert!(!contract.is_verified(applicant.duplicate(), KYCLevel::Basic, 1000 + 31_536_000));
    assert_eq!(contract.verify_kyc(applicant.duplicate(), 1000 + 31_536_000), Err(KYCError::Expired));
}

#[test]
fn pending_and_approved_applications_block_resubmission() {
    let (_env, admin, applicant, did_id) = setup();
    let mut contract = KYCVerification::new();
    contract.register_verifier(admin.duplicate(), admin.duplicate()).unwrap();
    contract.submit_kyc(applicant.duplicate(), did_id, KYCLevel::Basic, b"h".to_vec(), 0).unwrap();
    assert_eq!(
        contract.submit_kyc(applicant.duplicate(), did_id, KYCLevel::Basic, b"h".to_vec(), 0),
        Err(KYCError::AlreadyVerified)
    );
    contract.approve_kyc(applicant.duplicate(), admin.duplicate(), b"h".to_vec(), 0).unwrap();
    assert_eq!(
        contract.submit_kyc(applicant.duplicate(), did_id, KYCLevel::Enhanced, b"h".to_vec(), 0),
        Err(KYCError::AlreadyVerified)
    );
    assert_eq!(
        contract.approve_kyc(applicant.duplicate(), admin.duplicate(), b"h".to_vec(), 0),
        Err(KYCError::NotPending)
    );
    assert_eq!(
        contract.reject_kyc(applicant.duplicate(), admin.duplicate(), b"r".to_vec()),
        Err(KYCError::NotPending)
    );
}

#[test]
fn rejected_applicant_may_apply_again() {
    let (_env, admin, applicant, did_id) = setup();
    let mut contract = KYCVerification::new();
    contract.register_verifier(admin.duplicate(), admin.duplicate()).unwrap();
    contract.submit_kyc(applicant.duplicate(), did_id, KYCLevel::Basic, b"h".to_vec(), 0).unwrap();
    contract.reject_kyc(applicant.duplicate(), admin.duplicate(), b"r".to_vec()).unwrap();
    let record = contract.verify_kyc(applicant.duplicate(), 0).unwrap();
    assert_eq!(record.status, KYCStatus::Rejected);
    assert_eq!(record.verifier, admin);
    assert_eq!(contract.submit_kyc(applicant.duplicate(), did_id, KYCLevel::Enhanced, b"h".to_vec(), 0), Ok(()));
    let record = contract.verify_kyc(applicant.duplicate(), 0).unwrap();
    assert_eq!(record.status, KYCStatus::Pending);
    assert_eq!(record.level, KYCLevel::Enhanced);
    assert_eq!(record.verifier, applicant);
    assert_eq!(record.expires_at, 0);
}

#[test]
fn first_registrant_becomes_admin() {
    let (_env, admin, applicant, _) = setup();
    let other = Address::from_strkey(FAKE.as_bytes());
    let mut contract = KYCVerification::new();
    assert_eq!(contract.register_verifier(admin.duplicate(), applicant.duplicate()), Ok(()));
    assert_eq!(contract.register_verifier(other.duplicate(), other.duplicate()), Err(KYCError::NotAdmin));
    assert_eq!(contract.register_verifier(admin.duplicate(), other.duplicate()), Ok(()));
}

#[test]
fn missing_records_are_not_found() {
    let (_env, admin, applicant, _) = setup();
    let mut contract = KYCVerification::new();
    contract.register_verifier(admin.duplicate(), admin.duplicate()).unwrap();
    assert_eq!(contract.verify_kyc(applicant.duplicate(), 0), Err(KYCError::NotFound));
    assert_eq!(contract.approve_kyc(applicant.duplicate(), admin.duplicate(), b"h".to_vec(), 0), Err(KYCError::NotFound));
    assert_eq!(contract.reject_kyc(applicant.duplicate(), admin.duplicate(), b"r".to_vec()), Err(KYCError::NotFound));
    assert!(!contract.is_verified(applicant, KYCLevel::Unverified, 0));
}

#[test]
fn levels_rank_in_order() {
    assert_eq!(KYCLevel::Unverified.rank(), 0);
    assert_eq!(KYCLevel::Basic.rank(), 1);
    assert_eq!(KYCLevel::Enhanced.rank(), 2);
    assert_eq!(KYCLevel::Institutional.rank(), 3);
}

#[test]
fn expired_approval_allows_resubmission() {
    let (_env, admin, applicant, did_id) = setup();
    let mut contract = KYCVerification::new();
    contract.register_verifier(admin.duplicate(), admin.duplicate()).unwrap();
    contract.submit_kyc(applicant.duplicate(), did_id, KYCLevel::Basic, b"h".to_vec(), 0).unwrap();
    contract.approve_kyc(applicant.duplicate(), admin.duplicate(), b"h".to_vec(), 50).unwrap();
    let expiry = 50 + KYC_VALIDITY_SECONDS;

    // one second before expiry the approval is still active
    assert_eq!(
        contract.submit_kyc(applicant.duplicate(), did_id, KYCLevel::Enhanced, b"h2".to_vec(), expiry - 1),
        Err(KYCError::AlreadyVerified)
    );
    // at expiry it no longer blocks a new application
    assert_eq!(contract.verify_kyc(applicant.duplicate(), expiry), Err(KYCError::Expired));
    assert_eq!(
        contract.submit_kyc(applicant.duplicate(), did_id, KYCLevel::Enhanced, b"h2".to_vec(), expiry),
        Ok(())
    );
    let record = contract.verify_kyc(applicant.duplicate(), expiry).unwrap();
    assert_eq!(record.status, KYCStatus::Pending);
    assert_eq!(record.level, KYCLevel::Enhanced);
    assert_eq!(record.expires_at, 0);
    assert!(!contract.is_verified(applicant.duplicate(), KYCLevel::Basic, expiry));
}

#[test]
fn approval_acceptance() {
    let (_env, _, applicant, did_id) = setup();
    let pending = submitted_record(None, &applicant, did_id, KYCLevel::Basic, b"h".to_vec(), 0).unwrap();
    assert!(approval_is_accepted(true, Some(&pending)));
    assert!(!approval_is_accepted(false, Some(&pending)));
    assert!(!approval_is_accepted(true, None));
}
