use soroban_sdk::Env;
use web3_suite_identity::bytes::Address;
use web3_suite_identity::credentials::VerifiableCredentials;
use web3_suite_identity::did::DIDRegistry;
use web3_suite_identity::kyc::{KYCLevel, KYCVerification};

struct TestContext {
    env: Env,
    did_contract: DIDRegistry,
    cred_contract: VerifiableCredentials,
    kyc_contract: KYCVerification,
    owner: Address,
    issuer: Address,
    admin: Address,
}

impl TestContext {
    fn new() -> Self {
        TestContext {
            env: Env::default(),
            did_contract: DIDRegistry::new(),
            cred_contract: VerifiableCredentials::new(),
            kyc_contract: KYCVerification::new(),
            owner: Address::from_strkey(b"GBOWNER7777777777777777777777777777777777777777777777777"),
            issuer: Address::from_strkey(b"GBISSUER777777777777777777777777777777777777777777777777"),
            admin: Address::from_strkey(b"GBADMIN7777777777777777777777777777777777777777777777777"),
        }
    }
}

#[test]
fn test_full_identity_flow() {
    let mut ctx = TestContext::new();

    let doc = b"https://example.com/alice/did".to_vec();
    let did_id = ctx.did_contract.create_did(&ctx.env, ctx.owner.duplicate(), doc, 0).unwrap();
    assert!(ctx.did_contract.is_active(did_id));

    let cred_type = b"ProofOfIdentity".to_vec();
    let claims = b"{\"name\":\"Alice\",\"dob\":\"1990-01-01\"}".to_vec();
    let sig = b"issuer-sig-001".to_vec();

    let cred_id = ctx
        .cred_contract
        .issue_credential(&ctx.env, ctx.issuer.duplicate(), did_id, cred_type, claims, None, sig, 0)
        .unwrap();
    assert!(ctx.cred_contract.verify_credential(cred_id, 0));

    ctx.kyc_contract.register_verifier(ctx.admin.duplicate(), ctx.admin.duplicate()).unwrap();

    let data_hash = b"kyc-data-hash-abc".to_vec();
    ctx.kyc_contract
        .submit_kyc(ctx.owner.duplicate(), did_id, KYCLevel::Enhanced, data_hash.clone(), 0)
        .unwrap();

    ctx.kyc_contract
        .approve_kyc(ctx.owner.duplicate(), ctx.admin.duplicate(), data_hash, 0)
        .unwrap();
    assert!(ctx.kyc_contract.is_verified(ctx.owner.duplicate(), KYCLevel::Basic, 0));
    assert!(ctx.kyc_contract.is_verified(ctx.owner.duplicate(), KYCLevel::Enhanced, 0));
    assert!(!ctx.kyc_contract.is_verified(ctx.owner.duplicate(), KYCLevel::Institutional, 0));
}

#[test]
fn test_did_deactivation_leaves_credential_valid() {
    let mut ctx = TestContext::new();

    let did_id = ctx.did_contract.create_did(&ctx.env, ctx.owner.duplicate(), b"doc".to_vec(), 0).unwrap();

    let cred_id = ctx
        .cred_contract
        .issue_credential(&ctx.env, ctx.issuer.duplicate(), did_id, b"type".to_vec(), b"claims".to_vec(), None, b"sig".to_vec(), 0)
        .unwrap();
    assert!(ctx.cred_contract.verify_credential(cred_id, 0));

    ctx.did_contract.deactivate_did(did_id, ctx.owner.duplicate(), 0).unwrap();
    assert!(!ctx.did_contract.is_active(did_id));

    // the contracts are independent: the credential still verifies
    assert!(ctx.cred_contract.verify_credential(cred_id, 0));
}

#[test]
fn test_multiple_credentials_per_did() {
    let mut ctx = TestContext::new();

    let did_id = ctx.did_contract.create_did(&ctx.env, ctx.owner.duplicate(), b"doc".to_vec(), 0).unwrap();

    let _c1 = ctx
        .cred_contract
        .issue_credential(&ctx.env, ctx.issuer.duplicate(), did_id, b"type1".to_vec(), b"claims1".to_vec(), None, b"sig1".to_vec(), 0)
        .unwrap();
    let _c2 = ctx
        .cred_contract
        .issue_credential(&ctx.env, ctx.issuer.duplicate(), did_id, b"type2".to_vec(), b"claims2".to_vec(), None, b"sig2".to_vec(), 0)
        .unwrap();

    let issuer_creds = ctx.cred_contract.get_issuer_credentials(ctx.issuer.duplicate());
    assert_eq!(issuer_creds.len(), 2);

    let subject_creds = ctx.cred_contract.get_subject_credentials(did_id);
    assert_eq!(subject_creds.len(), 2);
}

#[test]
fn test_credential_revocation_invalidation() {
    let mut ctx = TestContext::new();

    let did_id = ctx.did_contract.create_did(&ctx.env, ctx.owner.duplicate(), b"doc".to_vec(), 0).unwrap();

    let cred_id = ctx
        .cred_contract
        .issue_credential(&ctx.env, ctx.issuer.duplicate(), did_id, b"type".to_vec(), b"claims".to_vec(), None, b"sig".to_vec(), 0)
        .unwrap();

    assert!(ctx.cred_contract.verify_credential(cred_id, 0));

    ctx.cred_contract.revoke_credential(cred_id, ctx.issuer.duplicate()).unwrap();
    assert!(!ctx.cred_contract.verify_credential(cred_id, 0));
}
