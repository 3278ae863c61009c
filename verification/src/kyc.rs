//! Tiered KYC verification: applicants submit an application for a level,
//! registered verifiers approve or reject it, and an approval holds for one
//! year, after which the applicant may apply again. The first address to register a verifier becomes the admin, and only
//! the admin registers verifiers afterwards.
//!
//! Each operation on one applicant's record is a decision of its own (the
//! `*_record` functions), and [`KYCVerification`] applies those decisions to
//! every record, the verifier registry and the admin it keeps.

use vstd::prelude::*;
use crate::bytes::{Address, Bytes32, copy_bytes};
use crate::store::ByteMap;

verus! {

/// How long an approval holds, in seconds: 365 days.
pub const KYC_VALIDITY_SECONDS: u64 = 365 * 24 * 60 * 60;

/// The verification levels, from none to the most thorough.
#[derive(Clone, Copy, Debug, PartialEq, Eq, Structural)]
pub enum KYCLevel {
    Unverified,
    Basic,
    Enhanced,
    Institutional,
}

/// Where an application stands.
#[derive(Clone, Copy, Debug, PartialEq, Eq, Structural)]
pub enum KYCStatus {
    Pending,
    Approved,
    Rejected,
    Expired,
}

/// Why a KYC operation was refused.
#[derive(Clone, Copy, Debug, PartialEq, Eq, Structural)]
pub enum KYCError {
    NotFound,
    NotVerifier,
    NotAdmin,
    AlreadyVerified,
    NotPending,
    InvalidLevel,
    Expired,
    LevelInsufficient,
}

/// The rank of a level: Unverified 0, Basic 1, Enhanced 2, Institutional 3.
pub open spec fn level_rank(level: KYCLevel) -> u32 {
    match level {
        KYCLevel::Unverified => 0,
        KYCLevel::Basic => 1,
        KYCLevel::Enhanced => 2,
        KYCLevel::Institutional => 3,
    }
}

impl KYCLevel {
    /// The level's rank.
    pub fn rank(&self) -> (r: u32)
        ensures
            r == level_rank(*self),
    {
        match self {
            KYCLevel::Unverified => 0,
            KYCLevel::Basic => 1,
            KYCLevel::Enhanced => 2,
            KYCLevel::Institutional => 3,
        }
    }
}

/// What the contract stores for one applicant.
#[derive(Debug, PartialEq, Eq)]
pub struct KYCRecord {
    pub did_id: Bytes32,
    pub level: KYCLevel,
    pub verifier: Address,
    pub verified_at: u64,
    pub expires_at: u64,
    pub data_hash: Vec<u8>,
    pub status: KYCStatus,
}

/// A KYC record as plain values.
pub struct KYCRecordView {
    pub did_id: Seq<u8>,
    pub level: KYCLevel,
    pub verifier: Seq<u8>,
    pub verified_at: u64,
    pub expires_at: u64,
    pub data_hash: Seq<u8>,
    pub status: KYCStatus,
}

impl View for KYCRecord {
    type V = KYCRecordView;

    open spec fn view(&self) -> KYCRecordView {
        KYCRecordView {
            did_id: self.did_id@,
            level: self.level,
            verifier: self.verifier@,
            verified_at: self.verified_at,
            expires_at: self.expires_at,
            data_hash: self.data_hash@,
            status: self.status,
        }
    }
}

impl KYCRecord {
    /// A second record equal to this one.
    pub fn duplicate(&self) -> (r: KYCRecord)
        ensures
            r@ == self@,
    {
        KYCRecord {
            did_id: self.did_id,
            level: self.level,
            verifier: self.verifier.duplicate(),
            verified_at: self.verified_at,
            expires_at: self.expires_at,
            data_hash: copy_bytes(&self.data_hash),
            status: self.status,
        }
    }
}

/// The record a storage slot holds, by its view.
pub open spec fn stored_view(stored: Option<&KYCRecord>) -> Option<KYCRecordView> {
    match stored {
        Some(r) => Some(r@),
        None => None,
    }
}

/// A decision's result, by its view.
pub open spec fn outcome_view(r: Result<KYCRecord, KYCError>) -> Result<KYCRecordView, KYCError> {
    match r {
        Ok(rec) => Ok(rec@),
        Err(e) => Err(e),
    }
}

/// Whether a record is an active application at time `now`: pending, or
/// approved and not yet expired.
pub open spec fn is_active_application(r: KYCRecordView, now: u64) -> bool {
    r.status == KYCStatus::Pending || (r.status == KYCStatus::Approved && now < r.expires_at)
}

/// The record a submission at time `now` stores, or why it is refused: an
/// active application blocks a new one.
pub open spec fn submit_outcome(
    stored: Option<KYCRecordView>,
    applicant: Seq<u8>,
    did_id: Seq<u8>,
    level: KYCLevel,
    data_hash: Seq<u8>,
    now: u64,
) -> Result<KYCRecordView, KYCError> {
    if stored matches Some(r) && is_active_application(r, now) {
        Err(KYCError::AlreadyVerified)
    } else if level == KYCLevel::Unverified {
        Err(KYCError::InvalidLevel)
    } else {
        Ok(
            KYCRecordView {
                did_id,
                level,
                verifier: applicant,
                verified_at: 0,
                expires_at: 0,
                data_hash,
                status: KYCStatus::Pending,
            },
        )
    }
}

/// Whether an approval by a verifier with this standing would be accepted.
pub open spec fn approval_accepted(is_verifier: bool, stored: Option<KYCRecordView>) -> bool {
    is_verifier && (stored matches Some(r) && r.status == KYCStatus::Pending)
}

/// The record after an approval at time `now`, or why it is refused.
pub open spec fn approve_outcome(
    is_verifier: bool,
    stored: Option<KYCRecordView>,
    verifier: Seq<u8>,
    data_hash: Seq<u8>,
    now: u64,
) -> Result<KYCRecordView, KYCError> {
    if !is_verifier {
        Err(KYCError::NotVerifier)
    } else {
        match stored {
            None => Err(KYCError::NotFound),
            Some(r) => if r.status != KYCStatus::Pending {
                Err(KYCError::NotPending)
            } else {
                Ok(
                    KYCRecordView {
                        status: KYCStatus::Approved,
                        verifier,
                        verified_at: now,
                        expires_at: (now + KYC_VALIDITY_SECONDS) as u64,
                        data_hash,
                        ..r
                    },
                )
            },
        }
    }
}

/// The record after a rejection, or why it is refused.
pub open spec fn reject_outcome(
    is_verifier: bool,
    stored: Option<KYCRecordView>,
    verifier: Seq<u8>,
) -> Result<KYCRecordView, KYCError> {
    if !is_verifier {
        Err(KYCError::NotVerifier)
    } else {
        match stored {
            None => Err(KYCError::NotFound),
            Some(r) => if r.status != KYCStatus::Pending {
                Err(KYCError::NotPending)
            } else {
                Ok(KYCRecordView { status: KYCStatus::Rejected, verifier, ..r })
            },
        }
    }
}

/// What reading a record at time `now` gives: an approval past its expiry is
/// reported as expired.
pub open spec fn check_outcome(stored: Option<KYCRecordView>, now: u64) -> Result<KYCRecordView, KYCError> {
    match stored {
        None => Err(KYCError::NotFound),
        Some(r) => if r.status == KYCStatus::Approved && now >= r.expires_at {
            Err(KYCError::Expired)
        } else {
            Ok(r)
        },
    }
}

/// Whether a stored record shows an approval at `required_level` or above that
/// still holds at `now`.
pub open spec fn meets_level(stored: Option<KYCRecordView>, required_level: KYCLevel, now: u64) -> bool {
    stored matches Some(r) && r.status == KYCStatus::Approved && now < r.expires_at && level_rank(
        r.level,
    ) >= level_rank(required_level)
}

/// The admin after `caller` registers a verifier, or why that is refused: with
/// no admin yet, the caller becomes the admin.
pub open spec fn admin_outcome(stored_admin: Option<Seq<u8>>, caller: Seq<u8>) -> Result<Seq<u8>, KYCError> {
    match stored_admin {
        None => Ok(caller),
        Some(a) => if a == caller {
            Ok(a)
        } else {
            Err(KYCError::NotAdmin)
        },
    }
}

/// The record that a submission at time `now` stores over what is stored for
/// the applicant.
pub fn submitted_record(
    stored: Option<&KYCRecord>,
    applicant: &Address,
    did_id: Bytes32,
    level: KYCLevel,
    data_hash: Vec<u8>,
    now: u64,
) -> (r: Result<KYCRecord, KYCError>)
    ensures
        outcome_view(r) == submit_outcome(
            stored_view(stored),
            applicant@,
            did_id@,
            level,
            data_hash@,
            now,
        ),
{
    if let Some(existing) = stored {
        match existing.status {
            KYCStatus::Pending => {
                return Err(KYCError::AlreadyVerified);
            },
            KYCStatus::Approved => {
                if now < existing.expires_at {
                    return Err(KYCError::AlreadyVerified);
                }
            },
            _ => {},
        }
    }
    match level {
        KYCLevel::Unverified => {
            return Err(KYCError::InvalidLevel);
        },
        _ => {},
    }
    Ok(
        KYCRecord {
            did_id,
            level,
            verifier: applicant.duplicate(),
            verified_at: 0,
            expires_at: 0,
            data_hash,
            status: KYCStatus::Pending,
        },
    )
}

/// Whether an approval by a verifier with this standing is accepted: the
/// verifier is registered and the stored application is pending.
pub fn approval_is_accepted(is_verifier: bool, stored: Option<&KYCRecord>) -> (r: bool)
    ensures
        r == approval_accepted(is_verifier, stored_view(stored)),
{
    if !is_verifier {
        return false;
    }
    match stored {
        None => false,
        Some(rec) => match rec.status {
            KYCStatus::Pending => true,
            _ => false,
        },
    }
}

/// The record after `verifier` approves the stored application at time `now`.
pub fn approved_record(
    is_verifier: bool,
    stored: Option<&KYCRecord>,
    verifier: &Address,
    data_hash: Vec<u8>,
    now: u64,
) -> (r: Result<KYCRecord, KYCError>)
    requires
        approval_accepted(is_verifier, stored_view(stored)) ==> now <= u64::MAX - KYC_VALIDITY_SECONDS,
    ensures
        outcome_view(r) == approve_outcome(is_verifier, stored_view(stored), verifier@, data_hash@, now),
{
    if !is_verifier {
        return Err(KYCError::NotVerifier);
    }
    match stored {
        None => Err(KYCError::NotFound),
        Some(rec) => {
            match rec.status {
                KYCStatus::Pending => {},
                _ => {
                    return Err(KYCError::NotPending);
                },
            }
            Ok(
                KYCRecord {
                    did_id: rec.did_id,
                    level: rec.level,
                    verifier: verifier.duplicate(),
                    verified_at: now,
                    expires_at: now + KYC_VALIDITY_SECONDS,
                    data_hash,
                    status: KYCStatus::Approved,
                },
            )
        },
    }
}

/// The record after `verifier` rejects the stored application.
pub fn rejected_record(is_verifier: bool, stored: Option<&KYCRecord>, verifier: &Address) -> (r:
    Result<KYCRecord, KYCError>)
    ensures
        outcome_view(r) == reject_outcome(is_verifier, stored_view(stored), verifier@),
{
    if !is_verifier {
        return Err(KYCError::NotVerifier);
    }
    match stored {
        None => Err(KYCError::NotFound),
        Some(rec) => {
            match rec.status {
                KYCStatus::Pending => {},
                _ => {
                    return Err(KYCError::NotPending);
                },
            }
            let mut r = rec.duplicate();
            r.status = KYCStatus::Rejected;
            r.verifier = verifier.duplicate();
            Ok(r)
        },
    }
}

/// The stored record as reading it at time `now` gives it.
pub fn checked_record(stored: Option<&KYCRecord>, now: u64) -> (r: Result<KYCRecord, KYCError>)
    ensures
        outcome_view(r) == check_outcome(stored_view(stored), now),
{
    match stored {
        None => Err(KYCError::NotFound),
        Some(rec) => {
            match rec.status {
                KYCStatus::Approved => {
                    if now >= rec.expires_at {
                        return Err(KYCError::Expired);
                    }
                },
                _ => {},
            }
            Ok(rec.duplicate())
        },
    }
}

/// Whether the stored record shows a live approval at `required_level` or above.
pub fn record_meets_level(stored: Option<&KYCRecord>, required_level: KYCLevel, now: u64) -> (r: bool)
    ensures
        r == meets_level(stored_view(stored), required_level, now),
{
    match stored {
        None => false,
        Some(rec) => {
            match rec.status {
                KYCStatus::Approved => {},
                _ => {
                    return false;
                },
            }
            if now >= rec.expires_at {
                return false;
            }
            rec.level.rank() >= required_level.rank()
        },
    }
}

/// The admin once `caller` registers a verifier, given the stored admin.
pub fn admin_after_registration(stored_admin: Option<&Address>, caller: &Address) -> (r: Result<
    Address,
    KYCError,
>)
    ensures
        match r {
            Ok(a) => admin_outcome(admin_view(stored_admin), caller@) == Ok::<Seq<u8>, KYCError>(a@),
            Err(e) => admin_outcome(admin_view(stored_admin), caller@) == Err::<Seq<u8>, KYCError>(e),
        },
{
    match stored_admin {
        None => Ok(caller.duplicate()),
        Some(a) => {
            if a.same_as(caller) {
                Ok(a.duplicate())
            } else {
                Err(KYCError::NotAdmin)
            }
        },
    }
}

/// The stored admin, by its view.
pub open spec fn admin_view(a: Option<&Address>) -> Option<Seq<u8>> {
    match a {
        Some(x) => Some(x@),
        None => None,
    }
}

/// The contract's state: each applicant's record, the registered verifiers,
/// and the admin once there is one.
pub struct KycState {
    pub records: Map<Seq<u8>, KYCRecordView>,
    pub verifiers: Set<Seq<u8>>,
    pub admin: Option<Seq<u8>>,
}

/// What the contract holds for an applicant.
pub open spec fn lookup(s: KycState, applicant: Seq<u8>) -> Option<KYCRecordView> {
    if s.records.contains_key(applicant) {
        Some(s.records[applicant])
    } else {
        None
    }
}

/// The state after a decision on an applicant's record.
pub open spec fn apply_outcome(s: KycState, applicant: Seq<u8>, o: Result<KYCRecordView, KYCError>) -> (
    KycState,
    Result<(), KYCError>,
) {
    match o {
        Ok(rec) => (KycState { records: s.records.insert(applicant, rec), ..s }, Ok(())),
        Err(e) => (s, Err(e)),
    }
}

/// Submitting an application at time `now`.
pub open spec fn submit_spec(
    s: KycState,
    applicant: Seq<u8>,
    did_id: Seq<u8>,
    level: KYCLevel,
    data_hash: Seq<u8>,
    now: u64,
) -> (KycState, Result<(), KYCError>) {
    apply_outcome(
        s,
        applicant,
        submit_outcome(lookup(s, applicant), applicant, did_id, level, data_hash, now),
    )
}

/// Approving an application.
pub open spec fn approve_spec(
    s: KycState,
    applicant: Seq<u8>,
    verifier: Seq<u8>,
    data_hash: Seq<u8>,
    now: u64,
) -> (KycState, Result<(), KYCError>) {
    apply_outcome(
        s,
        applicant,
        approve_outcome(s.verifiers.contains(verifier), lookup(s, applicant), verifier, data_hash, now),
    )
}

/// Rejecting an application.
pub open spec fn reject_spec(s: KycState, applicant: Seq<u8>, verifier: Seq<u8>) -> (
    KycState,
    Result<(), KYCError>,
) {
    apply_outcome(
        s,
        applicant,
        reject_outcome(s.verifiers.contains(verifier), lookup(s, applicant), verifier),
    )
}

/// Registering a verifier.
pub open spec fn register_spec(s: KycState, caller: Seq<u8>, verifier: Seq<u8>) -> (
    KycState,
    Result<(), KYCError>,
) {
    match admin_outcome(s.admin, caller) {
        Ok(a) => (
            KycState { admin: Some(a), verifiers: s.verifiers.insert(verifier), ..s },
            Ok(()),
        ),
        Err(e) => (s, Err(e)),
    }
}

/// The KYC verification contract, with the records, verifiers and admin it stores.
pub struct KYCVerification {
    records: ByteMap<KYCRecord>,
    verifiers: ByteMap<bool>,
    admin: Option<Address>,
}

impl View for KYCVerification {
    type V = KycState;

    closed spec fn view(&self) -> KycState {
        KycState {
            records: self.records.map(),
            verifiers: self.verifiers.map().dom(),
            admin: match self.admin {
                Some(a) => Some(a@),
                None => None,
            },
        }
    }
}

impl KYCVerification {
    /// The contract's internal maps are consistent.
    pub closed spec fn wf(&self) -> bool {
        &&& self.records.wf()
        &&& self.verifiers.wf()
    }

    /// A contract with no records, no verifiers and no admin.
    pub fn new() -> (r: Self)
        ensures
            r.wf(),
            r@.records == Map::<Seq<u8>, KYCRecordView>::empty(),
            r@.verifiers == Set::<Seq<u8>>::empty(),
            r@.admin is None,
    {
        let r = KYCVerification { records: ByteMap::new(), verifiers: ByteMap::new(), admin: None };
        assert(r@.verifiers =~= Set::<Seq<u8>>::empty());
        r
    }

    /// Submits an application for `level` at time `now`, pending until a
    /// verifier decides. A pending application, or an approval that has not yet
    /// expired, blocks it.
    pub fn submit_kyc(
        &mut self,
        applicant: Address,
        did_id: Bytes32,
        level: KYCLevel,
        data_hash: Vec<u8>,
        now: u64,
    ) -> (r: Result<(), KYCError>)
        requires
            old(self).wf(),
        ensures
            final(self).wf(),
            (final(self)@, r) == submit_spec(old(self)@, applicant@, did_id@, level, data_hash@, now),
    {
        let outcome = submitted_record(
            self.records.get(applicant.as_slice()),
            &applicant,
            did_id,
            level,
            data_hash,
            now,
        );
        self.store_outcome(&applicant, outcome)
    }

    /// Approves a pending application at time `now`, for one year. Only a
    /// registered verifier may.
    pub fn approve_kyc(&mut self, applicant: Address, verifier: Address, data_hash: Vec<u8>, now: u64) -> (r:
        Result<(), KYCError>)
        requires
            old(self).wf(),
            approval_accepted(old(self)@.verifiers.contains(verifier@), lookup(old(self)@, applicant@))
                ==> now <= u64::MAX - KYC_VALIDITY_SECONDS,
        ensures
            final(self).wf(),
            (final(self)@, r) == approve_spec(old(self)@, applicant@, verifier@, data_hash@, now),
    {
        let is_verifier = self.verifiers.contains_key(verifier.as_slice());
        let outcome = approved_record(
            is_verifier,
            self.records.get(applicant.as_slice()),
            &verifier,
            data_hash,
            now,
        );
        self.store_outcome(&applicant, outcome)
    }

    /// Rejects a pending application. Only a registered verifier may; the reason
    /// is not stored.
    pub fn reject_kyc(&mut self, applicant: Address, verifier: Address, _reason: Vec<u8>) -> (r: Result<
        (),
        KYCError,
    >)
        requires
            old(self).wf(),
        ensures
            final(self).wf(),
            (final(self)@, r) == reject_spec(old(self)@, applicant@, verifier@),
    {
        let is_verifier = self.verifiers.contains_key(verifier.as_slice());
        let outcome = rejected_record(is_verifier, self.records.get(applicant.as_slice()), &verifier);
        self.store_outcome(&applicant, outcome)
    }

    /// The applicant's record as of time `now`; an approval past its expiry is
    /// reported as `Expired`.
    pub fn verify_kyc(&self, applicant: Address, now: u64) -> (r: Result<KYCRecord, KYCError>)
        requires
            self.wf(),
        ensures
            outcome_view(r) == check_outcome(lookup(self@, applicant@), now),
    {
        checked_record(self.records.get(applicant.as_slice()), now)
    }

    /// Registers a verifier. Only the admin may; with no admin yet, the caller
    /// becomes the admin.
    pub fn register_verifier(&mut self, admin: Address, verifier: Address) -> (r: Result<(), KYCError>)
        requires
            old(self).wf(),
        ensures
            final(self).wf(),
            (final(self)@, r) == register_spec(old(self)@, admin@, verifier@),
    {
        match admin_after_registration(self.admin.as_ref(), &admin) {
            Err(e) => Err(e),
            Ok(a) => {
                self.admin = Some(a);
                self.verifiers.insert(verifier.as_slice(), true);
                assert(self@.verifiers =~= old(self)@.verifiers.insert(verifier@));
                Ok(())
            },
        }
    }

    /// Whether the applicant holds an approval at `required_level` or above that
    /// still holds at `now`.
    pub fn is_verified(&self, applicant: Address, required_level: KYCLevel, now: u64) -> (r: bool)
        requires
            self.wf(),
        ensures
            r == meets_level(lookup(self@, applicant@), required_level, now),
    {
        record_meets_level(self.records.get(applicant.as_slice()), required_level, now)
    }

    fn store_outcome(&mut self, applicant: &Address, outcome: Result<KYCRecord, KYCError>) -> (r: Result<
        (),
        KYCError,
    >)
        requires
            old(self).wf(),
        ensures
            final(self).wf(),
            (final(self)@, r) == apply_outcome(old(self)@, applicant@, outcome_view(outcome)),
    {
        match outcome {
            Ok(rec) => {
                self.records.insert(applicant.as_slice(), rec);
                Ok(())
            },
            Err(e) => Err(e),
        }
    }
}

/// One call that changes the contract, with its arguments as plain values.
pub enum KycCall {
    Submit { applicant: Seq<u8>, did_id: Seq<u8>, level: KYCLevel, data_hash: Seq<u8>, now: u64 },
    Approve { applicant: Seq<u8>, verifier: Seq<u8>, data_hash: Seq<u8>, now: u64 },
    Reject { applicant: Seq<u8>, verifier: Seq<u8> },
    Register { caller: Seq<u8>, verifier: Seq<u8> },
}

/// The contract after one call, as the methods' contracts give it.
pub open spec fn step(s: KycState, call: KycCall) -> KycState {
    match call {
        KycCall::Submit { applicant, did_id, level, data_hash, now } => submit_spec(
            s,
            applicant,
            did_id,
            level,
            data_hash,
            now,
        ).0,
        KycCall::Approve { applicant, verifier, data_hash, now } => approve_spec(
            s,
            applicant,
            verifier,
            data_hash,
            now,
        ).0,
        KycCall::Reject { applicant, verifier } => reject_spec(s, applicant, verifier).0,
        KycCall::Register { caller, verifier } => register_spec(s, caller, verifier).0,
    }
}

/// The moves an application's status can make: a decision on a pending
/// application, or a new submission after a rejection or an approval that
/// has expired.
pub open spec fn status_move_allowed(from: KYCStatus, to: KYCStatus) -> bool {
    ||| from == to
    ||| from == KYCStatus::Pending && to == KYCStatus::Approved
    ||| from == KYCStatus::Pending && to == KYCStatus::Rejected
    ||| from == KYCStatus::Rejected && to == KYCStatus::Pending
    ||| from == KYCStatus::Approved && to == KYCStatus::Pending
    ||| from == KYCStatus::Expired && to == KYCStatus::Pending
}

/// An approval becomes open to a new submission only once it has expired:
/// every call that replaces an approved record with a pending one does so at a
/// time at or past the approval's expiry.
pub proof fn lemma_approval_reopens_only_after_expiry(s: KycState, call: KycCall, applicant: Seq<u8>)
    requires
        s.records.contains_key(applicant),
        s.records[applicant].status == KYCStatus::Approved,
        step(s, call).records[applicant].status == KYCStatus::Pending,
    ensures
        call matches KycCall::Submit { applicant: a, now, .. } && a == applicant && now
            >= s.records[applicant].expires_at,
{
}

/// Meeting a level implies meeting every lower level.
pub proof fn lemma_level_check_is_monotone(
    stored: Option<KYCRecordView>,
    required: KYCLevel,
    lower: KYCLevel,
    now: u64,
)
    requires
        meets_level(stored, required, now),
        level_rank(lower) <= level_rank(required),
    ensures
        meets_level(stored, lower, now),
{
}

/// An approval at time `now` holds for one year: until then the applicant meets
/// every level up to the one applied for, and from then on reading the record
/// reports it expired and no level is met.
pub proof fn lemma_approval_holds_one_year(
    s: KycState,
    applicant: Seq<u8>,
    verifier: Seq<u8>,
    data_hash: Seq<u8>,
    now: u64,
    later: u64,
    required: KYCLevel,
)
    requires
        approve_spec(s, applicant, verifier, data_hash, now).1 is Ok,
        now <= u64::MAX - KYC_VALIDITY_SECONDS,
    ensures
        ({
            let s2 = approve_spec(s, applicant, verifier, data_hash, now).0;
            let level = s.records[applicant].level;
            &&& s2.records[applicant].status == KYCStatus::Approved
            &&& s2.records[applicant].verified_at == now
            &&& s2.records[applicant].expires_at == now + KYC_VALIDITY_SECONDS
            &&& meets_level(lookup(s2, applicant), required, later) == (later < now
                + KYC_VALIDITY_SECONDS && level_rank(level) >= level_rank(required))
            &&& (check_outcome(lookup(s2, applicant), later) is Err) == (later >= now
                + KYC_VALIDITY_SECONDS)
        }),
{
}

/// The first address to register a verifier becomes the admin, and the admin
/// never changes after that.
pub proof fn lemma_admin_is_fixed_once_set(s: KycState, call: KycCall)
    ensures
        s.admin is Some ==> step(s, call).admin == s.admin,
        s.admin is None ==> (call matches KycCall::Register { caller, .. } ==> step(s, call).admin
            == Some(caller)),
        (s.admin is None && !(call is Register)) ==> step(s, call).admin is None,
{
}

/// Verifiers are never removed, and only the admin adds them.
pub proof fn lemma_verifiers_only_grow(s: KycState, call: KycCall)
    ensures
        s.verifiers.subset_of(step(s, call).verifiers),
        call matches KycCall::Register { caller, .. } ==> (s.admin matches Some(a) ==> (a != caller
            ==> step(s, call) == s)),
        !(call is Register) ==> step(s, call).verifiers == s.verifiers,
{
}

/// Every call moves an application's status only as `status_move_allowed`
/// says, and a new application starts pending.
pub proof fn lemma_status_moves(s: KycState, call: KycCall, applicant: Seq<u8>)
    ensures
        s.records.contains_key(applicant) ==> step(s, call).records.contains_key(applicant)
            && status_move_allowed(
            s.records[applicant].status,
            step(s, call).records[applicant].status,
        ),
        !s.records.contains_key(applicant) && step(s, call).records.contains_key(applicant)
            ==> step(s, call).records[applicant].status == KYCStatus::Pending,
{
}

/// An applicant with an active application (pending, or approved and not yet
/// expired) cannot submit another.
pub proof fn lemma_no_duplicate_applications(
    s: KycState,
    applicant: Seq<u8>,
    did_id: Seq<u8>,
    level: KYCLevel,
    data_hash: Seq<u8>,
    now: u64,
)
    requires
        s.records.contains_key(applicant),
        s.records[applicant].status == KYCStatus::Pending || (s.records[applicant].status
            == KYCStatus::Approved && now < s.records[applicant].expires_at),
    ensures
        submit_spec(s, applicant, did_id, level, data_hash, now) == (s, Err::<(), KYCError>(
            KYCError::AlreadyVerified,
        )),
{
}

/// Once an approval has expired, the applicant may apply again: a submission
/// for a verifiable level replaces the record with a pending one for that
/// level.
pub proof fn lemma_expired_approval_allows_resubmission(
    s: KycState,
    applicant: Seq<u8>,
    did_id: Seq<u8>,
    level: KYCLevel,
    data_hash: Seq<u8>,
    now: u64,
)
    requires
        s.records.contains_key(applicant),
        s.records[applicant].status == KYCStatus::Approved,
        now >= s.records[applicant].expires_at,
        level != KYCLevel::Unverified,
    ensures
        check_outcome(lookup(s, applicant), now) == Err::<KYCRecordView, KYCError>(KYCError::Expired),
        submit_spec(s, applicant, did_id, level, data_hash, now).1 == Ok::<(), KYCError>(()),
        submit_spec(s, applicant, did_id, level, data_hash, now).0.records[applicant]
            == (KYCRecordView {
            did_id,
            level,
            verifier: applicant,
            verified_at: 0,
            expires_at: 0,
            data_hash,
            status: KYCStatus::Pending,
        }),
{
}

/// Only registered verifiers decide: an approval or rejection by anyone else
/// changes nothing and is refused with `NotVerifier`.
pub proof fn lemma_only_verifiers_decide(
    s: KycState,
    applicant: Seq<u8>,
    verifier: Seq<u8>,
    data_hash: Seq<u8>,
    now: u64,
)
    requires
        !s.verifiers.contains(verifier),
    ensures
        approve_spec(s, applicant, verifier, data_hash, now) == (s, Err::<(), KYCError>(
            KYCError::NotVerifier,
        )),
        reject_spec(s, applicant, verifier) == (s, Err::<(), KYCError>(KYCError::NotVerifier)),
{
}

/// Whether a call is accepted, as the methods' contracts give it.
pub open spec fn accepted(s: KycState, call: KycCall) -> bool {
    match call {
        KycCall::Submit { applicant, did_id, level, data_hash, now } => submit_spec(
            s,
            applicant,
            did_id,
            level,
            data_hash,
            now,
        ).1 is Ok,
        KycCall::Approve { applicant, verifier, data_hash, now } => approve_spec(
            s,
            applicant,
            verifier,
            data_hash,
            now,
        ).1 is Ok,
        KycCall::Reject { applicant, verifier } => reject_spec(s, applicant, verifier).1 is Ok,
        KycCall::Register { caller, verifier } => register_spec(s, caller, verifier).1 is Ok,
    }
}

/// A refused call leaves the contract exactly as it was.
pub proof fn lemma_refusals_change_nothing(s: KycState, call: KycCall)
    requires
        !accepted(s, call),
    ensures
        step(s, call) == s,
{
}

/// An accepted registration adds exactly the verifier it names to the
/// registered verifiers and leaves the records alone; that verifier can then
/// approve a pending application.
pub proof fn lemma_registration_adds_the_verifier(
    s: KycState,
    caller: Seq<u8>,
    verifier: Seq<u8>,
    applicant: Seq<u8>,
    data_hash: Seq<u8>,
    now: u64,
)
    requires
        register_spec(s, caller, verifier).1 is Ok,
    ensures
        ({
            let s2 = register_spec(s, caller, verifier).0;
            &&& s2.verifiers == s.verifiers.insert(verifier)
            &&& s2.verifiers.contains(verifier)
            &&& s2.records == s.records
            &&& (s.records.contains_key(applicant) && s.records[applicant].status == KYCStatus::Pending
                ==> approve_spec(s2, applicant, verifier, data_hash, now).1 is Ok)
        }),
{
}

/// Every accepted submission stores the application built from its own
/// arguments, whatever was stored before: the given DID, level and data
/// hash, the applicant as verifier, no approval times, and pending.
pub proof fn lemma_submission_is_built_from_arguments(
    stored: Option<KYCRecordView>,
    applicant: Seq<u8>,
    did_id: Seq<u8>,
    level: KYCLevel,
    data_hash: Seq<u8>,
    now: u64,
)
    requires
        submit_outcome(stored, applicant, did_id, level, data_hash, now) is Ok,
    ensures
        ({
            let r = submit_outcome(stored, applicant, did_id, level, data_hash, now)->Ok_0;
            &&& r.did_id == did_id
            &&& r.level == level
            &&& r.verifier == applicant
            &&& r.verified_at == 0
            &&& r.expires_at == 0
            &&& r.data_hash == data_hash
            &&& r.status == KYCStatus::Pending
            &&& level != KYCLevel::Unverified
        }),
{
}

/// An accepted approval keeps the application's DID and level, records the
/// verifier, the approval time, a year's validity and the given data hash.
pub proof fn lemma_approval_keeps_the_application(
    is_verifier: bool,
    r: KYCRecordView,
    verifier: Seq<u8>,
    data_hash: Seq<u8>,
    now: u64,
)
    requires
        approve_outcome(is_verifier, Some(r), verifier, data_hash, now) is Ok,
        now <= u64::MAX - KYC_VALIDITY_SECONDS,
    ensures
        ({
            let a = approve_outcome(is_verifier, Some(r), verifier, data_hash, now)->Ok_0;
            &&& is_verifier
            &&& r.status == KYCStatus::Pending
            &&& a.status == KYCStatus::Approved
            &&& a.did_id == r.did_id
            &&& a.level == r.level
            &&& a.verifier == verifier
            &&& a.verified_at == now
            &&& a.expires_at == now + KYC_VALIDITY_SECONDS
            &&& a.data_hash == data_hash
        }),
{
}

/// An accepted rejection marks the application rejected and records the
/// verifier, keeping everything else.
pub proof fn lemma_rejection_keeps_the_application(
    is_verifier: bool,
    r: KYCRecordView,
    verifier: Seq<u8>,
)
    requires
        reject_outcome(is_verifier, Some(r), verifier) is Ok,
    ensures
        ({
            let j = reject_outcome(is_verifier, Some(r), verifier)->Ok_0;
            &&& is_verifier
            &&& r.status == KYCStatus::Pending
            &&& j.status == KYCStatus::Rejected
            &&& j.verifier == verifier
            &&& j.did_id == r.did_id
            &&& j.level == r.level
            &&& j.verified_at == r.verified_at
            &&& j.expires_at == r.expires_at
            &&& j.data_hash == r.data_hash
        }),
{
}

/// Reading a record gives exactly the stored record, unless it is an
/// approval past its expiry; `NotFound` where none is stored.
pub proof fn lemma_check_returns_the_stored_record(s: KycState, applicant: Seq<u8>, now: u64)
    ensures
        !s.records.contains_key(applicant) ==> check_outcome(lookup(s, applicant), now) == Err::<
            KYCRecordView,
            KYCError,
        >(KYCError::NotFound),
        s.records.contains_key(applicant) && !(s.records[applicant].status == KYCStatus::Approved
            && now >= s.records[applicant].expires_at) ==> check_outcome(lookup(s, applicant), now)
            == Ok::<KYCRecordView, KYCError>(s.records[applicant]),
{
}

/// Every call changes at most the record of its own applicant; registration
/// changes no record.
pub proof fn lemma_calls_touch_one_applicant(s: KycState, call: KycCall, other: Seq<u8>)
    requires
        match call {
            KycCall::Submit { applicant, .. } => applicant != other,
            KycCall::Approve { applicant, .. } => applicant != other,
            KycCall::Reject { applicant, .. } => applicant != other,
            KycCall::Register { .. } => true,
        },
    ensures
        step(s, call).records.contains_key(other) == s.records.contains_key(other),
        s.records.contains_key(other) ==> step(s, call).records[other] == s.records[other],
{
}

} // verus!
