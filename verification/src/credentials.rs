//! Verifiable credentials: typed claims about a subject DID, issued by an
//! address, with an optional expiry, revocable by their issuer, and indexed by
//! issuer and by subject.
//!
//! As for DIDs, each operation on one stored record is a decision of its own
//! (the `*_record` functions), and [`VerifiableCredentials`] applies those
//! decisions to all the records and indexes it keeps.

use vstd::prelude::*;
use crate::bytes::{
    Address, Bytes32, append_be_u64, append_bytes, be_bytes, copy_bytes, lemma_counter_fixed_by_encoding,
    strkey_sized,
};
use crate::hash::{sha256, sha256_collision_free, sha256_digest};
use crate::store::ByteMap;

verus! {

/// Why a credential operation was refused.
#[derive(Clone, Copy, Debug, PartialEq, Eq, Structural)]
pub enum CredentialError {
    NotFound,
    NotIssuer,
    AlreadyRevoked,
    Expired,
    Revoked,
    InvalidCredential,
}

/// What the contract stores for one credential.
#[derive(Debug, PartialEq, Eq)]
pub struct CredentialRecord {
    pub issuer: Address,
    pub subject: Bytes32,
    pub credential_type: Vec<u8>,
    pub claims: Vec<u8>,
    pub issued_at: u64,
    pub expires_at: Option<u64>,
    pub revoked: bool,
    pub signature: Vec<u8>,
}

/// A credential record as plain values.
pub struct CredentialRecordView {
    pub issuer: Seq<u8>,
    pub subject: Seq<u8>,
    pub credential_type: Seq<u8>,
    pub claims: Seq<u8>,
    pub issued_at: u64,
    pub expires_at: Option<u64>,
    pub revoked: bool,
    pub signature: Seq<u8>,
}

impl View for CredentialRecord {
    type V = CredentialRecordView;

    open spec fn view(&self) -> CredentialRecordView {
        CredentialRecordView {
            issuer: self.issuer@,
            subject: self.subject@,
            credential_type: self.credential_type@,
            claims: self.claims@,
            issued_at: self.issued_at,
            expires_at: self.expires_at,
            revoked: self.revoked,
            signature: self.signature@,
        }
    }
}

impl CredentialRecord {
    /// A second record equal to this one.
    pub fn duplicate(&self) -> (r: CredentialRecord)
        ensures
            r@ == self@,
    {
        CredentialRecord {
            issuer: self.issuer.duplicate(),
            subject: self.subject,
            credential_type: copy_bytes(&self.credential_type),
            claims: copy_bytes(&self.claims),
            issued_at: self.issued_at,
            expires_at: self.expires_at,
            revoked: self.revoked,
            signature: copy_bytes(&self.signature),
        }
    }
}

/// The record a storage slot holds, by its view.
pub open spec fn stored_view(stored: Option<&CredentialRecord>) -> Option<CredentialRecordView> {
    match stored {
        Some(r) => Some(r@),
        None => None,
    }
}

/// A decision's result, by its view.
pub open spec fn outcome_view(r: Result<CredentialRecord, CredentialError>) -> Result<
    CredentialRecordView,
    CredentialError,
> {
    match r {
        Ok(rec) => Ok(rec@),
        Err(e) => Err(e),
    }
}

/// A list of identifiers, by the views of its items.
pub open spec fn ids_view(ids: Seq<Bytes32>) -> Seq<Seq<u8>> {
    ids.map_values(|b: Bytes32| b@)
}

/// The bytes hashed into a new credential's identifier: the issuer's strkey,
/// the subject, the contract counter (big-endian), and the credential type.
pub open spec fn credential_preimage(
    issuer: Seq<u8>,
    subject: Seq<u8>,
    counter: u64,
    credential_type: Seq<u8>,
) -> Seq<u8> {
    issuer + subject + be_bytes(counter) + credential_type
}

/// The identifier of the credential issued with these values when the counter
/// is `counter`.
pub open spec fn credential_id_for(
    issuer: Seq<u8>,
    subject: Seq<u8>,
    counter: u64,
    credential_type: Seq<u8>,
) -> Seq<u8> {
    sha256_digest(credential_preimage(issuer, subject, counter, credential_type))
}

/// Whether an issuance at time `now` is accepted: the type and the claims are
/// not empty, and an expiry, if given, is after `now`.
pub open spec fn issue_accepted(
    credential_type: Seq<u8>,
    claims: Seq<u8>,
    expires_at: Option<u64>,
    now: u64,
) -> bool {
    &&& credential_type.len() > 0
    &&& claims.len() > 0
    &&& match expires_at {
        Some(exp) => now < exp,
        None => true,
    }
}

/// The record an issuance stores, or why it is refused.
pub open spec fn issue_outcome(
    issuer: Seq<u8>,
    subject: Seq<u8>,
    credential_type: Seq<u8>,
    claims: Seq<u8>,
    expires_at: Option<u64>,
    signature: Seq<u8>,
    now: u64,
) -> Result<CredentialRecordView, CredentialError> {
    if !issue_accepted(credential_type, claims, expires_at, now) {
        Err(CredentialError::InvalidCredential)
    } else {
        Ok(
            CredentialRecordView {
                issuer,
                subject,
                credential_type,
                claims,
                issued_at: now,
                expires_at,
                revoked: false,
                signature,
            },
        )
    }
}

/// The record after `caller` revokes it, or why that is refused.
pub open spec fn revoke_outcome(stored: Option<CredentialRecordView>, caller: Seq<u8>) -> Result<
    CredentialRecordView,
    CredentialError,
> {
    match stored {
        None => Err(CredentialError::NotFound),
        Some(r) => if r.issuer != caller {
            Err(CredentialError::NotIssuer)
        } else if r.revoked {
            Err(CredentialError::AlreadyRevoked)
        } else {
            Ok(CredentialRecordView { revoked: true, ..r })
        },
    }
}

/// Whether a stored credential is valid at time `now`: not revoked, and not past
/// its expiry.
pub open spec fn record_valid_at(r: CredentialRecordView, now: u64) -> bool {
    &&& !r.revoked
    &&& match r.expires_at {
        Some(exp) => now < exp,
        None => true,
    }
}

/// Refuses an empty credential type or empty claims. Issuance checks this
/// before anything else, authorization included.
pub fn validate_claims(credential_type: &Vec<u8>, claims: &Vec<u8>) -> (r: Result<(), CredentialError>)
    ensures
        r == (if credential_type@.len() == 0 || claims@.len() == 0 {
            Err::<(), CredentialError>(CredentialError::InvalidCredential)
        } else {
            Ok::<(), CredentialError>(())
        }),
{
    if credential_type.len() == 0 || claims.len() == 0 {
        Err(CredentialError::InvalidCredential)
    } else {
        Ok(())
    }
}

/// The identifier of a new credential: SHA-256 of the issuer's strkey, the
/// subject, the counter in big-endian order, and the credential type.
pub fn derive_credential_id(
    env: &soroban_sdk::Env,
    issuer: &Address,
    subject: &Bytes32,
    counter: u64,
    credential_type: &Vec<u8>,
) -> (id: Bytes32)
    ensures
        id@ == credential_id_for(issuer@, subject@, counter, credential_type@),
{
    let mut preimage: Vec<u8> = Vec::new();
    append_bytes(&mut preimage, issuer.as_slice());
    append_bytes(&mut preimage, subject.as_slice());
    append_be_u64(&mut preimage, counter);
    append_bytes(&mut preimage, credential_type.as_slice());
    Bytes32::from_array(sha256(env, preimage.as_slice()))
}

/// The record that issuing a credential at time `now` stores.
pub fn issued_record(
    issuer: Address,
    subject: Bytes32,
    credential_type: Vec<u8>,
    claims: Vec<u8>,
    expires_at: Option<u64>,
    signature: Vec<u8>,
    now: u64,
) -> (r: Result<CredentialRecord, CredentialError>)
    ensures
        outcome_view(r) == issue_outcome(
            issuer@,
            subject@,
            credential_type@,
            claims@,
            expires_at,
            signature@,
            now,
        ),
{
    if let Err(e) = validate_claims(&credential_type, &claims) {
        return Err(e);
    }
    if let Some(exp) = expires_at {
        if exp <= now {
            return Err(CredentialError::InvalidCredential);
        }
    }
    Ok(
        CredentialRecord {
            issuer,
            subject,
            credential_type,
            claims,
            issued_at: now,
            expires_at,
            revoked: false,
            signature,
        },
    )
}

/// The record after `caller` revokes the stored credential.
pub fn revoked_record(stored: Option<&CredentialRecord>, caller: &Address) -> (r: Result<
    CredentialRecord,
    CredentialError,
>)
    ensures
        outcome_view(r) == revoke_outcome(stored_view(stored), caller@),
{
    match stored {
        None => Err(CredentialError::NotFound),
        Some(rec) => {
            if !rec.issuer.same_as(caller) {
                return Err(CredentialError::NotIssuer);
            }
            if rec.revoked {
                return Err(CredentialError::AlreadyRevoked);
            }
            let mut r = rec.duplicate();
            r.revoked = true;
            Ok(r)
        },
    }
}

/// Whether an issuance at time `now` with these fields is accepted.
pub fn issuance_accepted(credential_type: &Vec<u8>, claims: &Vec<u8>, expires_at: Option<u64>, now: u64) -> (r:
    bool)
    ensures
        r == issue_accepted(credential_type@, claims@, expires_at, now),
{
    if credential_type.len() == 0 || claims.len() == 0 {
        return false;
    }
    match expires_at {
        Some(exp) => now < exp,
        None => true,
    }
}

/// Everything an issuance writes: the record, the issuer's and the subject's
/// identifier lists with the new identifier appended, and the next counter.
pub struct IssuanceWrites {
    pub record: CredentialRecord,
    pub issuer_ids: Vec<Bytes32>,
    pub subject_ids: Vec<Bytes32>,
    pub counter: u64,
}

/// What issuing a credential under `credential_id` writes, given the lists
/// stored under its issuer and its subject and the counter, or why the
/// issuance is refused.
pub fn issuance_writes(
    credential_id: Bytes32,
    issuer_ids: Vec<Bytes32>,
    subject_ids: Vec<Bytes32>,
    counter: u64,
    issuer: Address,
    subject: Bytes32,
    credential_type: Vec<u8>,
    claims: Vec<u8>,
    expires_at: Option<u64>,
    signature: Vec<u8>,
    now: u64,
) -> (r: Result<IssuanceWrites, CredentialError>)
    requires
        issue_outcome(
            issuer@,
            subject@,
            credential_type@,
            claims@,
            expires_at,
            signature@,
            now,
        ) is Ok ==> counter < u64::MAX,
    ensures
        match r {
            Ok(w) => {
                &&& issue_outcome(
                    issuer@,
                    subject@,
                    credential_type@,
                    claims@,
                    expires_at,
                    signature@,
                    now,
                ) == Ok::<CredentialRecordView, CredentialError>(w.record@)
                &&& ids_view(w.issuer_ids@) == ids_view(issuer_ids@).push(credential_id@)
                &&& ids_view(w.subject_ids@) == ids_view(subject_ids@).push(credential_id@)
                &&& w.counter == counter + 1
            },
            Err(e) => issue_outcome(
                issuer@,
                subject@,
                credential_type@,
                claims@,
                expires_at,
                signature@,
                now,
            ) == Err::<CredentialRecordView, CredentialError>(e),
        },
{
    match issued_record(issuer, subject, credential_type, claims, expires_at, signature, now) {
        Err(e) => Err(e),
        Ok(record) => {
            let mut issuer_ids = issuer_ids;
            let mut subject_ids = subject_ids;
            let ghost old_issuer = issuer_ids@;
            let ghost old_subject = subject_ids@;
            issuer_ids.push(credential_id);
            subject_ids.push(credential_id);
            assert(ids_view(issuer_ids@) =~= ids_view(old_issuer).push(credential_id@));
            assert(ids_view(subject_ids@) =~= ids_view(old_subject).push(credential_id@));
            Ok(IssuanceWrites { record, issuer_ids, subject_ids, counter: counter + 1 })
        },
    }
}

/// Whether the stored credential is valid at time `now`.
pub fn record_is_valid(stored: Option<&CredentialRecord>, now: u64) -> (r: bool)
    ensures
        r == (stored_view(stored) matches Some(rec) && record_valid_at(rec, now)),
{
    match stored {
        None => false,
        Some(rec) => {
            if rec.revoked {
                return false;
            }
            if let Some(exp) = rec.expires_at {
                if now >= exp {
                    return false;
                }
            }
            true
        },
    }
}

/// The identifiers listed under one key.
struct IdList {
    ids: Vec<Bytes32>,
}

impl View for IdList {
    type V = Seq<Seq<u8>>;

    closed spec fn view(&self) -> Seq<Seq<u8>> {
        ids_view(self.ids@)
    }
}

impl IdList {
    fn to_vec(&self) -> (r: Vec<Bytes32>)
        ensures
            ids_view(r@) == self@,
    {
        let mut r: Vec<Bytes32> = Vec::new();
        let mut i: usize = 0;
        while i < self.ids.len()
            invariant
                i <= self.ids@.len(),
                r@ == self.ids@.subrange(0, i as int),
            decreases self.ids@.len() - i,
        {
            r.push(self.ids[i]);
            i = i + 1;
            assert(r@ =~= self.ids@.subrange(0, i as int));
        }
        assert(r@ =~= self.ids@);
        r
    }
}

/// The contract's state: every credential by identifier, the identifiers
/// listed under each issuer and under each subject, and the counter.
pub struct CredentialsState {
    pub credentials: Map<Seq<u8>, CredentialRecordView>,
    pub by_issuer: Map<Seq<u8>, Seq<Seq<u8>>>,
    pub by_subject: Map<Seq<u8>, Seq<Seq<u8>>>,
    pub counter: u64,
}

/// What a map holds under a key, the empty list where it holds nothing.
pub open spec fn list_at(m: Map<Seq<u8>, Seq<Seq<u8>>>, key: Seq<u8>) -> Seq<Seq<u8>> {
    if m.contains_key(key) {
        m[key]
    } else {
        Seq::empty()
    }
}

/// What the contract holds under a credential identifier.
pub open spec fn lookup(s: CredentialsState, id: Seq<u8>) -> Option<CredentialRecordView> {
    if s.credentials.contains_key(id) {
        Some(s.credentials[id])
    } else {
        None
    }
}

/// Storing a new credential under a given identifier and listing it under its
/// issuer and its subject.
pub open spec fn record_spec(
    s: CredentialsState,
    id: Seq<u8>,
    issuer: Seq<u8>,
    subject: Seq<u8>,
    credential_type: Seq<u8>,
    claims: Seq<u8>,
    expires_at: Option<u64>,
    signature: Seq<u8>,
    now: u64,
) -> (CredentialsState, Result<Seq<u8>, CredentialError>) {
    match issue_outcome(issuer, subject, credential_type, claims, expires_at, signature, now) {
        Ok(rec) => (
            CredentialsState {
                credentials: s.credentials.insert(id, rec),
                by_issuer: s.by_issuer.insert(issuer, list_at(s.by_issuer, issuer).push(id)),
                by_subject: s.by_subject.insert(subject, list_at(s.by_subject, subject).push(id)),
                counter: (s.counter + 1) as u64,
            },
            Ok(id),
        ),
        Err(e) => (s, Err(e)),
    }
}

/// Issuing a credential: its identifier is derived from the issuer, the
/// subject, the counter and the type.
pub open spec fn issue_spec(
    s: CredentialsState,
    issuer: Seq<u8>,
    subject: Seq<u8>,
    credential_type: Seq<u8>,
    claims: Seq<u8>,
    expires_at: Option<u64>,
    signature: Seq<u8>,
    now: u64,
) -> (CredentialsState, Result<Seq<u8>, CredentialError>) {
    if credential_type.len() == 0 || claims.len() == 0 {
        (s, Err(CredentialError::InvalidCredential))
    } else {
        record_spec(
            s,
            credential_id_for(issuer, subject, s.counter, credential_type),
            issuer,
            subject,
            credential_type,
            claims,
            expires_at,
            signature,
            now,
        )
    }
}

/// Revoking a credential.
pub open spec fn revoke_spec(s: CredentialsState, id: Seq<u8>, caller: Seq<u8>) -> (
    CredentialsState,
    Result<(), CredentialError>,
) {
    match revoke_outcome(lookup(s, id), caller) {
        Ok(rec) => (CredentialsState { credentials: s.credentials.insert(id, rec), ..s }, Ok(())),
        Err(e) => (s, Err(e)),
    }
}

/// Whether a credential exists and is valid at time `now`.
pub open spec fn verify_spec(s: CredentialsState, id: Seq<u8>, now: u64) -> bool {
    lookup(s, id) matches Some(rec) && record_valid_at(rec, now)
}

/// Fetching a credential.
pub open spec fn get_spec(s: CredentialsState, id: Seq<u8>) -> Result<CredentialRecordView, CredentialError> {
    match lookup(s, id) {
        Some(r) => Ok(r),
        None => Err(CredentialError::NotFound),
    }
}

/// An identifier's result, by its view.
pub open spec fn id_result_view(r: Result<Bytes32, CredentialError>) -> Result<Seq<u8>, CredentialError> {
    match r {
        Ok(id) => Ok(id@),
        Err(e) => Err(e),
    }
}

/// The verifiable credentials contract, with the records and indexes it stores.
pub struct VerifiableCredentials {
    credentials: ByteMap<CredentialRecord>,
    by_issuer: ByteMap<IdList>,
    by_subject: ByteMap<IdList>,
    counter: u64,
}

impl View for VerifiableCredentials {
    type V = CredentialsState;

    closed spec fn view(&self) -> CredentialsState {
        CredentialsState {
            credentials: self.credentials.map(),
            by_issuer: self.by_issuer.map(),
            by_subject: self.by_subject.map(),
            counter: self.counter,
        }
    }
}

impl VerifiableCredentials {
    /// The contract's internal maps are consistent.
    pub closed spec fn wf(&self) -> bool {
        &&& self.credentials.wf()
        &&& self.by_issuer.wf()
        &&& self.by_subject.wf()
    }

    /// A contract with no credentials.
    pub fn new() -> (r: Self)
        ensures
            r.wf(),
            r@.credentials == Map::<Seq<u8>, CredentialRecordView>::empty(),
            r@.by_issuer == Map::<Seq<u8>, Seq<Seq<u8>>>::empty(),
            r@.by_subject == Map::<Seq<u8>, Seq<Seq<u8>>>::empty(),
            r@.counter == 0,
    {
        VerifiableCredentials {
            credentials: ByteMap::new(),
            by_issuer: ByteMap::new(),
            by_subject: ByteMap::new(),
            counter: 0,
        }
    }

    fn listed(index: &ByteMap<IdList>, key: &[u8]) -> (r: Vec<Bytes32>)
        requires
            index.wf(),
        ensures
            ids_view(r@) == list_at(index.map(), key@),
    {
        match index.get(key) {
            Some(list) => list.to_vec(),
            None => {
                let r: Vec<Bytes32> = Vec::new();
                assert(ids_view(r@) =~= Seq::<Seq<u8>>::empty());
                r
            },
        }
    }

    /// Stores a credential under `credential_id` and lists it under its issuer
    /// and its subject, unless the type or claims are empty or the expiry is not
    /// after `now`; the counter then goes up by one. A record already stored
    /// under the identifier is replaced.
    pub fn record_credential(
        &mut self,
        credential_id: Bytes32,
        issuer: Address,
        subject: Bytes32,
        credential_type: Vec<u8>,
        claims: Vec<u8>,
        expires_at: Option<u64>,
        signature: Vec<u8>,
        now: u64,
    ) -> (r: Result<Bytes32, CredentialError>)
        requires
            old(self).wf(),
            issue_outcome(
                issuer@,
                subject@,
                credential_type@,
                claims@,
                expires_at,
                signature@,
                now,
            ) is Ok ==> old(self)@.counter < u64::MAX,
        ensures
            final(self).wf(),
            (final(self)@, id_result_view(r)) == record_spec(
                old(self)@,
                credential_id@,
                issuer@,
                subject@,
                credential_type@,
                claims@,
                expires_at,
                signature@,
                now,
            ),
    {
        let issuer_ids = Self::listed(&self.by_issuer, issuer.as_slice());
        let subject_ids = Self::listed(&self.by_subject, subject.as_slice());
        let issuer_key = issuer.duplicate();
        match issuance_writes(
            credential_id,
            issuer_ids,
            subject_ids,
            self.counter,
            issuer,
            subject,
            credential_type,
            claims,
            expires_at,
            signature,
            now,
        ) {
            Err(e) => Err(e),
            Ok(w) => {
                self.credentials.insert(credential_id.as_slice(), w.record);
                self.by_issuer.insert(issuer_key.as_slice(), IdList { ids: w.issuer_ids });
                self.by_subject.insert(subject.as_slice(), IdList { ids: w.subject_ids });
                self.counter = w.counter;
                Ok(credential_id)
            },
        }
    }

    /// Issues a credential at time `now`. Its identifier is
    /// SHA-256(issuer strkey || subject || counter || credential type).
    pub fn issue_credential(
        &mut self,
        env: &soroban_sdk::Env,
        issuer: Address,
        subject: Bytes32,
        credential_type: Vec<u8>,
        claims: Vec<u8>,
        expires_at: Option<u64>,
        signature: Vec<u8>,
        now: u64,
    ) -> (r: Result<Bytes32, CredentialError>)
        requires
            old(self).wf(),
            issue_outcome(
                issuer@,
                subject@,
                credential_type@,
                claims@,
                expires_at,
                signature@,
                now,
            ) is Ok ==> old(self)@.counter < u64::MAX,
        ensures
            final(self).wf(),
            (final(self)@, id_result_view(r)) == issue_spec(
                old(self)@,
                issuer@,
                subject@,
                credential_type@,
                claims@,
                expires_at,
                signature@,
                now,
            ),
    {
        if let Err(e) = validate_claims(&credential_type, &claims) {
            return Err(e);
        }
        let credential_id = derive_credential_id(env, &issuer, &subject, self.counter, &credential_type);
        self.record_credential(
            credential_id,
            issuer,
            subject,
            credential_type,
            claims,
            expires_at,
            signature,
            now,
        )
    }

    /// Whether a credential exists, is not revoked and is not expired at `now`.
    pub fn verify_credential(&self, credential_id: Bytes32, now: u64) -> (r: bool)
        requires
            self.wf(),
        ensures
            r == verify_spec(self@, credential_id@, now),
    {
        record_is_valid(self.credentials.get(credential_id.as_slice()), now)
    }

    /// Revokes a credential. Only its issuer may.
    pub fn revoke_credential(&mut self, credential_id: Bytes32, caller: Address) -> (r: Result<
        (),
        CredentialError,
    >)
        requires
            old(self).wf(),
        ensures
            final(self).wf(),
            (final(self)@, r) == revoke_spec(old(self)@, credential_id@, caller@),
    {
        match revoked_record(self.credentials.get(credential_id.as_slice()), &caller) {
            Err(e) => Err(e),
            Ok(rec) => {
                self.credentials.insert(credential_id.as_slice(), rec);
                Ok(())
            },
        }
    }

    /// The full record of a credential.
    pub fn get_credential(&self, credential_id: Bytes32) -> (r: Result<CredentialRecord, CredentialError>)
        requires
            self.wf(),
        ensures
            outcome_view(r) == get_spec(self@, credential_id@),
    {
        match self.credentials.get(credential_id.as_slice()) {
            Some(rec) => Ok(rec.duplicate()),
            None => Err(CredentialError::NotFound),
        }
    }

    /// The identifiers of the credentials an issuer has issued, in order of
    /// issuance.
    pub fn get_issuer_credentials(&self, issuer: Address) -> (r: Vec<Bytes32>)
        requires
            self.wf(),
        ensures
            ids_view(r@) == list_at(self@.by_issuer, issuer@),
    {
        Self::listed(&self.by_issuer, issuer.as_slice())
    }

    /// The identifiers of the credentials issued to a subject, in order of
    /// issuance.
    pub fn get_subject_credentials(&self, subject: Bytes32) -> (r: Vec<Bytes32>)
        requires
            self.wf(),
        ensures
            ids_view(r@) == list_at(self@.by_subject, subject@),
    {
        Self::listed(&self.by_subject, subject.as_slice())
    }
}

/// One call that changes the contract, with its arguments as plain values.
pub enum CredentialCall {
    Issue {
        issuer: Seq<u8>,
        subject: Seq<u8>,
        credential_type: Seq<u8>,
        claims: Seq<u8>,
        expires_at: Option<u64>,
        signature: Seq<u8>,
        now: u64,
    },
    Revoke { credential_id: Seq<u8>, caller: Seq<u8> },
}

/// The contract after one call, as the methods' contracts give it.
pub open spec fn step(s: CredentialsState, call: CredentialCall) -> CredentialsState {
    match call {
        CredentialCall::Issue { issuer, subject, credential_type, claims, expires_at, signature, now } =>
            issue_spec(s, issuer, subject, credential_type, claims, expires_at, signature, now).0,
        CredentialCall::Revoke { credential_id, caller } => revoke_spec(s, credential_id, caller).0,
    }
}

/// Every identifier listed under an issuer or a subject is that of a stored
/// credential.
pub open spec fn indexes_point_to_credentials(s: CredentialsState) -> bool {
    &&& forall|k: Seq<u8>, i: int|
        #![trigger s.by_issuer[k][i]]
        s.by_issuer.contains_key(k) && 0 <= i < s.by_issuer[k].len() ==> s.credentials.contains_key(
            s.by_issuer[k][i],
        )
    &&& forall|k: Seq<u8>, i: int|
        #![trigger s.by_subject[k][i]]
        s.by_subject.contains_key(k) && 0 <= i < s.by_subject[k].len() ==> s.credentials.contains_key(
            s.by_subject[k][i],
        )
}

/// The issuer and subject indexes only ever list stored credentials: this holds
/// of a new contract and every call keeps it.
pub proof fn lemma_indexes_point_to_credentials(s: CredentialsState, call: CredentialCall)
    requires
        indexes_point_to_credentials(s),
    ensures
        indexes_point_to_credentials(step(s, call)),
        indexes_point_to_credentials(
            CredentialsState {
                credentials: Map::empty(),
                by_issuer: Map::empty(),
                by_subject: Map::empty(),
                counter: 0,
            },
        ),
{
    let s2 = step(s, call);
    assert forall|k: Seq<u8>, i: int|
        s2.by_issuer.contains_key(k) && 0 <= i < s2.by_issuer[k].len() implies s2.credentials.contains_key(
        #[trigger] s2.by_issuer[k][i],
    ) by {
        if s.by_issuer.contains_key(k) && 0 <= i < s.by_issuer[k].len() && s.by_issuer[k][i]
            == s2.by_issuer[k][i] {
            assert(s.credentials.contains_key(s.by_issuer[k][i]));
        }
    }
    assert forall|k: Seq<u8>, i: int|
        s2.by_subject.contains_key(k) && 0 <= i < s2.by_subject[k].len() implies s2.credentials.contains_key(
        #[trigger] s2.by_subject[k][i],
    ) by {
        if s.by_subject.contains_key(k) && 0 <= i < s.by_subject[k].len() && s.by_subject[k][i]
            == s2.by_subject[k][i] {
            assert(s.credentials.contains_key(s.by_subject[k][i]));
        }
    }
}

/// A credential that was just issued can be fetched as issued, and verifies at
/// every time before its expiry (at every time, without one).
pub proof fn lemma_verify_after_issue(
    s: CredentialsState,
    issuer: Seq<u8>,
    subject: Seq<u8>,
    credential_type: Seq<u8>,
    claims: Seq<u8>,
    expires_at: Option<u64>,
    signature: Seq<u8>,
    now: u64,
    later: u64,
)
    requires
        issue_spec(s, issuer, subject, credential_type, claims, expires_at, signature, now).1 is Ok,
    ensures
        ({
            let (s2, r) = issue_spec(
                s,
                issuer,
                subject,
                credential_type,
                claims,
                expires_at,
                signature,
                now,
            );
            let id = credential_id_for(issuer, subject, s.counter, credential_type);
            &&& r == Ok::<Seq<u8>, CredentialError>(id)
            &&& get_spec(s2, id) == Ok::<CredentialRecordView, CredentialError>(
                CredentialRecordView {
                    issuer,
                    subject,
                    credential_type,
                    claims,
                    issued_at: now,
                    expires_at,
                    revoked: false,
                    signature,
                },
            )
            &&& verify_spec(s2, id, later) == (match expires_at {
                Some(exp) => later < exp,
                None => true,
            })
            &&& verify_spec(s2, id, now)
        }),
{
}

/// Revocation is irreversible: a revoked credential stays stored and revoked
/// through every later call, save an issuance that derives the very same
/// identifier.
pub proof fn lemma_revocation_is_permanent(s: CredentialsState, call: CredentialCall, id: Seq<u8>)
    requires
        s.credentials.contains_key(id),
        s.credentials[id].revoked,
        call matches CredentialCall::Issue { issuer, subject, credential_type, .. } ==> id
            != credential_id_for(issuer, subject, s.counter, credential_type),
    ensures
        step(s, call).credentials.contains_key(id),
        step(s, call).credentials[id].revoked,
{
}

/// Once revoked, a credential fails verification at every time, and a second
/// revocation is refused.
pub proof fn lemma_revoked_fails_verification(
    s: CredentialsState,
    id: Seq<u8>,
    caller: Seq<u8>,
    later: u64,
)
    requires
        revoke_spec(s, id, caller).1 is Ok,
    ensures
        !verify_spec(revoke_spec(s, id, caller).0, id, later),
        revoke_spec(revoke_spec(s, id, caller).0, id, caller).1 == Err::<(), CredentialError>(
            CredentialError::AlreadyRevoked,
        ),
{
}

/// Only the issuer revokes: a revocation by anyone else changes nothing.
pub proof fn lemma_only_issuer_revokes(s: CredentialsState, id: Seq<u8>, caller: Seq<u8>)
    requires
        !(s.credentials.contains_key(id) && s.credentials[id].issuer == caller),
    ensures
        revoke_spec(s, id, caller).0 == s,
        revoke_spec(s, id, caller).1 is Err,
{
}

/// A revocation changes only the revoked flag of its credential.
pub proof fn lemma_revoke_changes_only_the_flag(s: CredentialsState, id: Seq<u8>, caller: Seq<u8>)
    requires
        revoke_spec(s, id, caller).1 is Ok,
    ensures
        ({
            let s2 = revoke_spec(s, id, caller).0;
            &&& s2.credentials == s.credentials.insert(
                id,
                CredentialRecordView { revoked: true, ..s.credentials[id] },
            )
            &&& s2.by_issuer == s.by_issuer
            &&& s2.by_subject == s.by_subject
            &&& s2.counter == s.counter
        }),
{
}

/// The index lists only grow: every call keeps each list as a prefix of what it
/// becomes.
pub proof fn lemma_index_lists_only_grow(s: CredentialsState, call: CredentialCall, key: Seq<u8>)
    ensures
        list_at(s.by_issuer, key).is_prefix_of(list_at(step(s, call).by_issuer, key)),
        list_at(s.by_subject, key).is_prefix_of(list_at(step(s, call).by_subject, key)),
{
}

/// An issuance lists the new identifier at the end of its issuer's list and of
/// its subject's list, and changes no other list.
pub proof fn lemma_issue_lists_once(
    s: CredentialsState,
    issuer: Seq<u8>,
    subject: Seq<u8>,
    credential_type: Seq<u8>,
    claims: Seq<u8>,
    expires_at: Option<u64>,
    signature: Seq<u8>,
    now: u64,
    other: Seq<u8>,
)
    requires
        issue_spec(s, issuer, subject, credential_type, claims, expires_at, signature, now).1 is Ok,
        s.counter < u64::MAX,
    ensures
        ({
            let s2 = issue_spec(
                s,
                issuer,
                subject,
                credential_type,
                claims,
                expires_at,
                signature,
                now,
            ).0;
            let id = credential_id_for(issuer, subject, s.counter, credential_type);
            &&& list_at(s2.by_issuer, issuer) == list_at(s.by_issuer, issuer).push(id)
            &&& list_at(s2.by_subject, subject) == list_at(s.by_subject, subject).push(id)
            &&& other != issuer ==> list_at(s2.by_issuer, other) == list_at(s.by_issuer, other)
            &&& other != subject ==> list_at(s2.by_subject, other) == list_at(s.by_subject, other)
            &&& s2.counter == s.counter + 1
        }),
{
}

/// Whether a call is accepted, as the methods' contracts give it.
pub open spec fn accepted(s: CredentialsState, call: CredentialCall) -> bool {
    match call {
        CredentialCall::Issue { issuer, subject, credential_type, claims, expires_at, signature, now } =>
            issue_spec(s, issuer, subject, credential_type, claims, expires_at, signature, now).1 is Ok,
        CredentialCall::Revoke { credential_id, caller } => revoke_spec(s, credential_id, caller).1 is Ok,
    }
}

/// A refused call leaves the contract exactly as it was.
pub proof fn lemma_refusals_change_nothing(s: CredentialsState, call: CredentialCall)
    requires
        !accepted(s, call),
    ensures
        step(s, call) == s,
{
}

/// An index agrees with the stored credentials, where `key_of` picks the field
/// that a credential is listed under: no list holds an identifier twice, every
/// identifier listed under a key is that of a stored credential with that key,
/// and every stored credential is listed under its key.
pub open spec fn index_matches(
    credentials: Map<Seq<u8>, CredentialRecordView>,
    index: Map<Seq<u8>, Seq<Seq<u8>>>,
    key_of: spec_fn(CredentialRecordView) -> Seq<u8>,
) -> bool {
    &&& forall|k: Seq<u8>, i: int|
        #![trigger list_at(index, k)[i]]
        0 <= i < list_at(index, k).len() ==> credentials.contains_key(list_at(index, k)[i])
            && key_of(credentials[list_at(index, k)[i]]) == k
    &&& forall|k: Seq<u8>| #[trigger] list_at(index, k).no_duplicates()
    &&& forall|id: Seq<u8>|
        #[trigger] credentials.contains_key(id) ==> list_at(index, key_of(credentials[id])).contains(id)
}

/// Both indexes agree with the stored credentials: the issuer index lists
/// exactly each issuer's credentials, the subject index exactly each subject's,
/// each once.
pub open spec fn indexes_match(s: CredentialsState) -> bool {
    &&& index_matches(s.credentials, s.by_issuer, |r: CredentialRecordView| r.issuer)
    &&& index_matches(s.credentials, s.by_subject, |r: CredentialRecordView| r.subject)
}

proof fn lemma_index_fresh_insert(
    credentials: Map<Seq<u8>, CredentialRecordView>,
    index: Map<Seq<u8>, Seq<Seq<u8>>>,
    key_of: spec_fn(CredentialRecordView) -> Seq<u8>,
    id: Seq<u8>,
    rec: CredentialRecordView,
)
    requires
        index_matches(credentials, index, key_of),
        !credentials.contains_key(id),
    ensures
        index_matches(
            credentials.insert(id, rec),
            index.insert(key_of(rec), list_at(index, key_of(rec)).push(id)),
            key_of,
        ),
{
    let c2 = credentials.insert(id, rec);
    let k0 = key_of(rec);
    let l0 = list_at(index, k0);
    let i2 = index.insert(k0, l0.push(id));
    assert forall|k: Seq<u8>| list_at(i2, k) == if k == k0 {
        l0.push(id)
    } else {
        list_at(index, k)
    } by {}
    assert forall|k: Seq<u8>, i: int| 0 <= i < list_at(i2, k).len() implies c2.contains_key(
        #[trigger] list_at(i2, k)[i],
    ) && key_of(c2[list_at(i2, k)[i]]) == k by {
        assert(list_at(i2, k) == if k == k0 {
            l0.push(id)
        } else {
            list_at(index, k)
        });
        if k == k0 && i == l0.len() {
            assert(list_at(i2, k)[i] == id);
        } else {
            let e = list_at(index, k)[i];
            assert(list_at(i2, k)[i] == e);
            assert(credentials.contains_key(e));
        }
    }
    assert forall|k: Seq<u8>| #[trigger] list_at(i2, k).no_duplicates() by {
        assert(list_at(i2, k) == if k == k0 {
            l0.push(id)
        } else {
            list_at(index, k)
        });
        assert(list_at(index, k).no_duplicates());
        if k == k0 {
            let l = l0.push(id);
            assert forall|a: int, b: int| 0 <= a < l.len() && 0 <= b < l.len() && a != b implies l[a]
                != l[b] by {
                if a < l0.len() {
                    assert(credentials.contains_key(list_at(index, k0)[a]));
                }
                if b < l0.len() {
                    assert(credentials.contains_key(list_at(index, k0)[b]));
                }
            }
        }
    }
    assert forall|id2: Seq<u8>| #[trigger] c2.contains_key(id2) implies list_at(
        i2,
        key_of(c2[id2]),
    ).contains(id2) by {
        let k = key_of(c2[id2]);
        assert(list_at(i2, k) == if k == k0 {
            l0.push(id)
        } else {
            list_at(index, k)
        });
        if id2 == id {
            assert(list_at(i2, k)[l0.len() as int] == id);
        } else {
            assert(credentials.contains_key(id2));
            assert(list_at(index, k).contains(id2));
            if k == k0 {
                let j = choose|j: int| 0 <= j < l0.len() && l0[j] == id2;
                assert(l0.push(id)[j] == id2);
            }
        }
    }
}

proof fn lemma_index_same_key_update(
    credentials: Map<Seq<u8>, CredentialRecordView>,
    index: Map<Seq<u8>, Seq<Seq<u8>>>,
    key_of: spec_fn(CredentialRecordView) -> Seq<u8>,
    id: Seq<u8>,
    rec: CredentialRecordView,
)
    requires
        index_matches(credentials, index, key_of),
        credentials.contains_key(id),
        key_of(rec) == key_of(credentials[id]),
    ensures
        index_matches(credentials.insert(id, rec), index, key_of),
{
    let c2 = credentials.insert(id, rec);
    assert forall|k: Seq<u8>, i: int| 0 <= i < list_at(index, k).len() implies c2.contains_key(
        #[trigger] list_at(index, k)[i],
    ) && key_of(c2[list_at(index, k)[i]]) == k by {
        assert(credentials.contains_key(list_at(index, k)[i]));
    }
    assert forall|id2: Seq<u8>| #[trigger] c2.contains_key(id2) implies list_at(
        index,
        key_of(c2[id2]),
    ).contains(id2) by {
        assert(credentials.contains_key(id2));
    }
}

/// An issuance whose new identifier is not yet stored, and every revocation,
/// keep both indexes in agreement with the stored credentials; a new contract
/// starts in agreement.
pub proof fn lemma_indexes_match(s: CredentialsState, call: CredentialCall)
    requires
        indexes_match(s),
        call matches CredentialCall::Issue { issuer, subject, credential_type, .. }
            ==> !s.credentials.contains_key(
            credential_id_for(issuer, subject, s.counter, credential_type),
        ),
    ensures
        indexes_match(step(s, call)),
        indexes_match(
            CredentialsState {
                credentials: Map::empty(),
                by_issuer: Map::empty(),
                by_subject: Map::empty(),
                counter: 0,
            },
        ),
{
    let fi = |r: CredentialRecordView| r.issuer;
    let fs = |r: CredentialRecordView| r.subject;
    match call {
        CredentialCall::Issue { issuer, subject, credential_type, claims, expires_at, signature, now } => {
            if let Ok(rec) = issue_outcome(
                issuer,
                subject,
                credential_type,
                claims,
                expires_at,
                signature,
                now,
            ) {
                if credential_type.len() > 0 && claims.len() > 0 {
                    let id = credential_id_for(issuer, subject, s.counter, credential_type);
                    lemma_index_fresh_insert(s.credentials, s.by_issuer, fi, id, rec);
                    lemma_index_fresh_insert(s.credentials, s.by_subject, fs, id, rec);
                }
            }
        },
        CredentialCall::Revoke { credential_id, caller } => {
            if let Ok(rec) = revoke_outcome(lookup(s, credential_id), caller) {
                lemma_index_same_key_update(s.credentials, s.by_issuer, fi, credential_id, rec);
                lemma_index_same_key_update(s.credentials, s.by_subject, fs, credential_id, rec);
            }
        },
    }
    let e = CredentialsState {
        credentials: Map::empty(),
        by_issuer: Map::empty(),
        by_subject: Map::empty(),
        counter: 0,
    };
    assert forall|k: Seq<u8>| #[trigger] list_at(e.by_issuer, k).no_duplicates() by {}
    assert forall|k: Seq<u8>| #[trigger] list_at(e.by_subject, k).no_duplicates() by {}
}

/// The contract after a sequence of calls, made in order.
pub open spec fn run(s: CredentialsState, calls: Seq<CredentialCall>) -> CredentialsState
    decreases calls.len(),
{
    if calls.len() == 0 {
        s
    } else {
        run(step(s, calls[0]), calls.drop_first())
    }
}

/// Every issuance among the calls is by a strkey-sized issuer, for a 32-byte
/// subject.
pub open spec fn issues_well_formed(calls: Seq<CredentialCall>) -> bool {
    forall|i: int|
        0 <= i < calls.len() ==> (#[trigger] calls[i] matches CredentialCall::Issue {
            issuer,
            subject,
            ..
        } ==> strkey_sized(issuer) && subject.len() == 32)
}

/// A contract with no credentials.
pub open spec fn empty_contract() -> CredentialsState {
    CredentialsState {
        credentials: Map::empty(),
        by_issuer: Map::empty(),
        by_subject: Map::empty(),
        counter: 0,
    }
}

/// Every stored identifier was derived, for a strkey-sized issuer and a
/// 32-byte subject, at a counter value below the current one.
pub open spec fn ids_derived_below(s: CredentialsState) -> bool {
    forall|id: Seq<u8>|
        #[trigger] s.credentials.contains_key(id) ==> exists|
            i: Seq<u8>,
            j: Seq<u8>,
            c: u64,
            t: Seq<u8>,
        |
            strkey_sized(i) && j.len() == 32 && c < s.counter && id == #[trigger] credential_id_for(
                i,
                j,
                c,
                t,
            )
}

/// If SHA-256 has no collisions, the identifier that the counter's current
/// value derives for a strkey-sized issuer and a 32-byte subject is not yet
/// stored.
pub proof fn lemma_derived_id_is_fresh(
    s: CredentialsState,
    issuer: Seq<u8>,
    subject: Seq<u8>,
    credential_type: Seq<u8>,
)
    requires
        ids_derived_below(s),
        sha256_collision_free(),
        strkey_sized(issuer),
        subject.len() == 32,
    ensures
        !s.credentials.contains_key(credential_id_for(issuer, subject, s.counter, credential_type)),
{
    let id = credential_id_for(issuer, subject, s.counter, credential_type);
    if s.credentials.contains_key(id) {
        let (i, j, c, t) = choose|i: Seq<u8>, j: Seq<u8>, c: u64, t: Seq<u8>|
            strkey_sized(i) && j.len() == 32 && c < s.counter && id == #[trigger] credential_id_for(
                i,
                j,
                c,
                t,
            );
        assert(sha256_digest(credential_preimage(i, j, c, t)) == sha256_digest(
            credential_preimage(issuer, subject, s.counter, credential_type),
        ));
        lemma_counter_fixed_by_encoding(i + j, c, t, issuer + subject, s.counter, credential_type);
    }
}

/// Every call whose issuance is by a strkey-sized issuer for a 32-byte subject
/// keeps each stored identifier derived below the counter.
pub proof fn lemma_ids_derived_below_kept(s: CredentialsState, call: CredentialCall)
    requires
        ids_derived_below(s),
        s.counter < u64::MAX,
        call matches CredentialCall::Issue { issuer, subject, .. } ==> strkey_sized(issuer)
            && subject.len() == 32,
    ensures
        ids_derived_below(step(s, call)),
        step(s, call).counter <= s.counter + 1,
{
    let s2 = step(s, call);
    assert forall|id: Seq<u8>| #[trigger] s2.credentials.contains_key(id) implies exists|
        i: Seq<u8>,
        j: Seq<u8>,
        c: u64,
        t: Seq<u8>,
    |
        strkey_sized(i) && j.len() == 32 && c < s2.counter && id == #[trigger] credential_id_for(
            i,
            j,
            c,
            t,
        ) by {
        if s.credentials.contains_key(id) {
            let (i, j, c, t) = choose|i: Seq<u8>, j: Seq<u8>, c: u64, t: Seq<u8>|
                strkey_sized(i) && j.len() == 32 && c < s.counter && id == #[trigger] credential_id_for(
                    i,
                    j,
                    c,
                    t,
                );
            assert(strkey_sized(i) && j.len() == 32 && c < s2.counter && id == credential_id_for(
                i,
                j,
                c,
                t,
            ));
        } else {
            match call {
                CredentialCall::Issue { issuer, subject, credential_type, .. } => {
                    assert(strkey_sized(issuer) && subject.len() == 32 && s.counter < s2.counter && id
                        == credential_id_for(issuer, subject, s.counter, credential_type));
                },
                _ => {},
            }
        }
    }
}

/// Along calls whose issuances are well formed, every stored identifier stays
/// derived below the counter, the indexes keep agreeing with the stored
/// credentials (given that SHA-256 has no collisions), and the counter grows by
/// at most one per call.
pub proof fn lemma_run_keeps_invariants(s: CredentialsState, calls: Seq<CredentialCall>)
    requires
        ids_derived_below(s),
        indexes_match(s),
        sha256_collision_free(),
        issues_well_formed(calls),
        s.counter + calls.len() <= u64::MAX,
    ensures
        ids_derived_below(run(s, calls)),
        indexes_match(run(s, calls)),
        run(s, calls).counter <= s.counter + calls.len(),
    decreases calls.len(),
{
    if calls.len() > 0 {
        let c0 = calls[0];
        assert(c0 matches CredentialCall::Issue { issuer, subject, .. } ==> strkey_sized(issuer)
            && subject.len() == 32);
        match c0 {
            CredentialCall::Issue { issuer, subject, credential_type, .. } => {
                lemma_derived_id_is_fresh(s, issuer, subject, credential_type);
            },
            _ => {},
        }
        lemma_indexes_match(s, c0);
        lemma_ids_derived_below_kept(s, c0);
        let rest = calls.drop_first();
        assert forall|k: int| 0 <= k < rest.len() implies (#[trigger] rest[k] matches CredentialCall::Issue {
            issuer,
            subject,
            ..
        } ==> strkey_sized(issuer) && subject.len() == 32) by {
            assert(rest[k] == calls[k + 1]);
        }
        lemma_run_keeps_invariants(step(s, c0), rest);
    }
}

/// Identifiers are fresh, and the indexes agree with the stored credentials:
/// from a new contract, after any calls whose issuances are well formed, an
/// accepted issuance by a strkey-sized issuer for a 32-byte subject stores its
/// record under an identifier not stored before and appends that identifier
/// to its issuer's and its subject's lists; and the issuer and subject indexes
/// list exactly each issuer's and each subject's credentials, each once (given
/// that SHA-256 has no collisions).
pub proof fn lemma_issue_fresh_after_any_run(
    calls: Seq<CredentialCall>,
    issuer: Seq<u8>,
    subject: Seq<u8>,
    credential_type: Seq<u8>,
    claims: Seq<u8>,
    expires_at: Option<u64>,
    signature: Seq<u8>,
    now: u64,
)
    requires
        sha256_collision_free(),
        issues_well_formed(calls),
        calls.len() < u64::MAX,
        strkey_sized(issuer),
        subject.len() == 32,
        issue_accepted(credential_type, claims, expires_at, now),
    ensures
        ({
            let s = run(empty_contract(), calls);
            let id = credential_id_for(issuer, subject, s.counter, credential_type);
            let (s2, r) = issue_spec(
                s,
                issuer,
                subject,
                credential_type,
                claims,
                expires_at,
                signature,
                now,
            );
            &&& indexes_match(s)
            &&& !s.credentials.contains_key(id)
            &&& r == Ok::<Seq<u8>, CredentialError>(id)
            &&& s2.credentials == s.credentials.insert(
                id,
                CredentialRecordView {
                    issuer,
                    subject,
                    credential_type,
                    claims,
                    issued_at: now,
                    expires_at,
                    revoked: false,
                    signature,
                },
            )
            &&& list_at(s2.by_issuer, issuer) == list_at(s.by_issuer, issuer).push(id)
            &&& list_at(s2.by_subject, subject) == list_at(s.by_subject, subject).push(id)
            &&& s2.counter == s.counter + 1
            &&& indexes_match(s2)
        }),
{
    lemma_indexes_match(empty_contract(), CredentialCall::Revoke { credential_id: Seq::empty(), caller: Seq::empty() });
    lemma_run_keeps_invariants(empty_contract(), calls);
    let s = run(empty_contract(), calls);
    lemma_derived_id_is_fresh(s, issuer, subject, credential_type);
    lemma_indexes_match(
        s,
        CredentialCall::Issue { issuer, subject, credential_type, claims, expires_at, signature, now },
    );
}

/// A stored credential that fails verification at time `t` still fails at
/// every time from `t` on, after any later calls whose issuances are well
/// formed, in a contract whose identifiers were derived below its counter (as
/// every contract reached from a new one is; see
/// `lemma_run_keeps_invariants`) and given that SHA-256 has no collisions:
/// revocation is permanent, and an expiry is never moved.
pub proof fn lemma_failed_verification_stays_failed(
    s: CredentialsState,
    calls: Seq<CredentialCall>,
    id: Seq<u8>,
    t: u64,
    later: u64,
)
    requires
        ids_derived_below(s),
        sha256_collision_free(),
        issues_well_formed(calls),
        s.counter + calls.len() <= u64::MAX,
        s.credentials.contains_key(id),
        !verify_spec(s, id, t),
        t <= later,
    ensures
        run(s, calls).credentials.contains_key(id),
        !verify_spec(run(s, calls), id, later),
    decreases calls.len(),
{
    if calls.len() > 0 {
        let c0 = calls[0];
        assert(c0 matches CredentialCall::Issue { issuer, subject, .. } ==> strkey_sized(issuer)
            && subject.len() == 32);
        match c0 {
            CredentialCall::Issue { issuer, subject, credential_type, .. } => {
                lemma_derived_id_is_fresh(s, issuer, subject, credential_type);
            },
            _ => {},
        }
        lemma_ids_derived_below_kept(s, c0);
        let s2 = step(s, c0);
        assert(s2.credentials.contains_key(id));
        assert(s2.credentials[id].revoked || s2.credentials[id].expires_at == s.credentials[id].expires_at);
        assert(!verify_spec(s2, id, t));
        let rest = calls.drop_first();
        assert forall|k: int| 0 <= k < rest.len() implies (#[trigger] rest[k] matches CredentialCall::Issue {
            issuer,
            subject,
            ..
        } ==> strkey_sized(issuer) && subject.len() == 32) by {
            assert(rest[k] == calls[k + 1]);
        }
        lemma_failed_verification_stays_failed(s2, rest, id, t, later);
    }
}

/// Fetching gives exactly the stored record, and `NotFound` where none is
/// stored.
pub proof fn lemma_get_returns_the_stored_record(s: CredentialsState, id: Seq<u8>)
    ensures
        s.credentials.contains_key(id) ==> get_spec(s, id) == Ok::<CredentialRecordView, CredentialError>(
            s.credentials[id],
        ),
        !s.credentials.contains_key(id) ==> get_spec(s, id) == Err::<CredentialRecordView, CredentialError>(
            CredentialError::NotFound,
        ),
{
}

/// A credential verifies exactly when it is stored, not revoked, and either
/// has no expiry or is checked before it.
pub proof fn lemma_verification_means_stored_unrevoked_unexpired(s: CredentialsState, id: Seq<u8>, now: u64)
    ensures
        verify_spec(s, id, now) <==> (s.credentials.contains_key(id) && !s.credentials[id].revoked
            && (s.credentials[id].expires_at is None || now < s.credentials[id].expires_at->Some_0)),
{
}

/// An accepted issuance stores exactly what it was given, issued now and not
/// revoked; issuance is accepted exactly when the type and claims are not
/// empty and any expiry is after now.
pub proof fn lemma_issued_record_is_built_from_arguments(
    issuer: Seq<u8>,
    subject: Seq<u8>,
    credential_type: Seq<u8>,
    claims: Seq<u8>,
    expires_at: Option<u64>,
    signature: Seq<u8>,
    now: u64,
)
    ensures
        issue_outcome(issuer, subject, credential_type, claims, expires_at, signature, now) is Ok <==> (
        credential_type.len() > 0 && claims.len() > 0 && (expires_at is None || now
            < expires_at->Some_0)),
        issue_outcome(issuer, subject, credential_type, claims, expires_at, signature, now) is Ok ==> ({
            let r = issue_outcome(
                issuer,
                subject,
                credential_type,
                claims,
                expires_at,
                signature,
                now,
            )->Ok_0;
            &&& r.issuer == issuer
            &&& r.subject == subject
            &&& r.credential_type == credential_type
            &&& r.claims == claims
            &&& r.issued_at == now
            &&& r.expires_at == expires_at
            &&& !r.revoked
            &&& r.signature == signature
        }),
{
}

} // verus!
