//! The DID registry: decentralized identifiers with an owner, a document,
//! timestamps and an active flag.
//!
//! Each operation is given twice: as a decision on one stored record (the
//! `*_record` functions, which take what storage holds under the identifier and
//! return what it must hold afterwards), and as a method of [`DIDRegistry`], which
//! keeps every record in one map and applies those decisions to it.

use vstd::prelude::*;
use crate::bytes::{
    Address, Bytes32, append_be_u64, append_bytes, be_bytes, copy_bytes, lemma_counter_fixed_by_encoding,
    strkey_sized,
};
use crate::hash::{sha256, sha256_collision_free, sha256_digest};
use crate::store::ByteMap;

verus! {

/// Why a DID operation was refused.
#[derive(Clone, Copy, Debug, PartialEq, Eq, Structural)]
pub enum DIDError {
    NotFound,
    NotOwner,
    Inactive,
    AlreadyExists,
    InvalidDocument,
}

/// What the registry stores for one DID.
#[derive(Debug, PartialEq, Eq)]
pub struct DIDRecord {
    pub owner: Address,
    pub document: Vec<u8>,
    pub created_at: u64,
    pub updated_at: u64,
    pub active: bool,
}

/// A DID record as plain values.
pub struct DIDRecordView {
    pub owner: Seq<u8>,
    pub document: Seq<u8>,
    pub created_at: u64,
    pub updated_at: u64,
    pub active: bool,
}

impl View for DIDRecord {
    type V = DIDRecordView;

    open spec fn view(&self) -> DIDRecordView {
        DIDRecordView {
            owner: self.owner@,
            document: self.document@,
            created_at: self.created_at,
            updated_at: self.updated_at,
            active: self.active,
        }
    }
}

impl DIDRecord {
    /// A second record equal to this one.
    pub fn duplicate(&self) -> (r: DIDRecord)
        ensures
            r@ == self@,
    {
        DIDRecord {
            owner: self.owner.duplicate(),
            document: copy_bytes(&self.document),
            created_at: self.created_at,
            updated_at: self.updated_at,
            active: self.active,
        }
    }
}

/// Emitted when a DID is created.
pub struct DIDCreatedEvent {
    pub did_id: Bytes32,
    pub owner: Address,
    pub timestamp: u64,
}

/// Emitted when a DID's document is updated.
pub struct DIDUpdatedEvent {
    pub did_id: Bytes32,
    pub timestamp: u64,
}

/// Emitted when a DID is deactivated.
pub struct DIDDeactivatedEvent {
    pub did_id: Bytes32,
    pub timestamp: u64,
}

/// Emitted when a DID changes owner.
pub struct DIDTransferredEvent {
    pub did_id: Bytes32,
    pub from: Address,
    pub to: Address,
    pub timestamp: u64,
}

/// The record a storage slot holds, by its view.
pub open spec fn stored_view(stored: Option<&DIDRecord>) -> Option<DIDRecordView> {
    match stored {
        Some(r) => Some(r@),
        None => None,
    }
}

/// A decision's result, by its view.
pub open spec fn outcome_view(r: Result<DIDRecord, DIDError>) -> Result<DIDRecordView, DIDError> {
    match r {
        Ok(rec) => Ok(rec@),
        Err(e) => Err(e),
    }
}

/// The bytes hashed into a new DID's identifier: the owner's strkey, the
/// registry counter (big-endian), and the document.
pub open spec fn did_preimage(owner: Seq<u8>, counter: u64, document: Seq<u8>) -> Seq<u8> {
    owner + be_bytes(counter) + document
}

/// The identifier of the DID that `owner` creates with `document` when the
/// registry counter is `counter`.
pub open spec fn did_id_for(owner: Seq<u8>, counter: u64, document: Seq<u8>) -> Seq<u8> {
    sha256_digest(did_preimage(owner, counter, document))
}

/// The record a creation stores, or why it is refused.
pub open spec fn create_outcome(
    already_stored: bool,
    owner: Seq<u8>,
    document: Seq<u8>,
    now: u64,
) -> Result<DIDRecordView, DIDError> {
    if document.len() == 0 {
        Err(DIDError::InvalidDocument)
    } else if already_stored {
        Err(DIDError::AlreadyExists)
    } else {
        Ok(DIDRecordView { owner, document, created_at: now, updated_at: now, active: true })
    }
}

/// The record after a document update, or why it is refused.
pub open spec fn update_outcome(
    stored: Option<DIDRecordView>,
    caller: Seq<u8>,
    new_document: Seq<u8>,
    now: u64,
) -> Result<DIDRecordView, DIDError> {
    if new_document.len() == 0 {
        Err(DIDError::InvalidDocument)
    } else {
        match stored {
            None => Err(DIDError::NotFound),
            Some(r) => if !r.active {
                Err(DIDError::Inactive)
            } else if r.owner != caller {
                Err(DIDError::NotOwner)
            } else {
                Ok(DIDRecordView { document: new_document, updated_at: now, ..r })
            },
        }
    }
}

/// The record after a deactivation, or why it is refused.
pub open spec fn deactivate_outcome(
    stored: Option<DIDRecordView>,
    caller: Seq<u8>,
    now: u64,
) -> Result<DIDRecordView, DIDError> {
    match stored {
        None => Err(DIDError::NotFound),
        Some(r) => if r.owner != caller {
            Err(DIDError::NotOwner)
        } else {
            Ok(DIDRecordView { active: false, updated_at: now, ..r })
        },
    }
}

/// The record after a change of owner, or why it is refused.
pub open spec fn transfer_outcome(
    stored: Option<DIDRecordView>,
    caller: Seq<u8>,
    new_owner: Seq<u8>,
    now: u64,
) -> Result<DIDRecordView, DIDError> {
    match stored {
        None => Err(DIDError::NotFound),
        Some(r) => if !r.active {
            Err(DIDError::Inactive)
        } else if r.owner != caller {
            Err(DIDError::NotOwner)
        } else {
            Ok(DIDRecordView { owner: new_owner, updated_at: now, ..r })
        },
    }
}

/// Refuses an empty document. Creation and update check this before anything
/// else, authorization included.
pub fn validate_document(document: &Vec<u8>) -> (r: Result<(), DIDError>)
    ensures
        r == (if document@.len() == 0 {
            Err::<(), DIDError>(DIDError::InvalidDocument)
        } else {
            Ok::<(), DIDError>(())
        }),
{
    if document.len() == 0 {
        Err(DIDError::InvalidDocument)
    } else {
        Ok(())
    }
}

/// The identifier of a new DID: SHA-256 of the owner's strkey, the counter in
/// big-endian order, and the document.
pub fn derive_did_id(
    env: &soroban_sdk::Env,
    owner: &Address,
    counter: u64,
    document: &Vec<u8>,
) -> (id: Bytes32)
    ensures
        id@ == did_id_for(owner@, counter, document@),
{
    let mut preimage: Vec<u8> = Vec::new();
    append_bytes(&mut preimage, owner.as_slice());
    append_be_u64(&mut preimage, counter);
    append_bytes(&mut preimage, document.as_slice());
    Bytes32::from_array(sha256(env, preimage.as_slice()))
}

/// The record that creating a DID stores, given whether its identifier is
/// already taken.
pub fn created_record(already_stored: bool, owner: Address, document: Vec<u8>, now: u64) -> (r:
    Result<DIDRecord, DIDError>)
    ensures
        outcome_view(r) == create_outcome(already_stored, owner@, document@, now),
{
    if document.len() == 0 {
        return Err(DIDError::InvalidDocument);
    }
    if already_stored {
        return Err(DIDError::AlreadyExists);
    }
    Ok(DIDRecord { owner, document, created_at: now, updated_at: now, active: true })
}

/// Everything a creation writes: the new record and the next counter.
pub struct CreationWrites {
    pub record: DIDRecord,
    pub counter: u64,
}

/// What creating a DID writes, given whether its identifier is already taken
/// and the counter, or why the creation is refused.
pub fn creation_writes(
    already_stored: bool,
    owner: Address,
    document: Vec<u8>,
    now: u64,
    counter: u64,
) -> (r: Result<CreationWrites, DIDError>)
    requires
        create_outcome(already_stored, owner@, document@, now) is Ok ==> counter < u64::MAX,
    ensures
        match r {
            Ok(w) => create_outcome(already_stored, owner@, document@, now) == Ok::<
                DIDRecordView,
                DIDError,
            >(w.record@) && w.counter == counter + 1,
            Err(e) => create_outcome(already_stored, owner@, document@, now) == Err::<
                DIDRecordView,
                DIDError,
            >(e),
        },
{
    match created_record(already_stored, owner, document, now) {
        Err(e) => Err(e),
        Ok(record) => Ok(CreationWrites { record, counter: counter + 1 }),
    }
}

/// The record after `caller` replaces the document of the stored DID.
pub fn updated_record(
    stored: Option<&DIDRecord>,
    caller: &Address,
    new_document: Vec<u8>,
    now: u64,
) -> (r: Result<DIDRecord, DIDError>)
    ensures
        outcome_view(r) == update_outcome(stored_view(stored), caller@, new_document@, now),
{
    if let Err(e) = validate_document(&new_document) {
        return Err(e);
    }
    match stored {
        None => Err(DIDError::NotFound),
        Some(rec) => {
            if !rec.active {
                return Err(DIDError::Inactive);
            }
            if !rec.owner.same_as(caller) {
                return Err(DIDError::NotOwner);
            }
            Ok(
                DIDRecord {
                    owner: rec.owner.duplicate(),
                    document: new_document,
                    created_at: rec.created_at,
                    updated_at: now,
                    active: rec.active,
                },
            )
        },
    }
}

/// The record after `caller` deactivates the stored DID.
pub fn deactivated_record(stored: Option<&DIDRecord>, caller: &Address, now: u64) -> (r: Result<
    DIDRecord,
    DIDError,
>)
    ensures
        outcome_view(r) == deactivate_outcome(stored_view(stored), caller@, now),
{
    match stored {
        None => Err(DIDError::NotFound),
        Some(rec) => {
            if !rec.owner.same_as(caller) {
                return Err(DIDError::NotOwner);
            }
            Ok(
                DIDRecord {
                    owner: rec.owner.duplicate(),
                    document: copy_bytes(&rec.document),
                    created_at: rec.created_at,
                    updated_at: now,
                    active: false,
                },
            )
        },
    }
}

/// The record after `caller` hands the stored DID to `new_owner`.
pub fn transferred_record(
    stored: Option<&DIDRecord>,
    caller: &Address,
    new_owner: Address,
    now: u64,
) -> (r: Result<DIDRecord, DIDError>)
    ensures
        outcome_view(r) == transfer_outcome(stored_view(stored), caller@, new_owner@, now),
{
    match stored {
        None => Err(DIDError::NotFound),
        Some(rec) => {
            if !rec.active {
                return Err(DIDError::Inactive);
            }
            if !rec.owner.same_as(caller) {
                return Err(DIDError::NotOwner);
            }
            Ok(
                DIDRecord {
                    owner: new_owner,
                    document: copy_bytes(&rec.document),
                    created_at: rec.created_at,
                    updated_at: now,
                    active: rec.active,
                },
            )
        },
    }
}

/// Whether the stored DID is active.
pub fn record_is_active(stored: Option<&DIDRecord>) -> (r: bool)
    ensures
        r == (stored_view(stored) matches Some(rec) && rec.active),
{
    match stored {
        Some(rec) => rec.active,
        None => false,
    }
}

/// The event a creation publishes: the new identifier, its owner and the
/// creation time.
pub fn created_event(did_id: Bytes32, record: &DIDRecord) -> (e: DIDCreatedEvent)
    ensures
        e.did_id == did_id,
        e.owner@ == record.owner@,
        e.timestamp == record.created_at,
{
    DIDCreatedEvent { did_id, owner: record.owner.duplicate(), timestamp: record.created_at }
}

/// The event a document update publishes: the identifier and the update time.
pub fn updated_event(did_id: Bytes32, record: &DIDRecord) -> (e: DIDUpdatedEvent)
    ensures
        e.did_id == did_id,
        e.timestamp == record.updated_at,
{
    DIDUpdatedEvent { did_id, timestamp: record.updated_at }
}

/// The event a deactivation publishes: the identifier and the deactivation
/// time.
pub fn deactivated_event(did_id: Bytes32, record: &DIDRecord) -> (e: DIDDeactivatedEvent)
    ensures
        e.did_id == did_id,
        e.timestamp == record.updated_at,
{
    DIDDeactivatedEvent { did_id, timestamp: record.updated_at }
}

/// The event a transfer publishes: the identifier, the owner before and after,
/// and the transfer time.
pub fn transferred_event(did_id: Bytes32, before: &DIDRecord, after: &DIDRecord) -> (e:
    DIDTransferredEvent)
    ensures
        e.did_id == did_id,
        e.from@ == before.owner@,
        e.to@ == after.owner@,
        e.timestamp == after.updated_at,
{
    DIDTransferredEvent {
        did_id,
        from: before.owner.duplicate(),
        to: after.owner.duplicate(),
        timestamp: after.updated_at,
    }
}

/// The registry's state: every stored DID by identifier, and the counter that
/// goes into new identifiers.
pub struct RegistryState {
    pub dids: Map<Seq<u8>, DIDRecordView>,
    pub counter: u64,
}

/// What the registry holds under an identifier.
pub open spec fn lookup(s: RegistryState, did_id: Seq<u8>) -> Option<DIDRecordView> {
    if s.dids.contains_key(did_id) {
        Some(s.dids[did_id])
    } else {
        None
    }
}

/// The state after a decision on the record under `did_id`: the new record is
/// stored, or nothing changes.
pub open spec fn apply_outcome(
    s: RegistryState,
    did_id: Seq<u8>,
    o: Result<DIDRecordView, DIDError>,
) -> (RegistryState, Result<(), DIDError>) {
    match o {
        Ok(rec) => (RegistryState { dids: s.dids.insert(did_id, rec), ..s }, Ok(())),
        Err(e) => (s, Err(e)),
    }
}

/// Storing a new DID under a given identifier.
pub open spec fn register_spec(
    s: RegistryState,
    did_id: Seq<u8>,
    owner: Seq<u8>,
    document: Seq<u8>,
    now: u64,
) -> (RegistryState, Result<Seq<u8>, DIDError>) {
    match create_outcome(s.dids.contains_key(did_id), owner, document, now) {
        Ok(rec) => (
            RegistryState { dids: s.dids.insert(did_id, rec), counter: (s.counter + 1) as u64 },
            Ok(did_id),
        ),
        Err(e) => (s, Err(e)),
    }
}

/// Creating a DID: its identifier is derived from the owner, the counter and
/// the document.
pub open spec fn create_spec(s: RegistryState, owner: Seq<u8>, document: Seq<u8>, now: u64) -> (
    RegistryState,
    Result<Seq<u8>, DIDError>,
) {
    if document.len() == 0 {
        (s, Err(DIDError::InvalidDocument))
    } else {
        register_spec(s, did_id_for(owner, s.counter, document), owner, document, now)
    }
}

/// Resolving a DID.
pub open spec fn resolve_spec(s: RegistryState, did_id: Seq<u8>) -> Result<DIDRecordView, DIDError> {
    match lookup(s, did_id) {
        Some(r) => Ok(r),
        None => Err(DIDError::NotFound),
    }
}

/// Whether a DID is stored and active.
pub open spec fn is_active_spec(s: RegistryState, did_id: Seq<u8>) -> bool {
    s.dids.contains_key(did_id) && s.dids[did_id].active
}

/// An identifier's result, by its view.
pub open spec fn id_result_view(r: Result<Bytes32, DIDError>) -> Result<Seq<u8>, DIDError> {
    match r {
        Ok(id) => Ok(id@),
        Err(e) => Err(e),
    }
}

/// The DID registry contract, with the records it stores.
pub struct DIDRegistry {
    dids: ByteMap<DIDRecord>,
    counter: u64,
}

impl View for DIDRegistry {
    type V = RegistryState;

    closed spec fn view(&self) -> RegistryState {
        RegistryState { dids: self.dids.map(), counter: self.counter }
    }
}

impl DIDRegistry {
    /// The registry's internal map is consistent.
    pub closed spec fn wf(&self) -> bool {
        self.dids.wf()
    }

    /// An empty registry.
    pub fn new() -> (r: Self)
        ensures
            r.wf(),
            r@.dids == Map::<Seq<u8>, DIDRecordView>::empty(),
            r@.counter == 0,
    {
        DIDRegistry { dids: ByteMap::new(), counter: 0 }
    }

    /// Stores a new DID under `did_id`, unless the document is empty or the
    /// identifier is taken; the counter then goes up by one.
    pub fn register_did(&mut self, did_id: Bytes32, owner: Address, document: Vec<u8>, now: u64) -> (r:
        Result<Bytes32, DIDError>)
        requires
            old(self).wf(),
            document@.len() == 0 || old(self)@.dids.contains_key(did_id@) || old(self)@.counter
                < u64::MAX,
        ensures
            final(self).wf(),
            (final(self)@, id_result_view(r)) == register_spec(
                old(self)@,
                did_id@,
                owner@,
                document@,
                now,
            ),
    {
        let exists = self.dids.contains_key(did_id.as_slice());
        match creation_writes(exists, owner, document, now, self.counter) {
            Err(e) => Err(e),
            Ok(w) => {
                self.dids.insert(did_id.as_slice(), w.record);
                self.counter = w.counter;
                Ok(did_id)
            },
        }
    }

    /// Creates a DID owned by `owner` with the given document, at time `now`.
    /// Its identifier is SHA-256(owner strkey || counter || document).
    /// A creation that succeeds advances the counter, which must not be at its
    /// maximum then.
    pub fn create_did(&mut self, env: &soroban_sdk::Env, owner: Address, document: Vec<u8>, now: u64) -> (r:
        Result<Bytes32, DIDError>)
        requires
            old(self).wf(),
            document@.len() == 0 || old(self)@.dids.contains_key(
                did_id_for(owner@, old(self)@.counter, document@),
            ) || old(self)@.counter < u64::MAX,
        ensures
            final(self).wf(),
            (final(self)@, id_result_view(r)) == create_spec(old(self)@, owner@, document@, now),
    {
        if let Err(e) = validate_document(&document) {
            return Err(e);
        }
        let did_id = derive_did_id(env, &owner, self.counter, &document);
        self.register_did(did_id, owner, document, now)
    }

    /// Creates a DID as `create_did` does, but answers `None`, changing nothing,
    /// where the creation would succeed while the counter is at its maximum and
    /// so could not advance it.
    pub fn try_create_did(&mut self, env: &soroban_sdk::Env, owner: Address, document: Vec<u8>, now: u64) -> (r:
        Option<Result<Bytes32, DIDError>>)
        requires
            old(self).wf(),
        ensures
            final(self).wf(),
            match r {
                Some(res) => (final(self)@, id_result_view(res)) == create_spec(
                    old(self)@,
                    owner@,
                    document@,
                    now,
                ),
                None => {
                    &&& final(self)@ == old(self)@
                    &&& document@.len() > 0
                    &&& old(self)@.counter == u64::MAX
                    &&& !old(self)@.dids.contains_key(did_id_for(owner@, old(self)@.counter, document@))
                },
            },
    {
        if document.len() > 0 && self.counter == u64::MAX {
            let did_id = derive_did_id(env, &owner, self.counter, &document);
            if !self.dids.contains_key(did_id.as_slice()) {
                return None;
            }
        }
        Some(self.create_did(env, owner, document, now))
    }

    /// The record of a DID.
    pub fn resolve_did(&self, did_id: Bytes32) -> (r: Result<DIDRecord, DIDError>)
        requires
            self.wf(),
        ensures
            outcome_view(r) == resolve_spec(self@, did_id@),
    {
        match self.dids.get(did_id.as_slice()) {
            Some(rec) => Ok(rec.duplicate()),
            None => Err(DIDError::NotFound),
        }
    }

    /// Replaces the document of a DID. Only its owner may, and only while it is
    /// active.
    pub fn update_did(&mut self, did_id: Bytes32, caller: Address, new_document: Vec<u8>, now: u64) -> (r:
        Result<(), DIDError>)
        requires
            old(self).wf(),
        ensures
            final(self).wf(),
            (final(self)@, r) == apply_outcome(
                old(self)@,
                did_id@,
                update_outcome(lookup(old(self)@, did_id@), caller@, new_document@, now),
            ),
    {
        let outcome = updated_record(self.dids.get(did_id.as_slice()), &caller, new_document, now);
        self.store_outcome(did_id, outcome)
    }

    /// Deactivates a DID. Only its owner may.
    pub fn deactivate_did(&mut self, did_id: Bytes32, caller: Address, now: u64) -> (r: Result<
        (),
        DIDError,
    >)
        requires
            old(self).wf(),
        ensures
            final(self).wf(),
            (final(self)@, r) == apply_outcome(
                old(self)@,
                did_id@,
                deactivate_outcome(lookup(old(self)@, did_id@), caller@, now),
            ),
    {
        let outcome = deactivated_record(self.dids.get(did_id.as_slice()), &caller, now);
        self.store_outcome(did_id, outcome)
    }

    /// Hands a DID to a new owner. Only its owner may, and only while it is active.
    pub fn transfer_did(&mut self, did_id: Bytes32, caller: Address, new_owner: Address, now: u64) -> (r:
        Result<(), DIDError>)
        requires
            old(self).wf(),
        ensures
            final(self).wf(),
            (final(self)@, r) == apply_outcome(
                old(self)@,
                did_id@,
                transfer_outcome(lookup(old(self)@, did_id@), caller@, new_owner@, now),
            ),
    {
        let outcome = transferred_record(self.dids.get(did_id.as_slice()), &caller, new_owner, now);
        self.store_outcome(did_id, outcome)
    }

    /// Whether a DID is stored and active.
    pub fn is_active(&self, did_id: Bytes32) -> (r: bool)
        requires
            self.wf(),
        ensures
            r == is_active_spec(self@, did_id@),
    {
        record_is_active(self.dids.get(did_id.as_slice()))
    }

    fn store_outcome(&mut self, did_id: Bytes32, outcome: Result<DIDRecord, DIDError>) -> (r: Result<
        (),
        DIDError,
    >)
        requires
            old(self).wf(),
        ensures
            final(self).wf(),
            (final(self)@, r) == apply_outcome(old(self)@, did_id@, outcome_view(outcome)),
    {
        match outcome {
            Ok(rec) => {
                self.dids.insert(did_id.as_slice(), rec);
                Ok(())
            },
            Err(e) => Err(e),
        }
    }
}

/// One call that changes the registry, with its arguments as plain values.
pub enum DIDCall {
    Create { owner: Seq<u8>, document: Seq<u8>, now: u64 },
    Update { did_id: Seq<u8>, caller: Seq<u8>, new_document: Seq<u8>, now: u64 },
    Deactivate { did_id: Seq<u8>, caller: Seq<u8>, now: u64 },
    Transfer { did_id: Seq<u8>, caller: Seq<u8>, new_owner: Seq<u8>, now: u64 },
}

/// The registry after one call, as the methods' contracts give it.
pub open spec fn step(s: RegistryState, call: DIDCall) -> RegistryState {
    match call {
        DIDCall::Create { owner, document, now } => create_spec(s, owner, document, now).0,
        DIDCall::Update { did_id, caller, new_document, now } => apply_outcome(
            s,
            did_id,
            update_outcome(lookup(s, did_id), caller, new_document, now),
        ).0,
        DIDCall::Deactivate { did_id, caller, now } => apply_outcome(
            s,
            did_id,
            deactivate_outcome(lookup(s, did_id), caller, now),
        ).0,
        DIDCall::Transfer { did_id, caller, new_owner, now } => apply_outcome(
            s,
            did_id,
            transfer_outcome(lookup(s, did_id), caller, new_owner, now),
        ).0,
    }
}

/// A DID that was just created resolves to its owner and document, with both
/// timestamps at the creation time, and is active.
pub proof fn lemma_resolve_after_create(s: RegistryState, owner: Seq<u8>, document: Seq<u8>, now: u64)
    requires
        create_spec(s, owner, document, now).1 is Ok,
    ensures
        ({
            let (s2, r) = create_spec(s, owner, document, now);
            &&& r == Ok::<Seq<u8>, DIDError>(did_id_for(owner, s.counter, document))
            &&& resolve_spec(s2, r->Ok_0) == Ok::<DIDRecordView, DIDError>(
                DIDRecordView { owner, document, created_at: now, updated_at: now, active: true },
            )
            &&& is_active_spec(s2, r->Ok_0)
        }),
{
}

/// Deactivation is permanent: no call makes a stored, inactive DID active again
/// or removes it.
pub proof fn lemma_deactivation_is_permanent(s: RegistryState, call: DIDCall, did_id: Seq<u8>)
    requires
        s.dids.contains_key(did_id),
        !s.dids[did_id].active,
    ensures
        step(s, call).dids.contains_key(did_id),
        !step(s, call).dids[did_id].active,
{
}

/// A DID that was deactivated refuses updates and transfers.
pub proof fn lemma_inactive_refuses_changes(
    s: RegistryState,
    did_id: Seq<u8>,
    caller: Seq<u8>,
    new_document: Seq<u8>,
    new_owner: Seq<u8>,
    now: u64,
)
    requires
        s.dids.contains_key(did_id),
        !s.dids[did_id].active,
        new_document.len() > 0,
    ensures
        update_outcome(lookup(s, did_id), caller, new_document, now) == Err::<DIDRecordView, DIDError>(
            DIDError::Inactive,
        ),
        transfer_outcome(lookup(s, did_id), caller, new_owner, now) == Err::<DIDRecordView, DIDError>(
            DIDError::Inactive,
        ),
{
}

/// Only the owner changes a DID: an update, deactivation or transfer by anyone
/// else leaves the registry as it was.
pub proof fn lemma_only_owner_changes(s: RegistryState, call: DIDCall)
    requires
        match call {
            DIDCall::Create { .. } => false,
            DIDCall::Update { did_id, caller, .. } => !(s.dids.contains_key(did_id)
                && s.dids[did_id].owner == caller),
            DIDCall::Deactivate { did_id, caller, .. } => !(s.dids.contains_key(did_id)
                && s.dids[did_id].owner == caller),
            DIDCall::Transfer { did_id, caller, .. } => !(s.dids.contains_key(did_id)
                && s.dids[did_id].owner == caller),
        },
    ensures
        step(s, call) == s,
{
}

/// Every call changes at most one record: the one under its own identifier
/// (for a creation, the new identifier). Records never disappear, and their
/// creation time never changes.
pub proof fn lemma_calls_touch_one_record(s: RegistryState, call: DIDCall, other: Seq<u8>)
    requires
        s.dids.contains_key(other),
        match call {
            DIDCall::Create { owner, document, .. } => other != did_id_for(owner, s.counter, document),
            DIDCall::Update { did_id, .. } => other != did_id,
            DIDCall::Deactivate { did_id, .. } => other != did_id,
            DIDCall::Transfer { did_id, .. } => other != did_id,
        },
    ensures
        step(s, call).dids.contains_key(other),
        step(s, call).dids[other] == s.dids[other],
{
}

/// Records stay and keep their creation time across every call.
pub proof fn lemma_created_at_is_kept(s: RegistryState, call: DIDCall, did_id: Seq<u8>)
    requires
        s.dids.contains_key(did_id),
    ensures
        step(s, call).dids.contains_key(did_id),
        step(s, call).dids[did_id].created_at == s.dids[did_id].created_at,
{
}

/// The counter goes up by one exactly when a creation succeeds, and is
/// otherwise unchanged.
pub proof fn lemma_counter_counts_creations(s: RegistryState, call: DIDCall)
    requires
        s.counter < u64::MAX,
    ensures
        step(s, call).counter == s.counter + (match call {
            DIDCall::Create { owner, document, now } => if create_spec(
                s,
                owner,
                document,
                now,
            ).1 is Ok {
                1int
            } else {
                0int
            },
            _ => 0int,
        }),
{
}

/// After a transfer, the previous owner can no longer update the DID, and the
/// new owner can.
pub proof fn lemma_transfer_moves_control(
    s: RegistryState,
    did_id: Seq<u8>,
    caller: Seq<u8>,
    new_owner: Seq<u8>,
    now: u64,
    new_document: Seq<u8>,
    later: u64,
)
    requires
        transfer_outcome(lookup(s, did_id), caller, new_owner, now) is Ok,
        caller != new_owner,
        new_document.len() > 0,
    ensures
        ({
            let s2 = step(s, DIDCall::Transfer { did_id, caller, new_owner, now });
            &&& update_outcome(lookup(s2, did_id), caller, new_document, later) == Err::<
                DIDRecordView,
                DIDError,
            >(DIDError::NotOwner)
            &&& update_outcome(lookup(s2, did_id), new_owner, new_document, later) is Ok
        }),
{
}

/// Whether a call is accepted, as the methods' contracts give it.
pub open spec fn accepted(s: RegistryState, call: DIDCall) -> bool {
    match call {
        DIDCall::Create { owner, document, now } => create_spec(s, owner, document, now).1 is Ok,
        DIDCall::Update { did_id, caller, new_document, now } => update_outcome(
            lookup(s, did_id),
            caller,
            new_document,
            now,
        ) is Ok,
        DIDCall::Deactivate { did_id, caller, now } => deactivate_outcome(
            lookup(s, did_id),
            caller,
            now,
        ) is Ok,
        DIDCall::Transfer { did_id, caller, new_owner, now } => transfer_outcome(
            lookup(s, did_id),
            caller,
            new_owner,
            now,
        ) is Ok,
    }
}

/// A refused call leaves the registry exactly as it was.
pub proof fn lemma_refusals_change_nothing(s: RegistryState, call: DIDCall)
    requires
        !accepted(s, call),
    ensures
        step(s, call) == s,
{
}

/// Creation never overwrites: a record already stored under the derived
/// identifier stays as it was, and the creation is refused with `AlreadyExists`.
pub proof fn lemma_create_never_overwrites(s: RegistryState, owner: Seq<u8>, document: Seq<u8>, now: u64)
    requires
        document.len() > 0,
        s.dids.contains_key(did_id_for(owner, s.counter, document)),
    ensures
        create_spec(s, owner, document, now) == (s, Err::<Seq<u8>, DIDError>(DIDError::AlreadyExists)),
{
}

/// A registry with no DIDs.
pub open spec fn empty_registry() -> RegistryState {
    RegistryState { dids: Map::empty(), counter: 0 }
}

/// The registry after a sequence of calls, made in order.
pub open spec fn run(s: RegistryState, calls: Seq<DIDCall>) -> RegistryState
    decreases calls.len(),
{
    if calls.len() == 0 {
        s
    } else {
        run(step(s, calls[0]), calls.drop_first())
    }
}

/// Every creation among the calls is by an owner whose strkey has the length
/// of a real one.
pub open spec fn creations_by_strkeys(calls: Seq<DIDCall>) -> bool {
    forall|i: int|
        0 <= i < calls.len() ==> (#[trigger] calls[i] matches DIDCall::Create { owner, .. }
            ==> strkey_sized(owner))
}

/// Every stored identifier was derived, for a strkey-sized owner, at a counter
/// value below the current one.
pub open spec fn ids_derived_below(s: RegistryState) -> bool {
    forall|id: Seq<u8>|
        #[trigger] s.dids.contains_key(id) ==> exists|o: Seq<u8>, c: u64, d: Seq<u8>|
            strkey_sized(o) && c < s.counter && id == #[trigger] did_id_for(o, c, d)
}

/// If SHA-256 has no collisions, the identifier that the counter's current
/// value derives for a strkey-sized owner is not yet stored.
pub proof fn lemma_derived_id_is_fresh(s: RegistryState, owner: Seq<u8>, document: Seq<u8>)
    requires
        ids_derived_below(s),
        sha256_collision_free(),
        strkey_sized(owner),
    ensures
        !s.dids.contains_key(did_id_for(owner, s.counter, document)),
{
    let id = did_id_for(owner, s.counter, document);
    if s.dids.contains_key(id) {
        let (o, c, d) = choose|o: Seq<u8>, c: u64, d: Seq<u8>|
            strkey_sized(o) && c < s.counter && id == #[trigger] did_id_for(o, c, d);
        assert(sha256_digest(did_preimage(o, c, d)) == sha256_digest(did_preimage(owner, s.counter, document)));
        lemma_counter_fixed_by_encoding(o, c, d, owner, s.counter, document);
    }
}

/// Every call whose creation is by a strkey-sized owner keeps each stored
/// identifier derived below the counter.
pub proof fn lemma_ids_derived_below_kept(s: RegistryState, call: DIDCall)
    requires
        ids_derived_below(s),
        s.counter < u64::MAX,
        call matches DIDCall::Create { owner, .. } ==> strkey_sized(owner),
    ensures
        ids_derived_below(step(s, call)),
        step(s, call).counter <= s.counter + 1,
{
    let s2 = step(s, call);
    assert forall|id: Seq<u8>| #[trigger] s2.dids.contains_key(id) implies exists|
        o: Seq<u8>,
        c: u64,
        d: Seq<u8>,
    | strkey_sized(o) && c < s2.counter && id == #[trigger] did_id_for(o, c, d) by {
        if s.dids.contains_key(id) {
            let (o, c, d) = choose|o: Seq<u8>, c: u64, d: Seq<u8>|
                strkey_sized(o) && c < s.counter && id == #[trigger] did_id_for(o, c, d);
            assert(strkey_sized(o) && c < s2.counter && id == did_id_for(o, c, d));
        } else {
            match call {
                DIDCall::Create { owner, document, now } => {
                    assert(strkey_sized(owner) && s.counter < s2.counter && id == did_id_for(
                        owner,
                        s.counter,
                        document,
                    ));
                },
                _ => {},
            }
        }
    }
}

/// Stored identifiers stay derived below the counter along a sequence of calls
/// whose creations are by strkey-sized owners, and the counter grows by at most
/// one per call.
pub proof fn lemma_run_keeps_ids_derived_below(s: RegistryState, calls: Seq<DIDCall>)
    requires
        ids_derived_below(s),
        creations_by_strkeys(calls),
        s.counter + calls.len() <= u64::MAX,
    ensures
        ids_derived_below(run(s, calls)),
        run(s, calls).counter <= s.counter + calls.len(),
    decreases calls.len(),
{
    if calls.len() > 0 {
        let c0 = calls[0];
        assert(c0 matches DIDCall::Create { owner, .. } ==> strkey_sized(owner));
        lemma_ids_derived_below_kept(s, c0);
        let rest = calls.drop_first();
        assert forall|i: int| 0 <= i < rest.len() implies (#[trigger] rest[i] matches DIDCall::Create {
            owner,
            ..
        } ==> strkey_sized(owner)) by {
            assert(rest[i] == calls[i + 1]);
        }
        lemma_run_keeps_ids_derived_below(step(s, c0), rest);
    }
}

/// Identifiers are fresh: from a new registry, after any calls whose creations
/// are by strkey-sized owners, a creation by a strkey-sized owner with a
/// non-empty document succeeds, under an identifier not stored before, and
/// stores the new record there (given that SHA-256 has no collisions).
pub proof fn lemma_create_succeeds_after_any_run(
    calls: Seq<DIDCall>,
    owner: Seq<u8>,
    document: Seq<u8>,
    now: u64,
)
    requires
        sha256_collision_free(),
        creations_by_strkeys(calls),
        calls.len() < u64::MAX,
        strkey_sized(owner),
        document.len() > 0,
    ensures
        ({
            let s = run(empty_registry(), calls);
            let id = did_id_for(owner, s.counter, document);
            &&& s.counter < u64::MAX
            &&& !s.dids.contains_key(id)
            &&& create_spec(s, owner, document, now) == (
                RegistryState {
                    dids: s.dids.insert(
                        id,
                        DIDRecordView {
                            owner,
                            document,
                            created_at: now,
                            updated_at: now,
                            active: true,
                        },
                    ),
                    counter: (s.counter + 1) as u64,
                },
                Ok::<Seq<u8>, DIDError>(id),
            )
        }),
{
    lemma_run_keeps_ids_derived_below(empty_registry(), calls);
    let s = run(empty_registry(), calls);
    lemma_derived_id_is_fresh(s, owner, document);
}

/// Resolving gives exactly the stored record, and `NotFound` where none is
/// stored; after an accepted deactivation the DID resolves as inactive.
pub proof fn lemma_resolve_returns_the_stored_record(
    s: RegistryState,
    did_id: Seq<u8>,
    caller: Seq<u8>,
    now: u64,
)
    ensures
        s.dids.contains_key(did_id) ==> resolve_spec(s, did_id) == Ok::<DIDRecordView, DIDError>(
            s.dids[did_id],
        ),
        !s.dids.contains_key(did_id) ==> resolve_spec(s, did_id) == Err::<DIDRecordView, DIDError>(
            DIDError::NotFound,
        ),
        deactivate_outcome(lookup(s, did_id), caller, now) is Ok ==> ({
            let s2 = step(s, DIDCall::Deactivate { did_id, caller, now });
            &&& resolve_spec(s2, did_id) is Ok
            &&& !resolve_spec(s2, did_id)->Ok_0.active
            &&& !is_active_spec(s2, did_id)
        }),
{
}

/// An accepted update replaces the document and stamps the update time, and
/// keeps everything else: the owner, the creation time, and the DID active.
/// The owner can go on updating it afterwards.
pub proof fn lemma_update_changes_only_the_document(
    r: DIDRecordView,
    caller: Seq<u8>,
    new_document: Seq<u8>,
    now: u64,
    next_document: Seq<u8>,
    later: u64,
)
    requires
        update_outcome(Some(r), caller, new_document, now) is Ok,
    ensures
        ({
            let u = update_outcome(Some(r), caller, new_document, now)->Ok_0;
            &&& u.document == new_document
            &&& u.updated_at == now
            &&& u.owner == r.owner
            &&& u.owner == caller
            &&& u.created_at == r.created_at
            &&& u.active
            &&& r.active
            &&& (next_document.len() > 0 ==> update_outcome(Some(u), caller, next_document, later) is Ok)
        }),
{
}

/// An accepted transfer hands the DID to the new owner and stamps the
/// transfer time, and keeps everything else: the document, the creation time,
/// and the DID active.
pub proof fn lemma_transfer_changes_only_the_owner(
    r: DIDRecordView,
    caller: Seq<u8>,
    new_owner: Seq<u8>,
    now: u64,
)
    requires
        transfer_outcome(Some(r), caller, new_owner, now) is Ok,
    ensures
        ({
            let t = transfer_outcome(Some(r), caller, new_owner, now)->Ok_0;
            &&& t.owner == new_owner
            &&& t.updated_at == now
            &&& t.document == r.document
            &&& t.created_at == r.created_at
            &&& t.active
            &&& r.active
            &&& r.owner == caller
        }),
{
}

/// An accepted deactivation clears the active flag and stamps the time, and
/// keeps the owner, the document and the creation time.
pub proof fn lemma_deactivate_changes_only_the_flag(r: DIDRecordView, caller: Seq<u8>, now: u64)
    requires
        deactivate_outcome(Some(r), caller, now) is Ok,
    ensures
        ({
            let d = deactivate_outcome(Some(r), caller, now)->Ok_0;
            &&& !d.active
            &&& d.updated_at == now
            &&& d.owner == r.owner
            &&& d.owner == caller
            &&& d.document == r.document
            &&& d.created_at == r.created_at
        }),
{
}

/// A creation that is accepted stores exactly what it was given: the owner
/// and document, both timestamps at the creation time, and the DID active.
pub proof fn lemma_created_record_is_built_from_arguments(
    already_stored: bool,
    owner: Seq<u8>,
    document: Seq<u8>,
    now: u64,
)
    ensures
        create_outcome(already_stored, owner, document, now) is Ok <==> (!already_stored
            && document.len() > 0),
        create_outcome(already_stored, owner, document, now) is Ok ==> ({
            let c = create_outcome(already_stored, owner, document, now)->Ok_0;
            &&& c.owner == owner
            &&& c.document == document
            &&& c.created_at == now
            &&& c.updated_at == now
            &&& c.active
        }),
{
}

} // verus!
