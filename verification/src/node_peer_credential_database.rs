//! Peer credentials: their stored form, their lookups and the principals that they stand for.

use vstd::prelude::*;

use crate::database::{
    DatabaseCommitDisposition, DatabaseError, DatabaseResult, DatabaseResultView, DatabaseRevision,
    DatabaseWriteResult, DatabaseWriteResultView, StoredView,
};
use crate::identity::{
    id_of, law_digest_text, law_identity_text, ControllerId, CredentialId, Id, InterfaceError,
    NodeId, Sha256Digest, UnixMilliseconds,
};
use crate::sequence::{
    copy_all, copy_optional, outcome, same_all, same_optional, viewed, views, Valued,
};
use crate::text::{lower_hex, text_is};

verus! {

/// The most credentials that one lookup may return: one, and a second that shows a duplicate. The
/// bound is this library's own choice.
pub const MAX_PEER_CREDENTIAL_LOOKUP_RESULTS: usize = 2;

/// The most buckets that are ever searched.
pub const MAXIMUM_PERSISTED_PEER_CREDENTIALS: usize = 4096;

/// Names the stable failures of credential persistence.
#[derive(Clone, Copy, Debug, PartialEq, Eq, Structural)]
pub enum AuthenticationStoreError {
    Conflict,
    Corrupt,
    Unavailable,
}

/// Which of two nodes presents the certificate to which.
#[derive(Clone, Copy, Debug, PartialEq, Eq, Structural)]
pub enum PeerCredentialDirection {
    ChildToMain,
    MainToChild,
}

/// Whether one credential was approved.
#[derive(Clone, Copy, Debug, PartialEq, Eq, Structural)]
pub enum PeerCredentialState {
    Pending,
    Active,
}

/// One non-secret peer credential.
#[derive(Clone, Copy, Debug, PartialEq, Eq, Structural)]
pub struct PeerCredential {
    pub credential_id: CredentialId,
    pub peer_leaf_sha256: Sha256Digest,
    pub local_node_id: NodeId,
    pub peer_node_id: NodeId,
    pub direction: PeerCredentialDirection,
    pub state: PeerCredentialState,
    pub issued_at: UnixMilliseconds,
    pub expires_at: UnixMilliseconds,
    pub revoked_at: Option<UnixMilliseconds>,
    pub rotated_to: Option<CredentialId>,
}

/// A credential that expires after it was issued.
pub open spec fn credential_valid(credential: PeerCredential) -> bool {
    credential.issued_at.value < credential.expires_at.value
}

impl PeerCredential {
    /// Keeps one credential that expires after it was issued; that rule is this library's own
    /// choice.
    pub fn new_with_state(credential: PeerCredential) -> (result: Result<Self, InterfaceError>)
        ensures
            result == (if credential_valid(credential) {
                Ok::<PeerCredential, InterfaceError>(credential)
            } else {
                Err(InterfaceError::InvalidCredential)
            }),
    {
        if credential.expires_at.value <= credential.issued_at.value {
            return Err(InterfaceError::InvalidCredential);
        }
        Ok(credential)
    }
}

/// One credential at the revision of its bucket.
#[derive(Clone, Copy, Debug, PartialEq, Eq, Structural)]
pub struct VersionedPeerCredential {
    pub credential: PeerCredential,
    pub revision: u64,
}

/// The stored name of one direction.
pub open spec fn peer_credential_direction_text(value: PeerCredentialDirection) -> Seq<char> {
    match value {
        PeerCredentialDirection::ChildToMain => "child_to_main"@,
        PeerCredentialDirection::MainToChild => "main_to_child"@,
    }
}

/// Returns the stored name of one direction.
pub fn peer_credential_direction_name(value: PeerCredentialDirection) -> (name: &'static str)
    ensures
        name@ == peer_credential_direction_text(value),
{
    match value {
        PeerCredentialDirection::ChildToMain => "child_to_main",
        PeerCredentialDirection::MainToChild => "main_to_child",
    }
}

/// The direction of one stored name.
pub open spec fn peer_credential_direction_of(
    value: Seq<char>,
) -> Result<PeerCredentialDirection, AuthenticationStoreError> {
    if value == "child_to_main"@ {
        Ok(PeerCredentialDirection::ChildToMain)
    } else if value == "main_to_child"@ {
        Ok(PeerCredentialDirection::MainToChild)
    } else {
        Err(AuthenticationStoreError::Corrupt)
    }
}

/// Returns the direction of one stored name without a default.
pub fn parse_peer_credential_direction(
    value: &str,
) -> (parsed: Result<PeerCredentialDirection, AuthenticationStoreError>)
    ensures
        parsed == peer_credential_direction_of(value@),
{
    if text_is(value, "child_to_main") {
        Ok(PeerCredentialDirection::ChildToMain)
    } else if text_is(value, "main_to_child") {
        Ok(PeerCredentialDirection::MainToChild)
    } else {
        Err(AuthenticationStoreError::Corrupt)
    }
}

proof fn lemma_peer_credential_direction(value: PeerCredentialDirection)
    ensures
        peer_credential_direction_of(peer_credential_direction_text(value)) == Ok::<PeerCredentialDirection, AuthenticationStoreError>(value),
{
    reveal_strlit("child_to_main");
    assert("child_to_main"@.len() == 13);
    reveal_strlit("main_to_child");
    assert("main_to_child"@.len() == 13);
    assert("main_to_child"@[0] != "child_to_main"@[0]);
}

/// The stored name of one approval state.
pub open spec fn peer_credential_state_text(value: PeerCredentialState) -> Seq<char> {
    match value {
        PeerCredentialState::Pending => "pending"@,
        PeerCredentialState::Active => "active"@,
    }
}

/// Returns the stored name of one approval state.
pub fn peer_credential_state_name(value: PeerCredentialState) -> (name: &'static str)
    ensures
        name@ == peer_credential_state_text(value),
{
    match value {
        PeerCredentialState::Pending => "pending",
        PeerCredentialState::Active => "active",
    }
}

/// The approval state of one stored name.
pub open spec fn peer_credential_state_of(
    value: Seq<char>,
) -> Result<PeerCredentialState, AuthenticationStoreError> {
    if value == "pending"@ {
        Ok(PeerCredentialState::Pending)
    } else if value == "active"@ {
        Ok(PeerCredentialState::Active)
    } else {
        Err(AuthenticationStoreError::Corrupt)
    }
}

/// Returns the approval state of one stored name without a default.
pub fn parse_peer_credential_state(
    value: &str,
) -> (parsed: Result<PeerCredentialState, AuthenticationStoreError>)
    ensures
        parsed == peer_credential_state_of(value@),
{
    if text_is(value, "pending") {
        Ok(PeerCredentialState::Pending)
    } else if text_is(value, "active") {
        Ok(PeerCredentialState::Active)
    } else {
        Err(AuthenticationStoreError::Corrupt)
    }
}

proof fn lemma_peer_credential_state(value: PeerCredentialState)
    ensures
        peer_credential_state_of(peer_credential_state_text(value)) == Ok::<PeerCredentialState, AuthenticationStoreError>(value),
{
    reveal_strlit("pending");
    assert("pending"@.len() == 7);
    reveal_strlit("active");
    assert("active"@.len() == 6);
}

/// Stores one closed non-secret peer-credential lifecycle inside its leaf bucket.
#[derive(Debug)]
pub struct PeerCredentialDatabaseRecord {
    pub credential_id: String,
    pub local_node_id: String,
    pub peer_node_id: String,
    pub direction: String,
    pub state: String,
    pub issued_at_unix_milliseconds: u64,
    pub expires_at_unix_milliseconds: u64,
    pub revoked_at_unix_milliseconds: Option<u64>,
    pub rotated_to: Option<String>,
}

/// What one [`PeerCredentialDatabaseRecord`] holds.
pub struct PeerCredentialDatabaseRecordView {
    pub credential_id: Seq<char>,
    pub local_node_id: Seq<char>,
    pub peer_node_id: Seq<char>,
    pub direction: Seq<char>,
    pub state: Seq<char>,
    pub issued_at_unix_milliseconds: u64,
    pub expires_at_unix_milliseconds: u64,
    pub revoked_at_unix_milliseconds: Option<u64>,
    pub rotated_to: Option<Seq<char>>,
}

impl View for PeerCredentialDatabaseRecord {
    type V = PeerCredentialDatabaseRecordView;

    open spec fn view(&self) -> PeerCredentialDatabaseRecordView {
        PeerCredentialDatabaseRecordView {
            credential_id: self.credential_id@,
            local_node_id: self.local_node_id@,
            peer_node_id: self.peer_node_id@,
            direction: self.direction@,
            state: self.state@,
            issued_at_unix_milliseconds: self.issued_at_unix_milliseconds,
            expires_at_unix_milliseconds: self.expires_at_unix_milliseconds,
            revoked_at_unix_milliseconds: self.revoked_at_unix_milliseconds,
            rotated_to: viewed(self.rotated_to),
        }
    }
}

impl Valued for PeerCredentialDatabaseRecord {
    fn copy(&self) -> (copy: Self) {
        PeerCredentialDatabaseRecord {
            credential_id: self.credential_id.copy(),
            local_node_id: self.local_node_id.copy(),
            peer_node_id: self.peer_node_id.copy(),
            direction: self.direction.copy(),
            state: self.state.copy(),
            issued_at_unix_milliseconds: self.issued_at_unix_milliseconds,
            expires_at_unix_milliseconds: self.expires_at_unix_milliseconds,
            revoked_at_unix_milliseconds: self.revoked_at_unix_milliseconds,
            rotated_to: copy_optional(&self.rotated_to),
        }
    }

    fn same(&self, other: &Self) -> (same: bool) {
        self.credential_id.same(&other.credential_id)
            && self.local_node_id.same(&other.local_node_id)
            && self.peer_node_id.same(&other.peer_node_id)
            && self.direction.same(&other.direction)
            && self.state.same(&other.state)
            && self.issued_at_unix_milliseconds == other.issued_at_unix_milliseconds
            && self.expires_at_unix_milliseconds == other.expires_at_unix_milliseconds
            && self.revoked_at_unix_milliseconds == other.revoked_at_unix_milliseconds
            && same_optional(&self.rotated_to, &other.rotated_to)
    }
}

/// Stores one exact leaf bucket in the dedicated peer-credential collection.
#[derive(Debug)]
pub struct PeerCredentialDatabaseBucket {
    pub peer_leaf_sha256: String,
    pub credentials: Vec<PeerCredentialDatabaseRecord>,
}

/// What one [`PeerCredentialDatabaseBucket`] holds.
pub struct PeerCredentialDatabaseBucketView {
    pub peer_leaf_sha256: Seq<char>,
    pub credentials: Seq<PeerCredentialDatabaseRecordView>,
}

impl View for PeerCredentialDatabaseBucket {
    type V = PeerCredentialDatabaseBucketView;

    open spec fn view(&self) -> PeerCredentialDatabaseBucketView {
        PeerCredentialDatabaseBucketView {
            peer_leaf_sha256: self.peer_leaf_sha256@,
            credentials: views(self.credentials@),
        }
    }
}

impl Valued for PeerCredentialDatabaseBucket {
    fn copy(&self) -> (copy: Self) {
        PeerCredentialDatabaseBucket {
            peer_leaf_sha256: self.peer_leaf_sha256.copy(),
            credentials: copy_all(&self.credentials),
        }
    }

    fn same(&self, other: &Self) -> (same: bool) {
        self.peer_leaf_sha256.same(&other.peer_leaf_sha256)
            && same_all(&self.credentials, &other.credentials)
    }
}

/// The milliseconds of one optional time.
pub open spec fn optional_value(time: Option<UnixMilliseconds>) -> Option<u64> {
    match time {
        Some(time) => Some(time.value),
        None => None,
    }
}

/// The text of one optional credential.
pub open spec fn optional_text(credential_id: Option<CredentialId>) -> Option<Seq<char>> {
    match credential_id {
        Some(credential_id) => Some(credential_id.text()),
        None => None,
    }
}

/// The record of one credential.
pub open spec fn credential_record(credential: PeerCredential) -> PeerCredentialDatabaseRecordView {
    PeerCredentialDatabaseRecordView {
        credential_id: credential.credential_id.text(),
        local_node_id: credential.local_node_id.text(),
        peer_node_id: credential.peer_node_id.text(),
        direction: peer_credential_direction_text(credential.direction),
        state: peer_credential_state_text(credential.state),
        issued_at_unix_milliseconds: credential.issued_at.value,
        expires_at_unix_milliseconds: credential.expires_at.value,
        revoked_at_unix_milliseconds: optional_value(credential.revoked_at),
        rotated_to: optional_text(credential.rotated_to),
    }
}

/// The bucket of one credential.
pub open spec fn credential_bucket(credential: PeerCredential) -> PeerCredentialDatabaseBucketView {
    PeerCredentialDatabaseBucketView {
        peer_leaf_sha256: credential.peer_leaf_sha256.text(),
        credentials: seq![credential_record(credential)],
    }
}

/// Projects one validated peer credential into the closed persistence schema.
pub fn database_bucket(credential: &PeerCredential) -> (bucket: PeerCredentialDatabaseBucket)
    ensures
        bucket@ == credential_bucket(*credential),
{
    let record = PeerCredentialDatabaseRecord {
        credential_id: credential.credential_id.to_text(),
        local_node_id: credential.local_node_id.to_text(),
        peer_node_id: credential.peer_node_id.to_text(),
        direction: peer_credential_direction_name(credential.direction).to_owned(),
        state: peer_credential_state_name(credential.state).to_owned(),
        issued_at_unix_milliseconds: credential.issued_at.value,
        expires_at_unix_milliseconds: credential.expires_at.value,
        revoked_at_unix_milliseconds: match credential.revoked_at {
            Some(time) => Some(time.value),
            None => None,
        },
        rotated_to: match credential.rotated_to {
            Some(credential_id) => Some(credential_id.to_text()),
            None => None,
        },
    };
    let ghost kept = record@;
    let mut credentials: Vec<PeerCredentialDatabaseRecord> = Vec::new();
    credentials.push(record);
    assert(views(credentials@) =~= seq![kept]);
    PeerCredentialDatabaseBucket {
        peer_leaf_sha256: credential.peer_leaf_sha256.to_text(),
        credentials,
    }
}

/// The credential of one record under its bucket's leaf.
pub open spec fn record_credential(
    record: PeerCredentialDatabaseRecordView,
    peer_leaf_sha256: Sha256Digest,
) -> Result<PeerCredential, AuthenticationStoreError> {
    match (
        peer_credential_direction_of(record.direction),
        peer_credential_state_of(record.state),
    ) {
        (Ok(direction), Ok(state)) if lower_hex(record.credential_id, 32) && lower_hex(
            record.local_node_id,
            32,
        ) && lower_hex(record.peer_node_id, 32) && (record.rotated_to matches Some(text)
            ==> lower_hex(text, 32)) && record.issued_at_unix_milliseconds
            < record.expires_at_unix_milliseconds => Ok(
            PeerCredential {
                credential_id: id_of(record.credential_id),
                peer_leaf_sha256,
                local_node_id: id_of(record.local_node_id),
                peer_node_id: id_of(record.peer_node_id),
                direction,
                state,
                issued_at: UnixMilliseconds { value: record.issued_at_unix_milliseconds },
                expires_at: UnixMilliseconds { value: record.expires_at_unix_milliseconds },
                revoked_at: match record.revoked_at_unix_milliseconds {
                    Some(value) => Some(UnixMilliseconds { value }),
                    None => None,
                },
                rotated_to: match record.rotated_to {
                    Some(text) => Some(id_of(text)),
                    None => None,
                },
            },
        ),
        _ => Err(AuthenticationStoreError::Corrupt),
    }
}

fn credential_from_record(
    record: &PeerCredentialDatabaseRecord,
    peer_leaf_sha256: Sha256Digest,
) -> (credential: Result<PeerCredential, AuthenticationStoreError>)
    ensures
        credential == record_credential(record@, peer_leaf_sha256),
{
    let direction = parse_peer_credential_direction(record.direction.as_str())?;
    let state = parse_peer_credential_state(record.state.as_str())?;
    match (
        Id::parse(record.credential_id.as_str()),
        Id::parse(record.local_node_id.as_str()),
        Id::parse(record.peer_node_id.as_str()),
    ) {
        (Ok(credential_id), Ok(local_node_id), Ok(peer_node_id)) => {
            let rotated_to: Option<CredentialId> = match &record.rotated_to {
                Some(text) => match Id::parse(text.as_str()) {
                    Ok(credential_id) => Some(credential_id),
                    Err(_) => {
                        return Err(AuthenticationStoreError::Corrupt);
                    },
                },
                None => None,
            };
            let revoked_at = match record.revoked_at_unix_milliseconds {
                Some(value) => Some(UnixMilliseconds::new(value)),
                None => None,
            };
            match PeerCredential::new_with_state(
                PeerCredential {
                    credential_id,
                    peer_leaf_sha256,
                    local_node_id,
                    peer_node_id,
                    direction,
                    state,
                    issued_at: UnixMilliseconds::new(record.issued_at_unix_milliseconds),
                    expires_at: UnixMilliseconds::new(record.expires_at_unix_milliseconds),
                    revoked_at,
                    rotated_to,
                },
            ) {
                Ok(credential) => Ok(credential),
                Err(_) => Err(AuthenticationStoreError::Corrupt),
            }
        },
        _ => Err(AuthenticationStoreError::Corrupt),
    }
}

/// A bucket of the expected leaf, at a revision, with one credential or a duplicate, all readable.
pub open spec fn bucket_valid(
    bucket: PeerCredentialDatabaseBucketView,
    revision: u64,
    expected: Sha256Digest,
) -> bool {
    &&& lower_hex(bucket.peer_leaf_sha256, 64)
    &&& revision != 0
    &&& Sha256Digest::of_text(bucket.peer_leaf_sha256) == expected
    &&& 0 < bucket.credentials.len() <= MAX_PEER_CREDENTIAL_LOOKUP_RESULTS
    &&& forall|i: int|
        0 <= i < bucket.credentials.len() ==> record_credential(
            #[trigger] bucket.credentials[i],
            expected,
        ) is Ok
}

/// The credentials of one bucket, or the corruption of what is stored.
pub open spec fn bucket_credentials(
    bucket: PeerCredentialDatabaseBucketView,
    revision: u64,
    expected: Sha256Digest,
) -> Result<Seq<VersionedPeerCredential>, AuthenticationStoreError> {
    if bucket_valid(bucket, revision, expected) {
        Ok(
            Seq::new(
                bucket.credentials.len(),
                |i: int|
                    VersionedPeerCredential {
                        credential: record_credential(bucket.credentials[i], expected)->Ok_0,
                        revision,
                    },
            ),
        )
    } else {
        Err(AuthenticationStoreError::Corrupt)
    }
}

/// One outcome of credentials by view.
pub open spec fn outcome_credentials(
    result: Result<Vec<VersionedPeerCredential>, AuthenticationStoreError>,
) -> Result<Seq<VersionedPeerCredential>, AuthenticationStoreError> {
    match result {
        Ok(credentials) => Ok(credentials@),
        Err(error) => Err(error),
    }
}

/// Reconstructs one bounded closed bucket and rejects mismatched or incoherent persistence.
#[verifier::loop_isolation(false)]
pub fn peer_credentials(
    bucket: &PeerCredentialDatabaseBucket,
    revision: u64,
    expected_peer_leaf_sha256: &Sha256Digest,
) -> (credentials: Result<Vec<VersionedPeerCredential>, AuthenticationStoreError>)
    ensures
        outcome_credentials(credentials) == bucket_credentials(
            bucket@,
            revision,
            *expected_peer_leaf_sha256,
        ),
{
    let peer_leaf_sha256 = match Sha256Digest::parse(bucket.peer_leaf_sha256.as_str()) {
        Ok(digest) => digest,
        Err(_) => {
            return Err(AuthenticationStoreError::Corrupt);
        },
    };
    let count: usize = bucket.credentials.len();
    if revision == 0 || peer_leaf_sha256 != *expected_peer_leaf_sha256 || count == 0 || count
        > MAX_PEER_CREDENTIAL_LOOKUP_RESULTS {
        return Err(AuthenticationStoreError::Corrupt);
    }
    let ghost records = bucket@.credentials;
    let mut credentials: Vec<VersionedPeerCredential> = Vec::new();
    let mut i: usize = 0;
    while i < count
        invariant
            i <= count == bucket.credentials@.len() == records.len(),
            records == views(bucket.credentials@),
            credentials@.len() == i,
            forall|j: int|
                0 <= j < i ==> record_credential(#[trigger] records[j], peer_leaf_sha256) == Ok::<
                    PeerCredential,
                    AuthenticationStoreError,
                >(credentials@[j].credential) && credentials@[j].revision == revision,
        decreases count - i,
    {
        assert(records[i as int] == bucket.credentials@[i as int]@);
        match credential_from_record(&bucket.credentials[i], peer_leaf_sha256) {
            Ok(credential) => {
                credentials.push(VersionedPeerCredential { credential, revision });
            },
            Err(error) => {
                assert(record_credential(records[i as int], peer_leaf_sha256) is Err);
                return Err(error);
            },
        }
        i += 1;
    }
    assert(bucket_valid(bucket@, revision, peer_leaf_sha256));
    assert(credentials@ =~= bucket_credentials(bucket@, revision, peer_leaf_sha256)->Ok_0);
    Ok(credentials)
}

/// Reading the bucket of one valid credential at any revision gives exactly that credential.
pub proof fn law_credential_round_trip(credential: PeerCredential, revision: u64)
    requires
        credential_valid(credential),
        revision > 0,
    ensures
        bucket_credentials(
            credential_bucket(credential),
            revision,
            credential.peer_leaf_sha256,
        ) == Ok::<Seq<VersionedPeerCredential>, AuthenticationStoreError>(
            seq![VersionedPeerCredential { credential, revision }],
        ),
{
    lemma_peer_credential_direction(credential.direction);
    lemma_peer_credential_state(credential.state);
    law_digest_text(credential.peer_leaf_sha256);
    law_identity_text(credential.credential_id);
    law_identity_text(credential.local_node_id);
    law_identity_text(credential.peer_node_id);
    if let Some(credential_id) = credential.rotated_to {
        law_identity_text(credential_id);
    }
    let bucket = credential_bucket(credential);
    assert(record_credential(bucket.credentials[0], credential.peer_leaf_sha256) == Ok::<
        PeerCredential,
        AuthenticationStoreError,
    >(credential));
    assert(bucket_valid(bucket, revision, credential.peer_leaf_sha256));
    assert(bucket_credentials(bucket, revision, credential.peer_leaf_sha256)->Ok_0
        =~= seq![VersionedPeerCredential { credential, revision }]);
}

// ---------------------------------------------------------------------------
// Lookups and changes
// ---------------------------------------------------------------------------

/// The persistence failure of one database failure.
pub open spec fn store_failure(error: DatabaseError) -> AuthenticationStoreError {
    match error {
        DatabaseError::Conflict { .. } | DatabaseError::IdempotencyConflict => {
            AuthenticationStoreError::Conflict
        },
        DatabaseError::Corrupt => AuthenticationStoreError::Corrupt,
        _ => AuthenticationStoreError::Unavailable,
    }
}

/// Converts database outcomes to the fixed redacted persistence surface.
pub fn authentication_store_error(error: DatabaseError) -> (mapped: AuthenticationStoreError)
    ensures
        mapped == store_failure(error),
{
    match error {
        DatabaseError::Conflict { .. } => AuthenticationStoreError::Conflict,
        DatabaseError::IdempotencyConflict => AuthenticationStoreError::Conflict,
        DatabaseError::Corrupt => AuthenticationStoreError::Corrupt,
        _ => AuthenticationStoreError::Unavailable,
    }
}

/// The answer to one query of the credential collection.
pub type BucketResult = Result<DatabaseResult<PeerCredentialDatabaseBucket>, DatabaseError>;

/// The view of one [`BucketResult`].
pub type BucketResultView = Result<
    DatabaseResultView<PeerCredentialDatabaseBucketView>,
    DatabaseError,
>;

/// The credentials that the query of one leaf found.
pub open spec fn bucket_read(result: BucketResultView, peer_leaf_sha256: Sha256Digest) -> Result<
    Seq<VersionedPeerCredential>,
    AuthenticationStoreError,
> {
    match result {
        Ok(DatabaseResultView::Record(stored)) => bucket_credentials(
            stored.value,
            stored.revision,
            peer_leaf_sha256,
        ),
        Ok(DatabaseResultView::Records(_)) => Err(AuthenticationStoreError::Corrupt),
        Err(DatabaseError::NotFound { .. }) => Ok(Seq::empty()),
        Err(error) => Err(store_failure(error)),
    }
}

/// Reads and reconstructs one exact digest bucket without scanning the collection.
pub fn read_bucket(result: &BucketResult, peer_leaf_sha256: &Sha256Digest) -> (credentials: Result<
    Vec<VersionedPeerCredential>,
    AuthenticationStoreError,
>)
    ensures
        outcome_credentials(credentials) == bucket_read(outcome(*result), *peer_leaf_sha256),
{
    match result {
        Ok(DatabaseResult::Record(stored)) => peer_credentials(
            &stored.value,
            stored.revision,
            peer_leaf_sha256,
        ),
        Ok(DatabaseResult::Records(_)) => Err(AuthenticationStoreError::Corrupt),
        Err(error) => match error {
            DatabaseError::NotFound { .. } => {
                let none: Vec<VersionedPeerCredential> = Vec::new();
                assert(none@ =~= Seq::<VersionedPeerCredential>::empty());
                Ok(none)
            },
            _ => Err(authentication_store_error(*error)),
        },
    }
}

/// The one credential of a leaf; a duplicate is a corruption.
pub open spec fn exactly_one(
    credentials: Result<Seq<VersionedPeerCredential>, AuthenticationStoreError>,
) -> Result<Option<VersionedPeerCredential>, AuthenticationStoreError> {
    match credentials {
        Err(error) => Err(error),
        Ok(credentials) => if credentials.len() > 1 {
            Err(AuthenticationStoreError::Corrupt)
        } else if credentials.len() == 1 {
            Ok(Some(credentials[0]))
        } else {
            Ok(None)
        },
    }
}

/// Adapts the credential collection to lookups and transactions; what the database answered is
/// handed in, and what it is to write is handed out.
#[derive(Clone, Copy, Debug, PartialEq, Eq, Structural)]
pub struct DatabasePeerCredentialStore {}

impl DatabasePeerCredentialStore {
    /// Returns the one exact digest record required by approval composition.
    pub fn exact_credential(
        result: &BucketResult,
        peer_leaf_sha256: &Sha256Digest,
    ) -> (credential: Result<
        Option<VersionedPeerCredential>,
        AuthenticationStoreError,
    >)
        ensures
            credential == exactly_one(bucket_read(outcome(*result), *peer_leaf_sha256)),
    {
        let records = read_bucket(result, peer_leaf_sha256)?;
        if records.len() > 1 {
            return Err(AuthenticationStoreError::Corrupt);
        }
        if records.len() == 1 {
            Ok(Some(records[0]))
        } else {
            Ok(None)
        }
    }
}

/// A lookup within the bound that every caller states.
pub open spec fn lookup_bounded(maximum_results: usize) -> bool {
    0 < maximum_results <= MAX_PEER_CREDENTIAL_LOOKUP_RESULTS
}

/// What matching one leaf gives.
pub open spec fn leaf_matched(
    result: BucketResultView,
    peer_leaf_sha256: Sha256Digest,
    maximum_results: usize,
) -> Result<Seq<VersionedPeerCredential>, AuthenticationStoreError> {
    if !lookup_bounded(maximum_results) {
        Err(AuthenticationStoreError::Corrupt)
    } else {
        match bucket_read(result, peer_leaf_sha256) {
            Err(error) => Err(error),
            Ok(credentials) => if credentials.len() > maximum_results {
                Err(AuthenticationStoreError::Corrupt)
            } else {
                Ok(credentials)
            },
        }
    }
}

impl DatabasePeerCredentialStore {
    /// Returns zero, one, or the duplicate sentinel from one exact bounded digest bucket.
    pub fn matching_peer_credentials(
        result: &BucketResult,
        peer_leaf_sha256: &Sha256Digest,
        maximum_results: usize,
    ) -> (credentials: Result<Vec<VersionedPeerCredential>, AuthenticationStoreError>)
        ensures
            outcome_credentials(credentials) == leaf_matched(
                outcome(*result),
                *peer_leaf_sha256,
                maximum_results,
            ),
    {
        if maximum_results == 0 || maximum_results > MAX_PEER_CREDENTIAL_LOOKUP_RESULTS {
            return Err(AuthenticationStoreError::Corrupt);
        }
        let credentials = read_bucket(result, peer_leaf_sha256)?;
        if credentials.len() > maximum_results {
            return Err(AuthenticationStoreError::Corrupt);
        }
        Ok(credentials)
    }
}

/// The credentials of one stored bucket under the leaf that it names itself.
pub open spec fn stored_credentials(
    stored: StoredView<PeerCredentialDatabaseBucketView>,
) -> Result<Seq<VersionedPeerCredential>, AuthenticationStoreError> {
    bucket_credentials(
        stored.value,
        stored.revision,
        Sha256Digest::of_text(stored.value.peer_leaf_sha256),
    )
}

/// The credential has one identity.
pub open spec fn has_credential_id(
    versioned: VersionedPeerCredential,
    credential_id: CredentialId,
) -> bool {
    versioned.credential.credential_id == credential_id
}

/// The credentials of one identity in the first buckets of a collection.
pub open spec fn identity_matches(
    records: Seq<StoredView<PeerCredentialDatabaseBucketView>>,
    count: nat,
    credential_id: CredentialId,
) -> Seq<VersionedPeerCredential>
    decreases count,
{
    if count == 0 {
        Seq::empty()
    } else {
        identity_matches(records, (count - 1) as nat, credential_id) + stored_credentials(
            records[count - 1],
        )->Ok_0.filter(|versioned| has_credential_id(versioned, credential_id))
    }
}

/// What matching one identity gives: every bucket must be readable and the matches bounded.
pub open spec fn identity_matched(
    result: BucketResultView,
    credential_id: CredentialId,
    maximum_results: usize,
) -> Result<Seq<VersionedPeerCredential>, AuthenticationStoreError> {
    if !lookup_bounded(maximum_results) {
        Err(AuthenticationStoreError::Corrupt)
    } else {
        match result {
            Err(error) => Err(store_failure(error)),
            Ok(DatabaseResultView::Record(_)) => Err(AuthenticationStoreError::Corrupt),
            Ok(DatabaseResultView::Records(records)) => if records.len()
                <= MAXIMUM_PERSISTED_PEER_CREDENTIALS && (forall|i: int|
                0 <= i < records.len() ==> stored_credentials(#[trigger] records[i]) is Ok)
                && identity_matches(records, records.len(), credential_id).len()
                <= maximum_results {
                Ok(identity_matches(records, records.len(), credential_id))
            } else {
                Err(AuthenticationStoreError::Corrupt)
            },
        }
    }
}

proof fn lemma_matches_grow(
    records: Seq<StoredView<PeerCredentialDatabaseBucketView>>,
    low: nat,
    high: nat,
    credential_id: CredentialId,
)
    requires
        low <= high,
    ensures
        identity_matches(records, low, credential_id).len() <= identity_matches(
            records,
            high,
            credential_id,
        ).len(),
    decreases high,
{
    if low < high {
        lemma_matches_grow(records, low, (high - 1) as nat, credential_id);
    }
}

fn append_matches(
    matches: &mut Vec<VersionedPeerCredential>,
    credentials: &Vec<VersionedPeerCredential>,
    credential_id: &CredentialId,
)
    ensures
        final(matches)@ == old(matches)@ + credentials@.filter(
            |versioned| has_credential_id(versioned, *credential_id),
        ),
{
    let ghost keeps = |versioned| has_credential_id(versioned, *credential_id);
    let ghost before = matches@;
    let count: usize = credentials.len();
    let mut i: usize = 0;
    assert(credentials@.take(0).filter(keeps) =~= Seq::empty()) by {
        reveal(Seq::filter);
    }
    while i < count
        invariant
            i <= count == credentials@.len(),
            keeps == (|versioned| has_credential_id(versioned, *credential_id)),
            matches@ == before + credentials@.take(i as int).filter(keeps),
        decreases count - i,
    {
        proof {
            let prefix = credentials@.take(i + 1);
            assert(prefix.drop_last() =~= credentials@.take(i as int));
            reveal(Seq::filter);
        }
        if credentials[i].credential.credential_id == *credential_id {
            matches.push(credentials[i]);
        }
        assert(matches@ =~= before + credentials@.take(i + 1).filter(keeps));
        i += 1;
    }
    assert(credentials@.take(count as int) =~= credentials@);
}

impl DatabasePeerCredentialStore {
    /// Finds one exact credential identity while rejecting duplicate or oversized persisted state.
    #[verifier::loop_isolation(false)]
    pub fn matching_peer_credential_ids(
        result: &BucketResult,
        credential_id: &CredentialId,
        maximum_results: usize,
    ) -> (credentials: Result<Vec<VersionedPeerCredential>, AuthenticationStoreError>)
        ensures
            outcome_credentials(credentials) == identity_matched(
                outcome(*result),
                *credential_id,
                maximum_results,
            ),
    {
        if maximum_results == 0 || maximum_results > MAX_PEER_CREDENTIAL_LOOKUP_RESULTS {
            return Err(AuthenticationStoreError::Corrupt);
        }
        let stored = match result {
            Err(error) => {
                return Err(authentication_store_error(*error));
            },
            Ok(DatabaseResult::Record(_)) => {
                return Err(AuthenticationStoreError::Corrupt);
            },
            Ok(DatabaseResult::Records(stored)) => stored,
        };
        let ghost records = views(stored@);
        let count: usize = stored.len();
        if count > MAXIMUM_PERSISTED_PEER_CREDENTIALS {
            return Err(AuthenticationStoreError::Corrupt);
        }
        let mut matches: Vec<VersionedPeerCredential> = Vec::new();
        let mut i: usize = 0;
        assert(matches@ =~= identity_matches(records, 0, *credential_id));
        while i < count
            invariant
                i <= count == stored@.len() == records.len(),
                forall|j: int| 0 <= j < i ==> stored_credentials(#[trigger] records[j]) is Ok,
                matches@ == identity_matches(records, i as nat, *credential_id),
                matches@.len() <= maximum_results,
            decreases count - i,
        {
            assert(records[i as int] == stored@[i as int]@);
            let bucket = &stored[i].value;
            let expected = match Sha256Digest::parse(bucket.peer_leaf_sha256.as_str()) {
                Ok(digest) => digest,
                Err(_) => {
                    assert(stored_credentials(records[i as int]) is Err);
                    return Err(AuthenticationStoreError::Corrupt);
                },
            };
            let credentials = match peer_credentials(bucket, stored[i].revision, &expected) {
                Ok(credentials) => credentials,
                Err(error) => {
                    assert(stored_credentials(records[i as int]) is Err);
                    return Err(error);
                },
            };
            append_matches(&mut matches, &credentials, credential_id);
            assert(matches@ == identity_matches(records, (i + 1) as nat, *credential_id));
            if matches.len() > maximum_results {
                proof {
                    lemma_matches_grow(records, (i + 1) as nat, records.len(), *credential_id);
                }
                return Err(AuthenticationStoreError::Corrupt);
            }
            i += 1;
        }
        Ok(matches)
    }
}

/// One change of the credential collection inside a caller's transaction.
pub enum PeerCredentialWrite {
    Save { bucket: PeerCredentialDatabaseBucket, expected: DatabaseRevision },
    Delete { peer_leaf_sha256: Sha256Digest, expected: DatabaseRevision },
}

/// What one [`PeerCredentialWrite`] holds.
pub enum PeerCredentialWriteView {
    Save { bucket: PeerCredentialDatabaseBucketView, expected: DatabaseRevision },
    Delete { peer_leaf_sha256: Sha256Digest, expected: DatabaseRevision },
}

impl View for PeerCredentialWrite {
    type V = PeerCredentialWriteView;

    open spec fn view(&self) -> PeerCredentialWriteView {
        match self {
            PeerCredentialWrite::Save { bucket, expected } => PeerCredentialWriteView::Save {
                bucket: bucket@,
                expected: *expected,
            },
            PeerCredentialWrite::Delete { peer_leaf_sha256, expected } => {
                PeerCredentialWriteView::Delete {
                    peer_leaf_sha256: *peer_leaf_sha256,
                    expected: *expected,
                }
            },
        }
    }
}

/// The change that creates one absent credential.
pub open spec fn credential_creation(credential: PeerCredential) -> PeerCredentialWriteView {
    PeerCredentialWriteView::Save {
        bucket: credential_bucket(credential),
        expected: DatabaseRevision::Missing,
    }
}

impl DatabasePeerCredentialStore {
    /// Appends one absent exact credential to a caller-owned atomic transaction.
    pub fn creating_transaction(credential: &PeerCredential) -> (write: PeerCredentialWrite)
        ensures
            write@ == credential_creation(*credential),
    {
        PeerCredentialWrite::Save {
            bucket: database_bucket(credential),
            expected: DatabaseRevision::Missing,
        }
    }
}

/// The change that replaces one credential at a revision.
pub open spec fn credential_replacement(
    credential: PeerCredential,
    expected_revision: u64,
) -> Result<PeerCredentialWriteView, AuthenticationStoreError> {
    if expected_revision == 0 {
        Err(AuthenticationStoreError::Corrupt)
    } else {
        Ok(
            PeerCredentialWriteView::Save {
                bucket: credential_bucket(credential),
                expected: DatabaseRevision::Exact(expected_revision),
            },
        )
    }
}

impl DatabasePeerCredentialStore {
    /// Appends one exact optimistic credential replacement to an atomic transaction.
    pub fn replacing_transaction(
        credential: &PeerCredential,
        expected_revision: u64,
    ) -> (write: Result<
        PeerCredentialWrite,
        AuthenticationStoreError,
    >)
        ensures
            outcome(write) == credential_replacement(*credential, expected_revision),
    {
        if expected_revision == 0 {
            return Err(AuthenticationStoreError::Corrupt);
        }
        Ok(
            PeerCredentialWrite::Save {
                bucket: database_bucket(credential),
                expected: DatabaseRevision::Exact(expected_revision),
            },
        )
    }
}

/// The change that deletes one credential at a revision.
pub open spec fn credential_deletion(
    peer_leaf_sha256: Sha256Digest,
    expected_revision: u64,
) -> Result<
    PeerCredentialWriteView,
    AuthenticationStoreError,
> {
    if expected_revision == 0 {
        Err(AuthenticationStoreError::Corrupt)
    } else {
        Ok(
            PeerCredentialWriteView::Delete {
                peer_leaf_sha256,
                expected: DatabaseRevision::Exact(expected_revision),
            },
        )
    }
}

impl DatabasePeerCredentialStore {
    /// Appends one exact optimistic credential deletion to an atomic authority transaction.
    pub fn deleting_transaction(
        peer_leaf_sha256: &Sha256Digest,
        expected_revision: u64,
    ) -> (write: Result<
        PeerCredentialWrite,
        AuthenticationStoreError,
    >)
        ensures
            outcome(write) == credential_deletion(*peer_leaf_sha256, expected_revision),
    {
        if expected_revision == 0 {
            return Err(AuthenticationStoreError::Corrupt);
        }
        Ok(
            PeerCredentialWrite::Delete {
                peer_leaf_sha256: *peer_leaf_sha256,
                expected: DatabaseRevision::Exact(expected_revision),
            },
        )
    }
}

impl DatabasePeerCredentialStore {
    /// Creates one exact leaf credential only when its dedicated bucket is absent.
    pub fn create(credential: &PeerCredential) -> (write: PeerCredentialWrite)
        ensures
            write@ == credential_creation(*credential),
    {
        DatabasePeerCredentialStore::creating_transaction(credential)
    }

    /// Replaces one exact leaf credential only at the expected persisted revision.
    pub fn replace(credential: &PeerCredential, expected_revision: u64) -> (write: Result<
        PeerCredentialWrite,
        AuthenticationStoreError,
    >)
        ensures
            outcome(write) == credential_replacement(*credential, expected_revision),
    {
        DatabasePeerCredentialStore::replacing_transaction(credential, expected_revision)
    }
}

/// Returns one applied or replayed exact peer-credential persistence result.
#[derive(Clone, Copy, Debug, PartialEq, Eq, Structural)]
pub struct DatabasePeerCredentialChange {
    pub credential: VersionedPeerCredential,
    pub disposition: DatabaseCommitDisposition,
}

impl DatabasePeerCredentialChange {
    /// Returns the exact persisted credential and current revision.
    pub fn credential(&self) -> (credential: &VersionedPeerCredential)
        ensures
            *credential == self.credential,
    {
        &self.credential
    }

    /// Returns whether this call applied or replayed the exact mutation.
    pub fn disposition(&self) -> (disposition: DatabaseCommitDisposition)
        ensures
            disposition == self.disposition,
    {
        self.disposition
    }
}

/// What saving one credential came to: the bucket that is read back must hold exactly the
/// credential at the committed revision.
pub open spec fn credential_saved(
    credential: PeerCredential,
    written: Result<DatabaseWriteResultView, DatabaseError>,
    read: BucketResultView,
) -> Result<DatabasePeerCredentialChange, AuthenticationStoreError> {
    match written {
        Err(error) => Err(store_failure(error)),
        Ok(written) => match bucket_read(read, credential.peer_leaf_sha256) {
            Err(error) => Err(error),
            Ok(current) => if current.len() == 1 && current[0].credential == credential
                && current[0].revision == written.commit.revision {
                Ok(
                    DatabasePeerCredentialChange {
                        credential: current[0],
                        disposition: written.disposition,
                    },
                )
            } else {
                Err(AuthenticationStoreError::Conflict)
            },
        },
    }
}

/// Verifies the state that one save left before returning it.
pub fn saved(
    credential: &PeerCredential,
    written: &Result<DatabaseWriteResult, DatabaseError>,
    read: &BucketResult,
) -> (change: Result<DatabasePeerCredentialChange, AuthenticationStoreError>)
    ensures
        change == credential_saved(*credential, outcome(*written), outcome(*read)),
{
    let written = match written {
        Ok(written) => written,
        Err(error) => {
            return Err(authentication_store_error(*error));
        },
    };
    let current = read_bucket(read, &credential.peer_leaf_sha256)?;
    if current.len() != 1 || current[0].credential != *credential || current[0].revision
        != written.commit.revision {
        return Err(AuthenticationStoreError::Conflict);
    }
    Ok(
        DatabasePeerCredentialChange {
            credential: current[0],
            disposition: written.disposition,
        },
    )
}

/// A save whose bucket is read back as it was written succeeds with the committed revision.
pub proof fn law_saved_credential_is_returned(
    credential: PeerCredential,
    written: DatabaseWriteResultView,
)
    requires
        credential_valid(credential),
        written.commit.revision > 0,
    ensures
        credential_saved(
            credential,
            Ok(written),
            Ok(
                DatabaseResultView::Record(
                    StoredView {
                        value: credential_bucket(credential),
                        revision: written.commit.revision,
                    },
                ),
            ),
        ) == Ok::<DatabasePeerCredentialChange, AuthenticationStoreError>(
            DatabasePeerCredentialChange {
                credential: VersionedPeerCredential {
                    credential,
                    revision: written.commit.revision,
                },
                disposition: written.disposition,
            },
        ),
{
    law_credential_round_trip(credential, written.commit.revision);
}

// ---------------------------------------------------------------------------
// Principals
// ---------------------------------------------------------------------------

/// Whom a remote connection acts for.
#[derive(Clone, Copy, Debug, PartialEq, Eq, Structural)]
pub enum NodePrivateRemotePrincipal {
    Peer(CredentialId),
    Controller { controller_id: ControllerId, certificate_sha256: Sha256Digest },
}

/// The refusal of one remote certificate.
#[derive(Clone, Copy, Debug, PartialEq, Eq, Structural)]
pub enum NodePrivateRemoteTlsError {
    PrincipalRejected,
}

/// The principal that authentication resolved for one leaf.
#[derive(Clone, Copy, Debug, PartialEq, Eq, Structural)]
pub struct PeerPrincipal {
    pub credential_id: CredentialId,
    pub local_node_id: NodeId,
    pub direction: PeerCredentialDirection,
}

/// How authentication refused one leaf.
#[derive(Clone, Copy, Debug, PartialEq, Eq, Structural)]
pub enum PeerCredentialError {
    Unrecognized,
    Rejected,
}

/// One registered controller and the leaf that it presents.
#[derive(Clone, Copy, Debug, PartialEq, Eq, Structural)]
pub struct RegisteredController {
    pub controller_id: ControllerId,
    pub certificate_sha256: Sha256Digest,
}

/// Bridges authentication's exact decision to the transport-local resolver.
#[derive(Clone, Copy, Debug, PartialEq, Eq, Structural)]
pub struct CoreNodePrincipalResolver {
    pub local_node_id: NodeId,
    pub direction: PeerCredentialDirection,
}

/// What the resolved peer leads to: the peer itself, or the search among the controllers.
pub open spec fn peer_judged(
    resolver: CoreNodePrincipalResolver,
    resolved: Result<PeerPrincipal, PeerCredentialError>,
) -> Result<Option<NodePrivateRemotePrincipal>, NodePrivateRemoteTlsError> {
    match resolved {
        Ok(principal) => if principal.local_node_id == resolver.local_node_id
            && principal.direction == resolver.direction {
            Ok(Some(NodePrivateRemotePrincipal::Peer(principal.credential_id)))
        } else {
            Err(NodePrivateRemoteTlsError::PrincipalRejected)
        },
        Err(PeerCredentialError::Unrecognized) => Ok(None),
        Err(PeerCredentialError::Rejected) => Err(NodePrivateRemoteTlsError::PrincipalRejected),
    }
}

/// The controller presents one leaf.
pub open spec fn presents(controller: RegisteredController, leaf: Sha256Digest) -> bool {
    controller.certificate_sha256 == leaf
}

/// The one controller that presents a leaf.
pub open spec fn sole_controller(
    controllers: Option<Seq<RegisteredController>>,
    leaf: Sha256Digest,
) -> Result<ControllerId, NodePrivateRemoteTlsError> {
    match controllers {
        None => Err(NodePrivateRemoteTlsError::PrincipalRejected),
        Some(controllers) => {
            let matches = controllers.filter(|controller| presents(controller, leaf));
            if matches.len() == 1 {
                Ok(matches[0].controller_id)
            } else {
                Err(NodePrivateRemoteTlsError::PrincipalRejected)
            }
        },
    }
}

/// The list by view, if there is one.
pub open spec fn controllers_view(controllers: Option<Vec<RegisteredController>>) -> Option<
    Seq<RegisteredController>,
> {
    match controllers {
        Some(controllers) => Some(controllers@),
        None => None,
    }
}

impl CoreNodePrincipalResolver {
    /// Creates one narrow bridge for children that connect to their main.
    pub fn new(local_node_id: NodeId) -> (resolver: Self)
        ensures
            resolver.local_node_id == local_node_id,
            resolver.direction == PeerCredentialDirection::ChildToMain,
    {
        CoreNodePrincipalResolver::new_for_direction(
            local_node_id,
            PeerCredentialDirection::ChildToMain,
        )
    }

    /// Creates one bridge for the exact peer-certificate direction accepted by the local role.
    pub fn new_for_direction(
        local_node_id: NodeId,
        direction: PeerCredentialDirection,
    ) -> (resolver: Self)
        ensures
            resolver.local_node_id == local_node_id,
            resolver.direction == direction,
    {
        CoreNodePrincipalResolver { local_node_id, direction }
    }

    /// Judges the peer that authentication resolved for one leaf.
    pub fn judge_peer(
        &self,
        resolved: Result<PeerPrincipal, PeerCredentialError>,
    ) -> (principal: Result<
        Option<NodePrivateRemotePrincipal>,
        NodePrivateRemoteTlsError,
    >)
        ensures
            principal == peer_judged(*self, resolved),
    {
        match resolved {
            Ok(principal) => {
                if principal.local_node_id == self.local_node_id && principal.direction
                    == self.direction {
                    return Ok(Some(NodePrivateRemotePrincipal::Peer(principal.credential_id)));
                }
                Err(NodePrivateRemoteTlsError::PrincipalRejected)
            },
            Err(PeerCredentialError::Unrecognized) => Ok(None),
            Err(PeerCredentialError::Rejected) => Err(
                NodePrivateRemoteTlsError::PrincipalRejected,
            ),
        }
    }

    /// Finds the one controller that presents one leaf.
    #[verifier::loop_isolation(false)]
    pub fn find_controller(
        &self,
        controllers: &Option<Vec<RegisteredController>>,
        peer_leaf_sha256: &Sha256Digest,
    ) -> (controller_id: Result<ControllerId, NodePrivateRemoteTlsError>)
        ensures
            controller_id == sole_controller(controllers_view(*controllers), *peer_leaf_sha256),
    {
        let controllers = match controllers {
            Some(controllers) => controllers,
            None => {
                return Err(NodePrivateRemoteTlsError::PrincipalRejected);
            },
        };
        let ghost leaf = *peer_leaf_sha256;
        let ghost keeps = |controller| presents(controller, leaf);
        let count: usize = controllers.len();
        let mut matches: Vec<RegisteredController> = Vec::new();
        let mut i: usize = 0;
        assert(controllers@.take(0).filter(keeps) =~= Seq::empty()) by {
            reveal(Seq::filter);
        }
        while i < count
            invariant
                i <= count == controllers@.len(),
                matches@ == controllers@.take(i as int).filter(keeps),
            decreases count - i,
        {
            proof {
                let prefix = controllers@.take(i + 1);
                assert(prefix.drop_last() =~= controllers@.take(i as int));
                reveal(Seq::filter);
            }
            if controllers[i].certificate_sha256 == *peer_leaf_sha256 {
                matches.push(controllers[i]);
            }
            assert(matches@ =~= controllers@.take(i + 1).filter(keeps));
            i += 1;
        }
        assert(controllers@.take(count as int) =~= controllers@);
        if matches.len() != 1 {
            return Err(NodePrivateRemoteTlsError::PrincipalRejected);
        }
        Ok(matches[0].controller_id)
    }

    /// Admits the one controller once authentication authorized it to view.
    pub fn admit_controller(
        &self,
        controller_id: ControllerId,
        peer_leaf_sha256: &Sha256Digest,
        authorized: bool,
    ) -> (principal: Result<NodePrivateRemotePrincipal, NodePrivateRemoteTlsError>)
        ensures
            principal == (if authorized {
                Ok::<NodePrivateRemotePrincipal, NodePrivateRemoteTlsError>(
                    NodePrivateRemotePrincipal::Controller {
                        controller_id,
                        certificate_sha256: *peer_leaf_sha256,
                    },
                )
            } else {
                Err(NodePrivateRemoteTlsError::PrincipalRejected)
            }),
    {
        if !authorized {
            return Err(NodePrivateRemoteTlsError::PrincipalRejected);
        }
        Ok(
            NodePrivateRemotePrincipal::Controller {
                controller_id,
                certificate_sha256: *peer_leaf_sha256,
            },
        )
    }
}

/// What a controller is authorized to do. Resolving a leaf takes the right to view and no other.
#[derive(Clone, Copy, Debug, PartialEq, Eq, Structural)]
pub enum ControllerRole {
    Viewer,
}

/// What the resolution of one leaf asks for next.
#[derive(Clone, Copy, Debug, PartialEq, Eq, Structural)]
pub enum PrincipalStep {
    /// Have authentication resolve the leaf among the paired peers.
    ResolvePeer,
    /// List the registered controllers.
    ListControllers,
    /// Have authentication authorize exactly this controller, with exactly this leaf and role.
    AuthorizeController {
        controller_id: ControllerId,
        certificate_sha256: Sha256Digest,
        role: ControllerRole,
    },
    /// The leaf acts for this principal.
    Accept(NodePrivateRemotePrincipal),
}

/// What one step of the resolution brought.
pub enum PrincipalEvent {
    PeerResolved(Result<PeerPrincipal, PeerCredentialError>),
    /// The list of controllers, if it could be read.
    ControllersListed(Option<Vec<RegisteredController>>),
    ControllerAuthorized(bool),
}

/// The next step: a peer is accepted or refused by itself, controllers are listed only where no
/// peer is known, and the one controller that presents the leaf is accepted once it is authorized
/// to view. An event that the step did not ask for is refused.
pub open spec fn principal_advanced(
    resolver: CoreNodePrincipalResolver,
    leaf: Sha256Digest,
    pending: PrincipalStep,
    event: PrincipalEvent,
) -> Result<PrincipalStep, NodePrivateRemoteTlsError> {
    match (pending, event) {
        (PrincipalStep::ResolvePeer, PrincipalEvent::PeerResolved(resolved)) => match peer_judged(
            resolver,
            resolved,
        ) {
            Err(error) => Err(error),
            Ok(Some(principal)) => Ok(PrincipalStep::Accept(principal)),
            Ok(None) => Ok(PrincipalStep::ListControllers),
        },
        (
            PrincipalStep::ListControllers,
            PrincipalEvent::ControllersListed(controllers),
        ) => match sole_controller(controllers_view(controllers), leaf) {
            Err(error) => Err(error),
            Ok(controller_id) => Ok(
                PrincipalStep::AuthorizeController {
                    controller_id,
                    certificate_sha256: leaf,
                    role: ControllerRole::Viewer,
                },
            ),
        },
        (
            PrincipalStep::AuthorizeController { controller_id, certificate_sha256, .. },
            PrincipalEvent::ControllerAuthorized(true),
        ) => Ok(
            PrincipalStep::Accept(
                NodePrivateRemotePrincipal::Controller { controller_id, certificate_sha256 },
            ),
        ),
        _ => Err(NodePrivateRemoteTlsError::PrincipalRejected),
    }
}

impl CoreNodePrincipalResolver {
    /// Begins the resolution of one leaf: a paired peer comes first.
    pub fn start(&self) -> (step: PrincipalStep)
        ensures
            step == PrincipalStep::ResolvePeer,
    {
        PrincipalStep::ResolvePeer
    }

    /// Decides what follows one step of the resolution.
    pub fn advance(
        &self,
        peer_leaf_sha256: &Sha256Digest,
        pending: PrincipalStep,
        event: PrincipalEvent,
    ) -> (step: Result<PrincipalStep, NodePrivateRemoteTlsError>)
        ensures
            step == principal_advanced(*self, *peer_leaf_sha256, pending, event),
    {
        match (pending, event) {
            (PrincipalStep::ResolvePeer, PrincipalEvent::PeerResolved(resolved)) => {
                match self.judge_peer(resolved)? {
                    Some(principal) => Ok(PrincipalStep::Accept(principal)),
                    None => Ok(PrincipalStep::ListControllers),
                }
            },
            (PrincipalStep::ListControllers, PrincipalEvent::ControllersListed(controllers)) => {
                let controller_id = self.find_controller(&controllers, peer_leaf_sha256)?;
                Ok(
                    PrincipalStep::AuthorizeController {
                        controller_id,
                        certificate_sha256: *peer_leaf_sha256,
                        role: ControllerRole::Viewer,
                    },
                )
            },
            (
                PrincipalStep::AuthorizeController { controller_id, certificate_sha256, .. },
                PrincipalEvent::ControllerAuthorized(authorized),
            ) => {
                let principal = self.admit_controller(
                    controller_id,
                    &certificate_sha256,
                    authorized,
                )?;
                Ok(PrincipalStep::Accept(principal))
            },
            _ => Err(NodePrivateRemoteTlsError::PrincipalRejected),
        }
    }
}

/// The whole resolution of one leaf, from what authentication says of the peer, the controllers and
/// each controller as a viewer with that leaf.
pub open spec fn principal_resolved(
    resolver: CoreNodePrincipalResolver,
    leaf: Sha256Digest,
    resolved: Result<PeerPrincipal, PeerCredentialError>,
    controllers: Option<Vec<RegisteredController>>,
    viewer: spec_fn(ControllerId, Sha256Digest) -> bool,
) -> Result<NodePrivateRemotePrincipal, NodePrivateRemoteTlsError> {
    match peer_judged(resolver, resolved) {
        Err(error) => Err(error),
        Ok(Some(principal)) => Ok(principal),
        Ok(None) => match sole_controller(controllers_view(controllers), leaf) {
            Err(error) => Err(error),
            Ok(controller_id) => if viewer(controller_id, leaf) {
                Ok(NodePrivateRemotePrincipal::Controller { controller_id, certificate_sha256: leaf })
            } else {
                Err(NodePrivateRemoteTlsError::PrincipalRejected)
            },
        },
    }
}

/// Answering each step with what authentication says ends, after at most three, with the principal
/// of the leaf or its refusal.
pub proof fn law_steps_resolve_the_principal(
    resolver: CoreNodePrincipalResolver,
    leaf: Sha256Digest,
    resolved: Result<PeerPrincipal, PeerCredentialError>,
    controllers: Option<Vec<RegisteredController>>,
    viewer: spec_fn(ControllerId, Sha256Digest) -> bool,
)
    ensures
        ({
            let outcome = principal_resolved(resolver, leaf, resolved, controllers, viewer);
            let first = principal_advanced(
                resolver,
                leaf,
                PrincipalStep::ResolvePeer,
                PrincipalEvent::PeerResolved(resolved),
            );
            match first {
                Err(error) => outcome == Err::<
                    NodePrivateRemotePrincipal,
                    NodePrivateRemoteTlsError,
                >(error),
                Ok(PrincipalStep::Accept(principal)) => outcome == Ok::<
                    NodePrivateRemotePrincipal,
                    NodePrivateRemoteTlsError,
                >(principal),
                Ok(step) => {
                    &&& step == PrincipalStep::ListControllers
                    &&& match principal_advanced(
                        resolver,
                        leaf,
                        step,
                        PrincipalEvent::ControllersListed(controllers),
                    ) {
                        Err(error) => outcome == Err::<
                            NodePrivateRemotePrincipal,
                            NodePrivateRemoteTlsError,
                        >(error),
                        Ok(step) => {
                            &&& step matches PrincipalStep::AuthorizeController {
                                controller_id,
                                certificate_sha256,
                                role,
                            }
                            &&& certificate_sha256 == leaf
                            &&& role == ControllerRole::Viewer
                            &&& (match principal_advanced(
                                resolver,
                                leaf,
                                step,
                                PrincipalEvent::ControllerAuthorized(viewer(controller_id, leaf)),
                            ) {
                                Ok(PrincipalStep::Accept(principal)) => Ok::<
                                    NodePrivateRemotePrincipal,
                                    NodePrivateRemoteTlsError,
                                >(principal),
                                Ok(_) => Err(NodePrivateRemoteTlsError::PrincipalRejected),
                                Err(error) => Err(error),
                            }) == outcome
                        },
                    }
                },
            }
        }),
{
}

/// Controllers are asked about only where authentication knows no peer with the leaf.
pub proof fn law_peers_come_first(
    resolver: CoreNodePrincipalResolver,
    leaf: Sha256Digest,
    resolved: Result<PeerPrincipal, PeerCredentialError>,
)
    ensures
        principal_advanced(
            resolver,
            leaf,
            PrincipalStep::ResolvePeer,
            PrincipalEvent::PeerResolved(resolved),
        ) == Ok::<PrincipalStep, NodePrivateRemoteTlsError>(PrincipalStep::ListControllers)
            <==> resolved == Err::<PeerPrincipal, PeerCredentialError>(
            PeerCredentialError::Unrecognized,
        ),
{
}

/// A peer of another node or of the other direction is refused; it is never taken for a controller.
pub proof fn law_misdirected_peer_is_refused(
    resolver: CoreNodePrincipalResolver,
    principal: PeerPrincipal,
)
    requires
        principal.local_node_id != resolver.local_node_id || principal.direction
            != resolver.direction,
    ensures
        peer_judged(resolver, Ok(principal)) == Err::<
            Option<NodePrivateRemotePrincipal>,
            NodePrivateRemoteTlsError,
        >(NodePrivateRemoteTlsError::PrincipalRejected),
{
}

/// Two controllers that present the same leaf are both refused.
pub proof fn law_ambiguous_controller_is_refused(
    controllers: Seq<RegisteredController>,
    leaf: Sha256Digest,
    first: int,
    second: int,
)
    requires
        0 <= first < second < controllers.len(),
        presents(controllers[first], leaf),
        presents(controllers[second], leaf),
    ensures
        sole_controller(Some(controllers), leaf) == Err::<ControllerId, NodePrivateRemoteTlsError>(
            NodePrivateRemoteTlsError::PrincipalRejected,
        ),
{
    let keeps = |controller| presents(controller, leaf);
    let left = controllers.take(second);
    let right = controllers.skip(second);
    assert(controllers =~= left + right);
    Seq::filter_distributes_over_add(left, right, keeps);
    assert(left.filter(keeps).len() > 0) by {
        broadcast use vstd::seq_lib::group_filter_ensures;

        assert(left[first] == controllers[first]);
        assert(left.filter(keeps).contains(left[first]));
    }
    assert(right.filter(keeps).len() > 0) by {
        broadcast use vstd::seq_lib::group_filter_ensures;

        assert(right[0] == controllers[second]);
        assert(right.filter(keeps).contains(right[0]));
    }
}

} // verus!
