//! The pairing channel's rules: identity files, frames, deadlines, pinned peers and the exchange.

use vstd::prelude::*;

use crate::digest::{digest_of, sha256_digest};
use crate::identity::{NodeAddress, Sha256Digest, TimeSpan};
use crate::node_pairing_transport::{
    request_handled, request_read, response_bounded, response_document, response_to_document,
    NodePairingApiPort, NodePairingCandidateOfferPort, NodePairingDocumentEndpoint,
    NodePairingLocalNodePort, NodePairingTransportError, NodePairingWorld, WireDocument,
    WireDocumentView, NODE_PAIRING_TRANSPORT_MAXIMUM_DOCUMENT_BYTES,
};
use crate::path::{absolute, same_file, UnixPath};
use crate::pem::{
    all_items, certificates_of, is_key, item_views, key_kind, leading_items, pem_items,
    read_leading_items, read_pem_certificates, PemItem, PemItemView,
};
use crate::sequence::{outcome, views, Valued};
use crate::text::{
    append_be_bytes, be_bytes, be_number, be_number_32, lemma_be_bytes_length, lemma_be_round_trip,
    lemma_pow256_values,
};

verus! {

/// The largest certificate file in bytes.
pub const MAXIMUM_CERTIFICATE_BYTES: usize = 131072;

/// The largest private key file in bytes.
pub const MAXIMUM_PRIVATE_KEY_BYTES: usize = 131072;

/// The longest operation in nanoseconds.
pub const MAXIMUM_TIMEOUT_NANOSECONDS: u128 = 60000000000;

/// The most addresses that one name may resolve to.
pub const MAXIMUM_RESOLVED_ADDRESSES: usize = 8;

/// The bytes before each document.
pub const FRAME_HEADER_BYTES: usize = 4;

/// Names stable dedicated pairing TLS failures without retaining peer or credential values.
#[derive(Clone, Copy, Debug, PartialEq, Eq, Structural)]
pub enum NodePairingTlsError {
    InvalidConfiguration,
    IdentityUnavailable,
    InvalidIdentity,
    AddressUnavailable,
    ConnectionUnavailable,
    UntrustedPeer,
    TimedOut,
    Cancelled,
    FrameUnavailable,
    RequestRejected,
}

impl NodePairingTlsError {
    /// The fixed text of the failure.
    pub open spec fn text(self) -> Seq<char> {
        match self {
            NodePairingTlsError::InvalidConfiguration => "pairing TLS configuration is invalid"@,
            NodePairingTlsError::IdentityUnavailable => "pairing TLS identity is unavailable"@,
            NodePairingTlsError::InvalidIdentity => "pairing TLS identity is invalid"@,
            NodePairingTlsError::AddressUnavailable => "pairing peer address is unavailable"@,
            NodePairingTlsError::ConnectionUnavailable => "pairing TLS connection is unavailable"@,
            NodePairingTlsError::UntrustedPeer => "pairing TLS peer identity is untrusted"@,
            NodePairingTlsError::TimedOut => "pairing TLS operation timed out"@,
            NodePairingTlsError::Cancelled => "pairing TLS operation was cancelled"@,
            NodePairingTlsError::FrameUnavailable => "pairing TLS frame is unavailable"@,
            NodePairingTlsError::RequestRejected => "pairing TLS request was rejected"@,
        }
    }

    /// Presents stable pairing transport language without paths, addresses, or TLS diagnostics.
    pub fn message(&self) -> (text: &'static str)
        ensures
            text@ == self.text(),
    {
        match self {
            NodePairingTlsError::InvalidConfiguration => "pairing TLS configuration is invalid",
            NodePairingTlsError::IdentityUnavailable => "pairing TLS identity is unavailable",
            NodePairingTlsError::InvalidIdentity => "pairing TLS identity is invalid",
            NodePairingTlsError::AddressUnavailable => "pairing peer address is unavailable",
            NodePairingTlsError::ConnectionUnavailable => "pairing TLS connection is unavailable",
            NodePairingTlsError::UntrustedPeer => "pairing TLS peer identity is untrusted",
            NodePairingTlsError::TimedOut => "pairing TLS operation timed out",
            NodePairingTlsError::Cancelled => "pairing TLS operation was cancelled",
            NodePairingTlsError::FrameUnavailable => "pairing TLS frame is unavailable",
            NodePairingTlsError::RequestRejected => "pairing TLS request was rejected",
        }
    }
}


/// Binds one dedicated pairing server identity to exact owner-only file references.
pub struct NodePairingTlsFileSet {
    owner_user_id: u32,
    certificate_file: UnixPath,
    private_key_file: UnixPath,
}

/// What one [`NodePairingTlsFileSet`] holds.
pub struct NodePairingTlsFileSetView {
    pub owner_user_id: u32,
    pub certificate_file: Seq<u8>,
    pub private_key_file: Seq<u8>,
}

impl View for NodePairingTlsFileSet {
    type V = NodePairingTlsFileSetView;

    closed spec fn view(&self) -> NodePairingTlsFileSetView {
        NodePairingTlsFileSetView {
            owner_user_id: self.owner_user_id,
            certificate_file: self.certificate_file@,
            private_key_file: self.private_key_file@,
        }
    }
}

/// Two distinct absolute files.
pub open spec fn distinct_files(left: Seq<u8>, right: Seq<u8>) -> bool {
    absolute(left) && absolute(right) && !same_file(left, right)
}

impl NodePairingTlsFileSet {
    #[verifier::type_invariant]
    closed spec fn is_unambiguous(self) -> bool {
        distinct_files(self.certificate_file@, self.private_key_file@)
    }

    /// Creates one unambiguous absolute pairing identity file set.
    pub fn new(
        owner_user_id: u32,
        certificate_file: UnixPath,
        private_key_file: UnixPath,
    ) -> (result: Result<Self, NodePairingTlsError>)
        ensures
            outcome(result) == (if distinct_files(certificate_file@, private_key_file@) {
                Ok::<NodePairingTlsFileSetView, NodePairingTlsError>(
                    NodePairingTlsFileSetView {
                        owner_user_id,
                        certificate_file: certificate_file@,
                        private_key_file: private_key_file@,
                    },
                )
            } else {
                Err(NodePairingTlsError::InvalidConfiguration)
            }),
    {
        if !certificate_file.is_absolute() || !private_key_file.is_absolute()
            || certificate_file.names_same_file(&private_key_file) {
            return Err(NodePairingTlsError::InvalidConfiguration);
        }
        Ok(NodePairingTlsFileSet { owner_user_id, certificate_file, private_key_file })
    }

    /// Returns the owner of both files.
    pub fn owner_user_id(&self) -> (uid: u32)
        ensures
            uid == self@.owner_user_id,
    {
        self.owner_user_id
    }

    /// Returns the certificate file; it is never the private key file.
    pub fn certificate_file(&self) -> (path: &UnixPath)
        ensures
            path@ == self@.certificate_file,
            distinct_files(self@.certificate_file, self@.private_key_file),
    {
        proof {
            use_type_invariant(self);
        }
        &self.certificate_file
    }

    /// Returns the private key file; it is never the certificate file.
    pub fn private_key_file(&self) -> (path: &UnixPath)
        ensures
            path@ == self@.private_key_file,
            distinct_files(self@.certificate_file, self@.private_key_file),
    {
        proof {
            use_type_invariant(self);
        }
        &self.private_key_file
    }
}

// ---------------------------------------------------------------------------
// Identity files
// ---------------------------------------------------------------------------

/// The chain of one certificate file.
pub open spec fn chain_of(items: Option<Seq<PemItemView>>) -> Result<
    Seq<PemItemView>,
    NodePairingTlsError,
> {
    match items {
        Some(items) if items.len() > 0 => Ok(items),
        _ => Err(NodePairingTlsError::InvalidIdentity),
    }
}

/// One outcome of sections by view.
pub open spec fn outcome_items<E>(result: Result<Vec<PemItem>, E>) -> Result<Seq<PemItemView>, E> {
    match result {
        Ok(items) => Ok(views(items@)),
        Err(error) => Err(error),
    }
}

/// Requires the certificates that a file held to be readable and not empty.
pub fn certificate_chain(items: Option<Vec<PemItem>>) -> (chain: Result<
    Vec<PemItem>,
    NodePairingTlsError,
>)
    ensures
        outcome_items(chain) == chain_of(item_views(items)),
{
    match items {
        Some(items) => {
            if items.len() == 0 {
                return Err(NodePairingTlsError::InvalidIdentity);
            }
            Ok(items)
        },
        None => Err(NodePairingTlsError::InvalidIdentity),
    }
}

/// Parses one nonempty certificate chain from PEM.
pub fn certificates(bytes: &[u8]) -> (chain: Result<Vec<PemItem>, NodePairingTlsError>)
    ensures
        outcome_items(chain) == chain_of(certificates_of(all_items(pem_items(bytes@)))),
{
    certificate_chain(read_pem_certificates(bytes))
}

/// The sections that hold a private key, in order.
pub open spec fn keys_of(items: Seq<PemItemView>) -> Seq<PemItemView> {
    items.filter(|item: PemItemView| key_kind(item.kind))
}

/// The key of one private key file: exactly one of the sections before the first malformed one
/// holds a supported private key.
pub open spec fn key_of(items: Seq<PemItemView>) -> Result<PemItemView, NodePairingTlsError> {
    if keys_of(items).len() == 1 {
        Ok(keys_of(items)[0])
    } else {
        Err(NodePairingTlsError::InvalidIdentity)
    }
}

proof fn lemma_keys_pushed(items: Seq<PemItemView>, item: PemItemView)
    ensures
        keys_of(items.push(item)) == (if key_kind(item.kind) {
            keys_of(items).push(item)
        } else {
            keys_of(items)
        }),
{
    reveal(Seq::filter);
    assert(items.push(item).drop_last() =~= items);
}

proof fn lemma_keys_grow(items: Seq<PemItemView>, count: nat)
    requires
        count <= items.len(),
    ensures
        keys_of(items.take(count as int)).len() <= keys_of(items).len(),
    decreases items.len(),
{
    if count == items.len() {
        assert(items.take(count as int) =~= items);
    } else {
        let shorter = items.drop_last();
        assert(items =~= shorter.push(items.last()));
        assert(items.take(count as int) =~= shorter.take(count as int));
        lemma_keys_pushed(shorter, items.last());
        lemma_keys_grow(shorter, count);
    }
}

/// Requires one of the sections, and no other, to hold a supported private key.
#[verifier::loop_isolation(false)]
pub fn identity_key(items: &Vec<PemItem>) -> (key: Result<PemItem, NodePairingTlsError>)
    ensures
        outcome(key) == key_of(views(items@)),
{
    let ghost all = views(items@);
    let count: usize = items.len();
    let mut found: Option<usize> = None;
    let mut i: usize = 0;
    assert(keys_of(all.take(0)) =~= Seq::empty()) by {
        reveal(Seq::filter);
    }
    while i < count
        invariant
            i <= count == items@.len(),
            keys_of(all.take(i as int)) == (match found {
                Some(at) => seq![all[at as int]],
                None => Seq::empty(),
            }),
            found matches Some(at) ==> at < i,
        decreases count - i,
    {
        let ghost earlier = all.take(i as int);
        assert(all.take(i + 1) =~= earlier.push(all[i as int]));
        proof {
            lemma_keys_pushed(earlier, all[i as int]);
        }
        if is_key(items[i].kind) {
            if found.is_some() {
                proof {
                    lemma_keys_grow(all, (i + 1) as nat);
                }
                return Err(NodePairingTlsError::InvalidIdentity);
            }
            found = Some(i);
            assert(Seq::<PemItemView>::empty().push(all[i as int]) =~= seq![all[i as int]]);
        }
        i += 1;
    }
    assert(all.take(count as int) =~= all);
    match found {
        Some(at) => Ok(items[at].copy()),
        None => Err(NodePairingTlsError::InvalidIdentity),
    }
}

/// Parses exactly one supported private key from PEM; nothing is read beyond a malformed section.
pub fn private_key(bytes: &[u8]) -> (key: Result<PemItem, NodePairingTlsError>)
    ensures
        outcome(key) == key_of(leading_items(pem_items(bytes@))),
{
    identity_key(&read_leading_items(bytes))
}

/// One pairing server identity as its two files hold it.
pub struct NodePairingTlsIdentity {
    pub chain: Vec<PemItem>,
    pub key: PemItem,
}

/// What reading one server identity gives: both files must have been read, then the chain and the
/// key must be there.
pub open spec fn identity_of(
    certificate: Option<Seq<u8>>,
    private_key: Option<Seq<u8>>,
) -> Result<(Seq<PemItemView>, PemItemView), NodePairingTlsError> {
    match (certificate, private_key) {
        (Some(certificate), Some(private_key)) => match chain_of(
            certificates_of(all_items(pem_items(certificate))),
        ) {
            Err(error) => Err(error),
            Ok(chain) => match key_of(leading_items(pem_items(private_key))) {
                Err(error) => Err(error),
                Ok(key) => Ok((chain, key)),
            },
        },
        _ => Err(NodePairingTlsError::IdentityUnavailable),
    }
}

/// The bytes of a file, if it was read.
pub open spec fn file_view(file: Option<Vec<u8>>) -> Option<Seq<u8>> {
    match file {
        Some(bytes) => Some(bytes@),
        None => None,
    }
}

/// Loads one server identity from the two files as the no-follow provider read them.
pub fn load_identity(
    certificate: Option<Vec<u8>>,
    private_key_file: Option<Vec<u8>>,
) -> (identity: Result<
    NodePairingTlsIdentity,
    NodePairingTlsError,
>)
    ensures
        match identity {
            Ok(identity) => identity_of(file_view(certificate), file_view(private_key_file)) == Ok::<
                (Seq<PemItemView>, PemItemView),
                NodePairingTlsError,
            >((views(identity.chain@), identity.key@)),
            Err(error) => identity_of(file_view(certificate), file_view(private_key_file)) == Err::<
                (Seq<PemItemView>, PemItemView),
                NodePairingTlsError,
            >(error),
        },
{
    match (certificate, private_key_file) {
        (Some(certificate), Some(private_key_file)) => {
            let chain = certificates(certificate.as_slice())?;
            let key = private_key(private_key_file.as_slice())?;
            Ok(NodePairingTlsIdentity { chain, key })
        },
        _ => Err(NodePairingTlsError::IdentityUnavailable),
    }
}

// ---------------------------------------------------------------------------
// Pinned peers
// ---------------------------------------------------------------------------

/// A server that presents exactly the expected leaf and nothing else.
pub open spec fn pinned(
    end_entity: Seq<u8>,
    intermediate_count: usize,
    expected: Sha256Digest,
) -> bool {
    intermediate_count == 0 && digest_of(end_entity) == expected
}

/// Returns the canonical SHA-256 digest of one certificate DER payload.
pub fn certificate_digest(bytes: &[u8]) -> (digest: Sha256Digest)
    ensures
        digest == digest_of(bytes@),
{
    sha256_digest(bytes)
}

/// Accepts only the exact single leaf digest advertised before connection.
pub fn is_pinned(
    end_entity: &[u8],
    intermediate_count: usize,
    expected: &Sha256Digest,
) -> (accepted: bool)
    ensures
        accepted == pinned(end_entity@, intermediate_count, *expected),
{
    intermediate_count == 0 && certificate_digest(end_entity) == *expected
}

/// A pinned server is accepted for at most one leaf digest.
pub proof fn law_pin_is_exact(
    end_entity: Seq<u8>,
    intermediate_count: usize,
    expected: Sha256Digest,
    other: Sha256Digest,
)
    requires
        pinned(end_entity, intermediate_count, expected),
    ensures
        pinned(end_entity, intermediate_count, other) <==> other == expected,
{
}

// ---------------------------------------------------------------------------
// Frames
// ---------------------------------------------------------------------------

/// A document that one frame may carry.
pub open spec fn frameable(length: nat) -> bool {
    0 < length <= NODE_PAIRING_TRANSPORT_MAXIMUM_DOCUMENT_BYTES
}

/// Returns one checked frame length for the shared four-byte prefix.
pub fn frame_length(document: &[u8]) -> (length: Result<u32, NodePairingTlsError>)
    ensures
        length == (if frameable(document@.len()) {
            Ok::<u32, NodePairingTlsError>(document@.len() as u32)
        } else {
            Err(NodePairingTlsError::FrameUnavailable)
        }),
{
    let length: usize = document.len();
    if length == 0 || length > NODE_PAIRING_TRANSPORT_MAXIMUM_DOCUMENT_BYTES {
        return Err(NodePairingTlsError::FrameUnavailable);
    }
    Ok(length as u32)
}

/// The bytes of one frame: the length in four bytes, then the document.
pub open spec fn frame(document: Seq<u8>) -> Seq<u8> {
    be_bytes(document.len(), 4) + document
}

/// The bytes of one frame as a server writes them.
pub fn write_frame(document: &[u8]) -> (bytes: Result<Vec<u8>, NodePairingTlsError>)
    ensures
        match bytes {
            Ok(bytes) => frameable(document@.len()) && bytes@ == frame(document@),
            Err(error) => !frameable(document@.len()) && error
                == NodePairingTlsError::FrameUnavailable,
        },
{
    let length = frame_length(document)?;
    let mut bytes: Vec<u8> = Vec::new();
    append_be_bytes(&mut bytes, length as u64, 4);
    bytes.extend_from_slice(document);
    assert(bytes@ =~= frame(document@));
    Ok(bytes)
}

/// The bytes of one frame as a client writes them.
pub fn write_blocking_frame(document: &[u8]) -> (bytes: Result<Vec<u8>, NodePairingTransportError>)
    ensures
        match bytes {
            Ok(bytes) => frameable(document@.len()) && bytes@ == frame(document@),
            Err(error) => !frameable(document@.len()) && error
                == NodePairingTransportError::RequestRejected,
        },
{
    match write_frame(document) {
        Ok(bytes) => Ok(bytes),
        Err(error) => Err(transport_tls_error(error)),
    }
}

/// The length that one header announces.
pub open spec fn announced(header: Seq<u8>) -> nat {
    be_number(header)
}

/// Returns how many bytes follow one header, as a server reads it.
pub fn read_frame_length(header: &[u8]) -> (length: Result<usize, NodePairingTlsError>)
    requires
        header@.len() == FRAME_HEADER_BYTES,
    ensures
        length == (if frameable(announced(header@)) {
            Ok::<usize, NodePairingTlsError>(announced(header@) as usize)
        } else {
            Err(NodePairingTlsError::FrameUnavailable)
        }),
{
    let length: usize = be_number_32(header) as usize;
    if length == 0 || length > NODE_PAIRING_TRANSPORT_MAXIMUM_DOCUMENT_BYTES {
        return Err(NodePairingTlsError::FrameUnavailable);
    }
    Ok(length)
}

/// Returns how many bytes follow one header, as a client reads it.
pub fn read_blocking_frame_length(header: &[u8]) -> (length: Result<
    usize,
    NodePairingTransportError,
>)
    requires
        header@.len() == FRAME_HEADER_BYTES,
    ensures
        length == (if frameable(announced(header@)) {
            Ok::<usize, NodePairingTransportError>(announced(header@) as usize)
        } else {
            Err(NodePairingTransportError::InvalidDocument { reason: "frame size is invalid" })
        }),
{
    let length: usize = be_number_32(header) as usize;
    if length == 0 || length > NODE_PAIRING_TRANSPORT_MAXIMUM_DOCUMENT_BYTES {
        return Err(
            NodePairingTransportError::InvalidDocument { reason: "frame size is invalid" },
        );
    }
    Ok(length)
}

/// A written frame announces exactly the document that follows its header.
pub proof fn law_frame_round_trip(document: Seq<u8>)
    requires
        frameable(document.len()),
    ensures
        frame(document).len() == FRAME_HEADER_BYTES + document.len(),
        announced(frame(document).take(FRAME_HEADER_BYTES as int)) == document.len(),
        frame(document).skip(FRAME_HEADER_BYTES as int) == document,
{
    lemma_pow256_values();
    lemma_be_round_trip(document.len(), 4);
    lemma_be_bytes_length(document.len(), 4);
    assert(frame(document).take(4) =~= be_bytes(document.len(), 4));
    assert(frame(document).skip(4) =~= document);
}

// ---------------------------------------------------------------------------
// Deadlines and cancellation
// ---------------------------------------------------------------------------

/// A timeout within the hard public bound.
pub open spec fn timeout_valid(timeout: TimeSpan) -> bool {
    0 < timeout.nanoseconds <= MAXIMUM_TIMEOUT_NANOSECONDS
}

/// Requires one complete operation timeout to remain within the hard public bound.
pub fn validate_timeout(timeout: TimeSpan) -> (result: Result<(), NodePairingTlsError>)
    ensures
        result == (if timeout_valid(timeout) {
            Ok::<(), NodePairingTlsError>(())
        } else {
            Err(NodePairingTlsError::InvalidConfiguration)
        }),
{
    if timeout.nanoseconds == 0 || timeout.nanoseconds > MAXIMUM_TIMEOUT_NANOSECONDS {
        return Err(NodePairingTlsError::InvalidConfiguration);
    }
    Ok(())
}

/// The positive time before one deadline that is not behind the clock.
pub open spec fn time_left(until: Option<TimeSpan>) -> Result<TimeSpan, NodePairingTransportError> {
    match until {
        Some(left) if left.nanoseconds > 0 => Ok(left),
        _ => Err(NodePairingTransportError::TimedOut),
    }
}

/// Returns the remaining positive duration, given the time from the clock to the deadline.
pub fn remaining(until: Option<TimeSpan>) -> (left: Result<TimeSpan, NodePairingTransportError>)
    ensures
        left == time_left(until),
{
    match until {
        Some(left) => {
            if left.nanoseconds == 0 {
                return Err(NodePairingTransportError::TimedOut);
            }
            Ok(left)
        },
        None => Err(NodePairingTransportError::TimedOut),
    }
}

/// Rejects an elapsed server deadline.
pub fn ensure_deadline(is_ahead: bool) -> (result: Result<(), NodePairingTlsError>)
    ensures
        result == (if is_ahead {
            Ok::<(), NodePairingTlsError>(())
        } else {
            Err(NodePairingTlsError::TimedOut)
        }),
{
    if is_ahead {
        Ok(())
    } else {
        Err(NodePairingTlsError::TimedOut)
    }
}

/// Allows callers to interrupt a bounded client operation between native I/O transitions.
pub trait NodePairingCancellationPort {
    /// The state of the flag.
    spec fn cancelled(&self) -> bool;

    /// Returns whether the caller has cancelled the current pairing workflow.
    fn is_cancelled(&self) -> (cancelled: bool)
        ensures
            cancelled == self.cancelled(),
    ;
}

/// Supplies one process-local cancellation flag.
pub struct NodePairingCancellation {
    pub cancelled: bool,
}

impl Default for NodePairingCancellation {
    fn default() -> (flag: Self)
        ensures
            !flag.cancelled,
    {
        NodePairingCancellation { cancelled: false }
    }
}

impl NodePairingCancellation {
    /// Marks every later observation cancelled.
    pub fn cancel(&mut self)
        ensures
            final(self).cancelled,
    {
        self.cancelled = true;
    }
}

impl NodePairingCancellationPort for NodePairingCancellation {
    open spec fn cancelled(&self) -> bool {
        self.cancelled
    }

    /// Reads the current cancellation state.
    fn is_cancelled(&self) -> (cancelled: bool) {
        self.cancelled
    }
}

/// What one observation of the flag gives.
pub open spec fn not_cancelled(cancelled: bool) -> Result<(), NodePairingTransportError> {
    if cancelled {
        Err(NodePairingTransportError::Cancelled)
    } else {
        Ok(())
    }
}

/// Rejects one explicitly cancelled client operation.
pub fn require_not_cancelled<P: NodePairingCancellationPort>(cancellation: &P) -> (result: Result<
    (),
    NodePairingTransportError,
>)
    ensures
        result == not_cancelled(cancellation.cancelled()),
{
    if cancellation.is_cancelled() {
        Err(NodePairingTransportError::Cancelled)
    } else {
        Ok(())
    }
}

// ---------------------------------------------------------------------------
// The client exchange
// ---------------------------------------------------------------------------

/// What the client sees right before its next native step: the flag, and the time from the clock
/// to the deadline.
#[derive(Clone, Copy, Debug, PartialEq, Eq, Structural)]
pub struct ExchangeObservation {
    pub cancelled: bool,
    pub until_deadline: Option<TimeSpan>,
}

/// The next native step of one exchange.
#[derive(Clone, Copy, Debug, PartialEq, Eq, Structural)]
pub enum NodePairingExchange {
    Resolve,
    Connect { address: usize, count: usize, within: TimeSpan },
    Configure { within: TimeSpan },
    Handshake { within: TimeSpan },
    Send,
    Receive,
    Decode,
}

/// Starts one exchange: the timeout must be valid, the flag clear and the deadline on the clock.
pub open spec fn exchange_started(
    timeout: TimeSpan,
    cancelled: bool,
    deadline_exists: bool,
) -> Result<NodePairingExchange, NodePairingTransportError> {
    if !timeout_valid(timeout) {
        Err(NodePairingTransportError::Unavailable)
    } else if cancelled {
        Err(NodePairingTransportError::Cancelled)
    } else if !deadline_exists {
        Err(NodePairingTransportError::TimedOut)
    } else {
        Ok(NodePairingExchange::Resolve)
    }
}

/// Starts one exchange.
pub fn start_exchange(
    timeout: TimeSpan,
    cancelled: bool,
    deadline_exists: bool,
) -> (next: Result<NodePairingExchange, NodePairingTransportError>)
    ensures
        next == exchange_started(timeout, cancelled, deadline_exists),
{
    match validate_timeout(timeout) {
        Ok(()) => {},
        Err(error) => {
            return Err(transport_tls_error(error));
        },
    }
    if cancelled {
        return Err(NodePairingTransportError::Cancelled);
    }
    if !deadline_exists {
        return Err(transport_tls_error(NodePairingTlsError::TimedOut));
    }
    Ok(NodePairingExchange::Resolve)
}

/// The step that tries one of several addresses, or the failure when none is left.
pub open spec fn connection_tried(
    address: usize,
    count: usize,
    seen: ExchangeObservation,
) -> Result<
    NodePairingExchange,
    NodePairingTransportError,
> {
    if address >= count {
        Err(NodePairingTransportError::Unavailable)
    } else if seen.cancelled {
        Err(NodePairingTransportError::Cancelled)
    } else {
        match time_left(seen.until_deadline) {
            Err(error) => Err(error),
            Ok(within) => Ok(NodePairingExchange::Connect { address, count, within }),
        }
    }
}

fn try_address(address: usize, count: usize, seen: ExchangeObservation) -> (next: Result<
    NodePairingExchange,
    NodePairingTransportError,
>)
    ensures
        next == connection_tried(address, count, seen),
{
    if address >= count {
        return Err(NodePairingTransportError::Unavailable);
    }
    if seen.cancelled {
        return Err(NodePairingTransportError::Cancelled);
    }
    let within = remaining(seen.until_deadline)?;
    Ok(NodePairingExchange::Connect { address, count, within })
}

/// What follows a resolution that gave `count` addresses, or failed.
pub open spec fn addresses_resolved(count: Option<usize>, seen: ExchangeObservation) -> Result<
    NodePairingExchange,
    NodePairingTransportError,
> {
    match count {
        Some(count) if 0 < count <= MAXIMUM_RESOLVED_ADDRESSES => connection_tried(0, count, seen),
        _ => Err(NodePairingTransportError::Unavailable),
    }
}

/// Goes on after the name was resolved.
pub fn after_resolution(count: Option<usize>, seen: ExchangeObservation) -> (next: Result<
    NodePairingExchange,
    NodePairingTransportError,
>)
    ensures
        next == addresses_resolved(count, seen),
{
    match count {
        Some(count) => {
            if count == 0 || count > MAXIMUM_RESOLVED_ADDRESSES {
                return Err(NodePairingTransportError::Unavailable);
            }
            try_address(0, count, seen)
        },
        None => Err(NodePairingTransportError::Unavailable),
    }
}

/// What follows one attempt: the socket is configured, or the next address is tried.
pub open spec fn address_tried(
    address: usize,
    count: usize,
    connected: bool,
    seen: ExchangeObservation,
) -> Result<NodePairingExchange, NodePairingTransportError> {
    if !connected {
        connection_tried((address + 1) as usize, count, seen)
    } else {
        match time_left(seen.until_deadline) {
            Err(error) => Err(error),
            Ok(within) => Ok(NodePairingExchange::Configure { within }),
        }
    }
}

/// Goes on after one address was tried.
pub fn after_attempt(
    address: usize,
    count: usize,
    connected: bool,
    seen: ExchangeObservation,
) -> (next:
    Result<NodePairingExchange, NodePairingTransportError>)
    requires
        address < count,
    ensures
        next == address_tried(address, count, connected, seen),
{
    if !connected {
        return try_address(address + 1, count, seen);
    }
    let within = remaining(seen.until_deadline)?;
    Ok(NodePairingExchange::Configure { within })
}

/// What follows the configuration of the socket, or one turn of the handshake: another turn while
/// the handshake lasts, then the request unless the flag was set.
pub open spec fn handshake_due(handshaking: bool, seen: ExchangeObservation) -> Result<
    NodePairingExchange,
    NodePairingTransportError,
> {
    if handshaking {
        match time_left(seen.until_deadline) {
            Err(error) => Err(error),
            Ok(within) => Ok(NodePairingExchange::Handshake { within }),
        }
    } else if seen.cancelled {
        Err(NodePairingTransportError::Cancelled)
    } else {
        Ok(NodePairingExchange::Send)
    }
}

/// Goes on after the socket and the connection were set up.
pub fn after_configuration(
    configured: bool,
    handshaking: bool,
    seen: ExchangeObservation,
) -> (next: Result<NodePairingExchange, NodePairingTransportError>)
    ensures
        next == (if configured {
            handshake_due(handshaking, seen)
        } else {
            Err(NodePairingTransportError::Unavailable)
        }),
{
    if !configured {
        return Err(NodePairingTransportError::Unavailable);
    }
    if handshaking {
        let within = remaining(seen.until_deadline)?;
        return Ok(NodePairingExchange::Handshake { within });
    }
    if seen.cancelled {
        return Err(NodePairingTransportError::Cancelled);
    }
    Ok(NodePairingExchange::Send)
}

/// Goes on after one turn of the handshake.
pub fn after_handshake(
    turn: Result<(), NativeErrorKind>,
    handshaking: bool,
    seen: ExchangeObservation,
) -> (next: Result<NodePairingExchange, NodePairingTransportError>)
    ensures
        next == (match turn {
            Ok(()) => handshake_due(handshaking, seen),
            Err(kind) => Err(blocking_failure(kind)),
        }),
{
    match turn {
        Ok(()) => after_configuration(true, handshaking, seen),
        Err(kind) => Err(blocking_io_error(kind)),
    }
}

/// The outcome of moving one whole frame, with the deadline looked at again afterwards.
pub open spec fn frame_moved(
    moved: Result<(), NativeErrorKind>,
    seen: ExchangeObservation,
) -> Result<
    (),
    NodePairingTransportError,
> {
    match moved {
        Err(kind) => Err(blocking_failure(kind)),
        Ok(()) => match time_left(seen.until_deadline) {
            Err(error) => Err(error),
            Ok(_) => not_cancelled(seen.cancelled),
        },
    }
}

/// Goes on after the request frame was written.
pub fn after_send(moved: Result<(), NativeErrorKind>, seen: ExchangeObservation) -> (next: Result<
    NodePairingExchange,
    NodePairingTransportError,
>)
    ensures
        next == (match frame_moved(moved, seen) {
            Ok(()) => Ok(NodePairingExchange::Receive),
            Err(error) => Err(error),
        }),
{
    match moved {
        Ok(()) => {},
        Err(kind) => {
            return Err(blocking_io_error(kind));
        },
    }
    remaining(seen.until_deadline)?;
    if seen.cancelled {
        return Err(NodePairingTransportError::Cancelled);
    }
    Ok(NodePairingExchange::Receive)
}

/// Goes on after the response frame was read.
pub fn after_receive(
    moved: Result<(), NativeErrorKind>,
    seen: ExchangeObservation,
) -> (next: Result<
    NodePairingExchange,
    NodePairingTransportError,
>)
    ensures
        next == (match frame_moved(moved, seen) {
            Ok(()) => Ok(NodePairingExchange::Decode),
            Err(error) => Err(error),
        }),
{
    match after_send(moved, seen) {
        Ok(_) => Ok(NodePairingExchange::Decode),
        Err(error) => Err(error),
    }
}

/// A set flag stops an exchange before its next connection and before its request is sent.
pub proof fn law_cancelled_exchange_stops(
    address: usize,
    count: usize,
    until_deadline: Option<TimeSpan>,
)
    requires
        address < count,
    ensures
        connection_tried(
            address,
            count,
            (ExchangeObservation { cancelled: true, until_deadline }),
        ) == Err::<NodePairingExchange, NodePairingTransportError>(
            NodePairingTransportError::Cancelled,
        ),
        handshake_due(false, (ExchangeObservation { cancelled: true, until_deadline })) == Err::<
            NodePairingExchange,
            NodePairingTransportError,
        >(NodePairingTransportError::Cancelled),
{
}

/// An elapsed deadline stops an exchange before its next connection and its next handshake turn,
/// whatever came before.
pub proof fn law_elapsed_exchange_stops(address: usize, count: usize)
    requires
        address < count,
    ensures
        connection_tried(
            address,
            count,
            (ExchangeObservation { cancelled: false, until_deadline: None }),
        ) == Err::<NodePairingExchange, NodePairingTransportError>(
            NodePairingTransportError::TimedOut,
        ),
        handshake_due(true, (ExchangeObservation { cancelled: false, until_deadline: None }))
            == Err::<NodePairingExchange, NodePairingTransportError>(
            NodePairingTransportError::TimedOut,
        ),
{
}

// ---------------------------------------------------------------------------
// The server side
// ---------------------------------------------------------------------------

/// What one document is answered with, and which calls are made for it.
pub open spec fn document_answered(
    world: NodePairingWorld,
    document: WireDocumentView,
    observed_peer_address: Seq<char>,
) -> (NodePairingWorld, Result<WireDocumentView, NodePairingTlsError>) {
    match request_read(document) {
        Err(_) => (world, Err(NodePairingTlsError::RequestRejected)),
        Ok(request) => {
            let handled = request_handled(world, request, observed_peer_address);
            (
                handled.0,
                match handled.1 {
                    Ok(response) if response_bounded(response) => Ok(response_document(response)),
                    _ => Err(NodePairingTlsError::RequestRejected),
                },
            )
        },
    }
}

/// Answers one decoded document through the endpoint; every failure is one rejection.
pub fn answer_document<
    P: NodePairingApiPort + NodePairingCandidateOfferPort + NodePairingLocalNodePort,
>(
    endpoint: &mut NodePairingDocumentEndpoint<P>,
    document: WireDocument,
    observed_peer_address: &NodeAddress,
) -> (response: Result<WireDocument, NodePairingTlsError>)
    ensures
        (final(endpoint).ports.world(), outcome(response)) == document_answered(
            old(endpoint).ports.world(),
            document@,
            observed_peer_address@,
        ),
{
    let request = match document.into_request() {
        Ok(request) => request,
        Err(_) => {
            return Err(NodePairingTlsError::RequestRejected);
        },
    };
    let response = match endpoint.handle(request, observed_peer_address) {
        Ok(response) => response,
        Err(_) => {
            return Err(NodePairingTlsError::RequestRejected);
        },
    };
    match response_to_document(&response) {
        Ok(document) => Ok(document),
        Err(_) => Err(NodePairingTlsError::RequestRejected),
    }
}

/// A document that cannot be read is answered without a single call.
pub proof fn law_malformed_request_calls_nothing(
    world: NodePairingWorld,
    document: WireDocumentView,
    observed_peer_address: Seq<char>,
)
    requires
        request_read(document) is Err,
    ensures
        document_answered(world, document, observed_peer_address) == (
            world,
            Err::<WireDocumentView, NodePairingTlsError>(NodePairingTlsError::RequestRejected),
        ),
{
}

/// Reports how one served connection ended: the last flush first, then the close.
pub fn connection_closed(
    flushed: Result<(), NativeErrorKind>,
    closed: Result<(), NodePrivateRemoteNetworkError>,
) -> (result: Result<(), NodePairingTlsError>)
    ensures
        result == (match (flushed, closed) {
            (Err(kind), _) => Err(server_failure(kind)),
            (Ok(()), Err(error)) => Err(network_failure(error)),
            (Ok(()), Ok(())) => Ok::<(), NodePairingTlsError>(()),
        }),
{
    match flushed {
        Err(kind) => Err(io_error(kind)),
        Ok(()) => match closed {
            Err(error) => Err(network_error(error)),
            Ok(()) => Ok(()),
        },
    }
}

// ---------------------------------------------------------------------------
// Failures
// ---------------------------------------------------------------------------

/// The kinds of native I/O failures that are told apart.
#[derive(Clone, Copy, Debug, PartialEq, Eq, Structural)]
pub enum NativeErrorKind {
    TimedOut,
    WouldBlock,
    Interrupted,
    InvalidData,
    NotFound,
    ConnectionRefused,
    NotConnected,
    Other,
}

/// The failures of one nonblocking network stream.
#[derive(Clone, Copy, Debug, PartialEq, Eq, Structural)]
pub enum NodePrivateRemoteNetworkError {
    TimedOut,
    Interrupted,
    WouldBlock,
    Unavailable,
}

/// The server failure of one network failure.
pub open spec fn network_failure(error: NodePrivateRemoteNetworkError) -> NodePairingTlsError {
    if error == NodePrivateRemoteNetworkError::TimedOut {
        NodePairingTlsError::TimedOut
    } else {
        NodePairingTlsError::ConnectionUnavailable
    }
}

/// Maps nonblocking transport outcomes into stable server TLS failures.
pub fn network_error(error: NodePrivateRemoteNetworkError) -> (mapped: NodePairingTlsError)
    ensures
        mapped == network_failure(error),
{
    match error {
        NodePrivateRemoteNetworkError::TimedOut => NodePairingTlsError::TimedOut,
        _ => NodePairingTlsError::ConnectionUnavailable,
    }
}

/// The native kind of one network failure.
pub open spec fn network_kind(error: NodePrivateRemoteNetworkError) -> NativeErrorKind {
    match error {
        NodePrivateRemoteNetworkError::TimedOut => NativeErrorKind::TimedOut,
        NodePrivateRemoteNetworkError::Interrupted => NativeErrorKind::Interrupted,
        NodePrivateRemoteNetworkError::WouldBlock => NativeErrorKind::WouldBlock,
        NodePrivateRemoteNetworkError::Unavailable => NativeErrorKind::Other,
    }
}

/// Maps one nonblocking transport failure into the I/O vocabulary that TLS consumes.
pub fn network_io_error(error: NodePrivateRemoteNetworkError) -> (kind: NativeErrorKind)
    ensures
        kind == network_kind(error),
{
    match error {
        NodePrivateRemoteNetworkError::TimedOut => NativeErrorKind::TimedOut,
        NodePrivateRemoteNetworkError::Interrupted => NativeErrorKind::Interrupted,
        NodePrivateRemoteNetworkError::WouldBlock => NativeErrorKind::WouldBlock,
        NodePrivateRemoteNetworkError::Unavailable => NativeErrorKind::Other,
    }
}

/// Returns whether one fragment is tried again: only an interruption or an early wake-up is.
pub fn retries_fragment(error: NodePrivateRemoteNetworkError) -> (again: bool)
    ensures
        again == (error == NodePrivateRemoteNetworkError::Interrupted || error
            == NodePrivateRemoteNetworkError::WouldBlock),
{
    matches!(
        error,
        NodePrivateRemoteNetworkError::Interrupted | NodePrivateRemoteNetworkError::WouldBlock
    )
}

/// The server failure of one native failure.
pub open spec fn server_failure(kind: NativeErrorKind) -> NodePairingTlsError {
    match kind {
        NativeErrorKind::TimedOut | NativeErrorKind::WouldBlock => NodePairingTlsError::TimedOut,
        NativeErrorKind::InvalidData => NodePairingTlsError::UntrustedPeer,
        _ => NodePairingTlsError::FrameUnavailable,
    }
}

/// Maps server I/O without retaining TLS or native diagnostics.
pub fn io_error(kind: NativeErrorKind) -> (mapped: NodePairingTlsError)
    ensures
        mapped == server_failure(kind),
{
    match kind {
        NativeErrorKind::TimedOut | NativeErrorKind::WouldBlock => NodePairingTlsError::TimedOut,
        NativeErrorKind::InvalidData => NodePairingTlsError::UntrustedPeer,
        _ => NodePairingTlsError::FrameUnavailable,
    }
}

/// The client failure of one native failure.
pub open spec fn blocking_failure(kind: NativeErrorKind) -> NodePairingTransportError {
    match kind {
        NativeErrorKind::TimedOut | NativeErrorKind::WouldBlock => {
            NodePairingTransportError::TimedOut
        },
        NativeErrorKind::InvalidData => NodePairingTransportError::UntrustedPeer,
        _ => NodePairingTransportError::Unavailable,
    }
}

/// Maps blocking client I/O without retaining peer or native diagnostics.
pub fn blocking_io_error(kind: NativeErrorKind) -> (mapped: NodePairingTransportError)
    ensures
        mapped == blocking_failure(kind),
{
    match kind {
        NativeErrorKind::TimedOut | NativeErrorKind::WouldBlock => {
            NodePairingTransportError::TimedOut
        },
        NativeErrorKind::InvalidData => NodePairingTransportError::UntrustedPeer,
        _ => NodePairingTransportError::Unavailable,
    }
}

/// The client failure of one TLS failure.
pub open spec fn transport_failure(error: NodePairingTlsError) -> NodePairingTransportError {
    match error {
        NodePairingTlsError::TimedOut => NodePairingTransportError::TimedOut,
        NodePairingTlsError::Cancelled => NodePairingTransportError::Cancelled,
        NodePairingTlsError::UntrustedPeer => NodePairingTransportError::UntrustedPeer,
        NodePairingTlsError::RequestRejected | NodePairingTlsError::FrameUnavailable => {
            NodePairingTransportError::RequestRejected
        },
        _ => NodePairingTransportError::Unavailable,
    }
}

/// Maps dedicated TLS configuration failures into the public client transport domain.
pub fn transport_tls_error(error: NodePairingTlsError) -> (mapped: NodePairingTransportError)
    ensures
        mapped == transport_failure(error),
{
    match error {
        NodePairingTlsError::TimedOut => NodePairingTransportError::TimedOut,
        NodePairingTlsError::Cancelled => NodePairingTransportError::Cancelled,
        NodePairingTlsError::UntrustedPeer => NodePairingTransportError::UntrustedPeer,
        NodePairingTlsError::RequestRejected | NodePairingTlsError::FrameUnavailable => {
            NodePairingTransportError::RequestRejected
        },
        _ => NodePairingTransportError::Unavailable,
    }
}

} // verus!
