//! The paired private client's rules: identity files, frames, deadlines and the exchange.

use vstd::prelude::*;

use crate::identity::TimeSpan;
use crate::node_pairing_tls::{
    announced, distinct_files, frame, outcome_items, timeout_valid, ExchangeObservation,
    NativeErrorKind,
    NodePairingCancellationPort, FRAME_HEADER_BYTES, MAXIMUM_CERTIFICATE_BYTES,
    MAXIMUM_PRIVATE_KEY_BYTES, MAXIMUM_RESOLVED_ADDRESSES, MAXIMUM_TIMEOUT_NANOSECONDS,
};
use crate::path::UnixPath;
use crate::pem::{
    all_certificates, all_items, is_key, item_views, key_kind, only_certificates, pem_items, read_pem_items,
    PemItem, PemItemView,
};
use crate::sequence::{copy_bytes, outcome, views};
use crate::text::{append_be_bytes, be_number_32};

verus! {

/// The largest private document in bytes. The bound is this library's own choice.
pub const NODE_PRIVATE_MAX_DOCUMENT_BYTES: usize = 1048576;

/// Names closed paired-client failures without retaining addresses, paths, or TLS diagnostics.
#[derive(Clone, Copy, Debug, PartialEq, Eq, Structural)]
pub enum NodePrivateRemoteClientError {
    InvalidConfiguration,
    UnsafeFile,
    MalformedCertificate,
    MalformedPrivateKey,
    Unavailable,
    TimedOut,
    Cancelled,
    UntrustedPeer,
    RequestTooLarge,
    ResponseTooLarge,
    MalformedResponse,
}

impl NodePrivateRemoteClientError {
    /// The fixed text of the failure.
    pub open spec fn text(self) -> Seq<char> {
        match self {
            NodePrivateRemoteClientError::InvalidConfiguration => {
                "paired private Node client configuration is invalid"@
            },
            NodePrivateRemoteClientError::UnsafeFile => {
                "paired private Node identity file is unsafe"@
            },
            NodePrivateRemoteClientError::MalformedCertificate => {
                "paired private Node certificate is malformed"@
            },
            NodePrivateRemoteClientError::MalformedPrivateKey => {
                "paired private Node key is malformed"@
            },
            NodePrivateRemoteClientError::Unavailable => {
                "paired private Node endpoint is unavailable"@
            },
            NodePrivateRemoteClientError::TimedOut => "paired private Node request timed out"@,
            NodePrivateRemoteClientError::Cancelled => "paired private Node request was cancelled"@,
            NodePrivateRemoteClientError::UntrustedPeer => "paired private Node peer is untrusted"@,
            NodePrivateRemoteClientError::RequestTooLarge => {
                "paired private Node request is oversized"@
            },
            NodePrivateRemoteClientError::ResponseTooLarge => {
                "paired private Node response is oversized"@
            },
            NodePrivateRemoteClientError::MalformedResponse => {
                "paired private Node response is malformed"@
            },
        }
    }

    /// Presents stable redacted language for the private paired-client boundary.
    pub fn message(&self) -> (text: &'static str)
        ensures
            text@ == self.text(),
    {
        match self {
            NodePrivateRemoteClientError::InvalidConfiguration => {
                "paired private Node client configuration is invalid"
            },
            NodePrivateRemoteClientError::UnsafeFile => {
                "paired private Node identity file is unsafe"
            },
            NodePrivateRemoteClientError::MalformedCertificate => {
                "paired private Node certificate is malformed"
            },
            NodePrivateRemoteClientError::MalformedPrivateKey => {
                "paired private Node key is malformed"
            },
            NodePrivateRemoteClientError::Unavailable => {
                "paired private Node endpoint is unavailable"
            },
            NodePrivateRemoteClientError::TimedOut => "paired private Node request timed out",
            NodePrivateRemoteClientError::Cancelled => "paired private Node request was cancelled",
            NodePrivateRemoteClientError::UntrustedPeer => "paired private Node peer is untrusted",
            NodePrivateRemoteClientError::RequestTooLarge => {
                "paired private Node request is oversized"
            },
            NodePrivateRemoteClientError::ResponseTooLarge => {
                "paired private Node response is oversized"
            },
            NodePrivateRemoteClientError::MalformedResponse => {
                "paired private Node response is malformed"
            },
        }
    }
}

/// Binds one child certificate and its existing local identity key to exact owner-only files.
pub struct NodePrivateRemoteClientFileSet {
    owner_user_id: u32,
    client_certificate_file: UnixPath,
    client_private_key_file: UnixPath,
}

/// What one [`NodePrivateRemoteClientFileSet`] holds.
pub struct NodePrivateRemoteClientFileSetView {
    pub owner_user_id: u32,
    pub client_certificate_file: Seq<u8>,
    pub client_private_key_file: Seq<u8>,
}

impl View for NodePrivateRemoteClientFileSet {
    type V = NodePrivateRemoteClientFileSetView;

    closed spec fn view(&self) -> NodePrivateRemoteClientFileSetView {
        NodePrivateRemoteClientFileSetView {
            owner_user_id: self.owner_user_id,
            client_certificate_file: self.client_certificate_file@,
            client_private_key_file: self.client_private_key_file@,
        }
    }
}

impl NodePrivateRemoteClientFileSet {
    #[verifier::type_invariant]
    closed spec fn is_unambiguous(self) -> bool {
        distinct_files(self.client_certificate_file@, self.client_private_key_file@)
    }

    /// Creates one file set only from distinct absolute certificate and private-key paths.
    pub fn new(
        owner_user_id: u32,
        client_certificate_file: UnixPath,
        client_private_key_file: UnixPath,
    ) -> (result: Result<Self, NodePrivateRemoteClientError>)
        ensures
            outcome(result) == (if distinct_files(
                client_certificate_file@,
                client_private_key_file@,
            ) {
                Ok::<NodePrivateRemoteClientFileSetView, NodePrivateRemoteClientError>(
                    NodePrivateRemoteClientFileSetView {
                        owner_user_id,
                        client_certificate_file: client_certificate_file@,
                        client_private_key_file: client_private_key_file@,
                    },
                )
            } else {
                Err(NodePrivateRemoteClientError::InvalidConfiguration)
            }),
    {
        if !client_certificate_file.is_absolute() || !client_private_key_file.is_absolute()
            || client_certificate_file.names_same_file(&client_private_key_file) {
            return Err(NodePrivateRemoteClientError::InvalidConfiguration);
        }
        Ok(
            NodePrivateRemoteClientFileSet {
                owner_user_id,
                client_certificate_file,
                client_private_key_file,
            },
        )
    }

    /// Returns the owner of both files.
    pub fn owner_user_id(&self) -> (uid: u32)
        ensures
            uid == self@.owner_user_id,
    {
        self.owner_user_id
    }

    /// Returns the certificate file; it is never the private key file.
    pub fn client_certificate_file(&self) -> (path: &UnixPath)
        ensures
            path@ == self@.client_certificate_file,
            distinct_files(self@.client_certificate_file, self@.client_private_key_file),
    {
        proof {
            use_type_invariant(self);
        }
        &self.client_certificate_file
    }

    /// Returns the private key file; it is never the certificate file.
    pub fn client_private_key_file(&self) -> (path: &UnixPath)
        ensures
            path@ == self@.client_private_key_file,
            distinct_files(self@.client_certificate_file, self@.client_private_key_file),
    {
        proof {
            use_type_invariant(self);
        }
        &self.client_private_key_file
    }
}

// ---------------------------------------------------------------------------
// Identity files
// ---------------------------------------------------------------------------

/// What the no-follow provider read of one private file.
pub struct PrivateFile {
    pub owner_uid: u32,
    pub mode: u32,
    pub link_count: u64,
    pub is_regular_file: bool,
    pub bytes: Vec<u8>,
}

/// What one [`PrivateFile`] holds.
pub struct PrivateFileView {
    pub owner_uid: u32,
    pub mode: u32,
    pub link_count: u64,
    pub is_regular_file: bool,
    pub bytes: Seq<u8>,
}

impl View for PrivateFile {
    type V = PrivateFileView;

    open spec fn view(&self) -> PrivateFileView {
        PrivateFileView {
            owner_uid: self.owner_uid,
            mode: self.mode,
            link_count: self.link_count,
            is_regular_file: self.is_regular_file,
            bytes: self.bytes@,
        }
    }
}

/// A regular owner-only file with one name and a bounded content.
pub open spec fn file_safe(
    file: PrivateFileView,
    owner_user_id: u32,
    maximum_bytes: usize,
) -> bool {
    &&& file.owner_uid == owner_user_id
    &&& file.mode == 0o600
    &&& file.link_count == 1
    &&& file.is_regular_file
    &&& 0 < file.bytes.len() <= maximum_bytes
}

/// The content of one file, if it was read and is safe.
pub open spec fn safe_content(
    file: Option<PrivateFileView>,
    owner_user_id: u32,
    maximum_bytes: usize,
) -> Result<Seq<u8>, NodePrivateRemoteClientError> {
    match file {
        Some(file) if file_safe(file, owner_user_id, maximum_bytes) => Ok(file.bytes),
        _ => Err(NodePrivateRemoteClientError::UnsafeFile),
    }
}

/// One outcome of bytes by view.
pub open spec fn outcome_content(result: Result<Vec<u8>, NodePrivateRemoteClientError>) -> Result<
    Seq<u8>,
    NodePrivateRemoteClientError,
> {
    match result {
        Ok(bytes) => Ok(bytes@),
        Err(error) => Err(error),
    }
}

/// The file by view, if it was read.
pub open spec fn private_view(file: Option<PrivateFile>) -> Option<PrivateFileView> {
    match file {
        Some(file) => Some(file@),
        None => None,
    }
}

/// Takes the content of one file that the provider read, rechecking its metadata.
pub fn private_file(
    file: Option<PrivateFile>,
    owner_user_id: u32,
    maximum_bytes: usize,
) -> (content:
    Result<Vec<u8>, NodePrivateRemoteClientError>)
    ensures
        outcome_content(content) == safe_content(private_view(file), owner_user_id, maximum_bytes),
{
    match file {
        Some(file) => {
            if file.owner_uid != owner_user_id || file.mode != 0o600 || file.link_count != 1
                || !file.is_regular_file || file.bytes.len() == 0 || file.bytes.len()
                > maximum_bytes {
                return Err(NodePrivateRemoteClientError::UnsafeFile);
            }
            Ok(file.bytes)
        },
        None => Err(NodePrivateRemoteClientError::UnsafeFile),
    }
}

/// The chain of one certificate-only file.
pub open spec fn client_chain_of(items: Option<Seq<PemItemView>>) -> Result<
    Seq<PemItemView>,
    NodePrivateRemoteClientError,
> {
    match items {
        Some(items) if items.len() > 0 && all_certificates(items) => Ok(items),
        _ => Err(NodePrivateRemoteClientError::MalformedCertificate),
    }
}

/// Requires the sections that a file held to be certificates and at least one.
pub fn client_chain(items: Option<Vec<PemItem>>) -> (chain: Result<
    Vec<PemItem>,
    NodePrivateRemoteClientError,
>)
    ensures
        outcome_items(chain) == client_chain_of(item_views(items)),
{
    match items {
        Some(items) => {
            if !only_certificates(&items) || items.len() == 0 {
                return Err(NodePrivateRemoteClientError::MalformedCertificate);
            }
            Ok(items)
        },
        None => Err(NodePrivateRemoteClientError::MalformedCertificate),
    }
}

/// Parses one certificate-only PEM chain containing at least one certificate.
pub fn client_certificates(bytes: &[u8]) -> (chain: Result<
    Vec<PemItem>,
    NodePrivateRemoteClientError,
>)
    ensures
        outcome_items(chain) == client_chain_of(all_items(pem_items(bytes@))),
{
    client_chain(read_pem_items(bytes))
}

/// The key of one file that holds nothing else.
pub open spec fn client_key_of(items: Option<Seq<PemItemView>>) -> Result<
    PemItemView,
    NodePrivateRemoteClientError,
> {
    match items {
        Some(items) if items.len() == 1 && key_kind(items[0].kind) => Ok(items[0]),
        _ => Err(NodePrivateRemoteClientError::MalformedPrivateKey),
    }
}

/// Requires the sections that a file held to be exactly one supported key.
pub fn client_key(items: Option<Vec<PemItem>>) -> (key: Result<
    PemItem,
    NodePrivateRemoteClientError,
>)
    ensures
        outcome(key) == client_key_of(item_views(items)),
{
    match items {
        Some(items) => {
            if items.len() != 1 {
                return Err(NodePrivateRemoteClientError::MalformedPrivateKey);
            }
            assert(views(items@)[0] == items@[0]@);
            if !is_key(items[0].kind) {
                return Err(NodePrivateRemoteClientError::MalformedPrivateKey);
            }
            Ok(PemItem { kind: items[0].kind, bytes: copy_bytes(&items[0].bytes) })
        },
        None => Err(NodePrivateRemoteClientError::MalformedPrivateKey),
    }
}

/// Parses exactly one supported PEM private key.
pub fn private_key_value(bytes: &[u8]) -> (key: Result<PemItem, NodePrivateRemoteClientError>)
    ensures
        outcome(key) == client_key_of(all_items(pem_items(bytes@))),
{
    client_key(read_pem_items(bytes))
}

/// One paired client identity as its two files hold it.
pub struct NodePrivateRemoteClientIdentity {
    pub chain: Vec<PemItem>,
    pub key: PemItem,
}

/// What loading one client identity gives: both files must be safe, then the chain and the key are
/// parsed.
pub open spec fn client_identity_of(
    owner_user_id: u32,
    certificate: Option<PrivateFileView>,
    private_key: Option<PrivateFileView>,
) -> Result<(Seq<PemItemView>, PemItemView), NodePrivateRemoteClientError> {
    match safe_content(certificate, owner_user_id, MAXIMUM_CERTIFICATE_BYTES) {
        Err(error) => Err(error),
        Ok(certificate) => match safe_content(
            private_key,
            owner_user_id,
            MAXIMUM_PRIVATE_KEY_BYTES,
        ) {
            Err(error) => Err(error),
            Ok(private_key) => match client_chain_of(all_items(pem_items(certificate))) {
                Err(error) => Err(error),
                Ok(chain) => match client_key_of(all_items(pem_items(private_key))) {
                    Err(error) => Err(error),
                    Ok(key) => Ok((chain, key)),
                },
            },
        },
    }
}

/// Loads one client identity from the two files as the no-follow provider read them.
pub fn load_client_identity(
    owner_user_id: u32,
    certificate: Option<PrivateFile>,
    private_key: Option<PrivateFile>,
) -> (identity: Result<NodePrivateRemoteClientIdentity, NodePrivateRemoteClientError>)
    ensures
        match identity {
            Ok(identity) => client_identity_of(
                owner_user_id,
                private_view(certificate),
                private_view(private_key),
            ) == Ok::<(Seq<PemItemView>, PemItemView), NodePrivateRemoteClientError>(
                (views(identity.chain@), identity.key@),
            ),
            Err(error) => client_identity_of(
                owner_user_id,
                private_view(certificate),
                private_view(private_key),
            ) == Err::<(Seq<PemItemView>, PemItemView), NodePrivateRemoteClientError>(error),
        },
{
    let certificate = private_file(certificate, owner_user_id, MAXIMUM_CERTIFICATE_BYTES)?;
    let private_key = private_file(private_key, owner_user_id, MAXIMUM_PRIVATE_KEY_BYTES)?;
    let chain = client_certificates(certificate.as_slice())?;
    let key = private_key_value(private_key.as_slice())?;
    Ok(NodePrivateRemoteClientIdentity { chain, key })
}

/// An identity is never loaded from a file that someone else owns, can read or has linked.
pub proof fn law_unsafe_identity_is_refused(
    owner_user_id: u32,
    certificate: PrivateFileView,
    private_key: PrivateFileView,
)
    requires
        private_key.owner_uid != owner_user_id || private_key.mode != 0o600
            || private_key.link_count != 1 || !private_key.is_regular_file,
    ensures
        client_identity_of(owner_user_id, Some(certificate), Some(private_key)) == Err::<
            (Seq<PemItemView>, PemItemView),
            NodePrivateRemoteClientError,
        >(NodePrivateRemoteClientError::UnsafeFile),
{
}

// ---------------------------------------------------------------------------
// Frames
// ---------------------------------------------------------------------------

/// The inputs of one useful bounded exchange.
pub open spec fn exchange_checked(
    port: u16,
    request_length: nat,
    timeout: TimeSpan,
    maximum_response_bytes: usize,
) -> Result<(), NodePrivateRemoteClientError> {
    if port == 0 || !timeout_valid(timeout) {
        Err(NodePrivateRemoteClientError::InvalidConfiguration)
    } else if request_length == 0 || request_length > NODE_PRIVATE_MAX_DOCUMENT_BYTES {
        Err(NodePrivateRemoteClientError::RequestTooLarge)
    } else if maximum_response_bytes == 0 || maximum_response_bytes
        > NODE_PRIVATE_MAX_DOCUMENT_BYTES {
        Err(NodePrivateRemoteClientError::ResponseTooLarge)
    } else {
        Ok(())
    }
}

/// Requires useful bounded exchange inputs before any network work.
pub fn validate_exchange(
    port: u16,
    request: &[u8],
    timeout: TimeSpan,
    maximum_response_bytes: usize,
) -> (result: Result<(), NodePrivateRemoteClientError>)
    ensures
        result == exchange_checked(port, request@.len(), timeout, maximum_response_bytes),
{
    if port == 0 || timeout.nanoseconds == 0 || timeout.nanoseconds > MAXIMUM_TIMEOUT_NANOSECONDS {
        return Err(NodePrivateRemoteClientError::InvalidConfiguration);
    }
    if request.len() == 0 || request.len() > NODE_PRIVATE_MAX_DOCUMENT_BYTES {
        return Err(NodePrivateRemoteClientError::RequestTooLarge);
    }
    if maximum_response_bytes == 0 || maximum_response_bytes > NODE_PRIVATE_MAX_DOCUMENT_BYTES {
        return Err(NodePrivateRemoteClientError::ResponseTooLarge);
    }
    Ok(())
}

/// The length that one response header announces, within the caller's bound.
pub open spec fn response_length(header: Seq<u8>, maximum_response_bytes: usize) -> Result<
    usize,
    NodePrivateRemoteClientError,
> {
    if announced(header) == 0 {
        Err(NodePrivateRemoteClientError::MalformedResponse)
    } else if announced(header) > maximum_response_bytes || announced(header)
        > NODE_PRIVATE_MAX_DOCUMENT_BYTES {
        Err(NodePrivateRemoteClientError::ResponseTooLarge)
    } else {
        Ok(announced(header) as usize)
    }
}

/// Returns how many bytes follow one response header.
pub fn read_response_length(header: &[u8], maximum_response_bytes: usize) -> (length: Result<
    usize,
    NodePrivateRemoteClientError,
>)
    requires
        header@.len() == FRAME_HEADER_BYTES,
    ensures
        length == response_length(header@, maximum_response_bytes),
{
    let length: usize = be_number_32(header) as usize;
    if length == 0 {
        return Err(NodePrivateRemoteClientError::MalformedResponse);
    }
    if length > maximum_response_bytes || length > NODE_PRIVATE_MAX_DOCUMENT_BYTES {
        return Err(NodePrivateRemoteClientError::ResponseTooLarge);
    }
    Ok(length)
}

/// Returns the bytes of one exact request frame.
pub fn write_request_frame(request: &[u8]) -> (bytes: Result<Vec<u8>, NodePrivateRemoteClientError>)
    ensures
        match bytes {
            Ok(bytes) => request@.len() <= u32::MAX && bytes@ == frame(request@),
            Err(error) => request@.len() > u32::MAX && error
                == NodePrivateRemoteClientError::RequestTooLarge,
        },
{
    let length: u64 = request.len() as u64;
    if length > 0xffff_ffff {
        return Err(NodePrivateRemoteClientError::RequestTooLarge);
    }
    let mut bytes: Vec<u8> = Vec::new();
    append_be_bytes(&mut bytes, length, 4);
    bytes.extend_from_slice(request);
    assert(bytes@ =~= frame(request@));
    Ok(bytes)
}

// ---------------------------------------------------------------------------
// The exchange
// ---------------------------------------------------------------------------

/// The next native step of one private exchange.
#[derive(Clone, Copy, Debug, PartialEq, Eq, Structural)]
pub enum NodePrivateRemoteExchange {
    Resolve,
    Connect { address: usize, count: usize, within: TimeSpan },
    Configure { within: TimeSpan },
    Send,
    Receive,
    Finish,
}

/// What one observation of the flag gives.
pub open spec fn active(cancelled: bool) -> Result<(), NodePrivateRemoteClientError> {
    if cancelled {
        Err(NodePrivateRemoteClientError::Cancelled)
    } else {
        Ok(())
    }
}

/// Rejects work immediately after an externally requested cancellation.
pub fn require_active<P: NodePairingCancellationPort>(cancellation: &P) -> (result: Result<
    (),
    NodePrivateRemoteClientError,
>)
    ensures
        result == active(cancellation.cancelled()),
{
    if cancellation.is_cancelled() {
        Err(NodePrivateRemoteClientError::Cancelled)
    } else {
        Ok(())
    }
}

/// The positive time before one deadline that is not behind the clock.
pub open spec fn exchange_time_left(until: Option<TimeSpan>) -> Result<
    TimeSpan,
    NodePrivateRemoteClientError,
> {
    match until {
        Some(left) if left.nanoseconds > 0 => Ok(left),
        _ => Err(NodePrivateRemoteClientError::TimedOut),
    }
}

/// Returns only positive time remaining, given the time from the clock to the deadline.
pub fn exchange_remaining(until: Option<TimeSpan>) -> (left: Result<
    TimeSpan,
    NodePrivateRemoteClientError,
>)
    ensures
        left == exchange_time_left(until),
{
    match until {
        Some(left) => {
            if left.nanoseconds == 0 {
                return Err(NodePrivateRemoteClientError::TimedOut);
            }
            Ok(left)
        },
        None => Err(NodePrivateRemoteClientError::TimedOut),
    }
}

/// What starting one exchange gives: valid inputs, a clear flag and a deadline on the clock.
pub open spec fn private_exchange_started(
    port: u16,
    request_length: nat,
    timeout: TimeSpan,
    maximum_response_bytes: usize,
    cancelled: bool,
    deadline_exists: bool,
) -> Result<NodePrivateRemoteExchange, NodePrivateRemoteClientError> {
    match exchange_checked(port, request_length, timeout, maximum_response_bytes) {
        Err(error) => Err(error),
        Ok(()) => if cancelled {
            Err(NodePrivateRemoteClientError::Cancelled)
        } else if !deadline_exists {
            Err(NodePrivateRemoteClientError::TimedOut)
        } else {
            Ok(NodePrivateRemoteExchange::Resolve)
        },
    }
}

/// Starts one exchange.
pub fn start_private_exchange(
    port: u16,
    request: &[u8],
    timeout: TimeSpan,
    maximum_response_bytes: usize,
    cancelled: bool,
    deadline_exists: bool,
) -> (next: Result<NodePrivateRemoteExchange, NodePrivateRemoteClientError>)
    ensures
        next == private_exchange_started(
            port,
            request@.len(),
            timeout,
            maximum_response_bytes,
            cancelled,
            deadline_exists,
        ),
{
    validate_exchange(port, request, timeout, maximum_response_bytes)?;
    if cancelled {
        return Err(NodePrivateRemoteClientError::Cancelled);
    }
    if !deadline_exists {
        return Err(NodePrivateRemoteClientError::TimedOut);
    }
    Ok(NodePrivateRemoteExchange::Resolve)
}

/// The step that tries one of several addresses, or the failure when none is left.
pub open spec fn private_connection_tried(
    address: usize,
    count: usize,
    seen: ExchangeObservation,
) -> Result<NodePrivateRemoteExchange, NodePrivateRemoteClientError> {
    if address >= count {
        Err(NodePrivateRemoteClientError::Unavailable)
    } else if seen.cancelled {
        Err(NodePrivateRemoteClientError::Cancelled)
    } else {
        match exchange_time_left(seen.until_deadline) {
            Err(error) => Err(error),
            Ok(within) => Ok(NodePrivateRemoteExchange::Connect { address, count, within }),
        }
    }
}

fn try_private_address(address: usize, count: usize, seen: ExchangeObservation) -> (next: Result<
    NodePrivateRemoteExchange,
    NodePrivateRemoteClientError,
>)
    ensures
        next == private_connection_tried(address, count, seen),
{
    if address >= count {
        return Err(NodePrivateRemoteClientError::Unavailable);
    }
    if seen.cancelled {
        return Err(NodePrivateRemoteClientError::Cancelled);
    }
    let within = exchange_remaining(seen.until_deadline)?;
    Ok(NodePrivateRemoteExchange::Connect { address, count, within })
}

/// What follows a resolution that gave `count` addresses, or failed.
pub open spec fn private_addresses_resolved(
    count: Option<usize>,
    seen: ExchangeObservation,
) -> Result<NodePrivateRemoteExchange, NodePrivateRemoteClientError> {
    match count {
        Some(count) if 0 < count <= MAXIMUM_RESOLVED_ADDRESSES => private_connection_tried(
            0,
            count,
            seen,
        ),
        _ => Err(NodePrivateRemoteClientError::Unavailable),
    }
}

/// Goes on after the name was resolved.
pub fn after_private_resolution(count: Option<usize>, seen: ExchangeObservation) -> (next: Result<
    NodePrivateRemoteExchange,
    NodePrivateRemoteClientError,
>)
    ensures
        next == private_addresses_resolved(count, seen),
{
    match count {
        Some(count) => {
            if count == 0 || count > MAXIMUM_RESOLVED_ADDRESSES {
                return Err(NodePrivateRemoteClientError::Unavailable);
            }
            try_private_address(0, count, seen)
        },
        None => Err(NodePrivateRemoteClientError::Unavailable),
    }
}

/// What follows one attempt: the socket is configured, or the next address is tried.
pub open spec fn private_address_tried(
    address: usize,
    count: usize,
    connected: bool,
    seen: ExchangeObservation,
) -> Result<NodePrivateRemoteExchange, NodePrivateRemoteClientError> {
    if !connected {
        private_connection_tried((address + 1) as usize, count, seen)
    } else {
        match exchange_time_left(seen.until_deadline) {
            Err(error) => Err(error),
            Ok(within) => Ok(NodePrivateRemoteExchange::Configure { within }),
        }
    }
}

/// Goes on after one address was tried.
pub fn after_private_attempt(
    address: usize,
    count: usize,
    connected: bool,
    seen: ExchangeObservation,
) -> (next: Result<NodePrivateRemoteExchange, NodePrivateRemoteClientError>)
    requires
        address < count,
    ensures
        next == private_address_tried(address, count, connected, seen),
{
    if !connected {
        return try_private_address(address + 1, count, seen);
    }
    let within = exchange_remaining(seen.until_deadline)?;
    Ok(NodePrivateRemoteExchange::Configure { within })
}

/// How setting up the socket and the TLS client ended.
#[derive(Clone, Copy, Debug, PartialEq, Eq, Structural)]
pub enum ExchangeSetup {
    Ready,
    SocketFailed,
    IdentityFailed,
    ConnectionFailed,
}

/// What follows the set-up: the request, unless the flag was set or the deadline has passed.
pub open spec fn setup_done(setup: ExchangeSetup, seen: ExchangeObservation) -> Result<
    NodePrivateRemoteExchange,
    NodePrivateRemoteClientError,
> {
    match setup {
        ExchangeSetup::SocketFailed | ExchangeSetup::ConnectionFailed => Err(
            NodePrivateRemoteClientError::Unavailable,
        ),
        ExchangeSetup::IdentityFailed => Err(NodePrivateRemoteClientError::InvalidConfiguration),
        ExchangeSetup::Ready => if seen.cancelled {
            Err(NodePrivateRemoteClientError::Cancelled)
        } else {
            match exchange_time_left(seen.until_deadline) {
                Err(error) => Err(error),
                Ok(_) => Ok(NodePrivateRemoteExchange::Send),
            }
        },
    }
}

/// Goes on after the socket and the TLS client were set up.
pub fn after_private_setup(setup: ExchangeSetup, seen: ExchangeObservation) -> (next: Result<
    NodePrivateRemoteExchange,
    NodePrivateRemoteClientError,
>)
    ensures
        next == setup_done(setup, seen),
{
    match setup {
        ExchangeSetup::SocketFailed | ExchangeSetup::ConnectionFailed => {
            return Err(NodePrivateRemoteClientError::Unavailable);
        },
        ExchangeSetup::IdentityFailed => {
            return Err(NodePrivateRemoteClientError::InvalidConfiguration);
        },
        ExchangeSetup::Ready => {},
    }
    if seen.cancelled {
        return Err(NodePrivateRemoteClientError::Cancelled);
    }
    exchange_remaining(seen.until_deadline)?;
    Ok(NodePrivateRemoteExchange::Send)
}

/// What follows moving one frame: the deadline is looked at, then the flag.
pub open spec fn private_frame_moved(
    moved: Result<(), NativeErrorKind>,
    seen: ExchangeObservation,
) -> Result<(), NodePrivateRemoteClientError> {
    match moved {
        Err(kind) => Err(private_failure(kind)),
        Ok(()) => match exchange_time_left(seen.until_deadline) {
            Err(error) => Err(error),
            Ok(_) => active(seen.cancelled),
        },
    }
}

fn move_frame(moved: Result<(), NativeErrorKind>, seen: ExchangeObservation) -> (result: Result<
    (),
    NodePrivateRemoteClientError,
>)
    ensures
        result == private_frame_moved(moved, seen),
{
    match moved {
        Ok(()) => {},
        Err(kind) => {
            return Err(classify_io_error(kind));
        },
    }
    exchange_remaining(seen.until_deadline)?;
    if seen.cancelled {
        return Err(NodePrivateRemoteClientError::Cancelled);
    }
    Ok(())
}

/// Goes on after the request frame was written; the deadline is looked at once more before the
/// response is read.
pub fn after_private_send(moved: Result<(), NativeErrorKind>, seen: ExchangeObservation) -> (next:
    Result<NodePrivateRemoteExchange, NodePrivateRemoteClientError>)
    ensures
        next == (match private_frame_moved(moved, seen) {
            Ok(()) => Ok(NodePrivateRemoteExchange::Receive),
            Err(error) => Err(error),
        }),
{
    move_frame(moved, seen)?;
    Ok(NodePrivateRemoteExchange::Receive)
}

/// Goes on after the response frame was read.
pub fn after_private_receive(
    moved: Result<(), NativeErrorKind>,
    seen: ExchangeObservation,
) -> (next:
    Result<NodePrivateRemoteExchange, NodePrivateRemoteClientError>)
    ensures
        next == (match private_frame_moved(moved, seen) {
            Ok(()) => Ok(NodePrivateRemoteExchange::Finish),
            Err(error) => Err(error),
        }),
{
    move_frame(moved, seen)?;
    Ok(NodePrivateRemoteExchange::Finish)
}

/// The client failure of one native failure.
pub open spec fn private_failure(kind: NativeErrorKind) -> NodePrivateRemoteClientError {
    match kind {
        NativeErrorKind::TimedOut | NativeErrorKind::WouldBlock => {
            NodePrivateRemoteClientError::TimedOut
        },
        NativeErrorKind::InvalidData => NodePrivateRemoteClientError::UntrustedPeer,
        _ => NodePrivateRemoteClientError::Unavailable,
    }
}

/// Maps native I/O into a closed timeout-or-availability result.
pub fn classify_io_error(kind: NativeErrorKind) -> (mapped: NodePrivateRemoteClientError)
    ensures
        mapped == private_failure(kind),
{
    match kind {
        NativeErrorKind::TimedOut | NativeErrorKind::WouldBlock => {
            NodePrivateRemoteClientError::TimedOut
        },
        NativeErrorKind::InvalidData => NodePrivateRemoteClientError::UntrustedPeer,
        _ => NodePrivateRemoteClientError::Unavailable,
    }
}

/// A request that passed the checks always fits its frame, so its size is refused at most once.
pub proof fn law_checked_request_is_framed(
    port: u16,
    request: Seq<u8>,
    timeout: TimeSpan,
    maximum_response_bytes: usize,
)
    requires
        exchange_checked(port, request.len(), timeout, maximum_response_bytes) is Ok,
    ensures
        0 < request.len() <= u32::MAX,
{
}

} // verus!
