//! The candidate-facing pairing protocol: offers, transcripts, wire documents and the endpoint.

use vstd::prelude::*;

use crate::digest::{
    base64_decode, base64_encode, base64_text, digest_of, law_base64_injective, sha256_digest,
};
use crate::entity::{Node, NodeIdentity, NodeRole, NodeState, NodeView};
use crate::identity::{
    id_of, law_digest_text, law_digest_text_injective, law_identity_text,
    law_identity_text_injective, EntityTimestamps, Id, Kind, Name, NodeAddress,
    NodeId, PairingInviteId, Sha256Digest, UnixMilliseconds,
};
use crate::node_pairing_api::{
    challenge_valid, credentials_valid, enroll_request_valid, enrollment_valid, status_valid,
    NodePairingApiError, NodePairingApproveRequest, NodePairingApproveRequestView,
    NodePairingChallenge, NodePairingChallengeView, NodePairingCredentials,
    NodePairingCredentialsView, NodePairingEnrollRequest, NodePairingEnrollRequestView,
    NodePairingEnrollment, NodePairingEnrollmentView, NodePairingInvitation,
    NodePairingInvitationView, NodePairingMode, NodePairingOpenRequest, NodePairingOpenRequestView,
    NodePairingModeView, NodePairingState, NodePairingStatus, NodePairingStatusView,
};
use crate::sequence::{
    copy_bytes, copy_optional, outcome, same_bytes, same_optional, viewed, Valued,
};
use crate::text::{
    append_be_bytes, be_bytes, lemma_be_bytes_length, lemma_be_round_trip, lemma_pow256_values,
    lower_hex, pow256, text_is,
};

verus! {

/// The name of the protocol.
pub const NODE_PAIRING_TRANSPORT_SCHEMA_NAME: &'static str = "li_node_pairing_transport";

/// The version of the protocol: the documents are v1.
pub const NODE_PAIRING_TRANSPORT_SCHEMA_VERSION: u32 = 1;

/// The largest document in bytes.
pub const NODE_PAIRING_TRANSPORT_MAXIMUM_DOCUMENT_BYTES: usize = 262144;

/// The largest signature in bytes.
pub const MAXIMUM_SIGNATURE_BYTES: usize = 2048;

/// The largest public key in bytes.
pub const MAXIMUM_PUBLIC_KEY_BYTES: usize = 8192;

/// The smallest public key in bytes.
pub const MINIMUM_PUBLIC_KEY_BYTES: usize = 128;

/// The largest part of a credential package in bytes.
pub const MAXIMUM_CREDENTIAL_BYTES: usize = 65536;

/// Describes one stable redacted candidate-facing pairing transport failure.
#[derive(Clone, Copy, Debug)]
pub enum NodePairingTransportError {
    InvalidDocument { reason: &'static str },
    RequestRejected,
    Unavailable,
    TimedOut,
    Cancelled,
    UntrustedPeer,
}

impl NodePairingTransportError {
    /// The text of the failure.
    pub open spec fn text(self) -> Seq<char> {
        match self {
            NodePairingTransportError::InvalidDocument { reason } => "pairing document is invalid: "@
                + reason@,
            NodePairingTransportError::RequestRejected => "pairing request was rejected"@,
            NodePairingTransportError::Unavailable => "pairing transport is unavailable"@,
            NodePairingTransportError::TimedOut => "pairing transport timed out"@,
            NodePairingTransportError::Cancelled => "pairing operation was cancelled"@,
            NodePairingTransportError::UntrustedPeer => "pairing peer identity is untrusted"@,
        }
    }

    /// Presents stable transport language without identities, secrets, addresses, or native errors.
    pub fn message(&self) -> (text: String)
        ensures
            text@ == self.text(),
    {
        match self {
            NodePairingTransportError::InvalidDocument { reason } => {
                "pairing document is invalid: ".to_owned().concat(reason)
            },
            NodePairingTransportError::RequestRejected => "pairing request was rejected".to_owned(),
            NodePairingTransportError::Unavailable => "pairing transport is unavailable".to_owned(),
            NodePairingTransportError::TimedOut => "pairing transport timed out".to_owned(),
            NodePairingTransportError::Cancelled => "pairing operation was cancelled".to_owned(),
            NodePairingTransportError::UntrustedPeer => {
                "pairing peer identity is untrusted".to_owned()
            },
        }
    }
}

/// One invalid document.
pub open spec fn invalid<T>(reason: &'static str) -> Result<T, NodePairingTransportError> {
    Err(NodePairingTransportError::InvalidDocument { reason })
}

// ---------------------------------------------------------------------------
// Offers
// ---------------------------------------------------------------------------

/// Carries one signed candidate offer returned before ConnectX invitation creation.
pub struct NodePairingCandidateOffer {
    pub(crate) candidate: Node,
    pub(crate) public_key: Vec<u8>,
    pub(crate) public_key_sha256: Sha256Digest,
    pub(crate) certificate_sha256: Sha256Digest,
    pub(crate) request_nonce: Sha256Digest,
    pub(crate) issued_at: UnixMilliseconds,
    pub(crate) expires_at: UnixMilliseconds,
    pub(crate) signature: Vec<u8>,
}

/// What one [`NodePairingCandidateOffer`] holds.
pub struct NodePairingCandidateOfferView {
    pub candidate: NodeView,
    pub public_key: Seq<u8>,
    pub public_key_sha256: Sha256Digest,
    pub certificate_sha256: Sha256Digest,
    pub request_nonce: Sha256Digest,
    pub issued_at: UnixMilliseconds,
    pub expires_at: UnixMilliseconds,
    pub signature: Seq<u8>,
}

impl View for NodePairingCandidateOffer {
    type V = NodePairingCandidateOfferView;

    open(crate) spec fn view(&self) -> NodePairingCandidateOfferView {
        NodePairingCandidateOfferView {
            candidate: self.candidate@,
            public_key: self.public_key@,
            public_key_sha256: self.public_key_sha256,
            certificate_sha256: self.certificate_sha256,
            request_nonce: self.request_nonce,
            issued_at: self.issued_at,
            expires_at: self.expires_at,
            signature: self.signature@,
        }
    }
}

impl Valued for NodePairingCandidateOffer {
    fn copy(&self) -> (copy: Self) {
        proof {
            use_type_invariant(self);
        }
        NodePairingCandidateOffer {
            candidate: self.candidate.copy(),
            public_key: copy_bytes(&self.public_key),
            public_key_sha256: self.public_key_sha256,
            certificate_sha256: self.certificate_sha256,
            request_nonce: self.request_nonce,
            issued_at: self.issued_at,
            expires_at: self.expires_at,
            signature: copy_bytes(&self.signature),
        }
    }

    fn same(&self, other: &Self) -> (same: bool) {
        self.candidate.same(&other.candidate)
            && same_bytes(&self.public_key, &other.public_key)
            && self.public_key_sha256 == other.public_key_sha256
            && self.certificate_sha256 == other.certificate_sha256
            && self.request_nonce == other.request_nonce
            && self.issued_at == other.issued_at
            && self.expires_at == other.expires_at
            && same_bytes(&self.signature, &other.signature)
    }
}

impl NodePairingCandidateOffer {
    #[verifier::type_invariant]
    pub(crate) open(crate) spec fn is_valid(self) -> bool {
        offer_checked(self@) is Ok
    }

    /// Returns the exact local node volunteering for child enrollment.
    pub fn candidate(&self) -> (value: &Node)
        ensures
            value@ == self@.candidate,
    {
        &self.candidate
    }

    /// Returns the candidate public key used to verify its signed offer and enrollment proof.
    pub fn public_key(&self) -> (values: &Vec<u8>)
        ensures
            values@ == self@.public_key,
    {
        &self.public_key
    }

    /// Returns the canonical candidate public-key fingerprint.
    pub fn public_key_sha256(&self) -> (value: Sha256Digest)
        ensures
            value == self@.public_key_sha256,
    {
        self.public_key_sha256
    }

    /// Returns the candidate TLS leaf fingerprint advertised before connection.
    pub fn certificate_sha256(&self) -> (value: Sha256Digest)
        ensures
            value == self@.certificate_sha256,
    {
        self.certificate_sha256
    }

    /// Returns the exact main-supplied nonce bound into the offer signature.
    pub fn request_nonce(&self) -> (value: Sha256Digest)
        ensures
            value == self@.request_nonce,
    {
        self.request_nonce
    }

    /// Returns the inclusive offer creation time.
    pub fn issued_at(&self) -> (value: UnixMilliseconds)
        ensures
            value == self@.issued_at,
    {
        self.issued_at
    }

    /// Returns the exclusive offer expiration time.
    pub fn expires_at(&self) -> (value: UnixMilliseconds)
        ensures
            value == self@.expires_at,
    {
        self.expires_at
    }

    /// Returns the candidate possession signature over the canonical offer transcript.
    pub fn signature(&self) -> (values: &Vec<u8>)
        ensures
            values@ == self@.signature,
    {
        &self.signature
    }
}

/// An offer of an active main with a bounded key and signature that expires after it was issued.
pub open spec fn offer_valid(offer: NodePairingCandidateOfferView) -> bool {
    &&& offer.candidate.is_active_main()
    &&& MINIMUM_PUBLIC_KEY_BYTES <= offer.public_key.len() <= MAXIMUM_PUBLIC_KEY_BYTES
    &&& 0 < offer.signature.len() <= MAXIMUM_SIGNATURE_BYTES
    &&& 0 < offer.issued_at.value < offer.expires_at.value
}

/// What one valid or invalid offer gives.
pub open spec fn offer_checked(offer: NodePairingCandidateOfferView) -> Result<
    NodePairingCandidateOfferView,
    NodePairingTransportError,
> {
    if offer_valid(offer) {
        Ok(offer)
    } else {
        invalid("candidate offer is invalid")
    }
}

impl NodePairingCandidateOffer {
    /// Creates one bounded candidate offer bound to the caller's exact nonce.
    pub fn new(
        candidate: Node,
        public_key: Vec<u8>,
        public_key_sha256: Sha256Digest,
        certificate_sha256: Sha256Digest,
        request_nonce: Sha256Digest,
        issued_at: UnixMilliseconds,
        expires_at: UnixMilliseconds,
        signature: Vec<u8>,
    ) -> (result: Result<Self, NodePairingTransportError>)
        ensures
            outcome(result) == offer_checked(
                NodePairingCandidateOfferView {
                    candidate: candidate@,
                    public_key: public_key@,
                    public_key_sha256,
                    certificate_sha256,
                    request_nonce,
                    issued_at,
                    expires_at,
                    signature: signature@,
                },
            ),
    {
        if !candidate.is_active_main() || public_key.len() < MINIMUM_PUBLIC_KEY_BYTES
            || public_key.len() > MAXIMUM_PUBLIC_KEY_BYTES || signature.len() == 0
            || signature.len() > MAXIMUM_SIGNATURE_BYTES || issued_at.value == 0
            || expires_at.value <= issued_at.value {
            return Err(
                NodePairingTransportError::InvalidDocument { reason: "candidate offer is invalid" },
            );
        }
        Ok(
            NodePairingCandidateOffer {
                candidate,
                public_key,
                public_key_sha256,
                certificate_sha256,
                request_nonce,
                issued_at,
                expires_at,
                signature,
            },
        )
    }
}

/// The length of one value and then the value itself.
pub open spec fn transcript_field(value: Seq<u8>) -> Seq<u8> {
    be_bytes(value.len(), 8) + value
}

/// Adds one length-delimited value to a canonical candidate-offer transcript.
pub fn append_transcript_field(transcript: &mut Vec<u8>, value: &[u8])
    ensures
        final(transcript)@ == old(transcript)@ + transcript_field(value@),
{
    let length: usize = value.len();
    append_be_bytes(transcript, length as u64, 8);
    transcript.extend_from_slice(value);
    assert(transcript@ =~= old(transcript)@ + transcript_field(value@));
}

/// One text as a length-delimited value.
pub open spec fn text_field(value: Seq<char>) -> Seq<u8> {
    transcript_field(vstd::utf8::encode_utf8(value))
}

/// The canonical bytes of one candidate offer: its domain, the candidate, the fingerprints, the
/// nonce and the two times, each length-delimited.
pub open spec fn offer_transcript(
    candidate: NodeView,
    public_key_sha256: Sha256Digest,
    certificate_sha256: Sha256Digest,
    request_nonce: Sha256Digest,
    issued_at: UnixMilliseconds,
    expires_at: UnixMilliseconds,
) -> Seq<u8> {
    text_field("letsinfer-candidate-offer-v1\0"@) + text_field(candidate.identity.node_id.text())
        + text_field(candidate.identity.machine_id.text()) + text_field(
        candidate.identity.installation_id.text(),
    ) + text_field(candidate.display_name) + text_field(candidate.control_address) + text_field(
        public_key_sha256.text(),
    ) + text_field(certificate_sha256.text()) + text_field(request_nonce.text())
        + transcript_field(be_bytes(issued_at.value as nat, 8)) + transcript_field(
        be_bytes(expires_at.value as nat, 8),
    )
}

fn append_time(transcript: &mut Vec<u8>, time: UnixMilliseconds)
    ensures
        final(transcript)@ == old(transcript)@ + transcript_field(
            be_bytes(time.value as nat, 8),
        ),
{
    let mut bytes: Vec<u8> = Vec::new();
    append_be_bytes(&mut bytes, time.value, 8);
    assert(bytes@ =~= be_bytes(time.value as nat, 8));
    append_transcript_field(transcript, bytes.as_slice());
}

/// Returns canonical candidate-offer bytes shared by the signer and preflight verifier.
pub fn node_pairing_candidate_offer_transcript(
    candidate: &Node,
    public_key_sha256: &Sha256Digest,
    certificate_sha256: &Sha256Digest,
    request_nonce: &Sha256Digest,
    issued_at: UnixMilliseconds,
    expires_at: UnixMilliseconds,
) -> (transcript: Vec<u8>)
    ensures
        transcript@ == offer_transcript(
            candidate@,
            *public_key_sha256,
            *certificate_sha256,
            *request_nonce,
            issued_at,
            expires_at,
        ),
{
    let mut transcript: Vec<u8> = Vec::new();
    let identity = &candidate.identity;
    append_transcript_field(&mut transcript, "letsinfer-candidate-offer-v1\0".as_bytes());
    append_transcript_field(&mut transcript, identity.node_id.to_text().as_str().as_bytes());
    append_transcript_field(&mut transcript, identity.machine_id.to_text().as_str().as_bytes());
    append_transcript_field(
        &mut transcript,
        identity.installation_id.to_text().as_str().as_bytes(),
    );
    append_transcript_field(&mut transcript, candidate.display_name.as_str().as_bytes());
    append_transcript_field(&mut transcript, candidate.control_address.as_str().as_bytes());
    append_transcript_field(&mut transcript, public_key_sha256.to_text().as_str().as_bytes());
    append_transcript_field(&mut transcript, certificate_sha256.to_text().as_str().as_bytes());
    append_transcript_field(&mut transcript, request_nonce.to_text().as_str().as_bytes());
    append_time(&mut transcript, issued_at);
    append_time(&mut transcript, expires_at);
    assert(transcript@ =~= offer_transcript(
        candidate@,
        *public_key_sha256,
        *certificate_sha256,
        *request_nonce,
        issued_at,
        expires_at,
    ));
    transcript
}

/// The values of a candidate offer's transcript, in order.
pub open spec fn transcript_values(
    candidate: NodeView,
    public_key_sha256: Sha256Digest,
    certificate_sha256: Sha256Digest,
    request_nonce: Sha256Digest,
    issued_at: UnixMilliseconds,
    expires_at: UnixMilliseconds,
) -> Seq<Seq<u8>> {
    seq![
        vstd::utf8::encode_utf8("letsinfer-candidate-offer-v1\0"@),
        vstd::utf8::encode_utf8(candidate.identity.node_id.text()),
        vstd::utf8::encode_utf8(candidate.identity.machine_id.text()),
        vstd::utf8::encode_utf8(candidate.identity.installation_id.text()),
        vstd::utf8::encode_utf8(candidate.display_name),
        vstd::utf8::encode_utf8(candidate.control_address),
        vstd::utf8::encode_utf8(public_key_sha256.text()),
        vstd::utf8::encode_utf8(certificate_sha256.text()),
        vstd::utf8::encode_utf8(request_nonce.text()),
        be_bytes(issued_at.value as nat, 8),
        be_bytes(expires_at.value as nat, 8),
    ]
}

/// Values one after the other, each length-delimited.
pub open spec fn fields_joined(values: Seq<Seq<u8>>) -> Seq<u8>
    decreases values.len(),
{
    if values.len() == 0 {
        Seq::empty()
    } else {
        fields_joined(values.drop_last()) + transcript_field(values.last())
    }
}

/// Every value's length fits its eight bytes.
pub open spec fn countable(values: Seq<Seq<u8>>) -> bool {
    forall|i: int| 0 <= i < values.len() ==> (#[trigger] values[i]).len() < pow256(8)
}

proof fn lemma_first_field(values: Seq<Seq<u8>>)
    requires
        values.len() > 0,
    ensures
        fields_joined(values) == transcript_field(values[0]) + fields_joined(values.drop_first()),
    decreases values.len(),
{
    if values.len() == 1 {
        assert(values.drop_last() =~= Seq::empty());
        assert(values.drop_first() =~= Seq::empty());
        assert(fields_joined(values) =~= transcript_field(values[0]) + fields_joined(
            values.drop_first(),
        ));
    } else {
        lemma_first_field(values.drop_last());
        assert(values.drop_last().drop_first() =~= values.drop_first().drop_last());
        assert(fields_joined(values) =~= transcript_field(values[0]) + fields_joined(
            values.drop_first(),
        ));
    }
}

proof fn lemma_fields_injective(left: Seq<Seq<u8>>, right: Seq<Seq<u8>>)
    requires
        left.len() == right.len(),
        countable(left),
        countable(right),
        fields_joined(left) == fields_joined(right),
    ensures
        left == right,
    decreases left.len(),
{
    if left.len() == 0 {
        assert(left =~= right);
    } else {
        lemma_first_field(left);
        lemma_first_field(right);
        let all = fields_joined(left);
        lemma_be_bytes_length(left[0].len(), 8);
        lemma_be_bytes_length(right[0].len(), 8);
        lemma_be_round_trip(left[0].len(), 8);
        lemma_be_round_trip(right[0].len(), 8);
        assert(all.take(8) =~= be_bytes(left[0].len(), 8));
        assert(all.take(8) =~= be_bytes(right[0].len(), 8));
        let length = left[0].len() as int;
        assert(length == right[0].len());
        assert(all.subrange(8, 8 + length) =~= left[0]);
        assert(all.subrange(8, 8 + length) =~= right[0]);
        assert(all.skip(8 + length) =~= fields_joined(left.drop_first()));
        assert(all.skip(8 + length) =~= fields_joined(right.drop_first()));
        assert forall|i: int| 0 <= i < left.len() - 1 implies (#[trigger] left.drop_first()[i]).len()
            < pow256(8) by {
            assert(left.drop_first()[i] == left[i + 1]);
        }
        assert forall|i: int|
            0 <= i < right.len() - 1 implies (#[trigger] right.drop_first()[i]).len() < pow256(
            8,
        ) by {
            assert(right.drop_first()[i] == right[i + 1]);
        }
        lemma_fields_injective(left.drop_first(), right.drop_first());
        assert forall|i: int| 0 <= i < left.len() implies left[i] == right[i] by {
            if i > 0 {
                assert(left[i] == left.drop_first()[i - 1]);
                assert(right[i] == right.drop_first()[i - 1]);
            }
        }
        assert(left =~= right);
    }
}

proof fn lemma_encoded_length(text: Seq<char>)
    ensures
        vstd::utf8::encode_utf8(text).len() <= 4 * text.len(),
    decreases text.len(),
{
    if text.len() > 0 {
        lemma_encoded_length(text.drop_first());
    }
}

proof fn lemma_transcript_countable(
    candidate: NodeView,
    public_key_sha256: Sha256Digest,
    certificate_sha256: Sha256Digest,
    request_nonce: Sha256Digest,
    issued_at: UnixMilliseconds,
    expires_at: UnixMilliseconds,
)
    requires
        vstd::utf8::encode_utf8(candidate.display_name).len() <= u64::MAX,
        vstd::utf8::encode_utf8(candidate.control_address).len() <= u64::MAX,
    ensures
        countable(
            transcript_values(
                candidate,
                public_key_sha256,
                certificate_sha256,
                request_nonce,
                issued_at,
                expires_at,
            ),
        ),
        fields_joined(
            transcript_values(
                candidate,
                public_key_sha256,
                certificate_sha256,
                request_nonce,
                issued_at,
                expires_at,
            ),
        ) == offer_transcript(
            candidate,
            public_key_sha256,
            certificate_sha256,
            request_nonce,
            issued_at,
            expires_at,
        ),
{
    let identity = candidate.identity;
    lemma_pow256_values();
    reveal_strlit("letsinfer-candidate-offer-v1\0");
    lemma_encoded_length("letsinfer-candidate-offer-v1\0"@);
    law_identity_text(identity.node_id);
    law_identity_text(identity.machine_id);
    law_identity_text(identity.installation_id);
    law_digest_text(public_key_sha256);
    law_digest_text(certificate_sha256);
    law_digest_text(request_nonce);
    lemma_encoded_length(identity.node_id.text());
    lemma_encoded_length(identity.machine_id.text());
    lemma_encoded_length(identity.installation_id.text());
    lemma_encoded_length(public_key_sha256.text());
    lemma_encoded_length(certificate_sha256.text());
    lemma_encoded_length(request_nonce.text());
    lemma_be_bytes_length(issued_at.value as nat, 8);
    lemma_be_bytes_length(expires_at.value as nat, 8);
    let values = transcript_values(
        candidate,
        public_key_sha256,
        certificate_sha256,
        request_nonce,
        issued_at,
        expires_at,
    );
    reveal_with_fuel(fields_joined, 12);
    assert(fields_joined(values.take(0)) =~= Seq::empty());
    assert(values.take(1).drop_last() =~= values.take(0));
    assert(values.take(2).drop_last() =~= values.take(1));
    assert(values.take(3).drop_last() =~= values.take(2));
    assert(values.take(4).drop_last() =~= values.take(3));
    assert(values.take(5).drop_last() =~= values.take(4));
    assert(values.take(6).drop_last() =~= values.take(5));
    assert(values.take(7).drop_last() =~= values.take(6));
    assert(values.take(8).drop_last() =~= values.take(7));
    assert(values.take(9).drop_last() =~= values.take(8));
    assert(values.take(10).drop_last() =~= values.take(9));
    assert(values.drop_last() =~= values.take(10));
    let first = transcript_field(values[0]);
    assert(fields_joined(values.take(1)) =~= first);
}

/// Two candidate offers with the same transcript agree in everything that the transcript names: a
/// signature over one is a signature over no other.
pub proof fn law_offer_transcript_is_injective(
    candidate: NodeView,
    public_key_sha256: Sha256Digest,
    certificate_sha256: Sha256Digest,
    request_nonce: Sha256Digest,
    issued_at: UnixMilliseconds,
    expires_at: UnixMilliseconds,
    other_candidate: NodeView,
    other_public_key_sha256: Sha256Digest,
    other_certificate_sha256: Sha256Digest,
    other_request_nonce: Sha256Digest,
    other_issued_at: UnixMilliseconds,
    other_expires_at: UnixMilliseconds,
)
    requires
        vstd::utf8::encode_utf8(candidate.display_name).len() <= u64::MAX,
        vstd::utf8::encode_utf8(candidate.control_address).len() <= u64::MAX,
        vstd::utf8::encode_utf8(other_candidate.display_name).len() <= u64::MAX,
        vstd::utf8::encode_utf8(other_candidate.control_address).len() <= u64::MAX,
        offer_transcript(
            candidate,
            public_key_sha256,
            certificate_sha256,
            request_nonce,
            issued_at,
            expires_at,
        ) == offer_transcript(
            other_candidate,
            other_public_key_sha256,
            other_certificate_sha256,
            other_request_nonce,
            other_issued_at,
            other_expires_at,
        ),
    ensures
        candidate.identity == other_candidate.identity,
        candidate.display_name == other_candidate.display_name,
        candidate.control_address == other_candidate.control_address,
        public_key_sha256 == other_public_key_sha256,
        certificate_sha256 == other_certificate_sha256,
        request_nonce == other_request_nonce,
        issued_at == other_issued_at,
        expires_at == other_expires_at,
{
    lemma_transcript_countable(
        candidate,
        public_key_sha256,
        certificate_sha256,
        request_nonce,
        issued_at,
        expires_at,
    );
    lemma_transcript_countable(
        other_candidate,
        other_public_key_sha256,
        other_certificate_sha256,
        other_request_nonce,
        other_issued_at,
        other_expires_at,
    );
    let left = transcript_values(
        candidate,
        public_key_sha256,
        certificate_sha256,
        request_nonce,
        issued_at,
        expires_at,
    );
    let right = transcript_values(
        other_candidate,
        other_public_key_sha256,
        other_certificate_sha256,
        other_request_nonce,
        other_issued_at,
        other_expires_at,
    );
    lemma_fields_injective(left, right);
    assert forall|i: int| 0 <= i < 11 implies #[trigger] left[i] == right[i] by {}
    lemma_encoding_injective(
        candidate.identity.node_id.text(),
        other_candidate.identity.node_id.text(),
        left[1],
        right[1],
    );
    lemma_encoding_injective(
        candidate.identity.machine_id.text(),
        other_candidate.identity.machine_id.text(),
        left[2],
        right[2],
    );
    lemma_encoding_injective(
        candidate.identity.installation_id.text(),
        other_candidate.identity.installation_id.text(),
        left[3],
        right[3],
    );
    lemma_encoding_injective(
        candidate.display_name,
        other_candidate.display_name,
        left[4],
        right[4],
    );
    lemma_encoding_injective(
        candidate.control_address,
        other_candidate.control_address,
        left[5],
        right[5],
    );
    lemma_encoding_injective(
        public_key_sha256.text(),
        other_public_key_sha256.text(),
        left[6],
        right[6],
    );
    lemma_encoding_injective(
        certificate_sha256.text(),
        other_certificate_sha256.text(),
        left[7],
        right[7],
    );
    lemma_encoding_injective(request_nonce.text(), other_request_nonce.text(), left[8], right[8]);
    law_identity_text_injective(candidate.identity.node_id, other_candidate.identity.node_id);
    law_identity_text_injective(candidate.identity.machine_id, other_candidate.identity.machine_id);
    law_identity_text_injective(
        candidate.identity.installation_id,
        other_candidate.identity.installation_id,
    );
    law_digest_text_injective(public_key_sha256, other_public_key_sha256);
    law_digest_text_injective(certificate_sha256, other_certificate_sha256);
    law_digest_text_injective(request_nonce, other_request_nonce);
    lemma_pow256_values();
    lemma_be_round_trip(issued_at.value as nat, 8);
    lemma_be_round_trip(other_issued_at.value as nat, 8);
    lemma_be_round_trip(expires_at.value as nat, 8);
    lemma_be_round_trip(other_expires_at.value as nat, 8);
    assert(left[9] == right[9] && left[10] == right[10]);
}

proof fn lemma_encoding_injective(
    text: Seq<char>,
    other: Seq<char>,
    bytes: Seq<u8>,
    others: Seq<u8>,
)
    requires
        bytes == vstd::utf8::encode_utf8(text),
        others == vstd::utf8::encode_utf8(other),
        bytes == others,
    ensures
        text == other,
{
    vstd::utf8::encode_utf8_decode_utf8(text);
    vstd::utf8::encode_utf8_decode_utf8(other);
}

/// Returns the SHA-256 identity of one canonical candidate-offer transcript.
pub fn node_pairing_candidate_offer_identity(
    offer: &NodePairingCandidateOffer,
) -> (identity: Result<
    Sha256Digest,
    NodePairingTransportError,
>)
    ensures
        identity == Ok::<Sha256Digest, NodePairingTransportError>(
            digest_of(
                offer_transcript(
                    offer@.candidate,
                    offer@.public_key_sha256,
                    offer@.certificate_sha256,
                    offer@.request_nonce,
                    offer@.issued_at,
                    offer@.expires_at,
                ),
            ),
        ),
{
    let transcript = node_pairing_candidate_offer_transcript(
        &offer.candidate,
        &offer.public_key_sha256,
        &offer.certificate_sha256,
        &offer.request_nonce,
        offer.issued_at,
        offer.expires_at,
    );
    Ok(sha256_digest(transcript.as_slice()))
}

// ---------------------------------------------------------------------------
// Enrollment
// ---------------------------------------------------------------------------

/// Carries candidate-controlled enrollment fields while transport owns observed peer identity.
pub struct NodePairingCandidateEnrollment {
    pub(crate) idempotency_key: String,
    pub(crate) invite_id: PairingInviteId,
    pub(crate) candidate: Node,
    pub(crate) public_key: Vec<u8>,
    pub(crate) proof_signature: Vec<u8>,
    pub(crate) setup_code: Option<String>,
}

/// What one [`NodePairingCandidateEnrollment`] holds.
pub struct NodePairingCandidateEnrollmentView {
    pub idempotency_key: Seq<char>,
    pub invite_id: PairingInviteId,
    pub candidate: NodeView,
    pub public_key: Seq<u8>,
    pub proof_signature: Seq<u8>,
    pub setup_code: Option<Seq<char>>,
}

impl View for NodePairingCandidateEnrollment {
    type V = NodePairingCandidateEnrollmentView;

    open(crate) spec fn view(&self) -> NodePairingCandidateEnrollmentView {
        NodePairingCandidateEnrollmentView {
            idempotency_key: self.idempotency_key@,
            invite_id: self.invite_id,
            candidate: self.candidate@,
            public_key: self.public_key@,
            proof_signature: self.proof_signature@,
            setup_code: viewed(self.setup_code),
        }
    }
}

impl Valued for NodePairingCandidateEnrollment {
    fn copy(&self) -> (copy: Self) {
        proof {
            use_type_invariant(self);
        }
        NodePairingCandidateEnrollment {
            idempotency_key: self.idempotency_key.copy(),
            invite_id: self.invite_id,
            candidate: self.candidate.copy(),
            public_key: copy_bytes(&self.public_key),
            proof_signature: copy_bytes(&self.proof_signature),
            setup_code: copy_optional(&self.setup_code),
        }
    }

    fn same(&self, other: &Self) -> (same: bool) {
        self.idempotency_key.same(&other.idempotency_key)
            && self.invite_id == other.invite_id
            && self.candidate.same(&other.candidate)
            && same_bytes(&self.public_key, &other.public_key)
            && same_bytes(&self.proof_signature, &other.proof_signature)
            && same_optional(&self.setup_code, &other.setup_code)
    }
}

impl NodePairingCandidateEnrollment {
    #[verifier::type_invariant]
    pub(crate) open(crate) spec fn is_valid(self) -> bool {
        candidate_enrollment_checked(self@) is Ok
    }

    /// Returns the exact replay identity for the remote enrollment commit.
    pub fn idempotency_key(&self) -> (value: &str)
        ensures
            value@ == self@.idempotency_key,
    {
        self.idempotency_key.as_str()
    }

    /// Returns the exact invitation consumed by this candidate.
    pub fn invite_id(&self) -> (value: PairingInviteId)
        ensures
            value == self@.invite_id,
    {
        self.invite_id
    }

    /// Returns the exact local candidate Node snapshot bound into proof.
    pub fn candidate(&self) -> (value: &Node)
        ensures
            value@ == self@.candidate,
    {
        &self.candidate
    }

    /// Returns the candidate public key bound into proof.
    pub fn public_key(&self) -> (values: &Vec<u8>)
        ensures
            values@ == self@.public_key,
    {
        &self.public_key
    }

    /// Returns the candidate possession signature over the canonical enrollment transcript.
    pub fn proof_signature(&self) -> (values: &Vec<u8>)
        ensures
            values@ == self@.proof_signature,
    {
        &self.proof_signature
    }

    /// Returns the optional setup code required by LAN and remote invitations.
    pub fn setup_code(&self) -> (value: &Option<String>)
        ensures
            viewed(*value) == self@.setup_code,
    {
        &self.setup_code
    }
}

/// The main-side request of one candidate enrollment.
pub open spec fn enrollment_request(
    enrollment: NodePairingCandidateEnrollmentView,
    observed_peer_address: Seq<char>,
) -> NodePairingEnrollRequestView {
    NodePairingEnrollRequestView {
        idempotency_key: enrollment.idempotency_key,
        invite_id: enrollment.invite_id,
        candidate_identity: enrollment.candidate.identity,
        candidate_name: enrollment.candidate.display_name,
        candidate_address: enrollment.candidate.control_address,
        candidate_public_key: enrollment.public_key,
        installation_created_at: enrollment.candidate.timestamps.created_at,
        proof_signature: enrollment.proof_signature,
        setup_code: enrollment.setup_code,
        observed_peer_address,
    }
}

/// An enrollment whose request is valid and whose candidate is an active main.
pub open spec fn candidate_enrollment_valid(
    enrollment: NodePairingCandidateEnrollmentView,
) -> bool {
    &&& enroll_request_valid(enrollment_request(enrollment, enrollment.candidate.control_address))
    &&& enrollment.candidate.is_active_main()
}

/// What one valid or invalid enrollment gives.
pub open spec fn candidate_enrollment_checked(
    enrollment: NodePairingCandidateEnrollmentView,
) -> Result<NodePairingCandidateEnrollmentView, NodePairingTransportError> {
    if !enroll_request_valid(
        enrollment_request(enrollment, enrollment.candidate.control_address),
    ) {
        Err(NodePairingTransportError::RequestRejected)
    } else if !enrollment.candidate.is_active_main() {
        invalid("candidate enrollment is invalid")
    } else {
        Ok(enrollment)
    }
}

impl NodePairingCandidateEnrollment {
    /// Creates one bounded candidate enrollment without accepting an observed peer address.
    pub fn new(
        idempotency_key: String,
        invite_id: PairingInviteId,
        candidate: Node,
        public_key: Vec<u8>,
        proof_signature: Vec<u8>,
        setup_code: Option<String>,
    ) -> (result: Result<Self, NodePairingTransportError>)
        ensures
            outcome(result) == candidate_enrollment_checked(
                NodePairingCandidateEnrollmentView {
                    idempotency_key: idempotency_key@,
                    invite_id,
                    candidate: candidate@,
                    public_key: public_key@,
                    proof_signature: proof_signature@,
                    setup_code: viewed(setup_code),
                },
            ),
    {
        match NodePairingEnrollRequest::new(
            idempotency_key.clone(),
            invite_id,
            candidate.identity,
            candidate.display_name.copy(),
            candidate.control_address.copy(),
            copy_bytes(&public_key),
            candidate.timestamps.created_at,
            copy_bytes(&proof_signature),
            copy_optional(&setup_code),
            candidate.control_address.copy(),
        ) {
            Ok(_) => {},
            Err(_) => {
                return Err(NodePairingTransportError::RequestRejected);
            },
        }
        if !candidate.is_active_main() {
            return Err(
                NodePairingTransportError::InvalidDocument {
                    reason: "candidate enrollment is invalid",
                },
            );
        }
        Ok(
            NodePairingCandidateEnrollment {
                idempotency_key,
                invite_id,
                candidate,
                public_key,
                proof_signature,
                setup_code,
            },
        )
    }

    /// Creates the main-side request with only the trusted socket-observed peer address added.
    pub fn into_request(self, observed_peer_address: NodeAddress) -> (request: Result<
        NodePairingEnrollRequest,
        NodePairingTransportError,
    >)
        ensures
            outcome(request) == request_of_enrollment(self@, observed_peer_address@),
    {
        match NodePairingEnrollRequest::new(
            self.idempotency_key,
            self.invite_id,
            self.candidate.identity,
            self.candidate.display_name,
            self.candidate.control_address,
            self.public_key,
            self.candidate.timestamps.created_at,
            self.proof_signature,
            self.setup_code,
            observed_peer_address,
        ) {
            Ok(request) => Ok(request),
            Err(_) => Err(NodePairingTransportError::RequestRejected),
        }
    }
}

/// The main-side request of one enrollment, when it is valid.
pub open spec fn request_of_enrollment(
    enrollment: NodePairingCandidateEnrollmentView,
    observed_peer_address: Seq<char>,
) -> Result<NodePairingEnrollRequestView, NodePairingTransportError> {
    let request = enrollment_request(enrollment, observed_peer_address);
    if enroll_request_valid(request) {
        Ok(request)
    } else {
        Err(NodePairingTransportError::RequestRejected)
    }
}

/// A valid enrollment is a valid request wherever its peer was observed.
pub proof fn law_enrollment_becomes_request(
    enrollment: NodePairingCandidateEnrollmentView,
    observed_peer_address: Seq<char>,
)
    requires
        candidate_enrollment_valid(enrollment),
    ensures
        request_of_enrollment(enrollment, observed_peer_address) == Ok::<
            NodePairingEnrollRequestView,
            NodePairingTransportError,
        >(enrollment_request(enrollment, observed_peer_address)),
{
}

// ---------------------------------------------------------------------------
// Requests and responses
// ---------------------------------------------------------------------------

/// Names the only candidate-facing pairing protocol requests.
pub enum NodePairingTransportRequest {
    CandidateOffer { request_nonce: Sha256Digest },
    Challenge { invite_id: PairingInviteId },
    Enroll(NodePairingCandidateEnrollment),
    Status { invite_id: PairingInviteId },
}

/// What one [`NodePairingTransportRequest`] holds.
pub enum NodePairingTransportRequestView {
    CandidateOffer { request_nonce: Sha256Digest },
    Challenge { invite_id: PairingInviteId },
    Enroll(NodePairingCandidateEnrollmentView),
    Status { invite_id: PairingInviteId },
}

impl View for NodePairingTransportRequest {
    type V = NodePairingTransportRequestView;

    open spec fn view(&self) -> NodePairingTransportRequestView {
        match self {
            NodePairingTransportRequest::CandidateOffer { request_nonce } => {
                NodePairingTransportRequestView::CandidateOffer { request_nonce: *request_nonce }
            },
            NodePairingTransportRequest::Challenge { invite_id } => {
                NodePairingTransportRequestView::Challenge { invite_id: *invite_id }
            },
            NodePairingTransportRequest::Enroll(request) => {
                NodePairingTransportRequestView::Enroll(request@)
            },
            NodePairingTransportRequest::Status { invite_id } => {
                NodePairingTransportRequestView::Status { invite_id: *invite_id }
            },
        }
    }
}

/// Names the only candidate-facing pairing protocol responses.
pub enum NodePairingTransportResponse {
    CandidateOffer(NodePairingCandidateOffer),
    Challenge { challenge: NodePairingChallenge, main: Node },
    Enrollment(NodePairingEnrollment),
    Status(NodePairingStatus),
}

/// What one [`NodePairingTransportResponse`] holds.
pub enum NodePairingTransportResponseView {
    CandidateOffer(NodePairingCandidateOfferView),
    Challenge { challenge: NodePairingChallengeView, main: NodeView },
    Enrollment(NodePairingEnrollmentView),
    Status(NodePairingStatusView),
}

impl View for NodePairingTransportResponse {
    type V = NodePairingTransportResponseView;

    open spec fn view(&self) -> NodePairingTransportResponseView {
        match self {
            NodePairingTransportResponse::CandidateOffer(offer) => {
                NodePairingTransportResponseView::CandidateOffer(offer@)
            },
            NodePairingTransportResponse::Challenge { challenge, main } => {
                NodePairingTransportResponseView::Challenge { challenge: challenge@, main: main@ }
            },
            NodePairingTransportResponse::Enrollment(enrollment) => {
                NodePairingTransportResponseView::Enrollment(enrollment@)
            },
            NodePairingTransportResponse::Status(status) => {
                NodePairingTransportResponseView::Status(status@)
            },
        }
    }
}

// ---------------------------------------------------------------------------
// Wire values
// ---------------------------------------------------------------------------

/// A binary payload that base64 text spells.
pub open spec fn is_base64(text: Seq<char>) -> bool {
    exists|bytes: Seq<u8>| #[trigger] base64_text(bytes) == text
}

/// The bytes that base64 text spells.
pub open spec fn base64_bytes(text: Seq<char>) -> Seq<u8> {
    choose|bytes: Seq<u8>| #[trigger] base64_text(bytes) == text
}

/// Bytes that one document could hold.
pub open spec fn fits(bytes: Seq<u8>) -> bool {
    bytes.len() <= NODE_PAIRING_TRANSPORT_MAXIMUM_DOCUMENT_BYTES
}

fn is_fit(bytes: &Vec<u8>) -> (fit: bool)
    ensures
        fit == fits(bytes@),
{
    bytes.len() <= NODE_PAIRING_TRANSPORT_MAXIMUM_DOCUMENT_BYTES
}

/// An enrollment whose payloads one document could hold.
pub open spec fn enrollment_bounded(enrollment: NodePairingCandidateEnrollmentView) -> bool {
    fits(enrollment.public_key) && fits(enrollment.proof_signature)
}

/// An offer whose payloads one document could hold.
pub open spec fn offer_bounded(offer: NodePairingCandidateOfferView) -> bool {
    fits(offer.public_key) && fits(offer.signature)
}

/// A credential package whose payloads one document could hold.
pub open spec fn credentials_bounded(credentials: NodePairingCredentialsView) -> bool {
    &&& fits(credentials.main_public_key)
    &&& fits(credentials.main_ca_certificate)
    &&& fits(credentials.child_certificate)
    &&& fits(credentials.membership_signature)
}

/// A request whose payloads one document could hold.
pub open spec fn request_bounded(request: NodePairingTransportRequestView) -> bool {
    request matches NodePairingTransportRequestView::Enroll(enrollment) ==> enrollment_bounded(
        enrollment,
    )
}

/// A response whose payloads one document could hold.
pub open spec fn response_bounded(response: NodePairingTransportResponseView) -> bool {
    match response {
        NodePairingTransportResponseView::CandidateOffer(offer) => offer_bounded(offer),
        NodePairingTransportResponseView::Enrollment(enrollment) => credentials_bounded(
            enrollment.credentials,
        ),
        _ => true,
    }
}

/// One bounded binary payload.
pub open spec fn payload(text: Seq<char>, maximum_bytes: usize) -> Result<
    Seq<u8>,
    NodePairingTransportError,
> {
    if !is_base64(text) {
        invalid("binary payload is invalid")
    } else if base64_bytes(text).len() == 0 || base64_bytes(text).len() > maximum_bytes {
        invalid("binary payload size is invalid")
    } else {
        Ok(base64_bytes(text))
    }
}

/// Encodes one non-secret binary payload without changing its bytes.
pub fn encode_base64(bytes: &Vec<u8>) -> (text: String)
    requires
        bytes@.len() <= usize::MAX / 4,
    ensures
        text@ == base64_text(bytes@),
{
    base64_encode(bytes.as_slice())
}

/// Decodes one strict bounded base64 payload.
pub fn decode_base64(value: &str, maximum_bytes: usize) -> (bytes: Result<
    Vec<u8>,
    NodePairingTransportError,
>)
    ensures
        outcome_bytes(bytes) == payload(value@, maximum_bytes),
{
    match base64_decode(value) {
        Some(bytes) => {
            proof {
                assert(is_base64(value@));
                law_base64_injective(bytes@, base64_bytes(value@));
            }
            if bytes.len() == 0 || bytes.len() > maximum_bytes {
                return Err(
                    NodePairingTransportError::InvalidDocument {
                        reason: "binary payload size is invalid",
                    },
                );
            }
            Ok(bytes)
        },
        None => Err(
            NodePairingTransportError::InvalidDocument { reason: "binary payload is invalid" },
        ),
    }
}

/// One outcome of bytes by view.
pub open spec fn outcome_bytes(result: Result<Vec<u8>, NodePairingTransportError>) -> Result<
    Seq<u8>,
    NodePairingTransportError,
> {
    match result {
        Ok(bytes) => Ok(bytes@),
        Err(error) => Err(error),
    }
}

/// A bounded payload that is not empty is read back from its text.
pub proof fn law_payload_round_trip(bytes: Seq<u8>, maximum_bytes: usize)
    requires
        0 < bytes.len() <= maximum_bytes,
    ensures
        payload(base64_text(bytes), maximum_bytes) == Ok::<Seq<u8>, NodePairingTransportError>(
            bytes,
        ),
{
    assert(is_base64(base64_text(bytes)));
    law_base64_injective(bytes, base64_bytes(base64_text(bytes)));
}

fn typed_id<K: Kind>(text: &String) -> (id: Result<Id<K>, NodePairingTransportError>)
    ensures
        id == id_checked::<K>(text@),
{
    match Id::<K>::parse(text.as_str()) {
        Ok(id) => Ok(id),
        Err(_) => Err(
            NodePairingTransportError::InvalidDocument { reason: "typed value is invalid" },
        ),
    }
}

/// One identity from its text.
pub open spec fn id_checked<K>(text: Seq<char>) -> Result<Id<K>, NodePairingTransportError> {
    if lower_hex(text, 32) {
        Ok(id_of::<K>(text))
    } else {
        invalid("typed value is invalid")
    }
}

fn typed_digest(text: &String) -> (digest: Result<Sha256Digest, NodePairingTransportError>)
    ensures
        digest == digest_checked(text@),
{
    match Sha256Digest::parse(text.as_str()) {
        Ok(digest) => Ok(digest),
        Err(_) => Err(
            NodePairingTransportError::InvalidDocument { reason: "typed value is invalid" },
        ),
    }
}

/// One digest from its text.
pub open spec fn digest_checked(
    text: Seq<char>,
) -> Result<Sha256Digest, NodePairingTransportError> {
    if lower_hex(text, 64) {
        Ok(Sha256Digest::of_text(text))
    } else {
        invalid("typed value is invalid")
    }
}

fn typed_name<K: Kind>(text: &String) -> (name: Result<Name<K>, NodePairingTransportError>)
    ensures
        outcome(name) == name_checked(text@),
{
    match Name::<K>::parse(text.as_str()) {
        Ok(name) => Ok(name),
        Err(_) => Err(
            NodePairingTransportError::InvalidDocument { reason: "typed value is invalid" },
        ),
    }
}

/// One name from its text.
pub open spec fn name_checked(text: Seq<char>) -> Result<Seq<char>, NodePairingTransportError> {
    if text.len() > 0 {
        Ok(text)
    } else {
        invalid("typed value is invalid")
    }
}

/// Stores one complete Node snapshot without persistence-only fields.
#[derive(Debug)]
pub struct WireNode {
    pub node_id: String,
    pub machine_id: String,
    pub installation_id: String,
    pub display_name: String,
    pub role: String,
    pub state: String,
    pub control_address: String,
    pub created_at_unix_milliseconds: u64,
    pub updated_at_unix_milliseconds: u64,
}

/// What one [`WireNode`] holds.
pub struct WireNodeView {
    pub node_id: Seq<char>,
    pub machine_id: Seq<char>,
    pub installation_id: Seq<char>,
    pub display_name: Seq<char>,
    pub role: Seq<char>,
    pub state: Seq<char>,
    pub control_address: Seq<char>,
    pub created_at_unix_milliseconds: u64,
    pub updated_at_unix_milliseconds: u64,
}

impl View for WireNode {
    type V = WireNodeView;

    open spec fn view(&self) -> WireNodeView {
        WireNodeView {
            node_id: self.node_id@,
            machine_id: self.machine_id@,
            installation_id: self.installation_id@,
            display_name: self.display_name@,
            role: self.role@,
            state: self.state@,
            control_address: self.control_address@,
            created_at_unix_milliseconds: self.created_at_unix_milliseconds,
            updated_at_unix_milliseconds: self.updated_at_unix_milliseconds,
        }
    }
}

impl Valued for WireNode {
    fn copy(&self) -> (copy: Self) {
        WireNode {
            node_id: self.node_id.copy(),
            machine_id: self.machine_id.copy(),
            installation_id: self.installation_id.copy(),
            display_name: self.display_name.copy(),
            role: self.role.copy(),
            state: self.state.copy(),
            control_address: self.control_address.copy(),
            created_at_unix_milliseconds: self.created_at_unix_milliseconds,
            updated_at_unix_milliseconds: self.updated_at_unix_milliseconds,
        }
    }

    fn same(&self, other: &Self) -> (same: bool) {
        self.node_id.same(&other.node_id)
            && self.machine_id.same(&other.machine_id)
            && self.installation_id.same(&other.installation_id)
            && self.display_name.same(&other.display_name)
            && self.role.same(&other.role)
            && self.state.same(&other.state)
            && self.control_address.same(&other.control_address)
            && self.created_at_unix_milliseconds == other.created_at_unix_milliseconds
            && self.updated_at_unix_milliseconds == other.updated_at_unix_milliseconds
    }
}

/// The wire name of one value.
pub open spec fn role_text(value: NodeRole) -> Seq<char> {
    match value {
        NodeRole::Main => "main"@,
        NodeRole::Child => "child"@,
    }
}

fn role_name(value: NodeRole) -> (name: &'static str)
    ensures
        name@ == role_text(value),
{
    match value {
        NodeRole::Main => "main",
        NodeRole::Child => "child",
    }
}

/// The value of one wire name.
pub open spec fn role_of(value: Seq<char>) -> Result<NodeRole, NodePairingTransportError> {
    if value == "main"@ {
        Ok(NodeRole::Main)
    } else if value == "child"@ {
        Ok(NodeRole::Child)
    } else {
        invalid("node role is invalid")
    }
}

fn parse_role(value: &str) -> (parsed: Result<NodeRole, NodePairingTransportError>)
    ensures
        parsed == role_of(value@),
{
    if text_is(value, "main") {
        Ok(NodeRole::Main)
    } else if text_is(value, "child") {
        Ok(NodeRole::Child)
    } else {
        Err(NodePairingTransportError::InvalidDocument { reason: "node role is invalid" })
    }
}

proof fn lemma_role(value: NodeRole)
    ensures
        role_of(role_text(value)) == Ok::<NodeRole, NodePairingTransportError>(value),
{
    reveal_strlit("main");
    assert("main"@.len() == 4);
    reveal_strlit("child");
    assert("child"@.len() == 5);
}

/// The wire name of one value.
pub open spec fn node_state_text(value: NodeState) -> Seq<char> {
    match value {
        NodeState::Pending => "pending"@,
        NodeState::Active => "active"@,
        NodeState::Draining => "draining"@,
        NodeState::Offline => "offline"@,
        NodeState::Removed => "removed"@,
    }
}

fn node_state_name(value: NodeState) -> (name: &'static str)
    ensures
        name@ == node_state_text(value),
{
    match value {
        NodeState::Pending => "pending",
        NodeState::Active => "active",
        NodeState::Draining => "draining",
        NodeState::Offline => "offline",
        NodeState::Removed => "removed",
    }
}

/// The value of one wire name.
pub open spec fn node_state_of(value: Seq<char>) -> Result<NodeState, NodePairingTransportError> {
    if value == "pending"@ {
        Ok(NodeState::Pending)
    } else if value == "active"@ {
        Ok(NodeState::Active)
    } else if value == "draining"@ {
        Ok(NodeState::Draining)
    } else if value == "offline"@ {
        Ok(NodeState::Offline)
    } else if value == "removed"@ {
        Ok(NodeState::Removed)
    } else {
        invalid("node state is invalid")
    }
}

fn parse_node_state(value: &str) -> (parsed: Result<NodeState, NodePairingTransportError>)
    ensures
        parsed == node_state_of(value@),
{
    if text_is(value, "pending") {
        Ok(NodeState::Pending)
    } else if text_is(value, "active") {
        Ok(NodeState::Active)
    } else if text_is(value, "draining") {
        Ok(NodeState::Draining)
    } else if text_is(value, "offline") {
        Ok(NodeState::Offline)
    } else if text_is(value, "removed") {
        Ok(NodeState::Removed)
    } else {
        Err(NodePairingTransportError::InvalidDocument { reason: "node state is invalid" })
    }
}

proof fn lemma_node_state(value: NodeState)
    ensures
        node_state_of(node_state_text(value)) == Ok::<NodeState, NodePairingTransportError>(value),
{
    reveal_strlit("pending");
    assert("pending"@.len() == 7);
    reveal_strlit("active");
    assert("active"@.len() == 6);
    reveal_strlit("draining");
    assert("draining"@.len() == 8);
    reveal_strlit("offline");
    assert("offline"@.len() == 7);
    reveal_strlit("removed");
    assert("removed"@.len() == 7);
    assert("offline"@[0] != "pending"@[0]);
    assert("removed"@[0] != "pending"@[0]);
    assert("removed"@[0] != "offline"@[0]);
}

/// The wire name of one value.
pub open spec fn pairing_state_text(value: NodePairingState) -> Seq<char> {
    match value {
        NodePairingState::Open => "open"@,
        NodePairingState::PendingApproval => "pending_approval"@,
        NodePairingState::Active => "active"@,
    }
}

fn pairing_state_name(value: NodePairingState) -> (name: &'static str)
    ensures
        name@ == pairing_state_text(value),
{
    match value {
        NodePairingState::Open => "open",
        NodePairingState::PendingApproval => "pending_approval",
        NodePairingState::Active => "active",
    }
}

/// The value of one wire name.
pub open spec fn pairing_state_of(
    value: Seq<char>,
) -> Result<NodePairingState, NodePairingTransportError> {
    if value == "open"@ {
        Ok(NodePairingState::Open)
    } else if value == "pending_approval"@ {
        Ok(NodePairingState::PendingApproval)
    } else if value == "active"@ {
        Ok(NodePairingState::Active)
    } else {
        invalid("pairing status is invalid")
    }
}

fn parse_pairing_state(value: &str) -> (parsed: Result<NodePairingState, NodePairingTransportError>)
    ensures
        parsed == pairing_state_of(value@),
{
    if text_is(value, "open") {
        Ok(NodePairingState::Open)
    } else if text_is(value, "pending_approval") {
        Ok(NodePairingState::PendingApproval)
    } else if text_is(value, "active") {
        Ok(NodePairingState::Active)
    } else {
        Err(NodePairingTransportError::InvalidDocument { reason: "pairing status is invalid" })
    }
}

proof fn lemma_pairing_state(value: NodePairingState)
    ensures
        pairing_state_of(pairing_state_text(value)) == Ok::<NodePairingState, NodePairingTransportError>(value),
{
    reveal_strlit("open");
    assert("open"@.len() == 4);
    reveal_strlit("pending_approval");
    assert("pending_approval"@.len() == 16);
    reveal_strlit("active");
    assert("active"@.len() == 6);
}

/// The wire form of one node.
pub open spec fn wire_node(node: NodeView) -> WireNodeView {
    WireNodeView {
        node_id: node.identity.node_id.text(),
        machine_id: node.identity.machine_id.text(),
        installation_id: node.identity.installation_id.text(),
        display_name: node.display_name,
        role: role_text(node.role),
        state: node_state_text(node.state),
        control_address: node.control_address,
        created_at_unix_milliseconds: node.timestamps.created_at.value,
        updated_at_unix_milliseconds: node.timestamps.updated_at.value,
    }
}

/// What reading one wire node gives: role and state first, then every typed value.
pub open spec fn node_from_wire(wire: WireNodeView) -> Result<NodeView, NodePairingTransportError> {
    match role_of(wire.role) {
        Err(error) => Err(error),
        Ok(role) => match node_state_of(wire.state) {
            Err(error) => Err(error),
            Ok(state) => if lower_hex(wire.node_id, 32) && lower_hex(wire.machine_id, 32)
                && lower_hex(wire.installation_id, 32) && wire.display_name.len() > 0
                && wire.control_address.len() > 0 && wire.created_at_unix_milliseconds
                <= wire.updated_at_unix_milliseconds {
                Ok(
                    NodeView {
                        identity: NodeIdentity {
                            node_id: id_of(wire.node_id),
                            machine_id: id_of(wire.machine_id),
                            installation_id: id_of(wire.installation_id),
                        },
                        display_name: wire.display_name,
                        role,
                        state,
                        control_address: wire.control_address,
                        latest_hardware_observation_id: None,
                        timestamps: EntityTimestamps {
                            created_at: UnixMilliseconds {
                                value: wire.created_at_unix_milliseconds,
                            },
                            updated_at: UnixMilliseconds {
                                value: wire.updated_at_unix_milliseconds,
                            },
                        },
                    },
                )
            } else {
                invalid("typed value is invalid")
            },
        },
    }
}

impl WireNode {
    /// Projects one immutable Node snapshot into exact transport fields.
    pub fn from_node(node: &Node) -> (wire: WireNode)
        ensures
            wire@ == wire_node(node@),
    {
        WireNode {
            node_id: node.identity.node_id.to_text(),
            machine_id: node.identity.machine_id.to_text(),
            installation_id: node.identity.installation_id.to_text(),
            display_name: node.display_name.as_str().to_owned(),
            role: role_name(node.role).to_owned(),
            state: node_state_name(node.state).to_owned(),
            control_address: node.control_address.as_str().to_owned(),
            created_at_unix_milliseconds: node.timestamps.created_at.value,
            updated_at_unix_milliseconds: node.timestamps.updated_at.value,
        }
    }

    /// Reconstructs one validated immutable Node snapshot.
    pub fn into_node(self) -> (node: Result<Node, NodePairingTransportError>)
        ensures
            outcome(node) == node_from_wire(self@),
    {
        let role = parse_role(self.role.as_str())?;
        let state = parse_node_state(self.state.as_str())?;
        let node_id = typed_id(&self.node_id)?;
        let machine_id = typed_id(&self.machine_id)?;
        let installation_id = typed_id(&self.installation_id)?;
        let display_name = typed_name(&self.display_name)?;
        let control_address = typed_name(&self.control_address)?;
        let timestamps = match EntityTimestamps::new(
            UnixMilliseconds::new(self.created_at_unix_milliseconds),
            UnixMilliseconds::new(self.updated_at_unix_milliseconds),
        ) {
            Ok(timestamps) => timestamps,
            Err(_) => {
                return Err(
                    NodePairingTransportError::InvalidDocument { reason: "typed value is invalid" },
                );
            },
        };
        Ok(
            Node {
                identity: NodeIdentity::new(node_id, machine_id, installation_id),
                display_name,
                role,
                state,
                control_address,
                latest_hardware_observation_id: None,
                timestamps,
            },
        )
    }
}

/// A node as the wire carries it: named, with ordered times and without a hardware pointer.
pub open spec fn node_portable(node: NodeView) -> bool {
    &&& node.display_name.len() > 0
    &&& node.control_address.len() > 0
    &&& node.latest_hardware_observation_id is None
    &&& node.timestamps.created_at.value <= node.timestamps.updated_at.value
}

/// Reading the wire form of one node gives the node back, but for its hardware pointer.
pub proof fn law_node_round_trip(node: NodeView)
    requires
        node_portable(node),
    ensures
        node_from_wire(wire_node(node)) == Ok::<NodeView, NodePairingTransportError>(node),
{
    lemma_role(node.role);
    lemma_node_state(node.state);
    law_identity_text(node.identity.node_id);
    law_identity_text(node.identity.machine_id);
    law_identity_text(node.identity.installation_id);
}

/// Stores one closed pairing mode.
pub enum WireMode {
    Lan,
    Remote,
    ConnectX { candidate_public_key_sha256: String, direct_interface: String },
}

/// What one [`WireMode`] holds.
pub enum WireModeView {
    Lan,
    Remote,
    ConnectX { candidate_public_key_sha256: Seq<char>, direct_interface: Seq<char> },
}

impl View for WireMode {
    type V = WireModeView;

    open spec fn view(&self) -> WireModeView {
        match self {
            WireMode::Lan => WireModeView::Lan,
            WireMode::Remote => WireModeView::Remote,
            WireMode::ConnectX { candidate_public_key_sha256, direct_interface } => {
                WireModeView::ConnectX {
                    candidate_public_key_sha256: candidate_public_key_sha256@,
                    direct_interface: direct_interface@,
                }
            },
        }
    }
}

impl Valued for WireMode {
    fn copy(&self) -> (copy: Self) {
        match self {
            WireMode::Lan => WireMode::Lan,
            WireMode::Remote => WireMode::Remote,
            WireMode::ConnectX { candidate_public_key_sha256, direct_interface } => {
                WireMode::ConnectX {
                    candidate_public_key_sha256: candidate_public_key_sha256.clone(),
                    direct_interface: direct_interface.clone(),
                }
            },
        }
    }

    fn same(&self, other: &Self) -> (same: bool) {
        match (self, other) {
            (WireMode::Lan, WireMode::Lan) => true,
            (WireMode::Remote, WireMode::Remote) => true,
            (
                WireMode::ConnectX {
                    candidate_public_key_sha256: left_key,
                    direct_interface: left_interface,
                },
                WireMode::ConnectX {
                    candidate_public_key_sha256: right_key,
                    direct_interface: right_interface,
                },
            ) => *left_key == *right_key && *left_interface == *right_interface,
            _ => false,
        }
    }
}

/// The wire form of one mode.
pub open spec fn wire_mode(mode: NodePairingModeView) -> WireModeView {
    match mode {
        NodePairingModeView::Lan => WireModeView::Lan,
        NodePairingModeView::Remote => WireModeView::Remote,
        NodePairingModeView::ConnectX { candidate_public_key_sha256, direct_interface } => {
            WireModeView::ConnectX {
                candidate_public_key_sha256: candidate_public_key_sha256.text(),
                direct_interface,
            }
        },
    }
}

/// What reading one wire mode gives.
pub open spec fn mode_from_wire(wire: WireModeView) -> Result<
    NodePairingModeView,
    NodePairingTransportError,
> {
    match wire {
        WireModeView::Lan => Ok(NodePairingModeView::Lan),
        WireModeView::Remote => Ok(NodePairingModeView::Remote),
        WireModeView::ConnectX { candidate_public_key_sha256, direct_interface } => {
            match digest_checked(candidate_public_key_sha256) {
                Err(error) => Err(error),
                Ok(digest) => match name_checked(direct_interface) {
                    Err(error) => Err(error),
                    Ok(name) => Ok(
                        NodePairingModeView::ConnectX {
                            candidate_public_key_sha256: digest,
                            direct_interface: name,
                        },
                    ),
                },
            }
        },
    }
}

impl WireMode {
    /// Projects one typed mode without optional-field ambiguity.
    pub fn from_mode(mode: &NodePairingMode) -> (wire: WireMode)
        ensures
            wire@ == wire_mode(mode@),
    {
        match mode {
            NodePairingMode::Lan => WireMode::Lan,
            NodePairingMode::Remote => WireMode::Remote,
            NodePairingMode::ConnectX { candidate_public_key_sha256, direct_interface } => {
                WireMode::ConnectX {
                    candidate_public_key_sha256: candidate_public_key_sha256.to_text(),
                    direct_interface: direct_interface.as_str().to_owned(),
                }
            },
        }
    }

    /// Reconstructs one typed mode without fallback.
    pub fn into_mode(self) -> (mode: Result<NodePairingMode, NodePairingTransportError>)
        ensures
            outcome(mode) == mode_from_wire(self@),
    {
        match self {
            WireMode::Lan => Ok(NodePairingMode::Lan),
            WireMode::Remote => Ok(NodePairingMode::Remote),
            WireMode::ConnectX { candidate_public_key_sha256, direct_interface } => {
                let digest = typed_digest(&candidate_public_key_sha256)?;
                let name = typed_name(&direct_interface)?;
                Ok(
                    NodePairingMode::ConnectX {
                        candidate_public_key_sha256: digest,
                        direct_interface: name,
                    },
                )
            },
        }
    }
}

/// A mode that names its interface.
pub open spec fn mode_named(mode: NodePairingModeView) -> bool {
    mode matches NodePairingModeView::ConnectX { direct_interface, .. } ==> direct_interface.len()
        > 0
}

/// Reading the wire form of one mode gives the mode back.
pub proof fn law_mode_round_trip(mode: NodePairingModeView)
    requires
        mode_named(mode),
    ensures
        mode_from_wire(wire_mode(mode)) == Ok::<NodePairingModeView, NodePairingTransportError>(
            mode,
        ),
{
    if let NodePairingModeView::ConnectX { candidate_public_key_sha256, .. } = mode {
        law_digest_text(candidate_public_key_sha256);
    }
}

/// Stores one binary-bearing enrollment request with base64 payloads.
#[derive(Debug)]
pub struct WireEnrollmentRequest {
    pub idempotency_key: String,
    pub invite_id: String,
    pub node: WireNode,
    pub public_key_base64: String,
    pub installation_created_at_unix_milliseconds: u64,
    pub proof_signature_base64: String,
    pub setup_code: Option<String>,
}

/// What one [`WireEnrollmentRequest`] holds.
pub struct WireEnrollmentRequestView {
    pub idempotency_key: Seq<char>,
    pub invite_id: Seq<char>,
    pub node: WireNodeView,
    pub public_key_base64: Seq<char>,
    pub installation_created_at_unix_milliseconds: u64,
    pub proof_signature_base64: Seq<char>,
    pub setup_code: Option<Seq<char>>,
}

impl View for WireEnrollmentRequest {
    type V = WireEnrollmentRequestView;

    open spec fn view(&self) -> WireEnrollmentRequestView {
        WireEnrollmentRequestView {
            idempotency_key: self.idempotency_key@,
            invite_id: self.invite_id@,
            node: self.node@,
            public_key_base64: self.public_key_base64@,
            installation_created_at_unix_milliseconds: self.installation_created_at_unix_milliseconds,
            proof_signature_base64: self.proof_signature_base64@,
            setup_code: viewed(self.setup_code),
        }
    }
}

impl Valued for WireEnrollmentRequest {
    fn copy(&self) -> (copy: Self) {
        WireEnrollmentRequest {
            idempotency_key: self.idempotency_key.copy(),
            invite_id: self.invite_id.copy(),
            node: self.node.copy(),
            public_key_base64: self.public_key_base64.copy(),
            installation_created_at_unix_milliseconds: self.installation_created_at_unix_milliseconds,
            proof_signature_base64: self.proof_signature_base64.copy(),
            setup_code: copy_optional(&self.setup_code),
        }
    }

    fn same(&self, other: &Self) -> (same: bool) {
        self.idempotency_key.same(&other.idempotency_key)
            && self.invite_id.same(&other.invite_id)
            && self.node.same(&other.node)
            && self.public_key_base64.same(&other.public_key_base64)
            && self.installation_created_at_unix_milliseconds == other.installation_created_at_unix_milliseconds
            && self.proof_signature_base64.same(&other.proof_signature_base64)
            && same_optional(&self.setup_code, &other.setup_code)
    }
}

/// The wire form of one candidate enrollment.
pub open spec fn wire_enrollment_request(
    enrollment: NodePairingCandidateEnrollmentView,
) -> WireEnrollmentRequestView {
    WireEnrollmentRequestView {
        idempotency_key: enrollment.idempotency_key,
        invite_id: enrollment.invite_id.text(),
        node: wire_node(enrollment.candidate),
        public_key_base64: base64_text(enrollment.public_key),
        installation_created_at_unix_milliseconds: enrollment.candidate.timestamps.created_at.value,
        proof_signature_base64: base64_text(enrollment.proof_signature),
        setup_code: enrollment.setup_code,
    }
}

/// What reading one wire enrollment gives.
pub open spec fn enrollment_request_from_wire(wire: WireEnrollmentRequestView) -> Result<
    NodePairingCandidateEnrollmentView,
    NodePairingTransportError,
> {
    match node_from_wire(wire.node) {
        Err(error) => Err(error),
        Ok(node) => if node.timestamps.created_at.value
            != wire.installation_created_at_unix_milliseconds {
            invalid("candidate installation timestamp is divergent")
        } else {
            match id_checked(wire.invite_id) {
                Err(error) => Err(error),
                Ok(invite_id) => match payload(wire.public_key_base64, MAXIMUM_PUBLIC_KEY_BYTES) {
                    Err(error) => Err(error),
                    Ok(public_key) => match payload(
                        wire.proof_signature_base64,
                        MAXIMUM_SIGNATURE_BYTES,
                    ) {
                        Err(error) => Err(error),
                        Ok(proof_signature) => candidate_enrollment_checked(
                            NodePairingCandidateEnrollmentView {
                                idempotency_key: wire.idempotency_key,
                                invite_id,
                                candidate: node,
                                public_key,
                                proof_signature,
                                setup_code: wire.setup_code,
                            },
                        ),
                    },
                },
            }
        },
    }
}

impl WireEnrollmentRequest {
    /// Projects one candidate request without exposing binary values as diagnostic text.
    pub fn from_request(request: &NodePairingCandidateEnrollment) -> (wire: WireEnrollmentRequest)
        requires
            enrollment_bounded(request@),
        ensures
            wire@ == wire_enrollment_request(request@),
    {
        WireEnrollmentRequest {
            idempotency_key: request.idempotency_key.clone(),
            invite_id: request.invite_id.to_text(),
            node: WireNode::from_node(&request.candidate),
            public_key_base64: encode_base64(&request.public_key),
            installation_created_at_unix_milliseconds: request.candidate.timestamps.created_at.value,
            proof_signature_base64: encode_base64(&request.proof_signature),
            setup_code: copy_optional(&request.setup_code),
        }
    }

    /// Reconstructs one enrollment request without accepting transport-supplied peer substitution.
    pub fn into_request(self) -> (request: Result<
        NodePairingCandidateEnrollment,
        NodePairingTransportError,
    >)
        ensures
            outcome(request) == enrollment_request_from_wire(self@),
    {
        let node = self.node.into_node()?;
        if node.timestamps.created_at.value != self.installation_created_at_unix_milliseconds {
            return Err(
                NodePairingTransportError::InvalidDocument {
                    reason: "candidate installation timestamp is divergent",
                },
            );
        }
        let invite_id = typed_id(&self.invite_id)?;
        let public_key = decode_base64(self.public_key_base64.as_str(), MAXIMUM_PUBLIC_KEY_BYTES)?;
        let proof_signature = decode_base64(
            self.proof_signature_base64.as_str(),
            MAXIMUM_SIGNATURE_BYTES,
        )?;
        NodePairingCandidateEnrollment::new(
            self.idempotency_key,
            invite_id,
            node,
            public_key,
            proof_signature,
            self.setup_code,
        )
    }
}

/// Reading the wire form of one valid enrollment gives the enrollment back.
pub proof fn law_enrollment_request_round_trip(enrollment: NodePairingCandidateEnrollmentView)
    requires
        candidate_enrollment_valid(enrollment),
        node_portable(enrollment.candidate),
    ensures
        enrollment_request_from_wire(wire_enrollment_request(enrollment)) == Ok::<
            NodePairingCandidateEnrollmentView,
            NodePairingTransportError,
        >(enrollment),
{
    law_node_round_trip(enrollment.candidate);
    law_identity_text(enrollment.invite_id);
    law_payload_round_trip(enrollment.public_key, MAXIMUM_PUBLIC_KEY_BYTES);
    law_payload_round_trip(enrollment.proof_signature, MAXIMUM_SIGNATURE_BYTES);
}

/// Stores one signed candidate offer.
#[derive(Debug)]
pub struct WireCandidateOffer {
    pub candidate: WireNode,
    pub public_key_base64: String,
    pub public_key_sha256: String,
    pub certificate_sha256: String,
    pub request_nonce: String,
    pub issued_at_unix_milliseconds: u64,
    pub expires_at_unix_milliseconds: u64,
    pub signature_base64: String,
}

/// What one [`WireCandidateOffer`] holds.
pub struct WireCandidateOfferView {
    pub candidate: WireNodeView,
    pub public_key_base64: Seq<char>,
    pub public_key_sha256: Seq<char>,
    pub certificate_sha256: Seq<char>,
    pub request_nonce: Seq<char>,
    pub issued_at_unix_milliseconds: u64,
    pub expires_at_unix_milliseconds: u64,
    pub signature_base64: Seq<char>,
}

impl View for WireCandidateOffer {
    type V = WireCandidateOfferView;

    open spec fn view(&self) -> WireCandidateOfferView {
        WireCandidateOfferView {
            candidate: self.candidate@,
            public_key_base64: self.public_key_base64@,
            public_key_sha256: self.public_key_sha256@,
            certificate_sha256: self.certificate_sha256@,
            request_nonce: self.request_nonce@,
            issued_at_unix_milliseconds: self.issued_at_unix_milliseconds,
            expires_at_unix_milliseconds: self.expires_at_unix_milliseconds,
            signature_base64: self.signature_base64@,
        }
    }
}

impl Valued for WireCandidateOffer {
    fn copy(&self) -> (copy: Self) {
        WireCandidateOffer {
            candidate: self.candidate.copy(),
            public_key_base64: self.public_key_base64.copy(),
            public_key_sha256: self.public_key_sha256.copy(),
            certificate_sha256: self.certificate_sha256.copy(),
            request_nonce: self.request_nonce.copy(),
            issued_at_unix_milliseconds: self.issued_at_unix_milliseconds,
            expires_at_unix_milliseconds: self.expires_at_unix_milliseconds,
            signature_base64: self.signature_base64.copy(),
        }
    }

    fn same(&self, other: &Self) -> (same: bool) {
        self.candidate.same(&other.candidate)
            && self.public_key_base64.same(&other.public_key_base64)
            && self.public_key_sha256.same(&other.public_key_sha256)
            && self.certificate_sha256.same(&other.certificate_sha256)
            && self.request_nonce.same(&other.request_nonce)
            && self.issued_at_unix_milliseconds == other.issued_at_unix_milliseconds
            && self.expires_at_unix_milliseconds == other.expires_at_unix_milliseconds
            && self.signature_base64.same(&other.signature_base64)
    }
}

/// The wire form of one offer.
pub open spec fn wire_offer(offer: NodePairingCandidateOfferView) -> WireCandidateOfferView {
    WireCandidateOfferView {
        candidate: wire_node(offer.candidate),
        public_key_base64: base64_text(offer.public_key),
        public_key_sha256: offer.public_key_sha256.text(),
        certificate_sha256: offer.certificate_sha256.text(),
        request_nonce: offer.request_nonce.text(),
        issued_at_unix_milliseconds: offer.issued_at.value,
        expires_at_unix_milliseconds: offer.expires_at.value,
        signature_base64: base64_text(offer.signature),
    }
}

/// What reading one wire offer gives.
pub open spec fn offer_from_wire(wire: WireCandidateOfferView) -> Result<
    NodePairingCandidateOfferView,
    NodePairingTransportError,
> {
    match node_from_wire(wire.candidate) {
        Err(error) => Err(error),
        Ok(candidate) => match payload(wire.public_key_base64, MAXIMUM_PUBLIC_KEY_BYTES) {
            Err(error) => Err(error),
            Ok(public_key) => if !lower_hex(wire.public_key_sha256, 64) || !lower_hex(
                wire.certificate_sha256,
                64,
            ) || !lower_hex(wire.request_nonce, 64) {
                invalid("typed value is invalid")
            } else {
                match payload(wire.signature_base64, MAXIMUM_SIGNATURE_BYTES) {
                    Err(error) => Err(error),
                    Ok(signature) => offer_checked(
                        NodePairingCandidateOfferView {
                            candidate,
                            public_key,
                            public_key_sha256: Sha256Digest::of_text(wire.public_key_sha256),
                            certificate_sha256: Sha256Digest::of_text(wire.certificate_sha256),
                            request_nonce: Sha256Digest::of_text(wire.request_nonce),
                            issued_at: UnixMilliseconds {
                                value: wire.issued_at_unix_milliseconds,
                            },
                            expires_at: UnixMilliseconds {
                                value: wire.expires_at_unix_milliseconds,
                            },
                            signature,
                        },
                    ),
                }
            },
        },
    }
}

impl WireCandidateOffer {
    /// Projects one signed offer into its exact bounded wire fields.
    pub fn from_offer(offer: &NodePairingCandidateOffer) -> (wire: WireCandidateOffer)
        requires
            offer_bounded(offer@),
        ensures
            wire@ == wire_offer(offer@),
    {
        WireCandidateOffer {
            candidate: WireNode::from_node(&offer.candidate),
            public_key_base64: encode_base64(&offer.public_key),
            public_key_sha256: offer.public_key_sha256.to_text(),
            certificate_sha256: offer.certificate_sha256.to_text(),
            request_nonce: offer.request_nonce.to_text(),
            issued_at_unix_milliseconds: offer.issued_at.value,
            expires_at_unix_milliseconds: offer.expires_at.value,
            signature_base64: encode_base64(&offer.signature),
        }
    }

    /// Reconstructs one signed offer and reapplies every bounded invariant.
    pub fn into_offer(self) -> (offer: Result<NodePairingCandidateOffer, NodePairingTransportError>)
        ensures
            outcome(offer) == offer_from_wire(self@),
    {
        let candidate = self.candidate.into_node()?;
        let public_key = decode_base64(self.public_key_base64.as_str(), MAXIMUM_PUBLIC_KEY_BYTES)?;
        let public_key_sha256 = typed_digest(&self.public_key_sha256)?;
        let certificate_sha256 = typed_digest(&self.certificate_sha256)?;
        let request_nonce = typed_digest(&self.request_nonce)?;
        let signature = decode_base64(self.signature_base64.as_str(), MAXIMUM_SIGNATURE_BYTES)?;
        NodePairingCandidateOffer::new(
            candidate,
            public_key,
            public_key_sha256,
            certificate_sha256,
            request_nonce,
            UnixMilliseconds::new(self.issued_at_unix_milliseconds),
            UnixMilliseconds::new(self.expires_at_unix_milliseconds),
            signature,
        )
    }
}

/// Reading the wire form of one valid offer gives the offer back.
pub proof fn law_offer_round_trip(offer: NodePairingCandidateOfferView)
    requires
        offer_valid(offer),
        node_portable(offer.candidate),
    ensures
        offer_from_wire(wire_offer(offer)) == Ok::<
            NodePairingCandidateOfferView,
            NodePairingTransportError,
        >(offer),
{
    law_node_round_trip(offer.candidate);
    law_digest_text(offer.public_key_sha256);
    law_digest_text(offer.certificate_sha256);
    law_digest_text(offer.request_nonce);
    law_payload_round_trip(offer.public_key, MAXIMUM_PUBLIC_KEY_BYTES);
    law_payload_round_trip(offer.signature, MAXIMUM_SIGNATURE_BYTES);
}

/// Stores one public challenge.
pub struct WireChallenge {
    pub invite_id: String,
    pub mode: WireMode,
    pub nonce: String,
    pub created_at_unix_milliseconds: u64,
    pub expires_at_unix_milliseconds: u64,
    pub main_node_id: String,
    pub main_address: String,
    pub main_private_port: u16,
    pub main_public_key_sha256: String,
    pub main_certificate_sha256: String,
}

/// What one [`WireChallenge`] holds.
pub struct WireChallengeView {
    pub invite_id: Seq<char>,
    pub mode: WireModeView,
    pub nonce: Seq<char>,
    pub created_at_unix_milliseconds: u64,
    pub expires_at_unix_milliseconds: u64,
    pub main_node_id: Seq<char>,
    pub main_address: Seq<char>,
    pub main_private_port: u16,
    pub main_public_key_sha256: Seq<char>,
    pub main_certificate_sha256: Seq<char>,
}

impl View for WireChallenge {
    type V = WireChallengeView;

    open spec fn view(&self) -> WireChallengeView {
        WireChallengeView {
            invite_id: self.invite_id@,
            mode: self.mode@,
            nonce: self.nonce@,
            created_at_unix_milliseconds: self.created_at_unix_milliseconds,
            expires_at_unix_milliseconds: self.expires_at_unix_milliseconds,
            main_node_id: self.main_node_id@,
            main_address: self.main_address@,
            main_private_port: self.main_private_port,
            main_public_key_sha256: self.main_public_key_sha256@,
            main_certificate_sha256: self.main_certificate_sha256@,
        }
    }
}

impl Valued for WireChallenge {
    fn copy(&self) -> (copy: Self) {
        WireChallenge {
            invite_id: self.invite_id.copy(),
            mode: self.mode.copy(),
            nonce: self.nonce.copy(),
            created_at_unix_milliseconds: self.created_at_unix_milliseconds,
            expires_at_unix_milliseconds: self.expires_at_unix_milliseconds,
            main_node_id: self.main_node_id.copy(),
            main_address: self.main_address.copy(),
            main_private_port: self.main_private_port,
            main_public_key_sha256: self.main_public_key_sha256.copy(),
            main_certificate_sha256: self.main_certificate_sha256.copy(),
        }
    }

    fn same(&self, other: &Self) -> (same: bool) {
        self.invite_id.same(&other.invite_id)
            && self.mode.same(&other.mode)
            && self.nonce.same(&other.nonce)
            && self.created_at_unix_milliseconds == other.created_at_unix_milliseconds
            && self.expires_at_unix_milliseconds == other.expires_at_unix_milliseconds
            && self.main_node_id.same(&other.main_node_id)
            && self.main_address.same(&other.main_address)
            && self.main_private_port == other.main_private_port
            && self.main_public_key_sha256.same(&other.main_public_key_sha256)
            && self.main_certificate_sha256.same(&other.main_certificate_sha256)
    }
}

/// The wire form of one challenge.
pub open spec fn wire_challenge(challenge: NodePairingChallengeView) -> WireChallengeView {
    WireChallengeView {
        invite_id: challenge.invite_id.text(),
        mode: wire_mode(challenge.mode),
        nonce: challenge.nonce.text(),
        created_at_unix_milliseconds: challenge.created_at.value,
        expires_at_unix_milliseconds: challenge.expires_at.value,
        main_node_id: challenge.main_node_id.text(),
        main_address: challenge.main_address,
        main_private_port: challenge.main_private_port,
        main_public_key_sha256: challenge.main_public_key_sha256.text(),
        main_certificate_sha256: challenge.main_certificate_sha256.text(),
    }
}

/// What reading one wire challenge gives.
pub open spec fn challenge_from_wire(wire: WireChallengeView) -> Result<
    NodePairingChallengeView,
    NodePairingTransportError,
> {
    match mode_from_wire(wire.mode) {
        Ok(mode) if lower_hex(wire.invite_id, 32) && lower_hex(wire.nonce, 64) && lower_hex(
            wire.main_node_id,
            32,
        ) && wire.main_address.len() > 0 && lower_hex(wire.main_public_key_sha256, 64)
            && lower_hex(wire.main_certificate_sha256, 64) => {
            let challenge = NodePairingChallengeView {
                invite_id: id_of(wire.invite_id),
                mode,
                nonce: Sha256Digest::of_text(wire.nonce),
                created_at: UnixMilliseconds { value: wire.created_at_unix_milliseconds },
                expires_at: UnixMilliseconds { value: wire.expires_at_unix_milliseconds },
                main_node_id: id_of(wire.main_node_id),
                main_address: wire.main_address,
                main_private_port: wire.main_private_port,
                main_public_key_sha256: Sha256Digest::of_text(wire.main_public_key_sha256),
                main_certificate_sha256: Sha256Digest::of_text(wire.main_certificate_sha256),
            };
            if challenge_valid(challenge) {
                Ok(challenge)
            } else {
                Err(NodePairingTransportError::RequestRejected)
            }
        },
        _ => invalid("typed value is invalid"),
    }
}

impl WireChallenge {
    /// Projects one typed challenge without setup or proof material.
    pub fn from_challenge(challenge: &NodePairingChallenge) -> (wire: WireChallenge)
        ensures
            wire@ == wire_challenge(challenge@),
    {
        WireChallenge {
            invite_id: challenge.invite_id.to_text(),
            mode: WireMode::from_mode(&challenge.mode),
            nonce: challenge.nonce.to_text(),
            created_at_unix_milliseconds: challenge.created_at.value,
            expires_at_unix_milliseconds: challenge.expires_at.value,
            main_node_id: challenge.main_node_id.to_text(),
            main_address: challenge.main_address.as_str().to_owned(),
            main_private_port: challenge.main_private_port,
            main_public_key_sha256: challenge.main_public_key_sha256.to_text(),
            main_certificate_sha256: challenge.main_certificate_sha256.to_text(),
        }
    }

    /// Reconstructs one challenge under every typed value invariant.
    pub fn into_challenge(self) -> (challenge: Result<
        NodePairingChallenge,
        NodePairingTransportError,
    >)
        ensures
            outcome(challenge) == challenge_from_wire(self@),
    {
        let invite_id = typed_id(&self.invite_id)?;
        let mode = self.mode.into_mode()?;
        let nonce = typed_digest(&self.nonce)?;
        let main_node_id = typed_id(&self.main_node_id)?;
        let main_address = typed_name(&self.main_address)?;
        let main_public_key_sha256 = typed_digest(&self.main_public_key_sha256)?;
        let main_certificate_sha256 = typed_digest(&self.main_certificate_sha256)?;
        match NodePairingChallenge::new(
            invite_id,
            mode,
            nonce,
            UnixMilliseconds::new(self.created_at_unix_milliseconds),
            UnixMilliseconds::new(self.expires_at_unix_milliseconds),
            main_node_id,
            main_address,
            self.main_private_port,
            main_public_key_sha256,
            main_certificate_sha256,
        ) {
            Ok(challenge) => Ok(challenge),
            Err(_) => Err(NodePairingTransportError::RequestRejected),
        }
    }
}

/// Reading the wire form of one valid challenge gives the challenge back.
pub proof fn law_challenge_round_trip(challenge: NodePairingChallengeView)
    requires
        challenge_valid(challenge),
        mode_named(challenge.mode),
        challenge.main_address.len() > 0,
    ensures
        challenge_from_wire(wire_challenge(challenge)) == Ok::<
            NodePairingChallengeView,
            NodePairingTransportError,
        >(challenge),
{
    law_mode_round_trip(challenge.mode);
    law_identity_text(challenge.invite_id);
    law_identity_text(challenge.main_node_id);
    law_digest_text(challenge.nonce);
    law_digest_text(challenge.main_public_key_sha256);
    law_digest_text(challenge.main_certificate_sha256);
}

/// Stores one status projection shared by enrollment and polling responses.
pub struct WireStatus {
    pub invite_id: String,
    pub mode: WireMode,
    pub state: String,
    pub expires_at_unix_milliseconds: u64,
    pub attempts: u8,
    pub child_node_id: Option<String>,
    pub comparison_code: Option<String>,
}

/// What one [`WireStatus`] holds.
pub struct WireStatusView {
    pub invite_id: Seq<char>,
    pub mode: WireModeView,
    pub state: Seq<char>,
    pub expires_at_unix_milliseconds: u64,
    pub attempts: u8,
    pub child_node_id: Option<Seq<char>>,
    pub comparison_code: Option<Seq<char>>,
}

impl View for WireStatus {
    type V = WireStatusView;

    open spec fn view(&self) -> WireStatusView {
        WireStatusView {
            invite_id: self.invite_id@,
            mode: self.mode@,
            state: self.state@,
            expires_at_unix_milliseconds: self.expires_at_unix_milliseconds,
            attempts: self.attempts,
            child_node_id: viewed(self.child_node_id),
            comparison_code: viewed(self.comparison_code),
        }
    }
}

impl Valued for WireStatus {
    fn copy(&self) -> (copy: Self) {
        WireStatus {
            invite_id: self.invite_id.copy(),
            mode: self.mode.copy(),
            state: self.state.copy(),
            expires_at_unix_milliseconds: self.expires_at_unix_milliseconds,
            attempts: self.attempts,
            child_node_id: copy_optional(&self.child_node_id),
            comparison_code: copy_optional(&self.comparison_code),
        }
    }

    fn same(&self, other: &Self) -> (same: bool) {
        self.invite_id.same(&other.invite_id)
            && self.mode.same(&other.mode)
            && self.state.same(&other.state)
            && self.expires_at_unix_milliseconds == other.expires_at_unix_milliseconds
            && self.attempts == other.attempts
            && same_optional(&self.child_node_id, &other.child_node_id)
            && same_optional(&self.comparison_code, &other.comparison_code)
    }
}

/// The text of one optional node.
pub open spec fn optional_node_text(node_id: Option<NodeId>) -> Option<Seq<char>> {
    match node_id {
        Some(node_id) => Some(node_id.text()),
        None => None,
    }
}

/// The wire form of one status.
pub open spec fn wire_status(status: NodePairingStatusView) -> WireStatusView {
    WireStatusView {
        invite_id: status.invite_id.text(),
        mode: wire_mode(status.mode),
        state: pairing_state_text(status.state),
        expires_at_unix_milliseconds: status.expires_at.value,
        attempts: status.attempts,
        child_node_id: optional_node_text(status.child_node_id),
        comparison_code: status.comparison_code,
    }
}

/// What reading one wire status gives: the state first, then every typed value.
pub open spec fn status_from_wire(wire: WireStatusView) -> Result<
    NodePairingStatusView,
    NodePairingTransportError,
> {
    match pairing_state_of(wire.state) {
        Err(error) => Err(error),
        Ok(state) => match mode_from_wire(wire.mode) {
            Ok(mode) if lower_hex(wire.invite_id, 32) && (wire.child_node_id matches Some(text)
                ==> lower_hex(text, 32)) => {
                let status = NodePairingStatusView {
                    invite_id: id_of(wire.invite_id),
                    mode,
                    state,
                    expires_at: UnixMilliseconds { value: wire.expires_at_unix_milliseconds },
                    attempts: wire.attempts,
                    child_node_id: match wire.child_node_id {
                        Some(text) => Some(id_of(text)),
                        None => None,
                    },
                    comparison_code: wire.comparison_code,
                };
                if status_valid(status) {
                    Ok(status)
                } else {
                    Err(NodePairingTransportError::RequestRejected)
                }
            },
            _ => invalid("typed value is invalid"),
        },
    }
}

impl WireStatus {
    /// Projects one typed status while retaining the optional approval code only in the payload.
    pub fn from_status(status: &NodePairingStatus) -> (wire: WireStatus)
        ensures
            wire@ == wire_status(status@),
    {
        WireStatus {
            invite_id: status.invite_id.to_text(),
            mode: WireMode::from_mode(&status.mode),
            state: pairing_state_name(status.state).to_owned(),
            expires_at_unix_milliseconds: status.expires_at.value,
            attempts: status.attempts,
            child_node_id: match status.child_node_id {
                Some(node_id) => Some(node_id.to_text()),
                None => None,
            },
            comparison_code: copy_optional(&status.comparison_code),
        }
    }

    /// Reconstructs one typed status without accepting unknown lifecycle values.
    pub fn into_status(self) -> (status: Result<NodePairingStatus, NodePairingTransportError>)
        ensures
            outcome(status) == status_from_wire(self@),
    {
        let state = parse_pairing_state(self.state.as_str())?;
        let invite_id = typed_id(&self.invite_id)?;
        let mode = self.mode.into_mode()?;
        let child_node_id = match &self.child_node_id {
            Some(text) => Some(typed_id(text)?),
            None => None,
        };
        match NodePairingStatus::new(
            invite_id,
            mode,
            state,
            UnixMilliseconds::new(self.expires_at_unix_milliseconds),
            self.attempts,
            child_node_id,
            self.comparison_code,
        ) {
            Ok(status) => Ok(status),
            Err(_) => Err(NodePairingTransportError::RequestRejected),
        }
    }
}

/// Reading the wire form of one valid status gives the status back.
pub proof fn law_status_round_trip(status: NodePairingStatusView)
    requires
        status_valid(status),
        mode_named(status.mode),
    ensures
        status_from_wire(wire_status(status)) == Ok::<
            NodePairingStatusView,
            NodePairingTransportError,
        >(status),
{
    lemma_pairing_state(status.state);
    law_mode_round_trip(status.mode);
    law_identity_text(status.invite_id);
    if let Some(node_id) = status.child_node_id {
        law_identity_text(node_id);
    }
}

/// Stores one public trust credential package.
#[derive(Debug)]
pub struct WireCredentials {
    pub main_public_key_base64: String,
    pub main_ca_certificate_base64: String,
    pub child_certificate_base64: String,
    pub membership_signature_base64: String,
    pub child_leaf_sha256: String,
    pub valid_from_unix_milliseconds: u64,
    pub expires_at_unix_milliseconds: u64,
}

/// What one [`WireCredentials`] holds.
pub struct WireCredentialsView {
    pub main_public_key_base64: Seq<char>,
    pub main_ca_certificate_base64: Seq<char>,
    pub child_certificate_base64: Seq<char>,
    pub membership_signature_base64: Seq<char>,
    pub child_leaf_sha256: Seq<char>,
    pub valid_from_unix_milliseconds: u64,
    pub expires_at_unix_milliseconds: u64,
}

impl View for WireCredentials {
    type V = WireCredentialsView;

    open spec fn view(&self) -> WireCredentialsView {
        WireCredentialsView {
            main_public_key_base64: self.main_public_key_base64@,
            main_ca_certificate_base64: self.main_ca_certificate_base64@,
            child_certificate_base64: self.child_certificate_base64@,
            membership_signature_base64: self.membership_signature_base64@,
            child_leaf_sha256: self.child_leaf_sha256@,
            valid_from_unix_milliseconds: self.valid_from_unix_milliseconds,
            expires_at_unix_milliseconds: self.expires_at_unix_milliseconds,
        }
    }
}

impl Valued for WireCredentials {
    fn copy(&self) -> (copy: Self) {
        WireCredentials {
            main_public_key_base64: self.main_public_key_base64.copy(),
            main_ca_certificate_base64: self.main_ca_certificate_base64.copy(),
            child_certificate_base64: self.child_certificate_base64.copy(),
            membership_signature_base64: self.membership_signature_base64.copy(),
            child_leaf_sha256: self.child_leaf_sha256.copy(),
            valid_from_unix_milliseconds: self.valid_from_unix_milliseconds,
            expires_at_unix_milliseconds: self.expires_at_unix_milliseconds,
        }
    }

    fn same(&self, other: &Self) -> (same: bool) {
        self.main_public_key_base64.same(&other.main_public_key_base64)
            && self.main_ca_certificate_base64.same(&other.main_ca_certificate_base64)
            && self.child_certificate_base64.same(&other.child_certificate_base64)
            && self.membership_signature_base64.same(&other.membership_signature_base64)
            && self.child_leaf_sha256.same(&other.child_leaf_sha256)
            && self.valid_from_unix_milliseconds == other.valid_from_unix_milliseconds
            && self.expires_at_unix_milliseconds == other.expires_at_unix_milliseconds
    }
}

/// The wire form of one credential package.
pub open spec fn wire_credentials(credentials: NodePairingCredentialsView) -> WireCredentialsView {
    WireCredentialsView {
        main_public_key_base64: base64_text(credentials.main_public_key),
        main_ca_certificate_base64: base64_text(credentials.main_ca_certificate),
        child_certificate_base64: base64_text(credentials.child_certificate),
        membership_signature_base64: base64_text(credentials.membership_signature),
        child_leaf_sha256: credentials.child_leaf_sha256.text(),
        valid_from_unix_milliseconds: credentials.valid_from.value,
        expires_at_unix_milliseconds: credentials.expires_at.value,
    }
}

/// What reading one wire credential package gives, with the first failure in field order.
pub open spec fn credentials_from_wire(wire: WireCredentialsView) -> Result<
    NodePairingCredentialsView,
    NodePairingTransportError,
> {
    match payload(wire.main_public_key_base64, MAXIMUM_CREDENTIAL_BYTES) {
        Err(error) => Err(error),
        Ok(main_public_key) => match payload(
            wire.main_ca_certificate_base64,
            MAXIMUM_CREDENTIAL_BYTES,
        ) {
            Err(error) => Err(error),
            Ok(main_ca_certificate) => match payload(
                wire.child_certificate_base64,
                MAXIMUM_CREDENTIAL_BYTES,
            ) {
                Err(error) => Err(error),
                Ok(child_certificate) => match payload(
                    wire.membership_signature_base64,
                    MAXIMUM_SIGNATURE_BYTES,
                ) {
                    Err(error) => Err(error),
                    Ok(membership_signature) => if !lower_hex(wire.child_leaf_sha256, 64) {
                        invalid("typed value is invalid")
                    } else {
                        let credentials = NodePairingCredentialsView {
                            main_public_key,
                            main_ca_certificate,
                            child_certificate,
                            membership_signature,
                            child_leaf_sha256: Sha256Digest::of_text(wire.child_leaf_sha256),
                            valid_from: UnixMilliseconds {
                                value: wire.valid_from_unix_milliseconds,
                            },
                            expires_at: UnixMilliseconds {
                                value: wire.expires_at_unix_milliseconds,
                            },
                        };
                        if credentials_valid(credentials) {
                            Ok(credentials)
                        } else {
                            Err(NodePairingTransportError::RequestRejected)
                        }
                    },
                },
            },
        },
    }
}

impl WireCredentials {
    /// Projects one credential package as bounded base64 payloads.
    pub fn from_credentials(credentials: &NodePairingCredentials) -> (wire: WireCredentials)
        requires
            credentials_bounded(credentials@),
        ensures
            wire@ == wire_credentials(credentials@),
    {
        WireCredentials {
            main_public_key_base64: encode_base64(&credentials.main_public_key),
            main_ca_certificate_base64: encode_base64(&credentials.main_ca_certificate),
            child_certificate_base64: encode_base64(&credentials.child_certificate),
            membership_signature_base64: encode_base64(&credentials.membership_signature),
            child_leaf_sha256: credentials.child_leaf_sha256.to_text(),
            valid_from_unix_milliseconds: credentials.valid_from.value,
            expires_at_unix_milliseconds: credentials.expires_at.value,
        }
    }

    /// Reconstructs one bounded credential package and reapplies time invariants.
    pub fn into_credentials(self) -> (credentials: Result<
        NodePairingCredentials,
        NodePairingTransportError,
    >)
        ensures
            outcome(credentials) == credentials_from_wire(self@),
    {
        let main_public_key = decode_base64(
            self.main_public_key_base64.as_str(),
            MAXIMUM_CREDENTIAL_BYTES,
        )?;
        let main_ca_certificate = decode_base64(
            self.main_ca_certificate_base64.as_str(),
            MAXIMUM_CREDENTIAL_BYTES,
        )?;
        let child_certificate = decode_base64(
            self.child_certificate_base64.as_str(),
            MAXIMUM_CREDENTIAL_BYTES,
        )?;
        let membership_signature = decode_base64(
            self.membership_signature_base64.as_str(),
            MAXIMUM_SIGNATURE_BYTES,
        )?;
        let child_leaf_sha256 = typed_digest(&self.child_leaf_sha256)?;
        match NodePairingCredentials::new(
            main_public_key,
            main_ca_certificate,
            child_certificate,
            membership_signature,
            child_leaf_sha256,
            UnixMilliseconds::new(self.valid_from_unix_milliseconds),
            UnixMilliseconds::new(self.expires_at_unix_milliseconds),
        ) {
            Ok(credentials) => Ok(credentials),
            Err(_) => Err(NodePairingTransportError::RequestRejected),
        }
    }
}

/// Reading the wire form of one valid credential package whose signature is within the wire's
/// bound gives the package back.
pub proof fn law_credentials_round_trip(credentials: NodePairingCredentialsView)
    requires
        credentials_valid(credentials),
        credentials.membership_signature.len() <= MAXIMUM_SIGNATURE_BYTES,
    ensures
        credentials_from_wire(wire_credentials(credentials)) == Ok::<
            NodePairingCredentialsView,
            NodePairingTransportError,
        >(credentials),
{
    law_payload_round_trip(credentials.main_public_key, MAXIMUM_CREDENTIAL_BYTES);
    law_payload_round_trip(credentials.main_ca_certificate, MAXIMUM_CREDENTIAL_BYTES);
    law_payload_round_trip(credentials.child_certificate, MAXIMUM_CREDENTIAL_BYTES);
    law_payload_round_trip(credentials.membership_signature, MAXIMUM_SIGNATURE_BYTES);
    law_digest_text(credentials.child_leaf_sha256);
}

/// Stores one completed enrollment.
pub struct WireEnrollment {
    pub status: WireStatus,
    pub credentials: WireCredentials,
}

/// What one [`WireEnrollment`] holds.
pub struct WireEnrollmentView {
    pub status: WireStatusView,
    pub credentials: WireCredentialsView,
}

impl View for WireEnrollment {
    type V = WireEnrollmentView;

    open spec fn view(&self) -> WireEnrollmentView {
        WireEnrollmentView {
            status: self.status@,
            credentials: self.credentials@,
        }
    }
}

impl Valued for WireEnrollment {
    fn copy(&self) -> (copy: Self) {
        WireEnrollment {
            status: self.status.copy(),
            credentials: self.credentials.copy(),
        }
    }

    fn same(&self, other: &Self) -> (same: bool) {
        self.status.same(&other.status)
            && self.credentials.same(&other.credentials)
    }
}

/// The wire form of one enrollment.
pub open spec fn wire_enrollment(enrollment: NodePairingEnrollmentView) -> WireEnrollmentView {
    WireEnrollmentView {
        status: wire_status(enrollment.status),
        credentials: wire_credentials(enrollment.credentials),
    }
}

/// What reading one wire enrollment response gives.
pub open spec fn enrollment_from_wire(wire: WireEnrollmentView) -> Result<
    NodePairingEnrollmentView,
    NodePairingTransportError,
> {
    match status_from_wire(wire.status) {
        Err(error) => Err(error),
        Ok(status) => match credentials_from_wire(wire.credentials) {
            Err(error) => Err(error),
            Ok(credentials) => {
                let enrollment = NodePairingEnrollmentView { status, credentials };
                if enrollment_valid(enrollment) {
                    Ok(enrollment)
                } else {
                    Err(NodePairingTransportError::RequestRejected)
                }
            },
        },
    }
}

impl WireEnrollment {
    /// Projects one completed enrollment into status and public credentials.
    pub fn from_enrollment(enrollment: &NodePairingEnrollment) -> (wire: WireEnrollment)
        requires
            credentials_bounded(enrollment@.credentials),
        ensures
            wire@ == wire_enrollment(enrollment@),
    {
        WireEnrollment {
            status: WireStatus::from_status(&enrollment.status),
            credentials: WireCredentials::from_credentials(&enrollment.credentials),
        }
    }

    /// Reconstructs one coherent enrollment response.
    pub fn into_enrollment(self) -> (enrollment: Result<
        NodePairingEnrollment,
        NodePairingTransportError,
    >)
        ensures
            outcome(enrollment) == enrollment_from_wire(self@),
    {
        let status = self.status.into_status()?;
        let credentials = self.credentials.into_credentials()?;
        match NodePairingEnrollment::new(status, credentials) {
            Ok(enrollment) => Ok(enrollment),
            Err(_) => Err(NodePairingTransportError::RequestRejected),
        }
    }
}

// ---------------------------------------------------------------------------
// Documents
// ---------------------------------------------------------------------------

/// Stores the closed request union without ambiguous optional fields.
pub enum WireRequest {
    CandidateOffer { request_nonce: String },
    Challenge { invite_id: String },
    Enroll { enrollment: WireEnrollmentRequest },
    Status { invite_id: String },
}

/// What one [`WireRequest`] holds.
pub enum WireRequestView {
    CandidateOffer { request_nonce: Seq<char> },
    Challenge { invite_id: Seq<char> },
    Enroll { enrollment: WireEnrollmentRequestView },
    Status { invite_id: Seq<char> },
}

impl View for WireRequest {
    type V = WireRequestView;

    open spec fn view(&self) -> WireRequestView {
        match self {
            WireRequest::CandidateOffer { request_nonce } => WireRequestView::CandidateOffer {
                request_nonce: request_nonce@,
            },
            WireRequest::Challenge { invite_id } => WireRequestView::Challenge {
                invite_id: invite_id@,
            },
            WireRequest::Enroll { enrollment } => WireRequestView::Enroll {
                enrollment: enrollment@,
            },
            WireRequest::Status { invite_id } => WireRequestView::Status { invite_id: invite_id@ },
        }
    }
}

/// Stores the closed successful response union.
pub enum WireResponse {
    CandidateOffer { offer: WireCandidateOffer },
    Challenge { challenge: WireChallenge, main: WireNode },
    Enrollment { enrollment: WireEnrollment },
    Status { status: WireStatus },
}

/// What one [`WireResponse`] holds.
pub enum WireResponseView {
    CandidateOffer { offer: WireCandidateOfferView },
    Challenge { challenge: WireChallengeView, main: WireNodeView },
    Enrollment { enrollment: WireEnrollmentView },
    Status { status: WireStatusView },
}

impl View for WireResponse {
    type V = WireResponseView;

    open spec fn view(&self) -> WireResponseView {
        match self {
            WireResponse::CandidateOffer { offer } => WireResponseView::CandidateOffer {
                offer: offer@,
            },
            WireResponse::Challenge { challenge, main } => WireResponseView::Challenge {
                challenge: challenge@,
                main: main@,
            },
            WireResponse::Enrollment { enrollment } => WireResponseView::Enrollment {
                enrollment: enrollment@,
            },
            WireResponse::Status { status } => WireResponseView::Status { status: status@ },
        }
    }
}

/// The wire form of one request.
pub open spec fn wire_request(request: NodePairingTransportRequestView) -> WireRequestView {
    match request {
        NodePairingTransportRequestView::CandidateOffer { request_nonce } => {
            WireRequestView::CandidateOffer { request_nonce: request_nonce.text() }
        },
        NodePairingTransportRequestView::Challenge { invite_id } => WireRequestView::Challenge {
            invite_id: invite_id.text(),
        },
        NodePairingTransportRequestView::Enroll(enrollment) => WireRequestView::Enroll {
            enrollment: wire_enrollment_request(enrollment),
        },
        NodePairingTransportRequestView::Status { invite_id } => WireRequestView::Status {
            invite_id: invite_id.text(),
        },
    }
}

/// What reading one wire request gives.
pub open spec fn request_from_wire(wire: WireRequestView) -> Result<
    NodePairingTransportRequestView,
    NodePairingTransportError,
> {
    match wire {
        WireRequestView::CandidateOffer { request_nonce } => match digest_checked(request_nonce) {
            Err(error) => Err(error),
            Ok(request_nonce) => Ok(
                NodePairingTransportRequestView::CandidateOffer { request_nonce },
            ),
        },
        WireRequestView::Challenge { invite_id } => match id_checked(invite_id) {
            Err(error) => Err(error),
            Ok(invite_id) => Ok(NodePairingTransportRequestView::Challenge { invite_id }),
        },
        WireRequestView::Enroll { enrollment } => match enrollment_request_from_wire(enrollment) {
            Err(error) => Err(error),
            Ok(enrollment) => Ok(NodePairingTransportRequestView::Enroll(enrollment)),
        },
        WireRequestView::Status { invite_id } => match id_checked(invite_id) {
            Err(error) => Err(error),
            Ok(invite_id) => Ok(NodePairingTransportRequestView::Status { invite_id }),
        },
    }
}

/// A request whose parts were built by their constructors.
pub open spec fn request_coherent(request: NodePairingTransportRequestView) -> bool {
    request matches NodePairingTransportRequestView::Enroll(enrollment)
        ==> candidate_enrollment_valid(enrollment)
}

impl WireRequest {
    /// Projects one typed request into primitive wire fields.
    pub fn from_request(request: &NodePairingTransportRequest) -> (wire: WireRequest)
        requires
            request_bounded(request@),
        ensures
            wire@ == wire_request(request@),
    {
        match request {
            NodePairingTransportRequest::CandidateOffer { request_nonce } => {
                WireRequest::CandidateOffer { request_nonce: request_nonce.to_text() }
            },
            NodePairingTransportRequest::Challenge { invite_id } => WireRequest::Challenge {
                invite_id: invite_id.to_text(),
            },
            NodePairingTransportRequest::Enroll(request) => WireRequest::Enroll {
                enrollment: WireEnrollmentRequest::from_request(request),
            },
            NodePairingTransportRequest::Status { invite_id } => WireRequest::Status {
                invite_id: invite_id.to_text(),
            },
        }
    }

    /// Reconstructs one typed request under every value-level invariant.
    pub fn into_request(self) -> (request: Result<
        NodePairingTransportRequest,
        NodePairingTransportError,
    >)
        ensures
            outcome(request) == request_from_wire(self@),
    {
        match self {
            WireRequest::CandidateOffer { request_nonce } => {
                let request_nonce = typed_digest(&request_nonce)?;
                Ok(NodePairingTransportRequest::CandidateOffer { request_nonce })
            },
            WireRequest::Challenge { invite_id } => {
                let invite_id = typed_id(&invite_id)?;
                Ok(NodePairingTransportRequest::Challenge { invite_id })
            },
            WireRequest::Enroll { enrollment } => {
                let enrollment = enrollment.into_request()?;
                Ok(NodePairingTransportRequest::Enroll(enrollment))
            },
            WireRequest::Status { invite_id } => {
                let invite_id = typed_id(&invite_id)?;
                Ok(NodePairingTransportRequest::Status { invite_id })
            },
        }
    }
}

/// The wire form of one response.
pub open spec fn wire_response(response: NodePairingTransportResponseView) -> WireResponseView {
    match response {
        NodePairingTransportResponseView::CandidateOffer(offer) => WireResponseView::CandidateOffer {
            offer: wire_offer(offer),
        },
        NodePairingTransportResponseView::Challenge { challenge, main } => {
            WireResponseView::Challenge {
                challenge: wire_challenge(challenge),
                main: wire_node(main),
            }
        },
        NodePairingTransportResponseView::Enrollment(enrollment) => WireResponseView::Enrollment {
            enrollment: wire_enrollment(enrollment),
        },
        NodePairingTransportResponseView::Status(status) => WireResponseView::Status {
            status: wire_status(status),
        },
    }
}

/// What reading one wire response gives.
pub open spec fn response_from_wire(wire: WireResponseView) -> Result<
    NodePairingTransportResponseView,
    NodePairingTransportError,
> {
    match wire {
        WireResponseView::CandidateOffer { offer } => match offer_from_wire(offer) {
            Err(error) => Err(error),
            Ok(offer) => Ok(NodePairingTransportResponseView::CandidateOffer(offer)),
        },
        WireResponseView::Challenge { challenge, main } => match challenge_from_wire(challenge) {
            Err(error) => Err(error),
            Ok(challenge) => match node_from_wire(main) {
                Err(error) => Err(error),
                Ok(main) => Ok(NodePairingTransportResponseView::Challenge { challenge, main }),
            },
        },
        WireResponseView::Enrollment { enrollment } => match enrollment_from_wire(enrollment) {
            Err(error) => Err(error),
            Ok(enrollment) => Ok(NodePairingTransportResponseView::Enrollment(enrollment)),
        },
        WireResponseView::Status { status } => match status_from_wire(status) {
            Err(error) => Err(error),
            Ok(status) => Ok(NodePairingTransportResponseView::Status(status)),
        },
    }
}

/// A response whose parts were built by their constructors.
pub open spec fn response_coherent(response: NodePairingTransportResponseView) -> bool {
    match response {
        NodePairingTransportResponseView::CandidateOffer(offer) => offer_valid(offer),
        NodePairingTransportResponseView::Challenge { challenge, .. } => challenge_valid(challenge),
        NodePairingTransportResponseView::Enrollment(enrollment) => {
            &&& enrollment_valid(enrollment)
            &&& status_valid(enrollment.status)
            &&& credentials_valid(enrollment.credentials)
        },
        NodePairingTransportResponseView::Status(status) => status_valid(status),
    }
}

impl WireResponse {
    /// Projects one typed response into primitive wire fields.
    pub fn from_response(response: &NodePairingTransportResponse) -> (wire: WireResponse)
        requires
            response_bounded(response@),
        ensures
            wire@ == wire_response(response@),
    {
        match response {
            NodePairingTransportResponse::CandidateOffer(offer) => WireResponse::CandidateOffer {
                offer: WireCandidateOffer::from_offer(offer),
            },
            NodePairingTransportResponse::Challenge { challenge, main } => {
                WireResponse::Challenge {
                    challenge: WireChallenge::from_challenge(challenge),
                    main: WireNode::from_node(main),
                }
            },
            NodePairingTransportResponse::Enrollment(enrollment) => WireResponse::Enrollment {
                enrollment: WireEnrollment::from_enrollment(enrollment),
            },
            NodePairingTransportResponse::Status(status) => WireResponse::Status {
                status: WireStatus::from_status(status),
            },
        }
    }

    /// Reconstructs one typed response under every value-level invariant.
    pub fn into_response(self) -> (response: Result<
        NodePairingTransportResponse,
        NodePairingTransportError,
    >)
        ensures
            outcome(response) == response_from_wire(self@),
    {
        match self {
            WireResponse::CandidateOffer { offer } => {
                let offer = offer.into_offer()?;
                Ok(NodePairingTransportResponse::CandidateOffer(offer))
            },
            WireResponse::Challenge { challenge, main } => {
                let challenge = challenge.into_challenge()?;
                let main = main.into_node()?;
                Ok(NodePairingTransportResponse::Challenge { challenge, main })
            },
            WireResponse::Enrollment { enrollment } => {
                let enrollment = enrollment.into_enrollment()?;
                Ok(NodePairingTransportResponse::Enrollment(enrollment))
            },
            WireResponse::Status { status } => {
                let status = status.into_status()?;
                Ok(NodePairingTransportResponse::Status(status))
            },
        }
    }
}

/// Stores the required nested protocol identity.
pub struct WireSchema {
    pub name: String,
    pub version: u32,
}

/// Stores exactly one request or response in the closed v1 union.
pub struct WireDocument {
    pub schema: WireSchema,
    pub request: Option<WireRequest>,
    pub response: Option<WireResponse>,
}

/// What one [`WireDocument`] holds.
pub struct WireDocumentView {
    pub name: Seq<char>,
    pub version: u32,
    pub request: Option<WireRequestView>,
    pub response: Option<WireResponseView>,
}

impl View for WireDocument {
    type V = WireDocumentView;

    open spec fn view(&self) -> WireDocumentView {
        WireDocumentView {
            name: self.schema.name@,
            version: self.schema.version,
            request: viewed(self.request),
            response: viewed(self.response),
        }
    }
}

/// The document of one request.
pub open spec fn request_document(request: NodePairingTransportRequestView) -> WireDocumentView {
    WireDocumentView {
        name: "li_node_pairing_transport"@,
        version: 1,
        request: Some(wire_request(request)),
        response: None,
    }
}

/// The document of one response.
pub open spec fn response_document(response: NodePairingTransportResponseView) -> WireDocumentView {
    WireDocumentView {
        name: "li_node_pairing_transport"@,
        version: 1,
        request: None,
        response: Some(wire_response(response)),
    }
}

/// A document of this protocol with exactly one of a request and a response.
pub open spec fn envelope_valid(document: WireDocumentView) -> bool {
    &&& document.name == "li_node_pairing_transport"@
    &&& document.version == 1
    &&& (document.request is Some) != (document.response is Some)
}

/// What one document gives to a reader of requests.
pub open spec fn request_read(document: WireDocumentView) -> Result<
    NodePairingTransportRequestView,
    NodePairingTransportError,
> {
    if !envelope_valid(document) {
        invalid("document envelope is invalid")
    } else {
        match document.request {
            None => invalid("request is missing"),
            Some(request) => request_from_wire(request),
        }
    }
}

/// What one document gives to a reader of responses.
pub open spec fn response_read(document: WireDocumentView) -> Result<
    NodePairingTransportResponseView,
    NodePairingTransportError,
> {
    if !envelope_valid(document) {
        invalid("document envelope is invalid")
    } else {
        match document.response {
            None => invalid("response is missing"),
            Some(response) => response_from_wire(response),
        }
    }
}

fn schema() -> (schema: WireSchema)
    ensures
        schema.name@ == "li_node_pairing_transport"@,
        schema.version == 1,
{
    WireSchema {
        name: NODE_PAIRING_TRANSPORT_SCHEMA_NAME.to_owned(),
        version: NODE_PAIRING_TRANSPORT_SCHEMA_VERSION,
    }
}

impl WireDocument {
    /// Projects one typed request into its only legal document envelope.
    pub fn request(request: &NodePairingTransportRequest) -> (document: WireDocument)
        requires
            request_bounded(request@),
        ensures
            document@ == request_document(request@),
    {
        WireDocument {
            schema: schema(),
            request: Some(WireRequest::from_request(request)),
            response: None,
        }
    }

    /// Projects one typed response into its only legal document envelope.
    pub fn response(response: &NodePairingTransportResponse) -> (document: WireDocument)
        requires
            response_bounded(response@),
        ensures
            document@ == response_document(response@),
    {
        WireDocument {
            schema: schema(),
            request: None,
            response: Some(WireResponse::from_response(response)),
        }
    }

    /// Accepts one structurally closed document of this protocol.
    pub fn validate(&self) -> (result: Result<(), NodePairingTransportError>)
        ensures
            result == (if envelope_valid(self@) {
                Ok::<(), NodePairingTransportError>(())
            } else {
                invalid("document envelope is invalid")
            }),
    {
        if !text_is(self.schema.name.as_str(), NODE_PAIRING_TRANSPORT_SCHEMA_NAME)
            || self.schema.version != NODE_PAIRING_TRANSPORT_SCHEMA_VERSION
            || self.request.is_some() == self.response.is_some() {
            return Err(
                NodePairingTransportError::InvalidDocument {
                    reason: "document envelope is invalid",
                },
            );
        }
        Ok(())
    }

    /// Reconstructs one request and rejects a response envelope.
    pub fn into_request(self) -> (request: Result<
        NodePairingTransportRequest,
        NodePairingTransportError,
    >)
        ensures
            outcome(request) == request_read(self@),
    {
        self.validate()?;
        match self.request {
            Some(request) => request.into_request(),
            None => Err(
                NodePairingTransportError::InvalidDocument { reason: "request is missing" },
            ),
        }
    }

    /// Reconstructs one response and rejects a request envelope.
    pub fn into_response(self) -> (response: Result<
        NodePairingTransportResponse,
        NodePairingTransportError,
    >)
        ensures
            outcome(response) == response_read(self@),
    {
        self.validate()?;
        match self.response {
            Some(response) => response.into_response(),
            None => Err(
                NodePairingTransportError::InvalidDocument { reason: "response is missing" },
            ),
        }
    }
}

/// Projects one request into its document, or refuses one that no document could hold.
pub fn request_to_document(request: &NodePairingTransportRequest) -> (document: Result<
    WireDocument,
    NodePairingTransportError,
>)
    ensures
        outcome(document) == (if request_bounded(request@) {
            Ok::<WireDocumentView, NodePairingTransportError>(request_document(request@))
        } else {
            invalid("document size is invalid")
        }),
{
    let bounded = match request {
        NodePairingTransportRequest::Enroll(enrollment) => is_fit(&enrollment.public_key)
            && is_fit(&enrollment.proof_signature),
        _ => true,
    };
    if !bounded {
        return Err(
            NodePairingTransportError::InvalidDocument { reason: "document size is invalid" },
        );
    }
    Ok(WireDocument::request(request))
}

/// Projects one response into its document, or refuses one that no document could hold.
pub fn response_to_document(response: &NodePairingTransportResponse) -> (document: Result<
    WireDocument,
    NodePairingTransportError,
>)
    ensures
        outcome(document) == (if response_bounded(response@) {
            Ok::<WireDocumentView, NodePairingTransportError>(response_document(response@))
        } else {
            invalid("document size is invalid")
        }),
{
    let bounded = match response {
        NodePairingTransportResponse::CandidateOffer(offer) => is_fit(&offer.public_key) && is_fit(
            &offer.signature,
        ),
        NodePairingTransportResponse::Enrollment(enrollment) => {
            let credentials = &enrollment.credentials;
            is_fit(&credentials.main_public_key) && is_fit(&credentials.main_ca_certificate)
                && is_fit(&credentials.child_certificate) && is_fit(
                &credentials.membership_signature,
            )
        },
        _ => true,
    };
    if !bounded {
        return Err(
            NodePairingTransportError::InvalidDocument { reason: "document size is invalid" },
        );
    }
    Ok(WireDocument::response(response))
}

/// Requires one serialized document to be nonempty and within the hard bound.
pub fn require_document_size(length: usize) -> (result: Result<(), NodePairingTransportError>)
    ensures
        result == (if 0 < length <= NODE_PAIRING_TRANSPORT_MAXIMUM_DOCUMENT_BYTES {
            Ok::<(), NodePairingTransportError>(())
        } else {
            invalid("document size is invalid")
        }),
{
    if length == 0 || length > NODE_PAIRING_TRANSPORT_MAXIMUM_DOCUMENT_BYTES {
        return Err(
            NodePairingTransportError::InvalidDocument { reason: "document size is invalid" },
        );
    }
    Ok(())
}

/// A request as the wire carries it.
pub open spec fn request_portable(request: NodePairingTransportRequestView) -> bool {
    request_coherent(request) && (request matches NodePairingTransportRequestView::Enroll(enrollment)
        ==> node_portable(enrollment.candidate))
}

/// Reading the document of one request gives the request back.
pub proof fn law_request_document_round_trip(request: NodePairingTransportRequestView)
    requires
        request_portable(request),
    ensures
        request_read(request_document(request)) == Ok::<
            NodePairingTransportRequestView,
            NodePairingTransportError,
        >(request),
{
    match request {
        NodePairingTransportRequestView::CandidateOffer { request_nonce } => {
            law_digest_text(request_nonce);
        },
        NodePairingTransportRequestView::Challenge { invite_id } => {
            law_identity_text(invite_id);
        },
        NodePairingTransportRequestView::Enroll(enrollment) => {
            law_enrollment_request_round_trip(enrollment);
        },
        NodePairingTransportRequestView::Status { invite_id } => {
            law_identity_text(invite_id);
        },
    }
}

/// A response as the wire carries it: portable nodes, named modes and addresses, and a membership
/// signature within the wire's bound.
pub open spec fn response_portable(response: NodePairingTransportResponseView) -> bool {
    &&& response_coherent(response)
    &&& match response {
        NodePairingTransportResponseView::CandidateOffer(offer) => node_portable(offer.candidate),
        NodePairingTransportResponseView::Challenge { challenge, main } => {
            &&& mode_named(challenge.mode)
            &&& challenge.main_address.len() > 0
            &&& node_portable(main)
        },
        NodePairingTransportResponseView::Enrollment(enrollment) => {
            &&& mode_named(enrollment.status.mode)
            &&& enrollment.credentials.membership_signature.len() <= MAXIMUM_SIGNATURE_BYTES
        },
        NodePairingTransportResponseView::Status(status) => mode_named(status.mode),
    }
}

/// Reading the document of one response gives the response back.
pub proof fn law_response_document_round_trip(response: NodePairingTransportResponseView)
    requires
        response_portable(response),
    ensures
        response_read(response_document(response)) == Ok::<
            NodePairingTransportResponseView,
            NodePairingTransportError,
        >(response),
{
    match response {
        NodePairingTransportResponseView::CandidateOffer(offer) => {
            law_offer_round_trip(offer);
        },
        NodePairingTransportResponseView::Challenge { challenge, main } => {
            law_challenge_round_trip(challenge);
            law_node_round_trip(main);
        },
        NodePairingTransportResponseView::Enrollment(enrollment) => {
            law_status_round_trip(enrollment.status);
            law_credentials_round_trip(enrollment.credentials);
        },
        NodePairingTransportResponseView::Status(status) => {
            law_status_round_trip(status);
        },
    }
}

/// A document of a request is never read as a response, nor the other way round.
pub proof fn law_documents_are_not_confused(
    request: NodePairingTransportRequestView,
    response: NodePairingTransportResponseView,
)
    ensures
        response_read(request_document(request)) == invalid::<NodePairingTransportResponseView>(
            "response is missing",
        ),
        request_read(response_document(response)) == invalid::<NodePairingTransportRequestView>(
            "request is missing",
        ),
{
}

// ---------------------------------------------------------------------------
// Endpoint
// ---------------------------------------------------------------------------

/// One call that the endpoint makes, with everything that it hands over.
pub enum NodePairingCall {
    CandidateOffer { request_nonce: Sha256Digest },
    Challenge { invite_id: PairingInviteId, observed_peer_address: Seq<char> },
    LocalNode,
    Enroll { enrollment: NodePairingEnrollRequestView },
    Open { invitation: NodePairingOpenRequestView },
    Approve { approval: NodePairingApproveRequestView },
    Status { invite_id: PairingInviteId },
}

/// Everything that the ports will answer at each position of the trace.
pub struct NodePairingScript {
    pub candidate_offer: spec_fn(nat) -> Result<
        NodePairingCandidateOfferView,
        NodePairingTransportError,
    >,
    pub challenge: spec_fn(nat) -> Result<NodePairingChallengeView, NodePairingApiError>,
    pub local_node: spec_fn(nat) -> Result<NodeView, NodePairingTransportError>,
    pub enroll: spec_fn(nat) -> Result<NodePairingEnrollmentView, NodePairingApiError>,
    pub open: spec_fn(nat) -> Result<NodePairingInvitationView, NodePairingApiError>,
    pub approve: spec_fn(nat) -> Result<NodePairingStatusView, NodePairingApiError>,
    pub status: spec_fn(nat) -> Result<NodePairingStatusView, NodePairingApiError>,
}

/// The ports together: what they will answer, and which calls were made so far, in order.
pub struct NodePairingWorld {
    pub script: NodePairingScript,
    pub calls: Seq<NodePairingCall>,
}

impl NodePairingWorld {
    /// The world after one more call.
    pub open spec fn after(self, call: NodePairingCall) -> NodePairingWorld {
        NodePairingWorld { script: self.script, calls: self.calls.push(call) }
    }
}

/// One owner of pairing ports whose calls are observed in one common order.
pub trait NodePairingPorts {
    /// The answers that are still to come and the calls that were made.
    spec fn world(&self) -> NodePairingWorld;
}

/// Isolates local identity signing from the public candidate-facing endpoint.
pub trait NodePairingCandidateOfferPort: NodePairingPorts {
    /// Returns one short-lived signed offer bound to the caller's exact nonce.
    fn candidate_offer(&mut self, request_nonce: &Sha256Digest) -> (reply: Result<
        NodePairingCandidateOffer,
        NodePairingTransportError,
    >)
        ensures
            final(self).world() == old(self).world().after(
                NodePairingCall::CandidateOffer { request_nonce: *request_nonce },
            ),
            outcome(reply) == (old(self).world().script.candidate_offer)(
                old(self).world().calls.len(),
            ),
    ;
}

/// Supplies the local Node snapshot without granting transport direct database access.
pub trait NodePairingLocalNodePort: NodePairingPorts {
    /// Returns the exact current local Node snapshot.
    fn local_node(&mut self) -> (reply: Result<Node, NodePairingTransportError>)
        ensures
            final(self).world() == old(self).world().after(NodePairingCall::LocalNode),
            outcome(reply) == (old(self).world().script.local_node)(old(self).world().calls.len()),
    ;
}

/// Isolates pairing and atomic application composition behind one Node-owned capability.
pub trait NodePairingApiPort: NodePairingPorts {
    /// Opens one durable pairing invitation and returns its one-time presentation material.
    fn open(&mut self, request: &NodePairingOpenRequest) -> (reply: Result<
        NodePairingInvitation,
        NodePairingApiError,
    >)
        ensures
            final(self).world() == old(self).world().after(
                NodePairingCall::Open { invitation: request@ },
            ),
            outcome(reply) == (old(self).world().script.open)(old(self).world().calls.len()),
    ;

    /// Returns one public challenge after transport has supplied its observed peer address.
    fn challenge(
        &mut self,
        invite_id: &PairingInviteId,
        observed_peer_address: &NodeAddress,
    ) -> (reply: Result<NodePairingChallenge, NodePairingApiError>)
        ensures
            final(self).world() == old(self).world().after(
                NodePairingCall::Challenge {
                    invite_id: *invite_id,
                    observed_peer_address: observed_peer_address@,
                },
            ),
            outcome(reply) == (old(self).world().script.challenge)(old(self).world().calls.len()),
    ;

    /// Verifies one candidate and atomically materializes its pending or active enrollment.
    fn enroll(&mut self, request: &NodePairingEnrollRequest) -> (reply: Result<
        NodePairingEnrollment,
        NodePairingApiError,
    >)
        ensures
            final(self).world() == old(self).world().after(
                NodePairingCall::Enroll { enrollment: request@ },
            ),
            outcome(reply) == (old(self).world().script.enroll)(old(self).world().calls.len()),
    ;

    /// Atomically approves one exact pending remote pairing.
    fn approve(&mut self, request: &NodePairingApproveRequest) -> (reply: Result<
        NodePairingStatus,
        NodePairingApiError,
    >)
        ensures
            final(self).world() == old(self).world().after(
                NodePairingCall::Approve { approval: request@ },
            ),
            outcome(reply) == (old(self).world().script.approve)(old(self).world().calls.len()),
    ;

    /// Returns one exact durable pairing status without alternate identity lookup.
    fn status(&mut self, invite_id: &PairingInviteId) -> (reply: Result<
        NodePairingStatus,
        NodePairingApiError,
    >)
        ensures
            final(self).world() == old(self).world().after(
                NodePairingCall::Status { invite_id: *invite_id },
            ),
            outcome(reply) == (old(self).world().script.status)(old(self).world().calls.len()),
    ;
}

/// The local node that a challenge speaks of.
pub open spec fn challenge_matches(challenge: NodePairingChallengeView, main: NodeView) -> bool {
    &&& main.identity.node_id == challenge.main_node_id
    &&& main.control_address == challenge.main_address
    &&& main.is_active_main()
}

/// One pairing failure in fixed candidate-facing language.
pub open spec fn pairing_rejected<T>() -> Result<T, NodePairingTransportError> {
    Err(NodePairingTransportError::RequestRejected)
}

/// What the endpoint answers to one request, and which calls it makes.
pub open spec fn request_handled(
    world: NodePairingWorld,
    request: NodePairingTransportRequestView,
    observed_peer_address: Seq<char>,
) -> (NodePairingWorld, Result<NodePairingTransportResponseView, NodePairingTransportError>) {
    let at = world.calls.len();
    match request {
        NodePairingTransportRequestView::CandidateOffer { request_nonce } => (
            world.after(NodePairingCall::CandidateOffer { request_nonce }),
            match (world.script.candidate_offer)(at) {
                Ok(offer) => Ok(NodePairingTransportResponseView::CandidateOffer(offer)),
                Err(error) => Err(error),
            },
        ),
        NodePairingTransportRequestView::Challenge { invite_id } => {
            let asked = world.after(NodePairingCall::Challenge { invite_id, observed_peer_address });
            match (world.script.challenge)(at) {
                Err(_) => (asked, pairing_rejected()),
                Ok(challenge) => (
                    asked.after(NodePairingCall::LocalNode),
                    match (world.script.local_node)(at + 1) {
                        Err(error) => Err(error),
                        Ok(main) => if challenge_matches(challenge, main) {
                            Ok(NodePairingTransportResponseView::Challenge { challenge, main })
                        } else {
                            pairing_rejected()
                        },
                    },
                ),
            }
        },
        NodePairingTransportRequestView::Enroll(enrollment) => match request_of_enrollment(
            enrollment,
            observed_peer_address,
        ) {
            Err(error) => (world, Err(error)),
            Ok(request) => (
                world.after(NodePairingCall::Enroll { enrollment: request }),
                match (world.script.enroll)(at) {
                    Ok(enrollment) => Ok(NodePairingTransportResponseView::Enrollment(enrollment)),
                    Err(_) => pairing_rejected(),
                },
            ),
        },
        NodePairingTransportRequestView::Status { invite_id } => (
            world.after(NodePairingCall::Status { invite_id }),
            match (world.script.status)(at) {
                Ok(status) => Ok(NodePairingTransportResponseView::Status(status)),
                Err(_) => pairing_rejected(),
            },
        ),
    }
}

/// Dispatches one decoded request through pairing-backed Node authority.
pub struct NodePairingDocumentEndpoint<P> {
    pub ports: P,
}

impl<P: NodePairingApiPort + NodePairingCandidateOfferPort + NodePairingLocalNodePort>
    NodePairingDocumentEndpoint<P> {
    /// Creates one endpoint from exact pairing, candidate-signing, and local-node capabilities.
    pub fn new(ports: P) -> (endpoint: Self)
        ensures
            endpoint.ports == ports,
    {
        NodePairingDocumentEndpoint { ports }
    }

    /// Handles one request after the TLS adapter supplies its observed network peer address.
    pub fn handle(
        &mut self,
        request: NodePairingTransportRequest,
        observed_peer_address: &NodeAddress,
    ) -> (response: Result<NodePairingTransportResponse, NodePairingTransportError>)
        ensures
            (final(self).ports.world(), outcome(response)) == request_handled(
                old(self).ports.world(),
                request@,
                observed_peer_address@,
            ),
    {
        match request {
            NodePairingTransportRequest::CandidateOffer { request_nonce } => {
                let offer = self.ports.candidate_offer(&request_nonce)?;
                Ok(NodePairingTransportResponse::CandidateOffer(offer))
            },
            NodePairingTransportRequest::Challenge { invite_id } => {
                let challenge = match self.ports.challenge(&invite_id, observed_peer_address) {
                    Ok(challenge) => challenge,
                    Err(_) => {
                        return Err(NodePairingTransportError::RequestRejected);
                    },
                };
                let main = self.ports.local_node()?;
                if main.identity.node_id != challenge.main_node_id || !main.control_address.same(
                    &challenge.main_address,
                ) || !main.is_active_main() {
                    return Err(NodePairingTransportError::RequestRejected);
                }
                Ok(NodePairingTransportResponse::Challenge { challenge, main })
            },
            NodePairingTransportRequest::Enroll(enrollment) => {
                let request = enrollment.into_request(observed_peer_address.copy())?;
                match self.ports.enroll(&request) {
                    Ok(enrollment) => Ok(NodePairingTransportResponse::Enrollment(enrollment)),
                    Err(_) => Err(NodePairingTransportError::RequestRejected),
                }
            },
            NodePairingTransportRequest::Status { invite_id } => {
                match self.ports.status(&invite_id) {
                    Ok(status) => Ok(NodePairingTransportResponse::Status(status)),
                    Err(_) => Err(NodePairingTransportError::RequestRejected),
                }
            },
        }
    }
}

/// A candidate never chooses the peer address that its enrollment is judged by: it is always the
/// observed one.
pub proof fn law_observed_peer_is_handed_over(
    world: NodePairingWorld,
    enrollment: NodePairingCandidateEnrollmentView,
    observed_peer_address: Seq<char>,
)
    requires
        candidate_enrollment_valid(enrollment),
    ensures
        request_handled(
            world,
            NodePairingTransportRequestView::Enroll(enrollment),
            observed_peer_address,
        ).0.calls.last() == (NodePairingCall::Enroll {
            enrollment: enrollment_request(enrollment, observed_peer_address),
        }),
        enrollment_request(enrollment, observed_peer_address).observed_peer_address
            == observed_peer_address,
{
    law_enrollment_becomes_request(enrollment, observed_peer_address);
}

} // verus!
