//! The administrative gateway, kept local and metadata-only: the fixture identities it
//! accepts, the protocol it advertises, and the rules that admit transfers, sessions,
//! recoveries and revocations before anything is stored.
use vstd::prelude::*;

use crate::database::{DatabaseError, LUMA_ID};
use crate::text::{
    all_chars_in_class, all_in_class, byte_len, contains_char, contains_pair, pair_at, text_equal,
    trim_text, trimmed, CharClass,
};

verus! {

pub const GATEWAY_PROTOCOL_VERSION: i64 = 1;
pub const GATEWAY_MIN_PROTOCOL_VERSION: i64 = 1;
pub const GATEWAY_FIXTURE_AGENT_ID: &'static str = LUMA_ID;
pub const GATEWAY_FIXTURE_ACCOUNT_ID: &'static str = "gateway-account-owner";
pub const GATEWAY_FIXTURE_LOCAL_ACCOUNT_ID: &'static str = "aip-owner-local";
pub const GATEWAY_FIXTURE_EXTERNAL_ACCOUNT_METADATA: &'static str =
    "fixture:external-account/bielos-owner";
pub const GATEWAY_FIXTURE_CLIENT_ID: &'static str = "mobile-admin-fixture-01";
pub const GATEWAY_FIXTURE_APP_VERSION: &'static str = "0.1.0-gateway-fixture";
pub const GATEWAY_FIXTURE_AUTH_PROOF_METADATA: &'static str = "fixture:auth/mobile-admin-01";
pub const GATEWAY_FIXTURE_TRANSFER_INTEGRITY_HASH: &'static str = "sha256:fixture/girlfriend-agent-v1";
pub const GATEWAY_FIXTURE_RECOVERY_TARGET: &'static str = "fixture:recovery/owner-access";
pub const GATEWAY_CLOUDFLARE_TUNNEL_ID_METADATA: &'static str = "fixture:tunnel/aip-gateway";
pub const GATEWAY_CLOUDFLARE_HOSTNAME_METADATA: &'static str = "example.invalid";
pub const GATEWAY_CLOUDFLARE_ACCESS_AUDIENCE_METADATA: &'static str = "fixture:access/aip-owner";
pub const MAX_GATEWAY_REFERENCE_BYTES: usize = 192;
pub const MAX_GATEWAY_TEXT_BYTES: usize = 512;
pub const MAX_GATEWAY_REQUEST_BYTES: usize = 16_384;
pub const GATEWAY_SESSION_TTL_MS: i64 = 1_800_000;
pub const MAX_GATEWAY_ACTIVE_RECOVERIES: i64 = 4;

#[derive(Debug, Clone, Copy, PartialEq, Eq, Structural)]
pub enum GatewayAccountStatus {
    MetadataOnly,
    Revoked,
}

impl GatewayAccountStatus {
    pub open spec fn spec_name(self) -> Seq<char> {
        match self {
            GatewayAccountStatus::MetadataOnly => "metadata_only"@,
            GatewayAccountStatus::Revoked => "revoked"@,
        }
    }

    /// The stored name.
    pub fn as_str(&self) -> (r: &'static str)
        ensures
            r@ == self.spec_name(),
    {
        match self {
            GatewayAccountStatus::MetadataOnly => "metadata_only",
            GatewayAccountStatus::Revoked => "revoked",
        }
    }
}

pub fn gateway_account_status_from_str(value: &str) -> (r: Result<GatewayAccountStatus, ()>)
    ensures
        match r {
            Ok(v) => v.spec_name() == value@,
            Err(()) => forall|v: GatewayAccountStatus| v.spec_name() != value@,
        },
{
    if text_equal(value, "metadata_only") {
        Ok(GatewayAccountStatus::MetadataOnly)
    } else if text_equal(value, "revoked") {
        Ok(GatewayAccountStatus::Revoked)
    } else {
        Err(())
    }
}

#[derive(Debug, Clone, Copy, PartialEq, Eq, Structural)]
pub enum GatewayTransferStatus {
    Previewed,
    Approved,
    Revoked,
}

impl GatewayTransferStatus {
    pub open spec fn spec_name(self) -> Seq<char> {
        match self {
            GatewayTransferStatus::Previewed => "previewed"@,
            GatewayTransferStatus::Approved => "approved"@,
            GatewayTransferStatus::Revoked => "revoked"@,
        }
    }

    /// The stored name.
    pub fn as_str(&self) -> (r: &'static str)
        ensures
            r@ == self.spec_name(),
    {
        match self {
            GatewayTransferStatus::Previewed => "previewed",
            GatewayTransferStatus::Approved => "approved",
            GatewayTransferStatus::Revoked => "revoked",
        }
    }
}

pub fn gateway_transfer_status_from_str(value: &str) -> (r: Result<GatewayTransferStatus, ()>)
    ensures
        match r {
            Ok(v) => v.spec_name() == value@,
            Err(()) => forall|v: GatewayTransferStatus| v.spec_name() != value@,
        },
{
    if text_equal(value, "previewed") {
        Ok(GatewayTransferStatus::Previewed)
    } else if text_equal(value, "approved") {
        Ok(GatewayTransferStatus::Approved)
    } else if text_equal(value, "revoked") {
        Ok(GatewayTransferStatus::Revoked)
    } else {
        Err(())
    }
}

#[derive(Debug, Clone, Copy, PartialEq, Eq, Structural)]
pub enum GatewaySessionStatus {
    Connected,
    Disconnected,
    Revoked,
    Expired,
}

impl GatewaySessionStatus {
    pub open spec fn spec_name(self) -> Seq<char> {
        match self {
            GatewaySessionStatus::Connected => "connected"@,
            GatewaySessionStatus::Disconnected => "disconnected"@,
            GatewaySessionStatus::Revoked => "revoked"@,
            GatewaySessionStatus::Expired => "expired"@,
        }
    }

    /// The stored name.
    pub fn as_str(&self) -> (r: &'static str)
        ensures
            r@ == self.spec_name(),
    {
        match self {
            GatewaySessionStatus::Connected => "connected",
            GatewaySessionStatus::Disconnected => "disconnected",
            GatewaySessionStatus::Revoked => "revoked",
            GatewaySessionStatus::Expired => "expired",
        }
    }
}

pub fn gateway_session_status_from_str(value: &str) -> (r: Result<GatewaySessionStatus, ()>)
    ensures
        match r {
            Ok(v) => v.spec_name() == value@,
            Err(()) => forall|v: GatewaySessionStatus| v.spec_name() != value@,
        },
{
    if text_equal(value, "connected") {
        Ok(GatewaySessionStatus::Connected)
    } else if text_equal(value, "disconnected") {
        Ok(GatewaySessionStatus::Disconnected)
    } else if text_equal(value, "revoked") {
        Ok(GatewaySessionStatus::Revoked)
    } else if text_equal(value, "expired") {
        Ok(GatewaySessionStatus::Expired)
    } else {
        Err(())
    }
}

#[derive(Debug, Clone, Copy, PartialEq, Eq, Structural)]
pub enum GatewayRecoveryStatus {
    PendingApproval,
    Approved,
    Revoked,
}

impl GatewayRecoveryStatus {
    pub open spec fn spec_name(self) -> Seq<char> {
        match self {
            GatewayRecoveryStatus::PendingApproval => "pending_approval"@,
            GatewayRecoveryStatus::Approved => "approved"@,
            GatewayRecoveryStatus::Revoked => "revoked"@,
        }
    }

    /// The stored name.
    pub fn as_str(&self) -> (r: &'static str)
        ensures
            r@ == self.spec_name(),
    {
        match self {
            GatewayRecoveryStatus::PendingApproval => "pending_approval",
            GatewayRecoveryStatus::Approved => "approved",
            GatewayRecoveryStatus::Revoked => "revoked",
        }
    }
}

pub fn gateway_recovery_status_from_str(value: &str) -> (r: Result<GatewayRecoveryStatus, ()>)
    ensures
        match r {
            Ok(v) => v.spec_name() == value@,
            Err(()) => forall|v: GatewayRecoveryStatus| v.spec_name() != value@,
        },
{
    if text_equal(value, "pending_approval") {
        Ok(GatewayRecoveryStatus::PendingApproval)
    } else if text_equal(value, "approved") {
        Ok(GatewayRecoveryStatus::Approved)
    } else if text_equal(value, "revoked") {
        Ok(GatewayRecoveryStatus::Revoked)
    } else {
        Err(())
    }
}

#[derive(Debug, Clone, Copy, PartialEq, Eq, Structural)]
pub enum GatewayMessageKind {
    Session,
    Recovery,
}

impl GatewayMessageKind {
    pub open spec fn spec_name(self) -> Seq<char> {
        match self {
            GatewayMessageKind::Session => "session"@,
            GatewayMessageKind::Recovery => "recovery"@,
        }
    }

    /// The stored name.
    pub fn as_str(&self) -> (r: &'static str)
        ensures
            r@ == self.spec_name(),
    {
        match self {
            GatewayMessageKind::Session => "session",
            GatewayMessageKind::Recovery => "recovery",
        }
    }
}

#[derive(Debug, Clone, PartialEq, Eq)]
pub struct GatewayCloudflareMetadata {
    pub provider: String,
    pub mode: String,
    pub tunnel_id_metadata: String,
    pub hostname_metadata: String,
    pub access_audience_metadata: String,
    pub credential_state: String,
    pub network_listener: bool,
}

#[derive(Debug, Clone, PartialEq, Eq)]
pub struct GatewayProtocolInfo {
    pub schema_version: i64,
    pub protocol_version: i64,
    pub min_protocol_version: i64,
    pub transport: String,
    pub network_listener: bool,
    pub cloudflare: GatewayCloudflareMetadata,
    pub standalone_fallback: bool,
}

#[derive(Debug, Clone, PartialEq, Eq)]
pub struct GatewayProtocolMessage {
    pub schema_version: i64,
    pub protocol_version: i64,
    pub message_id: String,
    pub client_id: String,
    pub kind: GatewayMessageKind,
    pub session_id: String,
    pub nonce_metadata: String,
    pub replay_counter: i64,
    pub payload_kind: String,
}

#[derive(Debug, Clone, PartialEq, Eq)]
pub struct GatewayAccount {
    pub id: String,
    pub owner_user_id: String,
    pub local_account_id: String,
    pub external_account_id_metadata: String,
    pub ownership_scope: String,
    pub status: GatewayAccountStatus,
    pub metadata_only: bool,
    pub external_effect_performed: bool,
    pub standalone_fallback: bool,
    pub created_at: i64,
    pub updated_at: i64,
}

#[derive(Debug, Clone, PartialEq, Eq)]
pub struct GatewayTransfer {
    pub id: String,
    pub account_id: String,
    pub source_agent_id: String,
    pub owner_user_id: String,
    pub destination_account_metadata: String,
    pub integrity_hash: String,
    pub status: GatewayTransferStatus,
    pub authorization_status: String,
    pub approval_required: bool,
    pub metadata_only: bool,
    pub external_effect_performed: bool,
    pub standalone_fallback: bool,
    pub created_at: i64,
    pub approved_at: Option<i64>,
    pub updated_at: i64,
}

#[derive(Debug, Clone, PartialEq, Eq)]
pub struct GatewaySessionProof {
    pub session_id: String,
    pub transfer_id: String,
    pub client_id: String,
    pub session_nonce_metadata: String,
    pub auth_proof_metadata: String,
    pub app_version: String,
    pub protocol_version: i64,
    pub message_nonce_metadata: String,
    pub replay_counter: i64,
}

#[derive(Debug, Clone, PartialEq, Eq)]
pub struct GatewaySession {
    pub id: String,
    pub account_id: String,
    pub transfer_id: String,
    pub source_agent_id: String,
    pub owner_user_id: String,
    pub client_id: String,
    pub status: GatewaySessionStatus,
    pub protocol_version: i64,
    pub app_version: String,
    pub negotiated_protocol_version: i64,
    pub session_nonce_metadata: String,
    pub auth_proof_metadata: String,
    pub last_replay_counter: i64,
    pub scope: String,
    pub authenticated: bool,
    pub local_loopback_only: bool,
    pub standalone_fallback: bool,
    pub connected_at: i64,
    pub last_seen_at: i64,
    pub disconnected_at: Option<i64>,
    pub protocol: GatewayProtocolInfo,
    pub handshake: GatewayProtocolMessage,
    pub updated_at: i64,
}

#[derive(Debug, Clone, PartialEq, Eq)]
pub struct GatewayRecovery {
    pub id: String,
    pub account_id: String,
    pub transfer_id: String,
    pub session_id: String,
    pub source_agent_id: String,
    pub owner_user_id: String,
    pub client_id: String,
    pub kind: String,
    pub status: GatewayRecoveryStatus,
    pub target_metadata: String,
    pub approval_required: bool,
    pub metadata_only: bool,
    pub external_effect_performed: bool,
    pub created_at: i64,
    pub approved_at: Option<i64>,
    pub updated_at: i64,
}

#[derive(Debug, Clone, PartialEq, Eq)]
pub struct GatewayAuditRecord {
    pub id: String,
    pub account_id: Option<String>,
    pub transfer_id: Option<String>,
    pub session_id: Option<String>,
    pub recovery_id: Option<String>,
    pub source_agent_id: String,
    pub owner_user_id: String,
    pub event: String,
    pub result: String,
    pub code: Option<String>,
    pub summary: String,
    pub created_at: i64,
}

#[derive(Debug, Clone, PartialEq, Eq)]
pub struct GatewayRevocation {
    pub id: String,
    pub account_id: String,
    pub transfer_id: Option<String>,
    pub session_id: Option<String>,
    pub owner_user_id: String,
    pub target_kind: String,
    pub target_id: String,
    pub previous_status: String,
    pub reason: String,
    pub created_at: i64,
}

#[derive(Debug, Clone, PartialEq, Eq)]
pub struct GatewayTransferRequest {
    pub agent_id: String,
    pub owner_user_id: String,
    pub destination_account_metadata: String,
    pub integrity_hash: String,
    pub idempotency_key: String,
    pub temporary_chat: bool,
}

#[derive(Debug, Clone, PartialEq, Eq)]
pub struct GatewayTransferApprovalRequest {
    pub agent_id: String,
    pub owner_user_id: String,
    pub transfer_id: String,
    pub approved: bool,
    pub idempotency_key: String,
    pub temporary_chat: bool,
}

#[derive(Debug, Clone, PartialEq, Eq)]
pub struct GatewaySessionRequest {
    pub agent_id: String,
    pub owner_user_id: String,
    pub transfer_id: String,
    pub client_id: String,
    pub app_version: String,
    pub protocol_version: i64,
    pub auth_proof_metadata: String,
    pub message_nonce_metadata: String,
    pub replay_counter: i64,
    pub idempotency_key: String,
    pub temporary_chat: bool,
}

#[derive(Debug, Clone, PartialEq, Eq)]
pub struct GatewayReconnectRequest {
    pub agent_id: String,
    pub owner_user_id: String,
    pub proof: GatewaySessionProof,
    pub idempotency_key: String,
    pub temporary_chat: bool,
}

#[derive(Debug, Clone, PartialEq, Eq)]
pub struct GatewayRecoveryRequest {
    pub agent_id: String,
    pub owner_user_id: String,
    pub proof: GatewaySessionProof,
    pub recovery_kind: String,
    pub target_metadata: String,
    pub idempotency_key: String,
    pub temporary_chat: bool,
}

#[derive(Debug, Clone, PartialEq, Eq)]
pub struct GatewayRecoveryApprovalRequest {
    pub agent_id: String,
    pub owner_user_id: String,
    pub proof: GatewaySessionProof,
    pub recovery_id: String,
    pub approved: bool,
    pub idempotency_key: String,
    pub temporary_chat: bool,
}

#[derive(Debug, Clone, PartialEq, Eq)]
pub struct GatewaySessionActionRequest {
    pub agent_id: String,
    pub owner_user_id: String,
    pub session_id: String,
    pub reason: String,
    pub idempotency_key: String,
    pub temporary_chat: bool,
}

#[derive(Debug, Clone, PartialEq, Eq)]
pub struct GatewayTransferActionRequest {
    pub agent_id: String,
    pub owner_user_id: String,
    pub transfer_id: String,
    pub reason: String,
    pub idempotency_key: String,
    pub temporary_chat: bool,
}

/// What the gateway advertises: a local loopback fixture, no network listener, the
/// Cloudflare tunnel described by metadata only and without credentials, and a standalone
/// fallback.
pub fn gateway_protocol_info() -> (r: GatewayProtocolInfo)
    ensures
        r.schema_version == 1,
        r.protocol_version == GATEWAY_PROTOCOL_VERSION,
        r.min_protocol_version == GATEWAY_MIN_PROTOCOL_VERSION,
        r.transport@ == "local_loopback_fixture"@,
        !r.network_listener,
        r.cloudflare.provider@ == "cloudflare_tunnel_access"@,
        r.cloudflare.mode@ == "metadata_only"@,
        r.cloudflare.tunnel_id_metadata@ == GATEWAY_CLOUDFLARE_TUNNEL_ID_METADATA@,
        r.cloudflare.hostname_metadata@ == GATEWAY_CLOUDFLARE_HOSTNAME_METADATA@,
        r.cloudflare.access_audience_metadata@ == GATEWAY_CLOUDFLARE_ACCESS_AUDIENCE_METADATA@,
        r.cloudflare.credential_state@ == "absent"@,
        !r.cloudflare.network_listener,
        r.standalone_fallback,
{
    GatewayProtocolInfo {
        schema_version: 1,
        protocol_version: GATEWAY_PROTOCOL_VERSION,
        min_protocol_version: GATEWAY_MIN_PROTOCOL_VERSION,
        transport: "local_loopback_fixture".to_string(),
        network_listener: false,
        cloudflare: GatewayCloudflareMetadata {
            provider: "cloudflare_tunnel_access".to_string(),
            mode: "metadata_only".to_string(),
            tunnel_id_metadata: GATEWAY_CLOUDFLARE_TUNNEL_ID_METADATA.to_string(),
            hostname_metadata: GATEWAY_CLOUDFLARE_HOSTNAME_METADATA.to_string(),
            access_audience_metadata: GATEWAY_CLOUDFLARE_ACCESS_AUDIENCE_METADATA.to_string(),
            credential_state: "absent".to_string(),
            network_listener: false,
        },
        standalone_fallback: true,
    }
}

/// The gateway is refused in a temporary chat.
pub fn ensure_gateway_not_temporary(temporary_chat: bool) -> (r: Result<(), DatabaseError>)
    ensures
        r is Ok <==> !temporary_chat,
        r is Err ==> (r matches Err(DatabaseError::Cognitive(c)) && c@
            == "gateway_blocked_temporary"@),
{
    if temporary_chat {
        Err(DatabaseError::Cognitive("gateway_blocked_temporary"))
    } else {
        Ok(())
    }
}

/// A gateway text: trimmed, 1 to `maximum` bytes, without control characters other than
/// line breaks and tabs.
pub open spec fn gateway_text_valid(v: Seq<char>, maximum: usize) -> bool {
    let t = trimmed(v);
    t.len() > 0 && byte_len(t) <= maximum && all_in_class(t, CharClass::TextBody)
}

/// The trimmed text, if it is valid (see `gateway_text_valid`).
pub fn validate_gateway_text(value: &str, maximum: usize) -> (r: Result<String, DatabaseError>)
    ensures
        r is Ok <==> gateway_text_valid(value@, maximum),
        r matches Ok(t) ==> t@ == trimmed(value@),
        r is Err ==> (r matches Err(DatabaseError::Cognitive(c)) && c@ == "gateway_text_invalid"@),
{
    let t = trim_text(value);
    if t.unicode_len() == 0 || t.len() > maximum || !all_chars_in_class(t, CharClass::TextBody) {
        Err(DatabaseError::Cognitive("gateway_text_invalid"))
    } else {
        Ok(t.to_string())
    }
}

/// A gateway reference: trimmed, 1 to `maximum` bytes of ASCII letters, digits and `:._/-`,
/// without `..`.
pub open spec fn gateway_reference_valid(v: Seq<char>, maximum: usize) -> bool {
    let t = trimmed(v);
    &&& t.len() > 0
    &&& byte_len(t) <= maximum
    &&& !(exists|k: int| #[trigger] pair_at(t, k, '.', '.'))
    &&& !t.contains('\\')
    &&& all_in_class(t, CharClass::FixtureRef)
}

/// The trimmed reference, if it is valid (see `gateway_reference_valid`); else the error
/// `code` given.
pub fn validate_gateway_reference(value: &str, maximum: usize, code: &'static str) -> (r: Result<
    String,
    DatabaseError,
>)
    ensures
        r is Ok <==> gateway_reference_valid(value@, maximum),
        r matches Ok(t) ==> t@ == trimmed(value@),
        r is Err ==> r == Err::<String, DatabaseError>(DatabaseError::Cognitive(code)),
{
    let t = trim_text(value);
    if t.unicode_len() == 0 || t.len() > maximum || contains_pair(t, '.', '.') || contains_char(
        t,
        '\\',
    ) || !all_chars_in_class(t, CharClass::FixtureRef) {
        Err(DatabaseError::Cognitive(code))
    } else {
        Ok(t.to_string())
    }
}

/// A gateway idempotency key: trimmed, 1 to 128 bytes of ASCII letters, digits and `:._-`.
pub open spec fn gateway_idempotency_valid(v: Seq<char>) -> bool {
    let t = trimmed(v);
    t.len() > 0 && byte_len(t) <= 128 && all_in_class(t, CharClass::DottedKey)
}

pub fn valid_gateway_idempotency(value: &str) -> (r: Result<String, DatabaseError>)
    ensures
        r is Ok <==> gateway_idempotency_valid(value@),
        r matches Ok(t) ==> t@ == trimmed(value@),
        r is Err ==> (r matches Err(DatabaseError::Cognitive(c)) && c@
            == "gateway_idempotency_invalid"@),
{
    let t = trim_text(value);
    if t.unicode_len() == 0 || t.len() > 128 || !all_chars_in_class(t, CharClass::DottedKey) {
        Err(DatabaseError::Cognitive("gateway_idempotency_invalid"))
    } else {
        Ok(t.to_string())
    }
}

/// A client is compatible when it speaks a supported protocol version and is the fixture app
/// version.
pub open spec fn gateway_compatible(protocol_version: i64, app_version: Seq<char>) -> bool {
    GATEWAY_MIN_PROTOCOL_VERSION <= protocol_version <= GATEWAY_PROTOCOL_VERSION && app_version
        == GATEWAY_FIXTURE_APP_VERSION@
}

pub fn ensure_gateway_compatible(protocol_version: i64, app_version: &str) -> (r: Result<
    (),
    DatabaseError,
>)
    ensures
        r is Ok <==> gateway_compatible(protocol_version, app_version@),
        r is Err ==> (r matches Err(DatabaseError::Cognitive(c)) && c@
            == "gateway_protocol_incompatible"@),
{
    if protocol_version < GATEWAY_MIN_PROTOCOL_VERSION || protocol_version
        > GATEWAY_PROTOCOL_VERSION || !text_equal(app_version, GATEWAY_FIXTURE_APP_VERSION) {
        Err(DatabaseError::Cognitive("gateway_protocol_incompatible"))
    } else {
        Ok(())
    }
}

/// Why a transfer request is refused, if it is: only the fixture agent, destination and
/// integrity hash are accepted, and they must be valid references.
pub open spec fn transfer_request_error(r: GatewayTransferRequest) -> Option<Seq<char>> {
    if r.agent_id@ != GATEWAY_FIXTURE_AGENT_ID@ || r.destination_account_metadata@
        != GATEWAY_FIXTURE_EXTERNAL_ACCOUNT_METADATA@ || r.integrity_hash@
        != GATEWAY_FIXTURE_TRANSFER_INTEGRITY_HASH@ {
        Some("gateway_transfer_fixture_invalid"@)
    } else if !gateway_reference_valid(r.destination_account_metadata@, MAX_GATEWAY_REFERENCE_BYTES) {
        Some("gateway_account_invalid"@)
    } else if !gateway_reference_valid(r.integrity_hash@, 256) {
        Some("gateway_integrity_invalid"@)
    } else {
        None
    }
}

pub fn validate_gateway_transfer_request(request: &GatewayTransferRequest) -> (r: Result<
    (),
    DatabaseError,
>)
    ensures
        match transfer_request_error(*request) {
            None => r is Ok,
            Some(e) => r matches Err(DatabaseError::Cognitive(c)) && c@ == e,
        },
{
    if !text_equal(request.agent_id.as_str(), GATEWAY_FIXTURE_AGENT_ID) || !text_equal(
        request.destination_account_metadata.as_str(),
        GATEWAY_FIXTURE_EXTERNAL_ACCOUNT_METADATA,
    ) || !text_equal(request.integrity_hash.as_str(), GATEWAY_FIXTURE_TRANSFER_INTEGRITY_HASH) {
        return Err(DatabaseError::Cognitive("gateway_transfer_fixture_invalid"));
    }
    match validate_gateway_reference(
        request.destination_account_metadata.as_str(),
        MAX_GATEWAY_REFERENCE_BYTES,
        "gateway_account_invalid",
    ) {
        Ok(_) => {},
        Err(e) => return Err(e),
    }
    match validate_gateway_reference(
        request.integrity_hash.as_str(),
        256,
        "gateway_integrity_invalid",
    ) {
        Ok(_) => Ok(()),
        Err(e) => Err(e),
    }
}

/// Why a session request is refused, if it is: its references must be valid, it must come
/// from the fixture client with the fixture proof and a positive replay counter, and be
/// compatible.
pub open spec fn session_request_error(r: GatewaySessionRequest) -> Option<Seq<char>> {
    if !gateway_reference_valid(r.transfer_id@, 128) {
        Some("gateway_transfer_invalid"@)
    } else if !gateway_reference_valid(r.client_id@, 96) {
        Some("gateway_client_invalid"@)
    } else if !gateway_reference_valid(r.auth_proof_metadata@, MAX_GATEWAY_REFERENCE_BYTES) {
        Some("gateway_authentication_invalid"@)
    } else if !gateway_reference_valid(r.message_nonce_metadata@, MAX_GATEWAY_REFERENCE_BYTES) {
        Some("gateway_nonce_invalid"@)
    } else if r.client_id@ != GATEWAY_FIXTURE_CLIENT_ID@ || r.auth_proof_metadata@
        != GATEWAY_FIXTURE_AUTH_PROOF_METADATA@ || r.replay_counter < 1 {
        Some("gateway_authentication_invalid"@)
    } else if !gateway_compatible(r.protocol_version, r.app_version@) {
        Some("gateway_protocol_incompatible"@)
    } else {
        None
    }
}

pub fn validate_gateway_session_request(request: &GatewaySessionRequest) -> (r: Result<
    (),
    DatabaseError,
>)
    ensures
        match session_request_error(*request) {
            None => r is Ok,
            Some(e) => r matches Err(DatabaseError::Cognitive(c)) && c@ == e,
        },
{
    match validate_gateway_reference(request.transfer_id.as_str(), 128, "gateway_transfer_invalid") {
        Ok(_) => {},
        Err(e) => return Err(e),
    }
    match validate_gateway_reference(request.client_id.as_str(), 96, "gateway_client_invalid") {
        Ok(_) => {},
        Err(e) => return Err(e),
    }
    match validate_gateway_reference(
        request.auth_proof_metadata.as_str(),
        MAX_GATEWAY_REFERENCE_BYTES,
        "gateway_authentication_invalid",
    ) {
        Ok(_) => {},
        Err(e) => return Err(e),
    }
    match validate_gateway_reference(
        request.message_nonce_metadata.as_str(),
        MAX_GATEWAY_REFERENCE_BYTES,
        "gateway_nonce_invalid",
    ) {
        Ok(_) => {},
        Err(e) => return Err(e),
    }
    if !text_equal(request.client_id.as_str(), GATEWAY_FIXTURE_CLIENT_ID) || !text_equal(
        request.auth_proof_metadata.as_str(),
        GATEWAY_FIXTURE_AUTH_PROOF_METADATA,
    ) || request.replay_counter < 1 {
        return Err(DatabaseError::Cognitive("gateway_authentication_invalid"));
    }
    ensure_gateway_compatible(request.protocol_version, request.app_version.as_str())
}

/// Why a session proof is refused, if it is: its references must be valid, it must carry the
/// fixture client and proof and a positive replay counter, and be compatible.
pub open spec fn session_proof_error(p: GatewaySessionProof) -> Option<Seq<char>> {
    if !gateway_reference_valid(p.session_id@, 128) {
        Some("gateway_session_invalid"@)
    } else if !gateway_reference_valid(p.transfer_id@, 128) {
        Some("gateway_transfer_invalid"@)
    } else if !gateway_reference_valid(p.client_id@, 96) {
        Some("gateway_client_invalid"@)
    } else if !gateway_reference_valid(p.session_nonce_metadata@, MAX_GATEWAY_REFERENCE_BYTES) {
        Some("gateway_nonce_invalid"@)
    } else if !gateway_reference_valid(p.auth_proof_metadata@, MAX_GATEWAY_REFERENCE_BYTES) {
        Some("gateway_authentication_invalid"@)
    } else if !gateway_reference_valid(p.message_nonce_metadata@, MAX_GATEWAY_REFERENCE_BYTES) {
        Some("gateway_nonce_invalid"@)
    } else if p.client_id@ != GATEWAY_FIXTURE_CLIENT_ID@ || p.auth_proof_metadata@
        != GATEWAY_FIXTURE_AUTH_PROOF_METADATA@ || p.replay_counter < 1 {
        Some("gateway_authentication_invalid"@)
    } else if !gateway_compatible(p.protocol_version, p.app_version@) {
        Some("gateway_protocol_incompatible"@)
    } else {
        None
    }
}

pub fn validate_gateway_session_proof(proof: &GatewaySessionProof) -> (r: Result<(), DatabaseError>)
    ensures
        match session_proof_error(*proof) {
            None => r is Ok,
            Some(e) => r matches Err(DatabaseError::Cognitive(c)) && c@ == e,
        },
{
    match validate_gateway_reference(proof.session_id.as_str(), 128, "gateway_session_invalid") {
        Ok(_) => {},
        Err(e) => return Err(e),
    }
    match validate_gateway_reference(proof.transfer_id.as_str(), 128, "gateway_transfer_invalid") {
        Ok(_) => {},
        Err(e) => return Err(e),
    }
    match validate_gateway_reference(proof.client_id.as_str(), 96, "gateway_client_invalid") {
        Ok(_) => {},
        Err(e) => return Err(e),
    }
    match validate_gateway_reference(
        proof.session_nonce_metadata.as_str(),
        MAX_GATEWAY_REFERENCE_BYTES,
        "gateway_nonce_invalid",
    ) {
        Ok(_) => {},
        Err(e) => return Err(e),
    }
    match validate_gateway_reference(
        proof.auth_proof_metadata.as_str(),
        MAX_GATEWAY_REFERENCE_BYTES,
        "gateway_authentication_invalid",
    ) {
        Ok(_) => {},
        Err(e) => return Err(e),
    }
    match validate_gateway_reference(
        proof.message_nonce_metadata.as_str(),
        MAX_GATEWAY_REFERENCE_BYTES,
        "gateway_nonce_invalid",
    ) {
        Ok(_) => {},
        Err(e) => return Err(e),
    }
    if !text_equal(proof.client_id.as_str(), GATEWAY_FIXTURE_CLIENT_ID) || !text_equal(
        proof.auth_proof_metadata.as_str(),
        GATEWAY_FIXTURE_AUTH_PROOF_METADATA,
    ) || proof.replay_counter < 1 {
        return Err(DatabaseError::Cognitive("gateway_authentication_invalid"));
    }
    ensure_gateway_compatible(proof.protocol_version, proof.app_version.as_str())
}

/// Why a recovery request is refused, if it is: its proof first, then a valid kind and target,
/// which must be the fixture's administrative recovery.
pub open spec fn recovery_request_error(r: GatewayRecoveryRequest) -> Option<Seq<char>> {
    if session_proof_error(r.proof) is Some {
        session_proof_error(r.proof)
    } else if !gateway_reference_valid(r.recovery_kind@, 64) {
        Some("gateway_recovery_invalid"@)
    } else if !gateway_reference_valid(r.target_metadata@, MAX_GATEWAY_REFERENCE_BYTES) {
        Some("gateway_recovery_invalid"@)
    } else if r.recovery_kind@ != "mobile_administrative"@ || r.target_metadata@
        != GATEWAY_FIXTURE_RECOVERY_TARGET@ {
        Some("gateway_recovery_fixture_invalid"@)
    } else {
        None
    }
}

pub fn validate_gateway_recovery_request(request: &GatewayRecoveryRequest) -> (r: Result<
    (),
    DatabaseError,
>)
    ensures
        match recovery_request_error(*request) {
            None => r is Ok,
            Some(e) => r matches Err(DatabaseError::Cognitive(c)) && c@ == e,
        },
{
    match validate_gateway_session_proof(&request.proof) {
        Ok(()) => {},
        Err(e) => return Err(e),
    }
    match validate_gateway_reference(request.recovery_kind.as_str(), 64, "gateway_recovery_invalid") {
        Ok(_) => {},
        Err(e) => return Err(e),
    }
    match validate_gateway_reference(
        request.target_metadata.as_str(),
        MAX_GATEWAY_REFERENCE_BYTES,
        "gateway_recovery_invalid",
    ) {
        Ok(_) => {},
        Err(e) => return Err(e),
    }
    if !text_equal(request.recovery_kind.as_str(), "mobile_administrative") || !text_equal(
        request.target_metadata.as_str(),
        GATEWAY_FIXTURE_RECOVERY_TARGET,
    ) {
        return Err(DatabaseError::Cognitive("gateway_recovery_fixture_invalid"));
    }
    Ok(())
}

/// A transfer belongs to the agent and Owner that act on it.
pub fn validate_gateway_transfer_owner(
    transfer: &GatewayTransfer,
    agent_id: &str,
    owner_user_id: &str,
) -> (r: Result<(), DatabaseError>)
    ensures
        r is Ok <==> (transfer.source_agent_id@ == agent_id@ && transfer.owner_user_id@
            == owner_user_id@),
        r is Err ==> r == Err::<(), DatabaseError>(DatabaseError::OwnershipMismatch),
{
    if !text_equal(transfer.source_agent_id.as_str(), agent_id) || !text_equal(
        transfer.owner_user_id.as_str(),
        owner_user_id,
    ) {
        Err(DatabaseError::OwnershipMismatch)
    } else {
        Ok(())
    }
}

/// Only the fixture agent may use the gateway.
pub fn ensure_gateway_fixture_agent(agent_id: &str) -> (r: Result<(), DatabaseError>)
    ensures
        r is Ok <==> agent_id@ == GATEWAY_FIXTURE_AGENT_ID@,
        r is Err ==> (r matches Err(DatabaseError::Cognitive(c)) && c@
            == "gateway_fixture_agent_invalid"@),
{
    if text_equal(agent_id, GATEWAY_FIXTURE_AGENT_ID) {
        Ok(())
    } else {
        Err(DatabaseError::Cognitive("gateway_fixture_agent_invalid"))
    }
}

/// A suspended agent, or one in safe mode, cannot act through the gateway.
pub fn check_gateway_agent_mode(mode: &str, suspended: bool) -> (r: Result<(), DatabaseError>)
    ensures
        r is Ok <==> !suspended && mode@ != "safe"@,
        suspended ==> (r matches Err(DatabaseError::Cognitive(c)) && c@
            == "gateway_blocked_suspended"@),
        !suspended && mode@ == "safe"@ ==> (r matches Err(DatabaseError::Cognitive(c)) && c@
            == "gateway_blocked_safe_mode"@),
{
    if suspended {
        return Err(DatabaseError::Cognitive("gateway_blocked_suspended"));
    }
    if text_equal(mode, "safe") {
        return Err(DatabaseError::Cognitive("gateway_blocked_safe_mode"));
    }
    Ok(())
}

/// Approvals through the gateway must be explicit.
pub fn check_gateway_approval(approved: bool) -> (r: Result<(), DatabaseError>)
    ensures
        r is Ok <==> approved,
        r is Err ==> (r matches Err(DatabaseError::Cognitive(c)) && c@
            == "gateway_approval_required"@),
{
    if approved {
        Ok(())
    } else {
        Err(DatabaseError::Cognitive("gateway_approval_required"))
    }
}

/// A transfer is prepared only for an account that is not revoked and has no transfer in
/// flight.
pub fn check_transfer_preparable(account_status: GatewayAccountStatus, has_active_transfer: bool) -> (r:
    Result<(), DatabaseError>)
    ensures
        account_status != GatewayAccountStatus::MetadataOnly ==> (r matches Err(
            DatabaseError::Cognitive(c),
        ) && c@ == "gateway_account_revoked"@),
        account_status == GatewayAccountStatus::MetadataOnly && has_active_transfer ==> (r matches Err(
            DatabaseError::Cognitive(c),
        ) && c@ == "gateway_transfer_already_active"@),
        account_status == GatewayAccountStatus::MetadataOnly && !has_active_transfer ==> r is Ok,
{
    if account_status != GatewayAccountStatus::MetadataOnly {
        return Err(DatabaseError::Cognitive("gateway_account_revoked"));
    }
    if has_active_transfer {
        return Err(DatabaseError::Cognitive("gateway_transfer_already_active"));
    }
    Ok(())
}

/// Why approving a transfer is refused, if it is: it must belong to the actor, not be
/// revoked, and be a previewed transfer of the fixture's integrity hash.
pub open spec fn transfer_approval_error(t: GatewayTransfer, agent_id: Seq<char>, owner: Seq<char>) -> Option<
    DatabaseError,
> {
    if t.source_agent_id@ != agent_id || t.owner_user_id@ != owner {
        Some(DatabaseError::OwnershipMismatch)
    } else if t.status == GatewayTransferStatus::Revoked {
        Some(DatabaseError::Cognitive("gateway_transfer_revoked"))
    } else if t.status != GatewayTransferStatus::Previewed || t.integrity_hash@
        != GATEWAY_FIXTURE_TRANSFER_INTEGRITY_HASH@ {
        Some(DatabaseError::Cognitive("gateway_transfer_integrity_failed"))
    } else {
        None
    }
}

/// The errors of this library compared by their codes.
pub open spec fn same_error(a: DatabaseError, b: DatabaseError) -> bool {
    match (a, b) {
        (DatabaseError::Cognitive(x), DatabaseError::Cognitive(y)) => x@ == y@,
        (DatabaseError::Cognitive(_), _) => false,
        (_, DatabaseError::Cognitive(_)) => false,
        _ => a == b,
    }
}

pub fn check_transfer_approvable(transfer: &GatewayTransfer, agent_id: &str, owner_user_id: &str) -> (r:
    Result<(), DatabaseError>)
    ensures
        match transfer_approval_error(*transfer, agent_id@, owner_user_id@) {
            None => r is Ok,
            Some(e) => r matches Err(f) && same_error(f, e),
        },
{
    match validate_gateway_transfer_owner(transfer, agent_id, owner_user_id) {
        Ok(()) => {},
        Err(e) => return Err(e),
    }
    if transfer.status == GatewayTransferStatus::Revoked {
        return Err(DatabaseError::Cognitive("gateway_transfer_revoked"));
    }
    if transfer.status != GatewayTransferStatus::Previewed || !text_equal(
        transfer.integrity_hash.as_str(),
        GATEWAY_FIXTURE_TRANSFER_INTEGRITY_HASH,
    ) {
        return Err(DatabaseError::Cognitive("gateway_transfer_integrity_failed"));
    }
    Ok(())
}

/// A session opens only on an approved transfer that belongs to the actor.
pub fn check_transfer_connectable(transfer: &GatewayTransfer, agent_id: &str, owner_user_id: &str) -> (r:
    Result<(), DatabaseError>)
    ensures
        !(transfer.source_agent_id@ == agent_id@ && transfer.owner_user_id@ == owner_user_id@)
            ==> r == Err::<(), DatabaseError>(DatabaseError::OwnershipMismatch),
        transfer.source_agent_id@ == agent_id@ && transfer.owner_user_id@ == owner_user_id@
            && transfer.status != GatewayTransferStatus::Approved ==> (r matches Err(
            DatabaseError::Cognitive(c),
        ) && c@ == "gateway_transfer_approval_required"@),
        transfer.source_agent_id@ == agent_id@ && transfer.owner_user_id@ == owner_user_id@
            && transfer.status == GatewayTransferStatus::Approved ==> r is Ok,
{
    match validate_gateway_transfer_owner(transfer, agent_id, owner_user_id) {
        Ok(()) => {},
        Err(e) => return Err(e),
    }
    if transfer.status != GatewayTransferStatus::Approved {
        return Err(DatabaseError::Cognitive("gateway_transfer_approval_required"));
    }
    Ok(())
}

/// Why a stored session does not accept a proof, if it does not: the session must be the
/// actor's, on the proof's transfer and client; not revoked or expired; and opened with the
/// proof's app version, protocol, session nonce and authentication.
pub open spec fn session_proof_mismatch(
    s: GatewaySession,
    agent_id: Seq<char>,
    owner: Seq<char>,
    p: GatewaySessionProof,
) -> Option<DatabaseError> {
    if s.source_agent_id@ != agent_id || s.owner_user_id@ != owner || s.transfer_id@
        != p.transfer_id@ || s.client_id@ != p.client_id@ {
        Some(DatabaseError::OwnershipMismatch)
    } else if s.status == GatewaySessionStatus::Revoked || s.status == GatewaySessionStatus::Expired {
        Some(DatabaseError::Cognitive("gateway_session_unavailable"))
    } else if s.app_version@ != p.app_version@ || s.protocol_version != p.protocol_version
        || s.session_nonce_metadata@ != p.session_nonce_metadata@ || s.auth_proof_metadata@
        != p.auth_proof_metadata@ {
        Some(DatabaseError::Cognitive("gateway_authentication_failed"))
    } else {
        None
    }
}

pub fn check_session_proof(
    session: &GatewaySession,
    agent_id: &str,
    owner_user_id: &str,
    proof: &GatewaySessionProof,
) -> (r: Result<(), DatabaseError>)
    ensures
        match session_proof_mismatch(*session, agent_id@, owner_user_id@, *proof) {
            None => r is Ok,
            Some(e) => r matches Err(f) && same_error(f, e),
        },
{
    if !text_equal(session.source_agent_id.as_str(), agent_id) || !text_equal(
        session.owner_user_id.as_str(),
        owner_user_id,
    ) || !text_equal(session.transfer_id.as_str(), proof.transfer_id.as_str()) || !text_equal(
        session.client_id.as_str(),
        proof.client_id.as_str(),
    ) {
        return Err(DatabaseError::OwnershipMismatch);
    }
    if session.status == GatewaySessionStatus::Revoked || session.status
        == GatewaySessionStatus::Expired {
        return Err(DatabaseError::Cognitive("gateway_session_unavailable"));
    }
    if !text_equal(session.app_version.as_str(), proof.app_version.as_str())
        || session.protocol_version != proof.protocol_version || !text_equal(
        session.session_nonce_metadata.as_str(),
        proof.session_nonce_metadata.as_str(),
    ) || !text_equal(session.auth_proof_metadata.as_str(), proof.auth_proof_metadata.as_str()) {
        return Err(DatabaseError::Cognitive("gateway_authentication_failed"));
    }
    Ok(())
}

/// Replay protection: a message nonce is used once per client, and its counter must exceed
/// every counter the client has used.
pub fn check_replay(nonce_used: bool, last_counter: i64, replay_counter: i64) -> (r: Result<
    (),
    DatabaseError,
>)
    ensures
        r is Ok <==> !nonce_used && replay_counter > last_counter,
        r is Err ==> (r matches Err(DatabaseError::Cognitive(c)) && c@ == "gateway_replay_rejected"@),
{
    if nonce_used || replay_counter <= last_counter {
        Err(DatabaseError::Cognitive("gateway_replay_rejected"))
    } else {
        Ok(())
    }
}

/// A session holds at most four recoveries pending or approved.
pub fn check_recovery_capacity(active_recoveries: i64) -> (r: Result<(), DatabaseError>)
    ensures
        r is Ok <==> active_recoveries < MAX_GATEWAY_ACTIVE_RECOVERIES,
        r is Err ==> (r matches Err(DatabaseError::Cognitive(c)) && c@ == "gateway_recovery_limit"@),
{
    if active_recoveries >= MAX_GATEWAY_ACTIVE_RECOVERIES {
        Err(DatabaseError::Cognitive("gateway_recovery_limit"))
    } else {
        Ok(())
    }
}

/// A recovery is approved only through the session that requested it, by its Owner, while it
/// is pending.
pub fn check_recovery_approvable(
    recovery: &GatewayRecovery,
    session: &GatewaySession,
    owner_user_id: &str,
) -> (r: Result<(), DatabaseError>)
    ensures
        !(recovery.session_id@ == session.id@ && recovery.transfer_id@ == session.transfer_id@
            && recovery.owner_user_id@ == owner_user_id@) ==> r == Err::<(), DatabaseError>(
            DatabaseError::OwnershipMismatch,
        ),
        recovery.session_id@ == session.id@ && recovery.transfer_id@ == session.transfer_id@
            && recovery.owner_user_id@ == owner_user_id@ ==> (r is Ok <==> recovery.status
            == GatewayRecoveryStatus::PendingApproval),
        recovery.session_id@ == session.id@ && recovery.transfer_id@ == session.transfer_id@
            && recovery.owner_user_id@ == owner_user_id@ && recovery.status
            != GatewayRecoveryStatus::PendingApproval ==> (r matches Err(
            DatabaseError::Cognitive(c),
        ) && c@ == "gateway_recovery_state_invalid"@),
{
    if !text_equal(recovery.session_id.as_str(), session.id.as_str()) || !text_equal(
        recovery.transfer_id.as_str(),
        session.transfer_id.as_str(),
    ) || !text_equal(recovery.owner_user_id.as_str(), owner_user_id) {
        return Err(DatabaseError::OwnershipMismatch);
    }
    if recovery.status != GatewayRecoveryStatus::PendingApproval {
        return Err(DatabaseError::Cognitive("gateway_recovery_state_invalid"));
    }
    Ok(())
}

/// A session is revoked only by its agent and Owner, and only once.
pub fn check_session_revocable(session: &GatewaySession, agent_id: &str, owner_user_id: &str) -> (r:
    Result<(), DatabaseError>)
    ensures
        !(session.source_agent_id@ == agent_id@ && session.owner_user_id@ == owner_user_id@)
            ==> r == Err::<(), DatabaseError>(DatabaseError::OwnershipMismatch),
        session.source_agent_id@ == agent_id@ && session.owner_user_id@ == owner_user_id@ ==> (r is Ok
            <==> session.status != GatewaySessionStatus::Revoked),
        session.source_agent_id@ == agent_id@ && session.owner_user_id@ == owner_user_id@
            && session.status == GatewaySessionStatus::Revoked ==> (r matches Err(
            DatabaseError::Cognitive(c),
        ) && c@ == "gateway_session_revoked"@),
{
    if !text_equal(session.source_agent_id.as_str(), agent_id) || !text_equal(
        session.owner_user_id.as_str(),
        owner_user_id,
    ) {
        return Err(DatabaseError::OwnershipMismatch);
    }
    if session.status == GatewaySessionStatus::Revoked {
        return Err(DatabaseError::Cognitive("gateway_session_revoked"));
    }
    Ok(())
}

/// A transfer is revoked only by its agent and Owner, and only once.
pub fn check_transfer_revocable(transfer: &GatewayTransfer, agent_id: &str, owner_user_id: &str) -> (r:
    Result<(), DatabaseError>)
    ensures
        !(transfer.source_agent_id@ == agent_id@ && transfer.owner_user_id@ == owner_user_id@)
            ==> r == Err::<(), DatabaseError>(DatabaseError::OwnershipMismatch),
        transfer.source_agent_id@ == agent_id@ && transfer.owner_user_id@ == owner_user_id@ ==> (r is Ok
            <==> transfer.status != GatewayTransferStatus::Revoked),
        transfer.source_agent_id@ == agent_id@ && transfer.owner_user_id@ == owner_user_id@
            && transfer.status == GatewayTransferStatus::Revoked ==> (r matches Err(
            DatabaseError::Cognitive(c),
        ) && c@ == "gateway_transfer_revoked"@),
{
    match validate_gateway_transfer_owner(transfer, agent_id, owner_user_id) {
        Ok(()) => {},
        Err(e) => return Err(e),
    }
    if transfer.status == GatewayTransferStatus::Revoked {
        return Err(DatabaseError::Cognitive("gateway_transfer_revoked"));
    }
    Ok(())
}


/// The replay rule of a gateway idempotency key: with nothing stored the operation proceeds
/// (`None`); a stored result for the same request and of the same kind is replayed (its id);
/// anything else is a `gateway_idempotency_conflict`.
pub fn gateway_replay_decision(
    stored: Option<(&str, &str, &str)>,
    request: &str,
    result_kind: &str,
) -> (r: Result<Option<String>, DatabaseError>)
    ensures
        stored is None ==> r == Ok::<Option<String>, DatabaseError>(None),
        stored matches Some((req, kind, id)) ==> if req@ == request@ && kind@ == result_kind@ {
            r matches Ok(Some(found)) && found@ == id@
        } else {
            r matches Err(DatabaseError::Cognitive(c)) && c@ == "gateway_idempotency_conflict"@
        },
{
    match stored {
        None => Ok(None),
        Some((stored_request, stored_kind, result_id)) => {
            if !text_equal(stored_request, request) || !text_equal(stored_kind, result_kind) {
                Err(DatabaseError::Cognitive("gateway_idempotency_conflict"))
            } else {
                Ok(Some(result_id.to_owned()))
            }
        },
    }
}

} // verus!
