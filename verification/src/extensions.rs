//! Local extensions: manifests and their admission rules, closed executable packages with an
//! integrity hash over their canonical JSON text, and the interpreter that runs a package
//! against the capabilities the Owner approved.
use vstd::prelude::*;
use vstd::utf8::{encode_utf8, is_ascii_chars, is_ascii_chars_encode_utf8};

use sha2::{Digest, Sha256};

use crate::database::{DatabaseError, OWNER_ID};
use crate::text::{
    all_chars_in_class, all_in_class, byte_len, contains_char, contains_pair, has_prefix,
    is_ascii_digit, pair_at, split_on, split_text, starts_with_text, text_equal, trim_text,
    trimmed, class_allows, CharClass,
};
use crate::json::{
    hex_digit, hex_digit_char, json_bool, json_int, json_opt_bool, json_opt_string, json_string,
    push_char, push_json_bool, push_json_i64, push_json_opt_bool, push_json_opt_string,
    push_json_string,
};

verus! {

pub const AIP_EXTENSION_SDK_VERSION: &'static str = "aip-extension-sdk/v1";
pub const EXTENSION_MANIFEST_VERSION: i64 = 1;
pub const MAX_EXTENSION_ID_BYTES: usize = 96;
pub const MAX_EXTENSION_CAPABILITIES: usize = 8;
pub const MAX_EXTENSION_MANIFEST_BYTES: usize = 8_192;
pub const MAX_PACKAGE_INSTRUCTIONS: usize = 32;
pub const MAX_PACKAGE_TEXT_BYTES: usize = 4_096;
pub const MAX_EXECUTION_INPUT_BYTES: usize = 4_096;
pub const MAX_EXECUTION_OUTPUT_BYTES: usize = 8_192;
pub const MAX_EXECUTION_STEPS: usize = 32;
pub const MAX_EXECUTION_MS: i64 = 5_000;

#[derive(Debug, Clone, Copy, PartialEq, Eq, Structural)]
pub enum ExtensionCapability {
    AgentContext,
    ToolCatalog,
    OwnerReview,
}

#[derive(Debug, Clone, Copy, PartialEq, Eq, Structural)]
pub enum ExtensionSandboxPolicy {
    MetadataOnly,
}

#[derive(Debug, Clone, Copy, PartialEq, Eq, Structural)]
pub enum ExtensionAdmissionPolicy {
    LocalFixtureOnly,
}

#[derive(Debug, Clone, Copy, PartialEq, Eq, Structural)]
pub enum ExtensionSourceKind {
    AdministratorSelected,
    AgentCreated,
}

#[derive(Debug, Clone, Copy, PartialEq, Eq, Structural)]
pub enum ExtensionCatalogScope {
    PrivateLocal,
}

#[derive(Debug, Clone, Copy, PartialEq, Eq, Structural)]
pub enum ExtensionLifecycle {
    ReviewRequired,
    Approved,
    Active,
    Disabled,
    Rejected,
    RecoveryRequired,
}

#[derive(Debug, Clone, Copy, PartialEq, Eq, Structural)]
pub enum ExtensionReviewStatus {
    Pending,
    Approved,
    Rejected,
}

#[derive(Debug, Clone, Copy, PartialEq, Eq, Structural)]
pub enum ExtensionProposalStatus {
    Pending,
    Approved,
    Rejected,
    Withdrawn,
}

#[derive(Debug, Clone, Copy, PartialEq, Eq, Structural)]
pub enum ExtensionPermissionStatus {
    Pending,
    Approved,
    Denied,
}

/// The stored name of a capability.
pub open spec fn capability_name(v: ExtensionCapability) -> Seq<char> {
    match v {
        ExtensionCapability::AgentContext => "agent_context"@,
        ExtensionCapability::ToolCatalog => "tool_catalog"@,
        ExtensionCapability::OwnerReview => "owner_review"@,
    }
}

pub fn capability_kind(value: &ExtensionCapability) -> (r: &'static str)
    ensures
        r@ == capability_name(*value),
{
    match value {
        ExtensionCapability::AgentContext => "agent_context",
        ExtensionCapability::ToolCatalog => "tool_catalog",
        ExtensionCapability::OwnerReview => "owner_review",
    }
}

pub fn capability_from_str(value: &str) -> (r: Result<ExtensionCapability, ()>)
    ensures
        match r {
            Ok(v) => capability_name(v) == value@,
            Err(()) => forall|v: ExtensionCapability| capability_name(v) != value@,
        },
{
    if text_equal(value, "agent_context") {
        Ok(ExtensionCapability::AgentContext)
    } else if text_equal(value, "tool_catalog") {
        Ok(ExtensionCapability::ToolCatalog)
    } else if text_equal(value, "owner_review") {
        Ok(ExtensionCapability::OwnerReview)
    } else {
        Err(())
    }
}

/// The stored name of a sandbox policy.
pub open spec fn sandbox_policy_name(v: ExtensionSandboxPolicy) -> Seq<char> {
    match v {
        ExtensionSandboxPolicy::MetadataOnly => "metadata_only"@,
    }
}

pub fn sandbox_policy_kind(value: &ExtensionSandboxPolicy) -> (r: &'static str)
    ensures
        r@ == sandbox_policy_name(*value),
{
    match value {
        ExtensionSandboxPolicy::MetadataOnly => "metadata_only",
    }
}

/// The stored name of a admission policy.
pub open spec fn admission_policy_name(v: ExtensionAdmissionPolicy) -> Seq<char> {
    match v {
        ExtensionAdmissionPolicy::LocalFixtureOnly => "local_fixture_only"@,
    }
}

pub fn admission_policy_kind(value: &ExtensionAdmissionPolicy) -> (r: &'static str)
    ensures
        r@ == admission_policy_name(*value),
{
    match value {
        ExtensionAdmissionPolicy::LocalFixtureOnly => "local_fixture_only",
    }
}

/// The stored name of a source kind.
pub open spec fn source_kind_name(v: ExtensionSourceKind) -> Seq<char> {
    match v {
        ExtensionSourceKind::AdministratorSelected => "administrator_selected"@,
        ExtensionSourceKind::AgentCreated => "agent_created"@,
    }
}

pub fn source_kind_kind(value: &ExtensionSourceKind) -> (r: &'static str)
    ensures
        r@ == source_kind_name(*value),
{
    match value {
        ExtensionSourceKind::AdministratorSelected => "administrator_selected",
        ExtensionSourceKind::AgentCreated => "agent_created",
    }
}

pub fn source_kind_from_str(value: &str) -> (r: Result<ExtensionSourceKind, ()>)
    ensures
        match r {
            Ok(v) => source_kind_name(v) == value@,
            Err(()) => forall|v: ExtensionSourceKind| source_kind_name(v) != value@,
        },
{
    if text_equal(value, "administrator_selected") {
        Ok(ExtensionSourceKind::AdministratorSelected)
    } else if text_equal(value, "agent_created") {
        Ok(ExtensionSourceKind::AgentCreated)
    } else {
        Err(())
    }
}

/// The stored name of a catalog scope.
pub open spec fn catalog_scope_name(v: ExtensionCatalogScope) -> Seq<char> {
    match v {
        ExtensionCatalogScope::PrivateLocal => "private_local"@,
    }
}

pub fn catalog_scope_from_str(value: &str) -> (r: Result<ExtensionCatalogScope, ()>)
    ensures
        match r {
            Ok(v) => catalog_scope_name(v) == value@,
            Err(()) => forall|v: ExtensionCatalogScope| catalog_scope_name(v) != value@,
        },
{
    if text_equal(value, "private_local") {
        Ok(ExtensionCatalogScope::PrivateLocal)
    } else {
        Err(())
    }
}

/// The stored name of a lifecycle.
pub open spec fn lifecycle_name(v: ExtensionLifecycle) -> Seq<char> {
    match v {
        ExtensionLifecycle::ReviewRequired => "review_required"@,
        ExtensionLifecycle::Approved => "approved"@,
        ExtensionLifecycle::Active => "active"@,
        ExtensionLifecycle::Disabled => "disabled"@,
        ExtensionLifecycle::Rejected => "rejected"@,
        ExtensionLifecycle::RecoveryRequired => "recovery_required"@,
    }
}

pub fn lifecycle_kind(value: &ExtensionLifecycle) -> (r: &'static str)
    ensures
        r@ == lifecycle_name(*value),
{
    match value {
        ExtensionLifecycle::ReviewRequired => "review_required",
        ExtensionLifecycle::Approved => "approved",
        ExtensionLifecycle::Active => "active",
        ExtensionLifecycle::Disabled => "disabled",
        ExtensionLifecycle::Rejected => "rejected",
        ExtensionLifecycle::RecoveryRequired => "recovery_required",
    }
}

pub fn lifecycle_from_str(value: &str) -> (r: Result<ExtensionLifecycle, ()>)
    ensures
        match r {
            Ok(v) => lifecycle_name(v) == value@,
            Err(()) => forall|v: ExtensionLifecycle| lifecycle_name(v) != value@,
        },
{
    if text_equal(value, "review_required") {
        Ok(ExtensionLifecycle::ReviewRequired)
    } else if text_equal(value, "approved") {
        Ok(ExtensionLifecycle::Approved)
    } else if text_equal(value, "active") {
        Ok(ExtensionLifecycle::Active)
    } else if text_equal(value, "disabled") {
        Ok(ExtensionLifecycle::Disabled)
    } else if text_equal(value, "rejected") {
        Ok(ExtensionLifecycle::Rejected)
    } else if text_equal(value, "recovery_required") {
        Ok(ExtensionLifecycle::RecoveryRequired)
    } else {
        Err(())
    }
}

/// The stored name of a review status.
pub open spec fn review_status_name(v: ExtensionReviewStatus) -> Seq<char> {
    match v {
        ExtensionReviewStatus::Pending => "pending"@,
        ExtensionReviewStatus::Approved => "approved"@,
        ExtensionReviewStatus::Rejected => "rejected"@,
    }
}

pub fn review_status_kind(value: &ExtensionReviewStatus) -> (r: &'static str)
    ensures
        r@ == review_status_name(*value),
{
    match value {
        ExtensionReviewStatus::Pending => "pending",
        ExtensionReviewStatus::Approved => "approved",
        ExtensionReviewStatus::Rejected => "rejected",
    }
}

pub fn review_status_from_str(value: &str) -> (r: Result<ExtensionReviewStatus, ()>)
    ensures
        match r {
            Ok(v) => review_status_name(v) == value@,
            Err(()) => forall|v: ExtensionReviewStatus| review_status_name(v) != value@,
        },
{
    if text_equal(value, "pending") {
        Ok(ExtensionReviewStatus::Pending)
    } else if text_equal(value, "approved") {
        Ok(ExtensionReviewStatus::Approved)
    } else if text_equal(value, "rejected") {
        Ok(ExtensionReviewStatus::Rejected)
    } else {
        Err(())
    }
}

/// The stored name of a proposal status.
pub open spec fn proposal_status_name(v: ExtensionProposalStatus) -> Seq<char> {
    match v {
        ExtensionProposalStatus::Pending => "pending"@,
        ExtensionProposalStatus::Approved => "approved"@,
        ExtensionProposalStatus::Rejected => "rejected"@,
        ExtensionProposalStatus::Withdrawn => "withdrawn"@,
    }
}

pub fn proposal_status_kind(value: &ExtensionProposalStatus) -> (r: &'static str)
    ensures
        r@ == proposal_status_name(*value),
{
    match value {
        ExtensionProposalStatus::Pending => "pending",
        ExtensionProposalStatus::Approved => "approved",
        ExtensionProposalStatus::Rejected => "rejected",
        ExtensionProposalStatus::Withdrawn => "withdrawn",
    }
}

pub fn proposal_status_from_str(value: &str) -> (r: Result<ExtensionProposalStatus, ()>)
    ensures
        match r {
            Ok(v) => proposal_status_name(v) == value@,
            Err(()) => forall|v: ExtensionProposalStatus| proposal_status_name(v) != value@,
        },
{
    if text_equal(value, "pending") {
        Ok(ExtensionProposalStatus::Pending)
    } else if text_equal(value, "approved") {
        Ok(ExtensionProposalStatus::Approved)
    } else if text_equal(value, "rejected") {
        Ok(ExtensionProposalStatus::Rejected)
    } else if text_equal(value, "withdrawn") {
        Ok(ExtensionProposalStatus::Withdrawn)
    } else {
        Err(())
    }
}

/// The stored name of a permission status.
pub open spec fn permission_status_name(v: ExtensionPermissionStatus) -> Seq<char> {
    match v {
        ExtensionPermissionStatus::Pending => "pending"@,
        ExtensionPermissionStatus::Approved => "approved"@,
        ExtensionPermissionStatus::Denied => "denied"@,
    }
}

pub fn permission_status_kind(value: &ExtensionPermissionStatus) -> (r: &'static str)
    ensures
        r@ == permission_status_name(*value),
{
    match value {
        ExtensionPermissionStatus::Pending => "pending",
        ExtensionPermissionStatus::Approved => "approved",
        ExtensionPermissionStatus::Denied => "denied",
    }
}

pub fn permission_status_from_str(value: &str) -> (r: Result<ExtensionPermissionStatus, ()>)
    ensures
        match r {
            Ok(v) => permission_status_name(v) == value@,
            Err(()) => forall|v: ExtensionPermissionStatus| permission_status_name(v) != value@,
        },
{
    if text_equal(value, "pending") {
        Ok(ExtensionPermissionStatus::Pending)
    } else if text_equal(value, "approved") {
        Ok(ExtensionPermissionStatus::Approved)
    } else if text_equal(value, "denied") {
        Ok(ExtensionPermissionStatus::Denied)
    } else {
        Err(())
    }
}

/// A manifest of a local extension.
#[derive(Debug, Clone, PartialEq, Eq)]
pub struct ExtensionManifest {
    pub extension_id: String,
    pub manifest_version: i64,
    pub extension_version: String,
    pub sdk_version: String,
    pub name: String,
    pub sandbox_policy: ExtensionSandboxPolicy,
    pub admission_policy: ExtensionAdmissionPolicy,
    pub capabilities: Vec<ExtensionCapability>,
    pub local_fixture_ref: Option<String>,
    pub untrusted: bool,
    pub package: Option<ExtensionPackage>,
}

#[derive(Debug, Clone, PartialEq, Eq)]
pub struct ExtensionExecutionRequest {
    pub agent_id: String,
    pub owner_user_id: String,
    pub extension_id: String,
    pub revision: i64,
    pub package_hash: String,
    pub input: String,
    pub idempotency_key: String,
    pub temporary_chat: bool,
}

#[derive(Debug, Clone, PartialEq, Eq)]
pub struct ExtensionExecutionResult {
    pub execution_id: String,
    pub status: String,
    pub output: Option<String>,
    pub error: Option<String>,
    pub steps: i64,
}

#[derive(Debug, Clone, PartialEq, Eq)]
pub struct ExtensionExecutionCancellationRequest {
    pub agent_id: String,
    pub owner_user_id: String,
    pub execution_id: String,
}

#[derive(Debug, Clone, Copy, PartialEq, Eq)]
pub struct ExtensionPermissionRequest {
    pub capability: ExtensionCapability,
    pub status: ExtensionPermissionStatus,
}

#[derive(Debug, Clone, PartialEq, Eq)]
pub struct ExtensionCatalogEntry {
    pub extension_id: String,
    pub catalog_scope: ExtensionCatalogScope,
    pub source_kind: ExtensionSourceKind,
    pub lifecycle: ExtensionLifecycle,
    pub review_status: ExtensionReviewStatus,
    pub manifest: ExtensionManifest,
    pub current_revision: i64,
    pub active_revision: Option<i64>,
    pub approved_capabilities: Vec<ExtensionCapability>,
    pub compatible: bool,
    pub untrusted: bool,
    pub updated_at: i64,
}

#[derive(Debug, Clone, PartialEq, Eq)]
pub struct ExtensionProposal {
    pub id: String,
    pub extension_id: String,
    pub revision: i64,
    pub source_kind: ExtensionSourceKind,
    pub proposer_agent_id: Option<String>,
    pub status: ExtensionProposalStatus,
    pub review_status: ExtensionReviewStatus,
    pub manifest: ExtensionManifest,
    pub requested_capabilities: Vec<ExtensionCapability>,
    pub approved_capabilities: Vec<ExtensionCapability>,
    pub permissions: Vec<ExtensionPermissionRequest>,
    pub compatible: bool,
    pub review_reason: Option<String>,
    pub created_at: i64,
    pub updated_at: i64,
}

#[derive(Debug, Clone, PartialEq, Eq)]
pub struct ExtensionAuditRecord {
    pub id: String,
    pub extension_id: Option<String>,
    pub proposal_id: Option<String>,
    pub revision: Option<i64>,
    pub agent_id: String,
    pub event: String,
    pub result: String,
    pub code: Option<String>,
    pub summary: String,
    pub created_at: i64,
}

#[derive(Debug, Clone, PartialEq, Eq)]
pub struct ExtensionProposalRequest {
    pub agent_id: String,
    pub owner_user_id: String,
    pub source_kind: ExtensionSourceKind,
    pub proposer_agent_id: Option<String>,
    pub manifest: ExtensionManifest,
    pub idempotency_key: String,
    pub temporary_chat: bool,
}

#[derive(Debug, Clone, PartialEq, Eq)]
pub struct ExtensionAgentProposalRequest {
    pub agent_id: String,
    pub owner_user_id: String,
    pub manifest: ExtensionManifest,
    pub idempotency_key: String,
    pub temporary_chat: bool,
}

#[derive(Debug, Clone, PartialEq, Eq)]
pub struct ExtensionUpdateRequest {
    pub agent_id: String,
    pub owner_user_id: String,
    pub extension_id: String,
    pub source_kind: ExtensionSourceKind,
    pub proposer_agent_id: Option<String>,
    pub manifest: ExtensionManifest,
    pub idempotency_key: String,
    pub temporary_chat: bool,
}

#[derive(Debug, Clone, PartialEq, Eq)]
pub struct ExtensionReviewRequest {
    pub agent_id: String,
    pub owner_user_id: String,
    pub proposal_id: String,
    pub approved: bool,
    pub approved_capabilities: Vec<ExtensionCapability>,
    pub reason: Option<String>,
    pub idempotency_key: String,
    pub temporary_chat: bool,
}

#[derive(Debug, Clone, PartialEq, Eq)]
pub struct ExtensionActivationRequest {
    pub agent_id: String,
    pub owner_user_id: String,
    pub extension_id: String,
    pub proposal_id: String,
    pub idempotency_key: String,
    pub temporary_chat: bool,
}

#[derive(Debug, Clone, PartialEq, Eq)]
pub struct ExtensionRollbackRequest {
    pub agent_id: String,
    pub owner_user_id: String,
    pub extension_id: String,
    pub target_revision: i64,
    pub idempotency_key: String,
    pub temporary_chat: bool,
}

#[derive(Debug, Clone, PartialEq, Eq)]
pub struct ExtensionDisableRequest {
    pub agent_id: String,
    pub owner_user_id: String,
    pub extension_id: String,
    pub reason: String,
    pub idempotency_key: String,
    pub temporary_chat: bool,
}

/// One step of a closed package.
#[derive(Debug, Clone, PartialEq, Eq)]
pub enum ExtensionInstruction {
    /// Emits `text`, or the execution input when `text` is absent and `echo_input` is set.
    EmitText { text: Option<String>, echo_input: Option<bool> },
    /// Emits `agent_id:` and the executing agent's id.
    ReadAgentContext,
    /// Emits `tool_ids:` and the ids of the tool catalog, comma-separated.
    ListToolCatalog,
    /// Emits nothing.
    Yield,
}

/// An instruction as a value: its texts by their characters.
pub enum InstructionView {
    EmitText { text: Option<Seq<char>>, echo_input: Option<bool> },
    ReadAgentContext,
    ListToolCatalog,
    Yield,
}

pub open spec fn opt_text_view(s: Option<String>) -> Option<Seq<char>> {
    match s {
        Some(t) => Some(t@),
        None => None,
    }
}

impl View for ExtensionInstruction {
    type V = InstructionView;

    open spec fn view(&self) -> InstructionView {
        match self {
            ExtensionInstruction::EmitText { text, echo_input } => InstructionView::EmitText {
                text: opt_text_view(*text),
                echo_input: *echo_input,
            },
            ExtensionInstruction::ReadAgentContext => InstructionView::ReadAgentContext,
            ExtensionInstruction::ListToolCatalog => InstructionView::ListToolCatalog,
            ExtensionInstruction::Yield => InstructionView::Yield,
        }
    }
}

/// A closed executable package: a format tag, an entry point, its instructions and the
/// SHA-256 of its canonical text.
#[derive(Debug, Clone, PartialEq, Eq)]
pub struct ExtensionPackage {
    pub format: String,
    pub entrypoint: String,
    pub instructions: Vec<ExtensionInstruction>,
    pub integrity_sha256: String,
}

pub struct PackageView {
    pub format: Seq<char>,
    pub entrypoint: Seq<char>,
    pub instructions: Seq<InstructionView>,
    pub integrity_sha256: Seq<char>,
}

impl View for ExtensionPackage {
    type V = PackageView;

    open spec fn view(&self) -> PackageView {
        PackageView {
            format: self.format@,
            entrypoint: self.entrypoint@,
            instructions: self.instructions@.map_values(|i: ExtensionInstruction| i@),
            integrity_sha256: self.integrity_sha256@,
        }
    }
}

/// An instruction's JSON object, keys in sorted order.
pub open spec fn instruction_json(i: InstructionView) -> Seq<char> {
    match i {
        InstructionView::EmitText { text, echo_input } => "{\"echo_input\":"@ + json_opt_bool(
            echo_input,
        ) + ",\"op\":\"emit_text\",\"text\":"@ + json_opt_string(text) + "}"@,
        InstructionView::ReadAgentContext => "{\"op\":\"read_agent_context\"}"@,
        InstructionView::ListToolCatalog => "{\"op\":\"list_tool_catalog\"}"@,
        InstructionView::Yield => "{\"op\":\"yield\"}"@,
    }
}

/// The instructions' objects, comma-separated.
pub open spec fn instruction_list_json(s: Seq<InstructionView>) -> Seq<char>
    decreases s.len(),
{
    if s.len() == 0 {
        Seq::empty()
    } else if s.len() == 1 {
        instruction_json(s[0])
    } else {
        instruction_list_json(s.drop_last()) + ","@ + instruction_json(s.last())
    }
}

/// The canonical text of a package that its integrity hash covers: the package as a JSON
/// object without `integritySha256`, keys in sorted order, no whitespace.
pub open spec fn package_payload(p: PackageView) -> Seq<char> {
    "{\"entrypoint\":"@ + json_string(p.entrypoint) + ",\"format\":"@ + json_string(p.format)
        + ",\"instructions\":["@ + instruction_list_json(p.instructions) + "]}"@
}

/// The SHA-256 digest of a byte string.
pub uninterp spec fn sha256(data: Seq<u8>) -> Seq<u8>;

/// `sha2::Sha256::digest`: the 32-byte SHA-256 digest of `data`, named by `sha256`.
#[verifier::external_body]
fn sha256_digest(data: &[u8]) -> (r: Vec<u8>)
    ensures
        r@ == sha256(data@),
        r@.len() == 32,
{
    Sha256::digest(data).to_vec()
}

/// Bytes as lower-case hexadecimal, two digits per byte.
pub open spec fn hex_lower(b: Seq<u8>) -> Seq<char>
    decreases b.len(),
{
    if b.len() == 0 {
        Seq::empty()
    } else {
        hex_lower(b.drop_last()) + seq![
            hex_digit_char((b.last() / 16) as nat),
            hex_digit_char((b.last() % 16) as nat),
        ]
    }
}

/// The integrity hash of a package: the lower-case hexadecimal SHA-256 of the UTF-8 bytes of
/// its canonical text.
pub open spec fn package_hash(p: PackageView) -> Seq<char> {
    hex_lower(sha256(encode_utf8(package_payload(p))))
}

fn push_instruction_json(out: &mut String, i: &ExtensionInstruction)
    ensures
        final(out)@ == old(out)@ + instruction_json(i@),
{
    match i {
        ExtensionInstruction::EmitText { text, echo_input } => {
            let ghost start = out@;
            out.append("{\"echo_input\":");
            push_json_opt_bool(out, *echo_input);
            out.append(",\"op\":\"emit_text\",\"text\":");
            push_json_opt_string(out, text);
            out.append("}");
            assert(out@ =~= start + instruction_json(i@));
        },
        ExtensionInstruction::ReadAgentContext => out.append("{\"op\":\"read_agent_context\"}"),
        ExtensionInstruction::ListToolCatalog => out.append("{\"op\":\"list_tool_catalog\"}"),
        ExtensionInstruction::Yield => out.append("{\"op\":\"yield\"}"),
    }
}

/// The canonical text of `package` (see `package_payload`).
pub fn package_payload_text(package: &ExtensionPackage) -> (r: String)
    ensures
        r@ == package_payload(package@),
{
    let ghost views = package.instructions@.map_values(|i: ExtensionInstruction| i@);
    let mut out = String::new();
    out.append("{\"entrypoint\":");
    push_json_string(&mut out, package.entrypoint.as_str());
    out.append(",\"format\":");
    push_json_string(&mut out, package.format.as_str());
    out.append(",\"instructions\":[");
    let ghost head = out@;
    let n = package.instructions.len();
    let mut k: usize = 0;
    while k < n
        invariant
            n == package.instructions@.len(),
            views == package.instructions@.map_values(|i: ExtensionInstruction| i@),
            k <= n,
            out@ == head + instruction_list_json(views.take(k as int)),
        decreases n - k,
    {
        let ghost before = out@;
        if k > 0 {
            out.append(",");
        }
        push_instruction_json(&mut out, &package.instructions[k]);
        proof {
            let t = views.take(k + 1);
            assert(t.drop_last() =~= views.take(k as int));
            assert(t.last() == package.instructions@[k as int]@);
            if k == 0 {
                assert(t.len() == 1);
            }
            assert(out@ =~= head + instruction_list_json(t));
        }
        k = k + 1;
    }
    assert(views.take(n as int) =~= views);
    out.append("]}");
    assert(out@ =~= package_payload(package@));
    out
}

/// Bytes as lower-case hexadecimal.
fn lower_hex(bytes: &Vec<u8>) -> (r: String)
    ensures
        r@ == hex_lower(bytes@),
{
    let mut out = String::new();
    let n = bytes.len();
    let mut k: usize = 0;
    while k < n
        invariant
            n == bytes@.len(),
            k <= n,
            out@ == hex_lower(bytes@.take(k as int)),
        decreases n - k,
    {
        let b = bytes[k];
        push_char(&mut out, hex_digit((b / 16) as u32));
        push_char(&mut out, hex_digit((b % 16) as u32));
        proof {
            let t = bytes@.take(k + 1);
            assert(t.drop_last() =~= bytes@.take(k as int));
            assert(t.last() == b);
            assert(out@ =~= hex_lower(t));
        }
        k = k + 1;
    }
    assert(bytes@.take(n as int) =~= bytes@);
    out
}

/// Lower-case hexadecimal has two ASCII hexadecimal digits per byte.
proof fn lemma_hex_lower_shape(b: Seq<u8>)
    ensures
        hex_lower(b).len() == 2 * b.len(),
        all_in_class(hex_lower(b), CharClass::HexDigit),
        is_ascii_chars(hex_lower(b)),
    decreases b.len(),
{
    if b.len() > 0 {
        lemma_hex_lower_shape(b.drop_last());
        let head = hex_lower(b.drop_last());
        let tail = seq![
            hex_digit_char((b.last() / 16) as nat),
            hex_digit_char((b.last() % 16) as nat),
        ];
        assert(hex_lower(b) == head + tail);
        assert forall|i: int| 0 <= i < hex_lower(b).len() implies #[trigger] class_allows(
            CharClass::HexDigit,
            hex_lower(b)[i],
        ) && '\0' <= hex_lower(b)[i] <= '\u{7f}' by {
            if i < head.len() {
                assert(hex_lower(b)[i] == head[i]);
                assert(class_allows(CharClass::HexDigit, head[i]));
            } else {
                assert(hex_lower(b)[i] == tail[i - head.len()]);
            }
        }
    }
}

/// The integrity hash of `package` (see `package_hash`): 64 lower-case hexadecimal digits,
/// in which the `integrity_sha256` the package carries plays no part.
pub fn extension_package_hash(package: &ExtensionPackage) -> (r: Result<String, DatabaseError>)
    ensures
        r matches Ok(h) && h@ == package_hash(package@),
        r matches Ok(h) && h@.len() == 64 && byte_len(h@) == 64 && all_in_class(
            h@,
            CharClass::HexDigit,
        ),
{
    let payload = package_payload_text(package);
    let digest = sha256_digest(payload.as_str().as_bytes());
    let h = lower_hex(&digest);
    proof {
        lemma_hex_lower_shape(digest@);
        is_ascii_chars_encode_utf8(h@);
    }
    Ok(h)
}

/// The package-level rules: the format tag and entry point, 1 to 32 instructions, and a
/// 64-digit hexadecimal integrity hash equal to the package's own hash.
pub open spec fn package_header_valid(p: PackageView) -> bool {
    &&& p.format == "aip-extension-package/v1"@
    &&& p.entrypoint == "main"@
    &&& p.instructions.len() > 0
    &&& p.instructions.len() <= MAX_PACKAGE_INSTRUCTIONS
    &&& byte_len(p.integrity_sha256) == 64
    &&& all_in_class(p.integrity_sha256, CharClass::HexDigit)
    &&& package_hash(p) == p.integrity_sha256
}

/// The error of the instruction at `k`: a repeat of an earlier instruction, a text emission
/// with neither text nor echo, or a text over 4096 bytes.
pub open spec fn instruction_error(s: Seq<InstructionView>, k: int) -> Option<Seq<char>> {
    if exists|j: int| 0 <= j < k && s[j] == s[k] {
        Some("extension_instruction_duplicate"@)
    } else {
        match s[k] {
            InstructionView::EmitText { text, echo_input } => {
                if text is None && echo_input != Some(true) {
                    Some("extension_instruction_invalid"@)
                } else if text matches Some(t) && byte_len(t) > MAX_PACKAGE_TEXT_BYTES {
                    Some("extension_instruction_oversized"@)
                } else {
                    None
                }
            },
            _ => None,
        }
    }
}

/// The first instruction error from position `k` on.
pub open spec fn first_instruction_error(s: Seq<InstructionView>, k: nat) -> Option<Seq<char>>
    decreases s.len() - k,
{
    if k >= s.len() {
        None
    } else {
        match instruction_error(s, k as int) {
            Some(e) => Some(e),
            None => first_instruction_error(s, k + 1),
        }
    }
}

/// Why a package is refused, if it is.
pub open spec fn package_error(p: PackageView) -> Option<Seq<char>> {
    if !package_header_valid(p) {
        Some("extension_package_invalid"@)
    } else {
        first_instruction_error(p.instructions, 0)
    }
}

proof fn lemma_first_instruction_error_skip(s: Seq<InstructionView>, i: nat, k: nat)
    requires
        i <= k <= s.len(),
        forall|j: int| i <= j < k ==> instruction_error(s, j) is None,
    ensures
        first_instruction_error(s, i) == first_instruction_error(s, k),
    decreases k - i,
{
    if i < k {
        lemma_first_instruction_error_skip(s, i + 1, k);
    }
}

/// Whether two instructions are the same instruction.
pub fn same_instruction(a: &ExtensionInstruction, b: &ExtensionInstruction) -> (r: bool)
    ensures
        r == (a@ == b@),
{
    match (a, b) {
        (
            ExtensionInstruction::EmitText { text: ta, echo_input: ea },
            ExtensionInstruction::EmitText { text: tb, echo_input: eb },
        ) => {
            let same_echo = match (ea, eb) {
                (None, None) => true,
                (Some(x), Some(y)) => *x == *y,
                _ => false,
            };
            let same_text = match (ta, tb) {
                (None, None) => true,
                (Some(x), Some(y)) => text_equal(x.as_str(), y.as_str()),
                _ => false,
            };
            same_echo && same_text
        },
        (ExtensionInstruction::ReadAgentContext, ExtensionInstruction::ReadAgentContext) => true,
        (ExtensionInstruction::ListToolCatalog, ExtensionInstruction::ListToolCatalog) => true,
        (ExtensionInstruction::Yield, ExtensionInstruction::Yield) => true,
        _ => false,
    }
}

fn instruction_check(instructions: &Vec<ExtensionInstruction>, k: usize) -> (r: Result<
    (),
    DatabaseError,
>)
    requires
        k < instructions@.len(),
    ensures
        ({
            let s = instructions@.map_values(|i: ExtensionInstruction| i@);
            match instruction_error(s, k as int) {
                None => r is Ok,
                Some(e) => r matches Err(DatabaseError::Cognitive(c)) && c@ == e,
            }
        }),
{
    let ghost s = instructions@.map_values(|i: ExtensionInstruction| i@);
    let mut j: usize = 0;
    while j < k
        invariant
            k < instructions@.len(),
            s == instructions@.map_values(|i: ExtensionInstruction| i@),
            j <= k,
            forall|m: int| 0 <= m < j ==> s[m] != s[k as int],
        decreases k - j,
    {
        if same_instruction(&instructions[j], &instructions[k]) {
            assert(s[j as int] == s[k as int]);
            return Err(DatabaseError::Cognitive("extension_instruction_duplicate"));
        }
        j = j + 1;
    }
    assert(!exists|m: int| 0 <= m < k && s[m] == s[k as int]);
    match &instructions[k] {
        ExtensionInstruction::EmitText { text, echo_input } => {
            let echoes = match echo_input {
                Some(true) => true,
                _ => false,
            };
            match text {
                None => {
                    if !echoes {
                        return Err(DatabaseError::Cognitive("extension_instruction_invalid"));
                    }
                },
                Some(t) => {
                    if t.as_str().len() > MAX_PACKAGE_TEXT_BYTES {
                        return Err(DatabaseError::Cognitive("extension_instruction_oversized"));
                    }
                },
            }
            Ok(())
        },
        _ => Ok(()),
    }
}

/// Checks a package before it is admitted or run (see `package_error`).
pub fn validate_package(package: &ExtensionPackage) -> (r: Result<(), DatabaseError>)
    ensures
        match package_error(package@) {
            None => r is Ok,
            Some(e) => r matches Err(DatabaseError::Cognitive(c)) && c@ == e,
        },
{
    let header_ok = text_equal(package.format.as_str(), "aip-extension-package/v1")
        && text_equal(package.entrypoint.as_str(), "main") && package.instructions.len() > 0
        && package.instructions.len() <= MAX_PACKAGE_INSTRUCTIONS
        && package.integrity_sha256.as_str().len() == 64 && all_chars_in_class(
        package.integrity_sha256.as_str(),
        CharClass::HexDigit,
    );
    if !header_ok {
        return Err(DatabaseError::Cognitive("extension_package_invalid"));
    }
    let hash = match extension_package_hash(package) {
        Ok(h) => h,
        Err(e) => return Err(e),
    };
    if !text_equal(hash.as_str(), package.integrity_sha256.as_str()) {
        return Err(DatabaseError::Cognitive("extension_package_invalid"));
    }
    let ghost s = package.instructions@.map_values(|i: ExtensionInstruction| i@);
    let n = package.instructions.len();
    let mut k: usize = 0;
    while k < n
        invariant
            n == package.instructions@.len(),
            s == package.instructions@.map_values(|i: ExtensionInstruction| i@),
            s == package@.instructions,
            package_header_valid(package@),
            k <= n,
            forall|j: int| 0 <= j < k ==> instruction_error(s, j) is None,
        decreases n - k,
    {
        match instruction_check(&package.instructions, k) {
            Ok(()) => {},
            Err(e) => {
                proof {
                    lemma_first_instruction_error_skip(s, 0, k as nat);
                }
                return Err(e);
            },
        }
        k = k + 1;
    }
    proof {
        lemma_first_instruction_error_skip(s, 0, n as nat);
    }
    Ok(())
}

/// What an interpreter may read of its host: the executing agent and the tool catalog.
#[derive(Debug, Clone, PartialEq, Eq)]
pub struct ExtensionHostContext {
    pub agent_id: String,
    pub tool_ids: Vec<String>,
}

pub struct HostView {
    pub agent_id: Seq<char>,
    pub tool_ids: Seq<Seq<char>>,
}

impl View for ExtensionHostContext {
    type V = HostView;

    open spec fn view(&self) -> HostView {
        HostView {
            agent_id: self.agent_id@,
            tool_ids: self.tool_ids@.map_values(|t: String| t@),
        }
    }
}

/// Texts joined with commas.
pub open spec fn joined_with_commas(s: Seq<Seq<char>>) -> Seq<char>
    decreases s.len(),
{
    if s.len() == 0 {
        Seq::empty()
    } else if s.len() == 1 {
        s[0]
    } else {
        joined_with_commas(s.drop_last()) + ","@ + s.last()
    }
}

/// What an instruction emits.
pub open spec fn instruction_output(i: InstructionView, input: Seq<char>, host: HostView) -> Seq<
    char,
> {
    match i {
        InstructionView::EmitText { text, echo_input } => match text {
            Some(t) => t,
            None => if echo_input == Some(true) {
                input
            } else {
                Seq::empty()
            },
        },
        InstructionView::ReadAgentContext => "agent_id:"@ + host.agent_id,
        InstructionView::ListToolCatalog => "tool_ids:"@ + joined_with_commas(host.tool_ids),
        InstructionView::Yield => Seq::empty(),
    }
}

/// An instruction that reads the host needs the matching approved capability.
pub open spec fn instruction_permitted(i: InstructionView, caps: Seq<ExtensionCapability>) -> bool {
    match i {
        InstructionView::ReadAgentContext => caps.contains(ExtensionCapability::AgentContext),
        InstructionView::ListToolCatalog => caps.contains(ExtensionCapability::ToolCatalog),
        _ => true,
    }
}

/// The result of running the first `n` instructions: the output so far, or the error that
/// stopped the run (a missing capability, or output beyond 8192 bytes).
pub open spec fn run_instructions(
    s: Seq<InstructionView>,
    n: nat,
    input: Seq<char>,
    caps: Seq<ExtensionCapability>,
    host: HostView,
) -> Result<Seq<char>, Seq<char>>
    decreases n,
{
    if n == 0 {
        Ok(Seq::empty())
    } else {
        match run_instructions(s, (n - 1) as nat, input, caps, host) {
            Err(e) => Err(e),
            Ok(out) => {
                let i = s[n - 1];
                if !instruction_permitted(i, caps) {
                    Err("extension_capability_denied"@)
                } else {
                    let next = out + instruction_output(i, input, host);
                    if byte_len(next) > MAX_EXECUTION_OUTPUT_BYTES {
                        Err("extension_output_oversized"@)
                    } else {
                        Ok(next)
                    }
                }
            },
        }
    }
}

/// The result of interpreting a package: its validation error, an input over 4096 bytes, or
/// the run of all its instructions.
pub open spec fn interpretation(
    p: PackageView,
    input: Seq<char>,
    caps: Seq<ExtensionCapability>,
    host: HostView,
) -> Result<Seq<char>, Seq<char>> {
    match package_error(p) {
        Some(e) => Err(e),
        None => if byte_len(input) > MAX_EXECUTION_INPUT_BYTES {
            Err("extension_input_oversized"@)
        } else {
            run_instructions(p.instructions, p.instructions.len(), input, caps, host)
        },
    }
}

proof fn lemma_run_error_persists(
    s: Seq<InstructionView>,
    m: nat,
    n: nat,
    input: Seq<char>,
    caps: Seq<ExtensionCapability>,
    host: HostView,
)
    requires
        m <= n,
        run_instructions(s, m, input, caps, host) is Err,
    ensures
        run_instructions(s, n, input, caps, host) == run_instructions(s, m, input, caps, host),
    decreases n - m,
{
    if m < n {
        lemma_run_error_persists(s, m, (n - 1) as nat, input, caps, host);
    }
}

fn has_capability(caps: &[ExtensionCapability], wanted: ExtensionCapability) -> (r: bool)
    ensures
        r == caps@.contains(wanted),
{
    let mut k: usize = 0;
    while k < caps.len()
        invariant
            k <= caps@.len(),
            forall|j: int| 0 <= j < k ==> caps@[j] != wanted,
        decreases caps@.len() - k,
    {
        if caps[k] == wanted {
            return true;
        }
        k = k + 1;
    }
    false
}

fn push_joined(out: &mut String, items: &Vec<String>)
    ensures
        final(out)@ == old(out)@ + joined_with_commas(items@.map_values(|t: String| t@)),
{
    let ghost start = out@;
    let ghost views = items@.map_values(|t: String| t@);
    let n = items.len();
    let mut k: usize = 0;
    while k < n
        invariant
            n == items@.len(),
            views == items@.map_values(|t: String| t@),
            k <= n,
            out@ == start + joined_with_commas(views.take(k as int)),
        decreases n - k,
    {
        if k > 0 {
            out.append(",");
        }
        out.append(items[k].as_str());
        proof {
            let t = views.take(k + 1);
            assert(t.drop_last() =~= views.take(k as int));
            assert(t.last() == items@[k as int]@);
            if k == 0 {
                assert(t.len() == 1);
            }
            assert(out@ =~= start + joined_with_commas(t));
        }
        k = k + 1;
    }
    assert(views.take(n as int) =~= views);
}

/// Validates `package` and runs it on `input` with the approved `capabilities`, reading the
/// host only through `host` (see `interpretation`).
pub fn interpret_extension_package(
    package: &ExtensionPackage,
    input: &str,
    capabilities: &[ExtensionCapability],
    host: &ExtensionHostContext,
) -> (r: Result<String, DatabaseError>)
    ensures
        match (r, interpretation(package@, input@, capabilities@, host@)) {
            (Ok(o), Ok(x)) => o@ == x,
            (Err(DatabaseError::Cognitive(c)), Err(x)) => c@ == x,
            _ => false,
        },
{
    match validate_package(package) {
        Ok(()) => {},
        Err(e) => return Err(e),
    }
    if input.len() > MAX_EXECUTION_INPUT_BYTES {
        return Err(DatabaseError::Cognitive("extension_input_oversized"));
    }
    let ghost s = package@.instructions;
    let mut output = String::new();
    let n = package.instructions.len();
    let mut k: usize = 0;
    while k < n
        invariant
            n == package.instructions@.len(),
            s == package@.instructions,
            s == package.instructions@.map_values(|i: ExtensionInstruction| i@),
            package_error(package@) is None,
            byte_len(input@) <= MAX_EXECUTION_INPUT_BYTES,
            k <= n,
            run_instructions(s, k as nat, input@, capabilities@, host@) == Ok::<
                Seq<char>,
                Seq<char>,
            >(output@),
        decreases n - k,
    {
        let ghost before = output@;
        match &package.instructions[k] {
            ExtensionInstruction::EmitText { text, echo_input } => match text {
                Some(t) => output.append(t.as_str()),
                None => match echo_input {
                    Some(true) => output.append(input),
                    _ => {},
                },
            },
            ExtensionInstruction::ReadAgentContext => {
                if !has_capability(capabilities, ExtensionCapability::AgentContext) {
                    proof {
                        lemma_run_error_persists(s, (k + 1) as nat, n as nat, input@, capabilities@, host@);
                    }
                    return Err(DatabaseError::Cognitive("extension_capability_denied"));
                }
                output.append("agent_id:");
                output.append(host.agent_id.as_str());
            },
            ExtensionInstruction::ListToolCatalog => {
                if !has_capability(capabilities, ExtensionCapability::ToolCatalog) {
                    proof {
                        lemma_run_error_persists(s, (k + 1) as nat, n as nat, input@, capabilities@, host@);
                    }
                    return Err(DatabaseError::Cognitive("extension_capability_denied"));
                }
                output.append("tool_ids:");
                push_joined(&mut output, &host.tool_ids);
            },
            ExtensionInstruction::Yield => {},
        }
        assert(output@ =~= before + instruction_output(s[k as int], input@, host@));
        if output.as_str().len() > MAX_EXECUTION_OUTPUT_BYTES {
            proof {
                lemma_run_error_persists(s, (k + 1) as nat, n as nat, input@, capabilities@, host@);
            }
            return Err(DatabaseError::Cognitive("extension_output_oversized"));
        }
        k = k + 1;
    }
    Ok(output)
}

/// A tool id the host may show: 1 to 128 bytes without control characters.
pub open spec fn tool_id_valid(t: Seq<char>) -> bool {
    t.len() > 0 && byte_len(t) <= 128 && all_in_class(t, CharClass::NonControl)
}

/// The host context an execution may read: an agent id of 1 to 96 bytes of ASCII letters,
/// digits and `-_`, and at most 64 valid tool ids.
pub open spec fn host_context_valid(h: HostView) -> bool {
    &&& h.agent_id.len() > 0
    &&& byte_len(h.agent_id) <= 96
    &&& all_in_class(h.agent_id, CharClass::Slug)
    &&& h.tool_ids.len() <= 64
    &&& forall|k: int| 0 <= k < h.tool_ids.len() ==> #[trigger] tool_id_valid(h.tool_ids[k])
}

pub fn validate_host_context(host: &ExtensionHostContext) -> (r: Result<(), DatabaseError>)
    ensures
        r is Ok <==> host_context_valid(host@),
        r is Err ==> (r matches Err(DatabaseError::Cognitive(c)) && c@
            == "extension_host_context_invalid"@),
{
    let ghost views = host.tool_ids@.map_values(|t: String| t@);
    if host.agent_id.as_str().unicode_len() == 0 || host.agent_id.as_str().len() > 96
        || !all_chars_in_class(host.agent_id.as_str(), CharClass::Slug) || host.tool_ids.len()
        > 64 {
        return Err(DatabaseError::Cognitive("extension_host_context_invalid"));
    }
    let n = host.tool_ids.len();
    let mut k: usize = 0;
    while k < n
        invariant
            n == host.tool_ids@.len(),
            views == host.tool_ids@.map_values(|t: String| t@),
            k <= n,
            forall|j: int| 0 <= j < k ==> #[trigger] tool_id_valid(views[j]),
        decreases n - k,
    {
        let t = host.tool_ids[k].as_str();
        if t.unicode_len() == 0 || t.len() > 128 || !all_chars_in_class(t, CharClass::NonControl) {
            assert(!tool_id_valid(views[k as int]));
            return Err(DatabaseError::Cognitive("extension_host_context_invalid"));
        }
        k = k + 1;
    }
    Ok(())
}

/// Extensions are refused in a temporary chat.
pub fn ensure_not_temporary(temporary_chat: bool) -> (r: Result<(), DatabaseError>)
    ensures
        r is Ok <==> !temporary_chat,
        r is Err ==> (r matches Err(DatabaseError::Cognitive(c)) && c@
            == "extensions_blocked_temporary"@),
{
    if temporary_chat {
        Err(DatabaseError::Cognitive("extensions_blocked_temporary"))
    } else {
        Ok(())
    }
}

/// An extension id: 1 to 96 bytes of ASCII lower-case letters, digits and `.-_`, neither
/// starting nor ending with `.`.
pub open spec fn extension_id_valid(v: Seq<char>) -> bool {
    &&& v.len() > 0
    &&& byte_len(v) <= MAX_EXTENSION_ID_BYTES
    &&& all_in_class(v, CharClass::ExtensionId)
    &&& v[0] != '.'
    &&& v.last() != '.'
}

pub fn validate_extension_id(value: &str) -> (r: Result<(), DatabaseError>)
    ensures
        r is Ok <==> extension_id_valid(value@),
        r is Err ==> (r matches Err(DatabaseError::Cognitive(c)) && c@ == "extension_id_invalid"@),
{
    let n = value.unicode_len();
    if n == 0 || value.len() > MAX_EXTENSION_ID_BYTES || !all_chars_in_class(
        value,
        CharClass::ExtensionId,
    ) || value.get_char(0) == '.' || value.get_char(n - 1) == '.' {
        Err(DatabaseError::Cognitive("extension_id_invalid"))
    } else {
        Ok(())
    }
}

/// What `u32::from_str` accepts in at most six bytes: one or more ASCII digits, optionally
/// after a single `+`.
pub open spec fn unsigned_text_parses(p: Seq<char>) -> bool {
    ||| (p.len() > 0 && forall|i: int| 0 <= i < p.len() ==> #[trigger] is_ascii_digit(p[i]))
    ||| (p.len() > 1 && p[0] == '+' && forall|i: int|
        1 <= i < p.len() ==> #[trigger] is_ascii_digit(p[i]))
}

/// One part of a version: 1 to 6 bytes that parse as an unsigned number, without a leading
/// zero unless the part is `0`.
pub open spec fn version_part_valid(p: Seq<char>) -> bool {
    &&& p.len() > 0
    &&& byte_len(p) <= 6
    &&& unsigned_text_parses(p)
    &&& !(byte_len(p) > 1 && p[0] == '0')
}

/// A version: three valid parts separated by `.`.
pub open spec fn extension_version_valid(v: Seq<char>) -> bool {
    let parts = split_on(v, '.');
    parts.len() == 3 && forall|k: int| 0 <= k < 3 ==> #[trigger] version_part_valid(parts[k])
}

fn unsigned_text(p: &str) -> (r: bool)
    ensures
        r == unsigned_text_parses(p@),
{
    let n = p.unicode_len();
    if n == 0 {
        return false;
    }
    let mut first: usize = 0;
    if p.get_char(0) == '+' {
        if n == 1 {
            assert(!is_ascii_digit(p@[0]));
            return false;
        }
        first = 1;
    }
    let mut k: usize = first;
    while k < n
        invariant
            n == p@.len(),
            n > 0,
            first <= 1,
            first == 1 ==> p@[0] == '+' && n > 1,
            first == 0 ==> p@[0] != '+',
            first <= k <= n,
            forall|i: int| first <= i < k ==> #[trigger] is_ascii_digit(p@[i]),
        decreases n - k,
    {
        let c = p.get_char(k);
        if !('0' <= c && c <= '9') {
            assert(!is_ascii_digit(p@[k as int]));
            if first == 1 {
                assert(!is_ascii_digit(p@[0]));
            }
            return false;
        }
        k = k + 1;
    }
    true
}

pub fn validate_extension_version(value: &str) -> (r: Result<(), DatabaseError>)
    ensures
        r is Ok <==> extension_version_valid(value@),
        r is Err ==> (r matches Err(DatabaseError::Cognitive(c)) && c@
            == "extension_version_invalid"@),
{
    let parts = split_text(value, '.');
    let ghost views = parts@.map_values(|p: String| p@);
    if parts.len() != 3 {
        return Err(DatabaseError::Cognitive("extension_version_invalid"));
    }
    let mut k: usize = 0;
    while k < 3
        invariant
            parts@.len() == 3,
            views == parts@.map_values(|p: String| p@),
            views == split_on(value@, '.'),
            k <= 3,
            forall|j: int| 0 <= j < k ==> #[trigger] version_part_valid(views[j]),
        decreases 3 - k,
    {
        let part = parts[k].as_str();
        let n = part.unicode_len();
        if n == 0 || part.len() > 6 || !unsigned_text(part) || (part.len() > 1 && part.get_char(0)
            == '0') {
            assert(!version_part_valid(views[k as int]));
            return Err(DatabaseError::Cognitive("extension_version_invalid"));
        }
        k = k + 1;
    }
    Ok(())
}

/// A display text: trimmed, 1 to `maximum` bytes, without control characters.
pub open spec fn text_valid(v: Seq<char>, maximum: usize) -> bool {
    let t = trimmed(v);
    t.len() > 0 && byte_len(t) <= maximum && all_in_class(t, CharClass::NonControl)
}

/// The trimmed text, if it is valid (see `text_valid`).
pub fn validate_text(value: &str, maximum: usize) -> (r: Result<String, DatabaseError>)
    ensures
        r is Ok <==> text_valid(value@, maximum),
        r matches Ok(t) ==> t@ == trimmed(value@),
        r is Err ==> (r matches Err(DatabaseError::Cognitive(c)) && c@ == "extension_text_invalid"@),
{
    let t = trim_text(value);
    if t.unicode_len() == 0 || t.len() > maximum || !all_chars_in_class(t, CharClass::NonControl) {
        Err(DatabaseError::Cognitive("extension_text_invalid"))
    } else {
        Ok(t.to_string())
    }
}

/// A local fixture reference: trimmed, `fixture:extension/` and something after it, at most
/// 160 bytes of ASCII letters, digits and `:._/-`, without `..`.
pub open spec fn fixture_ref_valid(v: Seq<char>) -> bool {
    let t = trimmed(v);
    &&& byte_len(t) > 18
    &&& byte_len(t) <= 160
    &&& has_prefix(t, "fixture:extension/"@)
    &&& !(exists|k: int| #[trigger] pair_at(t, k, '.', '.'))
    &&& !t.contains('\\')
    &&& all_in_class(t, CharClass::FixtureRef)
}

/// The trimmed reference, if it is valid (see `fixture_ref_valid`).
pub fn validate_fixture_ref(value: &str) -> (r: Result<String, DatabaseError>)
    ensures
        r is Ok <==> fixture_ref_valid(value@),
        r matches Ok(t) ==> t@ == trimmed(value@),
        r is Err ==> (r matches Err(DatabaseError::Cognitive(c)) && c@
            == "extension_fixture_invalid"@),
{
    let t = trim_text(value);
    if t.len() <= 18 || t.len() > 160 || !starts_with_text(t, "fixture:extension/")
        || contains_pair(t, '.', '.') || contains_char(t, '\\') || !all_chars_in_class(
        t,
        CharClass::FixtureRef,
    ) {
        Err(DatabaseError::Cognitive("extension_fixture_invalid"))
    } else {
        Ok(t.to_string())
    }
}

/// The capabilities in their stored order (by stored name: agent context, owner review,
/// tool catalog), each once.
pub open spec fn canonical_capabilities(caps: Seq<ExtensionCapability>) -> Seq<ExtensionCapability> {
    (if caps.contains(ExtensionCapability::AgentContext) {
        seq![ExtensionCapability::AgentContext]
    } else {
        Seq::empty()
    }) + (if caps.contains(ExtensionCapability::OwnerReview) {
        seq![ExtensionCapability::OwnerReview]
    } else {
        Seq::empty()
    }) + (if caps.contains(ExtensionCapability::ToolCatalog) {
        seq![ExtensionCapability::ToolCatalog]
    } else {
        Seq::empty()
    })
}

/// A capability list is accepted when it has at most 8 entries and no repeats.
pub open spec fn capabilities_valid(caps: Seq<ExtensionCapability>) -> bool {
    caps.len() <= MAX_EXTENSION_CAPABILITIES && caps.no_duplicates()
}

/// The capabilities sorted by stored name, refused when there are too many or a repeat.
pub fn normalize_capabilities(capabilities: Vec<ExtensionCapability>) -> (r: Result<
    Vec<ExtensionCapability>,
    DatabaseError,
>)
    ensures
        r is Ok <==> capabilities_valid(capabilities@),
        r matches Ok(v) ==> v@ == canonical_capabilities(capabilities@),
        r is Err ==> (r matches Err(DatabaseError::Cognitive(c)) && c@
            == "extension_capability_invalid"@),
{
    if capabilities.len() > MAX_EXTENSION_CAPABILITIES {
        return Err(DatabaseError::Cognitive("extension_capability_invalid"));
    }
    let ghost caps = capabilities@;
    let mut agent = false;
    let mut review = false;
    let mut tools = false;
    let n = capabilities.len();
    let mut k: usize = 0;
    while k < n
        invariant
            n == caps.len(),
            caps == capabilities@,
            k <= n,
            agent == caps.take(k as int).contains(ExtensionCapability::AgentContext),
            review == caps.take(k as int).contains(ExtensionCapability::OwnerReview),
            tools == caps.take(k as int).contains(ExtensionCapability::ToolCatalog),
            caps.take(k as int).no_duplicates(),
        decreases n - k,
    {
        let c = capabilities[k];
        let seen = match c {
            ExtensionCapability::AgentContext => agent,
            ExtensionCapability::OwnerReview => review,
            ExtensionCapability::ToolCatalog => tools,
        };
        let ghost prefix = caps.take(k as int);
        if seen {
            proof {
                let j = choose|j: int| 0 <= j < prefix.len() && prefix[j] == c;
                assert(caps[j] == caps[k as int]);
            }
            return Err(DatabaseError::Cognitive("extension_capability_invalid"));
        }
        match c {
            ExtensionCapability::AgentContext => agent = true,
            ExtensionCapability::OwnerReview => review = true,
            ExtensionCapability::ToolCatalog => tools = true,
        }
        proof {
            let next = caps.take(k + 1);
            assert(next =~= prefix.push(c));
            assert forall|x: ExtensionCapability| next.contains(x) <==> (prefix.contains(x) || x
                == c) by {
                if next.contains(x) {
                    let j = choose|j: int| 0 <= j < next.len() && next[j] == x;
                    if j < prefix.len() {
                        assert(prefix[j] == x);
                    }
                }
                if prefix.contains(x) {
                    let j = choose|j: int| 0 <= j < prefix.len() && prefix[j] == x;
                    assert(next[j] == x);
                }
                if x == c {
                    assert(next[k as int] == x);
                }
            }
        }
        k = k + 1;
    }
    assert(caps.take(n as int) =~= caps);
    let mut out: Vec<ExtensionCapability> = Vec::new();
    if agent {
        out.push(ExtensionCapability::AgentContext);
    }
    if review {
        out.push(ExtensionCapability::OwnerReview);
    }
    if tools {
        out.push(ExtensionCapability::ToolCatalog);
    }
    assert(out@ =~= canonical_capabilities(caps));
    Ok(out)
}

/// An extension idempotency key: trimmed, 1 to 128 bytes of ASCII letters, digits and `:._-`.
pub open spec fn extension_idempotency_valid(v: Seq<char>) -> bool {
    let t = trimmed(v);
    t.len() > 0 && byte_len(t) <= 128 && all_in_class(t, CharClass::DottedKey)
}

/// The trimmed key, if it is valid (see `extension_idempotency_valid`).
pub fn valid_idempotency(value: &str) -> (r: Result<String, DatabaseError>)
    ensures
        r is Ok <==> extension_idempotency_valid(value@),
        r matches Ok(t) ==> t@ == trimmed(value@),
        r is Err ==> (r matches Err(DatabaseError::Cognitive(c)) && c@
            == "invalid_idempotency_key"@),
{
    let t = trim_text(value);
    if t.unicode_len() == 0 || t.len() > 128 || !all_chars_in_class(t, CharClass::DottedKey) {
        Err(DatabaseError::Cognitive("invalid_idempotency_key"))
    } else {
        Ok(t.to_string())
    }
}

/// A manifest as a value.
pub struct ManifestView {
    pub extension_id: Seq<char>,
    pub manifest_version: i64,
    pub extension_version: Seq<char>,
    pub sdk_version: Seq<char>,
    pub name: Seq<char>,
    pub sandbox_policy: ExtensionSandboxPolicy,
    pub admission_policy: ExtensionAdmissionPolicy,
    pub capabilities: Seq<ExtensionCapability>,
    pub local_fixture_ref: Option<Seq<char>>,
    pub untrusted: bool,
    pub package: Option<PackageView>,
}

pub open spec fn opt_package_view(p: Option<ExtensionPackage>) -> Option<PackageView> {
    match p {
        Some(q) => Some(q@),
        None => None,
    }
}

impl View for ExtensionManifest {
    type V = ManifestView;

    open spec fn view(&self) -> ManifestView {
        ManifestView {
            extension_id: self.extension_id@,
            manifest_version: self.manifest_version,
            extension_version: self.extension_version@,
            sdk_version: self.sdk_version@,
            name: self.name@,
            sandbox_policy: self.sandbox_policy,
            admission_policy: self.admission_policy,
            capabilities: self.capabilities@,
            local_fixture_ref: opt_text_view(self.local_fixture_ref),
            untrusted: self.untrusted,
            package: opt_package_view(self.package),
        }
    }
}

/// An instruction's JSON object as stored, with its tag first.
pub open spec fn stored_instruction_json(i: InstructionView) -> Seq<char> {
    match i {
        InstructionView::EmitText { text, echo_input } => "{\"op\":\"emit_text\",\"text\":"@
            + json_opt_string(text) + ",\"echo_input\":"@ + json_opt_bool(echo_input) + "}"@,
        _ => instruction_json(i),
    }
}

pub open spec fn stored_instruction_list_json(s: Seq<InstructionView>) -> Seq<char>
    decreases s.len(),
{
    if s.len() == 0 {
        Seq::empty()
    } else if s.len() == 1 {
        stored_instruction_json(s[0])
    } else {
        stored_instruction_list_json(s.drop_last()) + ","@ + stored_instruction_json(s.last())
    }
}

/// A package's JSON object as stored, fields in declaration order.
pub open spec fn stored_package_json(p: PackageView) -> Seq<char> {
    "{\"format\":"@ + json_string(p.format) + ",\"entrypoint\":"@ + json_string(p.entrypoint)
        + ",\"instructions\":["@ + stored_instruction_list_json(p.instructions)
        + "],\"integritySha256\":"@ + json_string(p.integrity_sha256) + "}"@
}

pub open spec fn capability_list_json(s: Seq<ExtensionCapability>) -> Seq<char>
    decreases s.len(),
{
    if s.len() == 0 {
        Seq::empty()
    } else if s.len() == 1 {
        json_string(capability_name(s[0]))
    } else {
        capability_list_json(s.drop_last()) + ","@ + json_string(capability_name(s.last()))
    }
}

/// A manifest's JSON object as stored, fields in declaration order.
pub open spec fn manifest_json(m: ManifestView) -> Seq<char> {
    "{\"extensionId\":"@ + json_string(m.extension_id) + ",\"manifestVersion\":"@ + json_int(
        m.manifest_version as int,
    ) + ",\"extensionVersion\":"@ + json_string(m.extension_version) + ",\"sdkVersion\":"@
        + json_string(m.sdk_version) + ",\"name\":"@ + json_string(m.name)
        + ",\"sandboxPolicy\":"@ + json_string(sandbox_policy_name(m.sandbox_policy))
        + ",\"admissionPolicy\":"@ + json_string(admission_policy_name(m.admission_policy))
        + ",\"capabilities\":["@ + capability_list_json(m.capabilities)
        + "],\"localFixtureRef\":"@ + json_opt_string(m.local_fixture_ref) + ",\"untrusted\":"@
        + json_bool(m.untrusted) + ",\"package\":"@ + match m.package {
        Some(p) => stored_package_json(p),
        None => "null"@,
    } + "}"@
}

fn push_stored_instruction_json(out: &mut String, i: &ExtensionInstruction)
    ensures
        final(out)@ == old(out)@ + stored_instruction_json(i@),
{
    match i {
        ExtensionInstruction::EmitText { text, echo_input } => {
            let ghost start = out@;
            out.append("{\"op\":\"emit_text\",\"text\":");
            push_json_opt_string(out, text);
            out.append(",\"echo_input\":");
            push_json_opt_bool(out, *echo_input);
            out.append("}");
            assert(out@ =~= start + stored_instruction_json(i@));
        },
        _ => push_instruction_json(out, i),
    }
}

fn push_stored_package_json(out: &mut String, package: &ExtensionPackage)
    ensures
        final(out)@ == old(out)@ + stored_package_json(package@),
{
    let ghost start = out@;
    let ghost views = package.instructions@.map_values(|i: ExtensionInstruction| i@);
    out.append("{\"format\":");
    push_json_string(out, package.format.as_str());
    out.append(",\"entrypoint\":");
    push_json_string(out, package.entrypoint.as_str());
    out.append(",\"instructions\":[");
    let ghost head = out@;
    let n = package.instructions.len();
    let mut k: usize = 0;
    while k < n
        invariant
            n == package.instructions@.len(),
            views == package.instructions@.map_values(|i: ExtensionInstruction| i@),
            k <= n,
            out@ == head + stored_instruction_list_json(views.take(k as int)),
        decreases n - k,
    {
        if k > 0 {
            out.append(",");
        }
        push_stored_instruction_json(out, &package.instructions[k]);
        proof {
            let t = views.take(k + 1);
            assert(t.drop_last() =~= views.take(k as int));
            assert(t.last() == package.instructions@[k as int]@);
            if k == 0 {
                assert(t.len() == 1);
            }
            assert(out@ =~= head + stored_instruction_list_json(t));
        }
        k = k + 1;
    }
    assert(views.take(n as int) =~= views);
    out.append("],\"integritySha256\":");
    push_json_string(out, package.integrity_sha256.as_str());
    out.append("}");
    assert(out@ =~= start + stored_package_json(package@));
}

fn push_capability_list_json(out: &mut String, caps: &Vec<ExtensionCapability>)
    ensures
        final(out)@ == old(out)@ + capability_list_json(caps@),
{
    let ghost start = out@;
    let n = caps.len();
    let mut k: usize = 0;
    while k < n
        invariant
            n == caps@.len(),
            k <= n,
            out@ == start + capability_list_json(caps@.take(k as int)),
        decreases n - k,
    {
        if k > 0 {
            out.append(",");
        }
        push_json_string(out, capability_kind(&caps[k]));
        proof {
            let t = caps@.take(k + 1);
            assert(t.drop_last() =~= caps@.take(k as int));
            assert(t.last() == caps@[k as int]);
            if k == 0 {
                assert(t.len() == 1);
            }
            assert(out@ =~= start + capability_list_json(t));
        }
        k = k + 1;
    }
    assert(caps@.take(n as int) =~= caps@);
}

/// The stored JSON text of a manifest (see `manifest_json`).
pub fn manifest_json_text(m: &ExtensionManifest) -> (r: String)
    ensures
        r@ == manifest_json(m@),
{
    let mut out = String::new();
    out.append("{\"extensionId\":");
    push_json_string(&mut out, m.extension_id.as_str());
    out.append(",\"manifestVersion\":");
    push_json_i64(&mut out, m.manifest_version);
    out.append(",\"extensionVersion\":");
    push_json_string(&mut out, m.extension_version.as_str());
    out.append(",\"sdkVersion\":");
    push_json_string(&mut out, m.sdk_version.as_str());
    out.append(",\"name\":");
    push_json_string(&mut out, m.name.as_str());
    out.append(",\"sandboxPolicy\":");
    push_json_string(&mut out, sandbox_policy_kind(&m.sandbox_policy));
    out.append(",\"admissionPolicy\":");
    push_json_string(&mut out, admission_policy_kind(&m.admission_policy));
    out.append(",\"capabilities\":[");
    push_capability_list_json(&mut out, &m.capabilities);
    out.append("],\"localFixtureRef\":");
    push_json_opt_string(&mut out, &m.local_fixture_ref);
    out.append(",\"untrusted\":");
    push_json_bool(&mut out, m.untrusted);
    out.append(",\"package\":");
    match &m.package {
        Some(p) => push_stored_package_json(&mut out, p),
        None => out.append("null"),
    }
    out.append("}");
    assert(out@ =~= manifest_json(m@));
    out
}

/// A manifest that the current SDK can load: every field rule holds (the stored size aside).
pub open spec fn manifest_compatible(m: ManifestView) -> bool {
    &&& m.manifest_version == EXTENSION_MANIFEST_VERSION
    &&& m.sdk_version == AIP_EXTENSION_SDK_VERSION@
    &&& m.sandbox_policy == ExtensionSandboxPolicy::MetadataOnly
    &&& m.admission_policy == ExtensionAdmissionPolicy::LocalFixtureOnly
    &&& m.untrusted
    &&& extension_id_valid(m.extension_id)
    &&& extension_version_valid(m.extension_version)
    &&& text_valid(m.name, 160)
    &&& capabilities_valid(m.capabilities)
    &&& (m.local_fixture_ref matches Some(f) ==> fixture_ref_valid(f))
    &&& (m.package matches Some(p) ==> package_error(p) is None)
}

fn copy_capabilities(caps: &Vec<ExtensionCapability>) -> (r: Vec<ExtensionCapability>)
    ensures
        r@ == caps@,
{
    let mut out: Vec<ExtensionCapability> = Vec::new();
    let n = caps.len();
    let mut k: usize = 0;
    while k < n
        invariant
            n == caps@.len(),
            k <= n,
            out@ == caps@.take(k as int),
        decreases n - k,
    {
        out.push(caps[k]);
        assert(out@ =~= caps@.take(k + 1));
        k = k + 1;
    }
    assert(caps@.take(n as int) =~= caps@);
    out
}

pub fn manifest_is_compatible(manifest: &ExtensionManifest) -> (r: bool)
    ensures
        r == manifest_compatible(manifest@),
{
    let fixture_ok = match &manifest.local_fixture_ref {
        Some(f) => validate_fixture_ref(f.as_str()).is_ok(),
        None => true,
    };
    let package_ok = match &manifest.package {
        Some(p) => validate_package(p).is_ok(),
        None => true,
    };
    manifest.manifest_version == EXTENSION_MANIFEST_VERSION && text_equal(
        manifest.sdk_version.as_str(),
        AIP_EXTENSION_SDK_VERSION,
    ) && manifest.sandbox_policy == ExtensionSandboxPolicy::MetadataOnly
        && manifest.admission_policy == ExtensionAdmissionPolicy::LocalFixtureOnly
        && manifest.untrusted && validate_extension_id(manifest.extension_id.as_str()).is_ok()
        && validate_extension_version(manifest.extension_version.as_str()).is_ok()
        && validate_text(manifest.name.as_str(), 160).is_ok() && normalize_capabilities(
        copy_capabilities(&manifest.capabilities),
    ).is_ok() && fixture_ok && package_ok
}

/// The fields that normalization rewrites: the name and fixture reference trimmed, the
/// capabilities in stored order.
pub open spec fn normalized_fields(m: ManifestView) -> ManifestView {
    ManifestView {
        extension_id: m.extension_id,
        manifest_version: m.manifest_version,
        extension_version: m.extension_version,
        sdk_version: m.sdk_version,
        name: trimmed(m.name),
        sandbox_policy: m.sandbox_policy,
        admission_policy: m.admission_policy,
        capabilities: canonical_capabilities(m.capabilities),
        local_fixture_ref: match m.local_fixture_ref {
            Some(f) => Some(trimmed(f)),
            None => None,
        },
        untrusted: m.untrusted,
        package: m.package,
    }
}

/// The validation error of an optional package.
pub open spec fn optional_package_error(p: Option<PackageView>) -> Option<Seq<char>> {
    match p {
        Some(q) => package_error(q),
        None => None,
    }
}

/// What admitting a manifest gives: the first rule it breaks, in the order checked, or the
/// normalized manifest when its stored text fits in 8192 bytes.
pub open spec fn manifest_normalization(m: ManifestView) -> Result<ManifestView, Seq<char>> {
    if !extension_id_valid(m.extension_id) {
        Err("extension_id_invalid"@)
    } else if m.manifest_version != EXTENSION_MANIFEST_VERSION {
        Err("extension_manifest_invalid"@)
    } else if m.sdk_version != AIP_EXTENSION_SDK_VERSION@ {
        Err("extension_sdk_incompatible"@)
    } else if !extension_version_valid(m.extension_version) {
        Err("extension_version_invalid"@)
    } else if !text_valid(m.name, 160) {
        Err("extension_text_invalid"@)
    } else if m.sandbox_policy != ExtensionSandboxPolicy::MetadataOnly {
        Err("extension_sandbox_invalid"@)
    } else if m.admission_policy != ExtensionAdmissionPolicy::LocalFixtureOnly {
        Err("extension_admission_denied"@)
    } else if !m.untrusted {
        Err("extension_untrusted_required"@)
    } else if !capabilities_valid(m.capabilities) {
        Err("extension_capability_invalid"@)
    } else if m.local_fixture_ref matches Some(f) && !fixture_ref_valid(f) {
        Err("extension_fixture_invalid"@)
    } else if optional_package_error(m.package) is Some {
        Err(optional_package_error(m.package)->0)
    } else if byte_len(manifest_json(normalized_fields(m))) > MAX_EXTENSION_MANIFEST_BYTES {
        Err("extension_manifest_oversized"@)
    } else {
        Ok(normalized_fields(m))
    }
}

/// Admits a manifest (see `manifest_normalization`).
pub fn normalize_manifest(manifest: ExtensionManifest) -> (r: Result<
    ExtensionManifest,
    DatabaseError,
>)
    ensures
        match (r, manifest_normalization(manifest@)) {
            (Ok(v), Ok(x)) => v@ == x,
            (Err(DatabaseError::Cognitive(c)), Err(x)) => c@ == x,
            _ => false,
        },
{
    let ghost m = manifest@;
    let ExtensionManifest {
        extension_id,
        manifest_version,
        extension_version,
        sdk_version,
        name,
        sandbox_policy,
        admission_policy,
        capabilities,
        local_fixture_ref,
        untrusted,
        package,
    } = manifest;
    match validate_extension_id(extension_id.as_str()) {
        Ok(()) => {},
        Err(e) => return Err(e),
    }
    if manifest_version != EXTENSION_MANIFEST_VERSION {
        return Err(DatabaseError::Cognitive("extension_manifest_invalid"));
    }
    if !text_equal(sdk_version.as_str(), AIP_EXTENSION_SDK_VERSION) {
        return Err(DatabaseError::Cognitive("extension_sdk_incompatible"));
    }
    match validate_extension_version(extension_version.as_str()) {
        Ok(()) => {},
        Err(e) => return Err(e),
    }
    let name = match validate_text(name.as_str(), 160) {
        Ok(t) => t,
        Err(e) => return Err(e),
    };
    if sandbox_policy != ExtensionSandboxPolicy::MetadataOnly {
        return Err(DatabaseError::Cognitive("extension_sandbox_invalid"));
    }
    if admission_policy != ExtensionAdmissionPolicy::LocalFixtureOnly {
        return Err(DatabaseError::Cognitive("extension_admission_denied"));
    }
    if !untrusted {
        return Err(DatabaseError::Cognitive("extension_untrusted_required"));
    }
    let capabilities = match normalize_capabilities(capabilities) {
        Ok(v) => v,
        Err(e) => return Err(e),
    };
    let local_fixture_ref = match local_fixture_ref {
        Some(f) => match validate_fixture_ref(f.as_str()) {
            Ok(t) => Some(t),
            Err(e) => return Err(e),
        },
        None => None,
    };
    match &package {
        Some(p) => match validate_package(p) {
            Ok(()) => {},
            Err(e) => return Err(e),
        },
        None => {},
    }
    let result = ExtensionManifest {
        extension_id,
        manifest_version,
        extension_version,
        sdk_version,
        name,
        sandbox_policy,
        admission_policy,
        capabilities,
        local_fixture_ref,
        untrusted,
        package,
    };
    assert(result@ == normalized_fields(m));
    let json = manifest_json_text(&result);
    if json.as_str().len() > MAX_EXTENSION_MANIFEST_BYTES {
        return Err(DatabaseError::Cognitive("extension_manifest_oversized"));
    }
    Ok(result)
}

/// A manifest that normalization admits is compatible, and normalizing it again gives it back
/// unchanged: what is stored always re-admits as itself.
pub proof fn law_normalized_manifest_is_stable(m: ManifestView)
    requires
        manifest_normalization(m) is Ok,
    ensures
        manifest_compatible(manifest_normalization(m)->Ok_0),
        manifest_normalization(manifest_normalization(m)->Ok_0) == manifest_normalization(m),
{
    let n = normalized_fields(m);
    crate::text::lemma_trimmed_idempotent(m.name);
    if let Some(f) = m.local_fixture_ref {
        crate::text::lemma_trimmed_idempotent(f);
    }
    lemma_canonical_capabilities_stable(m.capabilities);
    assert(normalized_fields(n) == n);
}

/// Putting capabilities in stored order twice is putting them in order once, and the result
/// is always an accepted list.
pub proof fn lemma_canonical_capabilities_stable(caps: Seq<ExtensionCapability>)
    ensures
        canonical_capabilities(canonical_capabilities(caps)) == canonical_capabilities(caps),
        capabilities_valid(canonical_capabilities(caps)),
{
    let c = canonical_capabilities(caps);
    assert(forall|x: ExtensionCapability| c.contains(x) <==> caps.contains(x)) by {
        assert forall|x: ExtensionCapability| c.contains(x) <==> caps.contains(x) by {
            if caps.contains(x) {
                match x {
                    ExtensionCapability::AgentContext => assert(c[0] == x),
                    ExtensionCapability::OwnerReview => {
                        if caps.contains(ExtensionCapability::AgentContext) {
                            assert(c[1] == x);
                        } else {
                            assert(c[0] == x);
                        }
                    },
                    ExtensionCapability::ToolCatalog => assert(c[c.len() - 1] == x),
                }
            }
            if c.contains(x) {
                let j = choose|j: int| 0 <= j < c.len() && c[j] == x;
                assert(c[j] == x);
            }
        }
    }
    assert(canonical_capabilities(c) =~= c);
}

/// The source rules of a proposal: an administrator selection names no proposing agent; an
/// agent creation names the requesting agent as its proposer. Gives the proposer to record.
/// (That the proposer belongs to the Owner is checked against the store.)
pub fn validate_source(
    source_kind: ExtensionSourceKind,
    proposer_agent_id: Option<&str>,
    requesting_agent_id: &str,
) -> (r: Result<Option<String>, DatabaseError>)
    ensures
        match source_kind {
            ExtensionSourceKind::AdministratorSelected => (r is Ok <==> proposer_agent_id is None)
                && (r matches Ok(p) ==> p is None),
            ExtensionSourceKind::AgentCreated => (r is Ok <==> (proposer_agent_id matches Some(p)
                && p@ == requesting_agent_id@)) && (r matches Ok(p) ==> (p matches Some(q) && q@
                == requesting_agent_id@)),
        },
        r is Err ==> (r matches Err(DatabaseError::Cognitive(c)) && c@ == "extension_source_invalid"@),
{
    match source_kind {
        ExtensionSourceKind::AdministratorSelected => match proposer_agent_id {
            Some(_) => Err(DatabaseError::Cognitive("extension_source_invalid")),
            None => Ok(None),
        },
        ExtensionSourceKind::AgentCreated => match proposer_agent_id {
            None => Err(DatabaseError::Cognitive("extension_source_invalid")),
            Some(p) => {
                if !text_equal(p, requesting_agent_id) {
                    Err(DatabaseError::Cognitive("extension_source_invalid"))
                } else {
                    Ok(Some(p.to_string()))
                }
            },
        },
    }
}

/// An agent's own proposal: an agent-created proposal whose proposer is the requesting agent.
pub fn agent_proposal_request(request: ExtensionAgentProposalRequest) -> (r: ExtensionProposalRequest)
    ensures
        r.agent_id@ == request.agent_id@,
        r.owner_user_id == request.owner_user_id,
        r.source_kind == ExtensionSourceKind::AgentCreated,
        r.proposer_agent_id matches Some(p) && p@ == request.agent_id@,
        r.manifest == request.manifest,
        r.idempotency_key == request.idempotency_key,
        r.temporary_chat == request.temporary_chat,
{
    let proposer = request.agent_id.as_str().to_string();
    ExtensionProposalRequest {
        agent_id: request.agent_id,
        owner_user_id: request.owner_user_id,
        source_kind: ExtensionSourceKind::AgentCreated,
        proposer_agent_id: Some(proposer),
        manifest: request.manifest,
        idempotency_key: request.idempotency_key,
        temporary_chat: request.temporary_chat,
    }
}

/// A proposal's view for the review and activation rules.
pub struct ProposalView {
    pub extension_id: Seq<char>,
    pub revision: i64,
    pub source_kind: ExtensionSourceKind,
    pub proposer_agent_id: Option<Seq<char>>,
    pub status: ExtensionProposalStatus,
    pub review_status: ExtensionReviewStatus,
    pub capabilities: Seq<ExtensionCapability>,
    pub permissions: Seq<ExtensionPermissionRequest>,
    pub compatible: bool,
}

impl View for ExtensionProposal {
    type V = ProposalView;

    open spec fn view(&self) -> ProposalView {
        ProposalView {
            extension_id: self.extension_id@,
            revision: self.revision,
            source_kind: self.source_kind,
            proposer_agent_id: opt_text_view(self.proposer_agent_id),
            status: self.status,
            review_status: self.review_status,
            capabilities: self.manifest.capabilities@,
            permissions: self.permissions@,
            compatible: self.compatible,
        }
    }
}

/// Whether the Owner's review of a proposal may be recorded, and if not, why: only a pending,
/// compatible proposal is reviewed; an agent never reviews its own proposal; a rejection
/// grants nothing and gives a reason; an approval grants only requested capabilities.
pub open spec fn review_error(
    p: ProposalView,
    reviewer: Seq<char>,
    approved: bool,
    granted: Seq<ExtensionCapability>,
    has_reason: bool,
) -> Option<Seq<char>> {
    if p.status != ExtensionProposalStatus::Pending {
        Some("extension_proposal_invalid"@)
    } else if p.source_kind == ExtensionSourceKind::AgentCreated && p.proposer_agent_id == Some(
        reviewer,
    ) {
        Some("extension_proposal_self_review"@)
    } else if !p.compatible {
        Some("extension_sdk_incompatible"@)
    } else if !approved && granted.len() > 0 {
        Some("extension_permission_invalid"@)
    } else if approved && exists|k: int|
        0 <= k < granted.len() && !p.capabilities.contains(#[trigger] granted[k]) {
        Some("extension_permission_invalid"@)
    } else if !approved && !has_reason {
        Some("extension_review_reason_required"@)
    } else {
        None
    }
}

fn all_requested(granted: &Vec<ExtensionCapability>, requested: &Vec<ExtensionCapability>) -> (r:
    bool)
    ensures
        r == !(exists|k: int| 0 <= k < granted@.len() && !requested@.contains(#[trigger] granted@[k])),
{
    let n = granted.len();
    let mut k: usize = 0;
    while k < n
        invariant
            n == granted@.len(),
            k <= n,
            forall|j: int| 0 <= j < k ==> requested@.contains(#[trigger] granted@[j]),
        decreases n - k,
    {
        if !has_capability(requested.as_slice(), granted[k]) {
            return false;
        }
        k = k + 1;
    }
    true
}

/// Extension operations are refused while safe mode is on.
pub fn ensure_extensions_enabled(safe_mode: bool) -> (r: Result<(), DatabaseError>)
    ensures
        r is Ok <==> !safe_mode,
        r is Err ==> (r matches Err(DatabaseError::Cognitive(c)) && c@
            == "extensions_blocked_safe_mode"@),
{
    if safe_mode {
        Err(DatabaseError::Cognitive("extensions_blocked_safe_mode"))
    } else {
        Ok(())
    }
}

/// Checks a review request against the proposal it reviews: refused in safe mode, then as
/// `review_error` says.
pub fn review_decision(
    safe_mode: bool,
    proposal: &ExtensionProposal,
    request: &ExtensionReviewRequest,
) -> (r: Result<(), DatabaseError>)
    ensures
        safe_mode ==> (r matches Err(DatabaseError::Cognitive(c)) && c@
            == "extensions_blocked_safe_mode"@),
        !safe_mode ==> match review_error(
            proposal@,
            request.agent_id@,
            request.approved,
            request.approved_capabilities@,
            request.reason is Some,
        ) {
            None => r is Ok,
            Some(e) => r matches Err(DatabaseError::Cognitive(c)) && c@ == e,
        },
{
    ensure_extensions_enabled(safe_mode)?;
    if proposal.status != ExtensionProposalStatus::Pending {
        return Err(DatabaseError::Cognitive("extension_proposal_invalid"));
    }
    if proposal.source_kind == ExtensionSourceKind::AgentCreated {
        match &proposal.proposer_agent_id {
            Some(p) => {
                if text_equal(p.as_str(), request.agent_id.as_str()) {
                    return Err(DatabaseError::Cognitive("extension_proposal_self_review"));
                }
            },
            None => {},
        }
    }
    if !proposal.compatible {
        return Err(DatabaseError::Cognitive("extension_sdk_incompatible"));
    }
    if !request.approved && request.approved_capabilities.len() > 0 {
        return Err(DatabaseError::Cognitive("extension_permission_invalid"));
    }
    if request.approved && !all_requested(
        &request.approved_capabilities,
        &proposal.manifest.capabilities,
    ) {
        return Err(DatabaseError::Cognitive("extension_permission_invalid"));
    }
    if !request.approved && request.reason.is_none() {
        return Err(DatabaseError::Cognitive("extension_review_reason_required"));
    }
    Ok(())
}

/// The permission recorded for a requested capability after a review: approved only when the
/// review approves and grants it.
pub fn review_permission_status(
    approved: bool,
    granted: &Vec<ExtensionCapability>,
    capability: ExtensionCapability,
) -> (r: ExtensionPermissionStatus)
    ensures
        r == (if approved && granted@.contains(capability) {
            ExtensionPermissionStatus::Approved
        } else {
            ExtensionPermissionStatus::Denied
        }),
{
    if approved && has_capability(granted.as_slice(), capability) {
        ExtensionPermissionStatus::Approved
    } else {
        ExtensionPermissionStatus::Denied
    }
}

/// The statuses a review leaves: the proposal's, its manifest revision's, and the catalog
/// lifecycle's.
pub fn review_outcome(approved: bool) -> (r: (
    ExtensionProposalStatus,
    ExtensionReviewStatus,
    ExtensionLifecycle,
))
    ensures
        approved ==> r == (
            ExtensionProposalStatus::Approved,
            ExtensionReviewStatus::Approved,
            ExtensionLifecycle::Approved,
        ),
        !approved ==> r == (
            ExtensionProposalStatus::Rejected,
            ExtensionReviewStatus::Rejected,
            ExtensionLifecycle::Rejected,
        ),
{
    if approved {
        (
            ExtensionProposalStatus::Approved,
            ExtensionReviewStatus::Approved,
            ExtensionLifecycle::Approved,
        )
    } else {
        (
            ExtensionProposalStatus::Rejected,
            ExtensionReviewStatus::Rejected,
            ExtensionLifecycle::Rejected,
        )
    }
}

/// Whether a proposal may be activated as the catalog's current revision, and if not, why:
/// it must be that revision of that extension, approved on both counts, compatible, and
/// without a pending permission.
pub open spec fn activation_error(p: ProposalView, extension_id: Seq<char>, current_revision: i64) -> Option<
    Seq<char>,
> {
    if p.extension_id != extension_id || p.revision != current_revision {
        Some("extension_update_requires_review"@)
    } else if p.status != ExtensionProposalStatus::Approved || p.review_status
        != ExtensionReviewStatus::Approved {
        Some("extension_review_required"@)
    } else if !p.compatible {
        Some("extension_sdk_incompatible"@)
    } else if exists|k: int|
        0 <= k < p.permissions.len() && (#[trigger] p.permissions[k]).status
            == ExtensionPermissionStatus::Pending {
        Some("extension_permission_required"@)
    } else {
        None
    }
}

/// Checks an activation: refused in safe mode, then as `activation_error` says.
pub fn activation_decision(
    safe_mode: bool,
    proposal: &ExtensionProposal,
    extension_id: &str,
    current_revision: i64,
) -> (r: Result<(), DatabaseError>)
    ensures
        safe_mode ==> (r matches Err(DatabaseError::Cognitive(c)) && c@
            == "extensions_blocked_safe_mode"@),
        !safe_mode ==> match activation_error(proposal@, extension_id@, current_revision) {
            None => r is Ok,
            Some(e) => r matches Err(DatabaseError::Cognitive(c)) && c@ == e,
        },
{
    ensure_extensions_enabled(safe_mode)?;
    if !text_equal(proposal.extension_id.as_str(), extension_id) || proposal.revision
        != current_revision {
        return Err(DatabaseError::Cognitive("extension_update_requires_review"));
    }
    if proposal.status != ExtensionProposalStatus::Approved || proposal.review_status
        != ExtensionReviewStatus::Approved {
        return Err(DatabaseError::Cognitive("extension_review_required"));
    }
    if !proposal.compatible {
        return Err(DatabaseError::Cognitive("extension_sdk_incompatible"));
    }
    let n = proposal.permissions.len();
    let mut k: usize = 0;
    while k < n
        invariant
            !safe_mode,
            n == proposal.permissions@.len(),
            proposal@.extension_id == extension_id@,
            proposal.revision == current_revision,
            proposal.status == ExtensionProposalStatus::Approved,
            proposal.review_status == ExtensionReviewStatus::Approved,
            proposal.compatible,
            k <= n,
            forall|j: int|
                0 <= j < k ==> (#[trigger] proposal.permissions@[j]).status
                    != ExtensionPermissionStatus::Pending,
        decreases n - k,
    {
        if proposal.permissions[k].status == ExtensionPermissionStatus::Pending {
            assert(proposal@.permissions[k as int].status == ExtensionPermissionStatus::Pending);
            return Err(DatabaseError::Cognitive("extension_permission_required"));
        }
        k = k + 1;
    }
    Ok(())
}

/// Whether a rollback to `target_revision` may happen, and if not, why: the target is a
/// revision before the current one whose approved proposal (`target`) is approved and
/// compatible.
pub open spec fn rollback_error(
    target_revision: i64,
    current_revision: i64,
    target: Option<ProposalView>,
) -> Option<Seq<char>> {
    if target_revision < 1 {
        Some("extension_revision_invalid"@)
    } else if target_revision >= current_revision {
        Some("extension_rollback_unavailable"@)
    } else {
        match target {
            None => Some("extension_rollback_unavailable"@),
            Some(p) => if p.review_status != ExtensionReviewStatus::Approved || !p.compatible {
                Some("extension_rollback_unavailable"@)
            } else {
                None
            },
        }
    }
}

/// Checks a rollback: refused in safe mode, then as `rollback_error` says.
pub fn rollback_decision(
    safe_mode: bool,
    target_revision: i64,
    current_revision: i64,
    target: Option<&ExtensionProposal>,
) -> (r: Result<(), DatabaseError>)
    ensures
        safe_mode ==> (r matches Err(DatabaseError::Cognitive(c)) && c@
            == "extensions_blocked_safe_mode"@),
        !safe_mode ==> match rollback_error(
            target_revision,
            current_revision,
            match target {
                Some(p) => Some(p@),
                None => None,
            },
        ) {
            None => r is Ok,
            Some(e) => r matches Err(DatabaseError::Cognitive(c)) && c@ == e,
        },
{
    ensure_extensions_enabled(safe_mode)?;
    if target_revision < 1 {
        return Err(DatabaseError::Cognitive("extension_revision_invalid"));
    }
    if target_revision >= current_revision {
        return Err(DatabaseError::Cognitive("extension_rollback_unavailable"));
    }
    match target {
        None => Err(DatabaseError::Cognitive("extension_rollback_unavailable")),
        Some(p) => {
            if p.review_status != ExtensionReviewStatus::Approved || !p.compatible {
                Err(DatabaseError::Cognitive("extension_rollback_unavailable"))
            } else {
                Ok(())
            }
        },
    }
}

/// An update names the extension its manifest describes.
pub fn check_update_identity(extension_id: &str, manifest: &ExtensionManifest) -> (r: Result<
    (),
    DatabaseError,
>)
    ensures
        r is Ok <==> extension_id@ == manifest.extension_id@,
        r is Err ==> (r matches Err(DatabaseError::Cognitive(c)) && c@
            == "extension_identity_invalid"@),
{
    if text_equal(extension_id, manifest.extension_id.as_str()) {
        Ok(())
    } else {
        Err(DatabaseError::Cognitive("extension_identity_invalid"))
    }
}

/// An update keeps the extension's source and gives a revision that fits in an `i32`.
pub fn check_update_revision(
    current_source: ExtensionSourceKind,
    requested_source: ExtensionSourceKind,
    next_revision: i64,
) -> (r: Result<(), DatabaseError>)
    ensures
        current_source != requested_source ==> (r matches Err(DatabaseError::Cognitive(c)) && c@
            == "extension_source_invalid"@),
        current_source == requested_source && next_revision > i32::MAX ==> (r matches Err(
            DatabaseError::Cognitive(c),
        ) && c@ == "extension_revision_invalid"@),
        current_source == requested_source && next_revision <= i32::MAX ==> r is Ok,
{
    if current_source != requested_source {
        return Err(DatabaseError::Cognitive("extension_source_invalid"));
    }
    if next_revision > 2_147_483_647i64 {
        return Err(DatabaseError::Cognitive("extension_revision_invalid"));
    }
    Ok(())
}

/// The request-level rules of an execution, checked before the store is read: not in a
/// temporary chat; by the Owner, with an input of at most 4096 bytes and an idempotency key of
/// at most 128 bytes.
pub fn execution_request_check(request: &ExtensionExecutionRequest) -> (r: Result<(), DatabaseError>)
    ensures
        request.temporary_chat ==> (r matches Err(DatabaseError::Cognitive(c)) && c@
            == "extensions_blocked_temporary"@),
        !request.temporary_chat && (request.owner_user_id@ != OWNER_ID@ || byte_len(
            request.input@,
        ) > MAX_EXECUTION_INPUT_BYTES || byte_len(request.idempotency_key@) > 128) ==> (r matches Err(
            DatabaseError::Cognitive(c),
        ) && c@ == "extension_execution_denied"@),
        !request.temporary_chat && request.owner_user_id@ == OWNER_ID@ && byte_len(request.input@)
            <= MAX_EXECUTION_INPUT_BYTES && byte_len(request.idempotency_key@) <= 128 ==> r is Ok,
{
    match ensure_not_temporary(request.temporary_chat) {
        Ok(()) => {},
        Err(e) => return Err(e),
    }
    if !text_equal(request.owner_user_id.as_str(), OWNER_ID) || request.input.as_str().len()
        > MAX_EXECUTION_INPUT_BYTES || request.idempotency_key.as_str().len() > 128 {
        return Err(DatabaseError::Cognitive("extension_execution_denied"));
    }
    Ok(())
}

/// An agent that is suspended or in safe mode runs no extension.
pub fn check_agent_may_execute(mode: &str, suspended: bool) -> (r: Result<(), DatabaseError>)
    ensures
        r is Ok <==> !suspended && mode@ != "safe"@,
        r is Err ==> (r matches Err(DatabaseError::Cognitive(c)) && c@
            == "extension_execution_blocked_suspended"@),
{
    if suspended || text_equal(mode, "safe") {
        Err(DatabaseError::Cognitive("extension_execution_blocked_suspended"))
    } else {
        Ok(())
    }
}

/// Only an active, untrusted catalog entry runs, and only at its active revision.
pub fn check_catalog_executable(
    lifecycle: ExtensionLifecycle,
    active_revision: Option<i64>,
    untrusted: bool,
    revision: i64,
) -> (r: Result<(), DatabaseError>)
    ensures
        r is Ok <==> (lifecycle == ExtensionLifecycle::Active && active_revision == Some(revision)
            && untrusted),
        r is Err ==> (r matches Err(DatabaseError::Cognitive(c)) && c@
            == "extension_execution_denied"@),
{
    let at_revision = match active_revision {
        Some(v) => v == revision,
        None => false,
    };
    if lifecycle != ExtensionLifecycle::Active || !at_revision || !untrusted {
        Err(DatabaseError::Cognitive("extension_execution_denied"))
    } else {
        Ok(())
    }
}

/// The package an execution runs: a metadata-only manifest has none.
pub fn executable_package(manifest: &ExtensionManifest) -> (r: Result<&ExtensionPackage, DatabaseError>)
    ensures
        match manifest.package {
            Some(p) => r == Ok::<&ExtensionPackage, DatabaseError>(&p),
            None => r matches Err(DatabaseError::Cognitive(c)) && c@ == "extension_package_required"@,
        },
{
    match &manifest.package {
        Some(p) => Ok(p),
        None => Err(DatabaseError::Cognitive("extension_package_required")),
    }
}

/// `c` with ASCII upper-case letters lower-cased.
pub open spec fn ascii_lower(c: char) -> char {
    if 'A' <= c && c <= 'Z' {
        ((c as u32) + 32) as char
    } else {
        c
    }
}

/// The package an execution names must be the one stored: its hash equals the requested hash
/// lower-cased.
pub fn check_package_integrity(package: &ExtensionPackage, requested_hash: &str) -> (r: Result<
    (),
    DatabaseError,
>)
    ensures
        r is Ok <==> package_hash(package@) == requested_hash@.map_values(|c: char| ascii_lower(c)),
        r is Err ==> (r matches Err(DatabaseError::Cognitive(c)) && c@
            == "extension_integrity_mismatch"@),
{
    let hash = match extension_package_hash(package) {
        Ok(h) => h,
        Err(e) => return Err(e),
    };
    let ghost lowered = requested_hash@.map_values(|c: char| ascii_lower(c));
    let h = hash.as_str();
    let n = h.unicode_len();
    if n != requested_hash.unicode_len() {
        return Err(DatabaseError::Cognitive("extension_integrity_mismatch"));
    }
    let mut k: usize = 0;
    while k < n
        invariant
            n == h@.len(),
            n == requested_hash@.len(),
            h@ == package_hash(package@),
            lowered == requested_hash@.map_values(|c: char| ascii_lower(c)),
            k <= n,
            forall|j: int| 0 <= j < k ==> h@[j] == lowered[j],
        decreases n - k,
    {
        let c = requested_hash.get_char(k);
        let expected = h.get_char(k);
        let same = if 'A' <= c && c <= 'Z' {
            (c as u32) + 32 == (expected as u32)
        } else {
            c == expected
        };
        if !same {
            assert(h@[k as int] != lowered[k as int]);
            return Err(DatabaseError::Cognitive("extension_integrity_mismatch"));
        }
        k = k + 1;
    }
    assert(h@ =~= lowered);
    Ok(())
}

/// How an execution ended.
#[derive(Debug, Clone, Copy, PartialEq, Eq, Structural)]
pub enum ExecutionStatus {
    Succeeded,
    Failed,
    Terminated,
}

impl ExecutionStatus {
    pub open spec fn spec_name(self) -> Seq<char> {
        match self {
            ExecutionStatus::Succeeded => "succeeded"@,
            ExecutionStatus::Failed => "failed"@,
            ExecutionStatus::Terminated => "terminated"@,
        }
    }

    pub fn as_str(self) -> (r: &'static str)
        ensures
            r@ == self.spec_name(),
    {
        match self {
            ExecutionStatus::Succeeded => "succeeded",
            ExecutionStatus::Failed => "failed",
            ExecutionStatus::Terminated => "terminated",
        }
    }
}

/// An execution in progress: one instruction runs per step, as a package of its own.
#[derive(Debug)]
pub struct ExtensionRun {
    pub output: String,
    pub steps: i64,
    pub status: ExecutionStatus,
    pub error: Option<String>,
}

/// The package that one step runs: the instruction alone, with its own integrity hash.
pub open spec fn step_package(p: PackageView, i: InstructionView) -> PackageView {
    let bare = PackageView {
        format: p.format,
        entrypoint: p.entrypoint,
        instructions: seq![i],
        integrity_sha256: Seq::empty(),
    };
    PackageView {
        format: p.format,
        entrypoint: p.entrypoint,
        instructions: seq![i],
        integrity_sha256: package_hash(bare),
    }
}

fn duplicate_instruction(i: &ExtensionInstruction) -> (r: ExtensionInstruction)
    ensures
        r@ == i@,
{
    match i {
        ExtensionInstruction::EmitText { text, echo_input } => ExtensionInstruction::EmitText {
            text: match text {
                Some(t) => Some(t.clone()),
                None => None,
            },
            echo_input: *echo_input,
        },
        ExtensionInstruction::ReadAgentContext => ExtensionInstruction::ReadAgentContext,
        ExtensionInstruction::ListToolCatalog => ExtensionInstruction::ListToolCatalog,
        ExtensionInstruction::Yield => ExtensionInstruction::Yield,
    }
}

impl ExtensionRun {
    /// A run that has not started: no output, no steps, nothing failed yet.
    pub fn new() -> (r: Self)
        ensures
            r.output@ == Seq::<char>::empty(),
            r.steps == 0,
            r.status == ExecutionStatus::Succeeded,
            r.error is None,
    {
        ExtensionRun {
            output: String::new(),
            steps: 0,
            status: ExecutionStatus::Succeeded,
            error: None,
        }
    }

    /// Runs instruction `k` of `package`, given the time spent so far and whether the run was
    /// cancelled; says whether the run goes on. The step counts first; then a run over 32
    /// steps or 5000 ms, or a cancelled one, is terminated; then the instruction runs alone
    /// (see `interpretation` and `step_package`) and its output is appended, the run failing
    /// with the interpreter's error or when the output passes 8192 bytes.
    pub fn step(
        &mut self,
        package: &ExtensionPackage,
        k: usize,
        elapsed_ms: i64,
        cancelled: bool,
        input: &str,
        approved: &[ExtensionCapability],
        host: &ExtensionHostContext,
    ) -> (go_on: bool)
        requires
            old(self).status == ExecutionStatus::Succeeded,
            old(self).error is None,
            0 <= old(self).steps < i64::MAX,
            k < package.instructions@.len(),
        ensures
            final(self).steps == old(self).steps + 1,
            ({
                let steps = old(self).steps + 1;
                let limited = steps > MAX_EXECUTION_STEPS || elapsed_ms > MAX_EXECUTION_MS;
                let single = step_package(package@, package@.instructions[k as int]);
                let outcome = interpretation(single, input@, approved@, host@);
                if limited {
                    &&& !go_on
                    &&& final(self).status == ExecutionStatus::Terminated
                    &&& final(self).error matches Some(e) && e@ == "extension_execution_limit"@
                    &&& final(self).output@ == old(self).output@
                } else if cancelled {
                    &&& !go_on
                    &&& final(self).status == ExecutionStatus::Terminated
                    &&& final(self).error matches Some(e) && e@ == "extension_execution_cancelled"@
                    &&& final(self).output@ == old(self).output@
                } else {
                    match outcome {
                        Ok(part) => if byte_len(old(self).output@ + part)
                            > MAX_EXECUTION_OUTPUT_BYTES {
                            &&& !go_on
                            &&& final(self).status == ExecutionStatus::Failed
                            &&& final(self).error matches Some(e) && e@
                                == "extension_output_oversized"@
                        } else {
                            &&& go_on
                            &&& final(self).status == ExecutionStatus::Succeeded
                            &&& final(self).error is None
                            &&& final(self).output@ == old(self).output@ + part
                        },
                        Err(code) => {
                            &&& !go_on
                            &&& final(self).status == ExecutionStatus::Failed
                            &&& final(self).error matches Some(e) && e@ == code
                            &&& final(self).output@ == old(self).output@
                        },
                    }
                }
            }),
    {
        self.steps = self.steps + 1;
        if self.steps > 32 || elapsed_ms > MAX_EXECUTION_MS {
            self.status = ExecutionStatus::Terminated;
            self.error = Some("extension_execution_limit".to_string());
            return false;
        }
        if cancelled {
            self.status = ExecutionStatus::Terminated;
            self.error = Some("extension_execution_cancelled".to_string());
            return false;
        }
        let ghost i = package@.instructions[k as int];
        let mut only: Vec<ExtensionInstruction> = Vec::new();
        only.push(duplicate_instruction(&package.instructions[k]));
        let mut single = ExtensionPackage {
            format: package.format.clone(),
            entrypoint: package.entrypoint.clone(),
            instructions: only,
            integrity_sha256: String::new(),
        };
        assert(single@.instructions =~= seq![i]);
        let hash = match extension_package_hash(&single) {
            Ok(h) => h,
            Err(_) => return false,
        };
        single.integrity_sha256 = hash;
        assert(single@.instructions =~= seq![i]);
        assert(single@ == step_package(package@, i));
        match interpret_extension_package(&single, input, approved, host) {
            Ok(part) => {
                self.output.append(part.as_str());
                if self.output.as_str().len() > MAX_EXECUTION_OUTPUT_BYTES {
                    self.status = ExecutionStatus::Failed;
                    self.error = Some("extension_output_oversized".to_string());
                    return false;
                }
                true
            },
            Err(e) => {
                self.status = ExecutionStatus::Failed;
                self.error = Some(e.code().to_string());
                false
            },
        }
    }

    /// The result of a finished run: its output only when it succeeded.
    pub fn finish(self, execution_id: String) -> (r: ExtensionExecutionResult)
        ensures
            r.execution_id == execution_id,
            r.status@ == self.status.spec_name(),
            self.status == ExecutionStatus::Succeeded ==> (r.output matches Some(o) && o@
                == self.output@),
            self.status != ExecutionStatus::Succeeded ==> r.output is None,
            r.error == self.error,
            r.steps == self.steps,
    {
        let status = self.status.as_str().to_string();
        let output = match self.status {
            ExecutionStatus::Succeeded => Some(self.output),
            _ => None,
        };
        ExtensionExecutionResult {
            execution_id,
            status,
            output,
            error: self.error,
            steps: self.steps,
        }
    }
}

proof fn lemma_run_output_bounded(
    s: Seq<InstructionView>,
    n: nat,
    input: Seq<char>,
    caps: Seq<ExtensionCapability>,
    host: HostView,
)
    ensures
        run_instructions(s, n, input, caps, host) matches Ok(o) ==> byte_len(o)
            <= MAX_EXECUTION_OUTPUT_BYTES,
    decreases n,
{
    if n > 0 {
        lemma_run_output_bounded(s, (n - 1) as nat, input, caps, host);
    } else {
        assert(encode_utf8(Seq::<char>::empty()) =~= Seq::<u8>::empty());
    }
}

/// Whatever a package emits, a successful interpretation never returns more than 8192 bytes.
pub proof fn law_interpretation_output_is_bounded(
    p: PackageView,
    input: Seq<char>,
    caps: Seq<ExtensionCapability>,
    host: HostView,
)
    ensures
        interpretation(p, input, caps, host) matches Ok(o) ==> byte_len(o)
            <= MAX_EXECUTION_OUTPUT_BYTES,
{
    lemma_run_output_bounded(p.instructions, p.instructions.len(), input, caps, host);
}

/// A package that reads the host without the matching approved capability never runs to the
/// end: its interpretation fails.
pub proof fn law_host_reads_need_an_approved_capability(
    p: PackageView,
    input: Seq<char>,
    caps: Seq<ExtensionCapability>,
    host: HostView,
    j: int,
)
    requires
        0 <= j < p.instructions.len(),
        !instruction_permitted(p.instructions[j], caps),
    ensures
        interpretation(p, input, caps, host) is Err,
{
    let s = p.instructions;
    let m = (j + 1) as nat;
    assert(run_instructions(s, m, input, caps, host) is Err);
    lemma_run_error_persists(s, m, s.len(), input, caps, host);
}

/// A package whose carried hash is not the hash of its contents (a tampered package) is
/// refused before any instruction runs.
pub proof fn law_tampered_package_is_refused(
    p: PackageView,
    input: Seq<char>,
    caps: Seq<ExtensionCapability>,
    host: HostView,
)
    requires
        p.integrity_sha256 != package_hash(p),
    ensures
        interpretation(p, input, caps, host) == Err::<Seq<char>, Seq<char>>(
            "extension_package_invalid"@,
        ),
{
}

/// The stored order of capabilities depends only on which capabilities are listed, not on
/// the order or the repeats in the list.
pub proof fn law_capability_order_does_not_matter(
    a: Seq<ExtensionCapability>,
    b: Seq<ExtensionCapability>,
)
    requires
        forall|c: ExtensionCapability| a.contains(c) <==> b.contains(c),
    ensures
        canonical_capabilities(a) == canonical_capabilities(b),
{
}

} // verus!
