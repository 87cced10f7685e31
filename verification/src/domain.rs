//! The records that the desktop shell exchanges, and the life cycles of messages and of the
//! local runtime.
use vstd::prelude::*;

use crate::text::text_equal;

verus! {

pub const MAX_USER_MESSAGE_BYTES: usize = 16_384;
pub const MAX_HISTORY_MESSAGES: usize = 32;
pub const MAX_CONTEXT_BYTES: usize = 49_152;
pub const MAX_STREAM_CHUNK_BYTES: usize = 8_192;
pub const MAX_ASSISTANT_OUTPUT_BYTES: usize = 65_536;
pub const MAX_QUEUE_LENGTH: usize = 8;
pub const MAX_DISCOVERED_MODELS: usize = 64;
pub const MAX_PROVIDER_ERROR_BYTES: usize = 256;
pub const DEFAULT_KEEP_ALIVE_MINUTES: u32 = 15;
pub const MAX_KEEP_ALIVE_MINUTES: u32 = 120;

#[derive(Debug, Clone, Copy, PartialEq, Eq, Structural)]
pub enum RuntimeState {
    Stopped,
    Starting,
    Ready,
    Unavailable,
    Crashed,
    SafeMode,
}

#[derive(Debug, Clone, PartialEq, Eq)]
pub struct RuntimeStatus {
    pub state: RuntimeState,
    pub protocol_version: Option<u32>,
    pub detail_code: &'static str,
}

impl RuntimeStatus {
    /// The status of a runtime that has not been started.
    pub fn stopped() -> (r: Self)
        ensures
            r.state == RuntimeState::Stopped,
            r.protocol_version is None,
            r.detail_code@ == "runtime_stopped"@,
    {
        RuntimeStatus {
            state: RuntimeState::Stopped,
            protocol_version: None,
            detail_code: "runtime_stopped",
        }
    }
}

#[derive(Debug, Clone, Copy, PartialEq, Eq, Structural)]
pub enum ProviderState {
    Checking,
    Available,
    Empty,
    Unavailable,
    Malformed,
    Timeout,
}

#[derive(Debug, Clone, PartialEq, Eq)]
pub struct OllamaModel {
    pub model_ref: String,
    pub provider_model_id: String,
    pub display_name: String,
    pub size: u64,
    pub family: Option<String>,
    pub parameter_size: Option<String>,
    pub quantization: Option<String>,
    pub capabilities: Vec<String>,
}

#[derive(Debug, Clone, PartialEq, Eq)]
pub struct ProviderSnapshot {
    pub state: ProviderState,
    pub detail_code: String,
    pub models: Vec<OllamaModel>,
    pub refreshed_at: Option<i64>,
}

impl ProviderSnapshot {
    /// The snapshot shown while the provider is being checked.
    pub fn checking() -> (r: Self)
        ensures
            r.state == ProviderState::Checking,
            r.detail_code@ == "provider_checking"@,
            r.models@.len() == 0,
            r.refreshed_at is None,
    {
        ProviderSnapshot {
            state: ProviderState::Checking,
            detail_code: "provider_checking".to_string(),
            models: Vec::new(),
            refreshed_at: None,
        }
    }

    /// The snapshot of an unavailable provider, with the code that says why.
    pub fn unavailable(code: &str) -> (r: Self)
        ensures
            r.state == ProviderState::Unavailable,
            r.detail_code@ == code@,
            r.models@.len() == 0,
            r.refreshed_at is None,
    {
        ProviderSnapshot {
            state: ProviderState::Unavailable,
            detail_code: code.to_string(),
            models: Vec::new(),
            refreshed_at: None,
        }
    }
}

#[derive(Debug, Clone, Copy, PartialEq, Eq, Structural)]
pub enum MessageAuthor {
    User,
    Agent,
    System,
}

impl MessageAuthor {
    pub open spec fn spec_name(self) -> Seq<char> {
        match self {
            MessageAuthor::User => "user"@,
            MessageAuthor::Agent => "agent"@,
            MessageAuthor::System => "system"@,
        }
    }

    /// The author named by its stored name.
    pub fn parse(value: &str) -> (r: Result<Self, ()>)
        ensures
            match r {
                Ok(a) => a.spec_name() == value@,
                Err(()) => forall|a: MessageAuthor| a.spec_name() != value@,
            },
    {
        if text_equal(value, "user") {
            Ok(MessageAuthor::User)
        } else if text_equal(value, "agent") {
            Ok(MessageAuthor::Agent)
        } else if text_equal(value, "system") {
            Ok(MessageAuthor::System)
        } else {
            Err(())
        }
    }
}

#[derive(Debug, Clone, Copy, PartialEq, Eq, Structural)]
pub enum MessageStatus {
    Pending,
    Streaming,
    Complete,
    Failed,
    Cancelled,
}

impl MessageStatus {
    pub open spec fn spec_name(self) -> Seq<char> {
        match self {
            MessageStatus::Pending => "pending"@,
            MessageStatus::Streaming => "streaming"@,
            MessageStatus::Complete => "complete"@,
            MessageStatus::Failed => "failed"@,
            MessageStatus::Cancelled => "cancelled"@,
        }
    }

    /// The stored name of the status.
    pub fn as_str(self) -> (r: &'static str)
        ensures
            r@ == self.spec_name(),
    {
        match self {
            MessageStatus::Pending => "pending",
            MessageStatus::Streaming => "streaming",
            MessageStatus::Complete => "complete",
            MessageStatus::Failed => "failed",
            MessageStatus::Cancelled => "cancelled",
        }
    }

    /// The status named by its stored name.
    pub fn parse(value: &str) -> (r: Result<Self, ()>)
        ensures
            match r {
                Ok(s) => s.spec_name() == value@,
                Err(()) => forall|s: MessageStatus| s.spec_name() != value@,
            },
    {
        if text_equal(value, "pending") {
            Ok(MessageStatus::Pending)
        } else if text_equal(value, "streaming") {
            Ok(MessageStatus::Streaming)
        } else if text_equal(value, "complete") {
            Ok(MessageStatus::Complete)
        } else if text_equal(value, "failed") {
            Ok(MessageStatus::Failed)
        } else if text_equal(value, "cancelled") {
            Ok(MessageStatus::Cancelled)
        } else {
            Err(())
        }
    }
}

/// A pending message may start streaming, fail or be cancelled; a streaming message may
/// complete, fail or be cancelled; nothing else moves.
pub open spec fn message_transition(from: MessageStatus, to: MessageStatus) -> bool {
    match (from, to) {
        (MessageStatus::Pending, MessageStatus::Streaming) => true,
        (MessageStatus::Pending, MessageStatus::Failed) => true,
        (MessageStatus::Pending, MessageStatus::Cancelled) => true,
        (MessageStatus::Streaming, MessageStatus::Complete) => true,
        (MessageStatus::Streaming, MessageStatus::Failed) => true,
        (MessageStatus::Streaming, MessageStatus::Cancelled) => true,
        _ => false,
    }
}

pub fn can_transition_message(from: MessageStatus, to: MessageStatus) -> (r: bool)
    ensures
        r == message_transition(from, to),
{
    match (from, to) {
        (MessageStatus::Pending, MessageStatus::Streaming) => true,
        (MessageStatus::Pending, MessageStatus::Failed) => true,
        (MessageStatus::Pending, MessageStatus::Cancelled) => true,
        (MessageStatus::Streaming, MessageStatus::Complete) => true,
        (MessageStatus::Streaming, MessageStatus::Failed) => true,
        (MessageStatus::Streaming, MessageStatus::Cancelled) => true,
        _ => false,
    }
}

/// The runtime's life cycle: any state but safe mode can enter safe mode, and safe mode only
/// leaves by stopping or starting again.
pub open spec fn runtime_transition(from: RuntimeState, to: RuntimeState) -> bool {
    match from {
        RuntimeState::Stopped => to == RuntimeState::Starting || to == RuntimeState::SafeMode,
        RuntimeState::Starting => to == RuntimeState::Ready || to == RuntimeState::Unavailable || to
            == RuntimeState::Crashed || to == RuntimeState::Stopped || to == RuntimeState::SafeMode,
        RuntimeState::Ready => to == RuntimeState::Crashed || to == RuntimeState::Stopped || to
            == RuntimeState::SafeMode,
        RuntimeState::Unavailable => to == RuntimeState::Starting || to == RuntimeState::Stopped
            || to == RuntimeState::SafeMode,
        RuntimeState::Crashed => to == RuntimeState::Starting || to == RuntimeState::Stopped || to
            == RuntimeState::SafeMode,
        RuntimeState::SafeMode => to == RuntimeState::Stopped || to == RuntimeState::Starting,
    }
}

pub fn can_transition_runtime(from: RuntimeState, to: RuntimeState) -> (r: bool)
    ensures
        r == runtime_transition(from, to),
{
    match from {
        RuntimeState::Stopped => match to {
            RuntimeState::Starting | RuntimeState::SafeMode => true,
            _ => false,
        },
        RuntimeState::Starting => match to {
            RuntimeState::Ready | RuntimeState::Unavailable | RuntimeState::Crashed
            | RuntimeState::Stopped | RuntimeState::SafeMode => true,
            _ => false,
        },
        RuntimeState::Ready => match to {
            RuntimeState::Crashed | RuntimeState::Stopped | RuntimeState::SafeMode => true,
            _ => false,
        },
        RuntimeState::Unavailable => match to {
            RuntimeState::Starting | RuntimeState::Stopped | RuntimeState::SafeMode => true,
            _ => false,
        },
        RuntimeState::Crashed => match to {
            RuntimeState::Starting | RuntimeState::Stopped | RuntimeState::SafeMode => true,
            _ => false,
        },
        RuntimeState::SafeMode => match to {
            RuntimeState::Stopped | RuntimeState::Starting => true,
            _ => false,
        },
    }
}

/// How far a message has progressed; every allowed transition moves strictly forward.
pub open spec fn message_progress(s: MessageStatus) -> int {
    match s {
        MessageStatus::Pending => 0,
        MessageStatus::Streaming => 1,
        _ => 2,
    }
}

/// Completed, failed and cancelled messages never change status again, and every allowed
/// transition moves a message strictly forward, so no status is ever revisited.
pub proof fn law_message_transitions_move_forward(from: MessageStatus, to: MessageStatus)
    ensures
        message_transition(from, to) ==> message_progress(from) < message_progress(to),
        (from == MessageStatus::Complete || from == MessageStatus::Failed || from
            == MessageStatus::Cancelled) ==> !message_transition(from, to),
{
}

/// Every runtime state but safe mode can enter safe mode; safe mode never becomes ready
/// directly, and no state transitions to itself.
pub proof fn law_runtime_safe_mode_is_always_reachable(from: RuntimeState)
    ensures
        from != RuntimeState::SafeMode ==> runtime_transition(from, RuntimeState::SafeMode),
        !runtime_transition(RuntimeState::SafeMode, RuntimeState::Ready),
        !runtime_transition(from, from),
{
}

/// Distinct statuses have distinct stored names, so parsing a status's name (`parse`) gives
/// that status back.
pub proof fn law_message_status_names_round_trip(a: MessageStatus, b: MessageStatus)
    ensures
        a != b ==> a.spec_name() != b.spec_name(),
{
    reveal_strlit("pending");
    reveal_strlit("streaming");
    reveal_strlit("complete");
    reveal_strlit("failed");
    reveal_strlit("cancelled");
    assert("pending"@.len() == 7);
    assert("streaming"@.len() == 9);
    assert("complete"@.len() == 8);
    assert("failed"@.len() == 6);
    assert("cancelled"@.len() == 9);
    assert("streaming"@[0] != "cancelled"@[0]);
}

#[derive(Debug, Clone, PartialEq, Eq)]
pub struct PhaseOneConversation {
    pub id: String,
    pub agent_id: String,
    pub title: String,
    pub model_override_ref: Option<String>,
}

#[derive(Debug, Clone, PartialEq, Eq)]
pub struct AgentMemory {
    pub id: String,
    pub agent_id: String,
    pub category: String,
    pub content: String,
    pub status: String,
    pub confirmation_status: String,
    pub confidence_milli: u16,
    pub importance: u8,
    pub source_type: String,
    pub source_message_id: Option<String>,
    pub source_conversation_id: Option<String>,
    pub conflict_key: Option<String>,
    pub created_at: i64,
    pub updated_at: i64,
}

#[derive(Debug, Clone, PartialEq, Eq)]
pub struct ConversationMessage {
    pub id: String,
    pub conversation_id: String,
    pub agent_id: String,
    pub author: MessageAuthor,
    pub content: String,
    pub model_ref: Option<String>,
    pub status: MessageStatus,
    pub created_at: i64,
    pub completed_at: Option<i64>,
    pub error_code: Option<String>,
}

#[derive(Debug, Clone, PartialEq, Eq)]
pub struct QueueEntrySnapshot {
    pub request_id: String,
    pub agent_id: String,
    pub conversation_id: String,
    pub assistant_message_id: String,
    pub position: usize,
    pub active: bool,
    pub cancellation_requested: bool,
}

#[derive(Debug, Clone, PartialEq, Eq)]
pub struct SendMessageResult {
    pub request_id: String,
    pub conversation_id: String,
    pub user_message_id: String,
    pub assistant_message_id: String,
}

#[derive(Debug, Clone, PartialEq, Eq)]
pub struct PhaseOneEvent {
    pub protocol_version: u32,
    pub event_type: String,
    pub request_id: Option<String>,
    pub agent_id: Option<String>,
    pub conversation_id: Option<String>,
    pub assistant_message_id: Option<String>,
    pub sequence: Option<u64>,
    pub content: Option<String>,
    pub error_code: Option<String>,
}

} // verus!
