//! The gates in front of the desktop commands and the local transports: what a temporary chat
//! or safe mode refuses, who may start a transport, and which frames a transport serves.
use vstd::prelude::*;

use crate::database::{ASTRA_ID, LUMA_ID};
use crate::text::text_equal;

verus! {

/// A conversation-bound command is refused while the request or the agent's chat is
/// temporary.
pub fn ensure_conversation_not_temporary(requested_temporary: bool, temporary_chat_active: bool) -> (r:
    Result<(), &'static str>)
    ensures
        r is Ok <==> !requested_temporary && !temporary_chat_active,
        r matches Err(code) ==> code@ == "conversation_temporary_blocked"@,
{
    if requested_temporary || temporary_chat_active {
        Err("conversation_temporary_blocked")
    } else {
        Ok(())
    }
}

/// Voice runtime commands: refused in safe mode, then as conversation-bound commands.
pub fn ensure_voice_runtime_allowed(
    safe_mode: bool,
    requested_temporary: bool,
    temporary_chat_active: bool,
) -> (r: Result<(), &'static str>)
    ensures
        r is Ok <==> !safe_mode && !requested_temporary && !temporary_chat_active,
        safe_mode ==> (r matches Err(code) && code@ == "conversation_blocked_safe_mode"@),
        !safe_mode && (requested_temporary || temporary_chat_active) ==> (r matches Err(code)
            && code@ == "conversation_temporary_blocked"@),
{
    if safe_mode {
        return Err("conversation_blocked_safe_mode");
    }
    ensure_conversation_not_temporary(requested_temporary, temporary_chat_active)
}

/// Tool mutations: refused in safe mode, then as conversation-bound commands.
pub fn ensure_tool_mutation_allowed(
    safe_mode: bool,
    requested_temporary: bool,
    temporary_chat_active: bool,
) -> (r: Result<(), &'static str>)
    ensures
        r is Ok <==> !safe_mode && !requested_temporary && !temporary_chat_active,
        safe_mode ==> (r matches Err(code) && code@ == "tools_blocked_safe_mode"@),
        !safe_mode && (requested_temporary || temporary_chat_active) ==> (r matches Err(code)
            && code@ == "conversation_temporary_blocked"@),
{
    if safe_mode {
        return Err("tools_blocked_safe_mode");
    }
    ensure_conversation_not_temporary(requested_temporary, temporary_chat_active)
}

/// Extension executions: refused in safe mode, then as conversation-bound commands.
pub fn ensure_extension_execution_allowed(
    safe_mode: bool,
    requested_temporary: bool,
    temporary_chat_active: bool,
) -> (r: Result<(), &'static str>)
    ensures
        r is Ok <==> !safe_mode && !requested_temporary && !temporary_chat_active,
        safe_mode ==> (r matches Err(code) && code@ == "extensions_blocked_safe_mode"@),
        !safe_mode && (requested_temporary || temporary_chat_active) ==> (r matches Err(code)
            && code@ == "conversation_temporary_blocked"@),
{
    if safe_mode {
        return Err("extensions_blocked_safe_mode");
    }
    ensure_conversation_not_temporary(requested_temporary, temporary_chat_active)
}

/// The two local transports.
#[derive(Debug, Clone, Copy, PartialEq, Eq, Structural)]
pub enum TransportKind {
    Companion,
    Gateway,
}

/// Why starting a transport is refused, if it is: the Owner must confirm; no temporary chat;
/// not in safe mode; and only the agents the transport serves (both agents for the companion,
/// the gateway's fixture agent for the gateway).
pub open spec fn transport_start_error(
    kind: TransportKind,
    owner_confirmed: bool,
    temporary: bool,
    safe_mode: bool,
    agent_id: Seq<char>,
) -> Option<Seq<char>> {
    match kind {
        TransportKind::Companion => if !owner_confirmed {
            Some("companion_owner_confirmation_required"@)
        } else if temporary {
            Some("companion_blocked_temporary"@)
        } else if safe_mode {
            Some("companion_blocked_safe_mode"@)
        } else if agent_id != ASTRA_ID@ && agent_id != LUMA_ID@ {
            Some("companion_owner_required"@)
        } else {
            None
        },
        TransportKind::Gateway => if !owner_confirmed {
            Some("gateway_owner_confirmation_required"@)
        } else if temporary {
            Some("gateway_blocked_temporary"@)
        } else if safe_mode {
            Some("gateway_blocked_safe_mode"@)
        } else if agent_id != LUMA_ID@ {
            Some("gateway_owner_required"@)
        } else {
            None
        },
    }
}

/// Checks a transport start (see `transport_start_error`); `temporary` is whether the request
/// or the agent's chat is temporary.
pub fn check_transport_start(
    kind: TransportKind,
    owner_confirmed: bool,
    temporary: bool,
    safe_mode: bool,
    agent_id: &str,
) -> (r: Result<(), &'static str>)
    ensures
        match transport_start_error(kind, owner_confirmed, temporary, safe_mode, agent_id@) {
            None => r is Ok,
            Some(e) => r matches Err(code) && code@ == e,
        },
{
    match kind {
        TransportKind::Companion => {
            if !owner_confirmed {
                return Err("companion_owner_confirmation_required");
            }
            if temporary {
                return Err("companion_blocked_temporary");
            }
            if safe_mode {
                return Err("companion_blocked_safe_mode");
            }
            if !text_equal(agent_id, ASTRA_ID) && !text_equal(agent_id, LUMA_ID) {
                return Err("companion_owner_required");
            }
            Ok(())
        },
        TransportKind::Gateway => {
            if !owner_confirmed {
                return Err("gateway_owner_confirmation_required");
            }
            if temporary {
                return Err("gateway_blocked_temporary");
            }
            if safe_mode {
                return Err("gateway_blocked_safe_mode");
            }
            if !text_equal(agent_id, LUMA_ID) {
                return Err("gateway_owner_required");
            }
            Ok(())
        },
    }
}

/// The frames the gateway transport serves.
#[derive(Debug, Clone, Copy, PartialEq, Eq, Structural)]
pub enum GatewayFrameKind {
    Protocol,
    Accounts,
    Transfers,
    Sessions,
    Recoveries,
    Audit,
    Revocations,
    TransferPrepare,
    TransferApprove,
    SessionConnect,
    SessionReconnect,
    RecoveryRequest,
    RecoveryApprove,
    SessionRevoke,
    TransferRevoke,
}

impl GatewayFrameKind {
    pub open spec fn spec_name(self) -> Seq<char> {
        match self {
            GatewayFrameKind::Protocol => "protocol"@,
            GatewayFrameKind::Accounts => "accounts"@,
            GatewayFrameKind::Transfers => "transfers"@,
            GatewayFrameKind::Sessions => "sessions"@,
            GatewayFrameKind::Recoveries => "recoveries"@,
            GatewayFrameKind::Audit => "audit"@,
            GatewayFrameKind::Revocations => "revocations"@,
            GatewayFrameKind::TransferPrepare => "transfer_prepare"@,
            GatewayFrameKind::TransferApprove => "transfer_approve"@,
            GatewayFrameKind::SessionConnect => "session_connect"@,
            GatewayFrameKind::SessionReconnect => "session_reconnect"@,
            GatewayFrameKind::RecoveryRequest => "recovery_request"@,
            GatewayFrameKind::RecoveryApprove => "recovery_approve"@,
            GatewayFrameKind::SessionRevoke => "session_revoke"@,
            GatewayFrameKind::TransferRevoke => "transfer_revoke"@,
        }
    }

    /// The frame kind named `kind`; any other name is an invalid payload.
    pub fn parse(kind: &str) -> (r: Result<Self, &'static str>)
        ensures
            match r {
                Ok(k) => k.spec_name() == kind@,
                Err(code) => code@ == "gateway_payload_invalid"@ && forall|k: GatewayFrameKind|
                    k.spec_name() != kind@,
            },
    {
        if text_equal(kind, "protocol") {
            Ok(GatewayFrameKind::Protocol)
        } else if text_equal(kind, "accounts") {
            Ok(GatewayFrameKind::Accounts)
        } else if text_equal(kind, "transfers") {
            Ok(GatewayFrameKind::Transfers)
        } else if text_equal(kind, "sessions") {
            Ok(GatewayFrameKind::Sessions)
        } else if text_equal(kind, "recoveries") {
            Ok(GatewayFrameKind::Recoveries)
        } else if text_equal(kind, "audit") {
            Ok(GatewayFrameKind::Audit)
        } else if text_equal(kind, "revocations") {
            Ok(GatewayFrameKind::Revocations)
        } else if text_equal(kind, "transfer_prepare") {
            Ok(GatewayFrameKind::TransferPrepare)
        } else if text_equal(kind, "transfer_approve") {
            Ok(GatewayFrameKind::TransferApprove)
        } else if text_equal(kind, "session_connect") {
            Ok(GatewayFrameKind::SessionConnect)
        } else if text_equal(kind, "session_reconnect") {
            Ok(GatewayFrameKind::SessionReconnect)
        } else if text_equal(kind, "recovery_request") {
            Ok(GatewayFrameKind::RecoveryRequest)
        } else if text_equal(kind, "recovery_approve") {
            Ok(GatewayFrameKind::RecoveryApprove)
        } else if text_equal(kind, "session_revoke") {
            Ok(GatewayFrameKind::SessionRevoke)
        } else if text_equal(kind, "transfer_revoke") {
            Ok(GatewayFrameKind::TransferRevoke)
        } else {
            Err("gateway_payload_invalid")
        }
    }

    /// Whether the frame's payload names only an agent (the read-only listings).
    pub fn reads_agent_only(self) -> (r: bool)
        ensures
            r == (self == GatewayFrameKind::Protocol || self == GatewayFrameKind::Accounts || self
                == GatewayFrameKind::Transfers || self == GatewayFrameKind::Sessions || self
                == GatewayFrameKind::Recoveries || self == GatewayFrameKind::Audit || self
                == GatewayFrameKind::Revocations),
    {
        match self {
            GatewayFrameKind::Protocol | GatewayFrameKind::Accounts | GatewayFrameKind::Transfers
            | GatewayFrameKind::Sessions | GatewayFrameKind::Recoveries | GatewayFrameKind::Audit
            | GatewayFrameKind::Revocations => true,
            _ => false,
        }
    }
}

/// The frames the companion transport serves.
#[derive(Debug, Clone, Copy, PartialEq, Eq, Structural)]
pub enum CompanionFrameKind {
    Pair,
    Session,
    Reconnect,
    History,
    QueuePreview,
    QueueApprove,
    QueueCancel,
    QueueRetry,
}

impl CompanionFrameKind {
    pub open spec fn spec_name(self) -> Seq<char> {
        match self {
            CompanionFrameKind::Pair => "pair"@,
            CompanionFrameKind::Session => "session"@,
            CompanionFrameKind::Reconnect => "reconnect"@,
            CompanionFrameKind::History => "history"@,
            CompanionFrameKind::QueuePreview => "queue_preview"@,
            CompanionFrameKind::QueueApprove => "queue_approve"@,
            CompanionFrameKind::QueueCancel => "queue_cancel"@,
            CompanionFrameKind::QueueRetry => "queue_retry"@,
        }
    }

    /// The frame kind named `kind`; any other name is an invalid payload.
    pub fn parse(kind: &str) -> (r: Result<Self, &'static str>)
        ensures
            match r {
                Ok(k) => k.spec_name() == kind@,
                Err(code) => code@ == "companion_payload_invalid"@ && forall|k: CompanionFrameKind|
                    k.spec_name() != kind@,
            },
    {
        if text_equal(kind, "pair") {
            Ok(CompanionFrameKind::Pair)
        } else if text_equal(kind, "session") {
            Ok(CompanionFrameKind::Session)
        } else if text_equal(kind, "reconnect") {
            Ok(CompanionFrameKind::Reconnect)
        } else if text_equal(kind, "history") {
            Ok(CompanionFrameKind::History)
        } else if text_equal(kind, "queue_preview") {
            Ok(CompanionFrameKind::QueuePreview)
        } else if text_equal(kind, "queue_approve") {
            Ok(CompanionFrameKind::QueueApprove)
        } else if text_equal(kind, "queue_cancel") {
            Ok(CompanionFrameKind::QueueCancel)
        } else if text_equal(kind, "queue_retry") {
            Ok(CompanionFrameKind::QueueRetry)
        } else {
            Err("companion_payload_invalid")
        }
    }
}

/// The kind of a transport's reply to a frame: the frame's kind with `_result` appended.
pub fn frame_result_kind(kind: &str) -> (r: String)
    ensures
        r@ == kind@ + "_result"@,
{
    kind.to_string().concat("_result")
}

/// A transport answers no frame while safe mode is on.
pub fn check_frame_allowed(kind: TransportKind, safe_mode: bool) -> (r: Result<(), &'static str>)
    ensures
        r is Ok <==> !safe_mode,
        safe_mode && kind == TransportKind::Gateway ==> (r matches Err(code) && code@
            == "gateway_blocked_safe_mode"@),
        safe_mode && kind == TransportKind::Companion ==> (r matches Err(code) && code@
            == "companion_blocked_safe_mode"@),
{
    if !safe_mode {
        Ok(())
    } else {
        match kind {
            TransportKind::Gateway => Err("gateway_blocked_safe_mode"),
            TransportKind::Companion => Err("companion_blocked_safe_mode"),
        }
    }
}

} // verus!
