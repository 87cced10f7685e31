use aip_desktop::commands::{
    check_frame_allowed, check_transport_start, ensure_conversation_not_temporary,
    ensure_extension_execution_allowed, ensure_tool_mutation_allowed, ensure_voice_runtime_allowed, frame_result_kind,
    CompanionFrameKind, GatewayFrameKind, TransportKind,
};

#[test]
fn temporary_chats_and_safe_mode_block_commands() {
    assert_eq!(ensure_conversation_not_temporary(false, false), Ok(()));
    assert_eq!(
        ensure_conversation_not_temporary(true, false),
        Err("conversation_temporary_blocked")
    );
    assert_eq!(
        ensure_conversation_not_temporary(false, true),
        Err("conversation_temporary_blocked")
    );
    assert_eq!(
        ensure_voice_runtime_allowed(true, false, false),
        Err("conversation_blocked_safe_mode")
    );
    assert_eq!(ensure_voice_runtime_allowed(false, false, false), Ok(()));
    assert_eq!(
        ensure_extension_execution_allowed(true, true, false),
        Err("extensions_blocked_safe_mode")
    );
    assert_eq!(
        ensure_extension_execution_allowed(false, true, false),
        Err("conversation_temporary_blocked")
    );
}

#[test]
fn transports_start_only_for_confirmed_owners_and_their_agents() {
    assert_eq!(
        check_transport_start(TransportKind::Gateway, true, false, false, "agt_luma_provisional"),
        Ok(())
    );
    assert_eq!(
        check_transport_start(TransportKind::Gateway, true, false, false, "agt_astra_provisional"),
        Err("gateway_owner_required")
    );
    assert_eq!(
        check_transport_start(TransportKind::Gateway, false, true, true, "agt_luma_provisional"),
        Err("gateway_owner_confirmation_required")
    );
    assert_eq!(
        check_transport_start(TransportKind::Gateway, true, true, true, "agt_luma_provisional"),
        Err("gateway_blocked_temporary")
    );
    assert_eq!(
        check_transport_start(TransportKind::Gateway, true, false, true, "agt_luma_provisional"),
        Err("gateway_blocked_safe_mode")
    );
    assert_eq!(
        check_transport_start(TransportKind::Companion, true, false, false, "agt_astra_provisional"),
        Ok(())
    );
    assert_eq!(
        check_transport_start(TransportKind::Companion, true, false, false, "agt_other"),
        Err("companion_owner_required")
    );
    assert_eq!(
        check_transport_start(TransportKind::Companion, false, false, false, "agt_astra_provisional"),
        Err("companion_owner_confirmation_required")
    );
}

#[test]
fn frames_are_routed_by_kind() {
    assert_eq!(GatewayFrameKind::parse("transfer_prepare"), Ok(GatewayFrameKind::TransferPrepare));
    assert_eq!(GatewayFrameKind::parse("protocol"), Ok(GatewayFrameKind::Protocol));
    assert_eq!(GatewayFrameKind::parse("shell"), Err("gateway_payload_invalid"));
    assert!(GatewayFrameKind::Audit.reads_agent_only());
    assert!(!GatewayFrameKind::SessionRevoke.reads_agent_only());
    assert_eq!(CompanionFrameKind::parse("queue_retry"), Ok(CompanionFrameKind::QueueRetry));
    assert_eq!(CompanionFrameKind::parse("pairing"), Err("companion_payload_invalid"));
    assert_eq!(frame_result_kind("session_connect"), "session_connect_result");
    assert_eq!(check_frame_allowed(TransportKind::Gateway, true), Err("gateway_blocked_safe_mode"));
    assert_eq!(check_frame_allowed(TransportKind::Companion, true), Err("companion_blocked_safe_mode"));
    assert_eq!(check_frame_allowed(TransportKind::Companion, false), Ok(()));
}

#[test]
fn tool_mutations_are_blocked_in_safe_mode_and_temporary_chats() {
    assert_eq!(ensure_tool_mutation_allowed(true, false, false), Err("tools_blocked_safe_mode"));
    assert_eq!(ensure_tool_mutation_allowed(true, true, true), Err("tools_blocked_safe_mode"));
    assert_eq!(
        ensure_tool_mutation_allowed(false, true, false),
        Err("conversation_temporary_blocked")
    );
    assert_eq!(
        ensure_tool_mutation_allowed(false, false, true),
        Err("conversation_temporary_blocked")
    );
    assert_eq!(ensure_tool_mutation_allowed(false, false, false), Ok(()));
}
