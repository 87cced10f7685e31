use aip_desktop::database::{DatabaseError, OWNER_ID};
use aip_desktop::gateway::gateway_replay_decision;
use aip_desktop::gateway::{
    check_gateway_agent_mode, check_gateway_approval, check_recovery_capacity, check_replay,
    check_transfer_approvable, check_transfer_connectable, check_transfer_preparable,
    check_transfer_revocable, ensure_gateway_compatible, ensure_gateway_fixture_agent,
    ensure_gateway_not_temporary, gateway_protocol_info, gateway_session_status_from_str,
    valid_gateway_idempotency, validate_gateway_recovery_request, validate_gateway_reference,
    validate_gateway_session_proof, validate_gateway_session_request, validate_gateway_text,
    validate_gateway_transfer_owner, validate_gateway_transfer_request, GatewayAccountStatus,
    GatewayRecoveryRequest, GatewaySessionProof, GatewaySessionRequest, GatewaySessionStatus,
    GatewayTransfer, GatewayTransferRequest, GatewayTransferStatus, GATEWAY_FIXTURE_AGENT_ID,
    GATEWAY_FIXTURE_APP_VERSION, GATEWAY_FIXTURE_AUTH_PROOF_METADATA, GATEWAY_FIXTURE_CLIENT_ID,
    GATEWAY_FIXTURE_EXTERNAL_ACCOUNT_METADATA, GATEWAY_FIXTURE_RECOVERY_TARGET,
    GATEWAY_FIXTURE_TRANSFER_INTEGRITY_HASH, GATEWAY_PROTOCOL_VERSION,
};

fn transfer_request(key: &str) -> GatewayTransferRequest {
    GatewayTransferRequest {
        agent_id: GATEWAY_FIXTURE_AGENT_ID.to_owned(),
        owner_user_id: OWNER_ID.to_owned(),
        destination_account_metadata: GATEWAY_FIXTURE_EXTERNAL_ACCOUNT_METADATA.to_owned(),
        integrity_hash: GATEWAY_FIXTURE_TRANSFER_INTEGRITY_HASH.to_owned(),
        idempotency_key: key.to_owned(),
        temporary_chat: false,
    }
}

fn session_request(transfer_id: &str, key: &str) -> GatewaySessionRequest {
    GatewaySessionRequest {
        agent_id: GATEWAY_FIXTURE_AGENT_ID.to_owned(),
        owner_user_id: OWNER_ID.to_owned(),
        transfer_id: transfer_id.to_owned(),
        client_id: GATEWAY_FIXTURE_CLIENT_ID.to_owned(),
        app_version: GATEWAY_FIXTURE_APP_VERSION.to_owned(),
        protocol_version: GATEWAY_PROTOCOL_VERSION,
        auth_proof_metadata: GATEWAY_FIXTURE_AUTH_PROOF_METADATA.to_owned(),
        message_nonce_metadata: format!("fixture:gateway-message/{key}"),
        replay_counter: 1,
        idempotency_key: key.to_owned(),
        temporary_chat: false,
    }
}

fn session_proof(counter: i64) -> GatewaySessionProof {
    GatewaySessionProof {
        session_id: "session-1".into(),
        transfer_id: "transfer-1".into(),
        client_id: GATEWAY_FIXTURE_CLIENT_ID.into(),
        session_nonce_metadata: "fixture:gateway-session/mobile-admin-fixture-01/1".into(),
        auth_proof_metadata: GATEWAY_FIXTURE_AUTH_PROOF_METADATA.into(),
        app_version: GATEWAY_FIXTURE_APP_VERSION.into(),
        protocol_version: GATEWAY_PROTOCOL_VERSION,
        message_nonce_metadata: format!("fixture:gateway-message/{counter}"),
        replay_counter: counter,
    }
}

fn transfer(status: GatewayTransferStatus) -> GatewayTransfer {
    GatewayTransfer {
        id: "transfer-1".into(),
        account_id: "account-1".into(),
        source_agent_id: GATEWAY_FIXTURE_AGENT_ID.into(),
        owner_user_id: OWNER_ID.into(),
        destination_account_metadata: GATEWAY_FIXTURE_EXTERNAL_ACCOUNT_METADATA.into(),
        integrity_hash: GATEWAY_FIXTURE_TRANSFER_INTEGRITY_HASH.into(),
        status,
        authorization_status: "pending_owner_approval".into(),
        approval_required: true,
        metadata_only: true,
        external_effect_performed: false,
        standalone_fallback: true,
        created_at: 1,
        approved_at: None,
        updated_at: 1,
    }
}

#[test]
fn protocol_info_is_local_and_metadata_only() {
    let info = gateway_protocol_info();
    assert_eq!(info.protocol_version, 1);
    assert_eq!(info.transport, "local_loopback_fixture");
    assert!(!info.network_listener);
    assert!(!info.cloudflare.network_listener);
    assert_eq!(info.cloudflare.credential_state, "absent");
    assert_eq!(info.cloudflare.mode, "metadata_only");
    assert!(info.standalone_fallback);
}

#[test]
fn gateway_mutations_fail_closed_for_invalid_fixture_temporary_chat_and_safe_mode() {
    assert_eq!(
        ensure_gateway_not_temporary(true),
        Err(DatabaseError::Cognitive("gateway_blocked_temporary"))
    );
    let mut wrong = transfer_request("invalid-transfer");
    wrong.destination_account_metadata = "https://example.invalid".into();
    assert_eq!(
        validate_gateway_transfer_request(&wrong),
        Err(DatabaseError::Cognitive("gateway_transfer_fixture_invalid"))
    );
    assert_eq!(validate_gateway_transfer_request(&transfer_request("ok")), Ok(()));
    assert_eq!(
        check_gateway_agent_mode("safe", false),
        Err(DatabaseError::Cognitive("gateway_blocked_safe_mode"))
    );
    assert_eq!(
        check_gateway_agent_mode("normal", true),
        Err(DatabaseError::Cognitive("gateway_blocked_suspended"))
    );
    assert_eq!(check_gateway_agent_mode("normal", false), Ok(()));
    assert_eq!(
        ensure_gateway_fixture_agent("agt_astra_provisional"),
        Err(DatabaseError::Cognitive("gateway_fixture_agent_invalid"))
    );
    assert_eq!(ensure_gateway_fixture_agent(GATEWAY_FIXTURE_AGENT_ID), Ok(()));
}

#[test]
fn session_requests_and_proofs_need_the_fixture_client() {
    assert_eq!(validate_gateway_session_request(&session_request("transfer-1", "connect")), Ok(()));
    let mut stale = session_request("transfer-1", "connect");
    stale.replay_counter = 0;
    assert_eq!(
        validate_gateway_session_request(&stale),
        Err(DatabaseError::Cognitive("gateway_authentication_invalid"))
    );
    let mut old_app = session_request("transfer-1", "connect");
    old_app.app_version = "0.0.1".into();
    assert_eq!(
        validate_gateway_session_request(&old_app),
        Err(DatabaseError::Cognitive("gateway_protocol_incompatible"))
    );
    let mut bad_transfer = session_request("../transfer", "connect");
    bad_transfer.transfer_id = "a..b".into();
    assert_eq!(
        validate_gateway_session_request(&bad_transfer),
        Err(DatabaseError::Cognitive("gateway_transfer_invalid"))
    );
    assert_eq!(validate_gateway_session_proof(&session_proof(2)), Ok(()));
    let mut bad_client = session_proof(2);
    bad_client.client_id = "another-client".into();
    assert_eq!(
        validate_gateway_session_proof(&bad_client),
        Err(DatabaseError::Cognitive("gateway_authentication_invalid"))
    );
    let mut bad_session = session_proof(2);
    bad_session.session_id = " ".into();
    assert_eq!(
        validate_gateway_session_proof(&bad_session),
        Err(DatabaseError::Cognitive("gateway_session_invalid"))
    );
    assert_eq!(ensure_gateway_compatible(2, GATEWAY_FIXTURE_APP_VERSION).is_err(), true);
    assert_eq!(ensure_gateway_compatible(1, GATEWAY_FIXTURE_APP_VERSION), Ok(()));
    let recovery = GatewayRecoveryRequest {
        agent_id: GATEWAY_FIXTURE_AGENT_ID.into(),
        owner_user_id: OWNER_ID.into(),
        proof: session_proof(3),
        recovery_kind: "mobile_administrative".into(),
        target_metadata: GATEWAY_FIXTURE_RECOVERY_TARGET.into(),
        idempotency_key: "recover".into(),
        temporary_chat: false,
    };
    assert_eq!(validate_gateway_recovery_request(&recovery), Ok(()));
    let mut other_kind = recovery.clone();
    other_kind.recovery_kind = "desktop".into();
    assert_eq!(
        validate_gateway_recovery_request(&other_kind),
        Err(DatabaseError::Cognitive("gateway_recovery_fixture_invalid"))
    );
}

#[test]
fn texts_references_and_keys_are_bounded() {
    assert_eq!(validate_gateway_text("  linha 1\nlinha 2 ", 512), Ok("linha 1\nlinha 2".to_string()));
    assert_eq!(
        validate_gateway_text("a\u{7}b", 512),
        Err(DatabaseError::Cognitive("gateway_text_invalid"))
    );
    assert_eq!(
        validate_gateway_reference("fixture:ok/1", 192, "custom_code"),
        Ok("fixture:ok/1".to_string())
    );
    assert_eq!(
        validate_gateway_reference("fixture:\\bad", 192, "custom_code"),
        Err(DatabaseError::Cognitive("custom_code"))
    );
    assert_eq!(valid_gateway_idempotency("key.1"), Ok("key.1".to_string()));
    assert_eq!(
        valid_gateway_idempotency(""),
        Err(DatabaseError::Cognitive("gateway_idempotency_invalid"))
    );
}

#[test]
fn transfers_sessions_and_replays_follow_their_states() {
    assert_eq!(check_transfer_preparable(GatewayAccountStatus::MetadataOnly, false), Ok(()));
    assert_eq!(
        check_transfer_preparable(GatewayAccountStatus::MetadataOnly, true),
        Err(DatabaseError::Cognitive("gateway_transfer_already_active"))
    );
    assert_eq!(
        check_transfer_preparable(GatewayAccountStatus::Revoked, false),
        Err(DatabaseError::Cognitive("gateway_account_revoked"))
    );
    let previewed = transfer(GatewayTransferStatus::Previewed);
    assert_eq!(check_transfer_approvable(&previewed, GATEWAY_FIXTURE_AGENT_ID, OWNER_ID), Ok(()));
    assert_eq!(
        check_transfer_approvable(&previewed, "agt_astra_provisional", OWNER_ID),
        Err(DatabaseError::OwnershipMismatch)
    );
    assert_eq!(
        check_transfer_approvable(&transfer(GatewayTransferStatus::Revoked), GATEWAY_FIXTURE_AGENT_ID, OWNER_ID),
        Err(DatabaseError::Cognitive("gateway_transfer_revoked"))
    );
    assert_eq!(
        check_transfer_approvable(&transfer(GatewayTransferStatus::Approved), GATEWAY_FIXTURE_AGENT_ID, OWNER_ID),
        Err(DatabaseError::Cognitive("gateway_transfer_integrity_failed"))
    );
    assert_eq!(
        check_transfer_connectable(&previewed, GATEWAY_FIXTURE_AGENT_ID, OWNER_ID),
        Err(DatabaseError::Cognitive("gateway_transfer_approval_required"))
    );
    assert_eq!(
        check_transfer_connectable(&transfer(GatewayTransferStatus::Approved), GATEWAY_FIXTURE_AGENT_ID, OWNER_ID),
        Ok(())
    );
    assert_eq!(
        check_transfer_revocable(&transfer(GatewayTransferStatus::Revoked), GATEWAY_FIXTURE_AGENT_ID, OWNER_ID),
        Err(DatabaseError::Cognitive("gateway_transfer_revoked"))
    );
    assert_eq!(validate_gateway_transfer_owner(&previewed, GATEWAY_FIXTURE_AGENT_ID, OWNER_ID), Ok(()));
    assert_eq!(check_replay(false, 1, 2), Ok(()));
    assert_eq!(check_replay(false, 2, 2), Err(DatabaseError::Cognitive("gateway_replay_rejected")));
    assert_eq!(check_replay(true, 1, 5), Err(DatabaseError::Cognitive("gateway_replay_rejected")));
    assert_eq!(check_recovery_capacity(3), Ok(()));
    assert_eq!(check_recovery_capacity(4), Err(DatabaseError::Cognitive("gateway_recovery_limit")));
    assert_eq!(check_gateway_approval(false), Err(DatabaseError::Cognitive("gateway_approval_required")));
    assert_eq!(gateway_session_status_from_str("expired"), Ok(GatewaySessionStatus::Expired));
    assert_eq!(gateway_session_status_from_str("lost"), Err(()));
    assert_eq!(GatewaySessionStatus::Disconnected.as_str(), "disconnected");
}

#[test]
fn gateway_idempotency_replays_only_the_same_request_and_kind() {
    assert_eq!(gateway_replay_decision(None, "req", "session"), Ok(None));
    assert_eq!(
        gateway_replay_decision(Some(("req", "session", "s-1")), "req", "session"),
        Ok(Some("s-1".to_string()))
    );
    let conflict = Err(DatabaseError::Cognitive("gateway_idempotency_conflict"));
    assert_eq!(gateway_replay_decision(Some(("req", "session", "s-1")), "other", "session"), conflict);
    assert_eq!(gateway_replay_decision(Some(("req", "transfer", "t-1")), "req", "session"), conflict);
}
