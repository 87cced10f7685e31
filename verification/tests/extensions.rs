use aip_desktop::database::DatabaseError;
use aip_desktop::extensions::{
    activation_decision, agent_proposal_request, ensure_extensions_enabled, capability_from_str, capability_kind,
    check_agent_may_execute, check_catalog_executable, check_package_integrity,
    ensure_not_temporary, execution_request_check, extension_package_hash,
    interpret_extension_package, lifecycle_from_str, lifecycle_kind, manifest_is_compatible,
    manifest_json_text, normalize_capabilities, normalize_manifest, package_payload_text,
    review_decision, review_outcome, review_permission_status, rollback_decision,
    valid_idempotency, validate_extension_id, validate_extension_version, validate_fixture_ref,
    validate_host_context, validate_package, validate_source, validate_text,
    ExecutionStatus, ExtensionAdmissionPolicy, ExtensionAgentProposalRequest,
    ExtensionCapability, ExtensionExecutionRequest, ExtensionHostContext, ExtensionInstruction,
    ExtensionLifecycle, ExtensionManifest, ExtensionPackage, ExtensionPermissionRequest,
    ExtensionPermissionStatus, ExtensionProposal, ExtensionProposalStatus, ExtensionReviewRequest,
    ExtensionReviewStatus, ExtensionRun, ExtensionSandboxPolicy, ExtensionSourceKind,
    AIP_EXTENSION_SDK_VERSION, MAX_PACKAGE_TEXT_BYTES,
};
use sha2::{Digest, Sha256};

fn package(instructions: Vec<ExtensionInstruction>) -> ExtensionPackage {
    let mut package = ExtensionPackage {
        format: "aip-extension-package/v1".into(),
        entrypoint: "main".into(),
        instructions,
        integrity_sha256: String::new(),
    };
    package.integrity_sha256 = extension_package_hash(&package).expect("package hash");
    package
}

fn manifest(version: &str, capabilities: Vec<ExtensionCapability>) -> ExtensionManifest {
    ExtensionManifest {
        extension_id: "fixture.notes".into(),
        manifest_version: 1,
        extension_version: version.into(),
        sdk_version: AIP_EXTENSION_SDK_VERSION.into(),
        name: "Notas locais fixture".into(),
        sandbox_policy: ExtensionSandboxPolicy::MetadataOnly,
        admission_policy: ExtensionAdmissionPolicy::LocalFixtureOnly,
        capabilities,
        local_fixture_ref: Some("fixture:extension/notes".into()),
        untrusted: true,
        package: None,
    }
}

fn host() -> ExtensionHostContext {
    ExtensionHostContext {
        agent_id: "agt_astra_provisional".into(),
        tool_ids: vec!["tool.one".into(), "tool.two".into()],
    }
}

fn emit(text: &str) -> ExtensionInstruction {
    ExtensionInstruction::EmitText {
        text: Some(text.into()),
        echo_input: None,
    }
}

fn proposal(status: ExtensionProposalStatus, capabilities: Vec<ExtensionCapability>) -> ExtensionProposal {
    ExtensionProposal {
        id: "proposal-1".into(),
        extension_id: "fixture.notes".into(),
        revision: 1,
        source_kind: ExtensionSourceKind::AgentCreated,
        proposer_agent_id: Some("agt_luma_provisional".into()),
        status,
        review_status: ExtensionReviewStatus::Pending,
        manifest: manifest("1.0.0", capabilities.clone()),
        requested_capabilities: capabilities.clone(),
        approved_capabilities: Vec::new(),
        permissions: capabilities
            .iter()
            .map(|capability| ExtensionPermissionRequest {
                capability: *capability,
                status: ExtensionPermissionStatus::Pending,
            })
            .collect(),
        compatible: true,
        review_reason: None,
        created_at: 1,
        updated_at: 1,
    }
}

fn review(approved: bool, granted: Vec<ExtensionCapability>, reason: Option<&str>) -> ExtensionReviewRequest {
    ExtensionReviewRequest {
        agent_id: "agt_astra_provisional".into(),
        owner_user_id: "usr_owner_local".into(),
        proposal_id: "proposal-1".into(),
        approved,
        approved_capabilities: granted,
        reason: reason.map(str::to_string),
        idempotency_key: "review-1".into(),
        temporary_chat: false,
    }
}

#[test]
fn package_validation_and_execution_gates_fail_closed() {
    let host = ExtensionHostContext {
        agent_id: "agt_astra_provisional".into(),
        tool_ids: vec!["tool.one".into()],
    };
    let valid = package(vec![ExtensionInstruction::EmitText {
        text: Some("ok".into()),
        echo_input: None,
    }]);
    assert_eq!(interpret_extension_package(&valid, "", &[], &host).unwrap(), "ok");
    let mut tampered = valid.clone();
    tampered.instructions.push(ExtensionInstruction::Yield);
    assert_eq!(
        interpret_extension_package(&tampered, "", &[], &host),
        Err(DatabaseError::Cognitive("extension_package_invalid"))
    );
    let duplicate = package(vec![ExtensionInstruction::Yield, ExtensionInstruction::Yield]);
    assert_eq!(
        interpret_extension_package(&duplicate, "", &[], &host),
        Err(DatabaseError::Cognitive("extension_instruction_duplicate"))
    );
    let oversized = package(vec![ExtensionInstruction::EmitText {
        text: Some("x".repeat(MAX_PACKAGE_TEXT_BYTES + 1)),
        echo_input: None,
    }]);
    assert_eq!(
        interpret_extension_package(&oversized, "", &[], &host),
        Err(DatabaseError::Cognitive("extension_instruction_oversized"))
    );
    let denied = package(vec![ExtensionInstruction::ReadAgentContext]);
    assert_eq!(
        interpret_extension_package(&denied, "", &[], &host),
        Err(DatabaseError::Cognitive("extension_capability_denied"))
    );
}

#[test]
fn package_hash_is_sha256_of_the_canonical_text() {
    let package = package(vec![
        ExtensionInstruction::ReadAgentContext,
        ExtensionInstruction::EmitText {
            text: Some("a\"b\\c\n\u{1}é".into()),
            echo_input: Some(false),
        },
        ExtensionInstruction::Yield,
    ]);
    let payload = package_payload_text(&package);
    assert_eq!(
        payload,
        "{\"entrypoint\":\"main\",\"format\":\"aip-extension-package/v1\",\"instructions\":[{\"op\":\"read_agent_context\"},{\"echo_input\":false,\"op\":\"emit_text\",\"text\":\"a\\\"b\\\\c\\n\\u0001é\"},{\"op\":\"yield\"}]}"
    );
    let reparsed: serde_json::Value = serde_json::from_str(&payload).expect("payload is JSON");
    assert_eq!(serde_json::to_string(&reparsed).unwrap(), payload);
    let expected: String = Sha256::digest(payload.as_bytes())
        .iter()
        .map(|byte| format!("{byte:02x}"))
        .collect();
    let hash = extension_package_hash(&package).unwrap();
    assert_eq!(hash, expected);
    assert_eq!(hash.len(), 64);
    assert_eq!(package.integrity_sha256, hash);
    assert_eq!(validate_package(&package), Ok(()));
}

#[test]
fn interpreter_emits_host_context_only_with_capabilities() {
    let runtime = package(vec![
        ExtensionInstruction::ReadAgentContext,
        ExtensionInstruction::ListToolCatalog,
        emit("|ok|"),
    ]);
    let caps = [ExtensionCapability::AgentContext, ExtensionCapability::ToolCatalog];
    let output = interpret_extension_package(&runtime, "private input", &caps, &host()).unwrap();
    assert_eq!(output, "agent_id:agt_astra_provisionaltool_ids:tool.one,tool.two|ok|");
    assert!(!output.contains("private input"));
    assert_eq!(
        interpret_extension_package(&runtime, "", &[ExtensionCapability::AgentContext], &host()),
        Err(DatabaseError::Cognitive("extension_capability_denied"))
    );
    let echo = package(vec![ExtensionInstruction::EmitText {
        text: None,
        echo_input: Some(true),
    }]);
    assert_eq!(interpret_extension_package(&echo, "eco", &[], &host()).unwrap(), "eco");
    assert_eq!(
        interpret_extension_package(&echo, &"i".repeat(4_097), &[], &host()),
        Err(DatabaseError::Cognitive("extension_input_oversized"))
    );
    let silent = package(vec![ExtensionInstruction::EmitText {
        text: None,
        echo_input: Some(false),
    }]);
    assert_eq!(
        interpret_extension_package(&silent, "", &[], &host()),
        Err(DatabaseError::Cognitive("extension_instruction_invalid"))
    );
    let big = package(vec![emit(&"a".repeat(4_096)), emit(&"b".repeat(4_096)), emit("c")]);
    assert_eq!(
        interpret_extension_package(&big, "", &[], &host()),
        Err(DatabaseError::Cognitive("extension_output_oversized"))
    );
    let empty = ExtensionPackage {
        instructions: Vec::new(),
        ..package(vec![ExtensionInstruction::Yield])
    };
    assert_eq!(
        validate_package(&empty),
        Err(DatabaseError::Cognitive("extension_package_invalid"))
    );
}

#[test]
fn host_context_is_bounded() {
    assert_eq!(validate_host_context(&host()), Ok(()));
    let bad_agent = ExtensionHostContext {
        agent_id: "agent id".into(),
        tool_ids: Vec::new(),
    };
    assert_eq!(
        validate_host_context(&bad_agent),
        Err(DatabaseError::Cognitive("extension_host_context_invalid"))
    );
    let bad_tool = ExtensionHostContext {
        agent_id: "agent".into(),
        tool_ids: vec!["tool\u{0}".into()],
    };
    assert!(validate_host_context(&bad_tool).is_err());
    let too_many = ExtensionHostContext {
        agent_id: "agent".into(),
        tool_ids: (0..65).map(|k| format!("tool.{k}")).collect(),
    };
    assert!(validate_host_context(&too_many).is_err());
}

#[test]
fn identifiers_versions_texts_and_references_are_validated() {
    assert_eq!(validate_extension_id("fixture.notes"), Ok(()));
    assert!(validate_extension_id(".notes").is_err());
    assert!(validate_extension_id("notes.").is_err());
    assert!(validate_extension_id("Notes").is_err());
    assert!(validate_extension_id("").is_err());
    assert_eq!(
        validate_extension_id(&"a".repeat(97)),
        Err(DatabaseError::Cognitive("extension_id_invalid"))
    );
    assert_eq!(validate_extension_version("1.0.0"), Ok(()));
    assert_eq!(validate_extension_version("10.200.999999"), Ok(()));
    assert_eq!(validate_extension_version("1.+2.3"), Ok(()));
    assert_eq!(
        validate_extension_version("1.0"),
        Err(DatabaseError::Cognitive("extension_version_invalid"))
    );
    assert!(validate_extension_version("1.0.0.0").is_err());
    assert!(validate_extension_version("01.0.0").is_err());
    assert!(validate_extension_version("1..0").is_err());
    assert!(validate_extension_version("1.0.1234567").is_err());
    assert!(validate_extension_version("1.0.x").is_err());
    assert_eq!(validate_text("  Notas  ", 160), Ok("Notas".to_string()));
    assert_eq!(
        validate_text("   ", 160),
        Err(DatabaseError::Cognitive("extension_text_invalid"))
    );
    assert!(validate_text("a\u{7}b", 160).is_err());
    assert!(validate_text("abcd", 3).is_err());
    assert_eq!(
        validate_fixture_ref(" fixture:extension/notes "),
        Ok("fixture:extension/notes".to_string())
    );
    assert_eq!(
        validate_fixture_ref("fixture:extension/"),
        Err(DatabaseError::Cognitive("extension_fixture_invalid"))
    );
    assert!(validate_fixture_ref("fixture:extension/../etc").is_err());
    assert!(validate_fixture_ref("fixture:other/notes").is_err());
    assert_eq!(valid_idempotency(" key-1 "), Ok("key-1".to_string()));
    assert_eq!(
        valid_idempotency("bad key"),
        Err(DatabaseError::Cognitive("invalid_idempotency_key"))
    );
    assert_eq!(
        ensure_not_temporary(true),
        Err(DatabaseError::Cognitive("extensions_blocked_temporary"))
    );
    assert_eq!(ensure_not_temporary(false), Ok(()));
}

#[test]
fn capabilities_are_sorted_and_unique() {
    assert_eq!(
        normalize_capabilities(vec![
            ExtensionCapability::ToolCatalog,
            ExtensionCapability::AgentContext,
            ExtensionCapability::OwnerReview,
        ]),
        Ok(vec![
            ExtensionCapability::AgentContext,
            ExtensionCapability::OwnerReview,
            ExtensionCapability::ToolCatalog,
        ])
    );
    assert_eq!(
        normalize_capabilities(vec![
            ExtensionCapability::ToolCatalog,
            ExtensionCapability::ToolCatalog,
        ]),
        Err(DatabaseError::Cognitive("extension_capability_invalid"))
    );
    assert_eq!(normalize_capabilities(Vec::new()), Ok(Vec::new()));
    let once = normalize_capabilities(vec![ExtensionCapability::ToolCatalog, ExtensionCapability::AgentContext]).unwrap();
    assert_eq!(normalize_capabilities(once.clone()), Ok(once));
    assert_eq!(capability_kind(&ExtensionCapability::OwnerReview), "owner_review");
    assert_eq!(capability_from_str("tool_catalog"), Ok(ExtensionCapability::ToolCatalog));
    assert_eq!(capability_from_str("everything"), Err(()));
    assert_eq!(lifecycle_kind(&ExtensionLifecycle::RecoveryRequired), "recovery_required");
    assert_eq!(lifecycle_from_str("active"), Ok(ExtensionLifecycle::Active));
}

#[test]
fn manifests_normalize_and_stay_compatible() {
    let raw = ExtensionManifest {
        name: "  Notas locais fixture  ".into(),
        local_fixture_ref: Some(" fixture:extension/notes ".into()),
        ..manifest(
            "1.0.0",
            vec![ExtensionCapability::ToolCatalog, ExtensionCapability::AgentContext],
        )
    };
    let normalized = normalize_manifest(raw.clone()).unwrap();
    assert_eq!(normalized.name, "Notas locais fixture");
    assert_eq!(normalized.local_fixture_ref.as_deref(), Some("fixture:extension/notes"));
    assert_eq!(
        normalized.capabilities,
        vec![ExtensionCapability::AgentContext, ExtensionCapability::ToolCatalog]
    );
    assert!(manifest_is_compatible(&raw));
    assert!(manifest_is_compatible(&normalized));
    assert_eq!(normalize_manifest(normalized.clone()), Ok(normalized.clone()));
    assert_eq!(
        normalize_manifest(ExtensionManifest {
            sdk_version: "future-sdk".into(),
            ..manifest("1.0.0", vec![])
        }),
        Err(DatabaseError::Cognitive("extension_sdk_incompatible"))
    );
    assert_eq!(
        normalize_manifest(ExtensionManifest {
            untrusted: false,
            ..manifest("1.0.0", vec![])
        }),
        Err(DatabaseError::Cognitive("extension_untrusted_required"))
    );
    assert_eq!(
        normalize_manifest(ExtensionManifest {
            manifest_version: 2,
            ..manifest("1.0.0", vec![])
        }),
        Err(DatabaseError::Cognitive("extension_manifest_invalid"))
    );
    assert!(!manifest_is_compatible(&ExtensionManifest {
        extension_version: "1".into(),
        ..manifest("1.0.0", vec![])
    }));
    let with_package = ExtensionManifest {
        package: Some(package(vec![emit("hi")])),
        ..manifest("1.0.0", vec![])
    };
    assert!(normalize_manifest(with_package.clone()).is_ok());
    let json = manifest_json_text(&with_package);
    let reparsed: serde_json::Value = serde_json::from_str(&json).expect("manifest JSON");
    assert_eq!(reparsed["extensionId"], "fixture.notes");
    assert_eq!(reparsed["manifestVersion"], 1);
    assert_eq!(reparsed["package"]["instructions"][0]["op"], "emit_text");
    assert_eq!(reparsed["package"]["instructions"][0]["text"], "hi");
    let huge = ExtensionManifest {
        package: Some(package(vec![emit(&"x".repeat(4_096)), emit(&"y".repeat(4_096))])),
        ..manifest("1.0.0", vec![])
    };
    assert_eq!(
        normalize_manifest(huge),
        Err(DatabaseError::Cognitive("extension_manifest_oversized"))
    );
}

#[test]
fn sources_reviews_and_activation_follow_the_owner_rules() {
    assert_eq!(validate_source(ExtensionSourceKind::AdministratorSelected, None, "a"), Ok(None));
    assert_eq!(
        validate_source(ExtensionSourceKind::AdministratorSelected, Some("a"), "a"),
        Err(DatabaseError::Cognitive("extension_source_invalid"))
    );
    assert_eq!(
        validate_source(ExtensionSourceKind::AgentCreated, Some("a"), "a"),
        Ok(Some("a".to_string()))
    );
    assert!(validate_source(ExtensionSourceKind::AgentCreated, Some("b"), "a").is_err());
    assert!(validate_source(ExtensionSourceKind::AgentCreated, None, "a").is_err());

    let request = agent_proposal_request(ExtensionAgentProposalRequest {
        agent_id: "agt_luma_provisional".into(),
        owner_user_id: "usr_owner_local".into(),
        manifest: manifest("1.0.0", vec![ExtensionCapability::OwnerReview]),
        idempotency_key: "agent-proposal-1".into(),
        temporary_chat: false,
    });
    assert_eq!(request.source_kind, ExtensionSourceKind::AgentCreated);
    assert_eq!(request.proposer_agent_id.as_deref(), Some("agt_luma_provisional"));

    let pending = proposal(ExtensionProposalStatus::Pending, vec![ExtensionCapability::ToolCatalog]);
    assert_eq!(review_decision(false, &pending, &review(true, vec![ExtensionCapability::ToolCatalog], None)), Ok(()));
    assert_eq!(
        review_decision(false, &pending, &review(true, vec![ExtensionCapability::AgentContext], None)),
        Err(DatabaseError::Cognitive("extension_permission_invalid"))
    );
    assert_eq!(
        review_decision(false, &pending, &review(false, vec![ExtensionCapability::ToolCatalog], Some("no"))),
        Err(DatabaseError::Cognitive("extension_permission_invalid"))
    );
    assert_eq!(
        review_decision(false, &pending, &review(false, vec![], None)),
        Err(DatabaseError::Cognitive("extension_review_reason_required"))
    );
    let mut self_review = review(true, vec![], None);
    self_review.agent_id = "agt_luma_provisional".into();
    assert_eq!(
        review_decision(false, &pending, &self_review),
        Err(DatabaseError::Cognitive("extension_proposal_self_review"))
    );
    let approved = proposal(ExtensionProposalStatus::Approved, vec![ExtensionCapability::ToolCatalog]);
    assert_eq!(
        review_decision(false, &approved, &review(true, vec![], None)),
        Err(DatabaseError::Cognitive("extension_proposal_invalid"))
    );
    assert_eq!(
        review_permission_status(true, &vec![ExtensionCapability::ToolCatalog], ExtensionCapability::ToolCatalog),
        ExtensionPermissionStatus::Approved
    );
    assert_eq!(
        review_permission_status(false, &vec![ExtensionCapability::ToolCatalog], ExtensionCapability::ToolCatalog),
        ExtensionPermissionStatus::Denied
    );
    assert_eq!(
        review_outcome(false),
        (ExtensionProposalStatus::Rejected, ExtensionReviewStatus::Rejected, ExtensionLifecycle::Rejected)
    );

    assert_eq!(
        activation_decision(false, &pending, "fixture.notes", 1),
        Err(DatabaseError::Cognitive("extension_review_required"))
    );
    let mut ready = approved.clone();
    ready.review_status = ExtensionReviewStatus::Approved;
    assert_eq!(
        activation_decision(false, &ready, "fixture.notes", 1),
        Err(DatabaseError::Cognitive("extension_permission_required"))
    );
    ready.permissions[0].status = ExtensionPermissionStatus::Approved;
    assert_eq!(activation_decision(false, &ready, "fixture.notes", 1), Ok(()));
    assert_eq!(
        activation_decision(false, &ready, "fixture.notes", 2),
        Err(DatabaseError::Cognitive("extension_update_requires_review"))
    );
    assert_eq!(rollback_decision(false, 1, 2, Some(&ready)), Ok(()));
    assert_eq!(
        rollback_decision(false, 0, 2, Some(&ready)),
        Err(DatabaseError::Cognitive("extension_revision_invalid"))
    );
    assert_eq!(
        rollback_decision(false, 2, 2, Some(&ready)),
        Err(DatabaseError::Cognitive("extension_rollback_unavailable"))
    );
    assert_eq!(
        rollback_decision(false, 1, 2, None),
        Err(DatabaseError::Cognitive("extension_rollback_unavailable"))
    );
    let blocked = Err(DatabaseError::Cognitive("extensions_blocked_safe_mode"));
    assert_eq!(
        review_decision(true, &pending, &review(true, vec![ExtensionCapability::ToolCatalog], None)),
        blocked
    );
    assert_eq!(activation_decision(true, &ready, "fixture.notes", 1), blocked);
    assert_eq!(rollback_decision(true, 1, 2, Some(&ready)), blocked);
    assert_eq!(ensure_extensions_enabled(true), blocked);
    assert_eq!(ensure_extensions_enabled(false), Ok(()));
}

#[test]
fn executions_are_gated_and_stepped() {
    let request = ExtensionExecutionRequest {
        agent_id: "agt_astra_provisional".into(),
        owner_user_id: "usr_owner_local".into(),
        extension_id: "fixture.notes".into(),
        revision: 1,
        package_hash: "0".repeat(64),
        input: String::new(),
        idempotency_key: "execute".into(),
        temporary_chat: false,
    };
    assert_eq!(execution_request_check(&request), Ok(()));
    assert_eq!(
        execution_request_check(&ExtensionExecutionRequest { temporary_chat: true, ..request.clone() }),
        Err(DatabaseError::Cognitive("extensions_blocked_temporary"))
    );
    assert_eq!(
        execution_request_check(&ExtensionExecutionRequest { owner_user_id: "someone".into(), ..request.clone() }),
        Err(DatabaseError::Cognitive("extension_execution_denied"))
    );
    assert_eq!(
        check_agent_may_execute("safe", false),
        Err(DatabaseError::Cognitive("extension_execution_blocked_suspended"))
    );
    assert!(check_agent_may_execute("normal", true).is_err());
    assert_eq!(check_agent_may_execute("normal", false), Ok(()));
    assert_eq!(check_catalog_executable(ExtensionLifecycle::Active, Some(1), true, 1), Ok(()));
    assert!(check_catalog_executable(ExtensionLifecycle::Active, Some(2), true, 1).is_err());
    assert!(check_catalog_executable(ExtensionLifecycle::Disabled, Some(1), true, 1).is_err());

    let runtime = package(vec![
        ExtensionInstruction::ReadAgentContext,
        ExtensionInstruction::ListToolCatalog,
        emit("|ok|"),
    ]);
    assert_eq!(check_package_integrity(&runtime, &runtime.integrity_sha256.to_uppercase()), Ok(()));
    assert_eq!(
        check_package_integrity(&runtime, &"0".repeat(64)),
        Err(DatabaseError::Cognitive("extension_integrity_mismatch"))
    );

    let caps = [ExtensionCapability::AgentContext, ExtensionCapability::ToolCatalog];
    let mut run = ExtensionRun::new();
    for k in 0..runtime.instructions.len() {
        assert!(run.step(&runtime, k, 10, false, "input", &caps, &host()));
    }
    let result = run.finish("execution-1".into());
    assert_eq!(result.status, "succeeded");
    assert_eq!(
        result.output.as_deref(),
        Some("agent_id:agt_astra_provisionaltool_ids:tool.one,tool.two|ok|")
    );
    assert_eq!(result.steps, 3);

    let mut denied = ExtensionRun::new();
    assert!(!denied.step(&runtime, 0, 10, false, "input", &[], &host()));
    assert_eq!(denied.status, ExecutionStatus::Failed);
    assert_eq!(denied.error.as_deref(), Some("extension_capability_denied"));
    let failed = denied.finish("execution-2".into());
    assert_eq!(failed.output, None);

    let mut late = ExtensionRun::new();
    assert!(!late.step(&runtime, 0, 5_001, false, "input", &caps, &host()));
    assert_eq!(late.status, ExecutionStatus::Terminated);
    assert_eq!(late.error.as_deref(), Some("extension_execution_limit"));

    let mut cancelled = ExtensionRun::new();
    assert!(!cancelled.step(&runtime, 0, 10, true, "input", &caps, &host()));
    assert_eq!(cancelled.error.as_deref(), Some("extension_execution_cancelled"));
    assert_eq!(cancelled.finish("execution-3".into()).status, "terminated");
}

#[test]
fn capability_order_and_repeats_do_not_change_the_stored_order() {
    let forward = normalize_capabilities(vec![
        ExtensionCapability::AgentContext,
        ExtensionCapability::ToolCatalog,
    ])
    .unwrap();
    let backward = normalize_capabilities(vec![
        ExtensionCapability::ToolCatalog,
        ExtensionCapability::AgentContext,
    ])
    .unwrap();
    assert_eq!(forward, backward);
    assert_eq!(
        normalize_capabilities(vec![ExtensionCapability::OwnerReview; 9]),
        Err(DatabaseError::Cognitive("extension_capability_invalid"))
    );
}
