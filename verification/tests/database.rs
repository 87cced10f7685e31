use aip_desktop::database::{
    replay_decision, ReplayDecision,
    check_memory_search, check_memory_status, check_memory_text, confirmation_after_status,
    explicit_memory_candidate, explicit_memory_source, check_branch_attempt_input, check_branch_source, check_rollback_target, valid_trait_key, validate_profile,
    ProfileFields, check_finish_status, check_message_input, check_message_transition, check_owner_correction,
    check_trait_key, evolvable_trait, explicit_memory_content, protected_trait,
    safe_mode_setting, trait_label, valid_calendar_date, valid_idempotency_key, valid_model_ref,
    valid_source_part, DatabaseError, ASTRA_ID, LUMA_ID, OWNER_ID,
};
use aip_desktop::domain::{ConversationMessage, MessageAuthor, MessageStatus, MAX_USER_MESSAGE_BYTES};

#[test]
fn error_codes_and_messages_are_stable() {
    assert_eq!(DatabaseError::Unavailable.code(), "persistence_failed");
    assert_eq!(DatabaseError::NotFound.code(), "event_not_found");
    assert_eq!(DatabaseError::OwnershipMismatch.code(), "ownership_mismatch");
    assert_eq!(DatabaseError::InvalidValue.code(), "invalid_value");
    assert_eq!(DatabaseError::InvalidTransition.code(), "operation_unavailable");
    assert_eq!(DatabaseError::Cognitive("trait_not_found").code(), "trait_not_found");
    assert_eq!(DatabaseError::Unavailable.message(), "database unavailable");
    assert_eq!(
        DatabaseError::Cognitive("source_ineligible").message(),
        "cognitive error: source_ineligible"
    );
    assert_eq!(OWNER_ID, "usr_owner_local");
    assert_eq!(ASTRA_ID, "agt_astra_provisional");
    assert_eq!(LUMA_ID, "agt_luma_provisional");
}

#[test]
fn model_references_name_ollama_models() {
    assert!(valid_model_ref("ollama:llama3.2:3b"));
    assert!(valid_model_ref("ollama:library/qwen_2-5"));
    assert!(!valid_model_ref("ollama:"));
    assert!(!valid_model_ref("openai:gpt"));
    assert!(!valid_model_ref("ollama:bad model"));
    assert!(!valid_model_ref(&format!("ollama:{}", "a".repeat(201))));
    assert!(valid_model_ref(&format!("ollama:{}", "a".repeat(200))));
}

#[test]
fn message_input_is_bounded_and_names_a_model() {
    assert_eq!(check_message_input("Oi", "ollama:test"), Ok(()));
    assert_eq!(check_message_input("", "ollama:test"), Err(DatabaseError::InvalidValue));
    assert_eq!(
        check_message_input(&"x".repeat(MAX_USER_MESSAGE_BYTES + 1), "ollama:test"),
        Err(DatabaseError::InvalidValue)
    );
    assert_eq!(check_message_input("Oi", "test"), Err(DatabaseError::InvalidValue));
}

#[test]
fn generations_finish_only_with_terminal_statuses() {
    assert_eq!(check_finish_status(MessageStatus::Complete), Ok(()));
    assert_eq!(check_finish_status(MessageStatus::Failed), Ok(()));
    assert_eq!(check_finish_status(MessageStatus::Cancelled), Ok(()));
    assert_eq!(check_finish_status(MessageStatus::Streaming), Err(DatabaseError::InvalidTransition));
    assert_eq!(check_finish_status(MessageStatus::Pending), Err(DatabaseError::InvalidTransition));
}

#[test]
fn stored_statuses_move_only_forward() {
    assert_eq!(check_message_transition("pending", MessageStatus::Streaming), Ok(()));
    assert_eq!(check_message_transition("streaming", MessageStatus::Complete), Ok(()));
    assert_eq!(
        check_message_transition("complete", MessageStatus::Streaming),
        Err(DatabaseError::InvalidTransition)
    );
    assert_eq!(
        check_message_transition("exploded", MessageStatus::Failed),
        Err(DatabaseError::InvalidValue)
    );
    assert_eq!(safe_mode_setting(true), "true");
    assert_eq!(safe_mode_setting(false), "false");
}

#[test]
fn calendar_dates_must_exist() {
    assert!(valid_calendar_date("2024-02-29"));
    assert!(!valid_calendar_date("2023-02-29"));
    assert!(valid_calendar_date("2000-02-29"));
    assert!(!valid_calendar_date("1900-02-29"));
    assert!(valid_calendar_date("2023-12-31"));
    assert!(!valid_calendar_date("2023-13-01"));
    assert!(!valid_calendar_date("2023-04-31"));
    assert!(!valid_calendar_date("0000-01-01"));
    assert!(!valid_calendar_date("2023-01-00"));
    assert!(!valid_calendar_date("2023/01/01"));
    assert!(!valid_calendar_date("2023-1-01"));
    assert!(!valid_calendar_date("20a3-01-01"));
    assert!(valid_calendar_date("2023-+1-+5"));
    assert!(!valid_calendar_date("2023-01-+"));
}

#[test]
fn traits_split_into_evolvable_protected_and_unknown() {
    assert!(evolvable_trait("curiosity"));
    assert!(evolvable_trait("autonomy"));
    assert!(!evolvable_trait("protected_loyalty"));
    assert!(protected_trait("protected_loyalty"));
    assert!(!protected_trait("curiosity"));
    assert_eq!(trait_label("affection"), "Afetividade");
    assert_eq!(trait_label("protected_loyalty"), "Traço protegido");
    assert_eq!(check_trait_key("sociability"), Ok(()));
    assert_eq!(check_trait_key("protected_core"), Err(DatabaseError::Cognitive("protected_trait")));
    assert_eq!(check_trait_key("humor"), Err(DatabaseError::Cognitive("trait_not_found")));
}

#[test]
fn keys_and_source_parts_are_bounded_tokens() {
    assert!(valid_idempotency_key("delta:1_a-b"));
    assert!(!valid_idempotency_key(""));
    assert!(!valid_idempotency_key("has space"));
    assert!(!valid_idempotency_key(&"k".repeat(129)));
    assert!(valid_source_part("conversation-1", 128));
    assert!(!valid_source_part("conversation:1", 128));
    assert!(!valid_source_part("abc", 2));
    assert_eq!(check_owner_correction("  motivo  ", "owner-1"), Ok(()));
    assert_eq!(
        check_owner_correction("   ", "owner-1"),
        Err(DatabaseError::Cognitive("invalid_reason"))
    );
    assert_eq!(
        check_owner_correction("motivo", "bad key"),
        Err(DatabaseError::Cognitive("invalid_idempotency_key"))
    );
}

#[test]
fn explicit_memory_commands_are_recognized() {
    assert_eq!(explicit_memory_content("  Lembre que eu gosto de chá  "), Some("eu gosto de chá"));
    assert_eq!(explicit_memory_content("lembra que amanhã tem prova"), Some("amanhã tem prova"));
    assert_eq!(explicit_memory_content("ANOTE QUE   o gato é laranja"), Some("o gato é laranja"));
    assert_eq!(explicit_memory_content("lembre que    "), None);
    assert_eq!(explicit_memory_content("você lembra que eu gosto de chá?"), None);
    assert_eq!(explicit_memory_content(&format!("anote que {}", "x".repeat(4_001))), None);
    assert_eq!(
        explicit_memory_content(&format!("anote que {}", "x".repeat(4_000))).map(str::len),
        Some(4_000)
    );
}

fn profile() -> ProfileFields {
    ProfileFields {
        name: "Astra".into(),
        birthday: "2024-02-29".into(),
        fictive_age: 21,
        age_category: "adulta".into(),
        species: "humana".into(),
        pronouns: "ela/dela".into(),
        personality_summary: "curiosa".into(),
        traits_json: "{\"curiosity\":70}".into(),
        appearance_preset: "astra".into(),
    }
}

#[test]
fn profiles_are_bounded_and_dated() {
    assert_eq!(validate_profile(&profile(), true), Ok(()));
    assert_eq!(validate_profile(&profile(), false), Err(DatabaseError::InvalidValue));
    let mut blank_name = profile();
    blank_name.name = "   ".into();
    assert_eq!(validate_profile(&blank_name, true), Err(DatabaseError::InvalidValue));
    let mut bad_date = profile();
    bad_date.birthday = "2023-02-29".into();
    assert_eq!(validate_profile(&bad_date, true), Err(DatabaseError::InvalidValue));
    let mut old = profile();
    old.fictive_age = 10_001;
    assert_eq!(validate_profile(&old, true), Err(DatabaseError::InvalidValue));
    let mut preset = profile();
    preset.appearance_preset = "nova".into();
    assert_eq!(validate_profile(&preset, true), Err(DatabaseError::InvalidValue));
    let mut luma = profile();
    luma.appearance_preset = "luma".into();
    assert_eq!(validate_profile(&luma, true), Ok(()));
    assert!(valid_trait_key("curiosity"));
    assert!(valid_trait_key("custom_humor_2"));
    assert!(!valid_trait_key("custom_"));
    assert!(!valid_trait_key("custom_Humor"));
    assert!(!valid_trait_key(&format!("custom_{}", "a".repeat(49))));
    assert!(!valid_trait_key("humor"));
}

#[test]
fn branch_attempts_need_a_uuid_request_and_the_right_source() {
    let id = "550e8400-e29b-41d4-a716-446655440000";
    assert_eq!(check_branch_attempt_input("ollama:test", id), Ok(()));
    assert_eq!(check_branch_attempt_input("ollama:test", "550e8400e29b41d4a716446655440000"), Ok(()));
    assert_eq!(
        check_branch_attempt_input("ollama:test", "{550e8400-e29b-41d4-a716-446655440000}"),
        Ok(())
    );
    assert_eq!(
        check_branch_attempt_input("ollama:test", "URN:uuid:550E8400-E29B-41D4-A716-446655440000"),
        Ok(())
    );
    assert_eq!(
        check_branch_attempt_input("ollama:test", "request-1"),
        Err(DatabaseError::InvalidValue)
    );
    assert_eq!(
        check_branch_attempt_input("ollama:test", "550e8400-e29b-41d4-a716-44665544000g"),
        Err(DatabaseError::InvalidValue)
    );
    assert_eq!(check_branch_attempt_input("test", id), Err(DatabaseError::InvalidValue));
    assert_eq!(check_branch_source(true, "user"), Ok(()));
    assert_eq!(check_branch_source(true, "agent"), Err(DatabaseError::InvalidValue));
    assert_eq!(check_branch_source(false, "agent"), Ok(()));
    assert_eq!(check_branch_source(false, "user"), Err(DatabaseError::InvalidValue));
}

#[test]
fn only_the_latest_applied_event_rolls_back() {
    assert_eq!(check_rollback_target("trait_delta", "applied", false, "e2", "e2"), Ok(()));
    assert_eq!(
        check_rollback_target("rollback", "applied", false, "e2", "e2"),
        Err(DatabaseError::Cognitive("rollback_not_allowed"))
    );
    assert_eq!(
        check_rollback_target("trait_delta", "rejected", false, "e2", "e2"),
        Err(DatabaseError::Cognitive("rollback_not_allowed"))
    );
    assert_eq!(
        check_rollback_target("trait_delta", "applied", true, "e2", "e2"),
        Err(DatabaseError::Cognitive("rollback_not_allowed"))
    );
    assert_eq!(
        check_rollback_target("trait_delta", "applied", false, "e3", "e2"),
        Err(DatabaseError::Cognitive("rollback_conflict"))
    );
}

#[test]
fn memory_text_is_trimmed_and_bounded() {
    assert_eq!(check_memory_text("  fact ", "  likes tea \n"), Ok(("fact", "likes tea")));
    assert_eq!(check_memory_text("   ", "likes tea"), Err(DatabaseError::InvalidValue));
    assert_eq!(check_memory_text("fact", " \t "), Err(DatabaseError::InvalidValue));
    let long_category = "c".repeat(65);
    assert_eq!(check_memory_text(&long_category, "x"), Err(DatabaseError::InvalidValue));
    let category = "c".repeat(64);
    assert!(check_memory_text(&category, "x").is_ok());
    let content = "x".repeat(4_000);
    assert!(check_memory_text("fact", &content).is_ok());
    let long_content = "x".repeat(4_001);
    assert_eq!(check_memory_text("fact", &long_content), Err(DatabaseError::InvalidValue));
}

#[test]
fn memory_statuses_and_confirmation() {
    for status in ["active", "archived", "trashed", "candidate_rejected"] {
        assert_eq!(check_memory_status(status), Ok(()));
    }
    assert_eq!(check_memory_status("deleted"), Err(DatabaseError::InvalidValue));
    assert_eq!(check_memory_status("Active"), Err(DatabaseError::InvalidValue));
    assert_eq!(confirmation_after_status("active", "pending"), "confirmed");
    assert_eq!(confirmation_after_status("candidate_rejected", "pending"), "rejected");
    assert_eq!(confirmation_after_status("archived", "pending"), "pending");
    assert_eq!(confirmation_after_status("trashed", "confirmed"), "confirmed");
}

#[test]
fn memory_search_inputs() {
    assert_eq!(check_memory_search(Some("  chá "), None, None, None), Ok(Some("chá")));
    assert_eq!(check_memory_search(Some("   "), None, None, None), Ok(None));
    assert_eq!(check_memory_search(None, Some("active"), Some("fact"), Some("manual")), Ok(None));
    assert_eq!(check_memory_search(None, Some(" "), None, None), Err(DatabaseError::InvalidValue));
    let long_filter = "f".repeat(65);
    assert_eq!(
        check_memory_search(None, None, Some(&long_filter), None),
        Err(DatabaseError::InvalidValue)
    );
    let query = format!("  {}  ", "q".repeat(256));
    assert!(check_memory_search(Some(&query), None, None, None).is_ok());
    let long_query = "q".repeat(257);
    assert_eq!(
        check_memory_search(Some(&long_query), None, None, None),
        Err(DatabaseError::InvalidValue)
    );
}

fn visible(id: &str, author: MessageAuthor, status: MessageStatus, content: &str) -> ConversationMessage {
    ConversationMessage {
        id: id.into(),
        conversation_id: "c".into(),
        agent_id: ASTRA_ID.into(),
        author,
        content: content.into(),
        model_ref: None,
        status,
        created_at: 0,
        completed_at: None,
        error_code: None,
    }
}

#[test]
fn explicit_memory_comes_from_the_last_owner_message_before_the_reply() {
    let messages = vec![
        visible("u1", MessageAuthor::User, MessageStatus::Complete, "Lembre que gosto de chá"),
        visible("a1", MessageAuthor::Agent, MessageStatus::Complete, "ok"),
        visible("u2", MessageAuthor::User, MessageStatus::Complete, "anote que moro em Lisboa"),
        visible("u3", MessageAuthor::User, MessageStatus::Failed, "lembre que isto falhou"),
        visible("a2", MessageAuthor::Agent, MessageStatus::Complete, "anotado"),
    ];
    assert_eq!(explicit_memory_source(&messages, "a1"), Some(0));
    assert_eq!(explicit_memory_source(&messages, "a2"), Some(2));
    assert_eq!(explicit_memory_source(&messages, "u2"), None);
    assert_eq!(explicit_memory_source(&messages, "missing"), None);
    assert_eq!(explicit_memory_candidate(&messages, "a1"), Some((0, "gosto de chá")));
    assert_eq!(explicit_memory_candidate(&messages, "a2"), Some((2, "moro em Lisboa")));
    let plain = vec![
        visible("u1", MessageAuthor::User, MessageStatus::Complete, "olá"),
        visible("a1", MessageAuthor::Agent, MessageStatus::Complete, "oi"),
    ];
    assert_eq!(explicit_memory_source(&plain, "a1"), Some(0));
    assert_eq!(explicit_memory_candidate(&plain, "a1"), None);
    let streaming = vec![
        visible("u1", MessageAuthor::User, MessageStatus::Complete, "lembre que x"),
        visible("a1", MessageAuthor::Agent, MessageStatus::Streaming, ""),
    ];
    assert_eq!(explicit_memory_source(&streaming, "a1"), None);
}

#[test]
fn idempotency_keys_replay_the_same_request_and_refuse_another() {
    assert_eq!(replay_decision(None, "{\"a\":1}"), Ok(ReplayDecision::Proceed));
    assert_eq!(replay_decision(Some("{\"a\":1}"), "{\"a\":1}"), Ok(ReplayDecision::Replay));
    assert_eq!(
        replay_decision(Some("{\"a\":1}"), "{\"a\":2}"),
        Err(DatabaseError::Cognitive("idempotency_conflict"))
    );
}
