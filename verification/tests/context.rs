use aip_desktop::context::{assemble_context, recent_context};
use aip_desktop::database::{check_conversation_title, check_keep_alive, ContextMessage, DatabaseError};
use aip_desktop::domain::{ConversationMessage, MessageAuthor, MessageStatus, MAX_KEEP_ALIVE_MINUTES};

fn turn(k: usize, author: MessageAuthor, status: MessageStatus, content: &str) -> ConversationMessage {
    ConversationMessage {
        id: format!("m{k}"),
        conversation_id: "c".into(),
        agent_id: "agt_astra_provisional".into(),
        author,
        content: content.into(),
        model_ref: None,
        status,
        created_at: k as i64,
        completed_at: None,
        error_code: None,
    }
}

fn seen(messages: &[ContextMessage]) -> Vec<(MessageAuthor, &str)> {
    messages.iter().map(|m| (m.author, m.content.as_str())).collect()
}

#[test]
fn context_leaves_out_turns_whose_reply_failed() {
    let ordered = vec![
        turn(0, MessageAuthor::User, MessageStatus::Complete, "oi"),
        turn(1, MessageAuthor::Agent, MessageStatus::Complete, "olá"),
        turn(2, MessageAuthor::User, MessageStatus::Complete, "pergunta perdida"),
        turn(3, MessageAuthor::Agent, MessageStatus::Failed, ""),
        turn(4, MessageAuthor::User, MessageStatus::Complete, "outra"),
        turn(5, MessageAuthor::Agent, MessageStatus::Streaming, "par"),
    ];
    let context = recent_context(&ordered, 10);
    assert_eq!(
        seen(&context),
        vec![
            (MessageAuthor::User, "oi"),
            (MessageAuthor::Agent, "olá"),
            (MessageAuthor::User, "outra"),
        ]
    );
}

#[test]
fn context_keeps_only_the_latest_turns() {
    let ordered: Vec<ConversationMessage> = (0..6)
        .map(|k| {
            let author = if k % 2 == 0 { MessageAuthor::User } else { MessageAuthor::Agent };
            turn(k, author, MessageStatus::Complete, &format!("t{k}"))
        })
        .collect();
    let context = recent_context(&ordered, 2);
    assert_eq!(seen(&context), vec![(MessageAuthor::User, "t4"), (MessageAuthor::Agent, "t5")]);
    assert!(recent_context(&ordered, 0).is_empty());
    assert_eq!(recent_context(&ordered, 100).len(), 6);
}

#[test]
fn context_starts_with_summary_then_memories() {
    let turns = vec![ContextMessage { author: MessageAuthor::User, content: "oi".into() }];
    let context = assemble_context(
        Some("Resumo".into()),
        &["gosta de chá".to_string(), "mora em Lisboa".to_string()],
        turns,
    );
    assert_eq!(
        seen(&context),
        vec![
            (MessageAuthor::System, "Resumo"),
            (MessageAuthor::System, "Memória confirmada: gosta de chá"),
            (MessageAuthor::System, "Memória confirmada: mora em Lisboa"),
            (MessageAuthor::User, "oi"),
        ]
    );
    assert!(assemble_context(None, &[], Vec::new()).is_empty());
}

#[test]
fn conversation_titles_and_keep_alive() {
    assert_eq!(check_conversation_title("  Planos  "), Ok("Planos"));
    assert_eq!(check_conversation_title("   "), Err(DatabaseError::InvalidValue));
    let long = "t".repeat(161);
    assert_eq!(check_conversation_title(&long), Err(DatabaseError::InvalidValue));
    let longest = "t".repeat(160);
    assert!(check_conversation_title(&longest).is_ok());
    assert_eq!(check_keep_alive(MAX_KEEP_ALIVE_MINUTES), Ok(()));
    assert_eq!(check_keep_alive(MAX_KEEP_ALIVE_MINUTES + 1), Err(DatabaseError::InvalidValue));
    assert_eq!(check_keep_alive(0), Ok(()));
}
