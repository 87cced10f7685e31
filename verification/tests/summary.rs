use aip_desktop::domain::{ConversationMessage, MessageAuthor, MessageStatus};
use aip_desktop::summary::conversation_summary;

fn message(k: usize, author: MessageAuthor, status: MessageStatus, content: &str) -> ConversationMessage {
    ConversationMessage {
        id: format!("m{k}"),
        conversation_id: "c".into(),
        agent_id: "agt_astra_provisional".into(),
        author,
        content: content.into(),
        model_ref: None,
        status,
        created_at: k as i64,
        completed_at: None,
        error_code: None,
    }
}

fn turns(count: usize) -> Vec<ConversationMessage> {
    (0..count)
        .map(|k| {
            let author = if k % 2 == 0 { MessageAuthor::User } else { MessageAuthor::Agent };
            message(k, author, MessageStatus::Complete, &format!("texto {k}"))
        })
        .collect()
}

#[test]
fn summaries_cover_only_completed_turns_before_the_recent_ones() {
    assert_eq!(conversation_summary(&turns(8)), None);
    let summary = conversation_summary(&turns(10)).expect("two turns are covered");
    assert_eq!(summary.through_message_id, "m1");
    assert_eq!(
        summary.content,
        "Resumo local de mensagens anteriores:\nVocê: texto 0\nAgente: texto 1\n"
    );
    let mut with_failures = turns(10);
    with_failures.insert(2, message(99, MessageAuthor::Agent, MessageStatus::Failed, "falhou"));
    let summary = conversation_summary(&with_failures).unwrap();
    assert_eq!(summary.through_message_id, "m1");
    assert!(!summary.content.contains("falhou"));
}

#[test]
fn summaries_keep_the_last_twelve_covered_and_stay_bounded() {
    let summary = conversation_summary(&turns(30)).unwrap();
    assert_eq!(summary.through_message_id, "m21");
    assert!(summary.content.contains("texto 10\n"));
    assert!(!summary.content.contains("texto 9\n"));
    let long: Vec<ConversationMessage> = (0..20)
        .map(|k| message(k, MessageAuthor::User, MessageStatus::Complete, &"x".repeat(3_000)))
        .collect();
    let summary = conversation_summary(&long).unwrap();
    assert!(summary.content.len() <= 4_000);
    assert_eq!(summary.content.matches("Você: ").count(), 2);
}

#[test]
fn summaries_leave_out_an_owner_message_whose_reply_failed() {
    let mut messages = vec![
        message(100, MessageAuthor::User, MessageStatus::Complete, "failed user"),
        message(101, MessageAuthor::Agent, MessageStatus::Failed, ""),
    ];
    for i in 0..9 {
        messages.push(message(2 * i, MessageAuthor::User, MessageStatus::Complete, &format!("completed user {i}")));
        messages.push(message(2 * i + 1, MessageAuthor::Agent, MessageStatus::Complete, &format!("reply {i}")));
    }
    let summary = conversation_summary(&messages).unwrap();
    assert!(summary.content.contains("completed user"));
    assert!(!summary.content.contains("failed user"));
    assert_eq!(summary.through_message_id, "m9");
}
