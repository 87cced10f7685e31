//! Local conversation summaries: the completed turns before the most recent ones, folded
//! into one bounded text.
use vstd::prelude::*;

use crate::context::counts_for_context;
use crate::domain::{ConversationMessage, MessageAuthor, MessageStatus};
use crate::text::byte_len;

verus! {

/// How many of the latest completed turns stay out of the summary.
pub const RECENT_MESSAGES: usize = 8;
/// How many messages before those the summary covers at most.
pub const SUMMARIZED_MESSAGES: usize = 12;
/// The byte budget of a summary, header included.
pub const SUMMARY_BUDGET_BYTES: usize = 4_000;

/// A summary of a conversation branch, through the last message it covers.
#[derive(Debug, Clone, PartialEq, Eq)]
pub struct ConversationSummary {
    pub through_message_id: String,
    pub content: String,
}

/// The messages among the first `n` that count as completed turns (see `counts_for_context`):
/// complete owner and agent messages, leaving out an owner message whose reply failed or was
/// cancelled.
pub open spec fn counted_messages(s: Seq<ConversationMessage>, n: nat) -> Seq<ConversationMessage>
    decreases n,
{
    if n == 0 {
        Seq::empty()
    } else {
        let earlier = counted_messages(s, (n - 1) as nat);
        if counts_for_context(s, n - 1) {
            earlier.push(s[n - 1])
        } else {
            earlier
        }
    }
}

/// The completed turns of a branch, in order.
pub open spec fn completed_turns(messages: Seq<ConversationMessage>) -> Seq<ConversationMessage> {
    counted_messages(messages, messages.len())
}

pub open spec fn speaker(m: ConversationMessage) -> Seq<char> {
    if m.author == MessageAuthor::User {
        "Você"@
    } else {
        "Agente"@
    }
}

pub open spec fn budget_left(acc: Seq<char>) -> int {
    if byte_len(acc) >= SUMMARY_BUDGET_BYTES {
        0
    } else {
        SUMMARY_BUDGET_BYTES - byte_len(acc)
    }
}

/// Appends one line per message, `speaker: excerpt`, while at least 16 bytes of the budget
/// are left; an excerpt keeps as many characters as the bytes left after the speaker and its
/// separators.
pub open spec fn summary_lines(lines: Seq<ConversationMessage>, acc: Seq<char>) -> Seq<char>
    decreases lines.len(),
{
    if lines.len() == 0 {
        acc
    } else {
        let remaining = budget_left(acc);
        if remaining < 16 {
            acc
        } else {
            let prefix = speaker(lines[0]);
            let room = remaining - (byte_len(prefix) + 3);
            let text = lines[0].content@;
            let excerpt = if room < text.len() {
                text.take(room)
            } else {
                text
            };
            summary_lines(lines.drop_first(), acc + prefix + ": "@ + excerpt + "\n"@)
        }
    }
}

/// The summary of a branch: none while it has at most eight completed turns; otherwise the
/// completed turns but the last eight are covered, through the last of them, and the last
/// twelve of those are written after a header.
pub open spec fn summary_of(messages: Seq<ConversationMessage>) -> Option<(Seq<char>, Seq<char>)> {
    let rows = completed_turns(messages);
    if rows.len() <= RECENT_MESSAGES {
        None
    } else {
        let covered = rows.subrange(0, rows.len() - RECENT_MESSAGES);
        let start = if covered.len() > SUMMARIZED_MESSAGES {
            covered.len() - SUMMARIZED_MESSAGES
        } else {
            0
        };
        Some(
            (
                covered.last().id@,
                summary_lines(
                    covered.subrange(start, covered.len() as int),
                    "Resumo local de mensagens anteriores:\n"@,
                ),
            ),
        )
    }
}

proof fn lemma_speaker_bytes()
    ensures
        byte_len("Você"@) == 5,
        byte_len("Agente"@) == 6,
{
    reveal_strlit("Você");
    reveal_strlit("Agente");
    reveal_with_fuel(vstd::utf8::encode_utf8, 7);
    assert(byte_len("Você"@) == 5);
    assert(byte_len("Agente"@) == 6);
}

/// The summary of a branch's messages, in order (see `summary_of`).
pub fn conversation_summary(messages: &[ConversationMessage]) -> (r: Option<ConversationSummary>)
    ensures
        match summary_of(messages@) {
            None => r is None,
            Some((through, content)) => r matches Some(s) && s.through_message_id@ == through
                && s.content@ == content,
        },
{
    let mut rows: Vec<usize> = Vec::new();
    let n = messages.len();
    let mut k: usize = 0;
    while k < n
        invariant
            n == messages@.len(),
            k <= n,
            forall|j: int| 0 <= j < rows@.len() ==> (rows@[j] as int) < k,
            rows@.map_values(|i: usize| messages@[i as int]) == counted_messages(
                messages@,
                k as nat,
            ),
        decreases n - k,
    {
        let ghost before = rows@;
        let m = &messages[k];
        let reply_kept = if k + 1 >= n {
            true
        } else {
            let next = &messages[k + 1];
            next.author != MessageAuthor::Agent || next.status == MessageStatus::Pending
                || next.status == MessageStatus::Streaming || next.status == MessageStatus::Complete
        };
        if m.status == MessageStatus::Complete && (m.author == MessageAuthor::User || m.author
            == MessageAuthor::Agent) && (m.author == MessageAuthor::Agent || reply_kept) {
            rows.push(k);
            proof {
                assert(rows@.map_values(|i: usize| messages@[i as int]) =~= before.map_values(
                    |i: usize| messages@[i as int],
                ).push(messages@[k as int]));
            }
        }
        k = k + 1;
    }
    let ghost all_rows = rows@.map_values(|i: usize| messages@[i as int]);
    assert(all_rows == completed_turns(messages@));
    if rows.len() <= RECENT_MESSAGES {
        return None;
    }
    let covered_len = rows.len() - RECENT_MESSAGES;
    let ghost covered = all_rows.subrange(0, covered_len as int);
    let start = if covered_len > SUMMARIZED_MESSAGES {
        covered_len - SUMMARIZED_MESSAGES
    } else {
        0
    };
    let ghost lines = covered.subrange(start as int, covered_len as int);
    let header = "Resumo local de mensagens anteriores:\n";
    let mut content = String::new();
    content.append(header);
    assert(content@ =~= header@);
    assert(lines.subrange(0, lines.len() as int) =~= lines);
    proof {
        lemma_speaker_bytes();
    }
    let mut j: usize = start;
    while j < covered_len
        invariant
            n == messages@.len(),
            forall|q: int| 0 <= q < rows@.len() ==> (rows@[q] as int) < n,
            all_rows == rows@.map_values(|i: usize| messages@[i as int]),
            covered_len <= rows@.len(),
            covered == all_rows.subrange(0, covered_len as int),
            start <= covered_len,
            lines == covered.subrange(start as int, covered_len as int),
            start <= j <= covered_len,
            byte_len("Você"@) == 5,
            byte_len("Agente"@) == 6,
            summary_lines(lines.subrange(j - start, lines.len() as int), content@)
                == summary_lines(lines, header@),
        ensures
            summary_lines(lines, header@) == content@,
        decreases covered_len - j,
    {
        let ghost rest = lines.subrange(j - start, lines.len() as int);
        let used = content.as_str().len();
        let remaining: usize = if used >= SUMMARY_BUDGET_BYTES {
            0
        } else {
            SUMMARY_BUDGET_BYTES - used
        };
        if remaining < 16 {
            proof {
                if rest.len() > 0 {
                    assert(summary_lines(rest, content@) == content@);
                }
            }
            break;
        }
        let message = &messages[rows[j]];
        assert(*message == rest[0]);
        let prefix = if matches!(message.author, MessageAuthor::User) {
            "Você"
        } else {
            "Agente"
        };
        let room = remaining - (prefix.len() + 3);
        let text = message.content.as_str();
        let length = text.unicode_len();
        let excerpt = if room < length {
            text.substring_char(0, room)
        } else {
            text
        };
        content.append(prefix);
        content.append(": ");
        content.append(excerpt);
        content.append("\n");
        proof {
            assert(rest.drop_first() =~= lines.subrange(j + 1 - start, lines.len() as int));
            if room < length {
                assert(excerpt@ =~= text@.take(room as int));
            }
        }
        j = j + 1;
        proof {
            if j == covered_len {
                assert(lines.subrange(j - start, lines.len() as int).len() == 0);
            }
        }
    }
    let through = rows[covered_len - 1];
    Some(
        ConversationSummary {
            through_message_id: messages[through].id.clone(),
            content,
        },
    )
}


/// Each line of a summary is `speaker: ` followed by the first characters of its message:
/// writing the lines either stops, or writes the first message's line with a prefix of its
/// content (the whole content when at least 16 bytes of the budget are left and the line fits)
/// and goes on with the rest.
pub proof fn law_summary_lines_keep_the_start_of_each_message(
    lines: Seq<ConversationMessage>,
    acc: Seq<char>,
)
    requires
        lines.len() > 0,
    ensures
        summary_lines(lines, acc) == acc || exists|n: int|
            #![trigger lines[0].content@.take(n)]
            0 <= n <= lines[0].content@.len() && summary_lines(lines, acc) == summary_lines(
                lines.drop_first(),
                acc + speaker(lines[0]) + ": "@ + lines[0].content@.take(n) + "\n"@,
            ),
        byte_len(acc) + 16 <= SUMMARY_BUDGET_BYTES && byte_len(acc) + byte_len(speaker(lines[0]))
            + 3 + lines[0].content@.len() <= SUMMARY_BUDGET_BYTES ==> summary_lines(lines, acc) == summary_lines(
            lines.drop_first(),
            acc + speaker(lines[0]) + ": "@ + lines[0].content@ + "\n"@,
        ),
{
    let remaining = budget_left(acc);
    if remaining >= 16 {
        let prefix = speaker(lines[0]);
        let room = remaining - (byte_len(prefix) + 3);
        let text = lines[0].content@;
        if room < text.len() {
            assert(0 <= room) by {
                lemma_speaker_bytes();
            }
            assert(text.take(room) == text.take(room));
        } else {
            assert(text.take(text.len() as int) =~= text);
        }
    }
}

} // verus!
