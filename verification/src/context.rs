//! What the model is shown of a conversation: the current summary, the confirmed memories and
//! the latest turns that count.
use vstd::prelude::*;

use crate::database::ContextMessage;
use crate::domain::{ConversationMessage, MessageAuthor, MessageStatus};

verus! {

/// A turn counts for the model when it is complete and from the owner or the agent, unless it
/// is an owner message whose agent reply failed or was cancelled.
pub open spec fn counts_for_context(s: Seq<ConversationMessage>, i: int) -> bool {
    let m = s[i];
    &&& m.status == MessageStatus::Complete
    &&& (m.author == MessageAuthor::User || m.author == MessageAuthor::Agent)
    &&& (m.author == MessageAuthor::Agent || i + 1 >= s.len() || s[i + 1].author
        != MessageAuthor::Agent || s[i + 1].status == MessageStatus::Pending || s[i + 1].status
        == MessageStatus::Streaming || s[i + 1].status == MessageStatus::Complete)
}

/// What the model sees of a message: who wrote it and what it says.
pub open spec fn entries(v: Seq<ContextMessage>) -> Seq<(MessageAuthor, Seq<char>)> {
    v.map_values(|m: ContextMessage| (m.author, m.content@))
}

/// The turns among the first `n` messages that count, in order.
pub open spec fn counted_turns(s: Seq<ConversationMessage>, n: nat) -> Seq<(MessageAuthor, Seq<char>)>
    decreases n,
{
    if n == 0 {
        Seq::empty()
    } else {
        let earlier = counted_turns(s, (n - 1) as nat);
        if counts_for_context(s, n - 1) {
            earlier.push((s[n - 1].author, s[n - 1].content@))
        } else {
            earlier
        }
    }
}

/// The latest `limit` turns that count, oldest first.
pub open spec fn recent_turns(s: Seq<ConversationMessage>, limit: nat) -> Seq<(MessageAuthor, Seq<char>)> {
    let all = counted_turns(s, s.len());
    if all.len() <= limit {
        all
    } else {
        all.subrange(all.len() - limit, all.len() as int)
    }
}

proof fn lemma_entries_push(v: Seq<ContextMessage>, m: ContextMessage)
    ensures
        entries(v.push(m)) == entries(v).push((m.author, m.content@)),
{
    assert(entries(v.push(m)) =~= entries(v).push((m.author, m.content@)));
}

fn copy_message(m: &ContextMessage) -> (r: ContextMessage)
    ensures
        r.author == m.author,
        r.content@ == m.content@,
{
    ContextMessage { author: m.author, content: m.content.clone() }
}

/// The latest `limit` turns of `ordered` (the messages of a branch and its ancestors, oldest
/// first) that count for the model.
pub fn recent_context(ordered: &[ConversationMessage], limit: usize) -> (r: Vec<ContextMessage>)
    ensures
        entries(r@) == recent_turns(ordered@, limit as nat),
{
    let mut all: Vec<ContextMessage> = Vec::new();
    let mut i: usize = 0;
    while i < ordered.len()
        invariant
            i <= ordered@.len(),
            entries(all@) == counted_turns(ordered@, i as nat),
        decreases ordered@.len() - i,
    {
        let m = &ordered[i];
        let reply_kept = if i + 1 >= ordered.len() {
            true
        } else {
            let next = &ordered[i + 1];
            next.author != MessageAuthor::Agent || next.status == MessageStatus::Pending
                || next.status == MessageStatus::Streaming || next.status == MessageStatus::Complete
        };
        if m.status == MessageStatus::Complete && (m.author == MessageAuthor::User || m.author
            == MessageAuthor::Agent) && (m.author == MessageAuthor::Agent || reply_kept) {
            all.push(ContextMessage { author: m.author, content: m.content.clone() });
        }
        assert(entries(all@) =~= counted_turns(ordered@, (i + 1) as nat));
        i = i + 1;
    }
    let start: usize = if all.len() <= limit {
        0
    } else {
        all.len() - limit
    };
    let mut r: Vec<ContextMessage> = Vec::new();
    let mut k: usize = start;
    while k < all.len()
        invariant
            start <= k <= all@.len(),
            entries(r@) == entries(all@).subrange(start as int, k as int),
        decreases all@.len() - k,
    {
        let ghost before = r@;
        r.push(copy_message(&all[k]));
        proof {
            lemma_entries_push(before, r@[before.len() as int]);
        }
        assert(entries(r@) =~= entries(all@).subrange(start as int, k + 1));
        k = k + 1;
    }
    assert(entries(all@).subrange(start as int, all@.len() as int) =~= recent_turns(
        ordered@,
        limit as nat,
    ));
    r
}

/// The line that puts a confirmed memory before the model.
pub open spec fn memory_line(content: Seq<char>) -> Seq<char> {
    "Memória confirmada: "@ + content
}

/// The summary, if any, as a system message.
pub open spec fn summary_entries(summary: Option<String>) -> Seq<(MessageAuthor, Seq<char>)> {
    match summary {
        Some(s) => seq![(MessageAuthor::System, s@)],
        None => Seq::empty(),
    }
}

/// The confirmed memories as system messages.
pub open spec fn memory_entries(memories: Seq<String>) -> Seq<(MessageAuthor, Seq<char>)> {
    memories.map_values(|c: String| (MessageAuthor::System, memory_line(c@)))
}

/// The context of a reply: the current summary, then each confirmed memory, then the recent
/// turns.
pub fn assemble_context(summary: Option<String>, memories: &[String], turns: Vec<ContextMessage>) -> (r:
    Vec<ContextMessage>)
    ensures
        entries(r@) == summary_entries(summary) + memory_entries(memories@) + entries(turns@),
{
    let mut r: Vec<ContextMessage> = Vec::new();
    match summary {
        Some(s) => {
            r.push(ContextMessage { author: MessageAuthor::System, content: s });
        },
        None => {},
    }
    let ghost head = entries(r@);
    assert(head =~= summary_entries(summary));
    let mut i: usize = 0;
    while i < memories.len()
        invariant
            i <= memories@.len(),
            entries(r@) == head + memory_entries(memories@.subrange(0, i as int)),
        decreases memories@.len() - i,
    {
        let mut line = "Memória confirmada: ".to_owned();
        line.append(memories[i].as_str());
        proof {
            reveal_strlit("Memória confirmada: ");
        }
        let ghost before = r@;
        r.push(ContextMessage { author: MessageAuthor::System, content: line });
        proof {
            lemma_entries_push(before, r@[before.len() as int]);
        }
        assert(memory_entries(memories@.subrange(0, i + 1)) =~= memory_entries(
            memories@.subrange(0, i as int),
        ).push((MessageAuthor::System, memory_line(memories@[i as int]@))));
        assert(entries(r@) =~= head + memory_entries(memories@.subrange(0, i + 1)));
        i = i + 1;
    }
    assert(memories@.subrange(0, memories@.len() as int) =~= memories@);
    let ghost middle = entries(r@);
    let mut k: usize = 0;
    while k < turns.len()
        invariant
            k <= turns@.len(),
            entries(r@) == middle + entries(turns@).subrange(0, k as int),
        decreases turns@.len() - k,
    {
        let ghost before = r@;
        r.push(copy_message(&turns[k]));
        proof {
            lemma_entries_push(before, r@[before.len() as int]);
        }
        assert(entries(r@) =~= middle + entries(turns@).subrange(0, k + 1));
        k = k + 1;
    }
    assert(entries(turns@).subrange(0, turns@.len() as int) =~= entries(turns@));
    r
}


/// An owner message that is complete is shown to the model while the agent reply that
/// follows it is pending, streaming or complete; only a failed or cancelled reply removes it.
pub proof fn law_owner_message_counts_unless_its_reply_failed(s: Seq<ConversationMessage>, i: int)
    requires
        0 <= i < s.len() - 1,
        s[i].author == MessageAuthor::User,
        s[i].status == MessageStatus::Complete,
        s[i + 1].author == MessageAuthor::Agent,
    ensures
        counts_for_context(s, i) <==> !(s[i + 1].status == MessageStatus::Failed || s[i
            + 1].status == MessageStatus::Cancelled),
{
}

/// The turns among the first `n` that count are those among the first `n - 1`, followed by
/// message `n - 1` when it counts.
proof fn lemma_counted_turns_last(s: Seq<ConversationMessage>, n: nat)
    requires
        0 < n <= s.len(),
    ensures
        counts_for_context(s, n - 1) ==> counted_turns(s, n) == counted_turns(
            s,
            (n - 1) as nat,
        ).push((s[n - 1].author, s[n - 1].content@)),
        !counts_for_context(s, n - 1) ==> counted_turns(s, n) == counted_turns(s, (n - 1) as nat),
{
}

/// While the agent is answering (its reply is the last message, pending or streaming), the
/// owner message it answers is the newest turn handed to the model.
pub proof fn law_question_being_answered_is_in_context(s: Seq<ConversationMessage>, limit: nat)
    requires
        s.len() >= 2,
        limit > 0,
        s[s.len() - 2].author == MessageAuthor::User,
        s[s.len() - 2].status == MessageStatus::Complete,
        s[s.len() - 1].author == MessageAuthor::Agent,
        s[s.len() - 1].status == MessageStatus::Pending || s[s.len() - 1].status
            == MessageStatus::Streaming,
    ensures
        recent_turns(s, limit).len() > 0,
        recent_turns(s, limit).last() == (MessageAuthor::User, s[s.len() - 2].content@),
{
    let n = s.len();
    lemma_counted_turns_last(s, n);
    lemma_counted_turns_last(s, (n - 1) as nat);
    assert(!counts_for_context(s, n - 1));
    assert(counts_for_context(s, n - 2));
    let all = counted_turns(s, n);
    assert(all.len() > 0);
    assert(all.last() == (MessageAuthor::User, s[n - 2].content@));
    if all.len() > limit {
        let r = all.subrange(all.len() - limit, all.len() as int);
        assert(r.last() == all.last());
    }
}

} // verus!
