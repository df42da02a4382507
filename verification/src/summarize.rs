//! Conversations as text, and their summaries.
use vstd::prelude::*;

use crate::lines;
use crate::number;
use crate::passages;
use crate::text;
use crate::types::{GenerateTextParams, Memory, ModelType};

verus! {

/// The template of the prompt that asks for a summary.
pub const SUMMARIZE_TEMPLATE: &'static str =
    r#"Summarize the following conversation in 2-3 concise sentences. Focus on the key topics discussed, decisions made, and any important context. Do not include greetings or filler.

Conversation:
{{conversation}}"#;

/// Who sent a message: the agent by name, anyone else by the first eight
/// characters of the identifier.
pub open spec fn sender(m: Memory, agent_name: Seq<char>) -> Seq<char> {
    if m.entity_id == m.agent_id {
        agent_name
    } else {
        "User("@ + m.entity_id.text().take(8) + ")"@
    }
}

/// A message as a line of a conversation.
pub open spec fn message_line(m: Memory, agent_name: Seq<char>) -> Seq<char> {
    sender(m, agent_name) + ": "@ + (match m.content.text {
        Some(t) => t@,
        None => "[no text]"@,
    })
}

/// Messages as the lines of a conversation.
pub open spec fn message_lines(messages: Seq<Memory>, agent_name: Seq<char>) -> Seq<Seq<char>> {
    messages.map_values(|m: Memory| message_line(m, agent_name))
}

/// A conversation as text.
pub open spec fn conversation(messages: Seq<Memory>, agent_name: Seq<char>) -> Seq<char> {
    lines::joined(message_lines(messages, agent_name), "\n"@)
}

/// A message as a line of a conversation.
pub fn format_message(m: &Memory, agent_name: &str) -> (r: String)
    ensures
        r@ == message_line(*m, agent_name@),
{
    let mut out = if m.entity_id == m.agent_id {
        agent_name.to_owned()
    } else {
        let mut s = "User(".to_owned();
        let id = text::chars_of(m.entity_id.to_text().as_str());
        assert(id@.len() == 36);
        s.append(text::text_between(&id, 0, 8).as_str());
        s.append(")");
        assert(id@.subrange(0, 8) =~= id@.take(8));
        s
    };
    out.append(": ");
    match &m.content.text {
        Some(t) => out.append(t.as_str()),
        None => out.append("[no text]"),
    }
    out
}

/// The lines of a conversation.
fn format_messages(messages: &[Memory], agent_name: &str) -> (r: Vec<String>)
    ensures
        text::texts(r@) == message_lines(messages@, agent_name@),
{
    let mut out: Vec<String> = Vec::new();
    let mut i: usize = 0;
    while i < messages.len()
        invariant
            i <= messages@.len(),
            text::texts(out@) == message_lines(messages@.take(i as int), agent_name@),
        decreases messages.len() - i,
    {
        let line = format_message(&messages[i], agent_name);
        let ghost before = out@;
        out.push(line);
        proof {
            assert(text::texts(out@) =~= text::texts(before).push(line@));
            assert(message_lines(messages@.take(i + 1), agent_name@) =~= message_lines(
                messages@.take(i as int),
                agent_name@,
            ).push(line@));
        }
        i = i + 1;
    }
    assert(messages@.take(messages@.len() as int) =~= messages@);
    out
}

/// A conversation as text.
pub fn format_recent_messages(messages: &[Memory], agent_name: &str) -> (r: String)
    ensures
        r@ == conversation(messages@, agent_name@),
{
    lines::join(&format_messages(messages, agent_name), "\n")
}

/// Whether there are more messages than `threshold`.
pub fn should_summarize(messages: &[Memory], threshold: usize) -> (r: bool)
    ensures
        r == (messages@.len() > threshold),
{
    messages.len() > threshold
}

/// The messages are split into those before the last `keep_recent`, and these.
pub open spec fn splits(
    messages: Seq<Memory>,
    keep_recent: nat,
    old: Seq<Memory>,
    kept: Seq<Memory>,
) -> bool {
    &&& old + kept == messages
    &&& kept.len() == if messages.len() <= keep_recent {
        messages.len()
    } else {
        keep_recent
    }
}

/// No message is lost or counted twice: the last ones are kept, as many as are to be kept,
/// and all before them are summarized, which is none where there are no more than those.
pub proof fn the_last_messages_are_kept(
    messages: Seq<Memory>,
    keep_recent: nat,
    old: Seq<Memory>,
    kept: Seq<Memory>,
)
    requires
        splits(messages, keep_recent, old, kept),
    ensures
        old.len() + kept.len() == messages.len(),
        kept.len() <= keep_recent,
        old.len() == 0 <==> messages.len() <= keep_recent,
        forall|i: int| 0 <= i < old.len() ==> #[trigger] old[i] == messages[i],
        forall|i: int|
            0 <= i < kept.len() ==> #[trigger] kept[i] == messages[messages.len() - kept.len() + i],
{
    assert forall|i: int| 0 <= i < old.len() implies #[trigger] old[i] == messages[i] by {
        assert((old + kept)[i] == old[i]);
    }
    assert forall|i: int| 0 <= i < kept.len() implies #[trigger] kept[i]
        == messages[messages.len() - kept.len() + i] by {
        assert((old + kept)[old.len() + i] == kept[i]);
    }
}

/// The messages before the last `keep_recent`, and these.
pub fn split_for_summary(messages: &[Memory], keep_recent: usize) -> (r: (&[Memory], &[Memory]))
    ensures
        splits(messages@, keep_recent as nat, r.0@, r.1@),
{
    let split_point: usize = if messages.len() <= keep_recent {
        0
    } else {
        messages.len() - keep_recent
    };
    let old = vstd::slice::slice_subrange(messages, 0, split_point);
    let kept = vstd::slice::slice_subrange(messages, split_point, messages.len());
    assert(old@ + kept@ =~= messages@);
    (old, kept)
}

/// The prompt that asks for the summary of a conversation.
pub open spec fn summary_prompt(messages: Seq<Memory>, agent_name: Seq<char>) -> Seq<char> {
    text::replaced(SUMMARIZE_TEMPLATE@, "{{conversation}}"@, conversation(messages, agent_name))
}

/// What the model is asked for the summary of messages; without messages there
/// is nothing to ask, and the summary is empty.
pub fn summarize_messages(messages: &[Memory], agent_name: &str) -> (r: Option<
    GenerateTextParams,
>)
    ensures
        match r {
            Some(p) => messages@.len() > 0 && p.asks(
                ModelType::TextSmall,
                "You are a concise conversation summarizer."@,
                summary_prompt(messages@, agent_name@),
                256,
                number::POINT_3,
            ),
            None => messages@.len() == 0,
        },
{
    if messages.len() == 0 {
        return None;
    }
    let talk = format_recent_messages(messages, agent_name);
    proof {
        reveal_strlit("{{conversation}}");
    }
    let prompt = text::replace(SUMMARIZE_TEMPLATE, "{{conversation}}", talk.as_str());
    Some(
        GenerateTextParams::new(
            ModelType::TextSmall,
            "You are a concise conversation summarizer.".to_owned(),
            prompt,
            256,
            number::POINT_3,
        ),
    )
}

/// A conversation as text behind the summary of what went before.
pub open spec fn summarized(
    summary: Seq<char>,
    recent: Seq<Memory>,
    agent_name: Seq<char>,
) -> Seq<char> {
    if summary.len() == 0 {
        conversation(recent, agent_name)
    } else {
        lines::joined(
            seq!["[Earlier conversation summary: "@ + summary + "]"@, Seq::empty()]
                + message_lines(recent, agent_name),
            "\n"@,
        )
    }
}

/// A conversation as text behind the summary of what went before.
pub fn format_with_summary(summary: &str, recent_messages: &[Memory], agent_name: &str) -> (r:
    String)
    ensures
        r@ == summarized(summary@, recent_messages@, agent_name@),
{
    let mut talk = format_messages(recent_messages, agent_name);
    if summary.unicode_len() == 0 {
        return lines::join(&talk, "\n");
    }
    let mut head = "[Earlier conversation summary: ".to_owned();
    head.append(summary);
    head.append("]");
    let mut all: Vec<String> = Vec::new();
    all.push(head);
    all.push(String::new());
    let ghost first = all@;
    let ghost rest = talk@;
    all.append(&mut talk);
    proof {
        assert(text::texts(first) =~= seq![head@, Seq::<char>::empty()]);
        assert(text::texts(all@) =~= text::texts(first) + text::texts(rest));
    }
    lines::join(&all, "\n")
}

// ---------------------------------------------------------------------------
// What conversations tell
// ---------------------------------------------------------------------------

/// The line tells who sent the message and what it says: the agent's own by name.
pub open spec fn line_tells(line: Seq<char>, m: Memory, agent_name: Seq<char>) -> bool {
    &&& m.entity_id == m.agent_id ==> text::begins_with(line, agent_name + seq![':', ' '])
    &&& m.entity_id != m.agent_id ==> text::begins_with(
        line,
        "User("@ + m.entity_id.text().take(8) + seq![')', ':', ' '],
    )
    &&& m.content.text is Some ==> text::ends_in(line, seq![':', ' '] + m.content.text.unwrap()@)
    &&& m.content.text is None ==> text::ends_in(line, ": [no text]"@)
}

/// The text holds a line for each message, in order and without anything else.
pub open spec fn tells_conversation(
    t: Seq<char>,
    messages: Seq<Memory>,
    agent_name: Seq<char>,
) -> bool {
    exists|ls: Seq<Seq<char>>|
        {
            &&& #[trigger] passages::spaced(t, ls, seq!['\n'])
            &&& passages::in_order(t, ls)
            &&& ls.len() == messages.len()
            &&& forall|i: int|
                0 <= i < ls.len() ==> line_tells(#[trigger] ls[i], messages[i], agent_name)
        }
}

proof fn lemma_line_tells(m: Memory, agent_name: Seq<char>)
    ensures
        line_tells(message_line(m, agent_name), m, agent_name),
{
    let line = message_line(m, agent_name);
    reveal_strlit(": ");
    reveal_strlit(")");
    reveal_strlit("[no text]");
    reveal_strlit(": [no text]");
    assert(": "@ =~= seq![':', ' ']);
    if m.entity_id == m.agent_id {
        let p = agent_name + seq![':', ' '];
        assert(line.subrange(0, p.len() as int) =~= p);
    } else {
        let p = "User("@ + m.entity_id.text().take(8) + seq![')', ':', ' '];
        assert(line.subrange(0, p.len() as int) =~= p);
    }
    let q = match m.content.text {
        Some(t) => seq![':', ' '] + t@,
        None => ": [no text]"@,
    };
    assert(line.subrange(line.len() - q.len(), line.len() as int) =~= q);
}

/// A conversation tells of each of its messages, a line each, in their order.
pub proof fn conversations_are_told(messages: Seq<Memory>, agent_name: Seq<char>)
    ensures
        tells_conversation(conversation(messages, agent_name), messages, agent_name),
{
    let ls = message_lines(messages, agent_name);
    let t = conversation(messages, agent_name);
    reveal_strlit("\n");
    assert("\n"@ =~= seq!['\n']);
    passages::lemma_joined(ls, "\n"@);
    assert forall|i: int| 0 <= i < ls.len() implies line_tells(
        #[trigger] ls[i],
        messages[i],
        agent_name,
    ) by {
        lemma_line_tells(messages[i], agent_name);
    }
    assert(passages::spaced(t, ls, seq!['\n']));
}

/// Behind a summary stand the messages that it leaves out, and before them the
/// summary, where it says anything.
pub proof fn summaries_stand_before_messages(
    summary: Seq<char>,
    recent: Seq<Memory>,
    agent_name: Seq<char>,
)
    ensures
        summary.len() == 0 ==> tells_conversation(
            summarized(summary, recent, agent_name),
            recent,
            agent_name,
        ),
        summary.len() > 0 && recent.len() > 0 ==> exists|head: Seq<char>, talk: Seq<char>|
            {
                &&& summarized(summary, recent, agent_name) == head + talk
                &&& text::has(head, summary)
                &&& #[trigger] text::ends_in(head, "\n\n"@)
                &&& #[trigger] tells_conversation(talk, recent, agent_name)
            },
        text::has(summarized(summary, recent, agent_name), summary),
{
    conversations_are_told(recent, agent_name);
    let t = summarized(summary, recent, agent_name);
    if summary.len() == 0 {
        assert(t.subrange(0, 0) =~= summary);
        assert(text::occurs_at(t, summary, 0));
    } else {
        let first = "[Earlier conversation summary: "@ + summary + "]"@;
        let ls = message_lines(recent, agent_name);
        let none = Seq::<char>::empty();
        let all = seq![first, none] + ls;
        reveal_strlit("\n");
        reveal_strlit("\n\n");
        assert("\n\n"@ =~= "\n"@ + "\n"@);
        passages::lemma_joined_first(all, "\n"@);
        assert(all.drop_first() =~= seq![none] + ls);
        passages::lemma_stands("[Earlier conversation summary: "@, summary, "]"@);
        assert(t =~= none + first + ("\n"@ + lines::joined(all.drop_first(), "\n"@)));
        passages::lemma_has(
            none,
            first,
            "\n"@ + lines::joined(all.drop_first(), "\n"@),
            summary,
        );
        if recent.len() > 0 {
            let rest = all.drop_first();
            passages::lemma_joined_first(rest, "\n"@);
            assert(rest.drop_first() =~= ls);
            let head = first + "\n\n"@;
            let talk = conversation(recent, agent_name);
            assert(t =~= head + talk);
            assert(head =~= none + first + "\n\n"@);
            passages::lemma_has(none, first, "\n\n"@, summary);
            assert(head.subrange(head.len() - 2, head.len() as int) =~= "\n\n"@);
            assert(text::ends_in(head, "\n\n"@));
        }
    }
}

/// What takes the place of a text that occurs stands in the result.
pub proof fn lemma_replacement_stands(s: Seq<char>, p: Seq<char>, q: Seq<char>)
    requires
        p.len() > 0,
        text::has(s, p),
    ensures
        text::has(text::replaced(s, p, q), q),
{
    let i = choose|i: int| #[trigger] text::occurs_at(s, p, i);
    text::lemma_first_at(s, p, 0);
    let k = text::first_at(s, p, 0).unwrap();
    passages::lemma_stands(
        s.subrange(0, k),
        q,
        text::replaced(s.subrange(k + p.len(), s.len() as int), p, q),
    );
}

/// The prompt that asks for a summary holds the whole conversation.
pub proof fn summaries_are_asked_of_all(messages: Seq<Memory>, agent_name: Seq<char>)
    ensures
        exists|talk: Seq<char>| #[trigger]
            text::has(summary_prompt(messages, agent_name), talk) && tells_conversation(
                talk,
                messages,
                agent_name,
            ),
{
    let mark = "{{conversation}}"@;
    let asked =
        r#"Summarize the following conversation in 2-3 concise sentences. Focus on the key topics discussed, decisions made, and any important context. Do not include greetings or filler.

Conversation:
"#;
    reveal_strlit(
        r#"Summarize the following conversation in 2-3 concise sentences. Focus on the key topics discussed, decisions made, and any important context. Do not include greetings or filler.

Conversation:
"#,
    );
    reveal_strlit(
        r#"Summarize the following conversation in 2-3 concise sentences. Focus on the key topics discussed, decisions made, and any important context. Do not include greetings or filler.

Conversation:
{{conversation}}"#,
    );
    reveal_strlit("{{conversation}}");
    let none = Seq::<char>::empty();
    assert(SUMMARIZE_TEMPLATE@ =~= asked@ + mark + none);
    passages::lemma_stands(asked@, mark, none);
    lemma_replacement_stands(SUMMARIZE_TEMPLATE@, mark, conversation(messages, agent_name));
    conversations_are_told(messages, agent_name);
    assert(text::has(
        summary_prompt(messages, agent_name),
        conversation(messages, agent_name),
    ));
}

} // verus!
