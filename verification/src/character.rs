//! The character of an agent.
use vstd::prelude::*;

use crate::lines;
use crate::passages;
use crate::text;
use crate::types::{Content, Values};

verus! {

#[derive(Clone, Debug)]
pub struct MessageExample {
    pub user: String,
    pub content: Content,
}

#[derive(Clone, Debug)]
pub struct StyleConfig {
    pub all: Vec<String>,
    pub chat: Vec<String>,
    pub post: Vec<String>,
}

impl Default for StyleConfig {
    fn default() -> (r: Self)
        ensures
            r.all@.len() == 0,
            r.chat@.len() == 0,
            r.post@.len() == 0,
    {
        StyleConfig { all: Vec::new(), chat: Vec::new(), post: Vec::new() }
    }
}

#[derive(Clone, Debug)]
pub struct VoiceSettings {
    pub model: Option<String>,
    pub url: Option<String>,
}

impl Default for VoiceSettings {
    fn default() -> (r: Self)
        ensures
            r.model is None,
            r.url is None,
    {
        VoiceSettings { model: None, url: None }
    }
}

pub struct CharacterSettings {
    pub secrets: Values,
    pub model: Option<String>,
    pub voice: Option<VoiceSettings>,
    pub enable_knowledge: Option<bool>,
    pub enable_autonomy: Option<bool>,
}

impl Default for CharacterSettings {
    fn default() -> (r: Self)
        ensures
            r.secrets@ == Map::<Seq<char>, Seq<char>>::empty(),
            r.model is None,
            r.voice is None,
            r.enable_knowledge is None,
            r.enable_autonomy is None,
    {
        CharacterSettings {
            secrets: Values::new(),
            model: None,
            voice: None,
            enable_knowledge: None,
            enable_autonomy: None,
        }
    }
}

pub struct Character {
    pub name: String,
    pub username: Option<String>,
    pub system: Option<String>,
    pub bio: Vec<String>,
    pub lore: Vec<String>,
    pub knowledge: Vec<String>,
    pub message_examples: Vec<Vec<MessageExample>>,
    pub post_examples: Vec<String>,
    pub topics: Vec<String>,
    pub adjectives: Vec<String>,
    pub style: StyleConfig,
    pub plugins: Vec<String>,
    pub settings: CharacterSettings,
}

/// One message of an example conversation.
pub open spec fn example_line(m: MessageExample) -> Seq<char> {
    m.user@ + ": "@ + text::text_or_empty(m.content.text) + "\n"@
}

/// The messages of an example conversation, a line each.
pub open spec fn example_lines(conversation: Seq<MessageExample>) -> Seq<char>
    decreases conversation.len(),
{
    if conversation.len() == 0 {
        Seq::empty()
    } else {
        example_lines(conversation.drop_last()) + example_line(conversation.last())
    }
}

/// The first `n` example conversations, with a rule between each two.
pub open spec fn examples_text(examples: Seq<Vec<MessageExample>>, n: nat) -> Seq<char>
    decreases n,
{
    if n == 0 {
        Seq::empty()
    } else if n == 1 {
        example_lines(examples[0]@)
    } else {
        examples_text(examples, (n - 1) as nat) + "\n---\n"@ + example_lines(examples[n - 1]@)
    }
}

impl Character {
    pub fn bio_text(&self) -> (r: String)
        ensures
            r@ == lines::joined(text::texts(self.bio@), " "@),
    {
        lines::join(&self.bio, " ")
    }

    pub fn lore_text(&self) -> (r: String)
        ensures
            r@ == lines::joined(text::texts(self.lore@), "\n"@),
    {
        lines::join(&self.lore, "\n")
    }

    pub fn style_all_text(&self) -> (r: String)
        ensures
            r@ == lines::joined(text::texts(self.style.all@), "\n"@),
    {
        lines::join(&self.style.all, "\n")
    }

    pub fn style_chat_text(&self) -> (r: String)
        ensures
            r@ == lines::joined(text::texts(self.style.chat@), "\n"@),
    {
        lines::join(&self.style.chat, "\n")
    }

    pub fn adjectives_text(&self) -> (r: String)
        ensures
            r@ == lines::joined(text::texts(self.adjectives@), ", "@),
    {
        lines::join(&self.adjectives, ", ")
    }

    pub fn topics_text(&self) -> (r: String)
        ensures
            r@ == lines::joined(text::texts(self.topics@), ", "@),
    {
        lines::join(&self.topics, ", ")
    }

    /// The example conversations as text.
    pub fn format_message_examples(&self) -> (r: String)
        ensures
            r@ == examples_text(self.message_examples@, self.message_examples@.len()),
    {
        let mut out = String::new();
        let ghost all = self.message_examples@;
        let mut i: usize = 0;
        assert(out@ =~= Seq::<char>::empty());
        while i < self.message_examples.len()
            invariant
                i <= self.message_examples@.len(),
                all == self.message_examples@,
                out@ == examples_text(all, i as nat),
            decreases self.message_examples.len() - i,
        {
            let ghost before = out@;
            if i > 0 {
                out.append("\n---\n");
            }
            let ghost head = out@;
            let conversation = &self.message_examples[i];
            let mut j: usize = 0;
            assert(out@ =~= head + example_lines(conversation@.take(0)));
            while j < conversation.len()
                invariant
                    j <= conversation@.len(),
                    out@ == head + example_lines(conversation@.take(j as int)),
                decreases conversation.len() - j,
            {
                let m = &conversation[j];
                proof {
                    assert(conversation@.take(j + 1).drop_last() =~= conversation@.take(j as int));
                    assert(conversation@.take(j + 1).last() == conversation@[j as int]);
                }
                let ghost so_far = out@;
                out.append(m.user.as_str());
                out.append(": ");
                match &m.content.text {
                    Some(t) => out.append(t.as_str()),
                    None => {
                        assert(out@ + Seq::<char>::empty() =~= out@);
                    },
                }
                out.append("\n");
                assert(out@ =~= head + example_lines(conversation@.take(j + 1)));
                j = j + 1;
            }
            assert(conversation@.take(conversation@.len() as int) =~= conversation@);
            proof {
                if i == 0 {
                    assert(head + example_lines(conversation@) =~= example_lines(conversation@));
                }
            }
            i = i + 1;
        }
        out
    }
}

impl Character {
    /// The character of an agent that is given none.
    pub open spec fn is_default(self) -> bool {
        &&& self.name@ == "Eliza"@
        &&& self.username is None
        &&& self.system is None
        &&& text::texts(self.bio@) == seq!["A helpful AI assistant."@]
        &&& self.lore@.len() == 0
        &&& self.knowledge@.len() == 0
        &&& self.message_examples@.len() == 0
        &&& self.post_examples@.len() == 0
        &&& self.topics@.len() == 0
        &&& text::texts(self.adjectives@) == seq!["helpful"@, "friendly"@]
        &&& self.style.all@.len() == 0
        &&& self.style.chat@.len() == 0
        &&& self.style.post@.len() == 0
        &&& self.plugins@.len() == 0
        &&& self.settings.secrets@ == Map::<Seq<char>, Seq<char>>::empty()
        &&& self.settings.model is None
        &&& self.settings.voice is None
        &&& self.settings.enable_knowledge is None
        &&& self.settings.enable_autonomy is None
    }
}

impl Default for Character {
    fn default() -> (r: Self)
        ensures
            r.is_default(),
    {
        let mut bio: Vec<String> = Vec::new();
        bio.push("A helpful AI assistant.".to_owned());
        let mut adjectives: Vec<String> = Vec::new();
        adjectives.push("helpful".to_owned());
        adjectives.push("friendly".to_owned());
        assert(text::texts(bio@) =~= seq!["A helpful AI assistant."@]);
        assert(text::texts(adjectives@) =~= seq!["helpful"@, "friendly"@]);
        Character {
            name: "Eliza".to_owned(),
            username: None,
            system: None,
            bio,
            lore: Vec::new(),
            knowledge: Vec::new(),
            message_examples: Vec::new(),
            post_examples: Vec::new(),
            topics: Vec::new(),
            adjectives,
            style: StyleConfig::default(),
            plugins: Vec::new(),
            settings: CharacterSettings::default(),
        }
    }
}

/// The text of example conversations holds each of their messages, on a line of its
/// own behind the name of who says it.
pub proof fn examples_hold_each_message(
    examples: Seq<Vec<MessageExample>>,
    n: nat,
    i: int,
    j: int,
)
    requires
        0 <= i < n <= examples.len(),
        0 <= j < examples[i]@.len(),
    ensures
        text::has(
            examples_text(examples, n),
            examples[i]@[j].user@ + seq![':', ' '] + text::text_or_empty(
                examples[i]@[j].content.text,
            ) + seq!['\n'],
        ),
    decreases n,
{
    let m = examples[i]@[j];
    let line = m.user@ + seq![':', ' '] + text::text_or_empty(m.content.text) + seq!['\n'];
    let none = Seq::<char>::empty();
    let t = examples_text(examples, n);
    if i < n - 1 {
        examples_hold_each_message(examples, (n - 1) as nat, i, j);
        let before = examples_text(examples, (n - 1) as nat);
        let rest = "\n---\n"@ + example_lines(examples[n - 1]@);
        assert(t =~= none + before + rest);
        passages::lemma_has(none, before, rest, line);
    } else {
        let own = example_lines(examples[i]@);
        lemma_example_line(examples[i]@, j);
        if n > 1 {
            let before = examples_text(examples, (n - 1) as nat) + "\n---\n"@;
            assert(t =~= before + own + none);
            passages::lemma_has(before, own, none, line);
        }
    }
}

proof fn lemma_example_line(conversation: Seq<MessageExample>, j: int)
    requires
        0 <= j < conversation.len(),
    ensures
        text::has(
            example_lines(conversation),
            conversation[j].user@ + seq![':', ' '] + text::text_or_empty(
                conversation[j].content.text,
            ) + seq!['\n'],
        ),
    decreases conversation.len(),
{
    let m = conversation[j];
    let line = m.user@ + seq![':', ' '] + text::text_or_empty(m.content.text) + seq!['\n'];
    let none = Seq::<char>::empty();
    let front = example_lines(conversation.drop_last());
    let last = example_line(conversation.last());
    reveal_strlit(": ");
    reveal_strlit("\n");
    assert(": "@ =~= seq![':', ' ']);
    assert("\n"@ =~= seq!['\n']);
    if j < conversation.len() - 1 {
        lemma_example_line(conversation.drop_last(), j);
        assert(front + last =~= none + front + last);
        passages::lemma_has(none, front, last, line);
    } else {
        assert(front + last =~= front + line + none);
        passages::lemma_stands(front, line, none);
    }
}

} // verus!
