//! What the prompts tell the model: the values of the state, each where it belongs.
use vstd::prelude::*;

use crate::blocks;
use crate::blocks::Part;
use crate::chain::ActionSpec;
use crate::character::Character;
use crate::compose;
use crate::passages;
use crate::respond;
use crate::template;
use crate::text;
use crate::tokens;
use crate::tokens::{Block, Token};
use crate::types::{Entity, GenerateTextParams, Memory, ModelType};

verus! {

/// What a state holds under a name; nothing where it holds nothing.
pub open spec fn said(v: Map<Seq<char>, Seq<char>>, name: Seq<char>) -> Seq<char> {
    if v.contains_key(name) {
        v[name]
    } else {
        Seq::empty()
    }
}

/// A passage that stands in a prompt only where a value is not empty.
pub open spec fn told_if(
    v: Map<Seq<char>, Seq<char>>,
    name: Seq<char>,
    passage: Seq<char>,
) -> Seq<char> {
    if said(v, name).len() > 0 {
        passage
    } else {
        Seq::empty()
    }
}

/// Texts one behind the other.
pub open spec fn strung(ts: Seq<Seq<char>>) -> Seq<char>
    decreases ts.len(),
{
    if ts.len() == 0 {
        Seq::empty()
    } else {
        ts[0] + strung(ts.drop_first())
    }
}

/// The text of parts is the texts of the parts one behind the other.
#[verifier::rlimit(50)]
proof fn lemma_parts_text(parts: Seq<Part>, ts: Seq<Seq<char>>)
    requires
        parts.len() == ts.len(),
        forall|i: int| 0 <= i < parts.len() ==> tokens::text_of(
            (#[trigger] parts[i]).tokens(),
        ) == ts[i],
    ensures
        tokens::text_of(blocks::all_tokens(parts)) == strung(ts),
    decreases parts.len(),
{
    if parts.len() > 0 {
        let rest = parts.drop_first();
        assert forall|i: int| 0 <= i < rest.len() implies tokens::text_of(
            (#[trigger] rest[i]).tokens(),
        ) == ts.drop_first()[i] by {
            assert(rest[i] == parts[i + 1]);
        }
        lemma_parts_text(rest, ts.drop_first());
        tokens::lemma_text_concat(parts[0].tokens(), blocks::all_tokens(rest));
    }
}

/// What parts come to is what each comes to, one behind the other.
#[verifier::rlimit(50)]
proof fn lemma_parts_meaning(
    parts: Seq<Part>,
    v: Map<Seq<char>, Seq<char>>,
    ts: Seq<Seq<char>>,
)
    requires
        parts.len() == ts.len(),
        forall|i: int| 0 <= i < parts.len() ==> (#[trigger] parts[i]).meaning(v) == ts[i],
    ensures
        blocks::meanings(parts, v) == strung(ts),
    decreases parts.len(),
{
    if parts.len() > 0 {
        let rest = parts.drop_first();
        assert forall|i: int| 0 <= i < rest.len() implies (#[trigger] rest[i]).meaning(v)
            == ts.drop_first()[i] by {
            assert(rest[i] == parts[i + 1]);
        }
        lemma_parts_meaning(rest, v, ts.drop_first());
    }
}

/// The text of a condition is its body between its ends.
#[verifier::rlimit(50)]
proof fn lemma_if_text(name: Seq<char>, body: Seq<Token>)
    ensures
        tokens::text_of(Part::If(name, body).tokens()) == "{{#if "@ + name + "}}"@
            + tokens::text_of(body) + "{{/if}}"@,
{
    let open = seq![Token::Open(Block::If, name)];
    let close = seq![Token::Close(Block::If)];
    tokens::lemma_text_concat(open, body + close);
    tokens::lemma_text_concat(body, close);
    tokens::lemma_text_one(Token::Open(Block::If, name));
    tokens::lemma_text_one(Token::Close(Block::If));
    reveal_strlit("{{#if ");
    reveal_strlit("{{#if");
    reveal_strlit("}}");
    assert("{{#if "@ =~= "{{#if"@ + seq![' ']);
    assert("}}"@ =~= seq!['}', '}']);
    assert(tokens::text_of(Part::If(name, body).tokens()) =~= "{{#if "@ + name + "}}"@
        + tokens::text_of(body) + "{{/if}}"@);
}

/// Strung texts hold each of them.
#[verifier::rlimit(50)]
proof fn lemma_strung(ts: Seq<Seq<char>>, i: int)
    requires
        0 <= i < ts.len(),
    ensures
        text::has(strung(ts), ts[i]),
    decreases ts.len(),
{
    let none = Seq::<char>::empty();
    let rest = strung(ts.drop_first());
    if i == 0 {
        assert(ts[0] + rest =~= none + ts[0] + rest);
        passages::lemma_stands(none, ts[0], rest);
    } else {
        lemma_strung(ts.drop_first(), i - 1);
        assert(ts[0] + rest =~= ts[0] + rest + none);
        passages::lemma_has(ts[0], rest, none, ts[i]);
    }
}

/// The parts of the system prompt.
pub open spec fn system_parts() -> Seq<Part> {
    seq![
        Part::Text(
            seq![
                Token::Plain("You are "@),
                Token::Var("agentName"@),
                Token::Plain(".\n"@),
            ],
        ),
        Part::If(
            "system"@,
            seq![
                Token::Var("system"@),
            ],
        ),
        Part::Text(
            seq![
                Token::Plain("\n\n# About "@),
                Token::Var("agentName"@),
                Token::Plain(":\n"@),
                Token::Var("bio"@),
                Token::Plain("\n\n"@),
            ],
        ),
        Part::If(
            "lore"@,
            seq![
                Token::Plain("# Backstory:\n"@),
                Token::Var("lore"@),
                Token::Plain("\n"@),
            ],
        ),
        Part::Text(
            seq![
                Token::Plain("\n"@),
            ],
        ),
        Part::If(
            "knowledge"@,
            seq![
                Token::Plain("# Knowledge:\n"@),
                Token::Var("knowledge"@),
                Token::Plain("\n"@),
            ],
        ),
        Part::Text(
            seq![
                Token::Plain("\n"@),
            ],
        ),
        Part::If(
            "topics"@,
            seq![
                Token::Plain("# Topics of interest: "@),
                Token::Var("topics"@),
            ],
        ),
        Part::Text(
            seq![
                Token::Plain("\n"@),
            ],
        ),
        Part::If(
            "adjectives"@,
            seq![
                Token::Plain("# Personality traits: "@),
                Token::Var("adjectives"@),
            ],
        ),
        Part::Text(
            seq![
                Token::Plain("\n\n"@),
            ],
        ),
        Part::If(
            "styleAll"@,
            seq![
                Token::Plain("# Communication style:\n"@),
                Token::Var("styleAll"@),
                Token::Plain("\n"@),
            ],
        ),
        Part::Text(
            seq![
                Token::Plain("\n"@),
            ],
        ),
        Part::If(
            "styleChat"@,
            seq![
                Token::Plain("# Chat style:\n"@),
                Token::Var("styleChat"@),
                Token::Plain("\n"@),
            ],
        ),
        Part::Text(
            seq![
                Token::Plain("\n"@),
            ],
        ),
        Part::If(
            "messageExamples"@,
            seq![
                Token::Plain("# Example conversations:\n"@),
                Token::Var("messageExamples"@),
                Token::Plain("\n"@),
            ],
        ),
    ]
}

/// The passages of the system prompt.
pub open spec fn system_passages(v: Map<Seq<char>, Seq<char>>) -> Seq<Seq<char>> {
    seq![
        "You are "@ + said(v, "agentName"@) + ".\n"@,
        told_if(v, "system"@, said(v, "system"@)),
        "\n\n# About "@ + said(v, "agentName"@) + ":\n"@ + said(v, "bio"@) + "\n\n"@,
        told_if(v, "lore"@, "# Backstory:\n"@ + said(v, "lore"@) + "\n"@),
        "\n"@,
        told_if(v, "knowledge"@, "# Knowledge:\n"@ + said(v, "knowledge"@) + "\n"@),
        "\n"@,
        told_if(v, "topics"@, "# Topics of interest: "@ + said(v, "topics"@)),
        "\n"@,
        told_if(v, "adjectives"@, "# Personality traits: "@ + said(v, "adjectives"@)),
        "\n\n"@,
        told_if(v, "styleAll"@, "# Communication style:\n"@ + said(v, "styleAll"@) + "\n"@),
        "\n"@,
        told_if(v, "styleChat"@, "# Chat style:\n"@ + said(v, "styleChat"@) + "\n"@),
        "\n"@,
        told_if(v, "messageExamples"@, "# Example conversations:\n"@ + said(v, "messageExamples"@) + "\n"@),
    ]
}

#[verifier::rlimit(50)]
proof fn lemma_system_0(v: Map<Seq<char>, Seq<char>>)
    ensures
        system_parts()[0].wf(),
        tokens::text_of(system_parts()[0].tokens()) == "You are {{agentName}}.\n"@,
        system_parts()[0].meaning(v) == system_passages(v)[0],
{
    reveal_strlit("You are {{agentName}}.\n");
    reveal_strlit("You are ");
    reveal_strlit("agentName");
    reveal_strlit(".\n");
    reveal_strlit("else");
    assert("else"@.len() == 4 && "else"@[0] == 'e');
    assert("agentName"@.len() == 9 && "agentName"@[0] == 'a');
    let body = seq![
        Token::Plain("You are "@),
        Token::Var("agentName"@),
        Token::Plain(".\n"@),
    ];
    reveal_with_fuel(tokens::text_of, 4);
    reveal_with_fuel(tokens::valued, 4);
    assert(tokens::text_of(body) =~= "You are "@ + template::place_of("agentName"@) + ".\n"@);
    assert("You are {{agentName}}.\n"@ =~= tokens::text_of(system_parts()[0].tokens()));
    assert(tokens::valued(body, v) =~= "You are "@ + said(v, "agentName"@) + ".\n"@);
    assert forall|j: int| 0 <= j < body.len() implies ((#[trigger] body[j]) is Plain
        || body[j] is Var) && body[j] != blocks::other() && body[j].wf() by {}
}

#[verifier::rlimit(50)]
proof fn lemma_system_1(v: Map<Seq<char>, Seq<char>>)
    ensures
        system_parts()[1].wf(),
        tokens::text_of(system_parts()[1].tokens()) == "{{#if system}}{{system}}{{/if}}"@,
        system_parts()[1].meaning(v) == system_passages(v)[1],
{
    reveal_strlit("{{#if system}}{{system}}{{/if}}");
    reveal_strlit("system");
    reveal_strlit("{{#if ");
    reveal_strlit("}}");
    reveal_strlit("{{/if}}");
    reveal_strlit("else");
    assert("else"@.len() == 4 && "else"@[0] == 'e');
    assert("system"@.len() == 6 && "system"@[0] == 's');
    let body = seq![
        Token::Var("system"@),
    ];
    reveal_with_fuel(tokens::text_of, 2);
    reveal_with_fuel(tokens::valued, 2);
    lemma_if_text("system"@, body);
    assert(tokens::text_of(body) =~= template::place_of("system"@));
    assert("{{#if system}}{{system}}{{/if}}"@ =~= tokens::text_of(system_parts()[1].tokens()));
    assert(tokens::valued(body, v) =~= said(v, "system"@));
    assert forall|j: int| 0 <= j < body.len() implies ((#[trigger] body[j]) is Plain
        || body[j] is Var) && body[j] != blocks::other() && body[j].wf() by {}
}

#[verifier::rlimit(50)]
proof fn lemma_system_2(v: Map<Seq<char>, Seq<char>>)
    ensures
        system_parts()[2].wf(),
        tokens::text_of(system_parts()[2].tokens()) == "\n\n# About {{agentName}}:\n{{bio}}\n\n"@,
        system_parts()[2].meaning(v) == system_passages(v)[2],
{
    reveal_strlit("\n\n# About {{agentName}}:\n{{bio}}\n\n");
    reveal_strlit("\n\n# About ");
    reveal_strlit("agentName");
    reveal_strlit(":\n");
    reveal_strlit("bio");
    reveal_strlit("\n\n");
    reveal_strlit("else");
    assert("else"@.len() == 4 && "else"@[0] == 'e');
    assert("agentName"@.len() == 9 && "agentName"@[0] == 'a');
    assert("bio"@.len() == 3 && "bio"@[0] == 'b');
    let body = seq![
        Token::Plain("\n\n# About "@),
        Token::Var("agentName"@),
        Token::Plain(":\n"@),
        Token::Var("bio"@),
        Token::Plain("\n\n"@),
    ];
    reveal_with_fuel(tokens::text_of, 6);
    reveal_with_fuel(tokens::valued, 6);
    assert(tokens::text_of(body) =~= "\n\n# About "@ + template::place_of("agentName"@) + ":\n"@ + template::place_of("bio"@) + "\n\n"@);
    assert("\n\n# About {{agentName}}:\n{{bio}}\n\n"@ =~= tokens::text_of(system_parts()[2].tokens()));
    assert(tokens::valued(body, v) =~= "\n\n# About "@ + said(v, "agentName"@) + ":\n"@ + said(v, "bio"@) + "\n\n"@);
    assert forall|j: int| 0 <= j < body.len() implies ((#[trigger] body[j]) is Plain
        || body[j] is Var) && body[j] != blocks::other() && body[j].wf() by {}
}

#[verifier::rlimit(50)]
proof fn lemma_system_3(v: Map<Seq<char>, Seq<char>>)
    ensures
        system_parts()[3].wf(),
        tokens::text_of(system_parts()[3].tokens()) == "{{#if lore}}# Backstory:\n{{lore}}\n{{/if}}"@,
        system_parts()[3].meaning(v) == system_passages(v)[3],
{
    reveal_strlit("{{#if lore}}# Backstory:\n{{lore}}\n{{/if}}");
    reveal_strlit("# Backstory:\n");
    reveal_strlit("lore");
    reveal_strlit("\n");
    reveal_strlit("{{#if ");
    reveal_strlit("}}");
    reveal_strlit("{{/if}}");
    reveal_strlit("else");
    assert("else"@.len() == 4 && "else"@[0] == 'e');
    assert("lore"@.len() == 4 && "lore"@[0] == 'l');
    let body = seq![
        Token::Plain("# Backstory:\n"@),
        Token::Var("lore"@),
        Token::Plain("\n"@),
    ];
    reveal_with_fuel(tokens::text_of, 4);
    reveal_with_fuel(tokens::valued, 4);
    lemma_if_text("lore"@, body);
    assert(tokens::text_of(body) =~= "# Backstory:\n"@ + template::place_of("lore"@) + "\n"@);
    assert("{{#if lore}}# Backstory:\n{{lore}}\n{{/if}}"@ =~= tokens::text_of(system_parts()[3].tokens()));
    assert(tokens::valued(body, v) =~= "# Backstory:\n"@ + said(v, "lore"@) + "\n"@);
    assert forall|j: int| 0 <= j < body.len() implies ((#[trigger] body[j]) is Plain
        || body[j] is Var) && body[j] != blocks::other() && body[j].wf() by {}
}

#[verifier::rlimit(50)]
proof fn lemma_system_4(v: Map<Seq<char>, Seq<char>>)
    ensures
        system_parts()[4].wf(),
        tokens::text_of(system_parts()[4].tokens()) == "\n"@,
        system_parts()[4].meaning(v) == system_passages(v)[4],
{
    reveal_strlit("\n");
    reveal_strlit("else");
    assert("else"@.len() == 4 && "else"@[0] == 'e');
    let body = seq![
        Token::Plain("\n"@),
    ];
    reveal_with_fuel(tokens::text_of, 2);
    reveal_with_fuel(tokens::valued, 2);
    assert(tokens::text_of(body) =~= "\n"@);
    assert("\n"@ =~= tokens::text_of(system_parts()[4].tokens()));
    assert(tokens::valued(body, v) =~= "\n"@);
    assert forall|j: int| 0 <= j < body.len() implies ((#[trigger] body[j]) is Plain
        || body[j] is Var) && body[j] != blocks::other() && body[j].wf() by {}
}

#[verifier::rlimit(50)]
proof fn lemma_system_5(v: Map<Seq<char>, Seq<char>>)
    ensures
        system_parts()[5].wf(),
        tokens::text_of(system_parts()[5].tokens()) == "{{#if knowledge}}# Knowledge:\n{{knowledge}}\n{{/if}}"@,
        system_parts()[5].meaning(v) == system_passages(v)[5],
{
    reveal_strlit("{{#if knowledge}}# Knowledge:\n{{knowledge}}\n{{/if}}");
    reveal_strlit("# Knowledge:\n");
    reveal_strlit("knowledge");
    reveal_strlit("\n");
    reveal_strlit("{{#if ");
    reveal_strlit("}}");
    reveal_strlit("{{/if}}");
    reveal_strlit("else");
    assert("else"@.len() == 4 && "else"@[0] == 'e');
    assert("knowledge"@.len() == 9 && "knowledge"@[0] == 'k');
    let body = seq![
        Token::Plain("# Knowledge:\n"@),
        Token::Var("knowledge"@),
        Token::Plain("\n"@),
    ];
    reveal_with_fuel(tokens::text_of, 4);
    reveal_with_fuel(tokens::valued, 4);
    lemma_if_text("knowledge"@, body);
    assert(tokens::text_of(body) =~= "# Knowledge:\n"@ + template::place_of("knowledge"@) + "\n"@);
    assert("{{#if knowledge}}# Knowledge:\n{{knowledge}}\n{{/if}}"@ =~= tokens::text_of(system_parts()[5].tokens()));
    assert(tokens::valued(body, v) =~= "# Knowledge:\n"@ + said(v, "knowledge"@) + "\n"@);
    assert forall|j: int| 0 <= j < body.len() implies ((#[trigger] body[j]) is Plain
        || body[j] is Var) && body[j] != blocks::other() && body[j].wf() by {}
}

#[verifier::rlimit(50)]
proof fn lemma_system_6(v: Map<Seq<char>, Seq<char>>)
    ensures
        system_parts()[6].wf(),
        tokens::text_of(system_parts()[6].tokens()) == "\n"@,
        system_parts()[6].meaning(v) == system_passages(v)[6],
{
    reveal_strlit("\n");
    reveal_strlit("else");
    assert("else"@.len() == 4 && "else"@[0] == 'e');
    let body = seq![
        Token::Plain("\n"@),
    ];
    reveal_with_fuel(tokens::text_of, 2);
    reveal_with_fuel(tokens::valued, 2);
    assert(tokens::text_of(body) =~= "\n"@);
    assert("\n"@ =~= tokens::text_of(system_parts()[6].tokens()));
    assert(tokens::valued(body, v) =~= "\n"@);
    assert forall|j: int| 0 <= j < body.len() implies ((#[trigger] body[j]) is Plain
        || body[j] is Var) && body[j] != blocks::other() && body[j].wf() by {}
}

#[verifier::rlimit(50)]
proof fn lemma_system_7(v: Map<Seq<char>, Seq<char>>)
    ensures
        system_parts()[7].wf(),
        tokens::text_of(system_parts()[7].tokens()) == "{{#if topics}}# Topics of interest: {{topics}}{{/if}}"@,
        system_parts()[7].meaning(v) == system_passages(v)[7],
{
    reveal_strlit("{{#if topics}}# Topics of interest: {{topics}}{{/if}}");
    reveal_strlit("# Topics of interest: ");
    reveal_strlit("topics");
    reveal_strlit("{{#if ");
    reveal_strlit("}}");
    reveal_strlit("{{/if}}");
    reveal_strlit("else");
    assert("else"@.len() == 4 && "else"@[0] == 'e');
    assert("topics"@.len() == 6 && "topics"@[0] == 't');
    let body = seq![
        Token::Plain("# Topics of interest: "@),
        Token::Var("topics"@),
    ];
    reveal_with_fuel(tokens::text_of, 3);
    reveal_with_fuel(tokens::valued, 3);
    lemma_if_text("topics"@, body);
    assert(tokens::text_of(body) =~= "# Topics of interest: "@ + template::place_of("topics"@));
    assert("{{#if topics}}# Topics of interest: {{topics}}{{/if}}"@ =~= tokens::text_of(system_parts()[7].tokens()));
    assert(tokens::valued(body, v) =~= "# Topics of interest: "@ + said(v, "topics"@));
    assert forall|j: int| 0 <= j < body.len() implies ((#[trigger] body[j]) is Plain
        || body[j] is Var) && body[j] != blocks::other() && body[j].wf() by {}
}

#[verifier::rlimit(50)]
proof fn lemma_system_8(v: Map<Seq<char>, Seq<char>>)
    ensures
        system_parts()[8].wf(),
        tokens::text_of(system_parts()[8].tokens()) == "\n"@,
        system_parts()[8].meaning(v) == system_passages(v)[8],
{
    reveal_strlit("\n");
    reveal_strlit("else");
    assert("else"@.len() == 4 && "else"@[0] == 'e');
    let body = seq![
        Token::Plain("\n"@),
    ];
    reveal_with_fuel(tokens::text_of, 2);
    reveal_with_fuel(tokens::valued, 2);
    assert(tokens::text_of(body) =~= "\n"@);
    assert("\n"@ =~= tokens::text_of(system_parts()[8].tokens()));
    assert(tokens::valued(body, v) =~= "\n"@);
    assert forall|j: int| 0 <= j < body.len() implies ((#[trigger] body[j]) is Plain
        || body[j] is Var) && body[j] != blocks::other() && body[j].wf() by {}
}

#[verifier::rlimit(50)]
proof fn lemma_system_9(v: Map<Seq<char>, Seq<char>>)
    ensures
        system_parts()[9].wf(),
        tokens::text_of(system_parts()[9].tokens()) == "{{#if adjectives}}# Personality traits: {{adjectives}}{{/if}}"@,
        system_parts()[9].meaning(v) == system_passages(v)[9],
{
    reveal_strlit("{{#if adjectives}}# Personality traits: {{adjectives}}{{/if}}");
    reveal_strlit("# Personality traits: ");
    reveal_strlit("adjectives");
    reveal_strlit("{{#if ");
    reveal_strlit("}}");
    reveal_strlit("{{/if}}");
    reveal_strlit("else");
    assert("else"@.len() == 4 && "else"@[0] == 'e');
    assert("adjectives"@.len() == 10 && "adjectives"@[0] == 'a');
    let body = seq![
        Token::Plain("# Personality traits: "@),
        Token::Var("adjectives"@),
    ];
    reveal_with_fuel(tokens::text_of, 3);
    reveal_with_fuel(tokens::valued, 3);
    lemma_if_text("adjectives"@, body);
    assert(tokens::text_of(body) =~= "# Personality traits: "@ + template::place_of("adjectives"@));
    assert("{{#if adjectives}}# Personality traits: {{adjectives}}{{/if}}"@ =~= tokens::text_of(system_parts()[9].tokens()));
    assert(tokens::valued(body, v) =~= "# Personality traits: "@ + said(v, "adjectives"@));
    assert forall|j: int| 0 <= j < body.len() implies ((#[trigger] body[j]) is Plain
        || body[j] is Var) && body[j] != blocks::other() && body[j].wf() by {}
}

#[verifier::rlimit(50)]
proof fn lemma_system_10(v: Map<Seq<char>, Seq<char>>)
    ensures
        system_parts()[10].wf(),
        tokens::text_of(system_parts()[10].tokens()) == "\n\n"@,
        system_parts()[10].meaning(v) == system_passages(v)[10],
{
    reveal_strlit("\n\n");
    reveal_strlit("else");
    assert("else"@.len() == 4 && "else"@[0] == 'e');
    let body = seq![
        Token::Plain("\n\n"@),
    ];
    reveal_with_fuel(tokens::text_of, 2);
    reveal_with_fuel(tokens::valued, 2);
    assert(tokens::text_of(body) =~= "\n\n"@);
    assert("\n\n"@ =~= tokens::text_of(system_parts()[10].tokens()));
    assert(tokens::valued(body, v) =~= "\n\n"@);
    assert forall|j: int| 0 <= j < body.len() implies ((#[trigger] body[j]) is Plain
        || body[j] is Var) && body[j] != blocks::other() && body[j].wf() by {}
}

#[verifier::rlimit(50)]
proof fn lemma_system_11(v: Map<Seq<char>, Seq<char>>)
    ensures
        system_parts()[11].wf(),
        tokens::text_of(system_parts()[11].tokens()) == "{{#if styleAll}}# Communication style:\n{{styleAll}}\n{{/if}}"@,
        system_parts()[11].meaning(v) == system_passages(v)[11],
{
    reveal_strlit("{{#if styleAll}}# Communication style:\n{{styleAll}}\n{{/if}}");
    reveal_strlit("# Communication style:\n");
    reveal_strlit("styleAll");
    reveal_strlit("\n");
    reveal_strlit("{{#if ");
    reveal_strlit("}}");
    reveal_strlit("{{/if}}");
    reveal_strlit("else");
    assert("else"@.len() == 4 && "else"@[0] == 'e');
    assert("styleAll"@.len() == 8 && "styleAll"@[0] == 's');
    let body = seq![
        Token::Plain("# Communication style:\n"@),
        Token::Var("styleAll"@),
        Token::Plain("\n"@),
    ];
    reveal_with_fuel(tokens::text_of, 4);
    reveal_with_fuel(tokens::valued, 4);
    lemma_if_text("styleAll"@, body);
    assert(tokens::text_of(body) =~= "# Communication style:\n"@ + template::place_of("styleAll"@) + "\n"@);
    assert("{{#if styleAll}}# Communication style:\n{{styleAll}}\n{{/if}}"@ =~= tokens::text_of(system_parts()[11].tokens()));
    assert(tokens::valued(body, v) =~= "# Communication style:\n"@ + said(v, "styleAll"@) + "\n"@);
    assert forall|j: int| 0 <= j < body.len() implies ((#[trigger] body[j]) is Plain
        || body[j] is Var) && body[j] != blocks::other() && body[j].wf() by {}
}

#[verifier::rlimit(50)]
proof fn lemma_system_12(v: Map<Seq<char>, Seq<char>>)
    ensures
        system_parts()[12].wf(),
        tokens::text_of(system_parts()[12].tokens()) == "\n"@,
        system_parts()[12].meaning(v) == system_passages(v)[12],
{
    reveal_strlit("\n");
    reveal_strlit("else");
    assert("else"@.len() == 4 && "else"@[0] == 'e');
    let body = seq![
        Token::Plain("\n"@),
    ];
    reveal_with_fuel(tokens::text_of, 2);
    reveal_with_fuel(tokens::valued, 2);
    assert(tokens::text_of(body) =~= "\n"@);
    assert("\n"@ =~= tokens::text_of(system_parts()[12].tokens()));
    assert(tokens::valued(body, v) =~= "\n"@);
    assert forall|j: int| 0 <= j < body.len() implies ((#[trigger] body[j]) is Plain
        || body[j] is Var) && body[j] != blocks::other() && body[j].wf() by {}
}

#[verifier::rlimit(50)]
proof fn lemma_system_13(v: Map<Seq<char>, Seq<char>>)
    ensures
        system_parts()[13].wf(),
        tokens::text_of(system_parts()[13].tokens()) == "{{#if styleChat}}# Chat style:\n{{styleChat}}\n{{/if}}"@,
        system_parts()[13].meaning(v) == system_passages(v)[13],
{
    reveal_strlit("{{#if styleChat}}# Chat style:\n{{styleChat}}\n{{/if}}");
    reveal_strlit("# Chat style:\n");
    reveal_strlit("styleChat");
    reveal_strlit("\n");
    reveal_strlit("{{#if ");
    reveal_strlit("}}");
    reveal_strlit("{{/if}}");
    reveal_strlit("else");
    assert("else"@.len() == 4 && "else"@[0] == 'e');
    assert("styleChat"@.len() == 9 && "styleChat"@[0] == 's');
    let body = seq![
        Token::Plain("# Chat style:\n"@),
        Token::Var("styleChat"@),
        Token::Plain("\n"@),
    ];
    reveal_with_fuel(tokens::text_of, 4);
    reveal_with_fuel(tokens::valued, 4);
    lemma_if_text("styleChat"@, body);
    assert(tokens::text_of(body) =~= "# Chat style:\n"@ + template::place_of("styleChat"@) + "\n"@);
    assert("{{#if styleChat}}# Chat style:\n{{styleChat}}\n{{/if}}"@ =~= tokens::text_of(system_parts()[13].tokens()));
    assert(tokens::valued(body, v) =~= "# Chat style:\n"@ + said(v, "styleChat"@) + "\n"@);
    assert forall|j: int| 0 <= j < body.len() implies ((#[trigger] body[j]) is Plain
        || body[j] is Var) && body[j] != blocks::other() && body[j].wf() by {}
}

#[verifier::rlimit(50)]
proof fn lemma_system_14(v: Map<Seq<char>, Seq<char>>)
    ensures
        system_parts()[14].wf(),
        tokens::text_of(system_parts()[14].tokens()) == "\n"@,
        system_parts()[14].meaning(v) == system_passages(v)[14],
{
    reveal_strlit("\n");
    reveal_strlit("else");
    assert("else"@.len() == 4 && "else"@[0] == 'e');
    let body = seq![
        Token::Plain("\n"@),
    ];
    reveal_with_fuel(tokens::text_of, 2);
    reveal_with_fuel(tokens::valued, 2);
    assert(tokens::text_of(body) =~= "\n"@);
    assert("\n"@ =~= tokens::text_of(system_parts()[14].tokens()));
    assert(tokens::valued(body, v) =~= "\n"@);
    assert forall|j: int| 0 <= j < body.len() implies ((#[trigger] body[j]) is Plain
        || body[j] is Var) && body[j] != blocks::other() && body[j].wf() by {}
}

#[verifier::rlimit(50)]
proof fn lemma_system_15(v: Map<Seq<char>, Seq<char>>)
    ensures
        system_parts()[15].wf(),
        tokens::text_of(system_parts()[15].tokens()) == "{{#if messageExamples}}# Example conversations:\n{{messageExamples}}\n{{/if}}"@,
        system_parts()[15].meaning(v) == system_passages(v)[15],
{
    reveal_strlit("{{#if messageExamples}}# Example conversations:\n{{messageExamples}}\n{{/if}}");
    reveal_strlit("# Example conversations:\n");
    reveal_strlit("messageExamples");
    reveal_strlit("\n");
    reveal_strlit("{{#if ");
    reveal_strlit("}}");
    reveal_strlit("{{/if}}");
    reveal_strlit("else");
    assert("else"@.len() == 4 && "else"@[0] == 'e');
    assert("messageExamples"@.len() == 15 && "messageExamples"@[0] == 'm');
    let body = seq![
        Token::Plain("# Example conversations:\n"@),
        Token::Var("messageExamples"@),
        Token::Plain("\n"@),
    ];
    reveal_with_fuel(tokens::text_of, 4);
    reveal_with_fuel(tokens::valued, 4);
    lemma_if_text("messageExamples"@, body);
    assert(tokens::text_of(body) =~= "# Example conversations:\n"@ + template::place_of("messageExamples"@) + "\n"@);
    assert("{{#if messageExamples}}# Example conversations:\n{{messageExamples}}\n{{/if}}"@ =~= tokens::text_of(system_parts()[15].tokens()));
    assert(tokens::valued(body, v) =~= "# Example conversations:\n"@ + said(v, "messageExamples"@) + "\n"@);
    assert forall|j: int| 0 <= j < body.len() implies ((#[trigger] body[j]) is Plain
        || body[j] is Var) && body[j] != blocks::other() && body[j].wf() by {}
}

/// The system prompt is made of its parts.
#[verifier::rlimit(50)]
proof fn lemma_system_text()
    ensures
        tokens::text_of(blocks::all_tokens(system_parts())) == respond::SYSTEM_PROMPT_TEMPLATE@,
{
    let v = Map::<Seq<char>, Seq<char>>::empty();
    lemma_system_0(v);
    lemma_system_1(v);
    lemma_system_2(v);
    lemma_system_3(v);
    lemma_system_4(v);
    lemma_system_5(v);
    lemma_system_6(v);
    lemma_system_7(v);
    lemma_system_8(v);
    lemma_system_9(v);
    lemma_system_10(v);
    lemma_system_11(v);
    lemma_system_12(v);
    lemma_system_13(v);
    lemma_system_14(v);
    lemma_system_15(v);
    let ts = seq![
        "You are {{agentName}}.\n"@,
        "{{#if system}}{{system}}{{/if}}"@,
        "\n\n# About {{agentName}}:\n{{bio}}\n\n"@,
        "{{#if lore}}# Backstory:\n{{lore}}\n{{/if}}"@,
        "\n"@,
        "{{#if knowledge}}# Knowledge:\n{{knowledge}}\n{{/if}}"@,
        "\n"@,
        "{{#if topics}}# Topics of interest: {{topics}}{{/if}}"@,
        "\n"@,
        "{{#if adjectives}}# Personality traits: {{adjectives}}{{/if}}"@,
        "\n\n"@,
        "{{#if styleAll}}# Communication style:\n{{styleAll}}\n{{/if}}"@,
        "\n"@,
        "{{#if styleChat}}# Chat style:\n{{styleChat}}\n{{/if}}"@,
        "\n"@,
        "{{#if messageExamples}}# Example conversations:\n{{messageExamples}}\n{{/if}}"@,
    ];
    lemma_parts_text(system_parts(), ts);
    reveal_strlit(
        r#"You are {{agentName}}.
{{#if system}}{{system}}{{/if}}

# About {{agentName}}:
{{bio}}

{{#if lore}}# Backstory:
{{lore}}
{{/if}}
{{#if knowledge}}# Knowledge:
{{knowledge}}
{{/if}}
{{#if topics}}# Topics of interest: {{topics}}{{/if}}
{{#if adjectives}}# Personality traits: {{adjectives}}{{/if}}

{{#if styleAll}}# Communication style:
{{styleAll}}
{{/if}}
{{#if styleChat}}# Chat style:
{{styleChat}}
{{/if}}
{{#if messageExamples}}# Example conversations:
{{messageExamples}}
{{/if}}"#,
    );
    reveal_strlit("You are {{agentName}}.\n");
    reveal_strlit("{{#if system}}{{system}}{{/if}}");
    reveal_strlit("\n\n# About {{agentName}}:\n{{bio}}\n\n");
    reveal_strlit("{{#if lore}}# Backstory:\n{{lore}}\n{{/if}}");
    reveal_strlit("\n");
    reveal_strlit("{{#if knowledge}}# Knowledge:\n{{knowledge}}\n{{/if}}");
    reveal_strlit("{{#if topics}}# Topics of interest: {{topics}}{{/if}}");
    reveal_strlit("{{#if adjectives}}# Personality traits: {{adjectives}}{{/if}}");
    reveal_strlit("\n\n");
    reveal_strlit("{{#if styleAll}}# Communication style:\n{{styleAll}}\n{{/if}}");
    reveal_strlit("{{#if styleChat}}# Chat style:\n{{styleChat}}\n{{/if}}");
    reveal_strlit("{{#if messageExamples}}# Example conversations:\n{{messageExamples}}\n{{/if}}");
    reveal_with_fuel(strung, 17);
    assert(respond::SYSTEM_PROMPT_TEMPLATE@ =~= strung(ts));
}

/// The system prompt tells who the agent is: its name, its bio, and each of the other
/// values of its character under a heading of its own, where there is one.
#[verifier::rlimit(50)]
pub proof fn system_prompts_tell(v: Map<Seq<char>, Seq<char>>)
    ensures
        template::rendered(respond::SYSTEM_PROMPT_TEMPLATE@, v) == strung(system_passages(v)),
{
    let parts = system_parts();
    lemma_system_0(v);
    lemma_system_1(v);
    lemma_system_2(v);
    lemma_system_3(v);
    lemma_system_4(v);
    lemma_system_5(v);
    lemma_system_6(v);
    lemma_system_7(v);
    lemma_system_8(v);
    lemma_system_9(v);
    lemma_system_10(v);
    lemma_system_11(v);
    lemma_system_12(v);
    lemma_system_13(v);
    lemma_system_14(v);
    lemma_system_15(v);
    lemma_system_text();
    assert forall|i: int| 0 <= i < parts.len() implies (#[trigger] parts[i]).wf() by {}
    blocks::parts_are_rendered(parts, v);
    lemma_parts_meaning(parts, v, system_passages(v));
}

/// The parts of the prompt for a response.
pub open spec fn user_parts() -> Seq<Part> {
    seq![
        Part::If(
            "providers"@,
            seq![
                Token::Plain("# Context:\n"@),
                Token::Var("providers"@),
                Token::Plain("\n"@),
            ],
        ),
        Part::Text(
            seq![
                Token::Plain("\n"@),
            ],
        ),
        Part::If(
            "recentMessages"@,
            seq![
                Token::Plain("# Recent conversation:\n"@),
                Token::Var("recentMessages"@),
                Token::Plain("\n"@),
            ],
        ),
        Part::Text(
            seq![
                Token::Plain("\n"@),
            ],
        ),
        Part::If(
            "actions"@,
            seq![
                Token::Plain("# Available actions:\n"@),
                Token::Var("actions"@),
                Token::Plain("\n\nWhen you want to take an action, include it in your response like: [ACTION_NAME]\nAvailable actions: "@),
                Token::Var("actionNames"@),
                Token::Plain("\n"@),
            ],
        ),
        Part::Text(
            seq![
                Token::Plain("\n# Current message from "@),
                Token::Var("senderName"@),
                Token::Plain(":\n"@),
                Token::Var("currentMessage"@),
                Token::Plain("\n\nRespond as "@),
                Token::Var("agentName"@),
                Token::Plain("."@),
            ],
        ),
        Part::If(
            "messageDirections"@,
            seq![
                Token::Plain(" "@),
                Token::Var("messageDirections"@),
            ],
        ),
    ]
}

/// The passages of the prompt for a response.
pub open spec fn user_passages(v: Map<Seq<char>, Seq<char>>) -> Seq<Seq<char>> {
    seq![
        told_if(v, "providers"@, "# Context:\n"@ + said(v, "providers"@) + "\n"@),
        "\n"@,
        told_if(v, "recentMessages"@, "# Recent conversation:\n"@ + said(v, "recentMessages"@) + "\n"@),
        "\n"@,
        told_if(v, "actions"@, "# Available actions:\n"@ + said(v, "actions"@) + "\n\nWhen you want to take an action, include it in your response like: [ACTION_NAME]\nAvailable actions: "@ + said(v, "actionNames"@) + "\n"@),
        "\n# Current message from "@ + said(v, "senderName"@) + ":\n"@ + said(v, "currentMessage"@) + "\n\nRespond as "@ + said(v, "agentName"@) + "."@,
        told_if(v, "messageDirections"@, " "@ + said(v, "messageDirections"@)),
    ]
}

#[verifier::rlimit(50)]
proof fn lemma_user_0(v: Map<Seq<char>, Seq<char>>)
    ensures
        user_parts()[0].wf(),
        tokens::text_of(user_parts()[0].tokens()) == "{{#if providers}}# Context:\n{{providers}}\n{{/if}}"@,
        user_parts()[0].meaning(v) == user_passages(v)[0],
{
    reveal_strlit("{{#if providers}}# Context:\n{{providers}}\n{{/if}}");
    reveal_strlit("# Context:\n");
    reveal_strlit("providers");
    reveal_strlit("\n");
    reveal_strlit("{{#if ");
    reveal_strlit("}}");
    reveal_strlit("{{/if}}");
    reveal_strlit("else");
    assert("else"@.len() == 4 && "else"@[0] == 'e');
    assert("providers"@.len() == 9 && "providers"@[0] == 'p');
    let body = seq![
        Token::Plain("# Context:\n"@),
        Token::Var("providers"@),
        Token::Plain("\n"@),
    ];
    reveal_with_fuel(tokens::text_of, 4);
    reveal_with_fuel(tokens::valued, 4);
    lemma_if_text("providers"@, body);
    assert(tokens::text_of(body) =~= "# Context:\n"@ + template::place_of("providers"@) + "\n"@);
    assert("{{#if providers}}# Context:\n{{providers}}\n{{/if}}"@ =~= tokens::text_of(user_parts()[0].tokens()));
    assert(tokens::valued(body, v) =~= "# Context:\n"@ + said(v, "providers"@) + "\n"@);
    assert forall|j: int| 0 <= j < body.len() implies ((#[trigger] body[j]) is Plain
        || body[j] is Var) && body[j] != blocks::other() && body[j].wf() by {}
}

#[verifier::rlimit(50)]
proof fn lemma_user_1(v: Map<Seq<char>, Seq<char>>)
    ensures
        user_parts()[1].wf(),
        tokens::text_of(user_parts()[1].tokens()) == "\n"@,
        user_parts()[1].meaning(v) == user_passages(v)[1],
{
    reveal_strlit("\n");
    reveal_strlit("else");
    assert("else"@.len() == 4 && "else"@[0] == 'e');
    let body = seq![
        Token::Plain("\n"@),
    ];
    reveal_with_fuel(tokens::text_of, 2);
    reveal_with_fuel(tokens::valued, 2);
    assert(tokens::text_of(body) =~= "\n"@);
    assert("\n"@ =~= tokens::text_of(user_parts()[1].tokens()));
    assert(tokens::valued(body, v) =~= "\n"@);
    assert forall|j: int| 0 <= j < body.len() implies ((#[trigger] body[j]) is Plain
        || body[j] is Var) && body[j] != blocks::other() && body[j].wf() by {}
}

#[verifier::rlimit(50)]
proof fn lemma_user_2(v: Map<Seq<char>, Seq<char>>)
    ensures
        user_parts()[2].wf(),
        tokens::text_of(user_parts()[2].tokens()) == "{{#if recentMessages}}# Recent conversation:\n{{recentMessages}}\n{{/if}}"@,
        user_parts()[2].meaning(v) == user_passages(v)[2],
{
    reveal_strlit("{{#if recentMessages}}# Recent conversation:\n{{recentMessages}}\n{{/if}}");
    reveal_strlit("# Recent conversation:\n");
    reveal_strlit("recentMessages");
    reveal_strlit("\n");
    reveal_strlit("{{#if ");
    reveal_strlit("}}");
    reveal_strlit("{{/if}}");
    reveal_strlit("else");
    assert("else"@.len() == 4 && "else"@[0] == 'e');
    assert("recentMessages"@.len() == 14 && "recentMessages"@[0] == 'r');
    let body = seq![
        Token::Plain("# Recent conversation:\n"@),
        Token::Var("recentMessages"@),
        Token::Plain("\n"@),
    ];
    reveal_with_fuel(tokens::text_of, 4);
    reveal_with_fuel(tokens::valued, 4);
    lemma_if_text("recentMessages"@, body);
    assert(tokens::text_of(body) =~= "# Recent conversation:\n"@ + template::place_of("recentMessages"@) + "\n"@);
    assert("{{#if recentMessages}}# Recent conversation:\n{{recentMessages}}\n{{/if}}"@ =~= tokens::text_of(user_parts()[2].tokens()));
    assert(tokens::valued(body, v) =~= "# Recent conversation:\n"@ + said(v, "recentMessages"@) + "\n"@);
    assert forall|j: int| 0 <= j < body.len() implies ((#[trigger] body[j]) is Plain
        || body[j] is Var) && body[j] != blocks::other() && body[j].wf() by {}
}

#[verifier::rlimit(50)]
proof fn lemma_user_3(v: Map<Seq<char>, Seq<char>>)
    ensures
        user_parts()[3].wf(),
        tokens::text_of(user_parts()[3].tokens()) == "\n"@,
        user_parts()[3].meaning(v) == user_passages(v)[3],
{
    reveal_strlit("\n");
    reveal_strlit("else");
    assert("else"@.len() == 4 && "else"@[0] == 'e');
    let body = seq![
        Token::Plain("\n"@),
    ];
    reveal_with_fuel(tokens::text_of, 2);
    reveal_with_fuel(tokens::valued, 2);
    assert(tokens::text_of(body) =~= "\n"@);
    assert("\n"@ =~= tokens::text_of(user_parts()[3].tokens()));
    assert(tokens::valued(body, v) =~= "\n"@);
    assert forall|j: int| 0 <= j < body.len() implies ((#[trigger] body[j]) is Plain
        || body[j] is Var) && body[j] != blocks::other() && body[j].wf() by {}
}

#[verifier::rlimit(50)]
proof fn lemma_user_4(v: Map<Seq<char>, Seq<char>>)
    ensures
        user_parts()[4].wf(),
        tokens::text_of(user_parts()[4].tokens()) == "{{#if actions}}# Available actions:\n{{actions}}\n\nWhen you want to take an action, include it in your response like: [ACTION_NAME]\nAvailable actions: {{actionNames}}\n{{/if}}"@,
        user_parts()[4].meaning(v) == user_passages(v)[4],
{
    reveal_strlit("{{#if actions}}# Available actions:\n{{actions}}\n\nWhen you want to take an action, include it in your response like: [ACTION_NAME]\nAvailable actions: {{actionNames}}\n{{/if}}");
    reveal_strlit("# Available actions:\n");
    reveal_strlit("actions");
    reveal_strlit("\n\nWhen you want to take an action, include it in your response like: [ACTION_NAME]\nAvailable actions: ");
    reveal_strlit("actionNames");
    reveal_strlit("\n");
    reveal_strlit("{{#if ");
    reveal_strlit("}}");
    reveal_strlit("{{/if}}");
    reveal_strlit("else");
    assert("else"@.len() == 4 && "else"@[0] == 'e');
    assert("actions"@.len() == 7 && "actions"@[0] == 'a');
    assert("actionNames"@.len() == 11 && "actionNames"@[0] == 'a');
    let body = seq![
        Token::Plain("# Available actions:\n"@),
        Token::Var("actions"@),
        Token::Plain("\n\nWhen you want to take an action, include it in your response like: [ACTION_NAME]\nAvailable actions: "@),
        Token::Var("actionNames"@),
        Token::Plain("\n"@),
    ];
    reveal_with_fuel(tokens::text_of, 6);
    reveal_with_fuel(tokens::valued, 6);
    lemma_if_text("actions"@, body);
    assert(tokens::text_of(body) =~= "# Available actions:\n"@ + template::place_of("actions"@) + "\n\nWhen you want to take an action, include it in your response like: [ACTION_NAME]\nAvailable actions: "@ + template::place_of("actionNames"@) + "\n"@);
    assert("{{#if actions}}# Available actions:\n{{actions}}\n\nWhen you want to take an action, include it in your response like: [ACTION_NAME]\nAvailable actions: {{actionNames}}\n{{/if}}"@ =~= tokens::text_of(user_parts()[4].tokens()));
    assert(tokens::valued(body, v) =~= "# Available actions:\n"@ + said(v, "actions"@) + "\n\nWhen you want to take an action, include it in your response like: [ACTION_NAME]\nAvailable actions: "@ + said(v, "actionNames"@) + "\n"@);
    assert forall|j: int| 0 <= j < body.len() implies ((#[trigger] body[j]) is Plain
        || body[j] is Var) && body[j] != blocks::other() && body[j].wf() by {}
}

#[verifier::rlimit(50)]
proof fn lemma_user_5(v: Map<Seq<char>, Seq<char>>)
    ensures
        user_parts()[5].wf(),
        tokens::text_of(user_parts()[5].tokens()) == "\n# Current message from {{senderName}}:\n{{currentMessage}}\n\nRespond as {{agentName}}."@,
        user_parts()[5].meaning(v) == user_passages(v)[5],
{
    reveal_strlit("\n# Current message from {{senderName}}:\n{{currentMessage}}\n\nRespond as {{agentName}}.");
    reveal_strlit("\n# Current message from ");
    reveal_strlit("senderName");
    reveal_strlit(":\n");
    reveal_strlit("currentMessage");
    reveal_strlit("\n\nRespond as ");
    reveal_strlit("agentName");
    reveal_strlit(".");
    reveal_strlit("else");
    assert("else"@.len() == 4 && "else"@[0] == 'e');
    assert("senderName"@.len() == 10 && "senderName"@[0] == 's');
    assert("currentMessage"@.len() == 14 && "currentMessage"@[0] == 'c');
    assert("agentName"@.len() == 9 && "agentName"@[0] == 'a');
    let body = seq![
        Token::Plain("\n# Current message from "@),
        Token::Var("senderName"@),
        Token::Plain(":\n"@),
        Token::Var("currentMessage"@),
        Token::Plain("\n\nRespond as "@),
        Token::Var("agentName"@),
        Token::Plain("."@),
    ];
    reveal_with_fuel(tokens::text_of, 8);
    reveal_with_fuel(tokens::valued, 8);
    assert(tokens::text_of(body) =~= "\n# Current message from "@ + template::place_of("senderName"@) + ":\n"@ + template::place_of("currentMessage"@) + "\n\nRespond as "@ + template::place_of("agentName"@) + "."@);
    assert("\n# Current message from {{senderName}}:\n{{currentMessage}}\n\nRespond as {{agentName}}."@ =~= tokens::text_of(user_parts()[5].tokens()));
    assert(tokens::valued(body, v) =~= "\n# Current message from "@ + said(v, "senderName"@) + ":\n"@ + said(v, "currentMessage"@) + "\n\nRespond as "@ + said(v, "agentName"@) + "."@);
    assert forall|j: int| 0 <= j < body.len() implies ((#[trigger] body[j]) is Plain
        || body[j] is Var) && body[j] != blocks::other() && body[j].wf() by {}
}

#[verifier::rlimit(50)]
proof fn lemma_user_6(v: Map<Seq<char>, Seq<char>>)
    ensures
        user_parts()[6].wf(),
        tokens::text_of(user_parts()[6].tokens()) == "{{#if messageDirections}} {{messageDirections}}{{/if}}"@,
        user_parts()[6].meaning(v) == user_passages(v)[6],
{
    reveal_strlit("{{#if messageDirections}} {{messageDirections}}{{/if}}");
    reveal_strlit(" ");
    reveal_strlit("messageDirections");
    reveal_strlit("{{#if ");
    reveal_strlit("}}");
    reveal_strlit("{{/if}}");
    reveal_strlit("else");
    assert("else"@.len() == 4 && "else"@[0] == 'e');
    assert("messageDirections"@.len() == 17 && "messageDirections"@[0] == 'm');
    let body = seq![
        Token::Plain(" "@),
        Token::Var("messageDirections"@),
    ];
    reveal_with_fuel(tokens::text_of, 3);
    reveal_with_fuel(tokens::valued, 3);
    lemma_if_text("messageDirections"@, body);
    assert(tokens::text_of(body) =~= " "@ + template::place_of("messageDirections"@));
    assert("{{#if messageDirections}} {{messageDirections}}{{/if}}"@ =~= tokens::text_of(user_parts()[6].tokens()));
    assert(tokens::valued(body, v) =~= " "@ + said(v, "messageDirections"@));
    assert forall|j: int| 0 <= j < body.len() implies ((#[trigger] body[j]) is Plain
        || body[j] is Var) && body[j] != blocks::other() && body[j].wf() by {}
}

/// The prompt for a response is made of its parts.
#[verifier::rlimit(50)]
proof fn lemma_user_text()
    ensures
        tokens::text_of(blocks::all_tokens(user_parts())) == respond::USER_PROMPT_TEMPLATE@,
{
    let v = Map::<Seq<char>, Seq<char>>::empty();
    lemma_user_0(v);
    lemma_user_1(v);
    lemma_user_2(v);
    lemma_user_3(v);
    lemma_user_4(v);
    lemma_user_5(v);
    lemma_user_6(v);
    let ts = seq![
        "{{#if providers}}# Context:\n{{providers}}\n{{/if}}"@,
        "\n"@,
        "{{#if recentMessages}}# Recent conversation:\n{{recentMessages}}\n{{/if}}"@,
        "\n"@,
        "{{#if actions}}# Available actions:\n{{actions}}\n\nWhen you want to take an action, include it in your response like: [ACTION_NAME]\nAvailable actions: {{actionNames}}\n{{/if}}"@,
        "\n# Current message from {{senderName}}:\n{{currentMessage}}\n\nRespond as {{agentName}}."@,
        "{{#if messageDirections}} {{messageDirections}}{{/if}}"@,
    ];
    lemma_parts_text(user_parts(), ts);
    reveal_strlit(
        r#"{{#if providers}}# Context:
{{providers}}
{{/if}}
{{#if recentMessages}}# Recent conversation:
{{recentMessages}}
{{/if}}
{{#if actions}}# Available actions:
{{actions}}

When you want to take an action, include it in your response like: [ACTION_NAME]
Available actions: {{actionNames}}
{{/if}}
# Current message from {{senderName}}:
{{currentMessage}}

Respond as {{agentName}}.{{#if messageDirections}} {{messageDirections}}{{/if}}"#,
    );
    reveal_strlit("{{#if providers}}# Context:\n{{providers}}\n{{/if}}");
    reveal_strlit("\n");
    reveal_strlit("{{#if recentMessages}}# Recent conversation:\n{{recentMessages}}\n{{/if}}");
    reveal_strlit("{{#if actions}}# Available actions:\n{{actions}}\n\nWhen you want to take an action, include it in your response like: [ACTION_NAME]\nAvailable actions: {{actionNames}}\n{{/if}}");
    reveal_strlit("\n# Current message from {{senderName}}:\n{{currentMessage}}\n\nRespond as {{agentName}}.");
    reveal_strlit("{{#if messageDirections}} {{messageDirections}}{{/if}}");
    reveal_with_fuel(strung, 8);
    assert(respond::USER_PROMPT_TEMPLATE@ =~= strung(ts));
}

/// The prompt for a response tells what the providers say, the recent conversation, the
/// actions, and the message at hand with who sent it.
#[verifier::rlimit(50)]
pub proof fn user_prompts_tell(v: Map<Seq<char>, Seq<char>>)
    ensures
        template::rendered(respond::USER_PROMPT_TEMPLATE@, v) == strung(user_passages(v)),
{
    let parts = user_parts();
    lemma_user_0(v);
    lemma_user_1(v);
    lemma_user_2(v);
    lemma_user_3(v);
    lemma_user_4(v);
    lemma_user_5(v);
    lemma_user_6(v);
    lemma_user_text();
    assert forall|i: int| 0 <= i < parts.len() implies (#[trigger] parts[i]).wf() by {}
    blocks::parts_are_rendered(parts, v);
    lemma_parts_meaning(parts, v, user_passages(v));
}

/// The parts of the prompt for the decision whether to respond.
pub open spec fn should_respond_parts() -> Seq<Part> {
    seq![
        Part::Text(
            seq![
                Token::Plain("# INSTRUCTIONS: Determine if "@),
                Token::Var("agentName"@),
                Token::Plain(" should respond to the message.\n\n"@),
            ],
        ),
        Part::If(
            "bio"@,
            seq![
                Token::Plain("About "@),
                Token::Var("agentName"@),
                Token::Plain(":\n"@),
                Token::Var("bio"@),
                Token::Plain("\n"@),
            ],
        ),
        Part::Text(
            seq![
                Token::Plain("\n\n"@),
            ],
        ),
        Part::If(
            "recentMessages"@,
            seq![
                Token::Plain("# Recent conversation:\n"@),
                Token::Var("recentMessages"@),
                Token::Plain("\n"@),
            ],
        ),
        Part::Text(
            seq![
                Token::Plain("\n\n# Current message from "@),
                Token::Var("senderName"@),
                Token::Plain(":\n"@),
                Token::Var("currentMessage"@),
                Token::Plain("\n\nShould "@),
                Token::Var("agentName"@),
                Token::Plain(" respond to this message? Consider:\n- Is the message directed at "@),
                Token::Var("agentName"@),
                Token::Plain("?\n- Is it a direct message (always respond)?\n- Would a response be natural and helpful?\n\nRespond with ONLY one of: [RESPOND], [IGNORE], [STOP]"@),
            ],
        ),
    ]
}

/// The passages of the prompt for the decision whether to respond.
pub open spec fn should_respond_passages(v: Map<Seq<char>, Seq<char>>) -> Seq<Seq<char>> {
    seq![
        "# INSTRUCTIONS: Determine if "@ + said(v, "agentName"@) + " should respond to the message.\n\n"@,
        told_if(v, "bio"@, "About "@ + said(v, "agentName"@) + ":\n"@ + said(v, "bio"@) + "\n"@),
        "\n\n"@,
        told_if(v, "recentMessages"@, "# Recent conversation:\n"@ + said(v, "recentMessages"@) + "\n"@),
        "\n\n# Current message from "@ + said(v, "senderName"@) + ":\n"@ + said(v, "currentMessage"@) + "\n\nShould "@ + said(v, "agentName"@) + " respond to this message? Consider:\n- Is the message directed at "@ + said(v, "agentName"@) + "?\n- Is it a direct message (always respond)?\n- Would a response be natural and helpful?\n\nRespond with ONLY one of: [RESPOND], [IGNORE], [STOP]"@,
    ]
}

#[verifier::rlimit(50)]
proof fn lemma_should_respond_0(v: Map<Seq<char>, Seq<char>>)
    ensures
        should_respond_parts()[0].wf(),
        tokens::text_of(should_respond_parts()[0].tokens()) == "# INSTRUCTIONS: Determine if {{agentName}} should respond to the message.\n\n"@,
        should_respond_parts()[0].meaning(v) == should_respond_passages(v)[0],
{
    reveal_strlit("# INSTRUCTIONS: Determine if {{agentName}} should respond to the message.\n\n");
    reveal_strlit("# INSTRUCTIONS: Determine if ");
    reveal_strlit("agentName");
    reveal_strlit(" should respond to the message.\n\n");
    reveal_strlit("else");
    assert("else"@.len() == 4 && "else"@[0] == 'e');
    assert("agentName"@.len() == 9 && "agentName"@[0] == 'a');
    let body = seq![
        Token::Plain("# INSTRUCTIONS: Determine if "@),
        Token::Var("agentName"@),
        Token::Plain(" should respond to the message.\n\n"@),
    ];
    reveal_with_fuel(tokens::text_of, 4);
    reveal_with_fuel(tokens::valued, 4);
    assert(tokens::text_of(body) =~= "# INSTRUCTIONS: Determine if "@ + template::place_of("agentName"@) + " should respond to the message.\n\n"@);
    assert("# INSTRUCTIONS: Determine if {{agentName}} should respond to the message.\n\n"@ =~= tokens::text_of(should_respond_parts()[0].tokens()));
    assert(tokens::valued(body, v) =~= "# INSTRUCTIONS: Determine if "@ + said(v, "agentName"@) + " should respond to the message.\n\n"@);
    assert forall|j: int| 0 <= j < body.len() implies ((#[trigger] body[j]) is Plain
        || body[j] is Var) && body[j] != blocks::other() && body[j].wf() by {}
}

#[verifier::rlimit(50)]
proof fn lemma_should_respond_1(v: Map<Seq<char>, Seq<char>>)
    ensures
        should_respond_parts()[1].wf(),
        tokens::text_of(should_respond_parts()[1].tokens()) == "{{#if bio}}About {{agentName}}:\n{{bio}}\n{{/if}}"@,
        should_respond_parts()[1].meaning(v) == should_respond_passages(v)[1],
{
    reveal_strlit("{{#if bio}}About {{agentName}}:\n{{bio}}\n{{/if}}");
    reveal_strlit("About ");
    reveal_strlit("agentName");
    reveal_strlit(":\n");
    reveal_strlit("bio");
    reveal_strlit("\n");
    reveal_strlit("{{#if ");
    reveal_strlit("}}");
    reveal_strlit("{{/if}}");
    reveal_strlit("else");
    assert("else"@.len() == 4 && "else"@[0] == 'e');
    assert("agentName"@.len() == 9 && "agentName"@[0] == 'a');
    assert("bio"@.len() == 3 && "bio"@[0] == 'b');
    let body = seq![
        Token::Plain("About "@),
        Token::Var("agentName"@),
        Token::Plain(":\n"@),
        Token::Var("bio"@),
        Token::Plain("\n"@),
    ];
    reveal_with_fuel(tokens::text_of, 6);
    reveal_with_fuel(tokens::valued, 6);
    lemma_if_text("bio"@, body);
    assert(tokens::text_of(body) =~= "About "@ + template::place_of("agentName"@) + ":\n"@ + template::place_of("bio"@) + "\n"@);
    assert("{{#if bio}}About {{agentName}}:\n{{bio}}\n{{/if}}"@ =~= tokens::text_of(should_respond_parts()[1].tokens()));
    assert(tokens::valued(body, v) =~= "About "@ + said(v, "agentName"@) + ":\n"@ + said(v, "bio"@) + "\n"@);
    assert forall|j: int| 0 <= j < body.len() implies ((#[trigger] body[j]) is Plain
        || body[j] is Var) && body[j] != blocks::other() && body[j].wf() by {}
}

#[verifier::rlimit(50)]
proof fn lemma_should_respond_2(v: Map<Seq<char>, Seq<char>>)
    ensures
        should_respond_parts()[2].wf(),
        tokens::text_of(should_respond_parts()[2].tokens()) == "\n\n"@,
        should_respond_parts()[2].meaning(v) == should_respond_passages(v)[2],
{
    reveal_strlit("\n\n");
    reveal_strlit("else");
    assert("else"@.len() == 4 && "else"@[0] == 'e');
    let body = seq![
        Token::Plain("\n\n"@),
    ];
    reveal_with_fuel(tokens::text_of, 2);
    reveal_with_fuel(tokens::valued, 2);
    assert(tokens::text_of(body) =~= "\n\n"@);
    assert("\n\n"@ =~= tokens::text_of(should_respond_parts()[2].tokens()));
    assert(tokens::valued(body, v) =~= "\n\n"@);
    assert forall|j: int| 0 <= j < body.len() implies ((#[trigger] body[j]) is Plain
        || body[j] is Var) && body[j] != blocks::other() && body[j].wf() by {}
}

#[verifier::rlimit(50)]
proof fn lemma_should_respond_3(v: Map<Seq<char>, Seq<char>>)
    ensures
        should_respond_parts()[3].wf(),
        tokens::text_of(should_respond_parts()[3].tokens()) == "{{#if recentMessages}}# Recent conversation:\n{{recentMessages}}\n{{/if}}"@,
        should_respond_parts()[3].meaning(v) == should_respond_passages(v)[3],
{
    reveal_strlit("{{#if recentMessages}}# Recent conversation:\n{{recentMessages}}\n{{/if}}");
    reveal_strlit("# Recent conversation:\n");
    reveal_strlit("recentMessages");
    reveal_strlit("\n");
    reveal_strlit("{{#if ");
    reveal_strlit("}}");
    reveal_strlit("{{/if}}");
    reveal_strlit("else");
    assert("else"@.len() == 4 && "else"@[0] == 'e');
    assert("recentMessages"@.len() == 14 && "recentMessages"@[0] == 'r');
    let body = seq![
        Token::Plain("# Recent conversation:\n"@),
        Token::Var("recentMessages"@),
        Token::Plain("\n"@),
    ];
    reveal_with_fuel(tokens::text_of, 4);
    reveal_with_fuel(tokens::valued, 4);
    lemma_if_text("recentMessages"@, body);
    assert(tokens::text_of(body) =~= "# Recent conversation:\n"@ + template::place_of("recentMessages"@) + "\n"@);
    assert("{{#if recentMessages}}# Recent conversation:\n{{recentMessages}}\n{{/if}}"@ =~= tokens::text_of(should_respond_parts()[3].tokens()));
    assert(tokens::valued(body, v) =~= "# Recent conversation:\n"@ + said(v, "recentMessages"@) + "\n"@);
    assert forall|j: int| 0 <= j < body.len() implies ((#[trigger] body[j]) is Plain
        || body[j] is Var) && body[j] != blocks::other() && body[j].wf() by {}
}

#[verifier::spinoff_prover]
#[verifier::rlimit(100)]
proof fn lemma_should_respond_4_wf()
    ensures
        should_respond_parts()[4].wf(),
{
    reveal_strlit("\n\n# Current message from ");
    reveal_strlit("senderName");
    reveal_strlit(":\n");
    reveal_strlit("currentMessage");
    reveal_strlit("\n\nShould ");
    reveal_strlit("agentName");
    reveal_strlit(" respond to this message? Consider:\n- Is the message directed at ");
    reveal_strlit("?\n- Is it a direct message (always respond)?\n- Would a response be natural and helpful?\n\nRespond with ONLY one of: [RESPOND], [IGNORE], [STOP]");
    reveal_strlit("else");
    assert("else"@.len() == 4 && "else"@[0] == 'e');
    assert("senderName"@.len() == 10 && "senderName"@[0] == 's');
    assert("currentMessage"@.len() == 14 && "currentMessage"@[0] == 'c');
    assert("agentName"@.len() == 9 && "agentName"@[0] == 'a');
    let body = seq![
        Token::Plain("\n\n# Current message from "@),
        Token::Var("senderName"@),
        Token::Plain(":\n"@),
        Token::Var("currentMessage"@),
        Token::Plain("\n\nShould "@),
        Token::Var("agentName"@),
        Token::Plain(" respond to this message? Consider:\n- Is the message directed at "@),
        Token::Var("agentName"@),
        Token::Plain("?\n- Is it a direct message (always respond)?\n- Would a response be natural and helpful?\n\nRespond with ONLY one of: [RESPOND], [IGNORE], [STOP]"@),
    ];
    assert forall|j: int| 0 <= j < body.len() implies ((#[trigger] body[j]) is Plain
        || body[j] is Var) && body[j] != blocks::other() && body[j].wf() by {}
}

#[verifier::spinoff_prover]
#[verifier::rlimit(100)]
proof fn lemma_should_respond_4_text()
    ensures
        tokens::text_of(should_respond_parts()[4].tokens()) == "\n\n# Current message from {{senderName}}:\n{{currentMessage}}\n\nShould {{agentName}} respond to this message? Consider:\n- Is the message directed at {{agentName}}?\n- Is it a direct message (always respond)?\n- Would a response be natural and helpful?\n\nRespond with ONLY one of: [RESPOND], [IGNORE], [STOP]"@,
{
    let body = seq![
        Token::Plain("\n\n# Current message from "@),
        Token::Var("senderName"@),
        Token::Plain(":\n"@),
        Token::Var("currentMessage"@),
        Token::Plain("\n\nShould "@),
        Token::Var("agentName"@),
        Token::Plain(" respond to this message? Consider:\n- Is the message directed at "@),
        Token::Var("agentName"@),
        Token::Plain("?\n- Is it a direct message (always respond)?\n- Would a response be natural and helpful?\n\nRespond with ONLY one of: [RESPOND], [IGNORE], [STOP]"@),
    ];
    reveal_with_fuel(tokens::text_of, 10);
    assert(tokens::text_of(body) =~= "\n\n# Current message from "@ + template::place_of("senderName"@) + ":\n"@ + template::place_of("currentMessage"@) + "\n\nShould "@ + template::place_of("agentName"@) + " respond to this message? Consider:\n- Is the message directed at "@ + template::place_of("agentName"@) + "?\n- Is it a direct message (always respond)?\n- Would a response be natural and helpful?\n\nRespond with ONLY one of: [RESPOND], [IGNORE], [STOP]"@);
    reveal_strlit("\n\n# Current message from {{senderName}}:\n{{currentMessage}}\n\nShould {{agentName}} respond to this message? Consider:\n- Is the message directed at {{agentName}}?\n- Is it a direct message (always respond)?\n- Would a response be natural and helpful?\n\nRespond with ONLY one of: [RESPOND], [IGNORE], [STOP]");
    reveal_strlit("\n\n# Current message from ");
    reveal_strlit("senderName");
    reveal_strlit(":\n");
    reveal_strlit("currentMessage");
    reveal_strlit("\n\nShould ");
    reveal_strlit("agentName");
    reveal_strlit(" respond to this message? Consider:\n- Is the message directed at ");
    reveal_strlit("?\n- Is it a direct message (always respond)?\n- Would a response be natural and helpful?\n\nRespond with ONLY one of: [RESPOND], [IGNORE], [STOP]");
    assert("\n\n# Current message from {{senderName}}:\n{{currentMessage}}\n\nShould {{agentName}} respond to this message? Consider:\n- Is the message directed at {{agentName}}?\n- Is it a direct message (always respond)?\n- Would a response be natural and helpful?\n\nRespond with ONLY one of: [RESPOND], [IGNORE], [STOP]"@ =~= tokens::text_of(should_respond_parts()[4].tokens()));
}

#[verifier::spinoff_prover]
#[verifier::rlimit(100)]
proof fn lemma_should_respond_4_meaning(v: Map<Seq<char>, Seq<char>>)
    ensures
        should_respond_parts()[4].meaning(v) == should_respond_passages(v)[4],
{
    let body = seq![
        Token::Plain("\n\n# Current message from "@),
        Token::Var("senderName"@),
        Token::Plain(":\n"@),
        Token::Var("currentMessage"@),
        Token::Plain("\n\nShould "@),
        Token::Var("agentName"@),
        Token::Plain(" respond to this message? Consider:\n- Is the message directed at "@),
        Token::Var("agentName"@),
        Token::Plain("?\n- Is it a direct message (always respond)?\n- Would a response be natural and helpful?\n\nRespond with ONLY one of: [RESPOND], [IGNORE], [STOP]"@),
    ];
    reveal_with_fuel(tokens::valued, 10);
    assert(tokens::valued(body, v) =~= "\n\n# Current message from "@ + said(v, "senderName"@) + ":\n"@ + said(v, "currentMessage"@) + "\n\nShould "@ + said(v, "agentName"@) + " respond to this message? Consider:\n- Is the message directed at "@ + said(v, "agentName"@) + "?\n- Is it a direct message (always respond)?\n- Would a response be natural and helpful?\n\nRespond with ONLY one of: [RESPOND], [IGNORE], [STOP]"@);
}

proof fn lemma_should_respond_4(v: Map<Seq<char>, Seq<char>>)
    ensures
        should_respond_parts()[4].wf(),
        tokens::text_of(should_respond_parts()[4].tokens()) == "\n\n# Current message from {{senderName}}:\n{{currentMessage}}\n\nShould {{agentName}} respond to this message? Consider:\n- Is the message directed at {{agentName}}?\n- Is it a direct message (always respond)?\n- Would a response be natural and helpful?\n\nRespond with ONLY one of: [RESPOND], [IGNORE], [STOP]"@,
        should_respond_parts()[4].meaning(v) == should_respond_passages(v)[4],
{
    lemma_should_respond_4_wf();
    lemma_should_respond_4_text();
    lemma_should_respond_4_meaning(v);
}

/// The prompt for the decision whether to respond is made of its parts.
#[verifier::rlimit(50)]
proof fn lemma_should_respond_text()
    ensures
        tokens::text_of(blocks::all_tokens(should_respond_parts())) == respond::SHOULD_RESPOND_TEMPLATE@,
{
    let v = Map::<Seq<char>, Seq<char>>::empty();
    lemma_should_respond_0(v);
    lemma_should_respond_1(v);
    lemma_should_respond_2(v);
    lemma_should_respond_3(v);
    lemma_should_respond_4(v);
    let ts = seq![
        "# INSTRUCTIONS: Determine if {{agentName}} should respond to the message.\n\n"@,
        "{{#if bio}}About {{agentName}}:\n{{bio}}\n{{/if}}"@,
        "\n\n"@,
        "{{#if recentMessages}}# Recent conversation:\n{{recentMessages}}\n{{/if}}"@,
        "\n\n# Current message from {{senderName}}:\n{{currentMessage}}\n\nShould {{agentName}} respond to this message? Consider:\n- Is the message directed at {{agentName}}?\n- Is it a direct message (always respond)?\n- Would a response be natural and helpful?\n\nRespond with ONLY one of: [RESPOND], [IGNORE], [STOP]"@,
    ];
    lemma_parts_text(should_respond_parts(), ts);
    reveal_strlit(
        r#"# INSTRUCTIONS: Determine if {{agentName}} should respond to the message.

{{#if bio}}About {{agentName}}:
{{bio}}
{{/if}}

{{#if recentMessages}}# Recent conversation:
{{recentMessages}}
{{/if}}

# Current message from {{senderName}}:
{{currentMessage}}

Should {{agentName}} respond to this message? Consider:
- Is the message directed at {{agentName}}?
- Is it a direct message (always respond)?
- Would a response be natural and helpful?

Respond with ONLY one of: [RESPOND], [IGNORE], [STOP]"#,
    );
    reveal_strlit("# INSTRUCTIONS: Determine if {{agentName}} should respond to the message.\n\n");
    reveal_strlit("{{#if bio}}About {{agentName}}:\n{{bio}}\n{{/if}}");
    reveal_strlit("\n\n");
    reveal_strlit("{{#if recentMessages}}# Recent conversation:\n{{recentMessages}}\n{{/if}}");
    reveal_strlit("\n\n# Current message from {{senderName}}:\n{{currentMessage}}\n\nShould {{agentName}} respond to this message? Consider:\n- Is the message directed at {{agentName}}?\n- Is it a direct message (always respond)?\n- Would a response be natural and helpful?\n\nRespond with ONLY one of: [RESPOND], [IGNORE], [STOP]");
    reveal_with_fuel(strung, 6);
    assert(respond::SHOULD_RESPOND_TEMPLATE@ =~= strung(ts));
}

/// The prompt for the decision whether to respond tells of the agent, the recent
/// conversation, and the message at hand with who sent it.
#[verifier::rlimit(50)]
pub proof fn should_respond_prompts_tell(v: Map<Seq<char>, Seq<char>>)
    ensures
        template::rendered(respond::SHOULD_RESPOND_TEMPLATE@, v) == strung(should_respond_passages(v)),
{
    let parts = should_respond_parts();
    lemma_should_respond_0(v);
    lemma_should_respond_1(v);
    lemma_should_respond_2(v);
    lemma_should_respond_3(v);
    lemma_should_respond_4(v);
    lemma_should_respond_text();
    assert forall|i: int| 0 <= i < parts.len() implies (#[trigger] parts[i]).wf() by {}
    blocks::parts_are_rendered(parts, v);
    lemma_parts_meaning(parts, v, should_respond_passages(v));
}

/// What a value says is told in a prompt that has a passage for it.
#[verifier::rlimit(50)]
proof fn lemma_told(
    ts: Seq<Seq<char>>,
    k: int,
    before: Seq<char>,
    value: Seq<char>,
    behind: Seq<char>,
    ps: Seq<Seq<char>>,
)
    requires
        0 <= k < ts.len(),
        value.len() > 0 ==> ts[k] == before + value + behind,
        passages::in_order(value, ps),
    ensures
        passages::in_order(strung(ts), ps),
        text::has(strung(ts), value),
{
    let t = strung(ts);
    let none = Seq::<char>::empty();
    if value.len() > 0 {
        lemma_strung(ts, k);
        passages::lemma_stands(before, value, behind);
        passages::lemma_has_through(t, ts[k], value);
    } else {
        assert(value =~= none);
        assert(t.subrange(0, 0) =~= none);
        assert(text::occurs_at(t, value, 0));
    }
    passages::lemma_in_order_through(t, value, ps);
}

/// The providers put nothing in the place of what the state holds.
pub open spec fn adds_only(
    values: Map<Seq<char>, Seq<char>>,
    results: Seq<compose::Provided>,
) -> bool {
    forall|j: int, name: Seq<char>|
        0 <= j < results.len() && (#[trigger] results[j]).result is Some
            && #[trigger] values.contains_key(name)
            ==> !results[j].result.unwrap().values@.contains_key(name)
}

/// The system prompt tells of the character: its name, its system text, and every entry
/// of its bio, lore, knowledge, topics, adjectives and style, in order.
#[verifier::rlimit(50)]
pub proof fn system_prompts_tell_of_the_character(
    c: Character,
    message: Memory,
    entity: Option<Entity>,
    recent: Seq<Memory>,
    summary: Option<Seq<char>>,
    actions: Seq<ActionSpec>,
    results: Seq<compose::Provided>,
    v: Map<Seq<char>, Seq<char>>,
)
    requires
        compose::adds_provided(
            compose::composed_values(c, message, entity, recent, summary, actions),
            results,
            v,
        ),
        adds_only(
            compose::composed_values(c, message, entity, recent, summary, actions),
            results,
        ),
    ensures
        ({
            let prompt = template::rendered(respond::SYSTEM_PROMPT_TEMPLATE@, v);
            &&& text::begins_with(prompt, "You are "@ + c.name@ + "."@)
            &&& c.system is Some ==> text::has(prompt, c.system.unwrap()@)
            &&& passages::in_order(prompt, text::texts(c.bio@))
            &&& passages::in_order(prompt, text::texts(c.lore@))
            &&& passages::in_order(prompt, text::texts(c.knowledge@))
            &&& passages::in_order(prompt, text::texts(c.topics@))
            &&& passages::in_order(prompt, text::texts(c.adjectives@))
            &&& passages::in_order(prompt, text::texts(c.style.all@))
            &&& passages::in_order(prompt, text::texts(c.style.chat@))
        }),
{
    let w = compose::composed_values(c, message, entity, recent, summary, actions);
    let none = Seq::<char>::empty();
    compose::character_is_told(c, message, entity, recent, summary, actions);
    compose::lemma_value_names();
    lemma_kept(w, results, v, "agentName"@);
    lemma_kept(w, results, v, "bio"@);
    lemma_kept(w, results, v, "lore"@);
    lemma_kept(w, results, v, "knowledge"@);
    lemma_kept(w, results, v, "topics"@);
    lemma_kept(w, results, v, "adjectives"@);
    lemma_kept(w, results, v, "styleAll"@);
    lemma_kept(w, results, v, "styleChat"@);
    let prompt = template::rendered(respond::SYSTEM_PROMPT_TEMPLATE@, v);
    let ts = system_passages(v);
    system_prompts_tell(v);
    let about = "\n\n# About "@ + said(v, "agentName"@) + ":\n"@;
    lemma_told(ts, 2, about, said(v, "bio"@), "\n\n"@, text::texts(c.bio@));
    lemma_told(ts, 3, "# Backstory:\n"@, said(v, "lore"@), "\n"@, text::texts(c.lore@));
    lemma_told(ts, 5, "# Knowledge:\n"@, said(v, "knowledge"@), "\n"@, text::texts(c.knowledge@));
    assert(ts[7] =~= told_if(
        v,
        "topics"@,
        "# Topics of interest: "@ + said(v, "topics"@) + none,
    ));
    lemma_told(ts, 7, "# Topics of interest: "@, said(v, "topics"@), none, text::texts(c.topics@));
    assert(ts[9] =~= told_if(
        v,
        "adjectives"@,
        "# Personality traits: "@ + said(v, "adjectives"@) + none,
    ));
    lemma_told(
        ts,
        9,
        "# Personality traits: "@,
        said(v, "adjectives"@),
        none,
        text::texts(c.adjectives@),
    );
    lemma_told(
        ts,
        11,
        "# Communication style:\n"@,
        said(v, "styleAll"@),
        "\n"@,
        text::texts(c.style.all@),
    );
    lemma_told(
        ts,
        13,
        "# Chat style:\n"@,
        said(v, "styleChat"@),
        "\n"@,
        text::texts(c.style.chat@),
    );
    if c.system is Some {
        lemma_kept(w, results, v, "system"@);
        let s = c.system.unwrap()@;
        assert(s.len() > 0 ==> ts[1] =~= none + s + none);
        lemma_told(ts, 1, none, s, none, Seq::empty());
    }
    reveal_strlit(".\n");
    reveal_strlit(".");
    let head = "You are "@ + c.name@ + "."@;
    assert(prompt == ts[0] + strung(ts.drop_first()));
    assert(prompt.subrange(0, head.len() as int) =~= head);
}

/// The prompt for a response ends with the message at hand, behind who sent it, and
/// tells of the recent conversation, of the actions and of what the providers say.
#[verifier::rlimit(50)]
pub proof fn user_prompts_tell_of_the_message(
    c: Character,
    message: Memory,
    entity: Option<Entity>,
    recent: Seq<Memory>,
    summary: Option<Seq<char>>,
    actions: Seq<ActionSpec>,
    results: Seq<compose::Provided>,
    v: Map<Seq<char>, Seq<char>>,
)
    requires
        compose::adds_provided(
            compose::composed_values(c, message, entity, recent, summary, actions),
            results,
            v,
        ),
        adds_only(
            compose::composed_values(c, message, entity, recent, summary, actions),
            results,
        ),
    ensures
        ({
            let w = compose::composed_values(c, message, entity, recent, summary, actions);
            let prompt = template::rendered(respond::USER_PROMPT_TEMPLATE@, v);
            &&& message.content.text is Some ==> text::has(
                prompt,
                "# Current message from "@ + w["senderName"@] + ":\n"@
                    + message.content.text.unwrap()@ + "\n\nRespond as "@ + c.name@ + "."@,
            )
            &&& text::has(prompt, w["recentMessages"@])
            &&& text::has(prompt, w["actions"@])
            &&& w["actions"@].len() > 0 ==> text::has(prompt, w["actionNames"@])
            &&& text::has(prompt, v["providers"@])
        }),
{
    let w = compose::composed_values(c, message, entity, recent, summary, actions);
    let none = Seq::<char>::empty();
    compose::character_is_told(c, message, entity, recent, summary, actions);
    compose::conversation_is_told(c, message, entity, recent, summary, actions);
    compose::actions_are_told(c, message, entity, recent, summary, actions);
    compose::lemma_value_names();
    lemma_kept(w, results, v, "agentName"@);
    lemma_kept(w, results, v, "currentMessage"@);
    lemma_kept(w, results, v, "senderName"@);
    lemma_kept(w, results, v, "recentMessages"@);
    lemma_kept(w, results, v, "actions"@);
    lemma_kept(w, results, v, "actionNames"@);
    let prompt = template::rendered(respond::USER_PROMPT_TEMPLATE@, v);
    let ts = user_passages(v);
    user_prompts_tell(v);
    lemma_told(ts, 0, "# Context:\n"@, said(v, "providers"@), "\n"@, Seq::empty());
    lemma_told(
        ts,
        2,
        "# Recent conversation:\n"@,
        said(v, "recentMessages"@),
        "\n"@,
        Seq::empty(),
    );
    let offered =
        "\n\nWhen you want to take an action, include it in your response like: [ACTION_NAME]\nAvailable actions: "@;
    let names = said(v, "actionNames"@) + "\n"@;
    assert(said(v, "actions"@).len() > 0 ==> ts[4] =~= "# Available actions:\n"@ + said(
        v,
        "actions"@,
    ) + (offered + names));
    lemma_told(
        ts,
        4,
        "# Available actions:\n"@,
        said(v, "actions"@),
        offered + names,
        Seq::empty(),
    );
    if w["actions"@].len() > 0 {
        let before = "# Available actions:\n"@ + said(v, "actions"@) + offered;
        assert(ts[4] =~= before + said(v, "actionNames"@) + "\n"@);
        lemma_strung(ts, 4);
        passages::lemma_stands(before, said(v, "actionNames"@), "\n"@);
        passages::lemma_has_through(prompt, ts[4], said(v, "actionNames"@));
    }
    if message.content.text is Some {
        let t = message.content.text.unwrap()@;
        let asked = "# Current message from "@ + w["senderName"@] + ":\n"@ + t
            + "\n\nRespond as "@ + c.name@ + "."@;
        reveal_strlit("\n# Current message from ");
        reveal_strlit("# Current message from ");
        reveal_strlit("\n");
        assert("\n# Current message from "@ =~= "\n"@ + "# Current message from "@);
        assert(ts[5] =~= "\n"@ + asked + none);
        passages::lemma_stands("\n"@, asked, none);
        lemma_strung(ts, 5);
        passages::lemma_has_through(prompt, ts[5], asked);
    }
}

/// What a state holds stays where the providers only add to it.
#[verifier::rlimit(50)]
proof fn lemma_kept(
    w: Map<Seq<char>, Seq<char>>,
    results: Seq<compose::Provided>,
    v: Map<Seq<char>, Seq<char>>,
    name: Seq<char>,
)
    requires
        compose::adds_provided(w, results, v),
        adds_only(w, results),
        w.contains_key(name),
        name != "providers"@,
    ensures
        v.contains_key(name),
        v[name] == w[name],
{
    assert forall|j: int| 0 <= j < results.len() && (
    #[trigger] results[j]).result is Some implies !results[j].result.unwrap().values@.contains_key(
        name,
    ) by {
        assert(w.contains_key(name));
    }
    compose::values_are_kept(w, results, v, name);
}

/// The model is asked for a response with a system prompt and a prompt of these passages, one
/// behind the other, and for the decision whether to respond as the agent, with one of these.
#[verifier::rlimit(50)]
pub proof fn models_are_asked(
    response: GenerateTextParams,
    decision: GenerateTextParams,
    name: Seq<char>,
    v: Map<Seq<char>, Seq<char>>,
)
    requires
        respond::asks_for_response(response, v),
        respond::asks_for_decision(decision, name, v),
    ensures
        response.system_prompt@ == strung(system_passages(v)),
        response.prompt@ == strung(user_passages(v)),
        decision.prompt@ == strung(should_respond_passages(v)),
        text::has(decision.system_prompt@, name),
        response.model_type == ModelType::TextLarge,
        decision.model_type == ModelType::TextSmall,
{
    system_prompts_tell(v);
    user_prompts_tell(v);
    should_respond_prompts_tell(v);
    passages::lemma_stands(
        "You are a response decision engine for "@,
        name,
        ". Respond with ONLY [RESPOND], [IGNORE], or [STOP]."@,
    );
}

} // verus!
