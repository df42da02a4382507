//! What templates come to that are made of text and blocks one after the other.
use vstd::prelude::*;

use crate::lines;
use crate::template;
use crate::template::Place;
use crate::tokens;
use crate::tokens::{Block, Token};

verus! {

/// A part of a template: text with variables, or a block around such text.
pub enum Part {
    Text(Seq<Token>),
    If(Seq<char>, Seq<Token>),
    IfElse(Seq<char>, Seq<Token>, Seq<Token>),
    Unless(Seq<char>, Seq<Token>),
    Each(Seq<char>, Seq<Token>),
}

/// `{{else}}`.
pub open spec fn other() -> Token {
    Token::Var("else"@)
}

/// Text with variables: nothing that begins, divides or ends a block.
pub open spec fn is_text(ts: Seq<Token>) -> bool {
    forall|i: int|
        0 <= i < ts.len() ==> ((#[trigger] ts[i]) is Plain || ts[i] is Var) && ts[i] != other()
            && ts[i].wf()
}

impl Part {
    /// The part is well formed.
    pub open spec fn wf(self) -> bool {
        match self {
            Part::Text(a) => is_text(a),
            Part::If(name, a) => tokens::block_name(name) && is_text(a),
            Part::IfElse(name, a, b) => tokens::block_name(name) && is_text(a) && is_text(b),
            Part::Unless(name, a) => tokens::block_name(name) && is_text(a),
            Part::Each(name, a) => tokens::block_name(name) && is_text(a),
        }
    }

    /// The tokens of the part.
    pub open spec fn tokens(self) -> Seq<Token> {
        match self {
            Part::Text(a) => a,
            Part::If(name, a) => seq![Token::Open(Block::If, name)] + (a + seq![
                Token::Close(Block::If),
            ]),
            Part::IfElse(name, a, b) => seq![Token::Open(Block::If, name)] + (a + (seq![other()] + (b
                + seq![Token::Close(Block::If)]))),
            Part::Unless(name, a) => seq![Token::Open(Block::Unless, name)] + (a + seq![
                Token::Close(Block::Unless),
            ]),
            Part::Each(name, a) => seq![Token::Open(Block::Each, name)] + (a + seq![
                Token::Close(Block::Each),
            ]),
        }
    }

    /// What the part comes to: a condition to its body where the variable has a
    /// value that is not empty, and else to its alternative or nothing; a negated
    /// condition the other way round; and a loop to its body for each line of the
    /// value, the line in place of `{{this}}`.
    pub open spec fn meaning(self, vars: Map<Seq<char>, Seq<char>>) -> Seq<char> {
        match self {
            Part::Text(a) => tokens::valued(a, vars),
            Part::If(name, a) => if template::is_set(vars, name) {
                tokens::valued(a, vars)
            } else {
                Seq::empty()
            },
            Part::IfElse(name, a, b) => if template::is_set(vars, name) {
                tokens::valued(a, vars)
            } else {
                tokens::valued(b, vars)
            },
            Part::Unless(name, a) => if template::is_set(vars, name) {
                Seq::empty()
            } else {
                tokens::valued(a, vars)
            },
            Part::Each(name, a) => if template::is_set(vars, name) {
                each_line(a, lines::lines_of(vars[name]), vars)
            } else {
                Seq::empty()
            },
        }
    }
}

/// A body for each line, the line in place of `{{this}}`.
pub open spec fn each_line(
    body: Seq<Token>,
    items: Seq<Seq<char>>,
    vars: Map<Seq<char>, Seq<char>>,
) -> Seq<char>
    decreases items.len(),
{
    if items.len() == 0 {
        Seq::empty()
    } else {
        each_line(body, items.drop_last(), vars) + tokens::valued(
            body,
            vars.insert("this"@, items.last()),
        )
    }
}

/// The tokens of parts.
pub open spec fn all_tokens(parts: Seq<Part>) -> Seq<Token>
    decreases parts.len(),
{
    if parts.len() == 0 {
        Seq::empty()
    } else {
        parts[0].tokens() + all_tokens(parts.drop_first())
    }
}

/// What parts come to, one after the other.
pub open spec fn meanings(parts: Seq<Part>, vars: Map<Seq<char>, Seq<char>>) -> Seq<char>
    decreases parts.len(),
{
    if parts.len() == 0 {
        Seq::empty()
    } else {
        parts[0].meaning(vars) + meanings(parts.drop_first(), vars)
    }
}

/// The parts are well formed.
pub open spec fn all_wf(parts: Seq<Part>) -> bool {
    forall|i: int| 0 <= i < parts.len() ==> (#[trigger] parts[i]).wf()
}

/// The lines that loops run over hold no opening brace.
pub open spec fn loops_are_plain(parts: Seq<Part>, vars: Map<Seq<char>, Seq<char>>) -> bool {
    forall|i: int|
        0 <= i < parts.len() ==> ((#[trigger] parts[i]) matches Part::Each(name, _) ==> (
        vars.contains_key(name) ==> tokens::plain(vars[name])))
}

// ---------------------------------------------------------------------------
// Tokens of parts
// ---------------------------------------------------------------------------

/// Where a token stands first.
proof fn lemma_find_behind(a: Seq<Token>, t: Token, b: Seq<Token>)
    requires
        !a.contains(t),
    ensures
        tokens::find(a + (seq![t] + b), t) == Some(a.len() as int),
    decreases a.len(),
{
    let all = a + (seq![t] + b);
    if a.len() == 0 {
        assert(all[0] == t);
    } else {
        assert(all[0] == a[0]);
        assert(a.contains(a[0]));
        assert(all.drop_first() =~= a.drop_first() + (seq![t] + b));
        assert forall|i: int| 0 <= i < a.drop_first().len() implies #[trigger] a.drop_first()[i]
            != t by {
            assert(a.contains(a[i + 1]));
        }
        lemma_find_behind(a.drop_first(), t, b);
    }
}

/// Tokens that begin no block of the kind stay.
proof fn lemma_kept(
    place: Place,
    a: Seq<Token>,
    more: Seq<Token>,
    vars: Map<Seq<char>, Seq<char>>,
)
    requires
        forall|i: int|
            0 <= i < a.len() ==> !((#[trigger] a[i]) matches Token::Open(block, _) && block
                == tokens::block_of(place)),
    ensures
        tokens::after_pass(place, a + more, vars) == a + tokens::after_pass(place, more, vars),
    decreases a.len(),
{
    if a.len() == 0 {
        assert(a + more =~= more);
        assert(a + tokens::after_pass(place, more, vars) =~= tokens::after_pass(place, more, vars));
    } else {
        let all = a + more;
        assert(all[0] == a[0]);
        assert(all.drop_first() =~= a.drop_first() + more);
        lemma_kept(place, a.drop_first(), more, vars);
        assert(seq![a[0]] + (a.drop_first() + tokens::after_pass(place, more, vars)) =~= a
            + tokens::after_pass(place, more, vars));
    }
}

/// A block of one body comes to what is chosen.
proof fn lemma_block(
    place: Place,
    name: Seq<char>,
    a: Seq<Token>,
    more: Seq<Token>,
    vars: Map<Seq<char>, Seq<char>>,
)
    requires
        place == Place::Each || place == Place::Unless,
        is_text(a),
    ensures
        ({
            let block = tokens::block_of(place);
            let ts = seq![Token::Open(block, name)] + (a + seq![Token::Close(block)]);
            tokens::after_pass(place, ts + more, vars) == taken(place, name, a, vars)
                + tokens::after_pass(place, more, vars)
        }),
{
    let block = tokens::block_of(place);
    let end = Token::Close(block);
    let head = Token::Open(block, name);
    let ts = seq![head] + (a + seq![end]);
    let all = ts + more;
    let rest = a + (seq![end] + more);
    assert(all[0] == head);
    assert(all.drop_first() =~= rest);
    assert(!a.contains(end));
    lemma_find_behind(a, end, more);
    assert(rest.take(a.len() as int) =~= a);
    assert(rest.skip((a.len() + 1) as int) =~= more);
}

/// The tokens that a block of one body comes to.
spec fn taken(
    place: Place,
    name: Seq<char>,
    a: Seq<Token>,
    vars: Map<Seq<char>, Seq<char>>,
) -> Seq<Token> {
    let set = template::is_set(vars, name);
    if place == Place::Each {
        if set {
            tokens::looped(a, lines::lines_of(vars[name]))
        } else {
            Seq::empty()
        }
    } else {
        if set {
            Seq::empty()
        } else {
            a
        }
    }
}

/// In text, conditions neither end nor are divided.
proof fn lemma_text_marks(a: Seq<Token>, more: Seq<Token>, depth: nat)
    requires
        is_text(a),
    ensures
        template::end_at(tokens::marks(a + more), depth) == template::plus(
            template::end_at(tokens::marks(more), depth),
            a.len() as int,
        ),
        template::other_at(tokens::marks(a + more), depth) == template::plus(
            template::other_at(tokens::marks(more), depth),
            a.len() as int,
        ),
    decreases a.len(),
{
    let all = tokens::marks(a + more);
    if a.len() == 0 {
        assert(a + more =~= more);
    } else {
        let rest = a.drop_first();
        assert(is_text(rest)) by {
            assert forall|i: int| 0 <= i < rest.len() implies ((#[trigger] rest[i]) is Plain
                || rest[i] is Var) && rest[i] != other() && rest[i].wf() by {
                assert(rest[i] == a[i + 1]);
            }
        }
        lemma_text_marks(rest, more, depth);
        assert(a[0] is Plain || a[0] is Var);
        assert(all[0] == tokens::mark_of(a[0]));
        assert(all.drop_first() =~= tokens::marks(rest + more));
    }
}

/// Tokens that begin no condition stay.
proof fn lemma_settled_kept(a: Seq<Token>, more: Seq<Token>, vars: Map<Seq<char>, Seq<char>>)
    requires
        forall|i: int|
            0 <= i < a.len() ==> !((#[trigger] a[i]) matches Token::Open(block, _) && block
                == Block::If),
    ensures
        tokens::decided(a + more, vars) == a + tokens::decided(more, vars),
    decreases a.len(),
{
    if a.len() == 0 {
        assert(a + more =~= more);
        assert(a + tokens::decided(more, vars) =~= tokens::decided(more, vars));
    } else {
        let all = a + more;
        assert(all[0] == a[0]);
        assert(all.drop_first() =~= a.drop_first() + more);
        lemma_settled_kept(a.drop_first(), more, vars);
        assert(seq![a[0]] + (a.drop_first() + tokens::decided(more, vars)) =~= a + tokens::decided(
            more,
            vars,
        ));
    }
}

/// Text has no conditions to decide.
proof fn lemma_settled_text(a: Seq<Token>, vars: Map<Seq<char>, Seq<char>>)
    requires
        is_text(a),
    ensures
        tokens::decided(a, vars) == a,
{
    lemma_settled_kept(a, Seq::empty(), vars);
    assert(a + Seq::<Token>::empty() =~= a);
}

/// A condition without an alternative is decided.
proof fn lemma_one_way(
    name: Seq<char>,
    a: Seq<Token>,
    more: Seq<Token>,
    vars: Map<Seq<char>, Seq<char>>,
)
    requires
        is_text(a),
    ensures
        tokens::decided(Part::If(name, a).tokens() + more, vars) == (if template::is_set(
            vars,
            name,
        ) {
            a
        } else {
            Seq::empty()
        }) + tokens::decided(more, vars),
{
    let end = Token::Close(Block::If);
    let all = Part::If(name, a).tokens() + more;
    let later = seq![end] + more;
    let rest = a + later;
    assert(all[0] == Token::Open(Block::If, name));
    assert(all.drop_first() =~= rest);
    lemma_text_marks(a, later, 0);
    assert(tokens::marks(later)[0] == template::Mark::End);
    assert(rest.take(a.len() as int) =~= a);
    assert(rest.skip((a.len() + 1) as int) =~= more);
    lemma_text_marks(a, Seq::empty(), 0);
    assert(a + Seq::<Token>::empty() =~= a);
    assert(tokens::marks(Seq::<Token>::empty()).len() == 0);
    assert(template::other_at(tokens::marks(a), 0) is None);
    lemma_settled_text(a, vars);
    lemma_settled_text(Seq::empty(), vars);
}

/// A condition with an alternative is decided.
proof fn lemma_two_way(
    name: Seq<char>,
    a: Seq<Token>,
    b: Seq<Token>,
    more: Seq<Token>,
    vars: Map<Seq<char>, Seq<char>>,
)
    requires
        is_text(a),
        is_text(b),
    ensures
        tokens::decided(Part::IfElse(name, a, b).tokens() + more, vars) == (if template::is_set(
            vars,
            name,
        ) {
            a
        } else {
            b
        }) + tokens::decided(more, vars),
{
    let end = Token::Close(Block::If);
    let all = Part::IfElse(name, a, b).tokens() + more;
    let later = seq![end] + more;
    let second = seq![other()] + (b + later);
    let rest = a + second;
    let body = a + (seq![other()] + b);
    let n = (a.len() + 1 + b.len()) as int;
    assert(all[0] == Token::Open(Block::If, name));
    assert(all.drop_first() =~= rest);
    lemma_text_marks(a, second, 0);
    assert(tokens::marks(second)[0] == template::Mark::Other);
    assert(tokens::marks(second).drop_first() =~= tokens::marks(b + later));
    lemma_text_marks(b, later, 0);
    assert(tokens::marks(later)[0] == template::Mark::End);
    assert(rest.take(n) =~= body);
    assert(rest.skip(n + 1) =~= more);
    lemma_text_marks(a, seq![other()] + b, 0);
    assert(tokens::marks(seq![other()] + b)[0] == template::Mark::Other);
    assert(body.take(a.len() as int) =~= a);
    assert(body.skip((a.len() + 1) as int) =~= b);
    lemma_settled_text(a, vars);
    lemma_settled_text(b, vars);
}

/// The part after a pass.
spec fn stepped(place: Place, part: Part, vars: Map<Seq<char>, Seq<char>>) -> Part {
    match (place, part) {
        (Place::Each, Part::Each(name, a)) => Part::Text(taken(place, name, a, vars)),
        (Place::Unless, Part::Unless(name, a)) => Part::Text(taken(place, name, a, vars)),
        _ => part,
    }
}

/// The part with its condition decided.
spec fn decided_part(part: Part, vars: Map<Seq<char>, Seq<char>>) -> Part {
    match part {
        Part::If(name, a) => Part::Text(
            if template::is_set(vars, name) {
                a
            } else {
                Seq::empty()
            },
        ),
        Part::IfElse(name, a, b) => Part::Text(
            if template::is_set(vars, name) {
                a
            } else {
                b
            },
        ),
        _ => part,
    }
}

/// Parts after a pass.
spec fn all_stepped(
    place: Place,
    parts: Seq<Part>,
    vars: Map<Seq<char>, Seq<char>>,
) -> Seq<Part> {
    parts.map_values(|p: Part| stepped(place, p, vars))
}

/// A pass works on a part on its own.
proof fn lemma_part_pass(
    place: Place,
    part: Part,
    more: Seq<Token>,
    vars: Map<Seq<char>, Seq<char>>,
)
    requires
        place != Place::Variable,
        part.wf(),
    ensures
        tokens::after_pass(place, part.tokens() + more, vars) == stepped(
            place,
            part,
            vars,
        ).tokens() + tokens::after_pass(place, more, vars),
{
    match (place, part) {
        (Place::Each, Part::Each(name, a)) => lemma_block(place, name, a, more, vars),
        (Place::Unless, Part::Unless(name, a)) => lemma_block(place, name, a, more, vars),
        _ => {
            let ts = part.tokens();
            assert forall|i: int| 0 <= i < ts.len() implies !((#[trigger] ts[i]) matches Token::Open(
                block,
                _,
            ) && block == tokens::block_of(place)) by {
                lemma_tokens_of(part, i);
            }
            lemma_kept(place, ts, more, vars);
        },
    }
}

/// The block that a part is.
spec fn own_block(part: Part) -> Option<Block> {
    match part {
        Part::Text(_) => None,
        Part::If(_, _) => Some(Block::If),
        Part::IfElse(_, _, _) => Some(Block::If),
        Part::Unless(_, _) => Some(Block::Unless),
        Part::Each(_, _) => Some(Block::Each),
    }
}

/// The name in the head of a part.
spec fn own_name(part: Part) -> Seq<char> {
    match part {
        Part::Text(_) => Seq::empty(),
        Part::If(name, _) => name,
        Part::IfElse(name, _, _) => name,
        Part::Unless(name, _) => name,
        Part::Each(name, _) => name,
    }
}

/// What the tokens of a part are: well formed, of its own block, and `{{else}}`
/// only where it has an alternative.
proof fn lemma_tokens_of(part: Part, i: int)
    requires
        part.wf(),
        0 <= i < part.tokens().len(),
    ensures
        part.tokens()[i].wf(),
        part.tokens()[i] matches Token::Open(block, name) ==> own_block(part) == Some(block) && name
            == own_name(part),
        part.tokens()[i] == other() ==> part is IfElse,
{
    let t = part.tokens()[i];
    reveal_strlit("else");
    match part {
        Part::Text(a) => {},
        Part::IfElse(name, a, b) => {
            if 0 < i < 1 + a.len() {
                assert(t == a[i - 1]);
            } else if a.len() + 2 <= i < a.len() + 2 + b.len() {
                assert(t == b[i - a.len() - 2]);
            }
        },
        Part::If(_, a) => {
            if 0 < i < 1 + a.len() {
                assert(t == a[i - 1]);
            }
        },
        Part::Unless(_, a) => {
            if 0 < i < 1 + a.len() {
                assert(t == a[i - 1]);
            }
        },
        Part::Each(_, a) => {
            if 0 < i < 1 + a.len() {
                assert(t == a[i - 1]);
            }
        },
    }
}

/// What the tokens of parts are: each is one of a part.
proof fn lemma_all_tokens(parts: Seq<Part>, i: int) -> (k: int)
    requires
        0 <= i < all_tokens(parts).len(),
    ensures
        0 <= k < parts.len(),
        parts[k].tokens().contains(all_tokens(parts)[i]),
    decreases parts.len(),
{
    let first = parts[0].tokens();
    if i < first.len() {
        assert(all_tokens(parts)[i] == first[i]);
        assert(first.contains(first[i]));
        0
    } else {
        let rest = parts.drop_first();
        let k = lemma_all_tokens(rest, i - first.len());
        assert(all_tokens(parts)[i] == all_tokens(rest)[i - first.len()]);
        assert(rest[k] == parts[k + 1]);
        k + 1
    }
}

/// The rest of well-formed parts is well formed.
proof fn lemma_rest_wf(parts: Seq<Part>)
    requires
        parts.len() > 0,
        all_wf(parts),
    ensures
        all_wf(parts.drop_first()),
{
    let rest = parts.drop_first();
    assert forall|i: int| 0 <= i < rest.len() implies (#[trigger] rest[i]).wf() by {
        assert(rest[i] == parts[i + 1]);
    }
}

/// A pass works on each part on its own.
proof fn lemma_parts_pass(
    place: Place,
    parts: Seq<Part>,
    vars: Map<Seq<char>, Seq<char>>,
)
    requires
        place != Place::Variable,
        all_wf(parts),
    ensures
        tokens::after_pass(place, all_tokens(parts), vars) == all_tokens(
            all_stepped(place, parts, vars),
        ),
    decreases parts.len(),
{
    if parts.len() > 0 {
        let part = parts[0];
        let rest = parts.drop_first();
        lemma_rest_wf(parts);
        assert(part.wf());
        lemma_part_pass(place, part, all_tokens(rest), vars);
        lemma_parts_pass(place, rest, vars);
        let after = all_stepped(place, parts, vars);
        assert(after[0] == stepped(place, part, vars));
        assert(after.drop_first() =~= all_stepped(place, rest, vars));
    }
}

/// The conditions of parts are decided one after the other.
proof fn lemma_parts_decided(parts: Seq<Part>, vars: Map<Seq<char>, Seq<char>>)
    requires
        all_wf(parts),
    ensures
        tokens::decided(all_tokens(parts), vars) == all_tokens(
            parts.map_values(|p: Part| decided_part(p, vars)),
        ),
    decreases parts.len(),
{
    let after = parts.map_values(|p: Part| decided_part(p, vars));
    if parts.len() > 0 {
        let part = parts[0];
        let rest = parts.drop_first();
        let more = all_tokens(rest);
        lemma_rest_wf(parts);
        assert(part.wf());
        lemma_parts_decided(rest, vars);
        assert(after[0] == decided_part(part, vars));
        assert(after.drop_first() =~= rest.map_values(|p: Part| decided_part(p, vars)));
        match part {
            Part::If(name, a) => lemma_one_way(name, a, more, vars),
            Part::IfElse(name, a, b) => lemma_two_way(name, a, b, more, vars),
            _ => {
                let ts = part.tokens();
                assert forall|i: int| 0 <= i < ts.len() implies !((
                #[trigger] ts[i]) matches Token::Open(block, _) && block == Block::If) by {
                    lemma_tokens_of(part, i);
                }
                lemma_settled_kept(ts, more, vars);
            },
        }
    }
}

// ---------------------------------------------------------------------------
// What a template comes to
// ---------------------------------------------------------------------------

/// A loop over text is text.
proof fn lemma_looped_text(a: Seq<Token>, items: Seq<Seq<char>>)
    requires
        is_text(a),
        forall|k: int| 0 <= k < items.len() ==> tokens::plain(#[trigger] items[k]),
    ensures
        is_text(tokens::looped(a, items)),
    decreases items.len(),
{
    if items.len() > 0 {
        let front = items.drop_last();
        assert forall|k: int| 0 <= k < front.len() implies tokens::plain(#[trigger] front[k]) by {
            assert(front[k] == items[k]);
        }
        lemma_looped_text(a, front);
        let x = tokens::looped(a, front);
        let y = tokens::with_line(a, items.last());
        assert(tokens::plain(items[items.len() - 1]));
        let all = x + y;
        assert forall|i: int| 0 <= i < all.len() implies ((#[trigger] all[i]) is Plain
            || all[i] is Var) && all[i] != other() && all[i].wf() by {
            if i < x.len() {
                assert(all[i] == x[i]);
            } else {
                assert(all[i] == y[i - x.len()]);
                assert(a[i - x.len()].wf());
            }
        }
    }
}

/// A part is well formed after a pass.
proof fn lemma_stepped_wf(place: Place, part: Part, vars: Map<Seq<char>, Seq<char>>)
    requires
        part.wf(),
        part matches Part::Each(name, _) ==> (vars.contains_key(name) ==> tokens::plain(
            vars[name],
        )),
    ensures
        stepped(place, part, vars).wf(),
{
    if let Part::Each(name, a) = part {
        if place == Place::Each && template::is_set(vars, name) {
            let items = lines::lines_of(vars[name]);
            assert forall|k: int| 0 <= k < items.len() implies tokens::plain(
                #[trigger] items[k],
            ) by {
                tokens::lemma_lines_plain(vars[name], k);
            }
            lemma_looped_text(a, items);
        }
    }
}

/// Parts are well formed after a pass.
proof fn lemma_all_stepped_wf(
    place: Place,
    parts: Seq<Part>,
    vars: Map<Seq<char>, Seq<char>>,
)
    requires
        all_wf(parts),
        loops_are_plain(parts, vars),
    ensures
        all_wf(all_stepped(place, parts, vars)),
        loops_are_plain(all_stepped(place, parts, vars), vars),
{
    let after = all_stepped(place, parts, vars);
    assert forall|i: int| 0 <= i < after.len() implies (#[trigger] after[i]).wf() by {
        assert(after[i] == stepped(place, parts[i], vars));
        lemma_stepped_wf(place, parts[i], vars);
    }
    assert forall|i: int| 0 <= i < after.len() implies ((
    #[trigger] after[i]) matches Part::Each(name, _) ==> (vars.contains_key(name)
        ==> tokens::plain(vars[name]))) by {
        assert(after[i] is Each ==> after[i] == parts[i]);
    }
}

/// A body with a line in it has the values of the body with the line as `this`.
proof fn lemma_line_valued(
    a: Seq<Token>,
    line: Seq<char>,
    vars: Map<Seq<char>, Seq<char>>,
)
    ensures
        tokens::valued(tokens::with_line(a, line), vars) == tokens::valued(
            a,
            vars.insert("this"@, line),
        ),
    decreases a.len(),
{
    if a.len() > 0 {
        let b = tokens::with_line(a, line);
        lemma_line_valued(a.drop_first(), line, vars);
        assert(b.drop_first() =~= tokens::with_line(a.drop_first(), line));
        let this = "this"@;
        if let Token::Var(name) = a[0] {
            if name != this {
                assert(b[0] == a[0]);
                assert(vars.insert(this, line).contains_key(name) == vars.contains_key(name));
            }
        }
    }
}

/// The values of a loop.
proof fn lemma_loop_valued(
    a: Seq<Token>,
    items: Seq<Seq<char>>,
    vars: Map<Seq<char>, Seq<char>>,
)
    ensures
        tokens::valued(tokens::looped(a, items), vars) == each_line(a, items, vars),
    decreases items.len(),
{
    if items.len() > 0 {
        let line = items.last();
        lemma_loop_valued(a, items.drop_last(), vars);
        lemma_line_valued(a, line, vars);
        tokens::lemma_valued_concat(
            tokens::looped(a, items.drop_last()),
            tokens::with_line(a, line),
            vars,
        );
    }
}

/// The part after all passes.
spec fn settled(part: Part, vars: Map<Seq<char>, Seq<char>>) -> Part {
    decided_part(stepped(Place::Unless, stepped(Place::Each, part, vars), vars), vars)
}

/// A part comes to its meaning.
proof fn lemma_settled(part: Part, vars: Map<Seq<char>, Seq<char>>)
    ensures
        tokens::valued(settled(part, vars).tokens(), vars) == part.meaning(vars),
{
    if let Part::Each(name, a) = part {
        if template::is_set(vars, name) {
            lemma_loop_valued(a, lines::lines_of(vars[name]), vars);
        }
    }
}

/// Parts come to their meanings.
proof fn lemma_meanings(
    parts: Seq<Part>,
    after: Seq<Part>,
    vars: Map<Seq<char>, Seq<char>>,
)
    requires
        after.len() == parts.len(),
        forall|i: int|
            0 <= i < parts.len() ==> #[trigger] after[i] == settled(parts[i], vars),
    ensures
        tokens::valued(all_tokens(after), vars) == meanings(parts, vars),
    decreases parts.len(),
{
    if parts.len() > 0 {
        let rest = after.drop_first();
        assert forall|i: int| 0 <= i < rest.len() implies #[trigger] rest[i] == settled(
            parts.drop_first()[i],
            vars,
        ) by {
            assert(rest[i] == after[i + 1]);
        }
        lemma_meanings(parts.drop_first(), rest, vars);
        assert(after[0] == settled(parts[0], vars));
        lemma_settled(parts[0], vars);
        tokens::lemma_valued_concat(after[0].tokens(), all_tokens(rest), vars);
    }
}

/// The tokens of well-formed parts are well formed, and loop over plain lines
/// where the parts do.
proof fn lemma_tokens_wf(parts: Seq<Part>, vars: Map<Seq<char>, Seq<char>>)
    requires
        all_wf(parts),
        loops_are_plain(parts, vars),
    ensures
        tokens::all_wf(all_tokens(parts)),
        tokens::loops_are_plain(all_tokens(parts), vars),
{
    let ts = all_tokens(parts);
    assert forall|i: int| 0 <= i < ts.len() implies (#[trigger] ts[i]).wf() by {
        let k = lemma_all_tokens(parts, i);
        let own = parts[k].tokens();
        let j = choose|j: int| 0 <= j < own.len() && own[j] == ts[i];
        lemma_tokens_of(parts[k], j);
    }
    assert forall|i: int, name: Seq<char>|
        0 <= i < ts.len() && #[trigger] ts[i] == Token::Open(Block::Each, name) && #[trigger]
            vars.contains_key(name) implies tokens::plain(vars[name]) by {
        let k = lemma_all_tokens(parts, i);
        let own = parts[k].tokens();
        let j = choose|j: int| 0 <= j < own.len() && own[j] == ts[i];
        lemma_tokens_of(parts[k], j);
        assert(parts[k] is Each);
    }
}

/// A template that is made of text and blocks one after the other comes to what
/// its parts come to, one after the other.
pub proof fn parts_are_rendered(parts: Seq<Part>, vars: Map<Seq<char>, Seq<char>>)
    requires
        all_wf(parts),
        loops_are_plain(parts, vars),
    ensures
        template::rendered(tokens::text_of(all_tokens(parts)), vars) == meanings(parts, vars),
{
    lemma_tokens_wf(parts, vars);
    tokens::templates_are_rendered_by_token(all_tokens(parts), vars);
    let p1 = all_stepped(Place::Each, parts, vars);
    let p2 = all_stepped(Place::Unless, p1, vars);
    let p3 = p2.map_values(|p: Part| decided_part(p, vars));
    lemma_parts_pass(Place::Each, parts, vars);
    lemma_all_stepped_wf(Place::Each, parts, vars);
    lemma_parts_pass(Place::Unless, p1, vars);
    lemma_all_stepped_wf(Place::Unless, p1, vars);
    lemma_parts_decided(p2, vars);
    assert forall|i: int| 0 <= i < parts.len() implies #[trigger] p3[i] == settled(
        parts[i],
        vars,
    ) by {
        assert(p3[i] == decided_part(p2[i], vars));
        assert(p2[i] == stepped(Place::Unless, p1[i], vars));
        assert(p1[i] == stepped(Place::Each, parts[i], vars));
    }
    lemma_meanings(parts, p3, vars);
}

} // verus!
