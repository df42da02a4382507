//! Templates as sequences of tokens: text, variables, and the two ends of blocks.
//! The passes of the template engine work on the tokens.
use vstd::prelude::*;

use crate::conditions;
use crate::lines;
use crate::patterns;
use crate::patterns::{Class, Pattern};
use crate::template;
use crate::template::{Mark, Place};
use crate::text;

verus! {

/// The kinds of blocks.
pub enum Block {
    Each,
    Unless,
    If,
}

/// What a template is made of.
pub enum Token {
    /// Text without an opening brace.
    Plain(Seq<char>),
    /// `{{name}}`, and so also `{{this}}` and `{{else}}`.
    Var(Seq<char>),
    /// The head of a block.
    Open(Block, Seq<char>),
    /// The end of a block.
    Close(Block),
}

/// How a block begins.
pub open spec fn opener(block: Block) -> Seq<char> {
    match block {
        Block::Each => "{{#each"@,
        Block::Unless => "{{#unless"@,
        Block::If => "{{#if"@,
    }
}

/// How a block ends.
pub open spec fn closer(block: Block) -> Seq<char> {
    match block {
        Block::Each => "{{/each}}"@,
        Block::Unless => "{{/unless}}"@,
        Block::If => "{{/if}}"@,
    }
}

/// The text holds no opening brace.
pub open spec fn plain(s: Seq<char>) -> bool {
    forall|i: int| 0 <= i < s.len() ==> #[trigger] s[i] != '{'
}

/// A name of a variable, as it stands in the head of a block.
pub open spec fn block_name(name: Seq<char>) -> bool {
    &&& template::is_name(name)
    &&& forall|i: int| 0 <= i < name.len() ==> !text::white(#[trigger] name[i])
}

impl Token {
    /// The text of the token.
    pub open spec fn text(self) -> Seq<char> {
        match self {
            Token::Plain(s) => s,
            Token::Var(name) => template::place_of(name),
            Token::Open(block, name) => opener(block) + seq![' '] + name + seq!['}', '}'],
            Token::Close(block) => closer(block),
        }
    }

    /// The token is well formed.
    pub open spec fn wf(self) -> bool {
        match self {
            Token::Plain(s) => plain(s),
            Token::Var(name) => template::is_name(name),
            Token::Open(_, name) => block_name(name),
            Token::Close(_) => true,
        }
    }
}

/// The text of tokens.
pub open spec fn text_of(ts: Seq<Token>) -> Seq<char>
    decreases ts.len(),
{
    if ts.len() == 0 {
        Seq::empty()
    } else {
        ts[0].text() + text_of(ts.drop_first())
    }
}

/// All tokens are well formed.
pub open spec fn all_wf(ts: Seq<Token>) -> bool {
    forall|i: int| 0 <= i < ts.len() ==> (#[trigger] ts[i]).wf()
}

// ---------------------------------------------------------------------------
// Texts of tokens
// ---------------------------------------------------------------------------

/// The texts of tokens one after the other.
pub proof fn lemma_text_concat(a: Seq<Token>, b: Seq<Token>)
    ensures
        text_of(a + b) == text_of(a) + text_of(b),
    decreases a.len(),
{
    if a.len() == 0 {
        assert(a + b =~= b);
        assert(text_of(a) + text_of(b) =~= text_of(b));
    } else {
        assert((a + b).drop_first() =~= a.drop_first() + b);
        lemma_text_concat(a.drop_first(), b);
        assert(a[0].text() + (text_of(a.drop_first()) + text_of(b)) =~= text_of(a) + text_of(b));
    }
}

/// The text of one token.
pub proof fn lemma_text_one(t: Token)
    ensures
        text_of(seq![t]) == t.text(),
{
    assert(seq![t].drop_first() =~= Seq::<Token>::empty());
    assert(t.text() + text_of(Seq::<Token>::empty()) =~= t.text());
}

/// The tokens up to a position and those behind it make up the text.
proof fn lemma_text_split(ts: Seq<Token>, j: int)
    requires
        0 <= j <= ts.len(),
    ensures
        text_of(ts) == text_of(ts.take(j)) + text_of(ts.skip(j)),
{
    lemma_text_concat(ts.take(j), ts.skip(j));
    assert(ts.take(j) + ts.skip(j) =~= ts);
}

/// What stands third in a token that is no plain text.
spec fn mark(t: Token) -> char {
    match t {
        Token::Plain(_) => ' ',
        Token::Var(name) => name[0],
        Token::Open(_, _) => '#',
        Token::Close(_) => '/',
    }
}

/// A token that is no plain text begins with two braces and holds no others.
proof fn lemma_braces(t: Token)
    requires
        t.wf(),
        !(t is Plain),
    ensures
        t.text().len() >= 5,
        t.text()[0] == '{',
        t.text()[1] == '{',
        t.text()[2] == mark(t),
        forall|p: int| 2 <= p < t.text().len() ==> #[trigger] t.text()[p] != '{',
{
    reveal_strlit("{{#each");
    reveal_strlit("{{#unless");
    reveal_strlit("{{#if");
    reveal_strlit("{{/each}}");
    reveal_strlit("{{/unless}}");
    reveal_strlit("{{/if}}");
    assert(!patterns::word('{'));
    match t {
        Token::Var(name) => {
            assert forall|p: int| 2 <= p < t.text().len() implies #[trigger] t.text()[p] != '{' by {
                if p < 2 + name.len() {
                    assert(t.text()[p] == name[p - 2]);
                }
            }
        },
        Token::Open(block, name) => {
            let n = opener(block).len();
            assert forall|p: int| 2 <= p < t.text().len() implies #[trigger] t.text()[p] != '{' by {
                if p < n {
                    assert(t.text()[p] == opener(block)[p]);
                } else if n < p < n + 1 + name.len() {
                    assert(t.text()[p] == name[p - n - 1]);
                }
            }
        },
        _ => {},
    }
}

/// What begins with two braces does not begin inside a token.
proof fn lemma_inside(t: Token, rest: Seq<char>, lit: Seq<char>, p: int)
    requires
        t.wf(),
        lit.len() >= 2,
        lit[0] == '{' && lit[1] == '{',
        0 <= p < t.text().len(),
        p > 0 || t is Plain,
    ensures
        !text::occurs_at(t.text() + rest, lit, p),
{
    let s = t.text() + rest;
    if text::occurs_at(s, lit, p) {
        let part = s.subrange(p, p + lit.len());
        assert(part[0] == s[p] && part[1] == s[p + 1]);
        assert(s[p] == t.text()[p]);
        if !(t is Plain) {
            lemma_braces(t);
            assert(p == 1);
            assert(s[2] == t.text()[2]);
        }
    }
}

/// The token does not begin like this one.
proof fn lemma_differs(u: Token, t: Token, rest: Seq<char>)
    requires
        u.wf(),
        t.wf(),
        u != t,
        t is Close || t is Var,
        u.text().len() > 0,
    ensures
        !text::occurs_at(u.text() + rest, t.text(), 0),
{
    let s = u.text() + rest;
    let lit = t.text();
    lemma_braces(t);
    if u is Plain {
        lemma_inside(u, rest, lit, 0);
    } else if text::occurs_at(s, lit, 0) {
        lemma_braces(u);
        assert(s.subrange(0, lit.len() as int) == lit);
        assert forall|i: int| 0 <= i < lit.len() implies s[i] == #[trigger] lit[i] by {
            assert(s.subrange(0, lit.len() as int)[i] == s[i]);
        }
        assert(s[2] == u.text()[2] && s[2] == lit[2]);
        assert(!patterns::word('#') && !patterns::word('/') && !patterns::word('}'));
        match (u, t) {
            (Token::Var(n), Token::Var(m)) => {
                lemma_names_differ(n, m, rest);
            },
            (Token::Close(b), Token::Close(c)) => {
                reveal_strlit("{{/each}}");
                reveal_strlit("{{/unless}}");
                reveal_strlit("{{/if}}");
                assert(s[3] == u.text()[3] && s[3] == lit[3]);
            },
            (Token::Var(n), _) => {
                assert(patterns::word(n[0]));
            },
            (_, Token::Var(m)) => {
                assert(patterns::word(m[0]));
            },
            _ => {},
        }
    }
}

/// The place of one variable does not begin like that of another.
proof fn lemma_names_differ(n: Seq<char>, m: Seq<char>, rest: Seq<char>)
    requires
        template::is_name(n),
        template::is_name(m),
        n != m,
    ensures
        !text::occurs_at(template::place_of(n) + rest, template::place_of(m), 0),
{
    let s = template::place_of(n) + rest;
    let lit = template::place_of(m);
    if text::occurs_at(s, lit, 0) {
        let part = s.subrange(0, lit.len() as int);
        assert(!patterns::word('}'));
        if n.len() < m.len() {
            let i = 2 + n.len();
            assert(part[i as int] == s[i as int]);
            assert(s[i as int] == '}');
            assert(lit[i as int] == m[n.len() as int]);
        } else if n.len() > m.len() {
            let i = 2 + m.len();
            assert(part[i as int] == s[i as int]);
            assert(lit[i as int] == '}');
            assert(s[i as int] == n[m.len() as int]);
        } else {
            assert forall|i: int| 0 <= i < n.len() implies n[i] == m[i] by {
                assert(part[i + 2] == s[i + 2]);
                assert(s[i + 2] == n[i]);
                assert(lit[i + 2] == m[i]);
            }
            assert(n =~= m);
        }
    }
}

// ---------------------------------------------------------------------------
// Looking for a token
// ---------------------------------------------------------------------------

/// The first position of a token.
pub open spec fn find(ts: Seq<Token>, t: Token) -> Option<int>
    decreases ts.len(),
{
    if ts.len() == 0 {
        None
    } else if ts[0] == t {
        Some(0)
    } else {
        match find(ts.drop_first(), t) {
            Some(j) => Some(j + 1),
            None => None,
        }
    }
}

/// A token that is found stands there.
pub proof fn lemma_found(ts: Seq<Token>, t: Token)
    ensures
        match find(ts, t) {
            Some(j) => 0 <= j < ts.len() && ts[j] == t && !ts.take(j).contains(t),
            None => !ts.contains(t),
        },
    decreases ts.len(),
{
    if ts.len() > 0 {
        if ts[0] != t {
            let rest = ts.drop_first();
            lemma_found(rest, t);
            match find(rest, t) {
                Some(j) => {
                    assert(rest[j] == ts[j + 1]);
                    assert forall|i: int| 0 <= i < j + 1 implies #[trigger] ts.take(j + 1)[i]
                        != t by {
                        if i > 0 {
                            assert(rest.take(j)[i - 1] == ts[i]);
                        }
                    }
                },
                None => {
                    assert forall|i: int| 0 <= i < ts.len() implies #[trigger] ts[i] != t by {
                        if i > 0 {
                            assert(rest[i - 1] == ts[i]);
                        }
                    }
                },
            }
        } else {
            assert(ts.take(0).len() == 0);
        }
    }
}

/// A token is found where its text is found.
proof fn lemma_find(ts: Seq<Token>, t: Token)
    requires
        all_wf(ts),
        t.wf(),
        t is Close || t is Var,
    ensures
        text::first_at(text_of(ts), t.text(), 0) == (match find(ts, t) {
            Some(j) => Some(text_of(ts.take(j)).len() as int),
            None => None::<int>,
        }),
    decreases ts.len(),
{
    let s = text_of(ts);
    let lit = t.text();
    lemma_braces(t);
    if ts.len() > 0 {
        let u = ts[0];
        let w = u.text();
        let rest = ts.drop_first();
        let r = text_of(rest);
        assert(u.wf());
        assert(all_wf(rest)) by {
            assert forall|i: int| 0 <= i < rest.len() implies (#[trigger] rest[i]).wf() by {
                assert(rest[i] == ts[i + 1]);
            }
        }
        if u == t {
            assert(s.subrange(0, lit.len() as int) =~= lit);
            assert(ts.take(0) =~= Seq::<Token>::empty());
        } else {
            assert forall|p: int| 0 <= p < w.len() implies !#[trigger] text::occurs_at(s, lit, p) by {
                if p == 0 {
                    lemma_differs(u, t, r);
                } else {
                    lemma_inside(u, r, lit, p);
                }
            }
            lemma_first_later(s, lit, 0, w.len() as int);
            template::lemma_first_shifted(w, r, lit, 0);
            lemma_find(rest, t);
            lemma_found(rest, t);
            match find(rest, t) {
                Some(j) => {
                    assert(ts.take(j + 1)[0] == u);
                    assert(ts.take(j + 1).drop_first() =~= rest.take(j));
                },
                None => {},
            }
        }
    }
}

/// What does not stand between two positions is looked for from the second on.
proof fn lemma_first_later(s: Seq<char>, p: Seq<char>, i: int, k: int)
    requires
        0 <= i <= k,
        forall|j: int| i <= j < k ==> !#[trigger] text::occurs_at(s, p, j),
    ensures
        text::first_at(s, p, i) == text::first_at(s, p, k),
    decreases k - i,
{
    if i < k {
        assert(!text::occurs_at(s, p, i));
        lemma_first_later(s, p, i + 1, k);
    }
}

// ---------------------------------------------------------------------------
// Passes over tokens
// ---------------------------------------------------------------------------

/// The block that a pass looks for.
pub open spec fn block_of(place: Place) -> Block {
    match place {
        Place::Each => Block::Each,
        _ => Block::Unless,
    }
}

/// A body with a line in place of `{{this}}`.
pub open spec fn with_line(body: Seq<Token>, line: Seq<char>) -> Seq<Token> {
    body.map_values(
        |t: Token|
            if t == Token::Var("this"@) {
                Token::Plain(line)
            } else {
                t
            },
    )
}

/// A body once for each line.
pub open spec fn looped(body: Seq<Token>, items: Seq<Seq<char>>) -> Seq<Token>
    decreases items.len(),
{
    if items.len() == 0 {
        Seq::empty()
    } else {
        looped(body, items.drop_last()) + with_line(body, items.last())
    }
}

/// What a block comes to, and the number of tokens behind its head that it takes
/// up; nothing where it does not end.
pub open spec fn chosen(
    place: Place,
    name: Seq<char>,
    rest: Seq<Token>,
    vars: Map<Seq<char>, Seq<char>>,
) -> Option<(Seq<Token>, int)> {
    let set = template::is_set(vars, name);
    match find(rest, Token::Close(block_of(place))) {
        Some(j) => Some(
            (
                if place == Place::Each {
                    if set {
                        looped(rest.take(j), lines::lines_of(vars[name]))
                    } else {
                        Seq::empty()
                    }
                } else {
                    if set {
                        Seq::empty()
                    } else {
                        rest.take(j)
                    }
                },
                j + 1,
            ),
        ),
        None => None,
    }
}

/// Tokens after a pass over blocks of one kind: each block that ends is what it
/// comes to, everything else stays.
pub open spec fn after_pass(
    place: Place,
    ts: Seq<Token>,
    vars: Map<Seq<char>, Seq<char>>,
) -> Seq<Token>
    decreases ts.len(),
{
    if ts.len() == 0 {
        Seq::empty()
    } else {
        let rest = ts.drop_first();
        match ts[0] {
            Token::Open(block, name) => if block == block_of(place) {
                match chosen(place, name, rest, vars) {
                    Some((c, n)) => if 0 <= n <= rest.len() {
                        c + after_pass(place, rest.skip(n), vars)
                    } else {
                        seq![ts[0]] + after_pass(place, rest, vars)
                    },
                    None => seq![ts[0]] + after_pass(place, rest, vars),
                }
            } else {
                seq![ts[0]] + after_pass(place, rest, vars)
            },
            _ => seq![ts[0]] + after_pass(place, rest, vars),
        }
    }
}

/// The lines that the loops run over hold no opening brace.
pub open spec fn loops_are_plain(ts: Seq<Token>, vars: Map<Seq<char>, Seq<char>>) -> bool {
    forall|i: int, name: Seq<char>|
        0 <= i < ts.len() && #[trigger] ts[i] == Token::Open(Block::Each, name) && #[trigger]
            vars.contains_key(name) ==> plain(vars[name])
}

/// The lines of a plain text are plain.
pub proof fn lemma_lines_plain(s: Seq<char>, k: int)
    requires
        plain(s),
        0 <= k < lines::lines_of(s).len(),
    ensures
        plain(lines::lines_of(s)[k]),
    decreases s.len(),
{
    if s.len() > 0 {
        let i = lines::index_of(s, '\n', 0);
        if 0 <= i < s.len() {
            let rest = s.subrange(i + 1, s.len() as int);
            if k > 0 {
                lemma_lines_plain(rest, k - 1);
            }
        }
    }
}

// ---------------------------------------------------------------------------
// Bodies of loops
// ---------------------------------------------------------------------------

/// `{{this}}` is the place of a variable.
proof fn lemma_this()
    ensures
        Token::Var("this"@).wf(),
        Token::Var("this"@).text() == "{{this}}"@,
        Token::Var("else"@).wf(),
        Token::Var("else"@).text() == "{{else}}"@,
{
    reveal_strlit("this");
    reveal_strlit("{{this}}");
    reveal_strlit("else");
    reveal_strlit("{{else}}");
    assert(template::place_of("this"@) =~= "{{this}}"@);
    assert(template::place_of("else"@) =~= "{{else}}"@);
}

/// A line takes the place of `{{this}}` in the text of a body.
proof fn lemma_with_line(body: Seq<Token>, line: Seq<char>)
    requires
        all_wf(body),
    ensures
        text::replaced(text_of(body), "{{this}}"@, line) == text_of(with_line(body, line)),
    decreases body.len(),
{
    let this = Token::Var("this"@);
    let s = text_of(body);
    let p = "{{this}}"@;
    lemma_this();
    lemma_braces(this);
    lemma_find(body, this);
    lemma_found(body, this);
    match find(body, this) {
        Some(j) => {
            let front = body.take(j);
            let rest = body.skip(j + 1);
            lemma_text_split(body, j);
            assert(body.skip(j)[0] == this);
            assert(body.skip(j).drop_first() =~= rest);
            let i = text_of(front).len() as int;
            assert(s.subrange(0, i) =~= text_of(front));
            assert(s.subrange(i + p.len(), s.len() as int) =~= text_of(rest));
            assert forall|k: int| 0 <= k < rest.len() implies (#[trigger] rest[k]).wf() by {
                assert(rest[k] == body[j + 1 + k]);
            }
            lemma_with_line(rest, line);
            let lined = with_line(body, line);
            assert forall|k: int| 0 <= k < front.len() implies #[trigger] front[k] != this by {
                assert(front.contains(front[k]));
            }
            assert(lined =~= front + (seq![Token::Plain(line)] + with_line(rest, line)));
            lemma_text_concat(front, seq![Token::Plain(line)] + with_line(rest, line));
            lemma_text_concat(seq![Token::Plain(line)], with_line(rest, line));
            lemma_text_one(Token::Plain(line));
            assert(text_of(front) + (line + text_of(with_line(rest, line))) =~= text_of(front)
                + line + text_of(with_line(rest, line)));
        },
        None => {
            assert forall|k: int| 0 <= k < body.len() implies #[trigger] body[k] != this by {
                assert(body.contains(body[k]));
            }
            assert(with_line(body, line) =~= body);
        },
    }
}

/// The text of a loop.
proof fn lemma_looped(body: Seq<Token>, items: Seq<Seq<char>>)
    requires
        all_wf(body),
    ensures
        template::repeated(text_of(body), items) == text_of(looped(body, items)),
    decreases items.len(),
{
    if items.len() > 0 {
        lemma_looped(body, items.drop_last());
        lemma_with_line(body, items.last());
        lemma_text_concat(looped(body, items.drop_last()), with_line(body, items.last()));
    }
}

/// A loop over plain lines is made of well-formed tokens, and of those of its body
/// where they begin or end a block.
proof fn lemma_looped_wf(body: Seq<Token>, items: Seq<Seq<char>>)
    requires
        all_wf(body),
        forall|k: int| 0 <= k < items.len() ==> plain(#[trigger] items[k]),
    ensures
        all_wf(looped(body, items)),
    decreases items.len(),
{
    if items.len() > 0 {
        let front = items.drop_last();
        assert forall|k: int| 0 <= k < front.len() implies plain(#[trigger] front[k]) by {
            assert(front[k] == items[k]);
        }
        lemma_looped_wf(body, front);
        let last = with_line(body, items.last());
        assert(plain(items[items.len() - 1]));
        assert forall|i: int| 0 <= i < last.len() implies (#[trigger] last[i]).wf() by {
            assert(body[i].wf());
        }
        lemma_wf_concat(looped(body, front), last);
    }
}

/// Well-formed tokens one after the other.
pub proof fn lemma_wf_concat(a: Seq<Token>, b: Seq<Token>)
    requires
        all_wf(a),
        all_wf(b),
    ensures
        all_wf(a + b),
{
    assert forall|i: int| 0 <= i < (a + b).len() implies (#[trigger] (a + b)[i]).wf() by {
        if i < a.len() {
            assert((a + b)[i] == a[i]);
        } else {
            assert((a + b)[i] == b[i - a.len()]);
        }
    }
}

/// A part of well-formed tokens is well formed.
pub proof fn lemma_wf_part(ts: Seq<Token>, i: int, j: int)
    requires
        all_wf(ts),
        0 <= i <= j <= ts.len(),
    ensures
        all_wf(ts.subrange(i, j)),
{
    assert forall|k: int| 0 <= k < j - i implies (#[trigger] ts.subrange(i, j)[k]).wf() by {
        assert(ts.subrange(i, j)[k] == ts[i + k]);
    }
}

// ---------------------------------------------------------------------------
// Blocks
// ---------------------------------------------------------------------------

/// The head of a block is read.
proof fn lemma_head(block: Block, name: Seq<char>, r: Seq<char>)
    requires
        block_name(name),
    ensures
        ({
            let w = Token::Open(block, name).text();
            let x = opener(block).len();
            let c = x + 1 + name.len();
            &&& patterns::head_at(w + r, 0, opener(block)) == Some(((x + 1) as int, c as int))
            &&& (w + r).subrange((x + 1) as int, c as int) == name
            &&& w.len() == c + 2
        }),
{
    let s = Token::Open(block, name).text() + r;
    let x = opener(block).len() as int;
    let c = x + 1 + name.len();
    reveal_strlit("}}");
    assert(s.subrange(0, x) =~= opener(block));
    assert(s[x] == ' ');
    assert forall|k: int| x + 1 <= k < c implies s[k] == name[k - x - 1] by {}
    assert(s[c] == '}' && s[c + 1] == '}');
    assert(!text::white(s[x + 1])) by {
        assert(s[x + 1] == name[0]);
    }
    patterns::lemma_run_end(s, x, x + 1, Class::White);
    assert forall|k: int| x + 1 <= k < c implies Class::Word.holds(#[trigger] s[k]) by {
        assert(patterns::word(name[k - x - 1]));
    }
    patterns::lemma_run_end(s, x + 1, c, Class::Word);
    assert(s.subrange(c, c + 2) =~= "}}"@);
    assert(s.subrange(x + 1, c) =~= name);
}

/// A block that ends is found, and is filled with the text of what it comes to.
spec fn block_matches(
    place: Place,
    name: Seq<char>,
    rest: Seq<Token>,
    vars: Map<Seq<char>, Seq<char>>,
) -> bool {
    let w = Token::Open(block_of(place), name).text();
    let s = w + text_of(rest);
    match chosen(place, name, rest, vars) {
        Some((c, n)) => {
            &&& 0 < n <= rest.len()
            &&& place.pattern().at(s, 0) matches Some(f)
            &&& f.end == w.len() + text_of(rest.take(n)).len()
            &&& template::fill(place, seq![Some(s.subrange(0, f.end))] + f.groups, vars)
                == text_of(c)
        },
        None => place.pattern().at(s, 0) is None,
    }
}

/// A block is found.
proof fn lemma_block(
    place: Place,
    name: Seq<char>,
    rest: Seq<Token>,
    vars: Map<Seq<char>, Seq<char>>,
)
    requires
        place != Place::Variable,
        block_name(name),
        all_wf(rest),
    ensures
        block_matches(place, name, rest, vars),
{
    let block = block_of(place);
    let end = Token::Close(block);
    let w = Token::Open(block, name).text();
    let r = text_of(rest);
    let s = w + r;
    lemma_head(block, name, r);
    lemma_find(rest, end);
    lemma_found(rest, end);
    template::lemma_first_shifted(w, r, end.text(), 0);
    assert(place.pattern().at(s, 0) == patterns::block_at(s, 0, opener(block), closer(block))) by {
        reveal(Pattern::at);
    }
    match find(rest, end) {
        Some(j) => {
            let body = rest.take(j);
            let i = text_of(body).len() as int;
            lemma_text_split(rest, j);
            assert(s.subrange(w.len() as int, w.len() + i) =~= text_of(body));
            assert(rest.take(j + 1) =~= body + seq![end]);
            lemma_text_concat(body, seq![end]);
            lemma_text_one(end);
            let e = w.len() + i + end.text().len();
            let groups = seq![Some(name), Some(text_of(body))];
            let all = seq![Some(s.subrange(0, e))] + groups;
            assert(all[1] == Some(name) && all[2] == Some(text_of(body)));
            assert(text_of(Seq::<Token>::empty()) =~= Seq::<char>::empty());
            lemma_wf_part(rest, 0, j);
            assert(rest.subrange(0, j) =~= body);
            if place == Place::Each && template::is_set(vars, name) {
                lemma_looped(body, lines::lines_of(vars[name]));
            }
        },
        None => {},
    }
}

// ---------------------------------------------------------------------------
// Passes over the text of tokens
// ---------------------------------------------------------------------------

/// Where nothing is found, a pass keeps the text.
proof fn lemma_kept(
    place: Place,
    s: Seq<char>,
    i: int,
    k: int,
    vars: Map<Seq<char>, Seq<char>>,
)
    requires
        0 <= i <= k <= s.len(),
        forall|p: int| i <= p < k ==> (#[trigger] place.pattern().at(s, p)) is None,
    ensures
        template::passed(place, s, i, vars) == s.subrange(i, k) + template::passed(
            place,
            s,
            k,
            vars,
        ),
    decreases k - i,
{
    if i < k {
        assert(place.pattern().at(s, i) is None);
        lemma_kept(place, s, i + 1, k, vars);
        assert(seq![s[i]] + (s.subrange(i + 1, k) + template::passed(place, s, k, vars))
            =~= s.subrange(i, k) + template::passed(place, s, k, vars));
    } else {
        assert(s.subrange(i, k) + template::passed(place, s, k, vars) =~= template::passed(
            place,
            s,
            k,
            vars,
        ));
    }
}

/// A block is found only where it begins.
proof fn lemma_begins(place: Place, s: Seq<char>, p: int)
    requires
        place != Place::Variable,
        place.pattern().at(s, p) is Some,
    ensures
        text::occurs_at(s, opener(block_of(place)), p),
{
    reveal(Pattern::at);
}

/// A pass over blocks finds nothing in a token that does not begin one of them.
proof fn lemma_other_token(place: Place, t: Token, r: Seq<char>, p: int)
    requires
        place != Place::Variable,
        t.wf(),
        0 <= p < t.text().len(),
        p == 0 ==> !(t matches Token::Open(block, _) && block == block_of(place)),
    ensures
        place.pattern().at(t.text() + r, p) is None,
{
    let s = t.text() + r;
    let lit = opener(block_of(place));
    reveal_strlit("{{#each");
    reveal_strlit("{{#unless");
    reveal_strlit("{{#if");
    if place.pattern().at(s, p) is Some {
        lemma_begins(place, s, p);
        if p > 0 || t is Plain {
            lemma_inside(t, r, lit, p);
        } else {
            lemma_braces(t);
            let part = s.subrange(0, lit.len() as int);
            assert(part[2] == s[2] && part[3] == s[3]);
            assert(s[2] == t.text()[2] && s[3] == t.text()[3]);
            assert(!patterns::word('#'));
            match t {
                Token::Open(block, name) => {
                    assert(t.text()[3] == opener(block)[3]);
                },
                Token::Var(name) => {
                    assert(patterns::word(name[0]));
                },
                _ => {},
            }
        }
    }
}

/// A pass over the text of tokens is the pass over the tokens.
pub proof fn lemma_pass_on_tokens(
    place: Place,
    ts: Seq<Token>,
    vars: Map<Seq<char>, Seq<char>>,
)
    requires
        place != Place::Variable,
        all_wf(ts),
    ensures
        template::pass(place, text_of(ts), vars) == text_of(after_pass(place, ts, vars)),
    decreases ts.len(),
{
    let s = text_of(ts);
    template::lemma_pass_is(place, s, vars);
    if ts.len() > 0 {
        let t = ts[0];
        let w = t.text();
        let rest = ts.drop_first();
        let r = text_of(rest);
        assert(t.wf());
        lemma_wf_part(ts, 1, ts.len() as int);
        assert(ts.subrange(1, ts.len() as int) =~= rest);
        assert forall|p: int| 0 < p < w.len() implies (#[trigger] place.pattern().at(s, p)) is None by {
            lemma_other_token(place, t, r, p);
        }
        let begins = t matches Token::Open(block, _) && block == block_of(place);
        if begins && chosen(place, t->Open_1, rest, vars) is Some {
            let name = t->Open_1;
            lemma_block(place, name, rest, vars);
            let (c, n) = chosen(place, name, rest, vars).unwrap();
            let f = place.pattern().at(s, 0).unwrap();
            let more = rest.skip(n);
            lemma_text_split(rest, n);
            let front = w + text_of(rest.take(n));
            assert(front + text_of(more) =~= s);
            lemma_braces(t);
            template::lemma_passed_behind(place, front, text_of(more), 0, vars);
            lemma_wf_part(rest, n, rest.len() as int);
            assert(rest.subrange(n, rest.len() as int) =~= more);
            lemma_pass_on_tokens(place, more, vars);
            template::lemma_pass_is(place, text_of(more), vars);
            lemma_text_concat(c, after_pass(place, more, vars));
        } else {
            assert forall|p: int| 0 <= p < w.len() implies (#[trigger] place.pattern().at(
                s,
                p,
            )) is None by {
                if p == 0 {
                    if begins {
                        lemma_block(place, t->Open_1, rest, vars);
                    } else {
                        lemma_other_token(place, t, r, 0);
                    }
                }
            }
            lemma_kept(place, s, 0, w.len() as int, vars);
            assert(s.subrange(0, w.len() as int) =~= w);
            template::lemma_passed_behind(place, w, r, 0, vars);
            lemma_pass_on_tokens(place, rest, vars);
            template::lemma_pass_is(place, r, vars);
            lemma_text_concat(seq![t], after_pass(place, rest, vars));
            lemma_text_one(t);
        }
    } else {
        assert(template::passed(place, s, 0, vars) =~= Seq::<char>::empty());
    }
}

/// What a block comes to is well formed.
proof fn lemma_chosen_wf(
    place: Place,
    name: Seq<char>,
    rest: Seq<Token>,
    vars: Map<Seq<char>, Seq<char>>,
)
    requires
        all_wf(rest),
        place == Place::Each && vars.contains_key(name) ==> plain(vars[name]),
    ensures
        match chosen(place, name, rest, vars) {
            Some((c, n)) => all_wf(c) && 0 < n <= rest.len(),
            None => true,
        },
{
    let end = Token::Close(block_of(place));
    lemma_found(rest, end);
    match find(rest, end) {
        Some(j) => {
            lemma_wf_part(rest, 0, j);
            assert(rest.subrange(0, j) =~= rest.take(j));
            if place == Place::Each && template::is_set(vars, name) {
                let items = lines::lines_of(vars[name]);
                assert forall|k: int| 0 <= k < items.len() implies plain(#[trigger] items[k]) by {
                    lemma_lines_plain(vars[name], k);
                }
                lemma_looped_wf(rest.take(j), items);
            }
        },
        None => {},
    }
}

/// The tokens behind a position loop over plain lines where all do.
proof fn lemma_loops_part(ts: Seq<Token>, vars: Map<Seq<char>, Seq<char>>, i: int)
    requires
        loops_are_plain(ts, vars),
        0 <= i <= ts.len(),
    ensures
        loops_are_plain(ts.skip(i), vars),
{
    let rest = ts.skip(i);
    assert forall|k: int, name: Seq<char>|
        0 <= k < rest.len() && #[trigger] rest[k] == Token::Open(Block::Each, name) && #[trigger]
            vars.contains_key(name) implies plain(vars[name]) by {
        assert(ts[i + k] == rest[k]);
    }
}

/// Tokens are well formed after a pass.
proof fn lemma_pass_wf(place: Place, ts: Seq<Token>, vars: Map<Seq<char>, Seq<char>>)
    requires
        all_wf(ts),
        place == Place::Each ==> loops_are_plain(ts, vars),
    ensures
        all_wf(after_pass(place, ts, vars)),
    decreases ts.len(),
{
    if ts.len() > 0 {
        let t = ts[0];
        let rest = ts.drop_first();
        assert(t.wf());
        lemma_wf_part(ts, 1, ts.len() as int);
        assert(ts.subrange(1, ts.len() as int) =~= rest);
        assert(rest =~= ts.skip(1));
        if place == Place::Each {
            lemma_loops_part(ts, vars, 1);
        }
        lemma_pass_wf(place, rest, vars);
        assert(all_wf(seq![t]));
        lemma_wf_concat(seq![t], after_pass(place, rest, vars));
        if let Token::Open(block, name) = t {
            if block == block_of(place) {
                lemma_chosen_wf(place, name, rest, vars);
                if let Some((c, n)) = chosen(place, name, rest, vars) {
                    lemma_wf_part(rest, n, rest.len() as int);
                    assert(rest.subrange(n, rest.len() as int) =~= rest.skip(n));
                    if place == Place::Each {
                        lemma_loops_part(rest, vars, n);
                    }
                    lemma_pass_wf(place, rest.skip(n), vars);
                    lemma_wf_concat(c, after_pass(place, rest.skip(n), vars));
                }
            }
        }
    }
}

// ---------------------------------------------------------------------------
// Variables
// ---------------------------------------------------------------------------

/// The text of tokens with the values of the variables in it.
pub open spec fn valued(ts: Seq<Token>, vars: Map<Seq<char>, Seq<char>>) -> Seq<char>
    decreases ts.len(),
{
    if ts.len() == 0 {
        Seq::empty()
    } else {
        (match ts[0] {
            Token::Var(name) => template::value_of(vars, name),
            t => t.text(),
        }) + valued(ts.drop_first(), vars)
    }
}

/// The values of tokens one after the other.
pub proof fn lemma_valued_concat(
    a: Seq<Token>,
    b: Seq<Token>,
    vars: Map<Seq<char>, Seq<char>>,
)
    ensures
        valued(a + b, vars) == valued(a, vars) + valued(b, vars),
    decreases a.len(),
{
    if a.len() == 0 {
        assert(a + b =~= b);
        assert(valued(a, vars) + valued(b, vars) =~= valued(b, vars));
    } else {
        assert((a + b).drop_first() =~= a.drop_first() + b);
        lemma_valued_concat(a.drop_first(), b, vars);
        let first = match a[0] {
            Token::Var(name) => template::value_of(vars, name),
            t => t.text(),
        };
        assert(first + (valued(a.drop_first(), vars) + valued(b, vars)) =~= valued(a, vars)
            + valued(b, vars));
    }
}

/// The pass over the variables finds nothing in a token that is none.
proof fn lemma_no_variable(t: Token, r: Seq<char>, p: int)
    requires
        t.wf(),
        0 <= p < t.text().len(),
        p == 0 ==> !(t is Var),
    ensures
        Pattern::Variable.at(t.text() + r, p) is None,
{
    reveal(Pattern::at);
    let s = t.text() + r;
    let open = seq!['{', '{'];
    if p > 0 || t is Plain {
        lemma_inside(t, r, open, p);
    } else {
        lemma_braces(t);
        assert(s[2] == t.text()[2]);
        assert(!patterns::word('#') && !patterns::word('/'));
        patterns::lemma_run_end(s, 2, 2, Class::Word);
    }
}

/// The pass over the variables puts their values in.
proof fn lemma_variables(ts: Seq<Token>, vars: Map<Seq<char>, Seq<char>>)
    requires
        all_wf(ts),
    ensures
        template::pass(Place::Variable, text_of(ts), vars) == valued(ts, vars),
    decreases ts.len(),
{
    let place = Place::Variable;
    let s = text_of(ts);
    template::lemma_pass_is(place, s, vars);
    if ts.len() > 0 {
        let t = ts[0];
        let w = t.text();
        let rest = ts.drop_first();
        let r = text_of(rest);
        assert(t.wf());
        lemma_wf_part(ts, 1, ts.len() as int);
        assert(ts.subrange(1, ts.len() as int) =~= rest);
        lemma_variables(rest, vars);
        template::lemma_pass_is(place, r, vars);
        template::lemma_passed_behind(place, w, r, 0, vars);
        if let Token::Var(name) = t {
            template::lemma_at_place(Seq::empty(), name, r);
            assert(Seq::<char>::empty() + w + r =~= s);
            assert(w.len() == 4 + name.len());
            template::lemma_fill_variable(s.subrange(0, w.len() as int), seq![Some(name)], vars);
        } else {
            assert forall|p: int| 0 <= p < w.len() implies (#[trigger] place.pattern().at(
                s,
                p,
            )) is None by {
                lemma_no_variable(t, r, p);
            }
            lemma_kept(place, s, 0, w.len() as int, vars);
            assert(s.subrange(0, w.len() as int) =~= w);
        }
    } else {
        assert(template::passed(place, s, 0, vars) =~= Seq::<char>::empty());
    }
}

// ---------------------------------------------------------------------------
// Conditions
// ---------------------------------------------------------------------------

/// What a token is to a condition.
pub open spec fn mark_of(t: Token) -> Mark {
    match t {
        Token::Open(Block::If, name) => Mark::Head(t.text(), name),
        Token::Close(Block::If) => Mark::End,
        _ => if t == Token::Var("else"@) {
            Mark::Other
        } else {
            Mark::Text(t.text())
        },
    }
}

/// What tokens are to a condition.
pub open spec fn marks(ts: Seq<Token>) -> Seq<Mark> {
    ts.map_values(|t: Token| mark_of(t))
}

/// The part of a condition that is taken.
pub open spec fn branch(body: Seq<Token>, set: bool) -> Seq<Token> {
    match template::other_at(marks(body), 0) {
        Some(k) => if set {
            body.take(k)
        } else {
            body.skip(k + 1)
        },
        None => if set {
            body
        } else {
            Seq::empty()
        },
    }
}

/// Tokens with the conditions decided.
pub open spec fn decided(ts: Seq<Token>, vars: Map<Seq<char>, Seq<char>>) -> Seq<Token>
    decreases ts.len(),
{
    if ts.len() == 0 {
        Seq::empty()
    } else {
        let rest = ts.drop_first();
        match ts[0] {
            Token::Open(Block::If, name) => match template::end_at(marks(rest), 0) {
                Some(j) => {
                    let part = branch(rest.take(j), template::is_set(vars, name));
                    if part.len() < ts.len() && 0 <= j < rest.len() {
                        decided(part, vars) + decided(rest.skip(j + 1), vars)
                    } else {
                        Seq::empty()
                    }
                },
                None => seq![ts[0]] + decided(rest, vars),
            },
            _ => seq![ts[0]] + decided(rest, vars),
        }
    }
}

/// The part of a condition that is taken is a part of its body.
proof fn lemma_branch(body: Seq<Token>, set: bool)
    ensures
        branch(body, set).len() <= body.len(),
        marks(branch(body, set)) == template::branch(marks(body), set),
        all_wf(body) ==> all_wf(branch(body, set)),
{
    template::lemma_other(marks(body), 0);
    match template::other_at(marks(body), 0) {
        Some(k) => {
            assert(marks(body.take(k)) =~= marks(body).take(k));
            assert(marks(body.skip(k + 1)) =~= marks(body).skip(k + 1));
            if all_wf(body) {
                lemma_wf_part(body, 0, k);
                assert(body.subrange(0, k) =~= body.take(k));
                lemma_wf_part(body, k + 1, body.len() as int);
                assert(body.subrange(k + 1, body.len() as int) =~= body.skip(k + 1));
            }
        },
        None => {
            assert(marks(Seq::<Token>::empty()) =~= Seq::<Mark>::empty());
        },
    }
}

/// Conditions among tokens are decided as those among their marks, and what is
/// left is well formed.
proof fn lemma_decided(ts: Seq<Token>, vars: Map<Seq<char>, Seq<char>>)
    requires
        all_wf(ts),
    ensures
        text_of(decided(ts, vars)) == template::decided(marks(ts), vars),
        all_wf(decided(ts, vars)),
    decreases ts.len(),
{
    if ts.len() > 0 {
        let t = ts[0];
        let rest = ts.drop_first();
        assert(marks(ts)[0] == mark_of(t));
        assert(marks(ts).drop_first() =~= marks(rest));
        assert(t.wf());
        lemma_wf_part(ts, 1, ts.len() as int);
        assert(ts.subrange(1, ts.len() as int) =~= rest);
        lemma_this();
        template::lemma_end(marks(rest), 0);
        let met = t is Open && t->Open_0 is If && template::end_at(marks(rest), 0) is Some;
        if met {
            let name = t->Open_1;
            let set = template::is_set(vars, name);
            let j = template::end_at(marks(rest), 0).unwrap();
            let body = rest.take(j);
            let more = rest.skip(j + 1);
            assert(marks(body) =~= marks(rest).take(j));
            assert(marks(more) =~= marks(rest).skip(j + 1));
            lemma_wf_part(rest, 0, j);
            assert(rest.subrange(0, j) =~= body);
            lemma_wf_part(rest, j + 1, rest.len() as int);
            assert(rest.subrange(j + 1, rest.len() as int) =~= more);
            lemma_branch(body, set);
            lemma_decided(branch(body, set), vars);
            lemma_decided(more, vars);
            lemma_text_concat(decided(branch(body, set), vars), decided(more, vars));
            lemma_wf_concat(decided(branch(body, set), vars), decided(more, vars));
        } else {
            lemma_decided(rest, vars);
            lemma_text_concat(seq![t], decided(rest, vars));
            lemma_text_one(t);
            assert(all_wf(seq![t]));
            lemma_wf_concat(seq![t], decided(rest, vars));
        }
    }
}

/// No mark stands in a token that is none.
proof fn lemma_no_mark(t: Token, r: Seq<char>, p: int)
    requires
        t.wf(),
        0 <= p < t.text().len(),
        p == 0 ==> mark_of(t) is Text,
    ensures
        Pattern::IfMark.at(t.text() + r, p) is None,
{
    let s = t.text() + r;
    let other = Token::Var("else"@);
    let end = Token::Close(Block::If);
    lemma_this();
    lemma_braces(other);
    lemma_braces(end);
    reveal_strlit("{{#if");
    assert(!text::occurs_at(s, "{{#if"@, p) && !text::occurs_at(s, other.text(), p)
        && !text::occurs_at(s, end.text(), p)) by {
        if p > 0 || t is Plain {
            lemma_inside(t, r, "{{#if"@, p);
            lemma_inside(t, r, other.text(), p);
            lemma_inside(t, r, end.text(), p);
        } else {
            lemma_braces(t);
            lemma_differs(t, other, r);
            lemma_differs(t, end, r);
            if text::occurs_at(s, "{{#if"@, 0) {
                reveal_strlit("{{#each");
                reveal_strlit("{{#unless");
                let part = s.subrange(0, 5);
                assert(part[2] == s[2] && part[3] == s[3]);
                assert(s[2] == t.text()[2] && s[3] == t.text()[3]);
                assert(!patterns::word('#'));
                match t {
                    Token::Open(block, name) => {
                        assert(t.text()[3] == opener(block)[3]);
                    },
                    Token::Var(name) => {
                        assert(patterns::word(name[0]));
                    },
                    _ => {},
                }
            }
        }
    }
    reveal(Pattern::at);
}

/// A mark stands where its token begins.
proof fn lemma_mark_stands(t: Token, r: Seq<char>)
    requires
        t.wf(),
        !(mark_of(t) is Text),
    ensures
        Pattern::IfMark.at(t.text() + r, 0) matches Some(f) && f.end == t.text().len()
            && template::mark_of(seq![Some(t.text())] + f.groups) == mark_of(t),
{
    let s = t.text() + r;
    let w = t.text();
    reveal(Pattern::at);
    lemma_this();
    reveal_strlit("{{#if");
    reveal_strlit("{{else}}");
    reveal_strlit("{{/if}}");
    assert(s.subrange(0, w.len() as int) =~= w);
    match t {
        Token::Open(block, name) => {
            lemma_head(block, name, r);
            let groups = seq![Some(name)];
            assert((seq![Some(w)] + groups)[0] == Some(w));
            assert((seq![Some(w)] + groups)[1] == Some(name));
        },
        _ => {
            assert(s[2] == w[2]);
            if text::occurs_at(s, "{{#if"@, 0) {
                assert(s.subrange(0, 5)[2] == s[2]);
            }
            let groups = seq![None::<Seq<char>>];
            assert((seq![Some(w)] + groups)[0] == Some(w));
            assert((seq![Some(w)] + groups)[1] is None);
            if t is Close {
                if text::occurs_at(s, "{{else}}"@, 0) {
                    assert(s.subrange(0, 8)[2] == s[2]);
                }
                assert(w[2] == '/');
                assert("{{else}}"@[2] == 'e');
            }
        },
    }
}

/// Where there are no marks the text is passed over.
proof fn lemma_marks_later(s: Seq<char>, i: int, k: int)
    requires
        0 <= i <= k <= s.len(),
        forall|p: int| i <= p < k ==> (#[trigger] Pattern::IfMark.at(s, p)) is None,
    ensures
        conditions::text_marks(s, i) == conditions::chars(s.subrange(i, k))
            + conditions::text_marks(s, k),
    decreases k - i,
{
    if i < k {
        assert(Pattern::IfMark.at(s, i) is None);
        lemma_marks_later(s, i + 1, k);
        assert(conditions::text_marks(s, i) =~= conditions::chars(s.subrange(i, k))
            + conditions::text_marks(s, k));
    } else {
        assert(conditions::chars(s.subrange(i, k)) + conditions::text_marks(s, k)
            =~= conditions::text_marks(s, k));
    }
}

/// The marks of the text of tokens are the marks of the tokens.
proof fn lemma_marks(ts: Seq<Token>)
    requires
        all_wf(ts),
    ensures
        conditions::text_marks(text_of(ts), 0) == conditions::cut_up(marks(ts)),
    decreases ts.len(),
{
    let s = text_of(ts);
    if ts.len() > 0 {
        let t = ts[0];
        let w = t.text();
        let rest = ts.drop_first();
        let r = text_of(rest);
        assert(t.wf());
        lemma_wf_part(ts, 1, ts.len() as int);
        assert(ts.subrange(1, ts.len() as int) =~= rest);
        lemma_marks(rest);
        assert(marks(ts) =~= seq![mark_of(t)] + marks(rest));
        conditions::lemma_cut_up_concat(seq![mark_of(t)], marks(rest));
        conditions::lemma_cut_up_one(mark_of(t));
        conditions::lemma_marks_behind(w, r, 0);
        if mark_of(t) is Text {
            assert forall|p: int| 0 <= p < w.len() implies (#[trigger] Pattern::IfMark.at(
                s,
                p,
            )) is None by {
                lemma_no_mark(t, r, p);
            }
            lemma_marks_later(s, 0, w.len() as int);
            assert(s.subrange(0, w.len() as int) =~= w);
        } else {
            lemma_mark_stands(t, r);
            lemma_braces(t);
            assert(s.subrange(0, w.len() as int) =~= w);
        }
    }
}

/// Deciding the conditions in the text of tokens is deciding them among the
/// tokens.
proof fn lemma_conditions(ts: Seq<Token>, vars: Map<Seq<char>, Seq<char>>)
    requires
        all_wf(ts),
    ensures
        template::decided(template::marks_in(text_of(ts)), vars) == text_of(decided(ts, vars)),
        all_wf(decided(ts, vars)),
{
    conditions::lemma_decided_text(text_of(ts), vars);
    lemma_marks(ts);
    conditions::lemma_decided_cut_up(marks(ts), vars);
    lemma_decided(ts, vars);
}

/// Tokens after all passes over blocks.
pub open spec fn resolved(ts: Seq<Token>, vars: Map<Seq<char>, Seq<char>>) -> Seq<Token> {
    let t1 = after_pass(Place::Each, ts, vars);
    let t2 = after_pass(Place::Unless, t1, vars);
    decided(t2, vars)
}

/// A template comes to what its tokens come to: first the loops, then the negated
/// conditions and the conditions, and last the variables, whose values are not
/// looked into. The lines that loops run over hold no opening brace: one that did
/// could bring in tokens of its own.
pub proof fn templates_are_rendered_by_token(ts: Seq<Token>, vars: Map<Seq<char>, Seq<char>>)
    requires
        all_wf(ts),
        loops_are_plain(ts, vars),
    ensures
        template::rendered(text_of(ts), vars) == valued(resolved(ts, vars), vars),
{
    let t1 = after_pass(Place::Each, ts, vars);
    let t2 = after_pass(Place::Unless, t1, vars);
    lemma_pass_on_tokens(Place::Each, ts, vars);
    lemma_pass_wf(Place::Each, ts, vars);
    lemma_pass_on_tokens(Place::Unless, t1, vars);
    lemma_pass_wf(Place::Unless, t1, vars);
    lemma_conditions(t2, vars);
    lemma_variables(decided(t2, vars), vars);
}

} // verus!
