//! The template engine: `{{variable}}`, `{{#if variable}}..{{/if}}` with an
//! optional `{{else}}`, `{{#unless variable}}..{{/unless}}`, and
//! `{{#each variable}}..{{/each}}`, which runs over the lines of the value.
use vstd::prelude::*;

use crate::conditions;
use crate::lines;
use crate::outside;
use crate::patterns;
use crate::patterns::{Class, Found, Pattern};
use crate::text;
use crate::types::Values;

verus! {

/// The kinds of places in a template that are filled in.
#[derive(Clone, Copy, Debug, PartialEq, Eq, Structural)]
pub enum Place {
    Each,
    Unless,
    Variable,
}

impl Place {
    /// The regular expression that finds places of this kind.
    pub open spec fn pattern(self) -> Pattern {
        match self {
            Place::Each => Pattern::EachBlock,
            Place::Unless => Pattern::UnlessBlock,
            Place::Variable => Pattern::Variable,
        }
    }

    /// The number of groups of a match of that expression, with the whole.
    pub open spec fn arity(self) -> nat {
        self.pattern().groups() + 1
    }

    fn source(&self) -> (r: &'static str)
        ensures
            r@ == self.pattern().source(),
    {
        match self {
            Place::Each => patterns::EACH_BLOCK,
            Place::Unless => patterns::UNLESS_BLOCK,
            Place::Variable => patterns::VARIABLE,
        }
    }
}

/// `body` once for each line, with `{{this}}` replaced by the line.
pub open spec fn repeated(body: Seq<char>, items: Seq<Seq<char>>) -> Seq<char>
    decreases items.len(),
{
    if items.len() == 0 {
        Seq::empty()
    } else {
        repeated(body, items.drop_last()) + text::replaced(body, "{{this}}"@, items.last())
    }
}

/// `name` has a value that is not empty.
pub open spec fn is_set(vars: Map<Seq<char>, Seq<char>>, name: Seq<char>) -> bool {
    vars.contains_key(name) && vars[name].len() > 0
}

/// What a place is filled with, from the groups of its match: the first is the
/// name of a variable, the others are the bodies of the block.
pub open spec fn fill(
    place: Place,
    groups: Seq<Option<Seq<char>>>,
    vars: Map<Seq<char>, Seq<char>>,
) -> Seq<char> {
    let name = groups[1].unwrap();
    match place {
        Place::Each => if is_set(vars, name) {
            repeated(groups[2].unwrap(), lines::lines_of(vars[name]))
        } else {
            Seq::empty()
        },
        Place::Unless => if is_set(vars, name) {
            Seq::empty()
        } else {
            groups[2].unwrap()
        },
        Place::Variable => if vars.contains_key(name) {
            vars[name]
        } else {
            Seq::empty()
        },
    }
}

/// The text between the matches, with every match filled in.
pub open spec fn filled(
    place: Place,
    matches: Seq<Seq<Option<Seq<char>>>>,
    gaps: Seq<Seq<char>>,
    vars: Map<Seq<char>, Seq<char>>,
) -> Seq<char> {
    patterns::spliced(
        gaps,
        matches.map_values(|g: Seq<Option<Seq<char>>>| fill(place, g, vars)),
        matches.len(),
    )
}

/// `s` with every place of one kind filled in.
pub open spec fn pass(
    place: Place,
    s: Seq<char>,
    vars: Map<Seq<char>, Seq<char>>,
) -> Seq<char> {
    filled(
        place,
        place.pattern().matches(s, 0),
        place.pattern().gaps(s, 0, 0),
        vars,
    )
}

// ---------------------------------------------------------------------------
// Conditions
// ---------------------------------------------------------------------------

/// What the text of conditions is made of.
pub enum Mark {
    /// Text in between.
    Text(Seq<char>),
    /// The head of a condition: its text, and the name of its variable.
    Head(Seq<char>, Seq<char>),
    /// `{{else}}`.
    Other,
    /// `{{/if}}`.
    End,
}

/// `o`, `k` places further on.
pub open spec fn plus(o: Option<int>, k: int) -> Option<int> {
    match o {
        Some(j) => Some(j + k),
        None => None,
    }
}

/// Where a condition ends whose head stands before `ms`: the first `{{/if}}` that
/// ends no condition in between, `depth` being the number of those that are open.
pub open spec fn end_at(ms: Seq<Mark>, depth: nat) -> Option<int>
    decreases ms.len(),
{
    if ms.len() == 0 {
        None
    } else {
        match ms[0] {
            Mark::Head(_, _) => plus(end_at(ms.drop_first(), depth + 1), 1),
            Mark::End => if depth == 0 {
                Some(0)
            } else {
                plus(end_at(ms.drop_first(), (depth - 1) as nat), 1)
            },
            _ => plus(end_at(ms.drop_first(), depth), 1),
        }
    }
}

/// The first `{{else}}` that belongs to no condition inside.
pub open spec fn other_at(ms: Seq<Mark>, depth: nat) -> Option<int>
    decreases ms.len(),
{
    if ms.len() == 0 {
        None
    } else {
        match ms[0] {
            Mark::Head(_, _) => plus(other_at(ms.drop_first(), depth + 1), 1),
            Mark::End => plus(
                other_at(
                    ms.drop_first(),
                    if depth == 0 {
                        0
                    } else {
                        (depth - 1) as nat
                    },
                ),
                1,
            ),
            Mark::Other => if depth == 0 {
                Some(0)
            } else {
                plus(other_at(ms.drop_first(), depth), 1)
            },
            Mark::Text(_) => plus(other_at(ms.drop_first(), depth), 1),
        }
    }
}

/// The part of a condition that is taken: what stands before its `{{else}}` where
/// the variable is set, and else what stands behind it.
pub open spec fn branch(body: Seq<Mark>, set: bool) -> Seq<Mark> {
    match other_at(body, 0) {
        Some(k) => if set {
            body.take(k)
        } else {
            body.skip(k + 1)
        },
        None => if set {
            body
        } else {
            Seq::empty()
        },
    }
}

/// The text of marks with the conditions decided: each comes to the part of it
/// that is taken, with the conditions in it decided. What belongs to no condition
/// stays as it is.
pub open spec fn decided(ms: Seq<Mark>, vars: Map<Seq<char>, Seq<char>>) -> Seq<char>
    decreases ms.len(),
{
    if ms.len() == 0 {
        Seq::empty()
    } else {
        let rest = ms.drop_first();
        match ms[0] {
            Mark::Text(t) => t + decided(rest, vars),
            Mark::Other => "{{else}}"@ + decided(rest, vars),
            Mark::End => "{{/if}}"@ + decided(rest, vars),
            Mark::Head(whole, name) => match end_at(rest, 0) {
                Some(j) => {
                    let part = branch(rest.take(j), is_set(vars, name));
                    if part.len() < ms.len() && 0 <= j < rest.len() {
                        decided(part, vars) + decided(rest.skip(j + 1), vars)
                    } else {
                        Seq::empty()
                    }
                },
                None => whole + decided(rest, vars),
            },
        }
    }
}

/// The mark that a match is.
pub open spec fn mark_of(groups: Seq<Option<Seq<char>>>) -> Mark {
    let whole = groups[0].unwrap();
    match groups[1] {
        Some(name) => Mark::Head(whole, name),
        None => if whole == "{{else}}"@ {
            Mark::Other
        } else {
            Mark::End
        },
    }
}

/// The first `n` matches with the text before, between and behind them.
pub open spec fn marks_of(
    matches: Seq<Seq<Option<Seq<char>>>>,
    gaps: Seq<Seq<char>>,
    n: nat,
) -> Seq<Mark>
    decreases n,
{
    if n == 0 {
        seq![Mark::Text(gaps[0])]
    } else {
        marks_of(matches, gaps, (n - 1) as nat).push(mark_of(matches[n - 1])).push(
            Mark::Text(gaps[n as int]),
        )
    }
}

/// The marks of a text.
pub open spec fn marks_in(s: Seq<char>) -> Seq<Mark> {
    marks_of(
        Pattern::IfMark.matches(s, 0),
        Pattern::IfMark.gaps(s, 0, 0),
        Pattern::IfMark.matches(s, 0).len(),
    )
}

/// The template with its blocks and variables filled in: the loops first, then
/// the negated conditions, the conditions, and last the variables.
pub open spec fn rendered(template: Seq<char>, vars: Map<Seq<char>, Seq<char>>) -> Seq<char> {
    let s1 = pass(Place::Each, template, vars);
    let s2 = pass(Place::Unless, s1, vars);
    let s3 = decided(marks_in(s2), vars);
    pass(Place::Variable, s3, vars)
}

/// What the text of conditions is made of.
#[derive(Clone, Debug)]
pub enum Piece {
    Text(String),
    Head { whole: String, name: String },
    Other,
    End,
}

impl View for Piece {
    type V = Mark;

    open spec fn view(&self) -> Mark {
        match *self {
            Piece::Text(t) => Mark::Text(t@),
            Piece::Head { whole, name } => Mark::Head(whole@, name@),
            Piece::Other => Mark::Other,
            Piece::End => Mark::End,
        }
    }
}

/// The marks that pieces are.
pub open spec fn piece_marks(v: Seq<Piece>) -> Seq<Mark> {
    v.map_values(|p: Piece| p@)
}

/// A condition ends where a mark says so.
pub proof fn lemma_end(ms: Seq<Mark>, depth: nat)
    ensures
        match end_at(ms, depth) {
            Some(j) => 0 <= j < ms.len() && ms[j] is End,
            None => true,
        },
    decreases ms.len(),
{
    if ms.len() > 0 {
        let rest = ms.drop_first();
        lemma_end(rest, depth + 1);
        lemma_end(rest, depth);
        if depth > 0 {
            lemma_end(rest, (depth - 1) as nat);
        }
    }
}

/// A condition is divided where a mark says so.
pub proof fn lemma_other(ms: Seq<Mark>, depth: nat)
    ensures
        match other_at(ms, depth) {
            Some(j) => 0 <= j < ms.len() && ms[j] is Other,
            None => true,
        },
    decreases ms.len(),
{
    if ms.len() > 0 {
        let rest = ms.drop_first();
        lemma_other(rest, depth + 1);
        lemma_other(rest, depth);
        if depth > 0 {
            lemma_other(rest, (depth - 1) as nat);
        }
    }
}

/// Where the condition ends whose head stands before `from`.
fn find_end(ms: &Vec<Piece>, from: usize, to: usize) -> (r: Option<usize>)
    requires
        from <= to <= ms@.len(),
    ensures
        end_at(piece_marks(ms@).subrange(from as int, to as int), 0) == (match r {
            Some(j) => Some(j - from),
            None => None::<int>,
        }),
        r is Some ==> from <= r.unwrap() < to,
{
    let ghost all = piece_marks(ms@);
    let ghost start = all.subrange(from as int, to as int);
    let mut depth: usize = 0;
    let mut i: usize = from;
    while i < to
        invariant
            from <= i <= to <= ms@.len() == all.len(),
            depth <= i - from,
            all == piece_marks(ms@),
            start == all.subrange(from as int, to as int),
            end_at(start, 0) == plus(
                end_at(all.subrange(i as int, to as int), depth as nat),
                i - from,
            ),
        decreases to - i,
    {
        proof {
            let here = all.subrange(i as int, to as int);
            assert(here[0] == ms@[i as int]@);
            assert(here.drop_first() =~= all.subrange(i + 1, to as int));
        }
        match &ms[i] {
            Piece::Head { whole: _, name: _ } => {
                depth = depth + 1;
            },
            Piece::End => {
                if depth == 0 {
                    return Some(i);
                }
                depth = depth - 1;
            },
            _ => {},
        }
        i = i + 1;
    }
    None
}

/// Where a condition is divided.
fn find_other(ms: &Vec<Piece>, from: usize, to: usize) -> (r: Option<usize>)
    requires
        from <= to <= ms@.len(),
    ensures
        other_at(piece_marks(ms@).subrange(from as int, to as int), 0) == (match r {
            Some(j) => Some(j - from),
            None => None::<int>,
        }),
        r is Some ==> from <= r.unwrap() < to,
{
    let ghost all = piece_marks(ms@);
    let ghost start = all.subrange(from as int, to as int);
    let mut depth: usize = 0;
    let mut i: usize = from;
    while i < to
        invariant
            from <= i <= to <= ms@.len() == all.len(),
            depth <= i - from,
            all == piece_marks(ms@),
            start == all.subrange(from as int, to as int),
            other_at(start, 0) == plus(
                other_at(all.subrange(i as int, to as int), depth as nat),
                i - from,
            ),
        decreases to - i,
    {
        proof {
            let here = all.subrange(i as int, to as int);
            assert(here[0] == ms@[i as int]@);
            assert(here.drop_first() =~= all.subrange(i + 1, to as int));
        }
        match &ms[i] {
            Piece::Head { whole: _, name: _ } => {
                depth = depth + 1;
            },
            Piece::End => {
                if depth > 0 {
                    depth = depth - 1;
                }
            },
            Piece::Other => {
                if depth == 0 {
                    return Some(i);
                }
            },
            Piece::Text(_) => {},
        }
        i = i + 1;
    }
    None
}

/// Whether a variable has a value that is not empty.
fn has_value(vars: &Values, name: &str) -> (r: bool)
    ensures
        r == is_set(vars@, name@),
{
    match vars.get(name) {
        Some(val) => val.as_str().unicode_len() > 0,
        None => false,
    }
}

/// The text of pieces with the conditions decided.
pub fn decide(ms: &Vec<Piece>, from: usize, to: usize, vars: &Values) -> (r: String)
    requires
        from <= to <= ms@.len(),
    ensures
        r@ == decided(piece_marks(ms@).subrange(from as int, to as int), vars@),
    decreases to - from,
{
    let ghost all = piece_marks(ms@);
    let ghost start = all.subrange(from as int, to as int);
    let mut out = String::new();
    let mut i: usize = from;
    assert(out@ + decided(start, vars@) =~= decided(start, vars@));
    while i < to
        invariant
            from <= i <= to <= ms@.len() == all.len(),
            all == piece_marks(ms@),
            start == all.subrange(from as int, to as int),
            decided(start, vars@) == out@ + decided(all.subrange(i as int, to as int), vars@),
        decreases to - i,
    {
        let ghost here = all.subrange(i as int, to as int);
        let ghost rest = all.subrange(i + 1, to as int);
        let ghost before = out@;
        proof {
            assert(here[0] == ms@[i as int]@);
            assert(here.drop_first() =~= rest);
        }
        match &ms[i] {
            Piece::Text(t) => {
                out.append(t.as_str());
                i = i + 1;
                assert(before + (t@ + decided(rest, vars@)) =~= out@ + decided(rest, vars@));
            },
            Piece::Other => {
                out.append("{{else}}");
                i = i + 1;
                assert(before + ("{{else}}"@ + decided(rest, vars@)) =~= out@ + decided(
                    rest,
                    vars@,
                ));
            },
            Piece::End => {
                out.append("{{/if}}");
                i = i + 1;
                assert(before + ("{{/if}}"@ + decided(rest, vars@)) =~= out@ + decided(
                    rest,
                    vars@,
                ));
            },
            Piece::Head { whole, name } => match find_end(ms, i + 1, to) {
                Some(j) => {
                    let ghost body = all.subrange(i + 1, j as int);
                    assert(rest.take(j - i - 1) =~= body);
                    assert(rest.skip(j - i) =~= all.subrange(j + 1, to as int));
                    let set = has_value(vars, name.as_str());
                    let (a, b): (usize, usize) = match find_other(ms, i + 1, j) {
                        Some(k) => {
                            assert(body.take(k - i - 1) =~= all.subrange(i + 1, k as int));
                            assert(body.skip(k - i) =~= all.subrange(k + 1, j as int));
                            if set {
                                (i + 1, k)
                            } else {
                                (k + 1, j)
                            }
                        },
                        None => if set {
                            (i + 1, j)
                        } else {
                            (j, j)
                        },
                    };
                    assert(all.subrange(a as int, b as int) =~= branch(body, set));
                    let part = decide(ms, a, b, vars);
                    out.append(part.as_str());
                    let ghost later = decided(all.subrange(j + 1, to as int), vars@);
                    assert(before + (part@ + later) =~= out@ + later);
                    i = j + 1;
                },
                None => {
                    out.append(whole.as_str());
                    i = i + 1;
                    assert(before + (whole@ + decided(rest, vars@)) =~= out@ + decided(
                        rest,
                        vars@,
                    ));
                },
            },
        }
    }
    assert(all.subrange(to as int, to as int).len() == 0);
    assert(out@ + Seq::<char>::empty() =~= out@);
    out
}

/// The piece that a match is.
fn make_piece(groups: &Vec<Option<String>>) -> (r: Piece)
    requires
        groups@.len() == 2,
        groups@[0] is Some,
    ensures
        r@ == mark_of(group_views(groups@)),
{
    let ghost v = group_views(groups@);
    assert(v[0] == text::opt_text(groups@[0]) && v[1] == text::opt_text(groups@[1]));
    let whole = group_text(groups, 0);
    match &groups[1] {
        Some(name) => Piece::Head { whole, name: name.clone() },
        None => if text::same(whole.as_str(), "{{else}}") {
            Piece::Other
        } else {
            Piece::End
        },
    }
}

/// The matches with the text before, between and behind them.
pub fn make_pieces(matches: &Vec<Vec<Option<String>>>, gaps: &Vec<String>) -> (r: Vec<Piece>)
    requires
        gaps@.len() == matches@.len() + 1,
        forall|k: int|
            0 <= k < matches@.len() ==> (#[trigger] patterns::groups_of(matches@)[k]).len() == 2
                && patterns::groups_of(matches@)[k][0] is Some,
    ensures
        piece_marks(r@) == marks_of(
            patterns::groups_of(matches@),
            text::texts(gaps@),
            matches@.len(),
        ),
{
    let ghost m = patterns::groups_of(matches@);
    let ghost gs = text::texts(gaps@);
    let mut out: Vec<Piece> = Vec::new();
    out.push(Piece::Text(gaps[0].clone()));
    let mut k: usize = 0;
    assert(piece_marks(out@) =~= marks_of(m, gs, 0));
    while k < matches.len()
        invariant
            k <= matches@.len(),
            gaps@.len() == matches@.len() + 1,
            m == patterns::groups_of(matches@),
            gs == text::texts(gaps@),
            forall|j: int|
                0 <= j < matches@.len() ==> (#[trigger] m[j]).len() == 2 && m[j][0] is Some,
            piece_marks(out@) == marks_of(m, gs, k as nat),
        decreases matches.len() - k,
    {
        assert(m[k as int] =~= group_views(matches@[k as int]@));
        assert(m[k as int][0] is Some);
        let ghost before = out@;
        let mark = make_piece(&matches[k]);
        out.push(mark);
        out.push(Piece::Text(gaps[k + 1].clone()));
        assert(piece_marks(out@) =~= piece_marks(before).push(mark@).push(
            Mark::Text(gs[k + 1]),
        ));
        k = k + 1;
    }
    out
}

/// `s` with its conditions decided.
fn run_conditions(s: &str, vars: &Values) -> (r: String)
    ensures
        r@ == decided(marks_in(s@), vars@),
        !text::has(s@, seq!['{', '{']) ==> r@ == s@,
{
    proof {
        assert(Pattern::IfMark.source() == patterns::IF_MARK@);
    }
    let matches = outside::regex_captures(patterns::IF_MARK, s);
    let gaps = outside::regex_split(patterns::IF_MARK, s);
    proof {
        let p = Pattern::IfMark;
        let m = patterns::groups_of(matches@);
        assert(m == p.matches(s@, 0));
        assert(text::texts(gaps@) == p.gaps(s@, 0, 0));
        assert(text::texts(gaps@).len() == gaps@.len());
        patterns::lemma_gaps_between(p, s@, 0, 0);
        assert forall|k: int| 0 <= k < matches@.len() implies (#[trigger] m[k]).len() == 2
            && m[k][0] is Some by {
            patterns::lemma_all_take_part(p, s@, 0, k);
        }
        if !text::has(s@, seq!['{', '{']) {
            assert forall|j: int| 0 <= j < s@.len() implies (#[trigger] p.at(s@, j)) is None by {
                if p.at(s@, j) is Some {
                    lemma_mark_opens(s@, j);
                }
            }
            patterns::lemma_no_match(p, s@, 0, 0);
            assert(s@.subrange(0, s@.len() as int) =~= s@);
            reveal_with_fuel(decided, 2);
            assert(seq![Mark::Text(s@)].drop_first() =~= Seq::<Mark>::empty());
            assert(s@ + Seq::<char>::empty() =~= s@);
        }
    }
    let pieces = make_pieces(&matches, &gaps);
    let r = decide(&pieces, 0, pieces.len(), vars);
    assert(piece_marks(pieces@).subrange(0, pieces@.len() as int) =~= piece_marks(pieces@));
    r
}

/// A mark begins with two opening braces.
proof fn lemma_mark_opens(s: Seq<char>, i: int)
    requires
        Pattern::IfMark.at(s, i) is Some,
    ensures
        text::has(s, seq!['{', '{']),
{
    reveal(Pattern::at);
    reveal_strlit("{{#if");
    reveal_strlit("{{else}}");
    reveal_strlit("{{/if}}");
    let open = if text::occurs_at(s, "{{#if"@, i) {
        "{{#if"@
    } else if text::occurs_at(s, "{{else}}"@, i) {
        "{{else}}"@
    } else {
        "{{/if}}"@
    };
    assert(text::occurs_at(s, open, i));
    assert(open.subrange(0, 2) =~= seq!['{', '{']);
    assert(s.subrange(i, i + 2) =~= s.subrange(i, i + open.len()).subrange(0, 2));
    assert(text::occurs_at(s, seq!['{', '{'], i));
}

/// `body` once for each line, with `{{this}}` replaced by the line.
fn repeat(body: &str, items: &Vec<String>) -> (r: String)
    ensures
        r@ == repeated(body@, text::texts(items@)),
{
    let mut out = String::new();
    let ghost all = text::texts(items@);
    let mut i: usize = 0;
    assert(out@ =~= repeated(body@, all.take(0)));
    while i < items.len()
        invariant
            i <= items@.len(),
            all == text::texts(items@),
            out@ == repeated(body@, all.take(i as int)),
        decreases items.len() - i,
    {
        proof {
            reveal_strlit("{{this}}");
            assert(all.take(i + 1).drop_last() =~= all.take(i as int));
            assert(all.take(i + 1).last() == items@[i as int]@);
        }
        out.append(text::replace(body, "{{this}}", items[i].as_str()).as_str());
        i = i + 1;
    }
    assert(all.take(items@.len() as int) =~= all);
    out
}

/// The text of a group that took part in the match.
fn group_text(groups: &Vec<Option<String>>, g: usize) -> (r: String)
    requires
        g < groups@.len(),
        groups@[g as int] is Some,
    ensures
        r@ == groups@[g as int].unwrap()@,
{
    match &groups[g] {
        Some(s) => s.clone(),
        None => String::new(),
    }
}

/// The views of the groups of one match.
pub open spec fn group_views(groups: Seq<Option<String>>) -> Seq<Option<Seq<char>>> {
    groups.map_values(|o: Option<String>| text::opt_text(o))
}

/// What one place is filled with.
pub fn fill_place(place: Place, groups: &Vec<Option<String>>, vars: &Values) -> (r: String)
    requires
        groups@.len() == place.arity(),
        forall|g: int| 0 <= g < groups@.len() ==> (#[trigger] groups@[g]) is Some,
    ensures
        r@ == fill(place, group_views(groups@), vars@),
{
    let ghost v = group_views(groups@);
    assert(v[1].unwrap() == groups@[1].unwrap()@);
    let name = group_text(groups, 1);
    let value = vars.get(name.as_str());
    let set = match &value {
        Some(val) => val.as_str().unicode_len() > 0,
        None => false,
    };
    match place {
        Place::Each => {
            assert(v[2].unwrap() == groups@[2].unwrap()@);
            match value {
                Some(val) if set => {
                    let body = group_text(groups, 2);
                    repeat(body.as_str(), &lines::lines(val.as_str()))
                },
                _ => String::new(),
            }
        },
        Place::Unless => {
            assert(v[2].unwrap() == groups@[2].unwrap()@);
            if set {
                String::new()
            } else {
                group_text(groups, 2)
            }
        },
        Place::Variable => vars.get_or_empty(name.as_str()),
    }
}

/// The text between the matches, with every match filled in.
pub fn fill_all(
    place: Place,
    matches: &Vec<Vec<Option<String>>>,
    gaps: &Vec<String>,
    vars: &Values,
) -> (r: String)
    requires
        patterns::all_take_part(patterns::groups_of(matches@), place.arity()),
        gaps@.len() == matches@.len() + 1,
    ensures
        r@ == filled(place, patterns::groups_of(matches@), text::texts(gaps@), vars@),
{
    let ghost m = patterns::groups_of(matches@);
    let ghost f = m.map_values(|g: Seq<Option<Seq<char>>>| fill(place, g, vars@));
    let ghost gs = text::texts(gaps@);
    let mut out = gaps[0].clone();
    let mut k: usize = 0;
    while k < matches.len()
        invariant
            k <= matches@.len(),
            gaps@.len() == matches@.len() + 1,
            m == patterns::groups_of(matches@),
            patterns::all_take_part(m, place.arity()),
            f == m.map_values(|g: Seq<Option<Seq<char>>>| fill(place, g, vars@)),
            gs == text::texts(gaps@),
            out@ == patterns::spliced(gs, f, k as nat),
        decreases matches.len() - k,
    {
        proof {
            assert(m[k as int].len() == place.arity());
            assert(m[k as int] =~= group_views(matches@[k as int]@));
            assert forall|g: int| 0 <= g < matches@[k as int]@.len() implies (
            #[trigger] matches@[k as int]@[g]) is Some by {
                assert(m[k as int][g] is Some);
            }
        }
        out.append(fill_place(place, &matches[k], vars).as_str());
        out.append(gaps[k + 1].as_str());
        k = k + 1;
    }
    out
}

/// A place begins with two opening braces.
pub proof fn lemma_opens_with_braces(place: Place, s: Seq<char>, i: int)
    requires
        place.pattern().at(s, i) is Some,
    ensures
        text::has(s, seq!['{', '{']),
{
    reveal(Pattern::at);
    reveal_strlit("{{#each");
    reveal_strlit("{{#unless");
    reveal_strlit("{{#if");
    let open = match place {
        Place::Each => "{{#each"@,
        Place::Unless => "{{#unless"@,
        Place::Variable => seq!['{', '{'],
    };
    assert(text::occurs_at(s, open, i));
    assert(open.subrange(0, 2) =~= seq!['{', '{']);
    assert(s.subrange(i, i + 2) =~= s.subrange(i, i + open.len()).subrange(0, 2));
    assert(text::occurs_at(s, seq!['{', '{'], i));
}

/// `s` with every place of one kind filled in.
fn run_pass(place: Place, s: &str, vars: &Values) -> (r: String)
    ensures
        r@ == pass(place, s@, vars@),
        !text::has(s@, seq!['{', '{']) ==> r@ == s@,
{
    let source = place.source();
    let matches = outside::regex_captures(source, s);
    let gaps = outside::regex_split(source, s);
    proof {
        let p = place.pattern();
        let m = patterns::groups_of(matches@);
        assert(m == p.matches(s@, 0));
        assert(text::texts(gaps@) == p.gaps(s@, 0, 0));
        patterns::lemma_gaps_between(p, s@, 0, 0);
        assert forall|k: int| 0 <= k < m.len() implies (#[trigger] m[k]).len() == place.arity()
            && forall|g: int| 0 <= g < place.arity() ==> (#[trigger] m[k][g]) is Some by {
            patterns::lemma_all_take_part(p, s@, 0, k);
        }
        if !text::has(s@, seq!['{', '{']) {
            assert forall|j: int| 0 <= j < s@.len() implies (#[trigger] p.at(s@, j)) is None by {
                if p.at(s@, j) is Some {
                    lemma_opens_with_braces(place, s@, j);
                }
            }
            patterns::lemma_no_match(p, s@, 0, 0);
            assert(s@.subrange(0, s@.len() as int) =~= s@);
        }
    }
    fill_all(place, &matches, &gaps, vars)
}

/// The template with its blocks and variables filled in. A template without
/// two opening braces in a row stays as it is, whatever the variables.
pub fn render(template: &str, vars: &Values) -> (r: String)
    ensures
        r@ == rendered(template@, vars@),
        !text::has(template@, seq!['{', '{']) ==> r@ == template@,
{
    let s1 = run_pass(Place::Each, template, vars);
    let s2 = run_pass(Place::Unless, s1.as_str(), vars);
    let s3 = run_conditions(s2.as_str(), vars);
    run_pass(Place::Variable, s3.as_str(), vars)
}

// ---------------------------------------------------------------------------
// Laws
// ---------------------------------------------------------------------------

/// `s` from position `i` on, with the places of one kind filled in one after the
/// other.
pub open spec fn passed(
    place: Place,
    s: Seq<char>,
    i: int,
    vars: Map<Seq<char>, Seq<char>>,
) -> Seq<char>
    decreases s.len() - i,
{
    if i < 0 || i >= s.len() {
        Seq::empty()
    } else {
        match place.pattern().at(s, i) {
            Some(f) => if i < f.end <= s.len() {
                fill(place, seq![Some(s.subrange(i, f.end))] + f.groups, vars) + passed(
                    place,
                    s,
                    f.end,
                    vars,
                )
            } else {
                seq![s[i]] + passed(place, s, i + 1, vars)
            },
            None => seq![s[i]] + passed(place, s, i + 1, vars),
        }
    }
}

/// The value of a variable, or nothing where it has none.
pub open spec fn value_of(vars: Map<Seq<char>, Seq<char>>, name: Seq<char>) -> Seq<char> {
    if vars.contains_key(name) {
        vars[name]
    } else {
        Seq::empty()
    }
}

/// What is spliced with one more gap and fill in front.
proof fn lemma_splice_first(
    gap: Seq<char>,
    x: Seq<char>,
    gaps: Seq<Seq<char>>,
    fills: Seq<Seq<char>>,
    n: nat,
)
    requires
        n <= fills.len(),
        gaps.len() == fills.len() + 1,
    ensures
        patterns::spliced(seq![gap] + gaps, seq![x] + fills, n + 1) == gap + x + patterns::spliced(
            gaps,
            fills,
            n,
        ),
    decreases n,
{
    let g = seq![gap] + gaps;
    let f = seq![x] + fills;
    if n == 0 {
        assert(g[0] == gap && g[1] == gaps[0] && f[0] == x);
        assert(patterns::spliced(g, f, 0) == gap);
        assert(patterns::spliced(g, f, 1) == gap + x + gaps[0]);
    } else {
        lemma_splice_first(gap, x, gaps, fills, (n - 1) as nat);
        assert(f[n as int] == fills[n - 1]);
        assert(g[n as int + 1] == gaps[n as int]);
        let rest = patterns::spliced(gaps, fills, (n - 1) as nat);
        assert(gap + x + rest + fills[n - 1] + gaps[n as int] =~= gap + x + (rest + fills[n - 1]
            + gaps[n as int]));
    }
}

/// A pass fills the places in one after the other.
pub proof fn lemma_passed(
    place: Place,
    s: Seq<char>,
    start: int,
    i: int,
    vars: Map<Seq<char>, Seq<char>>,
)
    requires
        0 <= start <= i <= s.len(),
    ensures
        filled(place, place.pattern().matches(s, i), place.pattern().gaps(s, start, i), vars)
            == s.subrange(start, i) + passed(place, s, i, vars),
    decreases s.len() - i,
{
    let p = place.pattern();
    let m = p.matches(s, i);
    let f = |g: Seq<Option<Seq<char>>>| fill(place, g, vars);
    if i >= s.len() {
        assert(s.subrange(start, i) + passed(place, s, i, vars) =~= s.subrange(start, i));
    } else {
        match p.at(s, i) {
            Some(found) if i < found.end <= s.len() => {
                let e = found.end;
                let rest = p.matches(s, e);
                let first = seq![Some(s.subrange(i, e))] + found.groups;
                lemma_passed(place, s, e, e, vars);
                patterns::lemma_gaps_between(p, s, e, e);
                assert(m.map_values(f) =~= seq![f(first)] + rest.map_values(f));
                lemma_splice_first(
                    s.subrange(start, i),
                    f(first),
                    p.gaps(s, e, e),
                    rest.map_values(f),
                    rest.len(),
                );
                assert(s.subrange(e, e) + passed(place, s, e, vars) =~= passed(place, s, e, vars));
                assert(s.subrange(start, i) + f(first) + passed(place, s, e, vars) =~= s.subrange(
                    start,
                    i,
                ) + passed(place, s, i, vars));
            },
            _ => {
                lemma_passed(place, s, start, i + 1, vars);
                assert(s.subrange(start, i + 1) + passed(place, s, i + 1, vars) =~= s.subrange(
                    start,
                    i,
                ) + passed(place, s, i, vars));
            },
        }
    }
}

/// A pass over a text is the pass from its beginning on.
pub proof fn lemma_pass_is(place: Place, s: Seq<char>, vars: Map<Seq<char>, Seq<char>>)
    ensures
        pass(place, s, vars) == passed(place, s, 0, vars),
{
    lemma_passed(place, s, 0, 0, vars);
    assert(s.subrange(0, 0) + passed(place, s, 0, vars) =~= passed(place, s, 0, vars));
}

/// A name of a variable.
pub open spec fn is_name(name: Seq<char>) -> bool {
    name.len() > 0 && forall|i: int| 0 <= i < name.len() ==> patterns::word(#[trigger] name[i])
}

/// The place of a variable.
pub open spec fn place_of(name: Seq<char>) -> Seq<char> {
    seq!['{', '{'] + name + seq!['}', '}']
}

/// The text holds no block.
pub open spec fn no_blocks(s: Seq<char>) -> bool {
    !text::has(s, seq!['{', '{', '#'])
}

/// Without blocks only the variables are filled in.
proof fn lemma_no_blocks(s: Seq<char>, vars: Map<Seq<char>, Seq<char>>)
    requires
        no_blocks(s),
    ensures
        rendered(s, vars) == passed(Place::Variable, s, 0, vars),
{
    lemma_pass_without_blocks(Place::Each, s, vars);
    lemma_pass_without_blocks(Place::Unless, s, vars);
    lemma_conditions_without_blocks(s, vars);
    lemma_pass_is(Place::Variable, s, vars);
}

/// Without blocks there are no conditions to decide.
proof fn lemma_conditions_without_blocks(s: Seq<char>, vars: Map<Seq<char>, Seq<char>>)
    requires
        no_blocks(s),
    ensures
        decided(marks_in(s), vars) == s,
{
    reveal_strlit("{{#if");
    let head = seq!['{', '{', '#'];
    let open = "{{#if"@;
    assert forall|j: int| 0 <= j < s.len() implies !#[trigger] text::occurs_at(s, open, j) by {
        if text::occurs_at(s, open, j) {
            assert(open.subrange(0, 3) =~= head);
            assert(s.subrange(j, j + 3) =~= s.subrange(j, j + open.len()).subrange(0, 3));
            assert(text::occurs_at(s, head, j));
        }
    }
    conditions::lemma_decided_text(s, vars);
    conditions::lemma_no_heads(s, 0, vars);
    assert(s.subrange(0, s.len() as int) =~= s);
}

/// Without blocks a pass over blocks changes nothing.
proof fn lemma_pass_without_blocks(
    place: Place,
    s: Seq<char>,
    vars: Map<Seq<char>, Seq<char>>,
)
    requires
        no_blocks(s),
        place != Place::Variable,
    ensures
        pass(place, s, vars) == s,
{
    reveal(Pattern::at);
    let p = place.pattern();
    reveal_strlit("{{#each");
    reveal_strlit("{{#unless");
    reveal_strlit("{{#if");
    let open = match place {
        Place::Each => "{{#each"@,
        _ => "{{#unless"@,
    };
    let head = seq!['{', '{', '#'];
    assert forall|j: int| 0 <= j < s.len() implies (#[trigger] p.at(s, j)) is None by {
        if p.at(s, j) is Some {
            assert(text::occurs_at(s, open, j));
            assert(open.subrange(0, 3) =~= head);
            assert(s.subrange(j, j + 3) =~= s.subrange(j, j + open.len()).subrange(0, 3));
            assert(text::occurs_at(s, head, j));
        }
    }
    patterns::lemma_no_match(p, s, 0, 0);
    assert(s.subrange(0, s.len() as int) =~= s);
}

/// A run behind a text that is put in front is the same run.
proof fn lemma_run_shifted(front: Seq<char>, s: Seq<char>, i: int, class: Class)
    requires
        0 <= i <= s.len(),
    ensures
        patterns::run_end(front + s, front.len() + i, class) == front.len() + patterns::run_end(
            s,
            i,
            class,
        ),
    decreases s.len() - i,
{
    if i < s.len() {
        assert((front + s)[front.len() + i] == s[i]);
        if class.holds(s[i]) {
            lemma_run_shifted(front, s, i + 1, class);
        }
    }
}

/// An occurrence behind a text that is put in front is the same occurrence.
pub proof fn lemma_occurs_shifted(front: Seq<char>, s: Seq<char>, p: Seq<char>, i: int)
    requires
        0 <= i,
    ensures
        text::occurs_at(front + s, p, front.len() + i) == text::occurs_at(s, p, i),
{
    if i + p.len() <= s.len() {
        assert((front + s).subrange(front.len() + i, front.len() + i + p.len()) =~= s.subrange(
            i,
            i + p.len(),
        ));
    }
}

/// What is looked for behind a text that is put in front is found in the same
/// place.
pub proof fn lemma_first_shifted(front: Seq<char>, s: Seq<char>, p: Seq<char>, i: int)
    requires
        0 <= i,
    ensures
        text::first_at(front + s, p, front.len() + i) == (match text::first_at(s, p, i) {
            Some(j) => Some(front.len() + j),
            None => None::<int>,
        }),
    decreases s.len() + 1 - i,
{
    lemma_occurs_shifted(front, s, p, i);
    if i + p.len() <= s.len() && !text::occurs_at(s, p, i) {
        lemma_first_shifted(front, s, p, i + 1);
    }
}

/// What is found, with a text put in front.
pub open spec fn moved(f: Option<Found>, by: int) -> Option<Found> {
    match f {
        Some(x) => Some(Found { end: by + x.end, groups: x.groups }),
        None => None,
    }
}

/// A head behind a text that is put in front is the same head.
proof fn lemma_head_shifted(front: Seq<char>, s: Seq<char>, i: int, open: Seq<char>)
    requires
        0 <= i,
    ensures
        patterns::head_at(front + s, front.len() + i, open) == (match patterns::head_at(s, i, open) {
            Some((b, c)) => Some((front.len() + b, front.len() + c)),
            None => None::<(int, int)>,
        }),
        match patterns::head_at(s, i, open) {
            Some((b, c)) => i + open.len() < b < c && c + 2 <= s.len() && (front + s).subrange(
                front.len() + b,
                front.len() + c,
            ) == s.subrange(b, c),
            None => true,
        },
{
    lemma_occurs_shifted(front, s, open, i);
    if text::occurs_at(s, open, i) {
        let a = i + open.len();
        let b = patterns::run_end(s, a, Class::White);
        patterns::lemma_run_bounds(s, a, Class::White);
        lemma_run_shifted(front, s, a, Class::White);
        let c = patterns::run_end(s, b, Class::Word);
        patterns::lemma_run_bounds(s, b, Class::Word);
        lemma_run_shifted(front, s, b, Class::Word);
        reveal_strlit("}}");
        lemma_occurs_shifted(front, s, "}}"@, c);
        assert((front + s).subrange(front.len() + b, front.len() + c) =~= s.subrange(b, c));
    }
}

/// A block behind a text that is put in front is the same block.
proof fn lemma_block_shifted(
    front: Seq<char>,
    s: Seq<char>,
    i: int,
    open: Seq<char>,
    close: Seq<char>,
)
    requires
        0 <= i,
    ensures
        patterns::block_at(front + s, front.len() + i, open, close) == moved(
            patterns::block_at(s, i, open, close),
            front.len() as int,
        ),
        match patterns::block_at(s, i, open, close) {
            Some(f) => i < f.end <= s.len(),
            None => true,
        },
{
    lemma_head_shifted(front, s, i, open);
    if let Some((b, c)) = patterns::head_at(s, i, open) {
        lemma_first_shifted(front, s, close, c + 2);
        text::lemma_first_at(s, close, c + 2);
        if let Some(j) = text::first_at(s, close, c + 2) {
            assert((front + s).subrange(front.len() + c + 2, front.len() + j) =~= s.subrange(
                c + 2,
                j,
            ));
        }
    }
}

/// A mark behind a text that is put in front is the same mark.
pub proof fn lemma_mark_behind(front: Seq<char>, s: Seq<char>, i: int)
    requires
        0 <= i,
    ensures
        Pattern::IfMark.at(front + s, front.len() + i) == moved(
            Pattern::IfMark.at(s, i),
            front.len() as int,
        ),
        match Pattern::IfMark.at(s, i) {
            Some(f) => i < f.end <= s.len(),
            None => true,
        },
{
    reveal(Pattern::at);
    reveal_strlit("{{#if");
    reveal_strlit("{{else}}");
    reveal_strlit("{{/if}}");
    lemma_head_shifted(front, s, i, "{{#if"@);
    lemma_occurs_shifted(front, s, "{{else}}"@, i);
    lemma_occurs_shifted(front, s, "{{/if}}"@, i);
}

/// A match behind a text that is put in front is the same match.
pub proof fn lemma_at_behind(place: Place, front: Seq<char>, s: Seq<char>, i: int)
    requires
        0 <= i,
    ensures
        place.pattern().at(front + s, front.len() + i) == moved(
            place.pattern().at(s, i),
            front.len() as int,
        ),
        match place.pattern().at(s, i) {
            Some(f) => i < f.end <= s.len(),
            None => true,
        },
{
    reveal(Pattern::at);
    match place {
        Place::Each => lemma_block_shifted(front, s, i, "{{#each"@, "{{/each}}"@),
        Place::Unless => lemma_block_shifted(front, s, i, "{{#unless"@, "{{/unless}}"@),
        Place::Variable => {
            let open = seq!['{', '{'];
            let close = seq!['}', '}'];
            lemma_occurs_shifted(front, s, open, i);
            if text::occurs_at(s, open, i) {
                let b = patterns::run_end(s, i + 2, Class::Word);
                lemma_run_shifted(front, s, i + 2, Class::Word);
                patterns::lemma_run_bounds(s, i + 2, Class::Word);
                lemma_occurs_shifted(front, s, close, b);
                assert((front + s).subrange(front.len() + i + 2, front.len() + b) =~= s.subrange(
                    i + 2,
                    b,
                ));
            }
        },
    }
}

/// A text that is put in front changes nothing in what follows.
pub proof fn lemma_passed_behind(
    place: Place,
    front: Seq<char>,
    s: Seq<char>,
    i: int,
    vars: Map<Seq<char>, Seq<char>>,
)
    requires
        0 <= i <= s.len(),
    ensures
        passed(place, front + s, front.len() + i, vars) == passed(place, s, i, vars),
    decreases s.len() - i,
{
    if i < s.len() {
        assert((front + s)[front.len() + i] == s[i]);
        lemma_at_behind(place, front, s, i);
        match place.pattern().at(s, i) {
            Some(f) => {
                lemma_passed_behind(place, front, s, f.end, vars);
                assert((front + s).subrange(front.len() + i, front.len() + f.end) =~= s.subrange(
                    i,
                    f.end,
                ));
            },
            None => {
                lemma_passed_behind(place, front, s, i + 1, vars);
            },
        }
    }
}

/// What is matched before the place of a variable does not reach into it.
proof fn lemma_at_before(a: Seq<char>, name: Seq<char>, b: Seq<char>, j: int)
    requires
        is_name(name),
        0 <= j < a.len(),
    ensures
        Pattern::Variable.at(a + place_of(name) + b, j) == Pattern::Variable.at(a, j),
        match Pattern::Variable.at(a, j) {
            Some(f) => j < f.end <= a.len(),
            None => true,
        },
{
    reveal(Pattern::at);
    let s = a + place_of(name) + b;
    let n = a.len() as int;
    let open = seq!['{', '{'];
    let close = seq!['}', '}'];
    assert(forall|k: int| 0 <= k < n ==> s[k] == a[k]);
    assert(s[n] == '{' && s[n + 1] == '{');
    if j + 2 <= n {
        assert(s.subrange(j, j + 2) =~= a.subrange(j, j + 2));
        let e = patterns::run_end(a, j + 2, Class::Word);
        patterns::lemma_run_bounds(a, j + 2, Class::Word);
        assert(!Class::Word.holds('{'));
        assert(!Class::Word.holds(s[e]));
        assert forall|k: int| j + 2 <= k < e implies Class::Word.holds(#[trigger] s[k]) by {
            assert(a[k] == s[k]);
        }
        patterns::lemma_run_end(s, j + 2, e, Class::Word);
        if e + 2 <= n {
            assert(s.subrange(e, e + 2) =~= a.subrange(e, e + 2));
            assert(s.subrange(j + 2, e) =~= a.subrange(j + 2, e));
        } else {
            if text::occurs_at(s, close, e) {
                assert(s.subrange(e, e + 2)[0] == '}' && s.subrange(e, e + 2)[1] == '}');
                assert(s[e] == '}' && s[e + 1] == '}');
            }
        }
    } else {
        patterns::lemma_run_end(s, j + 2, j + 2, Class::Word);
    }
}

/// A variable is replaced by its value, or by nothing where it has none, and what
/// stands around it is rendered on its own; the value itself is not looked into.
/// This holds of every template without blocks.
pub proof fn variables_are_substituted(
    a: Seq<char>,
    name: Seq<char>,
    b: Seq<char>,
    vars: Map<Seq<char>, Seq<char>>,
)
    requires
        is_name(name),
        no_blocks(a + place_of(name) + b),
    ensures
        rendered(a + place_of(name) + b, vars) == rendered(a, vars) + value_of(vars, name)
            + rendered(b, vars),
{
    let s = a + place_of(name) + b;
    lemma_no_blocks_inside(Seq::empty(), a, place_of(name) + b);
    assert(Seq::<char>::empty() + a + (place_of(name) + b) =~= s);
    lemma_no_blocks_inside(a + place_of(name), b, Seq::empty());
    assert(a + place_of(name) + b + Seq::<char>::empty() =~= s);
    lemma_no_blocks(s, vars);
    lemma_no_blocks(a, vars);
    lemma_no_blocks(b, vars);
    lemma_passed_around(a, name, b, 0, vars);
}

/// A part of a text without blocks has none.
proof fn lemma_no_blocks_inside(a: Seq<char>, s: Seq<char>, b: Seq<char>)
    requires
        no_blocks(a + s + b),
    ensures
        no_blocks(s),
{
    let head = seq!['{', '{', '#'];
    let t = a + s + b;
    if text::has(s, head) {
        let i = choose|i: int| text::occurs_at(s, head, i);
        assert(t.subrange(a.len() + i, a.len() + i + 3) =~= s.subrange(i, i + 3));
        assert(text::occurs_at(t, head, a.len() + i));
    }
}

/// Texts one after the other can be taken together.
proof fn lemma_together(x: Seq<char>, y: Seq<char>, z: Seq<char>, w: Seq<char>)
    ensures
        x + (y + z + w) == x + y + z + w,
{
    assert(x + (y + z + w) =~= x + y + z + w);
}

/// The place of a variable is matched.
pub proof fn lemma_at_place(a: Seq<char>, name: Seq<char>, b: Seq<char>)
    requires
        is_name(name),
    ensures
        Pattern::Variable.at(a + place_of(name) + b, a.len() as int) == Some(
            Found { end: (a.len() + 4 + name.len()) as int, groups: seq![Some(name)] },
        ),
{
    reveal(Pattern::at);
    let s = a + place_of(name) + b;
    let n = a.len() as int;
    let e = n + 2 + name.len();
    assert forall|k: int| n + 2 <= k < e implies Class::Word.holds(#[trigger] s[k]) by {
        assert(s[k] == name[k - n - 2]);
    }
    assert(s[e] == '}');
    patterns::lemma_run_end(s, n + 2, e, Class::Word);
    assert(s.subrange(n, n + 2) =~= seq!['{', '{']);
    assert(s.subrange(e, e + 2) =~= seq!['}', '}']);
    assert(s.subrange(n + 2, e) =~= name);
}

/// The place of a variable is filled with its value.
pub proof fn lemma_fill_variable(
    whole: Seq<char>,
    groups: Seq<Option<Seq<char>>>,
    vars: Map<Seq<char>, Seq<char>>,
)
    requires
        groups.len() == 1,
    ensures
        fill(Place::Variable, seq![Some(whole)] + groups, vars) == value_of(
            vars,
            groups[0].unwrap(),
        ),
{
    assert((seq![Some(whole)] + groups)[1] == groups[0]);
}

/// What stands around a variable is filled in on its own.
proof fn lemma_passed_around(
    a: Seq<char>,
    name: Seq<char>,
    b: Seq<char>,
    j: int,
    vars: Map<Seq<char>, Seq<char>>,
)
    requires
        is_name(name),
        0 <= j <= a.len(),
    ensures
        passed(Place::Variable, a + place_of(name) + b, j, vars) == passed(
            Place::Variable,
            a,
            j,
            vars,
        ) + value_of(vars, name) + passed(Place::Variable, b, 0, vars),
    decreases a.len() - j,
{
    let place = Place::Variable;
    let s = a + place_of(name) + b;
    let value = value_of(vars, name);
    let tail = passed(place, b, 0, vars);
    if j < a.len() {
        lemma_at_before(a, name, b, j);
        assert(s[j] == a[j]);
        match Pattern::Variable.at(a, j) {
            Some(f) => {
                patterns::lemma_groups_take_part(Pattern::Variable, a, j);
                lemma_fill_variable(s.subrange(j, f.end), f.groups, vars);
                lemma_fill_variable(a.subrange(j, f.end), f.groups, vars);
                lemma_passed_around(a, name, b, f.end, vars);
                lemma_together(
                    value_of(vars, f.groups[0].unwrap()),
                    passed(place, a, f.end, vars),
                    value,
                    tail,
                );
            },
            None => {
                lemma_passed_around(a, name, b, j + 1, vars);
                lemma_together(seq![s[j]], passed(place, a, j + 1, vars), value, tail);
            },
        }
    } else {
        lemma_at_place(a, name, b);
        let e = (a.len() + 4 + name.len()) as int;
        lemma_fill_variable(s.subrange(j, e), seq![Some(name)], vars);
        lemma_passed_behind(place, a + place_of(name), b, 0, vars);
        assert(passed(place, a, j, vars) + value =~= value);
    }
}

} // verus!
