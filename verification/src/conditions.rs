//! What conditions come to: they nest, and it does not matter how the text between
//! their marks is cut.
use vstd::prelude::*;

use crate::patterns::Pattern;
use crate::template;
use crate::template::Mark;
use crate::text;

verus! {

/// Each character of a text on its own.
pub open spec fn chars(t: Seq<char>) -> Seq<Mark> {
    t.map_values(|c: char| Mark::Text(seq![c]))
}

/// Marks with the text in between cut into its characters.
pub open spec fn cut_up(ms: Seq<Mark>) -> Seq<Mark>
    decreases ms.len(),
{
    if ms.len() == 0 {
        Seq::empty()
    } else {
        (match ms[0] {
            Mark::Text(t) => chars(t),
            m => seq![m],
        }) + cut_up(ms.drop_first())
    }
}

/// Marks one after the other are cut up one after the other.
pub proof fn lemma_cut_up_concat(a: Seq<Mark>, b: Seq<Mark>)
    ensures
        cut_up(a + b) == cut_up(a) + cut_up(b),
    decreases a.len(),
{
    if a.len() == 0 {
        assert(a + b =~= b);
        assert(cut_up(a) + cut_up(b) =~= cut_up(b));
    } else {
        assert((a + b).drop_first() =~= a.drop_first() + b);
        lemma_cut_up_concat(a.drop_first(), b);
        let first = match a[0] {
            Mark::Text(t) => chars(t),
            m => seq![m],
        };
        assert(first + (cut_up(a.drop_first()) + cut_up(b)) =~= cut_up(a) + cut_up(b));
    }
}

/// One mark, cut up.
pub proof fn lemma_cut_up_one(m: Mark)
    ensures
        cut_up(seq![m]) == (match m {
            Mark::Text(t) => chars(t),
            _ => seq![m],
        }),
{
    reveal_with_fuel(cut_up, 2);
    assert(seq![m].drop_first() =~= Seq::<Mark>::empty());
    let first = match m {
        Mark::Text(t) => chars(t),
        _ => seq![m],
    };
    assert(first + Seq::<Mark>::empty() =~= first);
}

/// Text is passed over where a condition is looked through.
proof fn lemma_over_text(t: Seq<char>, x: Seq<Mark>, depth: nat, vars: Map<Seq<char>, Seq<char>>)
    ensures
        template::end_at(chars(t) + x, depth) == template::plus(
            template::end_at(x, depth),
            t.len() as int,
        ),
        template::other_at(chars(t) + x, depth) == template::plus(
            template::other_at(x, depth),
            t.len() as int,
        ),
        template::decided(chars(t) + x, vars) == t + template::decided(x, vars),
    decreases t.len(),
{
    let all = chars(t) + x;
    if t.len() == 0 {
        assert(all =~= x);
        assert(t + template::decided(x, vars) =~= template::decided(x, vars));
    } else {
        let rest = t.drop_first();
        lemma_over_text(rest, x, depth, vars);
        assert(all[0] == Mark::Text(seq![t[0]]));
        assert(all.drop_first() =~= chars(rest) + x);
        assert(seq![t[0]] + (rest + template::decided(x, vars)) =~= t + template::decided(x, vars));
    }
}

/// A position among marks, where they are cut up.
spec fn cut_position(ms: Seq<Mark>, at: Option<int>) -> Option<int> {
    match at {
        Some(j) => Some(cut_up(ms.take(j)).len() as int),
        None => None,
    }
}

/// A position one further on, where the marks are cut up.
proof fn lemma_cut_position(ms: Seq<Mark>, at: Option<int>)
    requires
        ms.len() > 0,
        at is Some ==> 0 <= at.unwrap() < ms.len() - 1,
    ensures
        cut_position(ms, template::plus(at, 1)) == template::plus(
            cut_position(ms.drop_first(), at),
            cut_up(seq![ms[0]]).len() as int,
        ),
{
    if let Some(j) = at {
        assert(ms.take(j + 1) =~= seq![ms[0]] + ms.drop_first().take(j));
        lemma_cut_up_concat(seq![ms[0]], ms.drop_first().take(j));
    }
}

/// A condition ends in the same place.
proof fn lemma_end_cut_up(ms: Seq<Mark>, depth: nat)
    ensures
        template::end_at(cut_up(ms), depth) == cut_position(ms, template::end_at(ms, depth)),
    decreases ms.len(),
{
    if ms.len() > 0 {
        let rest = ms.drop_first();
        let x = cut_up(rest);
        let first = seq![ms[0]];
        lemma_cut_up_one(ms[0]);
        match ms[0] {
            Mark::Text(t) => {
                lemma_end_cut_up(rest, depth);
                lemma_over_text(t, x, depth, Map::empty());
                template::lemma_end(rest, depth);
                lemma_cut_position(ms, template::end_at(rest, depth));
            },
            m => {
                assert((first + x)[0] == m);
                assert((first + x).drop_first() =~= x);
                if m is End && depth == 0 {
                    assert(ms.take(0) =~= Seq::<Mark>::empty());
                } else {
                    let d = match m {
                        Mark::Head(_, _) => depth + 1,
                        Mark::End => (depth - 1) as nat,
                        _ => depth,
                    };
                    lemma_end_cut_up(rest, d);
                    template::lemma_end(rest, d);
                    lemma_cut_position(ms, template::end_at(rest, d));
                }
            },
        }
    }
}

/// A condition is divided in the same place.
proof fn lemma_other_cut_up(ms: Seq<Mark>, depth: nat)
    ensures
        template::other_at(cut_up(ms), depth) == cut_position(ms, template::other_at(ms, depth)),
    decreases ms.len(),
{
    if ms.len() > 0 {
        let rest = ms.drop_first();
        let x = cut_up(rest);
        let first = seq![ms[0]];
        lemma_cut_up_one(ms[0]);
        match ms[0] {
            Mark::Text(t) => {
                lemma_other_cut_up(rest, depth);
                lemma_over_text(t, x, depth, Map::empty());
                template::lemma_other(rest, depth);
                lemma_cut_position(ms, template::other_at(rest, depth));
            },
            m => {
                assert((first + x)[0] == m);
                assert((first + x).drop_first() =~= x);
                if m is Other && depth == 0 {
                    assert(ms.take(0) =~= Seq::<Mark>::empty());
                } else {
                    let d = match m {
                        Mark::Head(_, _) => depth + 1,
                        Mark::End => if depth == 0 {
                            0
                        } else {
                            (depth - 1) as nat
                        },
                        _ => depth,
                    };
                    lemma_other_cut_up(rest, d);
                    template::lemma_other(rest, d);
                    lemma_cut_position(ms, template::other_at(rest, d));
                }
            },
        }
    }
}

/// Marks are cut up on both sides of one that is no text.
proof fn lemma_cut_up_around(ms: Seq<Mark>, j: int)
    requires
        0 <= j < ms.len(),
        !(ms[j] is Text),
    ensures
        ({
            let k = cut_up(ms.take(j)).len() as int;
            &&& k < cut_up(ms).len()
            &&& cut_up(ms).take(k) == cut_up(ms.take(j))
            &&& cut_up(ms).skip(k + 1) == cut_up(ms.skip(j + 1))
        }),
{
    let k = cut_up(ms.take(j)).len() as int;
    let a = ms.take(j);
    let b = ms.skip(j + 1);
    assert(ms =~= a + (seq![ms[j]] + b));
    lemma_cut_up_concat(a, seq![ms[j]] + b);
    lemma_cut_up_concat(seq![ms[j]], b);
    lemma_cut_up_one(ms[j]);
    assert(cut_up(ms).take(k) =~= cut_up(a));
    assert(cut_up(ms).skip(k + 1) =~= cut_up(b));
}

/// The part of a condition that is taken is no longer than its body.
pub proof fn lemma_branch(body: Seq<Mark>, set: bool)
    ensures
        template::branch(body, set).len() <= body.len(),
{
    template::lemma_other(body, 0);
}

/// The part of a condition that is taken, cut up.
proof fn lemma_branch_cut_up(body: Seq<Mark>, set: bool)
    ensures
        template::branch(cut_up(body), set) == cut_up(template::branch(body, set)),
{
    lemma_other_cut_up(body, 0);
    template::lemma_other(body, 0);
    if let Some(k) = template::other_at(body, 0) {
        lemma_cut_up_around(body, k);
    }
}

/// Conditions are decided in the same way where the text is cut up.
pub proof fn lemma_decided_cut_up(ms: Seq<Mark>, vars: Map<Seq<char>, Seq<char>>)
    ensures
        template::decided(cut_up(ms), vars) == template::decided(ms, vars),
    decreases ms.len(),
{
    if ms.len() > 0 {
        let rest = ms.drop_first();
        let x = cut_up(rest);
        lemma_cut_up_one(ms[0]);
        match ms[0] {
            Mark::Text(t) => {
                lemma_over_text(t, x, 0, vars);
                lemma_decided_cut_up(rest, vars);
            },
            Mark::Head(whole, name) => {
                let all = seq![ms[0]] + x;
                assert(all[0] == ms[0]);
                assert(all.drop_first() =~= x);
                lemma_end_cut_up(rest, 0);
                template::lemma_end(rest, 0);
                match template::end_at(rest, 0) {
                    Some(j) => {
                        let set = template::is_set(vars, name);
                        let body = rest.take(j);
                        lemma_cut_up_around(rest, j);
                        lemma_branch_cut_up(body, set);
                        lemma_branch(body, set);
                        lemma_branch(cut_up(body), set);
                        lemma_decided_cut_up(template::branch(body, set), vars);
                        lemma_decided_cut_up(rest.skip(j + 1), vars);
                    },
                    None => {
                        lemma_decided_cut_up(rest, vars);
                    },
                }
            },
            _ => {
                let all = seq![ms[0]] + x;
                assert(all[0] == ms[0]);
                assert(all.drop_first() =~= x);
                lemma_decided_cut_up(rest, vars);
            },
        }
    }
}

// ---------------------------------------------------------------------------
// Conditions inside conditions
// ---------------------------------------------------------------------------

/// Behind `depth` open conditions, the marks end these and every condition that
/// begins among them, and nothing else is ended or divided.
pub open spec fn closed(ms: Seq<Mark>, depth: nat) -> bool
    decreases ms.len(),
{
    if ms.len() == 0 {
        depth == 0
    } else {
        let rest = ms.drop_first();
        match ms[0] {
            Mark::Text(_) => closed(rest, depth),
            Mark::Head(_, _) => closed(rest, depth + 1),
            Mark::Other => depth > 0 && closed(rest, depth),
            Mark::End => depth > 0 && closed(rest, (depth - 1) as nat),
        }
    }
}

/// Closed marks are passed over where a condition is looked through.
proof fn lemma_over_closed(ms: Seq<Mark>, x: Seq<Mark>, depth: nat)
    requires
        closed(ms, depth),
    ensures
        template::end_at(ms + x, depth) == template::plus(
            template::end_at(x, 0),
            ms.len() as int,
        ),
        template::other_at(ms + x, depth) == template::plus(
            template::other_at(x, 0),
            ms.len() as int,
        ),
    decreases ms.len(),
{
    let all = ms + x;
    if ms.len() == 0 {
        assert(all =~= x);
    } else {
        let rest = ms.drop_first();
        assert(all[0] == ms[0]);
        assert(all.drop_first() =~= rest + x);
        let d = match ms[0] {
            Mark::Head(_, _) => depth + 1,
            Mark::End => (depth - 1) as nat,
            _ => depth,
        };
        lemma_over_closed(rest, x, d);
    }
}

/// A condition comes to the part of it that its own variable takes, whatever
/// conditions stand in its parts or behind it.
pub proof fn conditions_nest(
    whole: Seq<char>,
    name: Seq<char>,
    a: Seq<Mark>,
    b: Seq<Mark>,
    more: Seq<Mark>,
    vars: Map<Seq<char>, Seq<char>>,
)
    requires
        closed(a, 0),
        closed(b, 0),
    ensures
        template::decided(
            seq![Mark::Head(whole, name)] + (a + (seq![Mark::Other] + (b + (seq![Mark::End]
                + more)))),
            vars,
        ) == (if template::is_set(vars, name) {
            template::decided(a, vars)
        } else {
            template::decided(b, vars)
        }) + template::decided(more, vars),
        template::decided(seq![Mark::Head(whole, name)] + (a + (seq![Mark::End] + more)), vars) == (
        if template::is_set(vars, name) {
            template::decided(a, vars)
        } else {
            Seq::empty()
        }) + template::decided(more, vars),
{
    let head = seq![Mark::Head(whole, name)];
    let end = seq![Mark::End] + more;
    assert(end[0] is End);
    let n = a.len() as int;
    // Without an alternative.
    let rest = a + end;
    let one = head + rest;
    assert(one[0] == head[0]);
    assert(one.drop_first() =~= rest);
    lemma_over_closed(a, end, 0);
    assert(rest.take(n) =~= a);
    assert(rest.skip(n + 1) =~= more);
    lemma_over_closed(a, Seq::empty(), 0);
    assert(a + Seq::<Mark>::empty() =~= a);
    assert(template::other_at(a, 0) is None);
    assert(template::decided(Seq::empty(), vars) =~= Seq::empty());
    // With one.
    let second = seq![Mark::Other] + (b + end);
    let rest2 = a + second;
    let two = head + rest2;
    let body = a + (seq![Mark::Other] + b);
    let k = n + 1 + b.len();
    assert(two[0] == head[0]);
    assert(two.drop_first() =~= rest2);
    lemma_over_closed(a, second, 0);
    assert(second[0] is Other);
    assert(second.drop_first() =~= b + end);
    lemma_over_closed(b, end, 0);
    assert(rest2.take(k) =~= body);
    assert(rest2.skip(k + 1) =~= more);
    lemma_over_closed(a, seq![Mark::Other] + b, 0);
    assert((seq![Mark::Other] + b)[0] is Other);
    assert(body.take(n) =~= a);
    assert(body.skip(n + 1) =~= b);
}

// ---------------------------------------------------------------------------
// The marks of a text
// ---------------------------------------------------------------------------

/// The marks of `s` from position `i` on, with the text cut up.
pub open spec fn text_marks(s: Seq<char>, i: int) -> Seq<Mark>
    decreases s.len() - i,
{
    if i < 0 || i >= s.len() {
        Seq::empty()
    } else {
        match Pattern::IfMark.at(s, i) {
            Some(f) => if i < f.end <= s.len() {
                seq![template::mark_of(seq![Some(s.subrange(i, f.end))] + f.groups)] + text_marks(
                    s,
                    f.end,
                )
            } else {
                seq![Mark::Text(seq![s[i]])] + text_marks(s, i + 1)
            },
            None => seq![Mark::Text(seq![s[i]])] + text_marks(s, i + 1),
        }
    }
}

/// One match more in front.
proof fn lemma_marks_first(
    gap: Seq<char>,
    m: Seq<Option<Seq<char>>>,
    gaps: Seq<Seq<char>>,
    matches: Seq<Seq<Option<Seq<char>>>>,
    n: nat,
)
    requires
        n <= matches.len(),
        gaps.len() == matches.len() + 1,
    ensures
        template::marks_of(seq![m] + matches, seq![gap] + gaps, n + 1) == seq![
            Mark::Text(gap),
            template::mark_of(m),
        ] + template::marks_of(matches, gaps, n),
    decreases n,
{
    let ms = seq![m] + matches;
    let gs = seq![gap] + gaps;
    if n == 0 {
        assert(gs[0] == gap && gs[1] == gaps[0] && ms[0] == m);
        assert(template::marks_of(ms, gs, 0) == seq![Mark::Text(gap)]);
        assert(template::marks_of(ms, gs, 1) =~= seq![Mark::Text(gap), template::mark_of(m)]
            + template::marks_of(matches, gaps, 0));
    } else {
        lemma_marks_first(gap, m, gaps, matches, (n - 1) as nat);
        assert(ms[n as int] == matches[n - 1]);
        assert(gs[n as int + 1] == gaps[n as int]);
        assert(template::marks_of(ms, gs, n + 1) =~= seq![Mark::Text(gap), template::mark_of(m)]
            + template::marks_of(matches, gaps, n));
    }
}

/// The marks of a text, cut up.
proof fn lemma_marks_cut_up(s: Seq<char>, start: int, i: int)
    requires
        0 <= start <= i <= s.len(),
    ensures
        cut_up(
            template::marks_of(
                Pattern::IfMark.matches(s, i),
                Pattern::IfMark.gaps(s, start, i),
                Pattern::IfMark.matches(s, i).len(),
            ),
        ) == chars(s.subrange(start, i)) + text_marks(s, i),
    decreases s.len() - i,
{
    let p = Pattern::IfMark;
    if i >= s.len() {
        lemma_cut_up_one(Mark::Text(s.subrange(start, i)));
        assert(chars(s.subrange(start, i)) + text_marks(s, i) =~= chars(s.subrange(start, i)));
    } else {
        match p.at(s, i) {
            Some(found) if i < found.end <= s.len() => {
                let e = found.end;
                let rest = p.matches(s, e);
                let gap = s.subrange(start, i);
                let first = seq![Some(s.subrange(i, e))] + found.groups;
                let m = template::mark_of(first);
                crate::patterns::lemma_gaps_between(p, s, e, e);
                lemma_marks_first(gap, first, p.gaps(s, e, e), rest, rest.len());
                lemma_marks_cut_up(s, e, e);
                let later = template::marks_of(rest, p.gaps(s, e, e), rest.len());
                assert(seq![Mark::Text(gap), m] =~= seq![Mark::Text(gap)] + seq![m]);
                lemma_cut_up_concat(seq![Mark::Text(gap), m], later);
                lemma_cut_up_concat(seq![Mark::Text(gap)], seq![m]);
                lemma_cut_up_one(Mark::Text(gap));
                lemma_cut_up_one(m);
                assert(chars(s.subrange(e, e)) + text_marks(s, e) =~= text_marks(s, e));
                assert(chars(gap) + seq![m] + text_marks(s, e) =~= chars(gap) + text_marks(s, i));
            },
            _ => {
                lemma_marks_cut_up(s, start, i + 1);
                assert(chars(s.subrange(start, i + 1)) + text_marks(s, i + 1) =~= chars(
                    s.subrange(start, i),
                ) + text_marks(s, i));
            },
        }
    }
}

/// The conditions of a text are decided from its marks one after the other.
pub proof fn lemma_decided_text(s: Seq<char>, vars: Map<Seq<char>, Seq<char>>)
    ensures
        template::decided(template::marks_in(s), vars) == template::decided(
            text_marks(s, 0),
            vars,
        ),
{
    lemma_marks_cut_up(s, 0, 0);
    assert(chars(s.subrange(0, 0)) + text_marks(s, 0) =~= text_marks(s, 0));
    lemma_decided_cut_up(template::marks_in(s), vars);
}

/// A text that is put in front changes nothing in the marks of what follows.
pub proof fn lemma_marks_behind(front: Seq<char>, s: Seq<char>, i: int)
    requires
        0 <= i <= s.len(),
    ensures
        text_marks(front + s, front.len() + i) == text_marks(s, i),
    decreases s.len() - i,
{
    if i < s.len() {
        assert((front + s)[front.len() + i] == s[i]);
        template::lemma_mark_behind(front, s, i);
        match Pattern::IfMark.at(s, i) {
            Some(f) => {
                lemma_marks_behind(front, s, f.end);
                assert((front + s).subrange(front.len() + i, front.len() + f.end) =~= s.subrange(
                    i,
                    f.end,
                ));
            },
            None => {
                lemma_marks_behind(front, s, i + 1);
            },
        }
    }
}

/// Text without heads stays as it is.
pub proof fn lemma_no_heads(s: Seq<char>, i: int, vars: Map<Seq<char>, Seq<char>>)
    requires
        0 <= i <= s.len(),
        forall|j: int| i <= j < s.len() ==> !#[trigger] text::occurs_at(s, "{{#if"@, j),
    ensures
        template::decided(text_marks(s, i), vars) == s.subrange(i, s.len() as int),
    decreases s.len() - i,
{
    let ms = text_marks(s, i);
    if i < s.len() {
        assert(!text::occurs_at(s, "{{#if"@, i));
        template::lemma_mark_behind(Seq::empty(), s, i);
        match Pattern::IfMark.at(s, i) {
            Some(f) => {
                let whole = s.subrange(i, f.end);
                let first = seq![Some(whole)] + f.groups;
                reveal_strlit("{{else}}");
                reveal_strlit("{{/if}}");
                assert(f.groups == seq![None::<Seq<char>>] && (whole == "{{else}}"@ || whole
                    == "{{/if}}"@)) by {
                    reveal(Pattern::at);
                }
                assert(first[0] == Some(whole) && first[1] is None);
                lemma_no_heads(s, f.end, vars);
                assert(ms[0] == template::mark_of(first));
                assert(ms.drop_first() =~= text_marks(s, f.end));
                assert(whole + s.subrange(f.end, s.len() as int) =~= s.subrange(
                    i,
                    s.len() as int,
                ));
            },
            None => {
                lemma_no_heads(s, i + 1, vars);
                assert(ms[0] == Mark::Text(seq![s[i]]));
                assert(ms.drop_first() =~= text_marks(s, i + 1));
                assert(seq![s[i]] + s.subrange(i + 1, s.len() as int) =~= s.subrange(
                    i,
                    s.len() as int,
                ));
            },
        }
    }
}

} // verus!
