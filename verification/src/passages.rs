//! Texts that hold other texts, one behind the other.
use vstd::prelude::*;

use crate::lines;
use crate::text;

verus! {

/// The passages stand in the text, one behind the other.
pub open spec fn in_order(t: Seq<char>, passages: Seq<Seq<char>>) -> bool
    decreases passages.len(),
{
    passages.len() == 0 || exists|i: int| #[trigger]
        text::occurs_at(t, passages.last(), i) && in_order(t.take(i), passages.drop_last())
}

/// The text is the passages one behind the other, with `sep` between each two, and
/// nothing else.
pub open spec fn spaced(t: Seq<char>, passages: Seq<Seq<char>>, sep: Seq<char>) -> bool
    decreases passages.len(),
{
    if passages.len() == 0 {
        t.len() == 0
    } else if passages.len() == 1 {
        t == passages[0]
    } else {
        let n = passages[0].len() + sep.len();
        &&& n <= t.len()
        &&& t.take(n as int) == passages[0] + sep
        &&& spaced(t.skip(n as int), passages.drop_first(), sep)
    }
}

/// What stands in a text stands in a longer one.
pub proof fn lemma_has(a: Seq<char>, t: Seq<char>, b: Seq<char>, p: Seq<char>)
    requires
        text::has(t, p),
    ensures
        text::has(a + t + b, p),
{
    let i = choose|i: int| #[trigger] text::occurs_at(t, p, i);
    let w = a + t + b;
    assert(w.subrange(a.len() + i, a.len() + i + p.len()) =~= t.subrange(i, i + p.len()));
    assert(text::occurs_at(w, p, a.len() + i));
}

/// A text stands in itself between others.
pub proof fn lemma_stands(a: Seq<char>, p: Seq<char>, b: Seq<char>)
    ensures
        text::has(a + p + b, p),
        text::occurs_at(a + p + b, p, a.len() as int),
{
    let w = a + p + b;
    assert(w.subrange(a.len() as int, a.len() as int + p.len()) =~= p);
    assert(text::occurs_at(w, p, a.len() as int));
}

/// What stands in a passage of a text stands in the text.
pub proof fn lemma_has_through(t: Seq<char>, q: Seq<char>, p: Seq<char>)
    requires
        text::has(t, q),
        text::has(q, p),
    ensures
        text::has(t, p),
{
    let i = choose|i: int| #[trigger] text::occurs_at(t, q, i);
    let a = t.take(i);
    let b = t.skip(i + q.len());
    assert(t =~= a + q + b);
    lemma_has(a, q, b, p);
}

/// Passages that stand in a text stand in a longer one.
pub proof fn lemma_in_order(a: Seq<char>, t: Seq<char>, b: Seq<char>, passages: Seq<Seq<char>>)
    requires
        in_order(t, passages),
    ensures
        in_order(a + t + b, passages),
    decreases passages.len(),
{
    if passages.len() > 0 {
        let p = passages.last();
        let i = choose|i: int| #[trigger]
            text::occurs_at(t, p, i) && in_order(t.take(i), passages.drop_last());
        let w = a + t + b;
        let k = a.len() + i;
        lemma_in_order(a, t.take(i), Seq::empty(), passages.drop_last());
        assert(w.take(k) =~= a + t.take(i) + Seq::<char>::empty());
        assert(w.subrange(k, k + p.len()) =~= t.subrange(i, i + p.len()));
        assert(text::occurs_at(w, p, k));
    }
}

/// Passages that stand in a passage of a text stand in the text.
pub proof fn lemma_in_order_through(t: Seq<char>, q: Seq<char>, passages: Seq<Seq<char>>)
    requires
        text::has(t, q),
        in_order(q, passages),
    ensures
        in_order(t, passages),
{
    let i = choose|i: int| #[trigger] text::occurs_at(t, q, i);
    let a = t.take(i);
    let b = t.skip(i + q.len());
    assert(t =~= a + q + b);
    lemma_in_order(a, q, b, passages);
}

/// Each of the passages stands in the text.
pub proof fn lemma_each(t: Seq<char>, passages: Seq<Seq<char>>, i: int)
    requires
        in_order(t, passages),
        0 <= i < passages.len(),
    ensures
        text::has(t, passages[i]),
    decreases passages.len(),
{
    let k = choose|k: int| #[trigger]
        text::occurs_at(t, passages.last(), k) && in_order(t.take(k), passages.drop_last());
    if i < passages.len() - 1 {
        lemma_each(t.take(k), passages.drop_last(), i);
        assert(passages.drop_last()[i] == passages[i]);
        assert(t =~= Seq::<char>::empty() + t.take(k) + t.skip(k));
        lemma_has(Seq::empty(), t.take(k), t.skip(k), passages[i]);
    }
}

/// Texts that stand in passages stand one behind the other where the passages do.
pub proof fn lemma_within(t: Seq<char>, wholes: Seq<Seq<char>>, passages: Seq<Seq<char>>)
    requires
        in_order(t, wholes),
        wholes.len() == passages.len(),
        forall|i: int| 0 <= i < wholes.len() ==> text::has(#[trigger] wholes[i], passages[i]),
    ensures
        in_order(t, passages),
    decreases wholes.len(),
{
    if wholes.len() > 0 {
        let n = wholes.len() - 1;
        let k = choose|k: int| #[trigger]
            text::occurs_at(t, wholes.last(), k) && in_order(t.take(k), wholes.drop_last());
        let p = passages.last();
        assert(text::has(wholes[n], passages[n]));
        let j = choose|j: int| #[trigger] text::occurs_at(wholes.last(), p, j);
        assert forall|i: int| 0 <= i < wholes.drop_last().len() implies text::has(
            #[trigger] wholes.drop_last()[i],
            passages.drop_last()[i],
        ) by {
            assert(wholes.drop_last()[i] == wholes[i]);
        }
        lemma_within(t.take(k), wholes.drop_last(), passages.drop_last());
        let w = wholes.last();
        assert(t.subrange(k, k + w.len()) == w);
        assert(t.subrange(k + j, k + j + p.len()) =~= w.subrange(j, j + p.len()));
        assert(text::occurs_at(t, p, k + j));
        lemma_in_order(
            Seq::empty(),
            t.take(k),
            t.subrange(k, k + j),
            passages.drop_last(),
        );
        assert(t.take(k + j) =~= Seq::<char>::empty() + t.take(k) + t.subrange(k, k + j));
    }
}

/// The first of the parts that are joined stands first.
pub proof fn lemma_joined_first(parts: Seq<Seq<char>>, sep: Seq<char>)
    requires
        parts.len() > 1,
    ensures
        lines::joined(parts, sep) == parts[0] + sep + lines::joined(parts.drop_first(), sep),
    decreases parts.len(),
{
    let front = parts.drop_last();
    let rest = parts.drop_first();
    assert(rest.last() == parts.last());
    if parts.len() == 2 {
        assert(lines::joined(front, sep) == front[0]);
        assert(lines::joined(rest, sep) == rest[0]);
    } else {
        lemma_joined_first(front, sep);
        let middle = front.drop_first();
        assert(middle =~= rest.drop_last());
        assert(lines::joined(rest, sep) == lines::joined(middle, sep) + sep + rest.last());
        assert(lines::joined(parts, sep) == parts[0] + sep + lines::joined(middle, sep) + sep
            + parts.last());
    }
    assert(lines::joined(parts, sep) =~= parts[0] + sep + lines::joined(rest, sep));
}

/// Parts that are joined stand one behind the other, with nothing but what is put
/// between them.
pub proof fn lemma_joined(parts: Seq<Seq<char>>, sep: Seq<char>)
    ensures
        in_order(lines::joined(parts, sep), parts),
        spaced(lines::joined(parts, sep), parts, sep),
    decreases parts.len(),
{
    let t = lines::joined(parts, sep);
    if parts.len() == 1 {
        assert(t.subrange(0, t.len() as int) =~= t);
        assert(text::occurs_at(t, parts.last(), 0));
        assert(in_order(t.take(0), parts.drop_last()));
    } else if parts.len() > 1 {
        let front = lines::joined(parts.drop_last(), sep);
        lemma_joined(parts.drop_last(), sep);
        let k = front.len() + sep.len();
        lemma_in_order(Seq::empty(), front, sep, parts.drop_last());
        assert(t.take(k as int) =~= Seq::<char>::empty() + front + sep);
        assert(t.subrange(k as int, k as int + parts.last().len()) =~= parts.last());
        assert(text::occurs_at(t, parts.last(), k as int));
        lemma_joined_first(parts, sep);
        lemma_joined(parts.drop_first(), sep);
        let n = (parts[0].len() + sep.len()) as int;
        assert(t.take(n) =~= parts[0] + sep);
        assert(t.skip(n) =~= lines::joined(parts.drop_first(), sep));
    }
}

/// A text between others is one passage of the whole.
pub proof fn lemma_single(a: Seq<char>, p: Seq<char>, b: Seq<char>)
    ensures
        in_order(a + p + b, seq![p]),
{
    lemma_stands(a, p, b);
    assert(text::occurs_at(a + p + b, seq![p].last(), a.len() as int));
    assert(in_order((a + p + b).take(a.len() as int), seq![p].drop_last()));
}

/// Two passages stand one behind the other between others.
pub proof fn lemma_two(
    a: Seq<char>,
    p: Seq<char>,
    b: Seq<char>,
    q: Seq<char>,
    c: Seq<char>,
)
    ensures
        in_order(a + p + b + q + c, seq![p, q]),
{
    let t = a + p + b + q + c;
    let k = (a + p + b).len() as int;
    lemma_single(a, p, b);
    assert(t.take(k) =~= a + p + b);
    assert(t.subrange(k, k + q.len()) =~= q);
    assert(seq![p, q].drop_last() =~= seq![p]);
    assert(text::occurs_at(t, seq![p, q].last(), k));
}

/// A passage behind those that stand in a text stands behind them.
pub proof fn lemma_behind(t: Seq<char>, passages: Seq<Seq<char>>, b: Seq<char>, p: Seq<char>)
    requires
        in_order(t, passages),
    ensures
        in_order(t + b + p, passages.push(p)),
{
    let w = t + b + p;
    let k = (t + b).len() as int;
    lemma_in_order(Seq::empty(), t, b, passages);
    assert(Seq::<char>::empty() + t + b =~= w.take(k));
    assert(w.subrange(k, k + p.len()) =~= p);
    assert(passages.push(p).drop_last() =~= passages);
    assert(text::occurs_at(w, passages.push(p).last(), k));
}

} // verus!
