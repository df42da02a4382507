//! What the statements say: their words, the table that they are about, the columns
//! that they name, and which rows they make and find.
use vstd::prelude::*;

use crate::lines;
use crate::number;
use crate::storage;
use crate::storage::{BindingView, Statement};

verus! {

/// What a row of a table holds under the names of its columns.
pub type Row = Map<Seq<char>, BindingView>;

/// A word without the bracket before it and the comma or bracket behind it.
pub open spec fn bare(w: Seq<char>) -> Seq<char> {
    let a = if w.len() > 0 && w[0] == '(' {
        w.drop_first()
    } else {
        w
    };
    if a.len() > 0 && (a.last() == ',' || a.last() == ')') {
        a.drop_last()
    } else {
        a
    }
}

/// The first place of a word at or behind `from`, or the number of words.
pub open spec fn place(ws: Seq<Seq<char>>, w: Seq<char>, from: int) -> int
    decreases ws.len() - from,
{
    if from < 0 || from >= ws.len() {
        ws.len() as int
    } else if ws[from] == w {
        from
    } else {
        place(ws, w, from + 1)
    }
}

/// The names of a list in brackets.
pub open spec fn listed(ws: Seq<Seq<char>>) -> Seq<Seq<char>>
    decreases ws.len(),
{
    if ws.len() == 0 {
        Seq::empty()
    } else if ws[0].len() > 0 && ws[0].last() == ')' {
        seq![bare(ws[0])]
    } else {
        seq![bare(ws[0])] + listed(ws.drop_first())
    }
}

/// The columns with an equals sign and a question mark behind them.
pub open spec fn compared(ws: Seq<Seq<char>>) -> Seq<Seq<char>>
    decreases ws.len(),
{
    if ws.len() < 3 {
        Seq::empty()
    } else if ws[1] == "="@ && bare(ws[2]) == "?"@ {
        seq![unaliased(ws[0])] + compared(ws.skip(3))
    } else {
        compared(ws.skip(1))
    }
}

/// The name of a column without the alias of the table of memories.
pub open spec fn unaliased(c: Seq<char>) -> Seq<char> {
    if c.len() > 2 && c[0] == 'm' && c[1] == '.' {
        c.skip(2)
    } else {
        c
    }
}

/// What a statement says.
pub struct Reading {
    pub verb: Seq<char>,
    pub table: Seq<char>,
    /// The columns that an insertion fills, or that a look-up gives.
    pub columns: Seq<Seq<char>>,
    /// The columns that a change sets.
    pub sets: Seq<Seq<char>>,
    /// The columns that are compared with values.
    pub conditions: Seq<Seq<char>>,
    /// One of the comparisons is enough.
    pub either: bool,
    /// A row with the same key makes room.
    pub replaces: bool,
}

/// What the words of a statement say.
pub open spec fn read_words(ws: Seq<Seq<char>>) -> Reading {
    if ws[0] == "INSERT"@ {
        Reading {
            verb: ws[0],
            table: ws[4],
            columns: listed(ws.skip(5)),
            sets: Seq::empty(),
            conditions: Seq::empty(),
            either: false,
            replaces: ws[2] == "REPLACE"@,
        }
    } else {
        let w = place(ws, "WHERE"@, 0);
        let f = place(ws, "FROM"@, 0);
        let update = ws[0] == "UPDATE"@;
        Reading {
            verb: ws[0],
            table: if update {
                ws[1]
            } else {
                ws[f + 1]
            },
            columns: if update {
                Seq::empty()
            } else {
                ws.subrange(1, f).map_values(|c: Seq<char>| bare(c))
            },
            sets: compared(ws.take(w)),
            conditions: compared(ws.skip(w)),
            either: place(ws, "OR"@, 0) < ws.len(),
            replaces: false,
        }
    }
}

/// What a statement says.
pub open spec fn read(sql: Seq<char>) -> Reading {
    read_words(lines::words_of(sql))
}

/// The text that a value is compared by; none for what compares with nothing.
pub open spec fn shown(v: BindingView) -> Option<Seq<char>> {
    match v {
        BindingView::Text(t) => Some(t),
        BindingView::MaybeText(t) => t,
        BindingView::Int(n) => Some(number::signed_decimal(n)),
        BindingView::Blob(_) => None,
    }
}

/// The values are equal for a comparison.
pub open spec fn same(a: BindingView, b: BindingView) -> bool {
    shown(a) is Some && shown(a) == shown(b)
}

/// The row that an insertion makes: under the name of each column the value that is
/// bound at the column's place in the list.
pub open spec fn row_of(s: Statement) -> Row {
    let cs = read(s.sql@).columns;
    Map::new(
        |c: Seq<char>| cs.contains(c),
        |c: Seq<char>| storage::binding_views(s.bindings@)[place(cs, c, 0)],
    )
}

/// The row holds what is bound for the comparison at place `k`.
pub open spec fn holds(s: Statement, row: Row, k: int) -> bool {
    let rd = read(s.sql@);
    row.contains_key(rd.conditions[k]) && same(
        row[rd.conditions[k]],
        storage::binding_views(s.bindings@)[rd.sets.len() + k],
    )
}

/// The statement is about the row: all its comparisons hold, or where one of them is
/// enough, one of them.
pub open spec fn finds(s: Statement, row: Row) -> bool {
    let rd = read(s.sql@);
    if rd.either {
        exists|k: int| 0 <= k < rd.conditions.len() && #[trigger] holds(s, row, k)
    } else {
        forall|k: int| 0 <= k < rd.conditions.len() ==> #[trigger] holds(s, row, k)
    }
}

/// The row after a change.
pub open spec fn changed(s: Statement, row: Row) -> Row {
    let rd = read(s.sql@);
    Map::new(
        |c: Seq<char>| row.contains_key(c) || rd.sets.contains(c),
        |c: Seq<char>|
            if rd.sets.contains(c) {
                storage::binding_views(s.bindings@)[place(rd.sets, c, 0)]
            } else {
                row[c]
            },
    )
}

/// The row holds this value under this name.
pub open spec fn row_has(row: Row, column: Seq<char>, v: BindingView) -> bool {
    row.contains_key(column) && row[column] == v
}

// ---------------------------------------------------------------------------
// Places
// ---------------------------------------------------------------------------

/// Where names do not occur twice, each is at its own place.
pub proof fn lemma_place(ws: Seq<Seq<char>>, k: int, from: int)
    requires
        ws.no_duplicates(),
        0 <= from <= k < ws.len(),
    ensures
        place(ws, ws[k], from) == k,
    decreases k - from,
{
    if from < k {
        assert(ws[from] != ws[k]);
        lemma_place(ws, k, from + 1);
    }
}

/// The row that an insertion makes holds each value under the name at its place.
pub proof fn lemma_row(s: Statement, k: int)
    requires
        read(s.sql@).columns.no_duplicates(),
        0 <= k < read(s.sql@).columns.len(),
    ensures
        row_has(
            row_of(s),
            read(s.sql@).columns[k],
            storage::binding_views(s.bindings@)[k],
        ),
{
    let cs = read(s.sql@).columns;
    lemma_place(cs, k, 0);
    assert(cs.contains(cs[k]));
}

/// A change sets each value under the name at its place, and nothing else.
pub proof fn lemma_changed(s: Statement, row: Row)
    requires
        read(s.sql@).sets.no_duplicates(),
    ensures
        forall|k: int|
            0 <= k < read(s.sql@).sets.len() ==> row_has(
                changed(s, row),
                #[trigger] read(s.sql@).sets[k],
                storage::binding_views(s.bindings@)[k],
            ),
        forall|c: Seq<char>|
            !read(s.sql@).sets.contains(c) && row.contains_key(c) ==> #[trigger] row_has(
                changed(s, row),
                c,
                row[c],
            ),
{
    let cs = read(s.sql@).sets;
    assert forall|k: int| 0 <= k < cs.len() implies row_has(
        changed(s, row),
        #[trigger] cs[k],
        storage::binding_views(s.bindings@)[k],
    ) by {
        lemma_place(cs, k, 0);
        assert(cs.contains(cs[k]));
    }
}

// ---------------------------------------------------------------------------
// Statements with conditions behind them
// ---------------------------------------------------------------------------

/// The words of one condition more.
pub open spec fn one_more(c: Seq<char>) -> Seq<Seq<char>> {
    seq!["AND"@, c, "="@, "?"@]
}

/// The words of conditions, one behind the other.
pub open spec fn more(cs: Seq<Seq<char>>) -> Seq<Seq<char>>
    decreases cs.len(),
{
    if cs.len() == 0 {
        Seq::empty()
    } else {
        more(cs.drop_last()) + one_more(cs.last())
    }
}

/// The marks of a comparison.
pub proof fn lemma_marks()
    ensures
        "="@.len() == 1 && "="@[0] == '=',
        "?"@.len() == 1 && "?"@[0] == '?',
        "AND"@.len() == 3 && "AND"@[0] == 'A',
        bare("?"@) == "?"@,
        bare("AND"@) == "AND"@,
{
    reveal_strlit("=");
    reveal_strlit("?");
    reveal_strlit("AND");
    assert("?"@.last() == '?' && "AND"@.last() == 'D');
}

/// One condition more is one comparison more.
proof fn lemma_compared_one(a: Seq<Seq<char>>, c: Seq<char>)
    requires
        c != "="@,
    ensures
        compared(a + one_more(c)) == compared(a) + seq![unaliased(c)],
    decreases a.len(),
{
    lemma_marks();
    let ws = a + one_more(c);
    if a.len() == 0 {
        reveal_with_fuel(compared, 4);
        assert(ws =~= one_more(c));
        assert(compared(ws) =~= compared(a) + seq![unaliased(c)]);
    } else if a.len() < 3 {
        assert(ws.skip(1) =~= a.skip(1) + one_more(c));
        assert(compared(a.skip(1)) =~= compared(a));
        lemma_compared_one(a.skip(1), c);
        assert(!(ws[1] == "="@ && bare(ws[2]) == "?"@));
    } else {
        assert(ws[0] == a[0] && ws[1] == a[1] && ws[2] == a[2]);
        if a[1] == "="@ && bare(a[2]) == "?"@ {
            assert(ws.skip(3) =~= a.skip(3) + one_more(c));
            lemma_compared_one(a.skip(3), c);
            assert(compared(ws) =~= compared(a) + seq![unaliased(c)]);
        } else {
            assert(ws.skip(1) =~= a.skip(1) + one_more(c));
            lemma_compared_one(a.skip(1), c);
        }
    }
}

/// Conditions are comparisons of their columns.
pub proof fn lemma_compared_more(a: Seq<Seq<char>>, cs: Seq<Seq<char>>)
    requires
        !cs.contains("="@),
    ensures
        compared(a + more(cs)) == compared(a) + cs.map_values(|c: Seq<char>| unaliased(c)),
    decreases cs.len(),
{
    let f = |c: Seq<char>| unaliased(c);
    if cs.len() == 0 {
        assert(a + more(cs) =~= a);
        assert(compared(a) + cs.map_values(f) =~= compared(a));
    } else {
        let front = cs.drop_last();
        assert(!front.contains("="@)) by {
            if front.contains("="@) {
                let k = choose|k: int| 0 <= k < front.len() && front[k] == "="@;
                assert(cs[k] == "="@);
            }
        }
        assert(cs[cs.len() - 1] != "="@);
        lemma_compared_more(a, front);
        lemma_compared_one(a + more(front), cs.last());
        assert(a + more(cs) =~= a + more(front) + one_more(cs.last()));
        assert(cs.map_values(f) =~= front.map_values(f).push(unaliased(cs.last())));
        assert(compared(a) + front.map_values(f) + seq![unaliased(cs.last())] =~= compared(a)
            + cs.map_values(f));
    }
}

/// Words without an equals sign compare nothing.
pub proof fn lemma_compared_tail(a: Seq<Seq<char>>, t: Seq<Seq<char>>)
    requires
        !t.contains("="@),
        forall|i: int| 0 <= i < t.len() ==> bare(#[trigger] t[i]) != "?"@,
    ensures
        compared(a + t) == compared(a),
    decreases a.len() + t.len(),
{
    let ws = a + t;
    if ws.len() >= 3 {
        if a.len() == 0 {
            assert(ws =~= t);
            assert(t[1] != "="@);
            let rest = t.skip(1);
            assert(!rest.contains("="@)) by {
                if rest.contains("="@) {
                    let k = choose|k: int| 0 <= k < rest.len() && rest[k] == "="@;
                    assert(t[k + 1] == "="@);
                }
            }
            assert forall|i: int| 0 <= i < rest.len() implies bare(#[trigger] rest[i]) != "?"@ by {
                assert(rest[i] == t[i + 1]);
            }
            lemma_compared_tail(a, rest);
            assert(a + rest =~= ws.skip(1));
        } else if a.len() < 3 {
            if a.len() == 1 {
                assert(ws[1] == t[0]);
                assert(t.contains(t[0]));
            } else {
                assert(ws[2] == t[0]);
            }
            assert(ws.skip(1) =~= a.skip(1) + t);
            lemma_compared_tail(a.skip(1), t);
        } else {
            assert(ws[0] == a[0] && ws[1] == a[1] && ws[2] == a[2]);
            if a[1] == "="@ && bare(a[2]) == "?"@ {
                assert(ws.skip(3) =~= a.skip(3) + t);
                lemma_compared_tail(a.skip(3), t);
            } else {
                assert(ws.skip(1) =~= a.skip(1) + t);
                lemma_compared_tail(a.skip(1), t);
            }
        }
    }
}

/// A word that stands in a front is found there.
pub proof fn lemma_place_front(a: Seq<Seq<char>>, b: Seq<Seq<char>>, w: Seq<char>, from: int)
    requires
        0 <= from <= a.len(),
        place(a, w, from) < a.len(),
    ensures
        place(a + b, w, from) == place(a, w, from),
    decreases a.len() - from,
{
    assert((a + b)[from] == a[from]);
    if a[from] != w {
        lemma_place_front(a, b, w, from + 1);
    }
}

/// A word that does not stand among words is not found.
pub proof fn lemma_no_place(ws: Seq<Seq<char>>, w: Seq<char>, from: int)
    requires
        0 <= from,
        !ws.contains(w),
    ensures
        place(ws, w, from) == ws.len(),
    decreases ws.len() - from,
{
    if from < ws.len() {
        assert(ws.contains(ws[from]));
        lemma_no_place(ws, w, from + 1);
    }
}

/// The words of conditions are the columns and the marks between them.
pub proof fn lemma_more_words(cs: Seq<Seq<char>>, w: Seq<char>)
    requires
        more(cs).contains(w),
    ensures
        cs.contains(w) || w == "AND"@ || w == "="@ || w == "?"@,
    decreases cs.len(),
{
    let ws = more(cs);
    let k = choose|k: int| 0 <= k < ws.len() && ws[k] == w;
    if cs.len() > 0 {
        let front = more(cs.drop_last());
        if k < front.len() {
            assert(front[k] == w);
            lemma_more_words(cs.drop_last(), w);
            if cs.drop_last().contains(w) {
                let j = choose|j: int| 0 <= j < cs.drop_last().len() && cs.drop_last()[j] == w;
                assert(cs[j] == w);
            }
        } else {
            assert(one_more(cs.last())[k - front.len()] == w);
            assert(cs[cs.len() - 1] == cs.last());
        }
    }
}

/// What a look-up says that ends in conditions and words that compare nothing.
pub proof fn lemma_read_more(a: Seq<Seq<char>>, cs: Seq<Seq<char>>, t: Seq<Seq<char>>)
    requires
        a.len() > 0,
        a[0] == "SELECT"@,
        place(a, "FROM"@, 0) + 1 < a.len(),
        place(a, "FROM"@, 0) > 0,
        place(a, "WHERE"@, 0) < a.len(),
        !a.contains("OR"@),
        !cs.contains("OR"@),
        !cs.contains("="@),
        !t.contains("OR"@),
        !t.contains("="@),
        forall|i: int| 0 <= i < t.len() ==> bare(#[trigger] t[i]) != "?"@,
    ensures
        read_words(a + more(cs) + t) == (Reading {
            verb: "SELECT"@,
            table: a[place(a, "FROM"@, 0) + 1],
            columns: a.subrange(1, place(a, "FROM"@, 0)).map_values(|c: Seq<char>| bare(c)),
            sets: compared(a.take(place(a, "WHERE"@, 0))),
            conditions: compared(a.skip(place(a, "WHERE"@, 0))) + cs.map_values(
                |c: Seq<char>| unaliased(c),
            ),
            either: false,
            replaces: false,
        }),
{
    let b = more(cs) + t;
    let ws = a + more(cs) + t;
    assert(ws =~= a + b);
    lemma_place_front(a, b, "FROM"@, 0);
    lemma_place_front(a, b, "WHERE"@, 0);
    lemma_place_bound(a, "FROM"@, 0);
    lemma_place_bound(a, "WHERE"@, 0);
    let f = place(a, "FROM"@, 0);
    let w = place(a, "WHERE"@, 0);
    lemma_marks();
    reveal_strlit("SELECT");
    reveal_strlit("INSERT");
    reveal_strlit("UPDATE");
    reveal_strlit("OR");
    assert("SELECT"@[0] == 'S' && "INSERT"@[0] == 'I' && "UPDATE"@[0] == 'U');
    assert("OR"@.len() == 2);
    assert(ws.subrange(1, f) =~= a.subrange(1, f));
    assert(ws.take(w) =~= a.take(w));
    assert(ws.skip(w) =~= a.skip(w) + more(cs) + t);
    lemma_compared_more(a.skip(w), cs);
    lemma_compared_tail(a.skip(w) + more(cs), t);
    assert(!ws.contains("OR"@)) by {
        if ws.contains("OR"@) {
            let k = choose|k: int| 0 <= k < ws.len() && ws[k] == "OR"@;
            let m = more(cs);
            if k < a.len() {
                assert(a[k] == "OR"@);
            } else if k < a.len() + m.len() {
                assert(m[k - a.len()] == "OR"@);
                lemma_more_words(cs, "OR"@);
            } else {
                assert(t[k - a.len() - m.len()] == "OR"@);
            }
        }
    }
    lemma_no_place(ws, "OR"@, 0);
}

/// A place is not before where the search begins.
proof fn lemma_place_bound(ws: Seq<Seq<char>>, w: Seq<char>, from: int)
    requires
        0 <= from <= ws.len(),
    ensures
        from <= place(ws, w, from) <= ws.len(),
    decreases ws.len() - from,
{
    if from < ws.len() && ws[from] != w {
        lemma_place_bound(ws, w, from + 1);
    }
}

} // verus!
