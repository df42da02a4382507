//! Splitting text into lines and words, joining it again, and letter case.
use vstd::prelude::*;

use crate::text;

verus! {

// ---------------------------------------------------------------------------
// Joining
// ---------------------------------------------------------------------------

/// The parts in order, with `sep` between each two of them.
pub open spec fn joined(parts: Seq<Seq<char>>, sep: Seq<char>) -> Seq<char>
    decreases parts.len(),
{
    if parts.len() == 0 {
        Seq::empty()
    } else if parts.len() == 1 {
        parts[0]
    } else {
        joined(parts.drop_last(), sep) + sep + parts.last()
    }
}

/// The parts in order, with `sep` between each two of them.
pub fn join(parts: &Vec<String>, sep: &str) -> (r: String)
    ensures
        r@ == joined(text::texts(parts@), sep@),
{
    let mut out = String::new();
    let mut i: usize = 0;
    let ghost all = text::texts(parts@);
    assert(all.take(0) =~= Seq::<Seq<char>>::empty());
    while i < parts.len()
        invariant
            i <= parts@.len(),
            all == text::texts(parts@),
            out@ == joined(all.take(i as int), sep@),
        decreases parts.len() - i,
    {
        proof {
            assert(all.take(i + 1).drop_last() =~= all.take(i as int));
            assert(all.take(i + 1).last() == parts@[i as int]@);
        }
        if i > 0 {
            out.append(sep);
        }
        out.append(parts[i].as_str());
        proof {
            if i == 0 {
                assert(Seq::<char>::empty() + parts@[0]@ =~= parts@[0]@);
            }
        }
        i = i + 1;
    }
    assert(all.take(parts@.len() as int) =~= all);
    out
}

// ---------------------------------------------------------------------------
// Lines
// ---------------------------------------------------------------------------

/// The position of the first `c` in `s` at or after `from`, or `s.len()`.
pub open spec fn index_of(s: Seq<char>, c: char, from: int) -> int
    decreases s.len() - from,
{
    if from < 0 || from >= s.len() {
        s.len() as int
    } else if s[from] == c {
        from
    } else {
        index_of(s, c, from + 1)
    }
}

/// `index_of` is the least position that holds `c`.
pub proof fn lemma_index_of(s: Seq<char>, c: char, from: int)
    requires
        0 <= from <= s.len(),
    ensures
        from <= index_of(s, c, from) <= s.len(),
        index_of(s, c, from) < s.len() ==> s[index_of(s, c, from)] == c,
        forall|j: int| from <= j < index_of(s, c, from) ==> s[j] != c,
    decreases s.len() - from,
{
    if from < s.len() && s[from] != c {
        lemma_index_of(s, c, from + 1);
    }
}

/// The least position that holds `c` is what `index_of` gives.
pub proof fn lemma_index_of_is(s: Seq<char>, c: char, from: int, k: int)
    requires
        0 <= from <= k <= s.len(),
        k < s.len() ==> s[k] == c,
        forall|j: int| from <= j < k ==> s[j] != c,
    ensures
        index_of(s, c, from) == k,
{
    lemma_index_of(s, c, from);
}

/// `s` without one carriage return at its end.
pub open spec fn without_cr(s: Seq<char>) -> Seq<char> {
    if s.len() > 0 && s.last() == '\r' {
        s.drop_last()
    } else {
        s
    }
}

/// The lines of `s`: each ends at a line feed, or at a carriage return and a
/// line feed, and what follows the last line feed is a line unless it is empty.
pub open spec fn lines_of(s: Seq<char>) -> Seq<Seq<char>>
    decreases s.len(),
{
    if s.len() == 0 {
        Seq::empty()
    } else {
        let i = index_of(s, '\n', 0);
        if 0 <= i < s.len() {
            seq![without_cr(s.subrange(0, i))] + lines_of(s.subrange(i + 1, s.len() as int))
        } else {
            seq![s]
        }
    }
}

/// The position of the first `c` in `cs` at or after `from`, or the length.
pub fn index_from(cs: &Vec<char>, c: char, from: usize) -> (r: usize)
    requires
        from <= cs@.len(),
    ensures
        r == index_of(cs@, c, from as int),
        from <= r <= cs@.len(),
        r < cs@.len() ==> cs@[r as int] == c,
        forall|j: int| from <= j < r ==> cs@[j] != c,
{
    let mut i: usize = from;
    while i < cs.len() && cs[i] != c
        invariant
            from <= i <= cs@.len(),
            forall|j: int| from <= j < i ==> cs@[j] != c,
        decreases cs.len() - i,
    {
        i = i + 1;
    }
    proof {
        lemma_index_of_is(cs@, c, from as int, i as int);
    }
    i
}

/// The lines of `s`.
pub fn lines(s: &str) -> (r: Vec<String>)
    ensures
        text::texts(r@) == lines_of(s@),
{
    let cs = text::chars_of(s);
    let mut out: Vec<String> = Vec::new();
    let mut a: usize = 0;
    assert(s@.subrange(0, s@.len() as int) =~= s@);
    assert(text::texts(out@) + lines_of(s@) =~= lines_of(s@));
    while a < cs.len()
        invariant
            a <= cs@.len(),
            cs@ == s@,
            lines_of(s@) == text::texts(out@) + lines_of(s@.subrange(a as int, s@.len() as int)),
        decreases cs.len() - a,
    {
        let ghost t = s@.subrange(a as int, s@.len() as int);
        let i = index_from(&cs, '\n', a);
        proof {
            assert forall|j: int| 0 <= j < i - a implies t[j] != '\n' by {
                assert(t[j] == s@[j + a]);
            }
            lemma_index_of_is(t, '\n', 0, i - a);
        }
        let ghost before = out@;
        if i < cs.len() {
            let b: usize = if i > a && cs[i - 1] == '\r' {
                i - 1
            } else {
                i
            };
            let line = text::text_between(&cs, a, b);
            proof {
                let head = t.subrange(0, i - a);
                assert(head =~= s@.subrange(a as int, i as int));
                if i > a {
                    assert(head.last() == s@[i - 1]);
                    assert(head.drop_last() =~= s@.subrange(a as int, i - 1));
                }
                assert(line@ == without_cr(head));
                assert(t.subrange(i - a + 1, t.len() as int) =~= s@.subrange(
                    i + 1,
                    s@.len() as int,
                ));
            }
            out.push(line);
            proof {
                let rest = lines_of(s@.subrange(i + 1, s@.len() as int));
                assert(text::texts(out@) =~= text::texts(before).push(line@));
                assert(text::texts(before) + (seq![line@] + rest) =~= text::texts(before).push(line@) + rest);
            }
            a = i + 1;
        } else {
            let line = text::text_between(&cs, a, cs.len());
            out.push(line);
            proof {
                assert(line@ =~= t);
                assert(text::texts(out@) =~= text::texts(before).push(line@));
                assert(text::texts(before) + seq![line@] =~= text::texts(before).push(line@));
            }
            a = cs.len();
            assert(s@.subrange(a as int, s@.len() as int).len() == 0);
            assert(text::texts(out@) + lines_of(s@.subrange(a as int, s@.len() as int)) =~= text::texts(out@));
        }
    }
    assert(text::texts(out@) + lines_of(s@.subrange(a as int, s@.len() as int)) =~= text::texts(out@));
    out
}

// ---------------------------------------------------------------------------
// Words
// ---------------------------------------------------------------------------

/// The length of the longest prefix of `s` whose characters are white space
/// (`w`) or are not (`!w`).
pub open spec fn run_len(s: Seq<char>, w: bool) -> nat
    decreases s.len(),
{
    if s.len() > 0 && text::white(s[0]) == w {
        1 + run_len(s.drop_first(), w)
    } else {
        0
    }
}

/// `run_len` is where the run ends.
pub proof fn lemma_run_len(s: Seq<char>, w: bool)
    ensures
        run_len(s, w) <= s.len(),
        forall|j: int| 0 <= j < run_len(s, w) ==> text::white(#[trigger] s[j]) == w,
        run_len(s, w) < s.len() ==> text::white(s[run_len(s, w) as int]) != w,
    decreases s.len(),
{
    if s.len() > 0 && text::white(s[0]) == w {
        let t = s.drop_first();
        lemma_run_len(t, w);
        assert forall|j: int| 0 <= j < run_len(s, w) implies text::white(#[trigger] s[j]) == w by {
            if j > 0 {
                assert(t[j - 1] == s[j]);
            }
        }
        if run_len(s, w) < s.len() {
            assert(t[run_len(t, w) as int] == s[run_len(s, w) as int]);
        }
    }
}

/// Where the run ends is `run_len`.
pub proof fn lemma_run_len_is(s: Seq<char>, w: bool, k: int)
    requires
        0 <= k <= s.len(),
        forall|j: int| 0 <= j < k ==> text::white(#[trigger] s[j]) == w,
        k < s.len() ==> text::white(s[k]) != w,
    ensures
        run_len(s, w) == k,
{
    lemma_run_len(s, w);
    let r = run_len(s, w) as int;
    if r < k {
        assert(text::white(s[r]) == w);
    } else if r > k {
        assert(text::white(s[k]) == w);
    }
}

/// The words of `s`: its longest stretches without white space, in order.
pub open spec fn words_of(s: Seq<char>) -> Seq<Seq<char>>
    decreases s.len(),
{
    let t = s.skip(run_len(s, true) as int);
    let n = run_len(t, false) as int;
    if run_len(s, true) <= s.len() && 0 < n <= t.len() {
        seq![t.take(n)] + words_of(t.skip(n))
    } else {
        Seq::empty()
    }
}

/// A run of white space, or of anything else, that a text behind it does not make
/// longer.
proof fn lemma_run_before(a: Seq<char>, x: Seq<char>, w: bool)
    requires
        run_len(a, w) < a.len() || (x.len() > 0 && text::white(x[0]) != w),
    ensures
        run_len(a + x, w) == run_len(a, w),
{
    lemma_run_len(a, w);
    let k = run_len(a, w) as int;
    assert forall|j: int| 0 <= j < k implies text::white(#[trigger] (a + x)[j]) == w by {
        assert((a + x)[j] == a[j]);
    }
    if k < a.len() {
        assert((a + x)[k] == a[k]);
    } else {
        assert((a + x)[k] == x[0]);
    }
    lemma_run_len_is(a + x, w, k);
}

/// The words on both sides of a space are the words of the whole.
pub proof fn lemma_words_at_space(a: Seq<char>, b: Seq<char>)
    ensures
        words_of(a + seq![' '] + b) == words_of(a) + words_of(b),
    decreases a.len(),
{
    let x = seq![' '] + b;
    let s = a + seq![' '] + b;
    assert(s =~= a + x);
    lemma_run_len(a, true);
    let k = run_len(a, true) as int;
    if k >= a.len() {
        lemma_run_len(b, true);
        let m = run_len(b, true) as int;
        let e = a.len() + 1 + m;
        assert forall|j: int| 0 <= j < e implies text::white(#[trigger] s[j]) by {
            if j < a.len() {
                assert(s[j] == a[j]);
            } else if j > a.len() {
                assert(s[j] == b[j - a.len() - 1]);
            }
        }
        if m < b.len() {
            assert(s[e] == b[m]);
        }
        lemma_run_len_is(s, true, e);
        assert(s.skip(e) =~= b.skip(m));
        lemma_run_len(a.skip(k), false);
        assert(words_of(a) =~= Seq::<Seq<char>>::empty());
        assert(words_of(a) + words_of(b) =~= words_of(b));
    } else {
        lemma_run_before(a, x, true);
        let t = a.skip(k);
        assert(s.skip(k) =~= t + x);
        lemma_run_len(t, false);
        assert(t[0] == a[k]);
        let n = run_len(t, false) as int;
        assert(n > 0);
        lemma_run_before(t, x, false);
        assert((t + x).take(n) =~= t.take(n));
        assert((t + x).skip(n) =~= t.skip(n) + seq![' '] + b);
        lemma_words_at_space(t.skip(n), b);
        assert(seq![t.take(n)] + (words_of(t.skip(n)) + words_of(b)) =~= words_of(a) + words_of(b));
    }
}

/// A word is not empty, holds no white space, and is made of characters of the
/// text.
pub proof fn lemma_word(s: Seq<char>, i: int)
    requires
        0 <= i < words_of(s).len(),
    ensures
        words_of(s)[i].len() > 0,
        forall|j: int|
            0 <= j < words_of(s)[i].len() ==> !text::white(#[trigger] words_of(s)[i][j])
                && s.contains(words_of(s)[i][j]),
    decreases s.len(),
{
    lemma_run_len(s, true);
    let k = run_len(s, true) as int;
    let t = s.skip(k);
    lemma_run_len(t, false);
    let n = run_len(t, false) as int;
    let w = words_of(s)[i];
    if i == 0 {
        assert(w == t.take(n));
        assert forall|j: int| 0 <= j < w.len() implies !text::white(#[trigger] w[j]) && s.contains(
            w[j],
        ) by {
            assert(w[j] == t[j]);
            assert(s[k + j] == w[j]);
        }
    } else {
        let rest = t.skip(n);
        lemma_word(rest, i - 1);
        assert(w == words_of(rest)[i - 1]);
        assert forall|j: int| 0 <= j < w.len() implies !text::white(#[trigger] w[j]) && s.contains(
            w[j],
        ) by {
            assert(rest.contains(words_of(rest)[i - 1][j]));
            let q = choose|q: int| 0 <= q < rest.len() && rest[q] == w[j];
            assert(s[k + n + q] == w[j]);
        }
    }
}

/// A text without white space is one word.
proof fn lemma_one_word(w: Seq<char>)
    requires
        w.len() > 0,
        forall|j: int| 0 <= j < w.len() ==> !text::white(#[trigger] w[j]),
    ensures
        words_of(w) == seq![w],
{
    lemma_run_len_is(w, true, 0);
    assert(w.skip(0) =~= w);
    lemma_run_len_is(w, false, w.len() as int);
    assert(w.take(w.len() as int) =~= w);
    let e = w.skip(w.len() as int);
    lemma_run_len(e, true);
    lemma_run_len(e.skip(run_len(e, true) as int), false);
    assert(words_of(e) =~= Seq::<Seq<char>>::empty());
    assert(seq![w] + words_of(e) =~= seq![w]);
}

/// Words with spaces between them are read back.
pub proof fn lemma_words_joined(ws: Seq<Seq<char>>)
    requires
        forall|i: int| 0 <= i < ws.len() ==> (#[trigger] ws[i]).len() > 0,
        forall|i: int, j: int|
            0 <= i < ws.len() && 0 <= j < ws[i].len() ==> !text::white(#[trigger] ws[i][j]),
    ensures
        words_of(joined(ws, seq![' '])) == ws,
    decreases ws.len(),
{
    if ws.len() == 0 {
        let e = joined(ws, seq![' ']);
        lemma_run_len(e, true);
        lemma_run_len(e.skip(run_len(e, true) as int), false);
        assert(words_of(e) =~= ws);
    } else {
        assert(ws[ws.len() - 1].len() > 0);
        lemma_one_word(ws.last());
        if ws.len() == 1 {
            assert(seq![ws[0]] =~= ws);
        } else {
            let front = ws.drop_last();
            assert forall|i: int| 0 <= i < front.len() implies (#[trigger] front[i]).len() > 0 by {
                assert(front[i] == ws[i]);
            }
            lemma_words_joined(front);
            lemma_words_at_space(joined(front, seq![' ']), ws.last());
            assert(front + seq![ws.last()] =~= ws);
        }
    }
}

/// The words of `s`.
pub fn words(s: &str) -> (r: Vec<String>)
    ensures
        text::texts(r@) == words_of(s@),
{
    let cs = text::chars_of(s);
    let mut out: Vec<String> = Vec::new();
    let mut a: usize = 0;
    assert(s@.skip(0) =~= s@);
    assert(text::texts(out@) + words_of(s@) =~= words_of(s@));
    loop
        invariant
            a <= cs@.len(),
            cs@ == s@,
            words_of(s@) == text::texts(out@) + words_of(s@.skip(a as int)),
        decreases cs.len() - a,
    {
        let ghost u = s@.skip(a as int);
        let mut b: usize = a;
        while b < cs.len() && text::is_white(cs[b])
            invariant
                a <= b <= cs@.len(),
                cs@ == s@,
                forall|j: int| a <= j < b ==> text::white(#[trigger] s@[j]),
            decreases cs.len() - b,
        {
            b = b + 1;
        }
        proof {
            assert forall|j: int| 0 <= j < b - a implies text::white(#[trigger] u[j]) == true by {
                assert(u[j] == s@[j + a]);
            }
            lemma_run_len_is(u, true, b - a);
            assert(u.skip(b - a) =~= s@.skip(b as int));
        }
        let ghost t = s@.skip(b as int);
        let mut c: usize = b;
        while c < cs.len() && !text::is_white(cs[c])
            invariant
                b <= c <= cs@.len(),
                cs@ == s@,
                forall|j: int| b <= j < c ==> !text::white(#[trigger] s@[j]),
            decreases cs.len() - c,
        {
            c = c + 1;
        }
        proof {
            assert forall|j: int| 0 <= j < c - b implies text::white(#[trigger] t[j]) == false by {
                assert(t[j] == s@[j + b]);
            }
            lemma_run_len_is(t, false, c - b);
        }
        if c == b {
            assert(text::texts(out@) + Seq::<Seq<char>>::empty() =~= text::texts(out@));
            return out;
        }
        let word = text::text_between(&cs, b, c);
        let ghost before = out@;
        out.push(word);
        proof {
            assert(t.take(c - b) =~= word@);
            assert(t.skip(c - b) =~= s@.skip(c as int));
            let rest = words_of(s@.skip(c as int));
            assert(text::texts(out@) =~= text::texts(before).push(word@));
            assert(text::texts(before) + (seq![word@] + rest) =~= text::texts(before).push(word@) + rest);
        }
        a = c;
    }
}

// ---------------------------------------------------------------------------
// ASCII letter case
// ---------------------------------------------------------------------------

/// `c`, an ASCII capital made small.
pub open spec fn lower(c: char) -> char {
    if 'A' <= c <= 'Z' {
        (c as u32 + 32) as char
    } else {
        c
    }
}

/// `s` is made of ASCII characters.
pub open spec fn ascii(s: Seq<char>) -> bool {
    forall|i: int| 0 <= i < s.len() ==> (#[trigger] s[i] as u32) < 128
}

/// `s` with its ASCII capitals made small.
pub open spec fn lowered(s: Seq<char>) -> Seq<char> {
    s.map_values(|c: char| lower(c))
}

/// `s` with its small ASCII letters made capitals.
pub open spec fn uppered(s: Seq<char>) -> Seq<char> {
    s.map_values(|c: char| upper(c))
}

/// `c`, a small ASCII letter made a capital.
pub open spec fn upper(c: char) -> char {
    if 'a' <= c <= 'z' {
        (c as u32 - 32) as char
    } else {
        c
    }
}

/// An ASCII letter or digit.
pub open spec fn alnum(c: char) -> bool {
    'a' <= c <= 'z' || 'A' <= c <= 'Z' || '0' <= c <= '9'
}

/// Whether `c` is an ASCII letter or digit.
pub fn is_alnum(c: char) -> (r: bool)
    ensures
        r == alnum(c),
{
    ('a' <= c && c <= 'z') || ('A' <= c && c <= 'Z') || ('0' <= c && c <= '9')
}

/// `c`, an ASCII capital made small.
pub fn to_lower(c: char) -> (r: char)
    ensures
        r == lower(c),
{
    if 'A' <= c && c <= 'Z' {
        let b: u8 = c as u8;
        (b + 32) as char
    } else {
        c
    }
}

/// `c`, a small ASCII letter made a capital.
pub fn to_upper(c: char) -> (r: char)
    ensures
        r == upper(c),
{
    if 'a' <= c && c <= 'z' {
        let b: u8 = c as u8;
        (b - 32) as char
    } else {
        c
    }
}

/// `a` and `b` are equal but for the case of ASCII letters.
pub open spec fn same_ignoring_case(a: Seq<char>, b: Seq<char>) -> bool {
    a.map_values(|c: char| lower(c)) == b.map_values(|c: char| lower(c))
}

/// Whether `a` and `b` are equal but for the case of ASCII letters.
pub fn eq_ignore_ascii_case(a: &str, b: &str) -> (r: bool)
    ensures
        r == same_ignoring_case(a@, b@),
{
    let x = text::chars_of(a);
    let y = text::chars_of(b);
    let ghost lx = x@.map_values(|c: char| lower(c));
    let ghost ly = y@.map_values(|c: char| lower(c));
    if x.len() != y.len() {
        assert(lx.len() != ly.len());
        return false;
    }
    let mut i: usize = 0;
    while i < x.len()
        invariant
            i <= x@.len(),
            x@.len() == y@.len(),
            lx == x@.map_values(|c: char| lower(c)),
            ly == y@.map_values(|c: char| lower(c)),
            forall|j: int| 0 <= j < i ==> lx[j] == ly[j],
            x@ == a@,
            y@ == b@,
        decreases x.len() - i,
    {
        if to_lower(x[i]) != to_lower(y[i]) {
            assert(lx[i as int] != ly[i as int]);
            return false;
        }
        i = i + 1;
    }
    assert(lx =~= ly);
    true
}

/// A line ends where a line feed stands, with or without a carriage return before it, and
/// the lines behind it are those of what follows. A text without line feeds is one line.
pub proof fn lines_end_at_line_feeds(line: Seq<char>, rest: Seq<char>)
    requires
        !line.contains('\n'),
    ensures
        line.len() == 0 || line.last() != '\r' ==> lines_of(line + seq!['\n'] + rest) == seq![line]
            + lines_of(rest),
        lines_of(line + seq!['\r', '\n'] + rest) == seq![line] + lines_of(rest),
        line.len() > 0 ==> lines_of(line) == seq![line],
{
    let s = line + seq!['\n'] + rest;
    let n = line.len() as int;
    assert forall|j: int| 0 <= j < n implies line[j] != '\n' by {
        assert(line.contains(line[j]));
    }
    lemma_index_of_is(s, '\n', 0, n);
    assert(s.subrange(0, n) =~= line);
    assert(s.subrange(n + 1, s.len() as int) =~= rest);
    let t = line + seq!['\r', '\n'] + rest;
    lemma_index_of_is(t, '\n', 0, n + 1);
    assert(t.subrange(0, n + 1) =~= line.push('\r'));
    assert(line.push('\r').drop_last() =~= line);
    assert(t.subrange(n + 2, t.len() as int) =~= rest);
    if n > 0 {
        lemma_index_of_is(line, '\n', 0, n);
    }
}

} // verus!
