//! Text as sequences of characters: the string operations the library is
//! written with, each with its meaning over `Seq<char>`.
use vstd::prelude::*;
use vstd::utf8::*;

verus! {

/// `String::push` appends one character.
pub assume_specification[ String::push ](s: &mut String, c: char)
    ensures
        final(s)@ == old(s)@.push(c),
;

// ---------------------------------------------------------------------------
// Conversions
// ---------------------------------------------------------------------------

/// The views of a sequence of strings.
pub open spec fn texts(v: Seq<String>) -> Seq<Seq<char>> {
    v.map_values(|s: String| s@)
}

/// The view of an optional string.
pub open spec fn opt_text(o: Option<String>) -> Option<Seq<char>> {
    match o {
        Some(s) => Some(s@),
        None => None,
    }
}

/// The characters of `s`.
pub fn chars_of(s: &str) -> (r: Vec<char>)
    ensures
        r@ == s@,
{
    let mut out: Vec<char> = Vec::new();
    for c in it: s.chars()
        invariant
            it.seq() == s@,
            out@ == s@.take(it.index() as int),
    {
        out.push(c);
        assert(out@ =~= s@.take(it.index() as int + 1));
    }
    assert(s@.take(s@.len() as int) =~= s@);
    out
}

/// The string made of the characters `cs[from..to]`.
pub fn text_between(cs: &Vec<char>, from: usize, to: usize) -> (r: String)
    requires
        from <= to <= cs@.len(),
    ensures
        r@ == cs@.subrange(from as int, to as int),
{
    let mut out = String::new();
    let mut i: usize = from;
    while i < to
        invariant
            from <= i <= to <= cs@.len(),
            out@ == cs@.subrange(from as int, i as int),
        decreases to - i,
    {
        out.push(cs[i]);
        i = i + 1;
        assert(out@ =~= cs@.subrange(from as int, i as int));
    }
    out
}

/// Whether two strings hold the same characters.
pub fn same(a: &str, b: &str) -> (r: bool)
    ensures
        r == (a@ == b@),
{
    a.to_owned() == b.to_owned()
}

/// The text of `o`, or the empty text.
pub open spec fn text_or_empty(o: Option<String>) -> Seq<char> {
    match o {
        Some(s) => s@,
        None => Seq::empty(),
    }
}

// ---------------------------------------------------------------------------
// Whitespace and trimming
// ---------------------------------------------------------------------------

/// The characters with the Unicode property `White_Space`.
pub open spec fn white(c: char) -> bool {
    let n = c as u32;
    ||| 0x9 <= n <= 0xD
    ||| n == 0x20
    ||| n == 0x85
    ||| n == 0xA0
    ||| n == 0x1680
    ||| 0x2000 <= n <= 0x200A
    ||| n == 0x2028
    ||| n == 0x2029
    ||| n == 0x202F
    ||| n == 0x205F
    ||| n == 0x3000
}

/// Whether `c` is white space.
pub fn is_white(c: char) -> (r: bool)
    ensures
        r == white(c),
{
    let n: u32 = c as u32;
    (0x9 <= n && n <= 0xD) || n == 0x20 || n == 0x85 || n == 0xA0 || n == 0x1680 || (0x2000 <= n && n
        <= 0x200A) || n == 0x2028 || n == 0x2029 || n == 0x202F || n == 0x205F || n == 0x3000
}

/// `s` without its longest prefix of characters that satisfy `p`.
pub open spec fn drop_while(s: Seq<char>, p: spec_fn(char) -> bool) -> Seq<char>
    decreases s.len(),
{
    if s.len() > 0 && p(s[0]) {
        drop_while(s.drop_first(), p)
    } else {
        s
    }
}

/// `s` without its longest suffix of characters that satisfy `p`.
pub open spec fn drop_while_end(s: Seq<char>, p: spec_fn(char) -> bool) -> Seq<char>
    decreases s.len(),
{
    if s.len() > 0 && p(s.last()) {
        drop_while_end(s.drop_last(), p)
    } else {
        s
    }
}

/// `s` without the white space at both ends.
pub open spec fn trimmed(s: Seq<char>) -> Seq<char> {
    drop_while_end(drop_while(s, |c: char| white(c)), |c: char| white(c))
}

/// Where the longest prefix that satisfies `p` ends, `drop_while` begins.
pub proof fn lemma_drop_while(s: Seq<char>, p: spec_fn(char) -> bool, k: int)
    requires
        0 <= k <= s.len(),
        forall|i: int| 0 <= i < k ==> p(#[trigger] s[i]),
        k < s.len() ==> !p(s[k]),
    ensures
        drop_while(s, p) == s.subrange(k, s.len() as int),
    decreases k,
{
    if k > 0 {
        assert(p(s[0]));
        let t = s.drop_first();
        assert forall|i: int| 0 <= i < k - 1 implies p(#[trigger] t[i]) by {
            assert(t[i] == s[i + 1]);
        }
        if k < s.len() {
            assert(t[k - 1] == s[k]);
        }
        lemma_drop_while(t, p, k - 1);
        assert(t.subrange(k - 1, t.len() as int) =~= s.subrange(k, s.len() as int));
    } else {
        assert(s.subrange(0, s.len() as int) =~= s);
    }
}

/// Where the longest suffix that satisfies `p` begins, `drop_while_end` ends.
pub proof fn lemma_drop_while_end(s: Seq<char>, p: spec_fn(char) -> bool, k: int)
    requires
        0 <= k <= s.len(),
        forall|i: int| k <= i < s.len() ==> p(#[trigger] s[i]),
        k > 0 ==> !p(s[k - 1]),
    ensures
        drop_while_end(s, p) == s.subrange(0, k),
    decreases s.len() - k,
{
    if k < s.len() {
        assert(p(s[s.len() - 1]));
        let t = s.drop_last();
        assert forall|i: int| k <= i < t.len() implies p(#[trigger] t[i]) by {
            assert(t[i] == s[i]);
        }
        lemma_drop_while_end(t, p, k);
        assert(t.subrange(0, k) =~= s.subrange(0, k));
    } else {
        assert(s.subrange(0, k) =~= s);
    }
}

/// `s` without the white space at both ends.
pub fn trim(s: &str) -> (r: String)
    ensures
        r@ == trimmed(s@),
{
    let cs = chars_of(s);
    let mut a: usize = 0;
    let ghost w = |c: char| white(c);
    while a < cs.len() && is_white(cs[a])
        invariant
            a <= cs@.len(),
            forall|i: int| 0 <= i < a ==> white(#[trigger] cs@[i]),
        decreases cs.len() - a,
    {
        a = a + 1;
    }
    let mut b: usize = cs.len();
    while b > a && is_white(cs[b - 1])
        invariant
            a <= b <= cs@.len(),
            forall|i: int| b <= i < cs@.len() ==> white(#[trigger] cs@[i]),
        decreases b,
    {
        b = b - 1;
    }
    proof {
        lemma_drop_while(cs@, w, a as int);
        let t = cs@.subrange(a as int, cs@.len() as int);
        assert forall|i: int| b - a <= i < t.len() implies w(#[trigger] t[i]) by {
            assert(t[i] == cs@[i + a]);
        }
        lemma_drop_while_end(t, w, b - a);
        assert(t.subrange(0, b - a) =~= cs@.subrange(a as int, b as int));
    }
    text_between(&cs, a, b)
}

/// `s` without its trailing characters `c`.
pub fn trim_end_char(s: &str, c: char) -> (r: String)
    ensures
        r@ == drop_while_end(s@, |x: char| x == c),
{
    let cs = chars_of(s);
    let mut b: usize = cs.len();
    while b > 0 && cs[b - 1] == c
        invariant
            b <= cs@.len(),
            forall|i: int| b <= i < cs@.len() ==> #[trigger] cs@[i] == c,
        decreases b,
    {
        b = b - 1;
    }
    proof {
        lemma_drop_while_end(cs@, |x: char| x == c, b as int);
    }
    text_between(&cs, 0, b)
}

/// `s` without its leading characters `c`.
pub fn trim_start_char(s: &str, c: char) -> (r: String)
    ensures
        r@ == drop_while(s@, |x: char| x == c),
{
    let cs = chars_of(s);
    let mut a: usize = 0;
    while a < cs.len() && cs[a] == c
        invariant
            a <= cs@.len(),
            forall|i: int| 0 <= i < a ==> #[trigger] cs@[i] == c,
        decreases cs.len() - a,
    {
        a = a + 1;
    }
    proof {
        lemma_drop_while(cs@, |x: char| x == c, a as int);
    }
    text_between(&cs, a, cs.len())
}

// ---------------------------------------------------------------------------
// Occurrences
// ---------------------------------------------------------------------------

/// `p` stands in `s` at position `i`.
pub open spec fn occurs_at(s: Seq<char>, p: Seq<char>, i: int) -> bool {
    0 <= i && i + p.len() <= s.len() && s.subrange(i, i + p.len()) == p
}

/// `p` stands somewhere in `s`.
pub open spec fn has(s: Seq<char>, p: Seq<char>) -> bool {
    exists|i: int| #[trigger] occurs_at(s, p, i)
}

/// The first position of `p` in `s` at or after `from`.
pub open spec fn first_at(s: Seq<char>, p: Seq<char>, from: int) -> Option<int>
    decreases s.len() + 1 - from,
{
    if from < 0 || from + p.len() > s.len() {
        None
    } else if occurs_at(s, p, from) {
        Some(from)
    } else {
        first_at(s, p, from + 1)
    }
}

/// The last position of `p` in `s` at or before `to`.
pub open spec fn last_at(s: Seq<char>, p: Seq<char>, to: int) -> Option<int>
    decreases to + 1,
{
    if to < 0 {
        None
    } else if occurs_at(s, p, to) {
        Some(to)
    } else {
        last_at(s, p, to - 1)
    }
}

/// `first_at` is the least position of an occurrence.
pub proof fn lemma_first_at(s: Seq<char>, p: Seq<char>, from: int)
    requires
        0 <= from,
    ensures
        match first_at(s, p, from) {
            Some(i) => from <= i && occurs_at(s, p, i) && forall|j: int|
                from <= j < i ==> !#[trigger] occurs_at(s, p, j),
            None => forall|j: int| from <= j ==> !#[trigger] occurs_at(s, p, j),
        },
    decreases s.len() + 1 - from,
{
    if from + p.len() <= s.len() && !occurs_at(s, p, from) {
        lemma_first_at(s, p, from + 1);
    }
}

/// The least position of an occurrence is what `first_at` gives.
pub proof fn lemma_first_at_is(s: Seq<char>, p: Seq<char>, from: int, i: int)
    requires
        0 <= from <= i,
        occurs_at(s, p, i),
        forall|j: int| from <= j < i ==> !#[trigger] occurs_at(s, p, j),
    ensures
        first_at(s, p, from) == Some(i),
{
    lemma_first_at(s, p, from);
}

/// Whether `p` stands in `s` at position `i`.
pub fn stands_at(s: &Vec<char>, p: &Vec<char>, i: usize) -> (r: bool)
    ensures
        r == occurs_at(s@, p@, i as int),
{
    if i > s.len() || s.len() - i < p.len() {
        return false;
    }
    let mut k: usize = 0;
    while k < p.len()
        invariant
            k <= p@.len(),
            i + p@.len() <= s.len(),
            forall|j: int| 0 <= j < k ==> s@[i + j] == #[trigger] p@[j],
        decreases p.len() - k,
    {
        if s[i + k] != p[k] {
            assert(s@.subrange(i as int, i + p@.len())[k as int] == s@[i + k]);
            return false;
        }
        k = k + 1;
    }
    assert(s@.subrange(i as int, i + p@.len()) =~= p@);
    true
}

/// The first position of `p` in `s` at or after `from`.
pub fn find_in(s: &Vec<char>, p: &Vec<char>, from: usize) -> (r: Option<usize>)
    requires
        from <= s@.len(),
    ensures
        match r {
            Some(i) => first_at(s@, p@, from as int) == Some(i as int) && i + p@.len() <= s@.len()
                && from <= i && occurs_at(s@, p@, i as int),
            None => first_at(s@, p@, from as int) is None,
        },
{
    let mut i: usize = from;
    while i <= s.len() && s.len() - i >= p.len()
        invariant
            from <= i <= s@.len() + 1,
            first_at(s@, p@, from as int) == first_at(s@, p@, i as int),
        decreases s.len() + 1 - i,
    {
        if stands_at(s, p, i) {
            return Some(i);
        }
        if i == s.len() {
            assert(first_at(s@, p@, i + 1) is None);
            return None;
        }
        i = i + 1;
    }
    None
}

/// The last position of `p` in `s`.
pub fn rfind_in(s: &Vec<char>, p: &Vec<char>) -> (r: Option<usize>)
    ensures
        match r {
            Some(i) => last_at(s@, p@, s@.len() as int) == Some(i as int) && i + p@.len()
                <= s@.len() && occurs_at(s@, p@, i as int),
            None => last_at(s@, p@, s@.len() as int) is None,
        },
{
    let mut i: usize = s.len();
    loop
        invariant
            i <= s@.len(),
            last_at(s@, p@, s@.len() as int) == last_at(s@, p@, i as int),
        decreases i,
    {
        if stands_at(s, p, i) {
            return Some(i);
        }
        if i == 0 {
            assert(last_at(s@, p@, -1) is None);
            return None;
        }
        i = i - 1;
    }
}

/// Whether `p` stands somewhere in `s`.
pub fn contains(s: &str, p: &str) -> (r: bool)
    ensures
        r == has(s@, p@),
{
    let cs = chars_of(s);
    let ps = chars_of(p);
    proof {
        lemma_first_at(s@, p@, 0);
    }
    match find_in(&cs, &ps, 0) {
        Some(i) => {
            assert(occurs_at(s@, p@, i as int));
            true
        },
        None => {
            assert forall|i: int| !#[trigger] occurs_at(s@, p@, i) by {
                if i >= 0 {
                }
            }
            false
        },
    }
}

/// `s` begins with `p`.
pub open spec fn begins_with(s: Seq<char>, p: Seq<char>) -> bool {
    occurs_at(s, p, 0)
}

/// `s` ends with `p`.
pub open spec fn ends_in(s: Seq<char>, p: Seq<char>) -> bool {
    occurs_at(s, p, s.len() - p.len())
}

/// Whether `s` begins with `p`.
pub fn starts_with(s: &str, p: &str) -> (r: bool)
    ensures
        r == begins_with(s@, p@),
{
    stands_at(&chars_of(s), &chars_of(p), 0)
}

/// What follows the prefix `p` of `s`.
pub fn strip_prefix(s: &str, p: &str) -> (r: Option<String>)
    ensures
        match r {
            Some(t) => begins_with(s@, p@) && t@ == s@.subrange(p@.len() as int, s@.len() as int),
            None => !begins_with(s@, p@),
        },
{
    let cs = chars_of(s);
    let ps = chars_of(p);
    if stands_at(&cs, &ps, 0) {
        Some(text_between(&cs, ps.len(), cs.len()))
    } else {
        None
    }
}

/// `s` without the leading repetitions of `p`.
pub open spec fn drop_prefixes(s: Seq<char>, p: Seq<char>) -> Seq<char>
    decreases s.len(),
{
    if p.len() > 0 && begins_with(s, p) {
        drop_prefixes(s.subrange(p.len() as int, s.len() as int), p)
    } else {
        s
    }
}

/// `s` without the leading repetitions of `p`.
pub fn trim_start_text(s: &str, p: &str) -> (r: String)
    requires
        p@.len() > 0,
    ensures
        r@ == drop_prefixes(s@, p@),
{
    let cs = chars_of(s);
    let ps = chars_of(p);
    let mut a: usize = 0;
    assert(s@.subrange(0, s@.len() as int) =~= s@);
    while stands_at(&cs, &ps, a)
        invariant
            a <= cs@.len(),
            cs@ == s@,
            ps@ == p@,
            p@.len() > 0,
            drop_prefixes(s@, p@) == drop_prefixes(s@.subrange(a as int, s@.len() as int), p@),
        ensures
            a <= cs@.len(),
            !occurs_at(s@, p@, a as int),
            drop_prefixes(s@, p@) == drop_prefixes(s@.subrange(a as int, s@.len() as int), p@),
        decreases cs.len() - a,
    {
        proof {
            let t = s@.subrange(a as int, s@.len() as int);
            assert(t.subrange(0, p@.len() as int) =~= s@.subrange(a as int, a + p@.len()));
            assert(t.subrange(p@.len() as int, t.len() as int) =~= s@.subrange(
                a + p@.len(),
                s@.len() as int,
            ));
        }
        a = a + ps.len();
    }
    proof {
        let t = s@.subrange(a as int, s@.len() as int);
        if begins_with(t, p@) {
            assert(t.subrange(0, p@.len() as int) =~= s@.subrange(a as int, a + p@.len()));
        }
    }
    text_between(&cs, a, cs.len())
}

// ---------------------------------------------------------------------------
// Replacement
// ---------------------------------------------------------------------------

/// `s` with every occurrence of the non-empty `p`, from left to right and
/// without overlaps, replaced by `q`.
pub open spec fn replaced(s: Seq<char>, p: Seq<char>, q: Seq<char>) -> Seq<char>
    decreases s.len(),
{
    match first_at(s, p, 0) {
        Some(i) => if p.len() > 0 && 0 <= i && i + p.len() <= s.len() {
            s.subrange(0, i) + q + replaced(s.subrange(i + p.len(), s.len() as int), p, q)
        } else {
            s
        },
        None => s,
    }
}

/// `s` with its first occurrence of `p` replaced by `q`.
pub open spec fn replaced_first(s: Seq<char>, p: Seq<char>, q: Seq<char>) -> Seq<char> {
    match first_at(s, p, 0) {
        Some(i) => s.subrange(0, i) + q + s.subrange(i + p.len(), s.len() as int),
        None => s,
    }
}

/// Occurrences in a suffix are the occurrences in the whole, shifted.
pub proof fn lemma_first_at_suffix(s: Seq<char>, p: Seq<char>, a: int)
    requires
        0 <= a <= s.len(),
    ensures
        first_at(s.subrange(a, s.len() as int), p, 0) == (match first_at(s, p, a) {
            Some(i) => Some(i - a),
            None => None::<int>,
        }),
{
    let t = s.subrange(a, s.len() as int);
    assert forall|i: int| 0 <= i implies #[trigger] occurs_at(t, p, i) == occurs_at(s, p, i + a) by {
        if i + p.len() <= t.len() {
            assert(t.subrange(i, i + p.len()) =~= s.subrange(i + a, i + a + p.len()));
        }
    }
    lemma_first_at(s, p, a);
    match first_at(s, p, a) {
        Some(i) => {
            assert(occurs_at(t, p, i - a));
            assert forall|j: int| 0 <= j < i - a implies !#[trigger] occurs_at(t, p, j) by {
                assert(!occurs_at(s, p, j + a));
            }
            lemma_first_at_is(t, p, 0, i - a);
        },
        None => {
            lemma_first_at(t, p, 0);
            match first_at(t, p, 0) {
                Some(j) => {
                    assert(occurs_at(s, p, j + a));
                },
                None => {},
            }
        },
    }
}

/// `s` with every occurrence of `p` replaced by `q`.
pub fn replace(s: &str, p: &str, q: &str) -> (r: String)
    requires
        p@.len() > 0,
    ensures
        r@ == replaced(s@, p@, q@),
{
    let cs = chars_of(s);
    let ps = chars_of(p);
    let mut out = String::new();
    let mut a: usize = 0;
    assert(s@.subrange(0, s@.len() as int) =~= s@);
    assert(out@ + replaced(s@, p@, q@) =~= replaced(s@, p@, q@));
    loop
        invariant
            a <= cs@.len(),
            cs@ == s@,
            ps@ == p@,
            p@.len() > 0,
            replaced(s@, p@, q@) == out@ + replaced(
                s@.subrange(a as int, s@.len() as int),
                p@,
                q@,
            ),
        decreases cs.len() - a,
    {
        let ghost t = s@.subrange(a as int, s@.len() as int);
        proof {
            lemma_first_at_suffix(s@, p@, a as int);
        }
        match find_in(&cs, &ps, a) {
            Some(i) => {
                let head = text_between(&cs, a, i);
                let ghost before = out@;
                out.append(head.as_str());
                out.append(q);
                proof {
                    assert(t.subrange(0, i - a) =~= head@);
                    assert(t.subrange(i - a + p@.len(), t.len() as int) =~= s@.subrange(
                        i + p@.len(),
                        s@.len() as int,
                    ));
                    let rest = replaced(s@.subrange(i + p@.len(), s@.len() as int), p@, q@);
                    assert(replaced(t, p@, q@) == head@ + q@ + rest);
                    assert(before + (head@ + q@ + rest) =~= before + head@ + q@ + rest);
                }
                a = i + ps.len();
            },
            None => {
                let tail = text_between(&cs, a, cs.len());
                out.append(tail.as_str());
                return out;
            },
        }
    }
}

/// `s` with its first occurrence of `p` replaced by `q`.
pub fn replace_first(s: &str, p: &str, q: &str) -> (r: String)
    ensures
        r@ == replaced_first(s@, p@, q@),
{
    let cs = chars_of(s);
    let ps = chars_of(p);
    match find_in(&cs, &ps, 0) {
        Some(i) => {
            assert(i + ps.len() <= cs.len());
            let mut out = text_between(&cs, 0, i);
            out.append(q);
            let tail = text_between(&cs, i + ps.len(), cs.len());
            out.append(tail.as_str());
            out
        },
        None => s.to_owned(),
    }
}

/// White space at the ends of a text is taken off, and nothing else: a text that begins and
/// ends with something else is what is left of it between any white space.
pub proof fn white_ends_are_taken_off(a: Seq<char>, t: Seq<char>, b: Seq<char>)
    requires
        forall|i: int| 0 <= i < a.len() ==> white(#[trigger] a[i]),
        forall|i: int| 0 <= i < b.len() ==> white(#[trigger] b[i]),
        t.len() > 0,
        !white(t[0]),
        !white(t.last()),
    ensures
        trimmed(a + t + b) == t,
        trimmed(a + b).len() == 0,
        white(' ') && white('\n') && white('\t') && !white('a') && !white('0'),
{
    let w = |c: char| white(c);
    let s = a + t + b;
    let n = a.len() as int;
    assert forall|i: int| 0 <= i < n implies w(#[trigger] s[i]) by {
        assert(s[i] == a[i]);
    }
    assert(s[n] == t[0]);
    lemma_drop_while(s, w, n);
    let u = s.subrange(n, s.len() as int);
    let k = t.len() as int;
    assert forall|i: int| k <= i < u.len() implies w(#[trigger] u[i]) by {
        assert(u[i] == b[i - k]);
    }
    assert(u[k - 1] == t.last());
    lemma_drop_while_end(u, w, k);
    assert(u.subrange(0, k) =~= t);
    let e = a + b;
    assert forall|i: int| 0 <= i < e.len() implies w(#[trigger] e[i]) by {
        if i < n {
            assert(e[i] == a[i]);
        } else {
            assert(e[i] == b[i - n]);
        }
    }
    lemma_drop_while(e, w, e.len() as int);
    assert(e.subrange(e.len() as int, e.len() as int).len() == 0);
}

/// The first place where the old text stands is where the new one comes to stand, and all
/// around it stays; where every occurrence is replaced, so it goes on behind it. A text in
/// which the old one does not stand stays as it is.
pub proof fn occurrences_are_replaced(a: Seq<char>, p: Seq<char>, b: Seq<char>, q: Seq<char>)
    requires
        p.len() > 0,
        forall|i: int| 0 <= i < a.len() ==> !#[trigger] occurs_at(a + p + b, p, i),
    ensures
        replaced_first(a + p + b, p, q) == a + q + b,
        replaced(a + p + b, p, q) == a + q + replaced(b, p, q),
        !(has(b, p)) ==> replaced(a + p + b, p, q) == a + q + b,
        !(has(b, p)) ==> replaced(b, p, q) == b && replaced_first(b, p, q) == b,
{
    let s = a + p + b;
    let n = a.len() as int;
    assert(s.subrange(n, n + p.len()) =~= p);
    lemma_first_at_is(s, p, 0, n);
    assert(s.subrange(0, n) =~= a);
    assert(s.subrange(n + p.len(), s.len() as int) =~= b);
    if !(has(b, p)) {
        lemma_first_at(b, p, 0);
    }
}

} // verus!
