//! Keyword search: tokens with stop words removed and endings cut off, and the
//! counts that BM25 scores are made from.
use vstd::hash_map::StringHashMap;
use vstd::prelude::*;

use crate::bytes;
use crate::lines;
use crate::outside;
use crate::rank;
use crate::text;

verus! {

// ---------------------------------------------------------------------------
// Tokens
// ---------------------------------------------------------------------------

/// A word too common to be looked for.
pub open spec fn stop_word(w: Seq<char>) -> bool {
    ||| w == "a"@
    ||| w == "an"@
    ||| w == "and"@
    ||| w == "are"@
    ||| w == "as"@
    ||| w == "at"@
    ||| w == "be"@
    ||| w == "but"@
    ||| w == "by"@
    ||| w == "for"@
    ||| w == "if"@
    ||| w == "in"@
    ||| w == "into"@
    ||| w == "is"@
    ||| w == "it"@
    ||| w == "no"@
    ||| w == "not"@
    ||| w == "of"@
    ||| w == "on"@
    ||| w == "or"@
    ||| w == "such"@
    ||| w == "that"@
    ||| w == "the"@
    ||| w == "their"@
    ||| w == "then"@
    ||| w == "there"@
    ||| w == "these"@
    ||| w == "they"@
    ||| w == "this"@
    ||| w == "to"@
    ||| w == "was"@
    ||| w == "will"@
    ||| w == "with"@
}

/// Whether a word is too common to be looked for.
pub fn is_stop_word(word: &str) -> (r: bool)
    ensures
        r == stop_word(word@),
{
    text::same(word, "a") || text::same(word, "an") || text::same(word, "and") || text::same(
        word,
        "are",
    ) || text::same(word, "as") || text::same(word, "at") || text::same(word, "be") || text::same(
        word,
        "but",
    ) || text::same(word, "by") || text::same(word, "for") || text::same(word, "if") || text::same(
        word,
        "in",
    ) || text::same(word, "into") || text::same(word, "is") || text::same(word, "it") || text::same(
        word,
        "no",
    ) || text::same(word, "not") || text::same(word, "of") || text::same(word, "on") || text::same(
        word,
        "or",
    ) || text::same(word, "such") || text::same(word, "that") || text::same(word, "the")
        || text::same(word, "their") || text::same(word, "then") || text::same(word, "there")
        || text::same(word, "these") || text::same(word, "they") || text::same(word, "this")
        || text::same(word, "to") || text::same(word, "was") || text::same(word, "will")
        || text::same(word, "with")
}

/// ASCII punctuation other than the apostrophe.
pub open spec fn dropped_mark(c: char) -> bool {
    let n = c as u32;
    c != '\'' && (0x21 <= n <= 0x2F || 0x3A <= n <= 0x40 || 0x5B <= n <= 0x60 || 0x7B <= n <= 0x7E)
}

/// `s` without ASCII punctuation other than the apostrophe.
pub open spec fn without_marks(s: Seq<char>) -> Seq<char> {
    s.filter(|c: char| !dropped_mark(c))
}

/// `s` without ASCII punctuation other than the apostrophe.
pub fn drop_marks(s: &str) -> (r: String)
    ensures
        r@ == without_marks(s@),
{
    let cs = text::chars_of(s);
    let mut out = String::new();
    let ghost p = |c: char| !dropped_mark(c);
    let mut i: usize = 0;
    proof {
        reveal(Seq::filter);
        assert(out@ =~= cs@.take(0).filter(p));
    }
    while i < cs.len()
        invariant
            i <= cs@.len(),
            p == (|c: char| !dropped_mark(c)),
            out@ == cs@.take(i as int).filter(p),
        decreases cs.len() - i,
    {
        proof {
            reveal(Seq::filter);
            assert(cs@.take(i + 1).drop_last() =~= cs@.take(i as int));
            assert(cs@.take(i + 1).last() == cs@[i as int]);
        }
        let c = cs[i];
        let n: u32 = c as u32;
        let mark = c != '\'' && ((0x21 <= n && n <= 0x2F) || (0x3A <= n && n <= 0x40) || (0x5B <= n
            && n <= 0x60) || (0x7B <= n && n <= 0x7E));
        if !mark {
            out.push(c);
        }
        i = i + 1;
    }
    assert(cs@.take(cs@.len() as int) =~= cs@);
    out
}

/// The normal form of a text: decomposed, without punctuation, in small
/// letters.
pub open spec fn normal_form(s: Seq<char>) -> Seq<char> {
    outside::lowercase(without_marks(outside::nfkd(s)))
}

/// Of two texts one after the other the marks are dropped in each.
proof fn lemma_marks_concat(a: Seq<char>, b: Seq<char>)
    ensures
        without_marks(a + b) == without_marks(a) + without_marks(b),
    decreases b.len(),
{
    let p = |c: char| !dropped_mark(c);
    reveal(Seq::filter);
    if b.len() == 0 {
        assert(a + b =~= a);
        assert(without_marks(a) + without_marks(b) =~= without_marks(a));
    } else {
        assert((a + b).drop_last() =~= a + b.drop_last());
        assert((a + b).last() == b.last());
        lemma_marks_concat(a, b.drop_last());
        assert(without_marks(a + b) =~= without_marks(a) + without_marks(b));
    }
}

/// The marks are dropped on both sides of a space.
proof fn lemma_marks_at_space(a: Seq<char>, b: Seq<char>)
    ensures
        without_marks(a + seq![' '] + b) == without_marks(a) + seq![' '] + without_marks(b),
{
    lemma_marks_concat(a + seq![' '], b);
    lemma_marks_concat(a, seq![' ']);
    reveal(Seq::filter);
    reveal_with_fuel(Seq::filter, 2);
    assert(seq![' '].drop_last() =~= Seq::<char>::empty());
    assert(without_marks(seq![' ']) =~= seq![' ']);
}

/// ASCII text stays ASCII without marks.
proof fn lemma_marks_ascii(s: Seq<char>)
    requires
        lines::ascii(s),
    ensures
        lines::ascii(without_marks(s)),
    decreases s.len(),
{
    reveal(Seq::filter);
    if s.len() > 0 {
        assert forall|i: int| 0 <= i < s.drop_last().len() implies (#[trigger] s.drop_last()[i]
            as u32) < 128 by {
            assert(s.drop_last()[i] == s[i]);
        }
        lemma_marks_ascii(s.drop_last());
        assert((s[s.len() - 1] as u32) < 128);
    }
}

/// The normal form of a text. Around a space each side has its own, and ASCII text
/// is only made small.
pub fn normalize(s: &str) -> (r: String)
    ensures
        r@ == normal_form(s@),
        forall|a: Seq<char>, b: Seq<char>|
            s@ == #[trigger] (a + seq![' '] + b) ==> r@ == normal_form(a) + seq![' ']
                + normal_form(b),
        lines::ascii(s@) ==> r@ == lines::lowered(without_marks(s@)),
{
    let decomposed = outside::to_nfkd(s);
    let kept = drop_marks(decomposed.as_str());
    let r = outside::to_lowercase(kept.as_str());
    proof {
        assert forall|a: Seq<char>, b: Seq<char>| s@ == #[trigger] (a + seq![' '] + b) implies r@
            == normal_form(a) + seq![' '] + normal_form(b) by {
            let x = outside::nfkd(a);
            let y = outside::nfkd(b);
            assert(decomposed@ == x + seq![' '] + y);
            lemma_marks_at_space(x, y);
            assert(kept@ == without_marks(x) + seq![' '] + without_marks(y));
        }
        if lines::ascii(s@) {
            lemma_marks_ascii(s@);
        }
    }
    r
}

/// The endings that are cut off, in the order in which they are tried.
pub open spec fn endings() -> Seq<Seq<char>> {
    seq![
        "ement"@,
        "ment"@,
        "ness"@,
        "tion"@,
        "sion"@,
        "ling"@,
        "ing"@,
        "ies"@,
        "ous"@,
        "ive"@,
        "able"@,
        "ful"@,
        "less"@,
        "ated"@,
        "ize"@,
        "ise"@,
        "ate"@,
        "ly"@,
        "ed"@,
        "er"@,
        "es"@,
        "al"@,
        "en"@,
        "s"@,
    ]
}

/// `w` without the first of the endings from the `i`-th on that it has, where
/// more than two bytes remain.
pub open spec fn cut_ending(w: Seq<char>, all: Seq<Seq<char>>, i: int) -> Seq<char>
    decreases all.len() - i,
{
    if i < 0 || i >= all.len() {
        w
    } else if bytes::byte_len(w) > bytes::byte_len(all[i]) + 2 && text::ends_in(w, all[i]) {
        w.take(w.len() - all[i].len())
    } else {
        cut_ending(w, all, i + 1)
    }
}

/// The stem of a word.
pub open spec fn stemmed(w: Seq<char>) -> Seq<char> {
    if bytes::byte_len(w) <= 3 {
        w
    } else {
        cut_ending(w, endings(), 0)
    }
}

/// The endings that are cut off, in the order in which they are tried.
fn ending_list() -> (r: Vec<String>)
    ensures
        text::texts(r@) == endings(),
{
    let mut v: Vec<String> = Vec::new();
    v.push("ement".to_owned());
    v.push("ment".to_owned());
    v.push("ness".to_owned());
    v.push("tion".to_owned());
    v.push("sion".to_owned());
    v.push("ling".to_owned());
    v.push("ing".to_owned());
    v.push("ies".to_owned());
    v.push("ous".to_owned());
    v.push("ive".to_owned());
    v.push("able".to_owned());
    v.push("ful".to_owned());
    v.push("less".to_owned());
    v.push("ated".to_owned());
    v.push("ize".to_owned());
    v.push("ise".to_owned());
    v.push("ate".to_owned());
    v.push("ly".to_owned());
    v.push("ed".to_owned());
    v.push("er".to_owned());
    v.push("es".to_owned());
    v.push("al".to_owned());
    v.push("en".to_owned());
    v.push("s".to_owned());
    assert(text::texts(v@) =~= endings());
    v
}

/// The stem of a word.
pub fn stem(word: &str) -> (r: String)
    ensures
        r@ == stemmed(word@),
{
    let size: usize = bytes::len(word);
    if size <= 3 {
        return word.to_owned();
    }
    let w = text::chars_of(word);
    let all = ending_list();
    let mut i: usize = 0;
    while i < all.len()
        invariant
            i <= all@.len(),
            w@ == word@,
            size == bytes::byte_len(word@),
            text::texts(all@) == endings(),
            cut_ending(word@, endings(), 0) == cut_ending(word@, endings(), i as int),
        decreases all.len() - i,
    {
        assert(endings()[i as int] == all@[i as int]@);
        let e = text::chars_of(all[i].as_str());
        let esize: usize = bytes::len(all[i].as_str());
        if size > esize && size - esize > 2 && w.len() >= e.len() && text::stands_at(
            &w,
            &e,
            w.len() - e.len(),
        ) {
            let r = text::text_between(&w, 0, w.len() - e.len());
            assert(w@.subrange(0, w@.len() - e@.len()) =~= w@.take(w@.len() - e@.len()));
            return r;
        }
        i = i + 1;
    }
    word.to_owned()
}

/// A word of at least two bytes that is no stop word.
pub open spec fn kept_word(w: Seq<char>) -> bool {
    bytes::byte_len(w) >= 2 && !stop_word(w)
}

/// The tokens of a text in normal form: the stems of its words, without short
/// words and stop words.
pub open spec fn tokens_of(normalized: Seq<char>) -> Seq<Seq<char>> {
    lines::words_of(normalized).filter(|w: Seq<char>| kept_word(w)).map_values(
        |w: Seq<char>| stemmed(w),
    )
}

/// The tokens of a text in normal form.
pub fn tokens(normalized: &str) -> (r: Vec<String>)
    ensures
        text::texts(r@) == tokens_of(normalized@),
{
    let words = lines::words(normalized);
    let ghost ws = text::texts(words@);
    let ghost p = |w: Seq<char>| kept_word(w);
    let ghost f = |w: Seq<char>| stemmed(w);
    let mut out: Vec<String> = Vec::new();
    let mut i: usize = 0;
    proof {
        reveal(Seq::filter);
        assert(text::texts(out@) =~= ws.take(0).filter(p).map_values(f));
    }
    while i < words.len()
        invariant
            i <= words@.len(),
            ws == text::texts(words@),
            p == (|w: Seq<char>| kept_word(w)),
            f == (|w: Seq<char>| stemmed(w)),
            text::texts(out@) == ws.take(i as int).filter(p).map_values(f),
        decreases words.len() - i,
    {
        let w = words[i].as_str();
        proof {
            reveal(Seq::filter);
            assert(ws.take(i + 1).drop_last() =~= ws.take(i as int));
            assert(ws.take(i + 1).last() == w@);
        }
        let ghost before = out@;
        if bytes::len(w) >= 2 && !is_stop_word(w) {
            let st = stem(w);
            out.push(st);
            proof {
                assert(text::texts(out@) =~= text::texts(before).push(st@));
                assert(ws.take(i as int).filter(p).push(w@).map_values(f) =~= ws.take(
                    i as int,
                ).filter(p).map_values(f).push(f(w@)));
            }
        }
        i = i + 1;
    }
    assert(ws.take(words@.len() as int) =~= ws);
    out
}

/// The tokens on both sides of a space are the tokens of the whole, in order and
/// with repeats.
pub proof fn tokens_split_at_a_space(a: Seq<char>, b: Seq<char>)
    ensures
        tokens_of(a + seq![' '] + b) == tokens_of(a) + tokens_of(b),
{
    lines::lemma_words_at_space(a, b);
    lemma_kept_concat(lines::words_of(a), lines::words_of(b));
}

/// The tokens of words one after the other.
proof fn lemma_kept_concat(a: Seq<Seq<char>>, b: Seq<Seq<char>>)
    ensures
        ({
            let p = |w: Seq<char>| kept_word(w);
            let f = |w: Seq<char>| stemmed(w);
            (a + b).filter(p).map_values(f) == a.filter(p).map_values(f) + b.filter(p).map_values(f)
        }),
    decreases b.len(),
{
    let p = |w: Seq<char>| kept_word(w);
    let f = |w: Seq<char>| stemmed(w);
    reveal(Seq::filter);
    if b.len() == 0 {
        assert(a + b =~= a);
        assert(a.filter(p).map_values(f) + b.filter(p).map_values(f) =~= a.filter(p).map_values(f));
    } else {
        assert((a + b).drop_last() =~= a + b.drop_last());
        assert((a + b).last() == b.last());
        lemma_kept_concat(a, b.drop_last());
        assert((a + b).filter(p).map_values(f) =~= a.filter(p).map_values(f) + b.filter(
            p,
        ).map_values(f));
    }
}

/// A token has at least two bytes.
pub proof fn tokens_are_long_enough(normalized: Seq<char>, i: int)
    requires
        0 <= i < tokens_of(normalized).len(),
    ensures
        bytes::byte_len(tokens_of(normalized)[i]) >= 2,
{
    let p = |w: Seq<char>| kept_word(w);
    let words = lines::words_of(normalized);
    lemma_kept_at(words, i);
    let w = words.filter(p)[i];
    assert(tokens_of(normalized)[i] == stemmed(w));
    lemma_stem_size(w, endings(), 0);
}

/// A word that is kept is one to keep.
proof fn lemma_kept_at(words: Seq<Seq<char>>, i: int)
    requires
        0 <= i < words.filter(|w: Seq<char>| kept_word(w)).len(),
    ensures
        kept_word(words.filter(|w: Seq<char>| kept_word(w))[i]),
    decreases words.len(),
{
    let p = |w: Seq<char>| kept_word(w);
    reveal(Seq::filter);
    if words.len() > 0 {
        let front = words.drop_last().filter(p);
        if i < front.len() {
            lemma_kept_at(words.drop_last(), i);
        }
    }
}

/// A word that is cut keeps more than two bytes.
proof fn lemma_stem_size(w: Seq<char>, all: Seq<Seq<char>>, i: int)
    ensures
        cut_ending(w, all, i) == w || bytes::byte_len(cut_ending(w, all, i)) > 2,
    decreases all.len() - i,
{
    if 0 <= i < all.len() {
        let e = all[i];
        if bytes::byte_len(w) > bytes::byte_len(e) + 2 && text::ends_in(w, e) {
            let k = w.len() - e.len();
            assert(w =~= w.take(k) + e);
            bytes::lemma_byte_len_concat(w.take(k), e);
        } else {
            lemma_stem_size(w, all, i + 1);
        }
    }
}

/// Of ASCII text the tokens do not depend on the case of the letters.
pub proof fn case_does_not_matter(s: Seq<char>)
    ensures
        tokens_of(lines::lowered(without_marks(lines::uppered(s)))) == tokens_of(
            lines::lowered(without_marks(s)),
        ),
{
    lemma_case(s);
}

/// Small and capital letters are made small alike.
proof fn lemma_case(s: Seq<char>)
    ensures
        lines::lowered(without_marks(lines::uppered(s))) == lines::lowered(without_marks(s)),
    decreases s.len(),
{
    reveal(Seq::filter);
    let u = lines::uppered(s);
    if s.len() == 0 {
        assert(u =~= s);
    } else {
        let front = s.drop_last();
        lemma_case(front);
        assert(u.drop_last() =~= lines::uppered(front));
        let c = s.last();
        let d = lines::upper(c);
        assert(u.last() == d);
        assert(dropped_mark(d) == dropped_mark(c));
        assert(lines::lower(d) == lines::lower(c));
        let x = without_marks(lines::uppered(front));
        let y = without_marks(front);
        assert(lines::lowered(x.push(d)) =~= lines::lowered(x).push(lines::lower(d)));
        assert(lines::lowered(y.push(c)) =~= lines::lowered(y).push(lines::lower(c)));
        assert(lines::lowered(without_marks(u)) =~= lines::lowered(without_marks(s)));
    }
}

/// The tokens of a text. Those on both sides of a space come one after the other,
/// and of ASCII text they are those of the text in small letters.
pub fn tokenize(s: &str) -> (r: Vec<String>)
    ensures
        text::texts(r@) == tokens_of(normal_form(s@)),
        forall|a: Seq<char>, b: Seq<char>|
            s@ == #[trigger] (a + seq![' '] + b) ==> text::texts(r@) == tokens_of(normal_form(a))
                + tokens_of(normal_form(b)),
        lines::ascii(s@) ==> text::texts(r@) == tokens_of(lines::lowered(without_marks(s@))),
        forall|i: int| 0 <= i < r@.len() ==> bytes::byte_len((#[trigger] r@[i])@) >= 2,
{
    let normalized = normalize(s);
    let r = tokens(normalized.as_str());
    proof {
        assert forall|a: Seq<char>, b: Seq<char>| s@ == #[trigger] (a + seq![' '] + b) implies text::texts(
            r@,
        ) == tokens_of(normal_form(a)) + tokens_of(normal_form(b)) by {
            tokens_split_at_a_space(normal_form(a), normal_form(b));
        }
        assert forall|i: int| 0 <= i < r@.len() implies bytes::byte_len((#[trigger] r@[i])@) >= 2 by {
            assert(text::texts(r@)[i] == r@[i]@);
            tokens_are_long_enough(normalized@, i);
        }
    }
    r
}

// ---------------------------------------------------------------------------
// BM25
// ---------------------------------------------------------------------------

/// How often `t` stands in `doc`.
pub open spec fn term_count(doc: Seq<Seq<char>>, t: Seq<char>) -> nat
    decreases doc.len(),
{
    if doc.len() == 0 {
        0
    } else {
        term_count(doc.drop_last(), t) + if doc.last() == t { 1nat } else { 0nat }
    }
}

/// The number of documents that hold `t`.
pub open spec fn docs_with(docs: Seq<Seq<Seq<char>>>, t: Seq<char>) -> nat
    decreases docs.len(),
{
    if docs.len() == 0 {
        0
    } else {
        docs_with(docs.drop_last(), t) + if docs.last().contains(t) { 1nat } else { 0nat }
    }
}

/// The counts over a collection of documents that BM25 scores are made from.
pub struct BM25 {
    documents: Vec<Vec<String>>,
    doc_lengths: Vec<usize>,
    df: StringHashMap<usize>,
    n: usize,
}

/// The tokens of each document.
pub open spec fn token_lists(docs: Seq<Vec<String>>) -> Seq<Seq<Seq<char>>> {
    docs.map_values(|d: Vec<String>| text::texts(d@))
}

/// `df` holds, for every token, the number of documents that hold it.
pub open spec fn counts_documents(
    df: Map<Seq<char>, usize>,
    docs: Seq<Seq<Seq<char>>>,
) -> bool {
    &&& forall|t: Seq<char>|
        #![trigger df.contains_key(t)]
        df.contains_key(t) <==> docs_with(docs, t) > 0
    &&& forall|t: Seq<char>| #![trigger df[t]] df.contains_key(t) ==> df[t] == docs_with(docs, t)
}

proof fn lemma_docs_with_bound(docs: Seq<Seq<Seq<char>>>, t: Seq<char>)
    ensures
        docs_with(docs, t) <= docs.len(),
    decreases docs.len(),
{
    if docs.len() > 0 {
        lemma_docs_with_bound(docs.drop_last(), t);
    }
}

/// What the index knows of one query term in one document.
#[derive(Clone, Copy, Debug, PartialEq, Eq, Structural)]
pub struct TermStats {
    /// How often the term stands in the document.
    pub tf: usize,
    /// How many documents hold the term.
    pub df: usize,
}

impl View for BM25 {
    type V = Seq<Seq<Seq<char>>>;

    /// The tokens of each document.
    closed spec fn view(&self) -> Seq<Seq<Seq<char>>> {
        token_lists(self.documents@)
    }
}

impl BM25 {
    /// The counts agree with the documents.
    pub closed spec fn wf(self) -> bool {
        &&& self.n == self.documents@.len()
        &&& self.doc_lengths@.len() == self.documents@.len()
        &&& forall|i: int|
            0 <= i < self.documents@.len() ==> (#[trigger] self.doc_lengths@[i])
                == self.documents@[i]@.len()
        &&& counts_documents(self.df@, token_lists(self.documents@))
    }

    pub fn new() -> (r: Self)
        ensures
            r.wf(),
            r@.len() == 0,
    {
        let r = BM25 {
            documents: Vec::new(),
            doc_lengths: Vec::new(),
            df: StringHashMap::new(),
            n: 0,
        };
        r
    }

    /// Adds a document given by its tokens, and gives its index.
    pub fn add_tokens(&mut self, tokens: Vec<String>) -> (r: usize)
        requires
            old(self).wf(),
        ensures
            final(self).wf(),
            r == old(self)@.len(),
            final(self)@ == old(self)@.push(text::texts(tokens@)),
    {
        let doc_idx = self.documents.len();
        let size = tokens.len();
        let ghost docs = token_lists(self.documents@);
        let ghost ts = text::texts(tokens@);
        self.documents.push(tokens);
        let ghost all = self.documents@;
        proof {
            assert(token_lists(all) =~= docs.push(ts));
            assert(token_lists(all).drop_last() =~= docs);
        }
        let mut seen: StringHashMap<bool> = StringHashMap::new();
        let mut i: usize = 0;
        while i < size
            invariant
                i <= size == tokens@.len(),
                ts == text::texts(tokens@),
                self.documents@ == all,
                doc_idx + 1 == all.len() == self.documents.len(),
                all[doc_idx as int] == tokens,
                docs.len() == doc_idx,
                self.doc_lengths == old(self).doc_lengths,
                self.n == old(self).n,
                forall|t: Seq<char>|
                    #![trigger seen@.contains_key(t)]
                    seen@.contains_key(t) <==> ts.take(i as int).contains(t),
                forall|t: Seq<char>|
                    #![trigger self.df@.contains_key(t)]
                    self.df@.contains_key(t) <==> (docs_with(docs, t) > 0 || ts.take(
                        i as int,
                    ).contains(t)),
                forall|t: Seq<char>|
                    #![trigger self.df@[t]]
                    self.df@.contains_key(t) ==> self.df@[t] == docs_with(docs, t) + (if ts.take(
                        i as int,
                    ).contains(t) {
                        1nat
                    } else {
                        0nat
                    }),
            decreases size - i,
        {
            let ghost prev = ts.take(i as int);
            let ghost next = ts.take(i + 1);
            let ghost cur = tokens@[i as int]@;
            proof {
                assert(next =~= prev.push(cur));
                assert forall|t: Seq<char>| #[trigger] next.contains(t) <==> (prev.contains(t) || t
                    == cur) by {
                    if prev.contains(t) {
                        let q = choose|q: int| 0 <= q < prev.len() && prev[q] == t;
                        assert(next[q] == t);
                    }
                    if t == cur {
                        assert(next[i as int] == t);
                    }
                }
                lemma_docs_with_bound(docs, cur);
            }
            let token = self.documents[doc_idx][i].clone();
            if !seen.contains_key(token.as_str()) {
                let count: usize = match self.df.get(token.as_str()) {
                    Some(c) => *c,
                    None => 0,
                };
                self.df.insert(token.clone(), count + 1);
                seen.insert(token, true);
            }
            i = i + 1;
        }
        proof {
            assert(ts.take(tokens@.len() as int) =~= ts);
            let after = token_lists(all);
            assert forall|t: Seq<char>| #[trigger] docs_with(after, t) == docs_with(docs, t) + (
            if ts.contains(t) {
                1nat
            } else {
                0nat
            }) by {}
        }
        self.doc_lengths.push(size);
        self.n = self.documents.len();
        doc_idx
    }

    /// Adds a document, and gives its index.
    pub fn add_document(&mut self, s: &str) -> (r: usize)
        requires
            old(self).wf(),
        ensures
            final(self).wf(),
            r == old(self)@.len(),
            final(self)@ == old(self)@.push(tokens_of(normal_form(s@))),
    {
        let tokens = tokenize(s);
        self.add_tokens(tokens)
    }

    /// The number of documents.
    pub fn document_count(&self) -> (r: usize)
        requires
            self.wf(),
        ensures
            r == self@.len(),
    {
        self.n
    }

    /// The number of tokens of a document.
    pub fn document_length(&self, doc_idx: usize) -> (r: usize)
        requires
            self.wf(),
            doc_idx < self@.len(),
        ensures
            r == self@[doc_idx as int].len(),
    {
        self.doc_lengths[doc_idx]
    }

    /// The number of tokens of all documents together.
    pub fn total_length(&self) -> (r: u128)
        requires
            self.wf(),
        ensures
            r == all_lengths(self@),
    {
        let mut sum: u128 = 0;
        let mut i: usize = 0;
        while i < self.doc_lengths.len()
            invariant
                i <= self.doc_lengths@.len(),
                self.wf(),
                sum == all_lengths(self@.take(i as int)),
                sum <= i * 0xFFFF_FFFF_FFFF_FFFF,
            decreases self.doc_lengths.len() - i,
        {
            proof {
                assert(self@.take(i + 1).drop_last() =~= self@.take(i as int));
                assert(self@.take(i + 1).last() == self@[i as int]);
                assert(i * 0xFFFF_FFFF_FFFF_FFFF + 0xFFFF_FFFF_FFFF_FFFF == (i + 1)
                    * 0xFFFF_FFFF_FFFF_FFFF);
                assert((i + 1) * 0xFFFF_FFFF_FFFF_FFFF <= 0xFFFF_FFFF_FFFF_FFFF
                    * 0xFFFF_FFFF_FFFF_FFFF) by (nonlinear_arith)
                    requires
                        i + 1 <= 0xFFFF_FFFF_FFFF_FFFF,
                ;
            }
            sum = sum + self.doc_lengths[i] as u128;
            i = i + 1;
        }
        assert(self@.take(self@.len() as int) =~= self@);
        sum
    }

    /// How often each query token stands in a document, and in how many
    /// documents it stands.
    pub fn term_stats(&self, query: &Vec<String>, doc_idx: usize) -> (r: Vec<TermStats>)
        requires
            self.wf(),
            doc_idx < self@.len(),
        ensures
            r@.len() == query@.len(),
            forall|i: int|
                0 <= i < r@.len() ==> (#[trigger] r@[i]).tf == term_count(
                    self@[doc_idx as int],
                    query@[i]@,
                ) && r@[i].df == docs_with(self@, query@[i]@),
    {
        let mut out: Vec<TermStats> = Vec::new();
        let mut i: usize = 0;
        while i < query.len()
            invariant
                i <= query@.len(),
                self.wf(),
                doc_idx < self@.len(),
                out@.len() == i,
                forall|j: int|
                    0 <= j < i ==> (#[trigger] out@[j]).tf == term_count(
                        self@[doc_idx as int],
                        query@[j]@,
                    ) && out@[j].df == docs_with(self@, query@[j]@),
            decreases query.len() - i,
        {
            let tf = count_term(&self.documents[doc_idx], query[i].as_str());
            let df: usize = match self.df.get(query[i].as_str()) {
                Some(c) => *c,
                None => 0,
            };
            out.push(TermStats { tf, df });
            i = i + 1;
        }
        out
    }

    /// The documents with a score above zero, the greatest score first and equal
    /// scores in the order of the documents, at most `top_k` of them; none for a
    /// query without tokens. `scores` holds the score of each document by its
    /// ordering key.
    pub fn search(&self, query: &str, scores: &Vec<i64>, top_k: usize) -> (r: Vec<usize>)
        requires
            self.wf(),
            scores@.len() == self@.len(),
        ensures
            answers(query@, scores@, top_k as nat, r@),
    {
        let query_tokens = tokenize(query);
        assert(text::texts(query_tokens@).len() == query_tokens@.len());
        if query_tokens.len() == 0 {
            return Vec::new();
        }
        rank::best(scores, 1, top_k)
    }
}

/// What a search gives: nothing for a query without tokens, and else the documents
/// with a score above zero, the greatest score first and equal scores in the order
/// of the documents, at most `top_k` of them.
pub open spec fn answers(query: Seq<char>, scores: Seq<i64>, top_k: nat, r: Seq<usize>) -> bool {
    if tokens_of(normal_form(query)).len() == 0 {
        r.len() == 0
    } else {
        rank::is_best(scores, 1, top_k, r)
    }
}

/// A search for fewer documents gives the first of those that a search for more
/// gives.
pub proof fn smaller_searches_come_first(
    query: Seq<char>,
    scores: Seq<i64>,
    j: nat,
    k: nat,
    r1: Seq<usize>,
    r2: Seq<usize>,
)
    requires
        j <= k,
        answers(query, scores, j, r1),
        answers(query, scores, k, r2),
    ensures
        r1 == r2.take(if j < r2.len() { j as int } else { r2.len() as int }),
{
    if tokens_of(normal_form(query)).len() > 0 {
        rank::fewer_best_come_first(scores, 1, j, k, r1, r2);
    } else {
        assert(r1 =~= r2.take(if j < r2.len() { j as int } else { r2.len() as int }));
    }
}

/// The query and the document have a token in common.
pub open spec fn share_a_token(query: Seq<Seq<char>>, doc: Seq<Seq<char>>) -> bool {
    exists|t: Seq<char>| #[trigger] query.contains(t) && doc.contains(t)
}

/// The scores are above zero exactly for the documents in which some token of the
/// query occurs.
pub open spec fn scores_occurrences(
    scores: Seq<i64>,
    docs: Seq<Seq<Seq<char>>>,
    query: Seq<Seq<char>>,
) -> bool {
    &&& scores.len() == docs.len()
    &&& forall|i: int|
        0 <= i < docs.len() ==> ((#[trigger] scores[i]) >= 1 <==> exists|k: int|
            0 <= k < query.len() && #[trigger] term_count(docs[i], query[k]) > 0)
}

/// A token is counted where it occurs, and only there.
proof fn lemma_counted(doc: Seq<Seq<char>>, t: Seq<char>)
    ensures
        term_count(doc, t) > 0 <==> doc.contains(t),
    decreases doc.len(),
{
    if doc.len() > 0 {
        let front = doc.drop_last();
        lemma_counted(front, t);
        if front.contains(t) {
            let i = choose|i: int| 0 <= i < front.len() && front[i] == t;
            assert(doc[i] == t);
        }
        if doc.last() == t {
            assert(doc[doc.len() - 1] == t);
        }
        if doc.contains(t) && doc.last() != t {
            let i = choose|i: int| 0 <= i < doc.len() && doc[i] == t;
            assert(front[i] == t);
        }
    }
}

/// A search for as many documents as there are finds a document exactly where it
/// shares a token with the query, so it finds none without documents or without
/// tokens.
pub proof fn documents_with_a_common_token_are_found(
    query: Seq<char>,
    docs: Seq<Seq<Seq<char>>>,
    scores: Seq<i64>,
    top_k: nat,
    r: Seq<usize>,
)
    requires
        scores_occurrences(scores, docs, tokens_of(normal_form(query))),
        docs.len() <= usize::MAX,
        top_k >= docs.len(),
        answers(query, scores, top_k, r),
    ensures
        forall|i: int|
            0 <= i < docs.len() ==> (#[trigger] r.contains(i as usize) <==> share_a_token(
                tokens_of(normal_form(query)),
                docs[i],
            )),
        forall|p: int| 0 <= p < r.len() ==> (#[trigger] r[p]) < docs.len(),
        docs.len() == 0 || tokens_of(normal_form(query)).len() == 0 ==> r.len() == 0,
{
    let q = tokens_of(normal_form(query));
    if q.len() > 0 && docs.len() == 0 && r.len() > 0 {
        assert(r[0] < scores.len());
    }
    assert forall|i: int| 0 <= i < docs.len() implies (#[trigger] r.contains(i as usize)
        <==> share_a_token(q, docs[i])) by {
        assert((scores[i] >= 1) == share_a_token(q, docs[i])) by {
            if scores[i] >= 1 {
                let k = choose|k: int|
                    0 <= k < q.len() && #[trigger] term_count(docs[i], q[k]) > 0;
                lemma_counted(docs[i], q[k]);
                assert(q.contains(q[k]));
            }
            if share_a_token(q, docs[i]) {
                let t = choose|t: Seq<char>| #[trigger] q.contains(t) && docs[i].contains(t);
                lemma_counted(docs[i], t);
                let k = choose|k: int| 0 <= k < q.len() && q[k] == t;
                assert(term_count(docs[i], q[k]) > 0);
            }
        }
        if q.len() > 0 {
            rank::all_the_best(scores, 1, top_k, r);
        }
    }
}

/// The sum of the lengths of documents.
pub open spec fn all_lengths(docs: Seq<Seq<Seq<char>>>) -> nat
    decreases docs.len(),
{
    if docs.len() == 0 {
        0
    } else {
        all_lengths(docs.drop_last()) + docs.last().len()
    }
}

/// How often `t` stands in `doc`.
fn count_term(doc: &Vec<String>, t: &str) -> (r: usize)
    ensures
        r == term_count(text::texts(doc@), t@),
{
    let ghost ds = text::texts(doc@);
    let mut n: usize = 0;
    let mut i: usize = 0;
    while i < doc.len()
        invariant
            n <= i <= doc@.len(),
            ds == text::texts(doc@),
            n == term_count(ds.take(i as int), t@),
        decreases doc.len() - i,
    {
        proof {
            assert(ds.take(i + 1).drop_last() =~= ds.take(i as int));
            assert(ds.take(i + 1).last() == doc@[i as int]@);
        }
        if text::same(doc[i].as_str(), t) {
            n = n + 1;
        }
        i = i + 1;
    }
    assert(ds.take(doc@.len() as int) =~= ds);
    n
}

/// A token is counted as often as it stands in a document, a document once where it holds
/// the token, and the lengths of all documents together are that of one with all tokens.
pub proof fn counts_are_right(docs: Seq<Seq<Seq<char>>>, doc: Seq<Seq<char>>, t: Seq<char>)
    ensures
        term_count(doc, t) == doc.filter(|u: Seq<char>| u == t).len(),
        docs_with(docs, t) == docs.filter(|d: Seq<Seq<char>>| d.contains(t)).len(),
        all_lengths(docs) == docs.flatten().len(),
{
    lemma_term_count(doc, t);
    lemma_docs_with(docs, t);
    lemma_all_lengths(docs);
}

proof fn lemma_term_count(doc: Seq<Seq<char>>, t: Seq<char>)
    ensures
        term_count(doc, t) == doc.filter(|u: Seq<char>| u == t).len(),
    decreases doc.len(),
{
    reveal(Seq::filter);
    if doc.len() > 0 {
        lemma_term_count(doc.drop_last(), t);
    }
}

proof fn lemma_docs_with(docs: Seq<Seq<Seq<char>>>, t: Seq<char>)
    ensures
        docs_with(docs, t) == docs.filter(|d: Seq<Seq<char>>| d.contains(t)).len(),
    decreases docs.len(),
{
    reveal(Seq::filter);
    if docs.len() > 0 {
        lemma_docs_with(docs.drop_last(), t);
    }
}

proof fn lemma_all_lengths(docs: Seq<Seq<Seq<char>>>)
    ensures
        all_lengths(docs) == docs.flatten().len(),
    decreases docs.len(),
{
    if docs.len() > 0 {
        lemma_all_lengths(docs.drop_last());
        assert(docs.drop_last().push(docs.last()) =~= docs);
        docs.drop_last().lemma_flatten_push(docs.last());
    }
}

/// A stem is the beginning of its word. What is cut off is an ending, and more than two bytes
/// remain; a word of at most three bytes is its own stem.
pub proof fn stems_begin_their_words(w: Seq<char>)
    ensures
        stemmed(w).is_prefix_of(w),
        bytes::byte_len(w) <= 3 ==> stemmed(w) == w,
        stemmed(w) != w ==> endings().contains(w.skip(stemmed(w).len() as int)),
        stemmed(w) == w ==> bytes::byte_len(w) <= 3 || forall|i: int|
            0 <= i < endings().len() ==> !(text::ends_in(w, #[trigger] endings()[i])
                && bytes::byte_len(w) > bytes::byte_len(endings()[i]) + 2),
{
    lemma_cut_ending(w, endings(), 0);
    lemma_endings_are_some();
    assert(w.subrange(0, w.len() as int) =~= w);
}

proof fn lemma_endings_are_some()
    ensures
        forall|i: int| 0 <= i < endings().len() ==> (#[trigger] endings()[i]).len() > 0,
{
    reveal_strlit("ement");
    reveal_strlit("ment");
    reveal_strlit("ness");
    reveal_strlit("tion");
    reveal_strlit("sion");
    reveal_strlit("ling");
    reveal_strlit("ing");
    reveal_strlit("ies");
    reveal_strlit("ous");
    reveal_strlit("ive");
    reveal_strlit("able");
    reveal_strlit("ful");
    reveal_strlit("less");
    reveal_strlit("ated");
    reveal_strlit("ize");
    reveal_strlit("ise");
    reveal_strlit("ate");
    reveal_strlit("ly");
    reveal_strlit("ed");
    reveal_strlit("er");
    reveal_strlit("es");
    reveal_strlit("al");
    reveal_strlit("en");
    reveal_strlit("s");
}

proof fn lemma_cut_ending(w: Seq<char>, all: Seq<Seq<char>>, i: int)
    requires
        0 <= i,
    ensures
        cut_ending(w, all, i) == w && (forall|k: int|
            i <= k < all.len() ==> !(text::ends_in(w, #[trigger] all[k]) && bytes::byte_len(w)
                > bytes::byte_len(all[k]) + 2)) || exists|k: int|
            i <= k < all.len() && text::ends_in(w, #[trigger] all[k]) && cut_ending(w, all, i)
                == w.take(w.len() - all[k].len()) && w.skip(
                w.len() - all[k].len(),
            ) == all[k],
        cut_ending(w, all, i).is_prefix_of(w),
    decreases all.len() - i,
{
    if i < all.len() {
        if bytes::byte_len(w) > bytes::byte_len(all[i]) + 2 && text::ends_in(w, all[i]) {
            let n = w.len() - all[i].len();
            assert(w.skip(n) =~= w.subrange(n, n + all[i].len()));
            assert(w.take(n).is_prefix_of(w)) by {
                assert(w.subrange(0, n) =~= w.take(n));
            }
        } else {
            lemma_cut_ending(w, all, i + 1);
        }
    }
    assert(w.subrange(0, w.len() as int) =~= w);
}

/// Marks of punctuation leave a text, and letters, digits, white space and apostrophes stay
/// where they are.
pub proof fn letters_stay_in_the_text(a: Seq<char>, c: char, b: Seq<char>)
    ensures
        lines::alnum(c) || c == ' ' || c == '\'' || c as u32 >= 128 ==> without_marks(
            a + seq![c] + b,
        ) == without_marks(a) + seq![c] + without_marks(b),
        c == '.' || c == ',' || c == '!' || c == '?' || c == ';' || c == ':' || c == '-' || c == '"'
            ==> without_marks(a + seq![c] + b) == without_marks(a + b),
{
    reveal(Seq::filter);
    let p = |c: char| !dropped_mark(c);
    let one = seq![c];
    lemma_marks_concat(a + one, b);
    lemma_marks_concat(a, one);
    lemma_marks_concat(a, b);
    assert(one.drop_last() =~= Seq::<char>::empty());
    assert(Seq::<char>::empty().filter(p) =~= Seq::<char>::empty());
    if dropped_mark(c) {
        assert(one.filter(p) =~= Seq::<char>::empty());
        assert(without_marks(a) + without_marks(one) =~= without_marks(a));
    } else {
        assert(one.filter(p) =~= one);
    }
}

} // verus!
