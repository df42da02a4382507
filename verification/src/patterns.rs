//! The regular expressions the library searches with, and what they match.
use vstd::prelude::*;

use crate::outside;
use crate::text;

verus! {

/// An action tag: a name of capital letters and underscores in square brackets.
pub const ACTION_TAG: &'static str = r"\[([A-Z_]+)\]";

/// A coin symbol behind a dollar sign.
pub const SYMBOL: &'static str = r"\$([A-Z0-9]{2,12})";

/// `{{#each name}}..{{/each}}`.
pub const EACH_BLOCK: &'static str = r"\{\{#each\s+(\w+)\}\}([\s\S]*?)\{\{/each\}\}";

/// `{{#unless name}}..{{/unless}}`.
pub const UNLESS_BLOCK: &'static str = r"\{\{#unless\s+(\w+)\}\}([\s\S]*?)\{\{/unless\}\}";

/// `{{#if name}}`, `{{else}}` or `{{/if}}`.
pub const IF_MARK: &'static str = r"\{\{#if\s+(\w+)\}\}|\{\{else\}\}|\{\{/if\}\}";

/// `{{name}}`.
pub const VARIABLE: &'static str = r"\{\{(\w+)\}\}";

/// `<read_file>..</read_file>` on one line.
pub const READ_TAG: &'static str = r"<read_file>(.*?)</read_file>";

/// `<write_file path="..">..</write_file>`.
pub const WRITE_TAG: &'static str = r#"<write_file\s+path="([^"]+)">([\s\S]*?)</write_file>"#;

/// `<edit_file path=".."><old>..</old><new>..</new></edit_file>`.
pub const EDIT_TAG: &'static str =
    r#"<edit_file\s+path="([^"]+)">\s*<old>([\s\S]*?)</old>\s*<new>([\s\S]*?)</new>\s*</edit_file>"#;

/// `<run>..</run>`.
pub const RUN_TAG: &'static str = r"<run>([\s\S]*?)</run>";

/// `<search>..</search>`, with a path or without.
pub const SEARCH_TAG: &'static str = r#"<search(?:\s+path="([^"]*)")?>([^<]*)</search>"#;

/// `<ls>..</ls>` on one line.
pub const LS_TAG: &'static str = r"<ls>(.*?)</ls>";

/// `<done>..</done>`.
pub const DONE_TAG: &'static str = r"<done>([\s\S]*?)</done>";

/// The regular expressions above.
#[derive(Clone, Copy, Debug, PartialEq, Eq, Structural)]
pub enum Pattern {
    ActionTag,
    Symbol,
    EachBlock,
    UnlessBlock,
    IfMark,
    Variable,
    ReadTag,
    WriteTag,
    EditTag,
    RunTag,
    SearchTag,
    LsTag,
    DoneTag,
}

/// A match: where it ends, and what the groups behind the whole hold.
pub struct Found {
    pub end: int,
    pub groups: Seq<Option<Seq<char>>>,
}

// ---------------------------------------------------------------------------
// Runs of characters
// ---------------------------------------------------------------------------

/// The classes of characters that the expressions repeat.
pub enum Class {
    /// White space.
    White,
    /// What names are made of.
    Word,
    /// What action names are made of.
    Tag,
    /// Everything but a double quote.
    Unquoted,
    /// Everything but an opening angle bracket.
    Untagged,
}

/// A letter, a digit or an underscore; outside ASCII, what `regex` counts among
/// them.
pub open spec fn word(c: char) -> bool {
    if (c as u32) < 128 {
        'a' <= c <= 'z' || 'A' <= c <= 'Z' || '0' <= c <= '9' || c == '_'
    } else {
        outside::word_char(c)
    }
}

/// A capital letter or an underscore.
pub open spec fn tag_char(c: char) -> bool {
    'A' <= c <= 'Z' || c == '_'
}

/// A capital letter or a digit.
pub open spec fn symbol_char(c: char) -> bool {
    'A' <= c <= 'Z' || '0' <= c <= '9'
}

impl Class {
    /// The class holds the character.
    pub open spec fn holds(self, c: char) -> bool {
        match self {
            Class::White => text::white(c),
            Class::Word => word(c),
            Class::Tag => tag_char(c),
            Class::Unquoted => c != '"',
            Class::Untagged => c != '<',
        }
    }
}

/// The end of the longest run of characters of a class that begins at `i`.
pub open spec fn run_end(s: Seq<char>, i: int, class: Class) -> int
    decreases s.len() - i,
{
    if 0 <= i < s.len() && class.holds(s[i]) {
        run_end(s, i + 1, class)
    } else {
        i
    }
}

/// The number of characters from position `i` on that are capital letters or
/// digits, counted up to `max`.
pub open spec fn symbol_len(s: Seq<char>, i: int, max: nat) -> nat
    decreases max,
{
    if max > 0 && 0 <= i < s.len() && symbol_char(s[i]) {
        1 + symbol_len(s, i + 1, (max - 1) as nat)
    } else {
        0
    }
}

/// No line feed stands in `s` from `a` up to `b`.
pub open spec fn on_one_line(s: Seq<char>, a: int, b: int) -> bool {
    forall|k: int| a <= k < b ==> #[trigger] s[k] != '\n'
}

// ---------------------------------------------------------------------------
// What matches at a position
// ---------------------------------------------------------------------------

/// A name between `open` and `close` at position `i`.
pub open spec fn name_at(
    s: Seq<char>,
    i: int,
    open: Seq<char>,
    class: Class,
    close: Seq<char>,
) -> Option<Found> {
    let a = i + open.len();
    let b = run_end(s, a, class);
    if text::occurs_at(s, open, i) && a < b && text::occurs_at(s, close, b) {
        Some(Found { end: b + close.len(), groups: seq![Some(s.subrange(a, b))] })
    } else {
        None
    }
}

/// A symbol of two to twelve characters behind a dollar sign at position `i`.
pub open spec fn symbol_at(s: Seq<char>, i: int) -> Option<Found> {
    let n = symbol_len(s, i + 1, 12);
    if 0 <= i < s.len() && s[i] == '$' && n >= 2 {
        Some(Found { end: i + 1 + n, groups: seq![Some(s.subrange(i + 1, i + 1 + n))] })
    } else {
        None
    }
}

/// Where the name begins and ends in the head of a block at position `i`: `open`,
/// white space, the name and two closing braces.
pub open spec fn head_at(s: Seq<char>, i: int, open: Seq<char>) -> Option<(int, int)> {
    let a = i + open.len();
    let b = run_end(s, a, Class::White);
    let c = run_end(s, b, Class::Word);
    if text::occurs_at(s, open, i) && a < b && b < c && text::occurs_at(s, "}}"@, c) {
        Some((b, c))
    } else {
        None
    }
}

/// A block at position `i`: its head, and behind it a body up to the next `close`.
pub open spec fn block_at(
    s: Seq<char>,
    i: int,
    open: Seq<char>,
    close: Seq<char>,
) -> Option<Found> {
    match head_at(s, i, open) {
        Some((b, c)) => match text::first_at(s, close, c + 2) {
            Some(j) => Some(
                Found {
                    end: j + close.len(),
                    groups: seq![Some(s.subrange(b, c)), Some(s.subrange(c + 2, j))],
                },
            ),
            None => None,
        },
        None => None,
    }
}

/// The head, the divider or the end of a condition at position `i`.
pub open spec fn mark_at(s: Seq<char>, i: int) -> Option<Found> {
    match head_at(s, i, "{{#if"@) {
        Some((b, c)) => Some(Found { end: c + 2, groups: seq![Some(s.subrange(b, c))] }),
        None => if text::occurs_at(s, "{{else}}"@, i) {
            Some(Found { end: i + 8, groups: seq![None] })
        } else if text::occurs_at(s, "{{/if}}"@, i) {
            Some(Found { end: i + 7, groups: seq![None] })
        } else {
            None
        },
    }
}

/// A tag at position `i`: what stands between `open` and the next `close`; where
/// `one_line`, it stands on one line.
pub open spec fn tag_at(
    s: Seq<char>,
    i: int,
    open: Seq<char>,
    close: Seq<char>,
    one_line: bool,
) -> Option<Found> {
    let a = i + open.len();
    match text::first_at(s, close, a) {
        Some(j) => if text::occurs_at(s, open, i) && (one_line ==> on_one_line(s, a, j)) {
            Some(Found { end: j + close.len(), groups: seq![Some(s.subrange(a, j))] })
        } else {
            None
        },
        None => None,
    }
}

/// Where the path begins and ends in a tag at position `i`: `open`, white space
/// and the path in an attribute, with which the tag ends.
pub open spec fn path_at(s: Seq<char>, i: int, open: Seq<char>) -> Option<(int, int)> {
    let a = i + open.len();
    let b = run_end(s, a, Class::White);
    let c = run_end(s, b + 6, Class::Unquoted);
    if text::occurs_at(s, open, i) && a < b && text::occurs_at(s, "path=\""@, b)
        && text::occurs_at(s, "\">"@, c) {
        Some((b + 6, c))
    } else {
        None
    }
}

/// A `write_file` tag at position `i`.
pub open spec fn write_at(s: Seq<char>, i: int) -> Option<Found> {
    match path_at(s, i, "<write_file"@) {
        Some((b, c)) => match text::first_at(s, "</write_file>"@, c + 2) {
            Some(j) => if b < c {
                Some(
                    Found {
                        end: j + 13,
                        groups: seq![Some(s.subrange(b, c)), Some(s.subrange(c + 2, j))],
                    },
                )
            } else {
                None
            },
            None => None,
        },
        None => None,
    }
}

/// The first `</new>` at or after `j` behind which, but for white space, the
/// `edit_file` tag closes.
pub open spec fn new_close(s: Seq<char>, j: int) -> Option<int>
    decreases s.len() - j,
{
    if j < 0 || j >= s.len() {
        None
    } else if text::occurs_at(s, "</new>"@, j) && text::occurs_at(
        s,
        "</edit_file>"@,
        run_end(s, j + 6, Class::White),
    ) {
        Some(j)
    } else {
        new_close(s, j + 1)
    }
}

/// The first `</old>` at or after `j` behind which, but for white space, the rest
/// of an `edit_file` tag follows.
pub open spec fn old_close(s: Seq<char>, j: int) -> Option<int>
    decreases s.len() - j,
{
    let n = run_end(s, j + 6, Class::White);
    if j < 0 || j >= s.len() {
        None
    } else if text::occurs_at(s, "</old>"@, j) && text::occurs_at(s, "<new>"@, n) && new_close(
        s,
        n + 5,
    ) is Some {
        Some(j)
    } else {
        old_close(s, j + 1)
    }
}

/// An `edit_file` tag at position `i`.
pub open spec fn edit_at(s: Seq<char>, i: int) -> Option<Found> {
    match path_at(s, i, "<edit_file"@) {
        Some((b, c)) => {
            let o = run_end(s, c + 2, Class::White);
            match old_close(s, o + 5) {
                Some(j) => {
                    let n = run_end(s, j + 6, Class::White) + 5;
                    let k = new_close(s, n).unwrap();
                    if b < c && text::occurs_at(s, "<old>"@, o) {
                        Some(
                            Found {
                                end: run_end(s, k + 6, Class::White) + 12,
                                groups: seq![
                                    Some(s.subrange(b, c)),
                                    Some(s.subrange(o + 5, j)),
                                    Some(s.subrange(n, k)),
                                ],
                            },
                        )
                    } else {
                        None
                    }
                },
                None => None,
            }
        },
        None => None,
    }
}

/// The closing of a `search` tag whose pattern begins at `t`.
pub open spec fn search_close(s: Seq<char>, path: Option<Seq<char>>, t: int) -> Option<Found> {
    let u = run_end(s, t, Class::Untagged);
    if text::occurs_at(s, "</search>"@, u) {
        Some(Found { end: u + 9, groups: seq![path, Some(s.subrange(t, u))] })
    } else {
        None
    }
}

/// A `search` tag at position `i`.
pub open spec fn search_at(s: Seq<char>, i: int) -> Option<Found> {
    if text::occurs_at(s, "<search>"@, i) {
        search_close(s, None, i + 8)
    } else {
        match path_at(s, i, "<search"@) {
            Some((b, c)) => search_close(s, Some(s.subrange(b, c)), c + 2),
            None => None,
        }
    }
}

impl Pattern {
    /// The expression.
    pub open spec fn source(self) -> Seq<char> {
        match self {
            Pattern::ActionTag => ACTION_TAG@,
            Pattern::Symbol => SYMBOL@,
            Pattern::EachBlock => EACH_BLOCK@,
            Pattern::UnlessBlock => UNLESS_BLOCK@,
            Pattern::IfMark => IF_MARK@,
            Pattern::Variable => VARIABLE@,
            Pattern::ReadTag => READ_TAG@,
            Pattern::WriteTag => WRITE_TAG@,
            Pattern::EditTag => EDIT_TAG@,
            Pattern::RunTag => RUN_TAG@,
            Pattern::SearchTag => SEARCH_TAG@,
            Pattern::LsTag => LS_TAG@,
            Pattern::DoneTag => DONE_TAG@,
        }
    }

    /// What the expression matches at position `i` of `s`.
    #[verifier::opaque]
    pub open spec fn at(self, s: Seq<char>, i: int) -> Option<Found> {
        match self {
            Pattern::ActionTag => name_at(s, i, seq!['['], Class::Tag, seq![']']),
            Pattern::Symbol => symbol_at(s, i),
            Pattern::EachBlock => block_at(s, i, "{{#each"@, "{{/each}}"@),
            Pattern::UnlessBlock => block_at(s, i, "{{#unless"@, "{{/unless}}"@),
            Pattern::IfMark => mark_at(s, i),
            Pattern::Variable => name_at(s, i, seq!['{', '{'], Class::Word, seq!['}', '}']),
            Pattern::ReadTag => tag_at(s, i, "<read_file>"@, "</read_file>"@, true),
            Pattern::WriteTag => write_at(s, i),
            Pattern::EditTag => edit_at(s, i),
            Pattern::RunTag => tag_at(s, i, "<run>"@, "</run>"@, false),
            Pattern::SearchTag => search_at(s, i),
            Pattern::LsTag => tag_at(s, i, "<ls>"@, "</ls>"@, true),
            Pattern::DoneTag => tag_at(s, i, "<done>"@, "</done>"@, false),
        }
    }

    /// The matches in `s` from position `i` on, from left to right and without
    /// overlaps: for each the whole, and behind it what its groups hold.
    pub open spec fn matches(self, s: Seq<char>, i: int) -> Seq<Seq<Option<Seq<char>>>>
        decreases s.len() - i,
    {
        if i < 0 || i >= s.len() {
            Seq::empty()
        } else {
            match self.at(s, i) {
                Some(f) => if i < f.end <= s.len() {
                    seq![seq![Some(s.subrange(i, f.end))] + f.groups] + self.matches(s, f.end)
                } else {
                    self.matches(s, i + 1)
                },
                None => self.matches(s, i + 1),
            }
        }
    }

    /// What stands before, between and behind the matches in `s`, from `start`
    /// on and with the matches from position `i` on.
    pub open spec fn gaps(self, s: Seq<char>, start: int, i: int) -> Seq<Seq<char>>
        decreases s.len() - i,
    {
        if i < 0 || i >= s.len() {
            seq![s.subrange(start, s.len() as int)]
        } else {
            match self.at(s, i) {
                Some(f) => if i < f.end <= s.len() {
                    seq![s.subrange(start, i)] + self.gaps(s, f.end, f.end)
                } else {
                    self.gaps(s, start, i + 1)
                },
                None => self.gaps(s, start, i + 1),
            }
        }
    }

    /// The first group behind the whole may take no part.
    pub open spec fn has_option(self) -> bool {
        self == Pattern::SearchTag || self == Pattern::IfMark
    }

    /// The number of groups behind the whole.
    pub open spec fn groups(self) -> nat {
        match self {
            Pattern::ActionTag | Pattern::Symbol | Pattern::Variable | Pattern::IfMark
            | Pattern::ReadTag | Pattern::RunTag | Pattern::LsTag | Pattern::DoneTag => 1,
            Pattern::EachBlock | Pattern::UnlessBlock | Pattern::WriteTag
            | Pattern::SearchTag => 2,
            Pattern::EditTag => 3,
        }
    }
}

/// One of the expressions.
pub open spec fn known(source: Seq<char>) -> bool {
    exists|p: Pattern| #[trigger] p.source() == source
}

// ---------------------------------------------------------------------------
// Matches and gaps
// ---------------------------------------------------------------------------

/// The views of captured groups.
pub open spec fn groups_of(v: Seq<Vec<Option<String>>>) -> Seq<Seq<Option<Seq<char>>>> {
    v.map_values(|m: Vec<Option<String>>| m@.map_values(|o: Option<String>| text::opt_text(o)))
}

/// Every match has `n` groups, and all of them took part.
pub open spec fn all_take_part(m: Seq<Seq<Option<Seq<char>>>>, n: nat) -> bool {
    forall|k: int|
        0 <= k < m.len() ==> (#[trigger] m[k]).len() == n && forall|g: int|
            0 <= g < n ==> (#[trigger] m[k][g]) is Some
}

/// The texts of group `g` of matches in which it took part.
pub open spec fn group_texts(m: Seq<Seq<Option<Seq<char>>>>, g: int) -> Seq<Seq<char>> {
    m.map_values(|x: Seq<Option<Seq<char>>>| x[g].unwrap())
}

/// `gaps[0] fills[0] gaps[1] .. fills[n - 1] gaps[n]`.
pub open spec fn spliced(gaps: Seq<Seq<char>>, fills: Seq<Seq<char>>, n: nat) -> Seq<char>
    decreases n,
{
    if n == 0 {
        gaps[0]
    } else {
        spliced(gaps, fills, (n - 1) as nat) + fills[n - 1] + gaps[n as int]
    }
}

/// Texts one after the other.
pub open spec fn concat(parts: Seq<Seq<char>>) -> Seq<char>
    decreases parts.len(),
{
    if parts.len() == 0 {
        Seq::empty()
    } else {
        concat(parts.drop_last()) + parts.last()
    }
}

/// The first symbol of two to twelve characters behind a dollar sign, from
/// position `i` on.
pub open spec fn first_symbol(s: Seq<char>, i: int) -> Option<Seq<char>>
    decreases s.len() - i,
{
    if i < 0 || i >= s.len() {
        None
    } else if s[i] == '$' && symbol_len(s, i + 1, 12) >= 2 {
        Some(s.subrange(i + 1, i + 1 + symbol_len(s, i + 1, 12)))
    } else {
        first_symbol(s, i + 1)
    }
}

/// The characters that are counted stand in the text.
pub proof fn lemma_symbol_len(s: Seq<char>, i: int, max: nat)
    requires
        0 <= i <= s.len(),
    ensures
        i + symbol_len(s, i, max) <= s.len(),
    decreases max,
{
    if max > 0 && i < s.len() && symbol_char(s[i]) {
        lemma_symbol_len(s, i + 1, (max - 1) as nat);
    }
}

/// A run of a class ends where its first stranger stands.
pub proof fn lemma_run_end(s: Seq<char>, i: int, k: int, class: Class)
    requires
        0 <= i <= k <= s.len(),
        forall|j: int| i <= j < k ==> class.holds(#[trigger] s[j]),
        k < s.len() ==> !class.holds(s[k]),
    ensures
        run_end(s, i, class) == k,
    decreases k - i,
{
    if i < k {
        assert(class.holds(s[i]));
        lemma_run_end(s, i + 1, k, class);
    }
}

/// A run lies in the text.
pub proof fn lemma_run_bounds(s: Seq<char>, i: int, class: Class)
    requires
        0 <= i <= s.len(),
    ensures
        i <= run_end(s, i, class) <= s.len(),
        forall|j: int| i <= j < run_end(s, i, class) ==> class.holds(#[trigger] s[j]),
        run_end(s, i, class) < s.len() ==> !class.holds(
            s[run_end(s, i, class)],
        ),
    decreases s.len() - i,
{
    if i < s.len() && class.holds(s[i]) {
        lemma_run_bounds(s, i + 1, class);
    }
}

/// The first match of a symbol holds the first symbol.
pub proof fn lemma_first_symbol(s: Seq<char>, i: int)
    requires
        0 <= i,
    ensures
        first_symbol(s, i) == if Pattern::Symbol.matches(s, i).len() > 0 {
            Pattern::Symbol.matches(s, i)[0][1]
        } else {
            None
        },
    decreases s.len() - i,
{
    reveal(Pattern::at);
    if i < s.len() {
        lemma_symbol_len(s, i + 1, 12);
        match Pattern::Symbol.at(s, i) {
            Some(f) => {
                let whole = seq![Some(s.subrange(i, f.end))];
                assert((whole + f.groups)[1] == f.groups[0]);
            },
            None => {
                lemma_first_symbol(s, i + 1);
            },
        }
    }
}

/// A match has the groups of its expression, and all but the path of a search
/// and the name of a mark take part.
pub proof fn lemma_groups_take_part(p: Pattern, s: Seq<char>, i: int)
    ensures
        match p.at(s, i) {
            Some(f) => f.groups.len() == p.groups() && (forall|g: int|
                0 <= g < f.groups.len() && !(p.has_option() && g == 0)
                    ==> (#[trigger] f.groups[g]) is Some),
            None => true,
        },
{
    reveal(Pattern::at);
}

/// Each match has the groups of its expression, and all but the path of a search
/// and the name of a mark take part.
pub proof fn lemma_all_take_part(p: Pattern, s: Seq<char>, i: int, k: int)
    requires
        0 <= k < p.matches(s, i).len(),
    ensures
        p.matches(s, i)[k].len() == p.groups() + 1,
        forall|g: int|
            0 <= g < p.matches(s, i)[k].len() && !(p.has_option() && g == 1)
                ==> (#[trigger] p.matches(s, i)[k][g]) is Some,
    decreases s.len() - i,
{
    lemma_groups_take_part(p, s, i);
    match p.at(s, i) {
        Some(f) => {
            if i < f.end <= s.len() {
                if k > 0 {
                    lemma_all_take_part(p, s, f.end, k - 1);
                    assert(p.matches(s, i)[k] == p.matches(s, f.end)[k - 1]);
                }
            } else {
                lemma_all_take_part(p, s, i + 1, k);
            }
        },
        None => {
            lemma_all_take_part(p, s, i + 1, k);
        },
    }
}

/// There is one gap more than there are matches.
pub proof fn lemma_gaps_between(p: Pattern, s: Seq<char>, start: int, i: int)
    ensures
        p.gaps(s, start, i).len() == p.matches(s, i).len() + 1,
    decreases s.len() - i,
{
    if 0 <= i < s.len() {
        match p.at(s, i) {
            Some(f) => {
                if i < f.end <= s.len() {
                    lemma_gaps_between(p, s, f.end, f.end);
                } else {
                    lemma_gaps_between(p, s, start, i + 1);
                }
            },
            None => {
                lemma_gaps_between(p, s, start, i + 1);
            },
        }
    }
}

/// Where an expression matches nowhere, all the text is one gap.
pub proof fn lemma_no_match(p: Pattern, s: Seq<char>, start: int, i: int)
    requires
        forall|j: int| i <= j < s.len() ==> (#[trigger] p.at(s, j)) is None,
    ensures
        p.matches(s, i).len() == 0,
        p.gaps(s, start, i) == seq![s.subrange(start, s.len() as int)],
    decreases s.len() - i,
{
    if 0 <= i < s.len() {
        lemma_no_match(p, s, start, i + 1);
    }
}

/// Where an expression matches once, there is one match between two gaps.
pub proof fn lemma_one_match(p: Pattern, s: Seq<char>, start: int, i: int, k: int, f: Found)
    requires
        0 <= i <= k < f.end <= s.len(),
        forall|j: int| i <= j < k ==> (#[trigger] p.at(s, j)) is None,
        p.at(s, k) == Some(f),
        forall|j: int| f.end <= j < s.len() ==> (#[trigger] p.at(s, j)) is None,
    ensures
        p.matches(s, i) == seq![seq![Some(s.subrange(k, f.end))] + f.groups],
        p.gaps(s, start, i) == seq![s.subrange(start, k), s.subrange(f.end, s.len() as int)],
    decreases k - i,
{
    if i < k {
        assert(p.at(s, i) is None);
        lemma_one_match(p, s, start, i + 1, k, f);
    } else {
        lemma_no_match(p, s, f.end, f.end);
        let first = seq![Some(s.subrange(k, f.end))] + f.groups;
        assert(p.matches(s, i) =~= seq![first]);
        assert(p.gaps(s, start, i) =~= seq![
            s.subrange(start, k),
            s.subrange(f.end, s.len() as int),
        ]);
    }
}

} // verus!
