//! Tools in tags: what is written in a tag is what is read.
use vstd::prelude::*;

use crate::passages;
use crate::patterns;
use crate::patterns::{Class, Found, Pattern};
use crate::text;
use crate::tools;
use crate::tools::{Tool, ToolKind, ToolRequest, ToolView};

verus! {

/// The text begins with an angle bracket and holds no other.
pub open spec fn led(p: Seq<char>) -> bool {
    p.len() > 0 && p[0] == '<' && forall|i: int| 1 <= i < p.len() ==> #[trigger] p[i] != '<'
}

/// How the tag of a tool begins.
pub open spec fn opening(kind: ToolKind) -> Seq<char> {
    match kind {
        ToolKind::Read => "<read_file>"@,
        ToolKind::Write => "<write_file"@,
        ToolKind::Edit => "<edit_file"@,
        ToolKind::Run => "<run>"@,
        ToolKind::Search => "<search"@,
        ToolKind::Ls => "<ls>"@,
        ToolKind::Done => "<done>"@,
    }
}

/// How the tag of a tool ends.
pub open spec fn closing(kind: ToolKind) -> Seq<char> {
    match kind {
        ToolKind::Read => "</read_file>"@,
        ToolKind::Write => "</write_file>"@,
        ToolKind::Edit => "</edit_file>"@,
        ToolKind::Run => "</run>"@,
        ToolKind::Search => "</search>"@,
        ToolKind::Ls => "</ls>"@,
        ToolKind::Done => "</done>"@,
    }
}

proof fn lemma_literals(kind: ToolKind)
    ensures
        led(opening(kind)),
        led(closing(kind)),
{
    match kind {
        ToolKind::Read => {
            reveal_strlit("<read_file>");
            reveal_strlit("</read_file>");
        },
        ToolKind::Write => {
            reveal_strlit("<write_file");
            reveal_strlit("</write_file>");
        },
        ToolKind::Edit => {
            reveal_strlit("<edit_file");
            reveal_strlit("</edit_file>");
        },
        ToolKind::Run => {
            reveal_strlit("<run>");
            reveal_strlit("</run>");
        },
        ToolKind::Search => {
            reveal_strlit("<search");
            reveal_strlit("</search>");
        },
        ToolKind::Ls => {
            reveal_strlit("<ls>");
            reveal_strlit("</ls>");
        },
        ToolKind::Done => {
            reveal_strlit("<done>");
            reveal_strlit("</done>");
        },
    }
}

/// Where a tool is found, its tag begins.
proof fn lemma_opens(kind: ToolKind, s: Seq<char>, j: int)
    requires
        kind.pattern().at(s, j) is Some,
    ensures
        text::occurs_at(s, opening(kind), j),
{
    reveal(Pattern::at);
    if kind == ToolKind::Search && text::occurs_at(s, "<search>"@, j) {
        reveal_strlit("<search>");
        reveal_strlit("<search");
        let long = s.subrange(j, j + 8);
        assert(s.subrange(j, j + 7) =~= long.take(7));
        assert("<search>"@.take(7) =~= "<search"@);
    }
}

/// What does not stand in `x` does not begin in it either, where what follows
/// begins with an angle bracket.
proof fn lemma_not_across(x: Seq<char>, y: Seq<char>, p: Seq<char>, j: int)
    requires
        led(p),
        !text::has(x, p),
        y.len() > 0,
        y[0] == '<',
        j < x.len(),
    ensures
        !text::occurs_at(x + y, p, j),
{
    let s = x + y;
    if text::occurs_at(s, p, j) {
        let part = s.subrange(j, j + p.len());
        if j + p.len() <= x.len() {
            assert(x.subrange(j, j + p.len()) =~= part);
            assert(text::occurs_at(x, p, j));
        } else {
            let i = x.len() - j;
            assert(part[i] == s[x.len() as int]);
            assert(p[i] == '<');
        }
    }
}

/// What does not stand in `y` does not stand in it behind `x`.
proof fn lemma_not_behind(x: Seq<char>, y: Seq<char>, p: Seq<char>, j: int)
    requires
        !text::occurs_at(y, p, j - x.len()),
        x.len() <= j,
    ensures
        !text::occurs_at(x + y, p, j),
{
    if text::occurs_at(x + y, p, j) {
        let i = j - x.len();
        assert(y.subrange(i, i + p.len()) =~= (x + y).subrange(j, j + p.len()));
    }
}

/// A literal stands behind `x` where it begins what follows.
proof fn lemma_stands(x: Seq<char>, p: Seq<char>, y: Seq<char>)
    ensures
        text::occurs_at(x + (p + y), p, x.len() as int),
{
    let s = x + (p + y);
    assert(s.subrange(x.len() as int, (x.len() + p.len()) as int) =~= p);
}

/// The first place where `p` stands in `x + body + p + y`, behind `x`.
proof fn lemma_first_behind(x: Seq<char>, body: Seq<char>, p: Seq<char>, y: Seq<char>)
    requires
        led(p),
        !text::has(body, p),
    ensures
        text::first_at(x + (body + (p + y)), p, x.len() as int) == Some(
            (x.len() + body.len()) as int,
        ),
{
    let rest = body + (p + y);
    let s = x + rest;
    let j = (x.len() + body.len()) as int;
    lemma_stands(x + body, p, y);
    assert((x + body) + (p + y) =~= s);
    assert forall|i: int| x.len() <= i < j implies !#[trigger] text::occurs_at(s, p, i) by {
        lemma_not_across(body, p + y, p, i - x.len());
        lemma_not_behind(x, rest, p, i);
    }
    text::lemma_first_at_is(s, p, x.len() as int, j);
}

/// A tool that is found once, between text in which no tag of its kind begins, is
/// the one tool of its kind.
proof fn lemma_sole(kind: ToolKind, before: Seq<char>, tag: Seq<char>, behind: Seq<char>, f: Found)
    requires
        !text::has(before, opening(kind)),
        !text::has(behind, opening(kind)),
        tag.len() > 0,
        tag[0] == '<',
        f.end == before.len() + tag.len(),
        kind.pattern().at(before + (tag + behind), before.len() as int) == Some(f),
    ensures
        tools::tools_of_kind(kind, before + (tag + behind)) == seq![
            tools::tool_of(kind, seq![Some(tag)] + f.groups),
        ],
{
    let s = before + (tag + behind);
    let p = kind.pattern();
    let k = before.len() as int;
    lemma_literals(kind);
    assert forall|j: int| 0 <= j < k implies (#[trigger] p.at(s, j)) is None by {
        lemma_not_across(before, tag + behind, opening(kind), j);
        if p.at(s, j) is Some {
            lemma_opens(kind, s, j);
        }
    }
    assert(s =~= (before + tag) + behind);
    assert forall|j: int| f.end <= j < s.len() implies (#[trigger] p.at(s, j)) is None by {
        lemma_not_behind(before + tag, behind, opening(kind), j);
        if p.at(s, j) is Some {
            lemma_opens(kind, s, j);
        }
    }
    patterns::lemma_one_match(p, s, 0, 0, k, f);
    assert(s.subrange(k, f.end) =~= tag);
    assert(tools::tools_of_kind(kind, s) =~= seq![
        tools::tool_of(kind, seq![Some(tag)] + f.groups),
    ]);
}

// ---------------------------------------------------------------------------
// Tags without a path
// ---------------------------------------------------------------------------

/// The tool that a tag without a path writes; none for the other kinds.
pub open spec fn plain_tool(kind: ToolKind, body: Seq<char>) -> Option<ToolView> {
    let t = text::trimmed(body);
    match kind {
        ToolKind::Read => Some(ToolView::ReadFile { path: t }),
        ToolKind::Run => Some(ToolView::Run { command: t }),
        ToolKind::Ls => Some(ToolView::Ls { path: t }),
        ToolKind::Done => Some(ToolView::Done { summary: t }),
        _ => None,
    }
}

/// The tool of a tag without a path is read: what stands between its ends, without
/// white space around it. What is read or listed stands on one line.
#[verifier::rlimit(50)]
pub proof fn plain_tag_is_read(
    kind: ToolKind,
    before: Seq<char>,
    body: Seq<char>,
    behind: Seq<char>,
)
    requires
        plain_tool(kind, body) is Some,
        !text::has(before, opening(kind)),
        !text::has(behind, opening(kind)),
        !text::has(body, closing(kind)),
        kind == ToolKind::Read || kind == ToolKind::Ls ==> !body.contains('\n'),
    ensures
        tools::tools_of_kind(
            kind,
            before + (opening(kind) + (body + closing(kind)) + behind),
        ) == seq![plain_tool(kind, body).unwrap()],
{
    let open = opening(kind);
    let close = closing(kind);
    let tag = open + (body + close);
    let s = before + (tag + behind);
    let k = before.len() as int;
    let a = k + open.len();
    let j = a + body.len();
    lemma_literals(kind);
    assert(s =~= before + (open + (body + close + behind)));
    lemma_stands(before, open, body + close + behind);
    assert(s =~= (before + open) + (body + (close + behind)));
    lemma_first_behind(before + open, body, close, behind);
    assert(s.subrange(a, j) =~= body);
    if kind == ToolKind::Read || kind == ToolKind::Ls {
        assert forall|i: int| a <= i < j implies #[trigger] s[i] != '\n' by {
            assert(s[i] == body[i - a]);
        }
    }
    let f = Found { end: j + close.len(), groups: seq![Some(body)] };
    assert(kind.pattern().at(s, k) == Some(f)) by {
        reveal(Pattern::at);
    }
    lemma_sole(kind, before, tag, behind, f);
    assert((seq![Some(tag)] + f.groups)[1] == Some(body));
}

// ---------------------------------------------------------------------------
// Tags with a path
// ---------------------------------------------------------------------------

/// The attribute that gives a path.
pub open spec fn path_attribute(path: Seq<char>) -> Seq<char> {
    " path=\""@ + path + "\">"@
}

/// The path in a tag is found.
proof fn lemma_path(before: Seq<char>, open: Seq<char>, path: Seq<char>, rest: Seq<char>)
    requires
        !path.contains('"'),
    ensures
        patterns::path_at(
            before + (open + (path_attribute(path) + rest)),
            before.len() as int,
            open,
        ) == Some(
            (
                (before.len() + open.len() + 7) as int,
                (before.len() + open.len() + 7 + path.len()) as int,
            ),
        ),
{
    reveal_strlit(" path=\"");
    reveal_strlit("path=\"");
    reveal_strlit("\">");
    let s = before + (open + (path_attribute(path) + rest));
    let k = before.len() as int;
    let a = k + open.len();
    let c = a + 7 + path.len();
    lemma_stands(before, open, path_attribute(path) + rest);
    assert(s[a] == ' ' && s[a + 1] == 'p');
    patterns::lemma_run_end(s, a, a + 1, Class::White);
    assert(s.subrange(a + 1, a + 7) =~= "path=\""@);
    assert(s[c] == '"' && s[c + 1] == '>');
    assert forall|i: int| a + 7 <= i < c implies Class::Unquoted.holds(#[trigger] s[i]) by {
        assert(s[i] == path[i - a - 7]);
    }
    patterns::lemma_run_end(s, a + 7, c, Class::Unquoted);
    assert(s.subrange(c, c + 2) =~= "\">"@);
    assert("path=\""@.len() == 6);
}

/// A file to write is read: its path, without white space around it, and what it
/// is to hold, as it stands.
#[verifier::rlimit(50)]
pub proof fn write_is_read(
    before: Seq<char>,
    path: Seq<char>,
    content: Seq<char>,
    behind: Seq<char>,
)
    requires
        path.len() > 0,
        !path.contains('"'),
        !text::has(before, opening(ToolKind::Write)),
        !text::has(behind, opening(ToolKind::Write)),
        !text::has(content, closing(ToolKind::Write)),
    ensures
        tools::tools_of_kind(
            ToolKind::Write,
            before + (opening(ToolKind::Write) + (path_attribute(path) + (content + closing(
                ToolKind::Write,
            ))) + behind),
        ) == seq![ToolView::WriteFile { path: text::trimmed(path), content }],
{
    let kind = ToolKind::Write;
    let open = opening(kind);
    let close = closing(kind);
    let head = path_attribute(path);
    let tag = open + (head + (content + close));
    let s = before + (tag + behind);
    let k = before.len() as int;
    let b = k + open.len() + 7;
    let c = b + path.len();
    let j = c + 2 + content.len();
    lemma_literals(kind);
    reveal_strlit(" path=\"");
    reveal_strlit("\">");
    assert(s =~= before + (open + (head + (content + close + behind))));
    lemma_path(before, open, path, content + close + behind);
    assert(s =~= (before + open + head) + (content + (close + behind)));
    lemma_first_behind(before + open + head, content, close, behind);
    assert(s.subrange(b, c) =~= path);
    assert(s.subrange(c + 2, j) =~= content);
    let f = Found { end: j + 13, groups: seq![Some(path), Some(content)] };
    reveal_strlit("</write_file>");
    assert(kind.pattern().at(s, k) == Some(f)) by {
        reveal(Pattern::at);
    }
    lemma_sole(kind, before, tag, behind, f);
    assert((seq![Some(tag)] + f.groups)[1] == Some(path));
    assert((seq![Some(tag)] + f.groups)[2] == Some(content));
}

/// How the tag of a search begins, with a path or without.
pub open spec fn search_head(path: Option<Seq<char>>) -> Seq<char> {
    match path {
        Some(p) => opening(ToolKind::Search) + path_attribute(p),
        None => opening(ToolKind::Search) + seq!['>'],
    }
}

/// A search is read: its pattern, without white space around it, and its path, as
/// it stands.
#[verifier::rlimit(50)]
pub proof fn search_is_read(
    before: Seq<char>,
    path: Option<Seq<char>>,
    pattern: Seq<char>,
    behind: Seq<char>,
)
    requires
        path is Some ==> !path.unwrap().contains('"'),
        !pattern.contains('<'),
        !text::has(before, opening(ToolKind::Search)),
        !text::has(behind, opening(ToolKind::Search)),
    ensures
        tools::tools_of_kind(
            ToolKind::Search,
            before + (search_head(path) + (pattern + closing(ToolKind::Search)) + behind),
        ) == seq![ToolView::Search { pattern: text::trimmed(pattern), path }],
{
    let kind = ToolKind::Search;
    let open = opening(kind);
    let close = closing(kind);
    let head = search_head(path);
    let tag = head + (pattern + close);
    let s = before + (tag + behind);
    let k = before.len() as int;
    let t = k + head.len();
    let u = t + pattern.len();
    lemma_literals(kind);
    reveal_strlit("<search");
    reveal_strlit("<search>");
    reveal_strlit("</search>");
    reveal_strlit(" path=\"");
    reveal_strlit("\">");
    assert(s =~= (before + head + pattern) + (close + behind));
    lemma_stands(before + head + pattern, close, behind);
    assert forall|i: int| t <= i < u implies Class::Untagged.holds(#[trigger] s[i]) by {
        assert(s[i] == pattern[i - t]);
    }
    assert(s[u] == '<');
    patterns::lemma_run_end(s, t, u, Class::Untagged);
    assert(s.subrange(t, u) =~= pattern);
    let f = Found { end: u + 9, groups: seq![path, Some(pattern)] };
    match path {
        Some(p) => {
            let rest = pattern + close + behind;
            assert(s =~= before + (open + (path_attribute(p) + rest)));
            lemma_path(before, open, p, rest);
            assert(s.subrange(k + 14, k + 14 + p.len()) =~= p);
            assert(s[k + 7] == ' ');
            assert(!text::occurs_at(s, "<search>"@, k)) by {
                if text::occurs_at(s, "<search>"@, k) {
                    assert(s.subrange(k, k + 8)[7] == s[k + 7]);
                }
            }
        },
        None => {
            assert(s.subrange(k, k + 8) =~= "<search>"@);
        },
    }
    assert(kind.pattern().at(s, k) == Some(f)) by {
        reveal(Pattern::at);
    }
    lemma_sole(kind, before, tag, behind, f);
    assert((seq![Some(tag)] + f.groups)[1] == path);
    assert((seq![Some(tag)] + f.groups)[2] == Some(pattern));
}

/// The first `</new>` behind which an `edit_file` tag closes.
proof fn lemma_new_close(s: Seq<char>, i: int, j: int)
    requires
        0 <= i <= j < s.len(),
        forall|t: int| i <= t < j ==> !#[trigger] text::occurs_at(s, "</new>"@, t),
        text::occurs_at(s, "</new>"@, j),
        text::occurs_at(s, "</edit_file>"@, patterns::run_end(s, j + 6, Class::White)),
    ensures
        patterns::new_close(s, i) == Some(j),
    decreases j - i,
{
    if i < j {
        assert(!text::occurs_at(s, "</new>"@, i));
        lemma_new_close(s, i + 1, j);
    }
}

/// The first `</old>` behind which the rest of an `edit_file` tag follows.
proof fn lemma_old_close(s: Seq<char>, i: int, j: int)
    requires
        0 <= i <= j < s.len(),
        forall|t: int| i <= t < j ==> !#[trigger] text::occurs_at(s, "</old>"@, t),
        text::occurs_at(s, "</old>"@, j),
        text::occurs_at(s, "<new>"@, patterns::run_end(s, j + 6, Class::White)),
        patterns::new_close(s, patterns::run_end(s, j + 6, Class::White) + 5) is Some,
    ensures
        patterns::old_close(s, i) == Some(j),
    decreases j - i,
{
    if i < j {
        assert(!text::occurs_at(s, "</old>"@, i));
        lemma_old_close(s, i + 1, j);
    }
}

/// All the characters are white space.
pub open spec fn all_white(s: Seq<char>) -> bool {
    forall|i: int| 0 <= i < s.len() ==> text::white(#[trigger] s[i])
}

/// White space behind `x` ends where a bracket opens.
proof fn lemma_white_ends(x: Seq<char>, w: Seq<char>, y: Seq<char>)
    requires
        all_white(w),
        y.len() > 0,
        y[0] == '<',
    ensures
        patterns::run_end(x + (w + y), x.len() as int, Class::White) == x.len() + w.len(),
{
    let s = x + (w + y);
    let a = x.len() as int;
    let e = a + w.len();
    assert forall|i: int| a <= i < e implies Class::White.holds(#[trigger] s[i]) by {
        assert(s[i] == w[i - a]);
    }
    assert(s[e] == '<');
    patterns::lemma_run_end(s, a, e, Class::White);
}

/// The parts of a tag behind its path: the old text and the new one, with white
/// space before and behind them.
pub open spec fn edit_parts(
    w1: Seq<char>,
    o: Seq<char>,
    w2: Seq<char>,
    n: Seq<char>,
    w3: Seq<char>,
) -> Seq<char> {
    w1 + ("<old>"@ + (o + ("</old>"@ + (w2 + ("<new>"@ + (n + ("</new>"@ + w3)))))))
}

/// The new text in a tag is found.
proof fn lemma_new_part(x: Seq<char>, n: Seq<char>, w3: Seq<char>, behind: Seq<char>)
    requires
        all_white(w3),
        !text::has(n, "</new>"@),
    ensures
        ({
            let s = x + (n + ("</new>"@ + (w3 + ("</edit_file>"@ + behind))));
            let k = (x.len() + n.len()) as int;
            &&& patterns::new_close(s, x.len() as int) == Some(k)
            &&& patterns::run_end(s, k + 6, Class::White) == k + 6 + w3.len()
        }),
{
    reveal_strlit("</new>");
    reveal_strlit("</edit_file>");
    let end = "</edit_file>"@ + behind;
    let rest = "</new>"@ + (w3 + end);
    let s = x + (n + rest);
    let k = (x.len() + n.len()) as int;
    assert(led("</new>"@));
    assert(s =~= (x + n) + ("</new>"@ + (w3 + end)));
    lemma_stands(x + n, "</new>"@, w3 + end);
    assert forall|i: int| x.len() <= i < k implies !#[trigger] text::occurs_at(
        s,
        "</new>"@,
        i,
    ) by {
        lemma_not_across(n, rest, "</new>"@, i - x.len());
        lemma_not_behind(x, n + rest, "</new>"@, i);
    }
    let y = x + n + "</new>"@;
    assert(s =~= y + (w3 + end));
    lemma_white_ends(y, w3, end);
    assert(s =~= (y + w3) + ("</edit_file>"@ + behind));
    lemma_stands(y + w3, "</edit_file>"@, behind);
    lemma_new_close(s, x.len() as int, k);
}

/// The old text in a tag is found.
proof fn lemma_old_part(
    x: Seq<char>,
    o: Seq<char>,
    w2: Seq<char>,
    n: Seq<char>,
    w3: Seq<char>,
    behind: Seq<char>,
)
    requires
        all_white(w2),
        all_white(w3),
        !text::has(o, "</old>"@),
        !text::has(n, "</new>"@),
    ensures
        ({
            let rest = n + ("</new>"@ + (w3 + ("</edit_file>"@ + behind)));
            let s = x + (o + ("</old>"@ + (w2 + ("<new>"@ + rest))));
            let j = (x.len() + o.len()) as int;
            let m = j + 6 + w2.len() + 5;
            &&& patterns::old_close(s, x.len() as int) == Some(j)
            &&& patterns::run_end(s, j + 6, Class::White) == j + 6 + w2.len()
            &&& patterns::new_close(s, m) == Some(m + n.len())
            &&& patterns::run_end(s, m + n.len() + 6, Class::White) == m + n.len() + 6 + w3.len()
        }),
{
    reveal_strlit("</old>");
    reveal_strlit("<new>");
    let rest = n + ("</new>"@ + (w3 + ("</edit_file>"@ + behind)));
    let tail = "<new>"@ + rest;
    let mid = "</old>"@ + (w2 + tail);
    let s = x + (o + mid);
    let j = (x.len() + o.len()) as int;
    assert(led("</old>"@));
    assert(s =~= (x + o) + mid);
    lemma_stands(x + o, "</old>"@, w2 + tail);
    assert forall|i: int| x.len() <= i < j implies !#[trigger] text::occurs_at(
        s,
        "</old>"@,
        i,
    ) by {
        lemma_not_across(o, mid, "</old>"@, i - x.len());
        lemma_not_behind(x, o + mid, "</old>"@, i);
    }
    let y = x + o + "</old>"@;
    assert(s =~= y + (w2 + tail));
    lemma_white_ends(y, w2, tail);
    assert(s =~= (y + w2) + ("<new>"@ + rest));
    lemma_stands(y + w2, "<new>"@, rest);
    let z = y + w2 + "<new>"@;
    assert(s =~= z + rest);
    lemma_new_part(z, n, w3, behind);
    lemma_old_close(s, x.len() as int, j);
}

/// Appending goes either way.
proof fn lemma_assoc(a: Seq<char>, b: Seq<char>, c: Seq<char>)
    ensures
        (a + b) + c == a + (b + c),
{
    assert((a + b) + c =~= a + (b + c));
}

/// The parts of a tag, one after the other, with what follows them.
proof fn lemma_edit_shape(
    w1: Seq<char>,
    o: Seq<char>,
    w2: Seq<char>,
    n: Seq<char>,
    w3: Seq<char>,
    y: Seq<char>,
)
    ensures
        edit_parts(w1, o, w2, n, w3) + y == w1 + ("<old>"@ + (o + ("</old>"@ + (w2 + ("<new>"@ + (n
            + ("</new>"@ + (w3 + y)))))))),
{
    let p7 = "</new>"@ + w3;
    let p6 = n + p7;
    let p5 = "<new>"@ + p6;
    let p4 = w2 + p5;
    let p3 = "</old>"@ + p4;
    let p2 = o + p3;
    let p1 = "<old>"@ + p2;
    lemma_assoc(w1, p1, y);
    lemma_assoc("<old>"@, p2, y);
    lemma_assoc(o, p3, y);
    lemma_assoc("</old>"@, p4, y);
    lemma_assoc(w2, p5, y);
    lemma_assoc("<new>"@, p6, y);
    lemma_assoc(n, p7, y);
    lemma_assoc("</new>"@, w3, y);
}

/// What stands between `x` and `z`.
proof fn lemma_between(x: Seq<char>, y: Seq<char>, z: Seq<char>)
    ensures
        (x + (y + z)).subrange(x.len() as int, (x.len() + y.len()) as int) == y,
{
    assert((x + (y + z)).subrange(x.len() as int, (x.len() + y.len()) as int) =~= y);
}

/// An edit is found, where its parts stand so.
proof fn lemma_edit_at(s: Seq<char>, k: int, b: int, c: int, o: int, j: int, n: int, e: int, w: int)
    requires
        b < c,
        patterns::path_at(s, k, "<edit_file"@) == Some((b, c)),
        patterns::run_end(s, c + 2, Class::White) == o,
        text::occurs_at(s, "<old>"@, o),
        patterns::old_close(s, o + 5) == Some(j),
        patterns::run_end(s, j + 6, Class::White) == n,
        patterns::new_close(s, n + 5) == Some(e),
        patterns::run_end(s, e + 6, Class::White) == w,
    ensures
        patterns::edit_at(s, k) == Some(
            Found {
                end: w + 12,
                groups: seq![
                    Some(s.subrange(b, c)),
                    Some(s.subrange(o + 5, j)),
                    Some(s.subrange(n + 5, e)),
                ],
            },
        ),
{
}

/// Where the parts of an edit stand behind `y`.
proof fn lemma_edit_places(
    y: Seq<char>,
    w1: Seq<char>,
    o: Seq<char>,
    w2: Seq<char>,
    n: Seq<char>,
    w3: Seq<char>,
    behind: Seq<char>,
)
    requires
        all_white(w1),
        all_white(w2),
        all_white(w3),
        !text::has(o, "</old>"@),
        !text::has(n, "</new>"@),
    ensures
        ({
            let s = y + (edit_parts(w1, o, w2, n, w3) + ("</edit_file>"@ + behind));
            let at_old = (y.len() + w1.len()) as int;
            let old_end = at_old + 5 + o.len();
            let at_new = old_end + 6 + w2.len();
            let new_end = at_new + 5 + n.len();
            &&& patterns::run_end(s, y.len() as int, Class::White) == at_old
            &&& text::occurs_at(s, "<old>"@, at_old)
            &&& patterns::old_close(s, at_old + 5) == Some(old_end)
            &&& patterns::run_end(s, old_end + 6, Class::White) == at_new
            &&& patterns::new_close(s, at_new + 5) == Some(new_end)
            &&& patterns::run_end(s, new_end + 6, Class::White) == new_end + 6 + w3.len()
        }),
{
    reveal_strlit("<old>");
    let end = "</edit_file>"@ + behind;
    let p6 = n + ("</new>"@ + (w3 + end));
    let p4 = w2 + ("<new>"@ + p6);
    let p2 = o + ("</old>"@ + p4);
    let p1 = "<old>"@ + p2;
    lemma_edit_shape(w1, o, w2, n, w3, end);
    lemma_white_ends(y, w1, p1);
    let x = y + w1;
    lemma_assoc(y, w1, p1);
    lemma_stands(x, "<old>"@, p2);
    lemma_assoc(x, "<old>"@, p2);
    lemma_old_part(x + "<old>"@, o, w2, n, w3, behind);
}

/// What the parts of an edit hold behind `y`.
proof fn lemma_edit_texts(
    y: Seq<char>,
    w1: Seq<char>,
    o: Seq<char>,
    w2: Seq<char>,
    n: Seq<char>,
    w3: Seq<char>,
    end: Seq<char>,
)
    ensures
        ({
            let s = y + (edit_parts(w1, o, w2, n, w3) + end);
            let a = (y.len() + w1.len() + 5) as int;
            let b = a + o.len() + 6 + w2.len() + 5;
            &&& s.subrange(a, a + o.len()) == o
            &&& s.subrange(b, b + n.len()) == n
        }),
{
    reveal_strlit("<old>");
    reveal_strlit("</old>");
    reveal_strlit("<new>");
    let p6 = n + ("</new>"@ + (w3 + end));
    let p4 = w2 + ("<new>"@ + p6);
    let p2 = o + ("</old>"@ + p4);
    let p1 = "<old>"@ + p2;
    lemma_edit_shape(w1, o, w2, n, w3, end);
    lemma_assoc(y, w1, p1);
    lemma_assoc(y + w1, "<old>"@, p2);
    let z = y + w1 + "<old>"@;
    lemma_between(z, o, "</old>"@ + p4);
    let v = z + o;
    lemma_assoc(z, o, "</old>"@ + p4);
    lemma_assoc(v, "</old>"@, p4);
    lemma_assoc(v + "</old>"@, w2, "<new>"@ + p6);
    lemma_assoc(v + "</old>"@ + w2, "<new>"@, p6);
    lemma_between(v + "</old>"@ + w2 + "<new>"@, n, "</new>"@ + (w3 + end));
}

/// An edit is found: `y` ends with the path.
proof fn lemma_edit_found(
    y: Seq<char>,
    k: int,
    b: int,
    w1: Seq<char>,
    o: Seq<char>,
    w2: Seq<char>,
    n: Seq<char>,
    w3: Seq<char>,
    behind: Seq<char>,
)
    requires
        0 <= k <= b,
        b < y.len() - 2,
        all_white(w1),
        all_white(w2),
        all_white(w3),
        !text::has(o, "</old>"@),
        !text::has(n, "</new>"@),
        patterns::path_at(
            y + (edit_parts(w1, o, w2, n, w3) + ("</edit_file>"@ + behind)),
            k,
            "<edit_file"@,
        ) == Some((b, y.len() - 2)),
    ensures
        patterns::edit_at(y + (edit_parts(w1, o, w2, n, w3) + ("</edit_file>"@ + behind)), k)
            == Some(
            Found {
                end: (y.len() + edit_parts(w1, o, w2, n, w3).len() + 12) as int,
                groups: seq![Some(y.subrange(b, y.len() - 2)), Some(o), Some(n)],
            },
        ),
{
    let end = "</edit_file>"@ + behind;
    let s = y + (edit_parts(w1, o, w2, n, w3) + end);
    let at_old = (y.len() + w1.len()) as int;
    let old_end = at_old + 5 + o.len();
    let at_new = old_end + 6 + w2.len();
    let new_end = at_new + 5 + n.len();
    let last = new_end + 6 + w3.len();
    lemma_edit_places(y, w1, o, w2, n, w3, behind);
    lemma_edit_texts(y, w1, o, w2, n, w3, end);
    lemma_edit_at(s, k, b, y.len() - 2, at_old, old_end, at_new, new_end, last);
    assert(s.subrange(b, y.len() - 2) =~= y.subrange(b, y.len() - 2));
    assert(last == y.len() + edit_parts(w1, o, w2, n, w3).len()) by {
        reveal_strlit("<old>");
        reveal_strlit("</old>");
        reveal_strlit("<new>");
        reveal_strlit("</new>");
    }
}

/// What is looked for in a text is an edit.
proof fn lemma_edit_tag(s: Seq<char>, k: int)
    ensures
        ToolKind::Edit.pattern().at(s, k) == patterns::edit_at(s, k),
{
    reveal(Pattern::at);
}

/// An edit is read: its path, without white space around it, and the old text and
/// the new one, as they stand.
#[verifier::rlimit(50)]
pub proof fn edit_is_read(
    before: Seq<char>,
    path: Seq<char>,
    w1: Seq<char>,
    o: Seq<char>,
    w2: Seq<char>,
    n: Seq<char>,
    w3: Seq<char>,
    behind: Seq<char>,
)
    requires
        path.len() > 0,
        !path.contains('"'),
        all_white(w1),
        all_white(w2),
        all_white(w3),
        !text::has(o, "</old>"@),
        !text::has(n, "</new>"@),
        !text::has(before, opening(ToolKind::Edit)),
        !text::has(behind, opening(ToolKind::Edit)),
    ensures
        tools::tools_of_kind(
            ToolKind::Edit,
            before + (opening(ToolKind::Edit) + (path_attribute(path) + (edit_parts(
                w1,
                o,
                w2,
                n,
                w3,
            ) + closing(ToolKind::Edit))) + behind),
        ) == seq![ToolView::EditFile { path: text::trimmed(path), old: o, new: n }],
{
    let kind = ToolKind::Edit;
    let open = opening(kind);
    let close = closing(kind);
    let head = path_attribute(path);
    let parts = edit_parts(w1, o, w2, n, w3);
    let tag = open + (head + (parts + close));
    let s = before + (tag + behind);
    let k = before.len() as int;
    let b = k + open.len() + 7;
    lemma_literals(kind);
    reveal_strlit(" path=\"");
    reveal_strlit("\">");
    reveal_strlit("</edit_file>");
    lemma_assoc(open, head + (parts + close), behind);
    lemma_assoc(head, parts + close, behind);
    lemma_assoc(parts, close, behind);
    let rest = parts + (close + behind);
    lemma_path(before, open, path, rest);
    let y = before + open + head;
    lemma_assoc(before, open, head + rest);
    lemma_assoc(before + open, head, rest);
    assert(y.subrange(b, y.len() - 2) =~= path);
    lemma_edit_found(y, k, b, w1, o, w2, n, w3, behind);
    let f = Found {
        end: k + tag.len(),
        groups: seq![Some(path), Some(o), Some(n)],
    };
    lemma_edit_tag(s, k);
    lemma_sole(kind, before, tag, behind, f);
    assert((seq![Some(tag)] + f.groups)[1] == Some(path));
    assert((seq![Some(tag)] + f.groups)[2] == Some(o));
    assert((seq![Some(tag)] + f.groups)[3] == Some(n));
}

// ---------------------------------------------------------------------------
// From tags to requests
// ---------------------------------------------------------------------------

/// A tool of any kind is among the tools that are read.
#[verifier::rlimit(50)]
pub proof fn every_kind_is_read(kind: ToolKind, s: Seq<char>, i: int)
    requires
        0 <= i < tools::tools_of_kind(kind, s).len(),
    ensures
        tools::tools_in(s).contains(tools::tools_of_kind(kind, s)[i]),
{
    let t0 = tools::tools_of_kind(ToolKind::Read, s);
    let t1 = tools::tools_of_kind(ToolKind::Write, s);
    let t2 = tools::tools_of_kind(ToolKind::Edit, s);
    let t3 = tools::tools_of_kind(ToolKind::Run, s);
    let t4 = tools::tools_of_kind(ToolKind::Search, s);
    let t5 = tools::tools_of_kind(ToolKind::Ls, s);
    let n1 = t0.len() as int;
    let n2 = n1 + t1.len();
    let n3 = n2 + t2.len();
    let n4 = n3 + t3.len();
    let n5 = n4 + t4.len();
    let n6 = n5 + t5.len();
    let at = match kind {
        ToolKind::Read => i,
        ToolKind::Write => n1 + i,
        ToolKind::Edit => n2 + i,
        ToolKind::Run => n3 + i,
        ToolKind::Search => n4 + i,
        ToolKind::Ls => n5 + i,
        ToolKind::Done => n6 + i,
    };
    assert(tools::tools_in(s)[at] == tools::tools_of_kind(kind, s)[i]);
}

/// One of the tools makes only requests of this sort.
pub open spec fn one_asks(read: Seq<Tool>, wanted: spec_fn(ToolRequest) -> bool) -> bool {
    exists|i: int|
        0 <= i < read.len() && forall|r: ToolRequest| #[trigger]
            tools::requests((#[trigger] read[i])@, r) ==> wanted(r)
}

/// The tool with this view is one of those that are read.
proof fn lemma_one_asks(read: Seq<Tool>, view: ToolView, wanted: spec_fn(ToolRequest) -> bool)
    requires
        tools::tool_views(read).contains(view),
        forall|r: ToolRequest| #[trigger] tools::requests(view, r) ==> wanted(r),
    ensures
        one_asks(read, wanted),
{
    let views = tools::tool_views(read);
    let i = choose|i: int| 0 <= i < views.len() && views[i] == view;
    assert(read[i]@ == view);
}

/// The first occurrence of a text is replaced.
proof fn lemma_replaced_first(a: Seq<char>, p: Seq<char>, b: Seq<char>, q: Seq<char>)
    requires
        forall|j: int| 0 <= j < a.len() ==> !#[trigger] text::occurs_at(a + p + b, p, j),
    ensures
        text::has(a + p + b, p),
        text::replaced_first(a + p + b, p, q) == a + q + b,
{
    let s = a + p + b;
    passages::lemma_stands(a, p, b);
    text::lemma_first_at_is(s, p, 0, a.len() as int);
    assert(s.subrange(0, a.len() as int) =~= a);
    assert(s.subrange(a.len() + p.len() as int, s.len() as int) =~= b);
}

/// An edit that a model writes changes the file that it names: where the old text,
/// without white space around it, stands first behind `a`, the new one takes its
/// place, and everything else stays.
#[verifier::rlimit(50)]
pub proof fn edits_change_the_file(
    before: Seq<char>,
    path: Seq<char>,
    w1: Seq<char>,
    o: Seq<char>,
    w2: Seq<char>,
    n: Seq<char>,
    w3: Seq<char>,
    behind: Seq<char>,
    read: Seq<Tool>,
    a: Seq<char>,
    b: Seq<char>,
)
    requires
        path.len() > 0,
        !path.contains('"'),
        all_white(w1),
        all_white(w2),
        all_white(w3),
        !text::has(o, "</old>"@),
        !text::has(n, "</new>"@),
        !text::has(before, opening(ToolKind::Edit)),
        !text::has(behind, opening(ToolKind::Edit)),
        tools::tool_views(read) == tools::tools_in(
            before + (opening(ToolKind::Edit) + (path_attribute(path) + (edit_parts(
                w1,
                o,
                w2,
                n,
                w3,
            ) + closing(ToolKind::Edit))) + behind),
        ),
        forall|j: int|
            0 <= j < a.len() ==> !#[trigger] text::occurs_at(
                a + text::trimmed(o) + b,
                text::trimmed(o),
                j,
            ),
    ensures
        one_asks(
            read,
            |r: ToolRequest|
                r is Edit && r->Edit_path@ == text::trimmed(path) && tools::edited(
                    a + text::trimmed(o) + b,
                    r->old@,
                    r->new@,
                ) == Some(a + text::trimmed(n) + b),
        ),
{
    let s = before + (opening(ToolKind::Edit) + (path_attribute(path) + (edit_parts(
        w1,
        o,
        w2,
        n,
        w3,
    ) + closing(ToolKind::Edit))) + behind);
    let view = ToolView::EditFile { path: text::trimmed(path), old: o, new: n };
    edit_is_read(before, path, w1, o, w2, n, w3, behind);
    every_kind_is_read(ToolKind::Edit, s, 0);
    lemma_replaced_first(a, text::trimmed(o), b, text::trimmed(n));
    lemma_one_asks(
        read,
        view,
        |r: ToolRequest|
            r is Edit && r->Edit_path@ == text::trimmed(path) && tools::edited(
                a + text::trimmed(o) + b,
                r->old@,
                r->new@,
            ) == Some(a + text::trimmed(n) + b),
    );
}

/// An edit whose old text does not stand in the file changes nothing.
#[verifier::rlimit(50)]
pub proof fn edits_need_the_old_text(content: Seq<char>, old: Seq<char>, new: Seq<char>)
    ensures
        tools::edited(content, old, new) is None <==> !text::has(content, text::trimmed(old)),
{
}

/// A file that a model writes holds what stands in the tag, but for the line feed
/// behind the head of the tag.
#[verifier::rlimit(50)]
pub proof fn writes_fill_the_file(
    before: Seq<char>,
    path: Seq<char>,
    content: Seq<char>,
    behind: Seq<char>,
    read: Seq<Tool>,
)
    requires
        path.len() > 0,
        !path.contains('"'),
        !text::has(before, opening(ToolKind::Write)),
        !text::has(behind, opening(ToolKind::Write)),
        !text::has(content, closing(ToolKind::Write)),
        tools::tool_views(read) == tools::tools_in(
            before + (opening(ToolKind::Write) + (path_attribute(path) + (content + closing(
                ToolKind::Write,
            ))) + behind),
        ),
    ensures
        one_asks(
            read,
            |r: ToolRequest|
                {
                    &&& r is Write
                    &&& r->Write_path@ == text::trimmed(path)
                    &&& content.len() > 0 && content[0] == '\n' ==> seq!['\n'] + tools::written(
                        r->content@,
                    ) == content
                    &&& content.len() == 0 || content[0] != '\n' ==> tools::written(r->content@)
                        == content
                },
        ),
{
    let s = before + (opening(ToolKind::Write) + (path_attribute(path) + (content + closing(
        ToolKind::Write,
    ))) + behind);
    write_is_read(before, path, content, behind);
    every_kind_is_read(ToolKind::Write, s, 0);
    if content.len() > 0 && content[0] == '\n' {
        assert(seq!['\n'] + content.drop_first() =~= content);
    }
    lemma_one_asks(
        read,
        ToolView::WriteFile { path: text::trimmed(path), content },
        |r: ToolRequest|
            {
                &&& r is Write
                &&& r->Write_path@ == text::trimmed(path)
                &&& content.len() > 0 && content[0] == '\n' ==> seq!['\n'] + tools::written(
                    r->content@,
                ) == content
                &&& content.len() == 0 || content[0] != '\n' ==> tools::written(r->content@)
                    == content
            },
    );
}

/// What stands in a tag without a path is what is asked for: the file to read, the
/// command to run for at most a minute, the directory to list, or the summary that
/// ends the work.
#[verifier::rlimit(50)]
pub proof fn plain_tags_ask(
    kind: ToolKind,
    before: Seq<char>,
    body: Seq<char>,
    behind: Seq<char>,
    read: Seq<Tool>,
)
    requires
        kind == ToolKind::Read || kind == ToolKind::Run || kind == ToolKind::Ls || kind
            == ToolKind::Done,
        !text::has(before, opening(kind)),
        !text::has(behind, opening(kind)),
        !text::has(body, closing(kind)),
        kind == ToolKind::Read || kind == ToolKind::Ls ==> !body.contains('\n'),
        text::trimmed(body).len() > 0,
        tools::tool_views(read) == tools::tools_in(
            before + (opening(kind) + (body + closing(kind)) + behind),
        ),
    ensures
        one_asks(
            read,
            |r: ToolRequest|
                match kind {
                    ToolKind::Read => r is Read && r->Read_path@ == text::trimmed(body),
                    ToolKind::Run => r is Shell && r->command@ == text::trimmed(body)
                        && r->timeout_secs == 60,
                    ToolKind::Ls => r is Shell && text::begins_with(
                        r->command@,
                        "find "@ + text::trimmed(body) + " "@,
                    ),
                    _ => r is Answer && r->Answer_0@ == text::trimmed(body),
                },
        ),
{
    let s = before + (opening(kind) + (body + closing(kind)) + behind);
    let t = text::trimmed(body);
    plain_tag_is_read(kind, before, body, behind);
    every_kind_is_read(kind, s, 0);
    let wanted = |r: ToolRequest|
        match kind {
            ToolKind::Read => r is Read && r->Read_path@ == text::trimmed(body),
            ToolKind::Run => r is Shell && r->command@ == text::trimmed(body) && r->timeout_secs
                == 60,
            ToolKind::Ls => r is Shell && text::begins_with(
                r->command@,
                "find "@ + text::trimmed(body) + " "@,
            ),
            _ => r is Answer && r->Answer_0@ == text::trimmed(body),
        };
    let view = plain_tool(kind, body).unwrap();
    assert forall|r: ToolRequest| #[trigger] tools::requests(view, r) implies wanted(r) by {
        if kind == ToolKind::Ls {
            reveal_strlit("find ");
            reveal_strlit(" ");
            reveal_strlit(
                " -maxdepth 3 -not -path '*/target/*' -not -path '*/.git/*' -not -path '*/node_modules/*' 2>/dev/null | sort | head -100",
            );
            let c = tools::ls_command(t);
            let p = "find "@ + t + " "@;
            assert(c.subrange(0, p.len() as int) =~= p);
        }
    }
    lemma_one_asks(read, view, wanted);
}

/// A search that a model writes looks for its pattern, in single quotes, at its path,
/// or in the project where it names none.
#[verifier::rlimit(50)]
pub proof fn searches_look_for_the_pattern(
    before: Seq<char>,
    path: Option<Seq<char>>,
    pattern: Seq<char>,
    behind: Seq<char>,
    read: Seq<Tool>,
)
    requires
        path is Some ==> !path.unwrap().contains('"'),
        !pattern.contains('<'),
        !text::has(text::trimmed(pattern), "'"@),
        !text::has(before, opening(ToolKind::Search)),
        !text::has(behind, opening(ToolKind::Search)),
        tools::tool_views(read) == tools::tools_in(
            before + (search_head(path) + (pattern + closing(ToolKind::Search)) + behind),
        ),
    ensures
        one_asks(
            read,
            |r: ToolRequest|
                r is Shell && text::begins_with(r->command@, "grep -rn "@) && text::has(
                    r->command@,
                    "'"@ + text::trimmed(pattern) + "' "@ + (match path {
                        Some(p) => p,
                        None => "."@,
                    }) + " "@,
                ),
        ),
{
    let s = before + (search_head(path) + (pattern + closing(ToolKind::Search)) + behind);
    let t = text::trimmed(pattern);
    let at = match path {
        Some(p) => p,
        None => "."@,
    };
    search_is_read(before, path, pattern, behind);
    every_kind_is_read(ToolKind::Search, s, 0);
    let wanted = |r: ToolRequest|
        r is Shell && text::begins_with(r->command@, "grep -rn "@) && text::has(
            r->command@,
            "'"@ + text::trimmed(pattern) + "' "@ + (match path {
                Some(p) => p,
                None => "."@,
            }) + " "@,
        );
    let view = ToolView::Search { pattern: t, path };
    assert forall|r: ToolRequest| #[trigger] tools::requests(view, r) implies wanted(r) by {
        let c = tools::search_command(t, path);
        let p = "'"@ + t + "' "@ + at + " "@;
        reveal_strlit("grep -rn ");
        reveal_strlit("grep -rn --binary-files=without-match '");
        reveal_strlit("grep -rn --binary-files=without-match ");
        reveal_strlit("'");
        reveal_strlit(" ");
        reveal_strlit(" 2>/dev/null | head -50");
        reveal_strlit("2>/dev/null | head -50");
        text::lemma_first_at(t, "'"@, 0);
        assert(text::replaced(t, "'"@, "'\\''"@) == t);
        assert("grep -rn --binary-files=without-match '"@
            =~= "grep -rn --binary-files=without-match "@ + "'"@);
        assert(" 2>/dev/null | head -50"@ =~= " "@ + "2>/dev/null | head -50"@);
        assert(c =~= "grep -rn --binary-files=without-match "@ + p + "2>/dev/null | head -50"@);
        passages::lemma_stands(
            "grep -rn --binary-files=without-match "@,
            p,
            "2>/dev/null | head -50"@,
        );
        let g = "grep -rn "@;
        assert(c.subrange(0, g.len() as int) =~= g);
    }
    lemma_one_asks(read, view, wanted);
}

// ---------------------------------------------------------------------------
// Text without tags
// ---------------------------------------------------------------------------

/// Text without an opening angle bracket uses no tool.
#[verifier::rlimit(50)]
pub proof fn plain_text_uses_no_tool(s: Seq<char>)
    requires
        !s.contains('<'),
    ensures
        tools::tools_in(s).len() == 0,
{
    lemma_none_of_kind(ToolKind::Read, s);
    lemma_none_of_kind(ToolKind::Write, s);
    lemma_none_of_kind(ToolKind::Edit, s);
    lemma_none_of_kind(ToolKind::Run, s);
    lemma_none_of_kind(ToolKind::Search, s);
    lemma_none_of_kind(ToolKind::Ls, s);
    lemma_none_of_kind(ToolKind::Done, s);
}

proof fn lemma_none_of_kind(kind: ToolKind, s: Seq<char>)
    requires
        !s.contains('<'),
    ensures
        tools::tools_of_kind(kind, s).len() == 0,
{
    let p = kind.pattern();
    lemma_literals(kind);
    assert forall|j: int| 0 <= j < s.len() implies (#[trigger] p.at(s, j)) is None by {
        if p.at(s, j) is Some {
            lemma_opens(kind, s, j);
            assert(s.subrange(j, j + opening(kind).len())[0] == s[j]);
        }
    }
    patterns::lemma_no_match(p, s, 0, 0);
}

} // verus!
