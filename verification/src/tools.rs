//! The tools of the coding agent: how they are read in a model's answer, and
//! what their use comes to.
use vstd::prelude::*;

use crate::bytes;
use crate::error;
use crate::lines;
use crate::number;
use crate::outside;
use crate::passages;
use crate::patterns;
use crate::patterns::Pattern;
use crate::text;

verus! {

#[derive(Clone, Debug)]
pub enum Tool {
    ReadFile { path: String },
    WriteFile { path: String, content: String },
    EditFile { path: String, old: String, new: String },
    Run { command: String },
    Search { pattern: String, path: Option<String> },
    Ls { path: String },
    Done { summary: String },
}

/// A tool over the texts of its strings.
pub enum ToolView {
    ReadFile { path: Seq<char> },
    WriteFile { path: Seq<char>, content: Seq<char> },
    EditFile { path: Seq<char>, old: Seq<char>, new: Seq<char> },
    Run { command: Seq<char> },
    Search { pattern: Seq<char>, path: Option<Seq<char>> },
    Ls { path: Seq<char> },
    Done { summary: Seq<char> },
}

impl View for Tool {
    type V = ToolView;

    open spec fn view(&self) -> ToolView {
        match *self {
            Tool::ReadFile { path } => ToolView::ReadFile { path: path@ },
            Tool::WriteFile { path, content } => ToolView::WriteFile {
                path: path@,
                content: content@,
            },
            Tool::EditFile { path, old, new } => ToolView::EditFile {
                path: path@,
                old: old@,
                new: new@,
            },
            Tool::Run { command } => ToolView::Run { command: command@ },
            Tool::Search { pattern, path } => ToolView::Search {
                pattern: pattern@,
                path: text::opt_text(path),
            },
            Tool::Ls { path } => ToolView::Ls { path: path@ },
            Tool::Done { summary } => ToolView::Done { summary: summary@ },
        }
    }
}

/// The line that shows the use of a tool.
pub open spec fn shown(t: ToolView) -> Seq<char> {
    match t {
        ToolView::ReadFile { path } => "read_file: "@ + path,
        ToolView::WriteFile { path, content } => "write_file: "@ + path,
        ToolView::EditFile { path, old, new } => "edit_file: "@ + path,
        ToolView::Run { command } => "run: "@ + command,
        ToolView::Search { pattern, path } => "search: "@ + pattern + " in "@ + path_or_dot(path),
        ToolView::Ls { path } => "ls: "@ + path,
        ToolView::Done { summary } => "done: "@ + summary,
    }
}

/// The path, or the current directory.
pub open spec fn path_or_dot(path: Option<Seq<char>>) -> Seq<char> {
    match path {
        Some(p) => p,
        None => "."@,
    }
}

impl Tool {
    /// The line that shows the use of the tool.
    pub fn display(&self) -> (r: String)
        ensures
            r@ == shown(self@),
    {
        match self {
            Tool::ReadFile { path } => error::prefixed("read_file: ", path.as_str()),
            Tool::WriteFile { path, content: _ } => error::prefixed("write_file: ", path.as_str()),
            Tool::EditFile { path, old: _, new: _ } => error::prefixed(
                "edit_file: ",
                path.as_str(),
            ),
            Tool::Run { command } => error::prefixed("run: ", command.as_str()),
            Tool::Search { pattern, path } => {
                let mut out = error::prefixed("search: ", pattern.as_str());
                out.append(" in ");
                match path {
                    Some(p) => out.append(p.as_str()),
                    None => out.append("."),
                }
                out
            },
            Tool::Ls { path } => error::prefixed("ls: ", path.as_str()),
            Tool::Done { summary } => error::prefixed("done: ", summary.as_str()),
        }
    }
}

// ---------------------------------------------------------------------------
// Reading tools in a model's answer
// ---------------------------------------------------------------------------

/// The kinds of tools, in the order in which they are read.
#[derive(Clone, Copy, Debug, PartialEq, Eq, Structural)]
pub enum ToolKind {
    Read,
    Write,
    Edit,
    Run,
    Search,
    Ls,
    Done,
}

impl ToolKind {
    /// The regular expression that finds tools of this kind.
    pub open spec fn pattern(self) -> Pattern {
        match self {
            ToolKind::Read => Pattern::ReadTag,
            ToolKind::Write => Pattern::WriteTag,
            ToolKind::Edit => Pattern::EditTag,
            ToolKind::Run => Pattern::RunTag,
            ToolKind::Search => Pattern::SearchTag,
            ToolKind::Ls => Pattern::LsTag,
            ToolKind::Done => Pattern::DoneTag,
        }
    }

    fn source(&self) -> (r: &'static str)
        ensures
            r@ == self.pattern().source(),
    {
        match self {
            ToolKind::Read => patterns::READ_TAG,
            ToolKind::Write => patterns::WRITE_TAG,
            ToolKind::Edit => patterns::EDIT_TAG,
            ToolKind::Run => patterns::RUN_TAG,
            ToolKind::Search => patterns::SEARCH_TAG,
            ToolKind::Ls => patterns::LS_TAG,
            ToolKind::Done => patterns::DONE_TAG,
        }
    }

    /// The groups of a match are those that a tool of this kind is made from.
    pub open spec fn fits(self, g: Seq<Option<Seq<char>>>) -> bool {
        match self {
            ToolKind::Write => g.len() == 3 && g[1] is Some && g[2] is Some,
            ToolKind::Edit => g.len() == 4 && g[1] is Some && g[2] is Some && g[3] is Some,
            ToolKind::Search => g.len() == 3 && g[2] is Some,
            _ => g.len() == 2 && g[1] is Some,
        }
    }
}

/// The tool that the groups of a match make.
pub open spec fn tool_of(kind: ToolKind, g: Seq<Option<Seq<char>>>) -> ToolView {
    match kind {
        ToolKind::Read => ToolView::ReadFile { path: text::trimmed(g[1].unwrap()) },
        ToolKind::Write => ToolView::WriteFile {
            path: text::trimmed(g[1].unwrap()),
            content: g[2].unwrap(),
        },
        ToolKind::Edit => ToolView::EditFile {
            path: text::trimmed(g[1].unwrap()),
            old: g[2].unwrap(),
            new: g[3].unwrap(),
        },
        ToolKind::Run => ToolView::Run { command: text::trimmed(g[1].unwrap()) },
        ToolKind::Search => ToolView::Search {
            pattern: text::trimmed(g[2].unwrap()),
            path: g[1],
        },
        ToolKind::Ls => ToolView::Ls { path: text::trimmed(g[1].unwrap()) },
        ToolKind::Done => ToolView::Done { summary: text::trimmed(g[1].unwrap()) },
    }
}

/// The tools of one kind in a text.
pub open spec fn tools_of_kind(kind: ToolKind, s: Seq<char>) -> Seq<ToolView> {
    kind.pattern().matches(s, 0).map_values(
        |g: Seq<Option<Seq<char>>>| tool_of(kind, g),
    )
}

/// The tools in a text: kind by kind, and within a kind in order.
pub open spec fn tools_in(s: Seq<char>) -> Seq<ToolView> {
    tools_of_kind(ToolKind::Read, s) + tools_of_kind(ToolKind::Write, s) + tools_of_kind(
        ToolKind::Edit,
        s,
    ) + tools_of_kind(ToolKind::Run, s) + tools_of_kind(ToolKind::Search, s) + tools_of_kind(
        ToolKind::Ls,
        s,
    ) + tools_of_kind(ToolKind::Done, s)
}

/// The views of tools.
pub open spec fn tool_views(v: Seq<Tool>) -> Seq<ToolView> {
    v.map_values(|t: Tool| t@)
}

/// The text of a group.
fn group(g: &Vec<Option<String>>, i: usize) -> (r: String)
    requires
        i < g@.len(),
        g@[i as int] is Some,
    ensures
        r@ == g@[i as int].unwrap()@,
{
    match &g[i] {
        Some(s) => s.clone(),
        None => String::new(),
    }
}

/// The views of the groups of one match.
pub open spec fn group_views(g: Seq<Option<String>>) -> Seq<Option<Seq<char>>> {
    g.map_values(|o: Option<String>| text::opt_text(o))
}

/// The tool that the groups of a match make.
pub fn make_tool(kind: ToolKind, g: &Vec<Option<String>>) -> (r: Tool)
    requires
        kind.fits(group_views(g@)),
    ensures
        r@ == tool_of(kind, group_views(g@)),
{
    let ghost v = group_views(g@);
    assert(v.len() == g@.len());
    assert(v[1] == text::opt_text(g@[1]));
    match kind {
        ToolKind::Read => Tool::ReadFile { path: text::trim(group(g, 1).as_str()) },
        ToolKind::Write => {
            assert(v[2] == text::opt_text(g@[2]));
            Tool::WriteFile { path: text::trim(group(g, 1).as_str()), content: group(g, 2) }
        },
        ToolKind::Edit => {
            assert(v[2] == text::opt_text(g@[2]));
            assert(v[3] == text::opt_text(g@[3]));
            Tool::EditFile {
                path: text::trim(group(g, 1).as_str()),
                old: group(g, 2),
                new: group(g, 3),
            }
        },
        ToolKind::Run => Tool::Run { command: text::trim(group(g, 1).as_str()) },
        ToolKind::Search => {
            assert(v[2] == text::opt_text(g@[2]));
            Tool::Search { pattern: text::trim(group(g, 2).as_str()), path: g[1].clone() }
        },
        ToolKind::Ls => Tool::Ls { path: text::trim(group(g, 1).as_str()) },
        ToolKind::Done => Tool::Done { summary: text::trim(group(g, 1).as_str()) },
    }
}

/// The tools that matches make, one for each.
pub fn tools_from_matches(kind: ToolKind, matches: &Vec<Vec<Option<String>>>) -> (r: Vec<Tool>)
    requires
        forall|k: int|
            0 <= k < matches@.len() ==> kind.fits(#[trigger] patterns::groups_of(matches@)[k]),
    ensures
        tool_views(r@) == patterns::groups_of(matches@).map_values(
            |g: Seq<Option<Seq<char>>>| tool_of(kind, g),
        ),
{
    let ghost m = patterns::groups_of(matches@);
    let ghost f = |g: Seq<Option<Seq<char>>>| tool_of(kind, g);
    let mut out: Vec<Tool> = Vec::new();
    let mut k: usize = 0;
    while k < matches.len()
        invariant
            k <= matches@.len(),
            m == patterns::groups_of(matches@),
            f == (|g: Seq<Option<Seq<char>>>| tool_of(kind, g)),
            forall|j: int| 0 <= j < matches@.len() ==> kind.fits(#[trigger] m[j]),
            tool_views(out@) == m.take(k as int).map_values(f),
        decreases matches.len() - k,
    {
        assert(m[k as int] =~= group_views(matches@[k as int]@));
        assert(kind.fits(m[k as int]));
        let t = make_tool(kind, &matches[k]);
        let ghost before = out@;
        out.push(t);
        proof {
            assert(tool_views(out@) =~= tool_views(before).push(t@));
            assert(m.take(k + 1).map_values(f) =~= m.take(k as int).map_values(f).push(
                f(m[k as int]),
            ));
        }
        k = k + 1;
    }
    assert(m.take(matches@.len() as int) =~= m);
    out
}

/// The tools of one kind in a text.
fn find_tools(kind: ToolKind, s: &str) -> (r: Vec<Tool>)
    ensures
        tool_views(r@) == tools_of_kind(kind, s@),
{
    let source = kind.source();
    let matches = outside::regex_captures(source, s);
    proof {
        let m = patterns::groups_of(matches@);
        assert(m == kind.pattern().matches(s@, 0));
        assert forall|k: int| 0 <= k < matches@.len() implies kind.fits(#[trigger] m[k]) by {
            patterns::lemma_all_take_part(kind.pattern(), s@, 0, k);
        }
    }
    tools_from_matches(kind, &matches)
}

/// The tools in a model's answer, kind by kind.
pub fn parse_tools(response: &str) -> (r: Vec<Tool>)
    ensures
        tool_views(r@) == tools_in(response@),
{
    let mut tools = find_tools(ToolKind::Read, response);
    let mut more = find_tools(ToolKind::Write, response);
    let ghost mut a = tools@;
    let ghost mut b = more@;
    tools.append(&mut more);
    assert(tool_views(tools@) =~= tool_views(a) + tool_views(b));
    let mut more = find_tools(ToolKind::Edit, response);
    proof {
        a = tools@;
        b = more@;
    }
    tools.append(&mut more);
    assert(tool_views(tools@) =~= tool_views(a) + tool_views(b));
    let mut more = find_tools(ToolKind::Run, response);
    proof {
        a = tools@;
        b = more@;
    }
    tools.append(&mut more);
    assert(tool_views(tools@) =~= tool_views(a) + tool_views(b));
    let mut more = find_tools(ToolKind::Search, response);
    proof {
        a = tools@;
        b = more@;
    }
    tools.append(&mut more);
    assert(tool_views(tools@) =~= tool_views(a) + tool_views(b));
    let mut more = find_tools(ToolKind::Ls, response);
    proof {
        a = tools@;
        b = more@;
    }
    tools.append(&mut more);
    assert(tool_views(tools@) =~= tool_views(a) + tool_views(b));
    let mut more = find_tools(ToolKind::Done, response);
    proof {
        a = tools@;
        b = more@;
    }
    tools.append(&mut more);
    assert(tool_views(tools@) =~= tool_views(a) + tool_views(b));
    tools
}

// ---------------------------------------------------------------------------
// Paths
// ---------------------------------------------------------------------------

/// A canonical path by its components, or why there is none.
pub type Canonical = Result<Vec<String>, String>;

/// What the file system says of a path.
pub enum Target {
    /// It exists: its canonical form.
    Exists(Canonical),
    /// It does not exist: the canonical form of the nearest ancestor that does, and
    /// the components of the path behind that ancestor.
    Missing { ancestor: Canonical, rest: Vec<String> },
    /// Neither it nor any ancestor of it exists.
    Nameless,
}

/// How a path is used.
#[derive(Clone, Copy, Debug, PartialEq, Eq, Structural)]
pub enum Resolved {
    /// In its canonical form.
    Canonical,
    /// As it was given, below the project directory.
    AsGiven,
}

/// The path lies in or below the base.
pub open spec fn lies_within(path: Seq<Seq<char>>, base: Seq<Seq<char>>) -> bool {
    base.len() <= path.len() && path.take(base.len() as int) == base
}

/// Whether the path lies in or below the base.
pub fn is_within(path: &Vec<String>, base: &Vec<String>) -> (r: bool)
    ensures
        r == lies_within(text::texts(path@), text::texts(base@)),
{
    let ghost p = text::texts(path@);
    let ghost b = text::texts(base@);
    if base.len() > path.len() {
        return false;
    }
    let mut i: usize = 0;
    while i < base.len()
        invariant
            i <= base@.len() <= path@.len(),
            p == text::texts(path@),
            b == text::texts(base@),
            forall|j: int| 0 <= j < i ==> p[j] == #[trigger] b[j],
        decreases base.len() - i,
    {
        assert(p[i as int] == path@[i as int]@ && b[i as int] == base@[i as int]@);
        if !text::same(path[i].as_str(), base[i].as_str()) {
            assert(p.take(b.len() as int)[i as int] != b[i as int]);
            return false;
        }
        i = i + 1;
    }
    assert(p.take(b.len() as int) =~= b);
    true
}

/// The message for a path that leads out of the project.
pub open spec fn outside_project() -> Seq<char> {
    "path outside project directory"@
}

/// One of the components leads upwards.
pub open spec fn leads_up(rest: Seq<Seq<char>>) -> bool {
    rest.contains(".."@)
}

/// Whether one of the components leads upwards.
fn goes_up(rest: &Vec<String>) -> (r: bool)
    ensures
        r == leads_up(text::texts(rest@)),
{
    let ghost all = text::texts(rest@);
    let mut i: usize = 0;
    while i < rest.len()
        invariant
            i <= rest@.len() == all.len(),
            all == text::texts(rest@),
            forall|k: int| 0 <= k < i ==> #[trigger] all[k] != ".."@,
        decreases rest.len() - i,
    {
        assert(all[i as int] == rest@[i as int]@);
        if text::same(rest[i].as_str(), "..") {
            return true;
        }
        i = i + 1;
    }
    false
}

/// How a path of the project may be used, or why not.
pub open spec fn resolution(base: Canonical, target: Target) -> Result<Resolved, Seq<char>> {
    match base {
        Err(e) => Err("bad project dir: "@ + e@),
        Ok(b) => match target {
            Target::Exists(Err(e)) => Err("bad path: "@ + e@),
            Target::Exists(Ok(p)) => if lies_within(text::texts(p@), text::texts(b@)) {
                Ok(Resolved::Canonical)
            } else {
                Err(outside_project())
            },
            Target::Missing { ancestor: Err(e), rest: _ } => Err("bad parent: "@ + e@),
            Target::Missing { ancestor: Ok(p), rest } => if lies_within(
                text::texts(p@),
                text::texts(b@),
            ) && !leads_up(text::texts(rest@)) {
                Ok(Resolved::AsGiven)
            } else {
                Err(outside_project())
            },
            Target::Nameless => Err("no parent directory"@),
        },
    }
}

/// How a path of the project may be used, or why not: neither the path, where it
/// exists, nor else its nearest ancestor that does may lie outside the project
/// directory, and nothing behind that ancestor may lead upwards.
pub fn resolve_path(base: &Canonical, target: &Target) -> (r: Result<Resolved, String>)
    ensures
        match r {
            Ok(u) => resolution(*base, *target) == Ok::<Resolved, Seq<char>>(u),
            Err(e) => resolution(*base, *target) == Err::<Resolved, Seq<char>>(e@),
        },
{
    let b = match base {
        Err(e) => {
            return Err(error::prefixed("bad project dir: ", e.as_str()));
        },
        Ok(b) => b,
    };
    match target {
        Target::Exists(Err(e)) => Err(error::prefixed("bad path: ", e.as_str())),
        Target::Exists(Ok(p)) => if is_within(p, b) {
            Ok(Resolved::Canonical)
        } else {
            Err("path outside project directory".to_owned())
        },
        Target::Missing { ancestor: Err(e), rest: _ } => Err(
            error::prefixed("bad parent: ", e.as_str()),
        ),
        Target::Missing { ancestor: Ok(p), rest } => if is_within(p, b) && !goes_up(rest) {
            Ok(Resolved::AsGiven)
        } else {
            Err("path outside project directory".to_owned())
        },
        Target::Nameless => Err("no parent directory".to_owned()),
    }
}

/// Where a path leads: to its canonical form, or to what follows the canonical form
/// of its nearest ancestor.
pub open spec fn reached(target: Target) -> Seq<Seq<char>> {
    match target {
        Target::Exists(Ok(p)) => text::texts(p@),
        Target::Missing { ancestor: Ok(p), rest } => text::texts(p@) + text::texts(rest@),
        _ => Seq::empty(),
    }
}

/// No path is used that leads out of the project directory: what it leads to lies
/// in or below the directory, and where it does not exist yet, nothing behind its
/// nearest ancestor leads upwards.
pub proof fn paths_stay_inside(base: Canonical, target: Target)
    requires
        resolution(base, target) is Ok,
    ensures
        base is Ok,
        lies_within(reached(target), text::texts((base->Ok_0)@)),
        target matches Target::Missing { ancestor: _, rest } ==> !leads_up(text::texts(rest@)),
{
    let b = text::texts((base->Ok_0)@);
    match target {
        Target::Missing { ancestor: Ok(p), rest } => {
            let a = text::texts(p@);
            assert((a + text::texts(rest@)).take(b.len() as int) =~= a.take(b.len() as int));
        },
        _ => {},
    }
}

/// A path that leads out of the project directory is refused as such.
pub proof fn paths_outside_are_refused(base: Canonical, target: Target)
    requires
        base is Ok,
        match target {
            Target::Exists(p) => p is Ok && !lies_within(
                reached(target),
                text::texts((base->Ok_0)@),
            ),
            Target::Missing { ancestor, rest } => ancestor is Ok && (!lies_within(
                text::texts((ancestor->Ok_0)@),
                text::texts((base->Ok_0)@),
            ) || leads_up(text::texts(rest@))),
            Target::Nameless => false,
        },
    ensures
        resolution(base, target) == Err::<Resolved, Seq<char>>(outside_project()),
{
}

// ---------------------------------------------------------------------------
// Using tools
// ---------------------------------------------------------------------------

/// What the use of a tool asks for.
pub enum ToolRequest {
    Read { path: String },
    /// Write this content.
    Write { path: String, content: String },
    /// Replace the first occurrence of `old` by `new`.
    Edit { path: String, old: String, new: String },
    /// Run a command in the project directory.
    Shell { command: String, timeout_secs: u64 },
    /// Nothing: this is the result.
    Answer(String),
}

/// `n` right-aligned in four places.
pub open spec fn in_four_places(n: nat) -> Seq<char> {
    let d = number::decimal(n);
    if d.len() >= 4 {
        d
    } else {
        Seq::new((4 - d.len()) as nat, |i: int| ' ') + d
    }
}

/// The lines of a file behind their numbers.
pub open spec fn numbered_lines(content: Seq<char>) -> Seq<char> {
    let ls = lines::lines_of(content);
    lines::joined(
        Seq::new(ls.len(), |i: int| in_four_places((i + 1) as nat) + " | "@ + ls[i]),
        "\n"@,
    )
}

/// `n` right-aligned in four places.
fn four_places(n: u64) -> (r: String)
    ensures
        r@ == in_four_places(n as nat),
{
    let d = number::decimal_text(n);
    let size = d.as_str().unicode_len();
    if size >= 4 {
        return d;
    }
    let mut out = String::new();
    let mut i: usize = size;
    while i < 4
        invariant
            size <= i <= 4,
            out@ == Seq::new((i - size) as nat, |j: int| ' '),
        decreases 4 - i,
    {
        out.push(' ');
        i = i + 1;
        assert(out@ =~= Seq::new((i - size) as nat, |j: int| ' '));
    }
    out.append(d.as_str());
    out
}

/// The lines of a file behind their numbers.
pub fn number_lines(content: &str) -> (r: String)
    ensures
        r@ == numbered_lines(content@),
{
    let ls = lines::lines(content);
    let ghost all = lines::lines_of(content@);
    let ghost out_all = Seq::new(
        all.len(),
        |i: int| in_four_places((i + 1) as nat) + " | "@ + all[i],
    );
    let mut out: Vec<String> = Vec::new();
    let mut i: usize = 0;
    assert(text::texts(ls@).len() == ls@.len());
    while i < ls.len()
        invariant
            i <= ls@.len() == all.len(),
            all == text::texts(ls@),
            out_all == Seq::new(
                all.len(),
                |i: int| in_four_places((i + 1) as nat) + " | "@ + all[i],
            ),
            text::texts(out@) == out_all.take(i as int),
        decreases ls.len() - i,
    {
        let mut line = four_places(i as u64 + 1);
        line.append(" | ");
        line.append(ls[i].as_str());
        let ghost before = out@;
        out.push(line);
        proof {
            assert(text::texts(out@) =~= text::texts(before).push(line@));
            assert(out_all.take(i + 1) =~= out_all.take(i as int).push(out_all[i as int]));
        }
        i = i + 1;
    }
    assert(out_all.take(ls@.len() as int) =~= out_all);
    lines::join(&out, "\n")
}

/// What is written of a file's content: all but a leading line feed.
pub open spec fn written(content: Seq<char>) -> Seq<char> {
    if content.len() > 0 && content[0] == '\n' {
        content.drop_first()
    } else {
        content
    }
}

/// What is written of a file's content.
pub fn content_to_write(content: &str) -> (r: String)
    ensures
        r@ == written(content@),
{
    let cs = text::chars_of(content);
    if cs.len() > 0 && cs[0] == '\n' {
        let r = text::text_between(&cs, 1, cs.len());
        assert(r@ =~= content@.drop_first());
        r
    } else {
        content.to_owned()
    }
}

/// The content of a file after an edit: its first occurrence of the old text,
/// without white space at its ends, replaced by the new one likewise; nothing
/// where the old text does not occur.
pub open spec fn edited(content: Seq<char>, old: Seq<char>, new: Seq<char>) -> Option<Seq<char>> {
    if text::has(content, text::trimmed(old)) {
        Some(text::replaced_first(content, text::trimmed(old), text::trimmed(new)))
    } else {
        None
    }
}

/// The content of a file after an edit.
pub fn apply_edit(content: &str, old: &str, new: &str) -> (r: Option<String>)
    ensures
        text::opt_text(r) == edited(content@, old@, new@),
{
    let old_trimmed = text::trim(old);
    let new_trimmed = text::trim(new);
    if text::contains(content, old_trimmed.as_str()) {
        Some(text::replace_first(content, old_trimmed.as_str(), new_trimmed.as_str()))
    } else {
        None
    }
}

/// The message for a file that was edited.
pub open spec fn edited_note(path: Seq<char>, old: Seq<char>, new: Seq<char>) -> Seq<char> {
    "edited "@ + path + " ("@ + number::decimal(bytes::byte_len(text::trimmed(old))) + " → "@
        + number::decimal(bytes::byte_len(text::trimmed(new))) + " bytes replaced)"@
}

/// The message for a file that was edited.
pub fn edited_message(path: &str, old: &str, new: &str) -> (r: String)
    ensures
        r@ == edited_note(path@, old@, new@),
{
    let mut out = error::prefixed("edited ", path);
    out.append(" (");
    out.append(number::decimal_text(bytes::len(text::trim(old).as_str()) as u64).as_str());
    out.append(" → ");
    out.append(number::decimal_text(bytes::len(text::trim(new).as_str()) as u64).as_str());
    out.append(" bytes replaced)");
    out
}

/// The message for a file in which the old text does not occur.
pub fn not_found_message(path: &str) -> (r: String)
    ensures
        r@ == "error: old text not found in "@ + path@,
{
    error::prefixed("error: old text not found in ", path)
}

/// The message for a file that was written.
pub open spec fn wrote_note(path: Seq<char>, content: Seq<char>) -> Seq<char> {
    "wrote "@ + path + " ("@ + number::decimal(bytes::byte_len(written(content))) + " bytes)"@
}

/// The message for a file that was written.
pub fn wrote_message(path: &str, content: &str) -> (r: String)
    ensures
        r@ == wrote_note(path@, content@),
{
    let mut out = error::prefixed("wrote ", path);
    out.append(" (");
    out.append(number::decimal_text(bytes::len(content_to_write(content).as_str()) as u64).as_str());
    out.append(" bytes)");
    out
}

/// The message for a file that could not be read or written: `verb` says which.
pub open spec fn file_trouble(verb: Seq<char>, path: Seq<char>, why: Seq<char>) -> Seq<char> {
    "error "@ + verb + " "@ + path + ": "@ + why
}

/// The message for a file that could not be read or written: `verb` says which.
pub fn file_error(verb: &str, path: &str, why: &str) -> (r: String)
    ensures
        r@ == file_trouble(verb@, path@, why@),
{
    let mut out = error::prefixed("error ", verb);
    out.append(" ");
    out.append(path);
    out.append(": ");
    out.append(why);
    out
}

/// The message for a path that may not be used.
pub fn path_error(why: &str) -> (r: String)
    ensures
        r@ == "error: "@ + why@,
{
    error::prefixed("error: ", why)
}

/// The command that searches for a pattern: the pattern is put in single
/// quotes, those in it escaped.
pub open spec fn search_command(pattern: Seq<char>, path: Option<Seq<char>>) -> Seq<char> {
    "grep -rn --binary-files=without-match '"@ + text::replaced(
        pattern,
        "'"@,
        "'\\''"@,
    ) + "' "@ + path_or_dot(path) + " 2>/dev/null | head -50"@
}

/// The command that lists a directory.
pub open spec fn ls_command(path: Seq<char>) -> Seq<char> {
    "find "@ + (if path.len() == 0 {
        "."@
    } else {
        path
    })
        + " -maxdepth 3 -not -path '*/target/*' -not -path '*/.git/*' -not -path '*/node_modules/*' 2>/dev/null | sort | head -100"@
}

/// What the use of a tool asks for.
pub open spec fn requests(t: ToolView, r: ToolRequest) -> bool {
    match t {
        ToolView::ReadFile { path } => r is Read && r->Read_path@ == path,
        ToolView::WriteFile { path, content } => r is Write && r->Write_path@ == path
            && r->content@ == content,
        ToolView::EditFile { path, old, new } => r is Edit && r->Edit_path@ == path && r->old@
            == old && r->new@ == new,
        ToolView::Run { command } => r is Shell && r->command@ == command && r->timeout_secs == 60,
        ToolView::Search { pattern, path } => r is Shell && r->command@ == search_command(
            pattern,
            path,
        ) && r->timeout_secs == 15,
        ToolView::Ls { path } => r is Shell && r->command@ == ls_command(path) && r->timeout_secs
            == 10,
        ToolView::Done { summary } => r is Answer && r->Answer_0@ == summary,
    }
}

/// What the use of a tool asks for.
pub fn execute_tool(tool: &Tool) -> (r: ToolRequest)
    ensures
        requests(tool@, r),
{
    match tool {
        Tool::ReadFile { path } => ToolRequest::Read { path: path.clone() },
        Tool::WriteFile { path, content } => ToolRequest::Write {
            path: path.clone(),
            content: content.clone(),
        },
        Tool::EditFile { path, old, new } => ToolRequest::Edit {
            path: path.clone(),
            old: old.clone(),
            new: new.clone(),
        },
        Tool::Run { command } => ToolRequest::Shell { command: command.clone(), timeout_secs: 60 },
        Tool::Search { pattern, path } => {
            proof {
                reveal_strlit("'");
            }
            let escaped = text::replace(pattern.as_str(), "'", "'\\''");
            let mut cmd = "grep -rn --binary-files=without-match '".to_owned();
            cmd.append(escaped.as_str());
            cmd.append("' ");
            match path {
                Some(p) => cmd.append(p.as_str()),
                None => cmd.append("."),
            }
            cmd.append(" 2>/dev/null | head -50");
            ToolRequest::Shell { command: cmd, timeout_secs: 15 }
        },
        Tool::Ls { path } => {
            let mut cmd = "find ".to_owned();
            if path.as_str().unicode_len() == 0 {
                cmd.append(".");
            } else {
                cmd.append(path.as_str());
            }
            cmd.append(
                " -maxdepth 3 -not -path '*/target/*' -not -path '*/.git/*' -not -path '*/node_modules/*' 2>/dev/null | sort | head -100",
            );
            ToolRequest::Shell { command: cmd, timeout_secs: 10 }
        },
        Tool::Done { summary } => ToolRequest::Answer(summary.clone()),
    }
}

// ---------------------------------------------------------------------------
// The output of commands
// ---------------------------------------------------------------------------

/// What a command printed: the standard output, and behind it what it printed
/// as errors.
pub open spec fn printed(stdout: Seq<char>, stderr: Seq<char>) -> Seq<char> {
    if stderr.len() == 0 {
        stdout
    } else if stdout.len() == 0 {
        "stderr: "@ + stderr
    } else {
        stdout + "\n"@ + "stderr: "@ + stderr
    }
}

/// What a command printed.
pub fn combine_output(stdout: &str, stderr: &str) -> (r: String)
    ensures
        r@ == printed(stdout@, stderr@),
{
    let mut out = String::new();
    let some = stdout.unicode_len() > 0;
    if some {
        out.append(stdout);
        assert(out@ =~= stdout@);
    }
    if stderr.unicode_len() > 0 {
        if some {
            out.append("\n");
        }
        out.append("stderr: ");
        out.append(stderr);
        assert(out@ =~= printed(stdout@, stderr@));
    } else {
        assert(out@ =~= stdout@);
    }
    out
}

/// The most bytes that are shown of the output of a command.
pub const OUTPUT_LIMIT: usize = 10_000;

/// The result of a command that printed `out` and ended with an exit code, or
/// without one: the code where it printed nothing, and a long output cut off.
pub open spec fn shell_result(out: Seq<char>, code: Option<i32>) -> Seq<char> {
    if out.len() == 0 {
        "(exit "@ + number::signed_decimal(match code {
            Some(c) => c as int,
            None => -1,
        }) + ")"@
    } else if bytes::byte_len(out) > OUTPUT_LIMIT {
        bytes::byte_prefix(out, OUTPUT_LIMIT as int) + "...\n[truncated, "@ + number::decimal(
            bytes::byte_len(out),
        ) + " total bytes]"@
    } else {
        out
    }
}

/// The result of a command.
pub fn format_shell_result(out: &str, code: Option<i32>) -> (r: String)
    requires
        bytes::byte_len(out@) > OUTPUT_LIMIT ==> bytes::cuts_at(out@, OUTPUT_LIMIT as int),
    ensures
        r@ == shell_result(out@, code),
{
    if out.unicode_len() == 0 {
        let n: i64 = match code {
            Some(c) => c as i64,
            None => -1,
        };
        let mut r = "(exit ".to_owned();
        r.append(number::signed_text(n).as_str());
        r.append(")");
        return r;
    }
    let size = bytes::len(out);
    if size > OUTPUT_LIMIT {
        let (mut head, _tail) = bytes::cut(out, OUTPUT_LIMIT);
        head.append("...\n[truncated, ");
        head.append(number::decimal_text(size as u64).as_str());
        head.append(" total bytes]");
        head
    } else {
        out.to_owned()
    }
}

/// The message for a command that could not be run.
pub fn command_failed(why: &str) -> (r: String)
    ensures
        r@ == "command failed: "@ + why@,
{
    error::prefixed("command failed: ", why)
}

/// The message for a command that took too long.
pub fn timed_out(timeout_secs: u64) -> (r: String)
    ensures
        r@ == "timed out after "@ + number::decimal(timeout_secs as nat) + "s"@,
{
    let mut out = error::prefixed("timed out after ", number::decimal_text(timeout_secs).as_str());
    out.append("s");
    out
}

/// `s`, or its first `max` bytes with a mark behind them.
pub open spec fn truncated(s: Seq<char>, max: nat) -> Seq<char> {
    if bytes::byte_len(s) > max {
        bytes::byte_prefix(s, max as int) + "...[truncated]"@
    } else {
        s
    }
}

/// `s`, or its first `max` bytes with a mark behind them.
pub fn truncate_for_event(s: &str, max: usize) -> (r: String)
    requires
        bytes::byte_len(s@) > max ==> bytes::cuts_at(s@, max as int),
    ensures
        r@ == truncated(s@, max as nat),
{
    if bytes::len(s) > max {
        let (mut head, _tail) = bytes::cut(s, max);
        head.append("...[truncated]");
        head
    } else {
        s.to_owned()
    }
}

// ---------------------------------------------------------------------------
// What the model is shown
// ---------------------------------------------------------------------------

/// The model is shown all lines of a file in their order, each on a line of its own behind
/// its number, counted from one.
pub proof fn files_are_shown_by_line(content: Seq<char>)
    ensures
        passages::in_order(numbered_lines(content), lines::lines_of(content)),
        passages::spaced(
            numbered_lines(content),
            Seq::new(
                lines::lines_of(content).len(),
                |i: int|
                    in_four_places((i + 1) as nat) + seq![' ', '|', ' '] + lines::lines_of(
                        content,
                    )[i],
            ),
            seq!['\n'],
        ),
{
    let ls = lines::lines_of(content);
    let shown = Seq::new(
        ls.len(),
        |i: int| in_four_places((i + 1) as nat) + seq![' ', '|', ' '] + ls[i],
    );
    reveal_strlit(" | ");
    reveal_strlit("\n");
    assert(" | "@ =~= seq![' ', '|', ' ']);
    assert("\n"@ =~= seq!['\n']);
    assert(numbered_lines(content) == lines::joined(shown, seq!['\n'])) by {
        assert(Seq::new(ls.len(), |i: int| in_four_places((i + 1) as nat) + " | "@ + ls[i])
            =~= shown);
    }
    passages::lemma_joined(shown, seq!['\n']);
    assert forall|i: int| 0 <= i < shown.len() implies text::has(#[trigger] shown[i], ls[i]) by {
        let head = in_four_places((i + 1) as nat) + seq![' ', '|', ' '];
        passages::lemma_stands(head, ls[i], Seq::empty());
        assert(head + ls[i] + Seq::<char>::empty() =~= shown[i]);
    }
    passages::lemma_within(numbered_lines(content), shown, ls);
}

/// A number in four places is the number, with nothing but spaces before it, and never
/// shorter than four places.
pub proof fn numbers_are_aligned(n: nat)
    ensures
        in_four_places(n).len() >= 4,
        in_four_places(n).len() >= number::decimal(n).len(),
        in_four_places(n).skip(in_four_places(n).len() - number::decimal(n).len())
            == number::decimal(n),
        forall|i: int|
            0 <= i < in_four_places(n).len() - number::decimal(n).len() ==> #[trigger] in_four_places(
                n,
            )[i] == ' ',
        number::decimal(n).len() >= 4 ==> in_four_places(n) == number::decimal(n),
{
    let d = number::decimal(n);
    assert(in_four_places(n).skip(in_four_places(n).len() - d.len()) =~= d);
}

/// The model is shown all that a command printed, its output before its errors; where it
/// printed no errors the output and nothing else.
pub proof fn output_is_shown(stdout: Seq<char>, stderr: Seq<char>)
    ensures
        passages::in_order(printed(stdout, stderr), seq![stdout, stderr]),
        stderr.len() == 0 ==> printed(stdout, stderr) == stdout,
{
    let e = Seq::<char>::empty();
    if stderr.len() == 0 {
        passages::lemma_two(e, stdout, e, stderr, e);
        assert(e + stdout + e + stderr + e =~= stdout);
    } else if stdout.len() == 0 {
        passages::lemma_two(e, stdout, "stderr: "@, stderr, e);
        assert(e + stdout + "stderr: "@ + stderr + e =~= printed(stdout, stderr));
    } else {
        passages::lemma_two(e, stdout, "\n"@ + "stderr: "@, stderr, e);
        assert(e + stdout + ("\n"@ + "stderr: "@) + stderr + e =~= printed(stdout, stderr));
    }
}

/// Output of at most ten thousand bytes is shown as it stands; of a longer one the first
/// ten thousand bytes, and behind them how long the whole was; and where there was none,
/// the code with which the command ended.
pub proof fn results_are_shown(out: Seq<char>, code: i32)
    ensures
        0 < out.len() && bytes::byte_len(out) <= 10_000 ==> shell_result(out, Some(code)) == out,
        out.len() > 0 ==> shell_result(out, Some(code)) == shell_result(out, None),
        bytes::byte_len(out) > 10_000 && out.len() > 0 ==> passages::in_order(
            shell_result(out, Some(code)),
            seq![bytes::byte_prefix(out, 10_000), number::decimal(bytes::byte_len(out))],
        ),
        out.len() == 0 ==> text::has(
            shell_result(out, Some(code)),
            number::signed_decimal(code as int),
        ),
        out.len() == 0 && code == -1 ==> shell_result(out, None) == shell_result(out, Some(code)),
{
    if out.len() == 0 {
        passages::lemma_stands("(exit "@, number::signed_decimal(code as int), ")"@);
    } else if bytes::byte_len(out) > 10_000 {
        let e = Seq::<char>::empty();
        let head = bytes::byte_prefix(out, 10_000);
        let size = number::decimal(bytes::byte_len(out));
        passages::lemma_two(e, head, "...\n[truncated, "@, size, " total bytes]"@);
        assert(e + head + "...\n[truncated, "@ + size + " total bytes]"@ =~= shell_result(
            out,
            Some(code),
        ));
    }
}

/// What is shown of a long text is its beginning with a mark behind it; a text that is
/// not too long is shown whole.
pub proof fn texts_are_cut(s: Seq<char>, max: nat)
    ensures
        bytes::byte_len(s) <= max ==> truncated(s, max) == s,
        bytes::byte_len(s) > max ==> bytes::byte_prefix(s, max as int).is_prefix_of(
            truncated(s, max),
        ) && truncated(s, max).len() == bytes::byte_prefix(s, max as int).len()
            + "...[truncated]"@.len(),
{
    if bytes::byte_len(s) > max {
        let head = bytes::byte_prefix(s, max as int);
        assert(truncated(s, max).subrange(0, head.len() as int) =~= head);
    }
}

/// The messages for files name the file first. Behind it stands how long the old and the
/// new text are, how much was written, or why it could not be used.
pub proof fn files_are_named(
    path: Seq<char>,
    old: Seq<char>,
    new: Seq<char>,
    content: Seq<char>,
    verb: Seq<char>,
    why: Seq<char>,
)
    ensures
        passages::in_order(
            edited_note(path, old, new),
            seq![path, number::decimal(bytes::byte_len(text::trimmed(old)))],
        ),
        passages::in_order(
            edited_note(path, old, new),
            seq![
                number::decimal(bytes::byte_len(text::trimmed(old))),
                number::decimal(bytes::byte_len(text::trimmed(new))),
            ],
        ),
        passages::in_order(
            wrote_note(path, content),
            seq![path, number::decimal(bytes::byte_len(written(content)))],
        ),
        passages::in_order(file_trouble(verb, path, why), seq![verb, path]),
        passages::in_order(file_trouble(verb, path, why), seq![path, why]),
{
    let e = Seq::<char>::empty();
    let a = number::decimal(bytes::byte_len(text::trimmed(old)));
    let b = number::decimal(bytes::byte_len(text::trimmed(new)));
    let edit = edited_note(path, old, new);
    let tail = " → "@ + b + " bytes replaced)"@;
    passages::lemma_two("edited "@, path, " ("@, a, tail);
    assert("edited "@ + path + " ("@ + a + tail =~= edit);
    passages::lemma_two("edited "@ + path + " ("@, a, " → "@, b, " bytes replaced)"@);
    passages::lemma_two(
        "wrote "@,
        path,
        " ("@,
        number::decimal(bytes::byte_len(written(content))),
        " bytes)"@,
    );
    let trouble = file_trouble(verb, path, why);
    passages::lemma_two("error "@, verb, " "@, path, ": "@ + why);
    assert("error "@ + verb + " "@ + path + (": "@ + why) =~= trouble);
    passages::lemma_two("error "@ + verb + " "@, path, ": "@, why, e);
    assert("error "@ + verb + " "@ + path + ": "@ + why + e =~= trouble);
}

} // verus!
