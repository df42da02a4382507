//! The autonomous coding loop: what the model is asked, what its answers lead
//! to, and when the loop ends.
use vstd::prelude::*;

use crate::bytes;
use crate::character::Character;
use crate::compose::ProviderResult;
use crate::error;
use crate::lines;
use crate::number;
use crate::outside;
use crate::passages;
use crate::runtime::Plugin;
use crate::text;
use crate::time::Timestamp;
use crate::tools;
use crate::tools::{Tool, ToolRequest, ToolView};
use crate::types::{ActionResult, GenerateTextParams, Memory, ModelType, Values};

verus! {

// ---------------------------------------------------------------------------
// Events
// ---------------------------------------------------------------------------

/// What the loop tells those who follow it.
#[derive(Clone, Debug)]
pub enum CodingEvent {
    Status(String),
    Thinking(String),
    Tool(String),
    Output(String),
    Done(String),
    Error(String),
    Workspace { branch: String, dir: String },
    FileChanged { path: String, action: String },
    Iteration(usize),
}

/// An event over the texts of its strings.
pub enum EventView {
    Status(Seq<char>),
    Thinking(Seq<char>),
    Tool(Seq<char>),
    Output(Seq<char>),
    Done(Seq<char>),
    Error(Seq<char>),
    Workspace { branch: Seq<char>, dir: Seq<char> },
    FileChanged { path: Seq<char>, action: Seq<char> },
    Iteration(nat),
}

impl View for CodingEvent {
    type V = EventView;

    open spec fn view(&self) -> EventView {
        match *self {
            CodingEvent::Status(s) => EventView::Status(s@),
            CodingEvent::Thinking(s) => EventView::Thinking(s@),
            CodingEvent::Tool(s) => EventView::Tool(s@),
            CodingEvent::Output(s) => EventView::Output(s@),
            CodingEvent::Done(s) => EventView::Done(s@),
            CodingEvent::Error(s) => EventView::Error(s@),
            CodingEvent::Workspace { branch, dir } => EventView::Workspace {
                branch: branch@,
                dir: dir@,
            },
            CodingEvent::FileChanged { path, action } => EventView::FileChanged {
                path: path@,
                action: action@,
            },
            CodingEvent::Iteration(n) => EventView::Iteration(n as nat),
        }
    }
}

/// The views of events.
pub open spec fn event_views(v: Seq<CodingEvent>) -> Seq<EventView> {
    v.map_values(|e: CodingEvent| e@)
}

/// Appends an event.
fn emit(events: &mut Vec<CodingEvent>, event: CodingEvent)
    ensures
        event_views(final(events)@) == event_views(old(events)@).push(event@),
{
    events.push(event);
    assert(event_views(events@) =~= event_views(old(events)@).push(event@));
}

// ---------------------------------------------------------------------------
// The project and its workspace
// ---------------------------------------------------------------------------

/// The commands that look at a project, and the seconds each may take.
pub const TREE_COMMAND: &'static str =
    "find . -maxdepth 3 -not -path '*/target/*' -not -path '*/.git/*' -not -path '*/node_modules/*' -not -name '*.o' -not -name '*.so' 2>/dev/null | sort | head -80";

pub const STATUS_COMMAND: &'static str = "git status --short 2>/dev/null || echo 'not a git repo'";

pub const LOG_COMMAND: &'static str =
    "git log --oneline -10 2>/dev/null || echo 'no git history'";

pub const GIT_DIR_COMMAND: &'static str = "git rev-parse --git-dir 2>/dev/null";

pub const BRANCH_COMMAND: &'static str = "git branch --show-current 2>/dev/null";

pub const CHANGES_COMMAND: &'static str = "git status --porcelain 2>/dev/null";

pub const LOOK_SECS: u64 = 5;

pub const CHECKOUT_SECS: u64 = 10;

/// What is told of a project: its files, its status and its last commits.
pub open spec fn project_context(
    tree: Seq<char>,
    status: Seq<char>,
    log: Seq<char>,
) -> Seq<char> {
    "## Project files:\n```\n"@ + tree + "\n```\n\n"@ + "## Git status:\n```\n"@ + status
        + "\n```\n\n"@ + "## Recent commits:\n```\n"@ + log + "\n```\n"@
}

/// A project is told by its files, its status and its last commits, in this order, each
/// as the commands printed it.
pub proof fn projects_are_told(tree: Seq<char>, status: Seq<char>, log: Seq<char>)
    ensures
        passages::in_order(project_context(tree, status, log), seq![tree, status, log]),
{
    let e = Seq::<char>::empty();
    let head = "## Project files:\n```\n"@;
    let b = "\n```\n\n"@ + "## Git status:\n```\n"@;
    let c = "\n```\n\n"@ + "## Recent commits:\n```\n"@;
    let end = "\n```\n"@;
    passages::lemma_single(head, tree, e);
    let t0 = head + tree + e;
    passages::lemma_behind(t0, seq![tree], b, status);
    passages::lemma_behind(t0 + b + status, seq![tree].push(status), c, log);
    let t2 = t0 + b + status + c + log;
    passages::lemma_in_order(e, t2, end, seq![tree].push(status).push(log));
    assert(seq![tree].push(status).push(log) =~= seq![tree, status, log]);
    assert(e + t2 + end =~= project_context(tree, status, log));
}

/// What is told of a project, from what the commands printed.
pub fn get_project_context(tree: &str, status: &str, log: &str) -> (r: String)
    ensures
        r@ == project_context(tree@, status@, log@),
{
    let mut ctx = "## Project files:\n```\n".to_owned();
    ctx.append(tree);
    ctx.append("\n```\n\n");
    ctx.append("## Git status:\n```\n");
    ctx.append(status);
    ctx.append("\n```\n\n");
    ctx.append("## Recent commits:\n```\n");
    ctx.append(log);
    ctx.append("\n```\n");
    ctx
}

/// What follows the name and the directory in the system prompt.
pub const CODING_RULES: &'static str =
    r#".

You ship working code. You do not ask for permission, you do not ask clarifying questions, you do not stall. You research with tools, you build, you test, you commit.

You MUST use tools to accomplish tasks. Do NOT just describe what you would do — actually do it by writing the XML tool tags.

## Available tools

<read_file>path/to/file</read_file>
Read a file and see its contents with line numbers.

<write_file path="path/to/file">
file content here
</write_file>
Create or overwrite a file.

<edit_file path="path/to/file">
<old>exact text to find</old>
<new>replacement text</new>
</edit_file>
Replace the first occurrence of the old text with the new text in an existing file.

<run>shell command</run>
Run a shell command and see stdout/stderr.

<search>pattern</search>
<search path="src">pattern</search>
Grep for a pattern across source files.

<ls>path</ls>
List files in a directory (3 levels deep). Use "." for project root.

<done>summary of what you accomplished</done>
Signal that the current task is complete. Only use this AFTER you have made all changes.

## CRITICAL rules
- You MUST include at least one tool tag in every response. Never respond with only text.
- NEVER ask the user questions. Use your best judgment. If something is ambiguous, pick the most reasonable interpretation and build it.
- If you don't know something, research with <run>curl -s https://...</run> or <search>. Don't say "I need more info" — go get the info.
- Build a minimal working version FIRST, then iterate to improve it. Ship something that runs before perfecting.
- You are working on an isolated git branch. Commit your progress frequently with <run>git add -A && git commit -m "..."</run>. Commits are checkpoints, not finalizations.
- Always read a file before editing it.
- Use <edit_file> for surgical changes. Use <write_file> for new files or full rewrites.
- After making changes, RUN something to verify (build, tests, the program itself). Errors are signals, not failures — fix them.
- If you create a new sub-project, create a folder, scaffold the structure, write the code, then build it.
- You can use multiple tools in one response — chain them.
- Do NOT use <done> until you have a working artifact and have committed it.
- Follow the project's existing code style and conventions.

## Example response

Here is an example of a correct response when asked to add a README:

I'll start by looking at the project structure.

<ls>.</ls>

After seeing the file listing, a correct follow-up would be:

Now I'll create the README.

<write_file path="README.md">
# My Project

Description here.
</write_file>

<done>Created README.md with project description.</done>

"#;

/// The system prompt of the loop.
pub open spec fn system_prompt(name: Seq<char>, dir: Seq<char>, bio: Seq<char>) -> Seq<char> {
    "You are "@ + name + ", a senior autonomous coding engineer working on the project at `"@ + dir
        + "`"@ + CODING_RULES@ + bio
}

/// The system prompt of the loop.
pub fn coding_system_prompt(character: &Character, project_dir: &str) -> (r: String)
    ensures
        r@ == system_prompt(
            character.name@,
            project_dir@,
            lines::joined(text::texts(character.bio@), " "@),
        ),
{
    let mut out = error::prefixed("You are ", character.name.as_str());
    out.append(", a senior autonomous coding engineer working on the project at `");
    out.append(project_dir);
    out.append("`");
    out.append(CODING_RULES);
    out.append(character.bio_text().as_str());
    out
}

/// The branch and the directory in which a task is worked on.
#[derive(Clone, Debug)]
pub struct Workspace {
    pub project_dir: String,
    pub branch: String,
    pub original_branch: String,
    pub task_slug: String,
}

/// The first `n` parts, or all where there are fewer.
pub open spec fn at_most(parts: Seq<Seq<char>>, n: nat) -> Seq<Seq<char>> {
    if parts.len() > n {
        parts.take(n as int)
    } else {
        parts
    }
}

/// `s` with every ASCII letter or digit in lower case, and a space for anything
/// else.
pub open spec fn letters_only(s: Seq<char>) -> Seq<char> {
    s.map_values(
        |c: char|
            if lines::alnum(c) {
                lines::lower(c)
            } else {
                ' '
            },
    )
}

/// The first four runs of ASCII letters and digits, in lower case, with hyphens
/// between them.
pub open spec fn slug(s: Seq<char>) -> Seq<char> {
    lines::joined(at_most(lines::words_of(letters_only(s)), 4), "-"@)
}

/// The first four runs of ASCII letters and digits, in lower case, with hyphens
/// between them.
pub fn slugify(s: &str) -> (r: String)
    ensures
        r@ == slug(s@),
{
    let cs = text::chars_of(s);
    let mut only = String::new();
    let mut i: usize = 0;
    while i < cs.len()
        invariant
            i <= cs@.len(),
            cs@ == s@,
            only@ == letters_only(s@.take(i as int)),
        decreases cs.len() - i,
    {
        if lines::is_alnum(cs[i]) {
            only.push(lines::to_lower(cs[i]));
        } else {
            only.push(' ');
        }
        i = i + 1;
        assert(only@ =~= letters_only(s@.take(i as int)));
    }
    assert(s@.take(cs@.len() as int) =~= s@);
    let mut parts = lines::words(only.as_str());
    let ghost all = parts@;
    if parts.len() > 4 {
        parts.truncate(4);
        assert(text::texts(parts@) =~= text::texts(all).take(4));
    }
    assert(text::texts(parts@) == at_most(text::texts(all), 4));
    lines::join(&parts, "-")
}

/// Small letters and digits with hyphens between them stay, with spaces in place
/// of the hyphens.
proof fn lemma_letters_of_joined(ws: Seq<Seq<char>>)
    requires
        forall|i: int, j: int|
            0 <= i < ws.len() && 0 <= j < ws[i].len() ==> lines::alnum(#[trigger] ws[i][j])
                && lines::lower(ws[i][j]) == ws[i][j],
    ensures
        letters_only(lines::joined(ws, "-"@)) == lines::joined(ws, seq![' ']),
    decreases ws.len(),
{
    reveal_strlit("-");
    if ws.len() > 0 {
        let last = ws.last();
        assert forall|j: int| 0 <= j < last.len() implies lines::alnum(#[trigger] last[j])
            && lines::lower(last[j]) == last[j] by {
            assert(ws[ws.len() - 1][j] == last[j]);
        }
        assert(letters_only(last) =~= last);
        if ws.len() > 1 {
            let front = ws.drop_last();
            assert forall|i: int, j: int| 0 <= i < front.len() && 0 <= j < front[i].len() implies
                lines::alnum(#[trigger] front[i][j]) && lines::lower(front[i][j]) == front[i][j] by {
                assert(ws[i][j] == front[i][j]);
            }
            lemma_letters_of_joined(front);
            let x = lines::joined(front, "-"@);
            assert(letters_only(x + "-"@ + last) =~= letters_only(x) + seq![' '] + letters_only(
                last,
            ));
        }
    } else {
        assert(letters_only(lines::joined(ws, "-"@)) =~= lines::joined(ws, seq![' ']));
    }
}

/// A slug is its own slug.
pub proof fn slugs_stay(s: Seq<char>)
    ensures
        slug(slug(s)) == slug(s),
{
    let all = lines::words_of(letters_only(s));
    let ws = at_most(all, 4);
    assert forall|i: int| 0 <= i < ws.len() implies (#[trigger] ws[i]).len() > 0 by {
        lines::lemma_word(letters_only(s), i);
        assert(ws[i] == all[i]);
    }
    assert forall|i: int, j: int| 0 <= i < ws.len() && 0 <= j < ws[i].len() implies lines::alnum(
        #[trigger] ws[i][j],
    ) && lines::lower(ws[i][j]) == ws[i][j] && !text::white(ws[i][j]) by {
        lines::lemma_word(letters_only(s), i);
        assert(ws[i] == all[i]);
        let c = all[i][j];
        assert(letters_only(s).contains(c));
        let q = choose|q: int| 0 <= q < s.len() && letters_only(s)[q] == c;
        assert(lines::alnum(s[q])) by {
            assert(!text::white(c));
        }
    }
    lemma_letters_of_joined(ws);
    lines::lemma_words_joined(ws);
}

/// Whether the project is a git repository, by what the command for its git
/// directory printed.
pub fn is_git_repository(printed: &str) -> (r: bool)
    ensures
        r == text::has(printed@, ".git"@),
{
    text::contains(printed, ".git")
}

/// The name of a task's branch: the task's slug and the time of day.
pub open spec fn branch_name(task_slug: Seq<char>, at: Timestamp) -> Seq<char> {
    "botdick/"@ + task_slug + "-"@ + outside::formatted_time(
        at.secs as int,
        at.nanos as int,
        "%H%M%S"@,
    )
}

/// The name of a task's branch.
pub fn branch_for(task_slug: &str, at: &Timestamp) -> (r: String)
    requires
        at.valid(),
    ensures
        r@ == branch_name(task_slug@, *at),
{
    let stamp = outside::chrono_format(at.secs, at.nanos, "%H%M%S");
    stamped_branch(task_slug, stamp.as_str())
}

/// The name of a branch with this slug and this stamp.
pub fn stamped_branch(task_slug: &str, stamp: &str) -> (r: String)
    ensures
        r@ == "botdick/"@ + task_slug@ + "-"@ + stamp@,
{
    let mut out = error::prefixed("botdick/", task_slug);
    out.append("-");
    out.append(stamp);
    out
}

/// The command that creates a branch.
pub fn checkout_command(branch: &str) -> (r: String)
    ensures
        r@ == "git checkout -b "@ + branch@ + " 2>&1"@,
{
    let mut out = error::prefixed("git checkout -b ", branch);
    out.append(" 2>&1");
    out
}

/// What the creation of a branch printed says that there is one: it says so, or
/// it speaks of no error.
pub open spec fn branch_created(printed: Seq<char>) -> bool {
    text::has(printed, "Switched to a new branch"@) || !text::has(printed, "error"@)
}

/// This is the workspace of a task, from what the commands printed that show the current
/// branch and create the new one; none where the new one was not created.
pub open spec fn is_set_up(
    r: Option<Workspace>,
    project_dir: Seq<char>,
    task: Seq<char>,
    branch: Seq<char>,
    current_printed: Seq<char>,
    checkout_printed: Seq<char>,
) -> bool {
    &&& r is Some <==> branch_created(checkout_printed)
    &&& r is Some ==> {
        &&& r.unwrap().project_dir@ == project_dir
        &&& r.unwrap().branch@ == branch
        &&& r.unwrap().original_branch@ == text::trimmed(current_printed)
        &&& r.unwrap().task_slug@ == slug(task)
    }
}

/// A task is worked on in the project, on the branch that was made for it, wherever that
/// was made, and what is gone back to is the branch that was there before. Where the branch
/// could not be made there is no workspace.
pub proof fn tasks_have_their_branch(
    r: Option<Workspace>,
    project_dir: Seq<char>,
    task: Seq<char>,
    branch: Seq<char>,
    current_printed: Seq<char>,
    checkout_printed: Seq<char>,
)
    requires
        is_set_up(r, project_dir, task, branch, current_printed, checkout_printed),
    ensures
        text::has(checkout_printed, "Switched to a new branch"@) ==> r is Some,
        text::has(checkout_printed, "error"@) && !text::has(
            checkout_printed,
            "Switched to a new branch"@,
        ) ==> r is None,
        r is Some ==> r.unwrap().branch@ == branch && r.unwrap().project_dir@ == project_dir
            && r.unwrap().original_branch@ == text::trimmed(current_printed)
            && r.unwrap().task_slug@ == slug(task),
{
}

/// The workspace of a task, from what the commands printed that show the current
/// branch and create the new one; none where the new one was not created.
pub fn create_workspace(
    project_dir: &str,
    task: &str,
    branch: &str,
    current_printed: &str,
    checkout_printed: &str,
) -> (r: Option<Workspace>)
    ensures
        is_set_up(r, project_dir@, task@, branch@, current_printed@, checkout_printed@),
{
    if text::contains(checkout_printed, "Switched to a new branch") || !text::contains(
        checkout_printed,
        "error",
    ) {
        Some(
            Workspace {
                project_dir: project_dir.to_owned(),
                branch: branch.to_owned(),
                original_branch: text::trim(current_printed),
                task_slug: slugify(task),
            },
        )
    } else {
        None
    }
}

// ---------------------------------------------------------------------------
// Changed files
// ---------------------------------------------------------------------------

/// The views of pairs of strings.
pub open spec fn pair_views(v: Seq<(String, String)>) -> Seq<(Seq<char>, Seq<char>)> {
    v.map_values(|p: (String, String)| (p.0@, p.1@))
}

/// What a two-letter status says was done to a file.
pub open spec fn action_of(status: Seq<char>) -> Seq<char> {
    if status == "M"@ || status == "MM"@ {
        "modified"@
    } else if status == "A"@ || status == "??"@ {
        "added"@
    } else if status == "D"@ {
        "deleted"@
    } else if status == "R"@ {
        "renamed"@
    } else {
        "changed"@
    }
}

/// The line of a status listing is long enough to name a file.
pub open spec fn names_file(line: Seq<char>) -> bool {
    bytes::byte_len(line) >= 4
}

/// The status, without white space, and the path that a line of a status listing
/// holds.
pub open spec fn status_entry(line: Seq<char>) -> (Seq<char>, Seq<char>) {
    (text::trimmed(bytes::byte_prefix(line, 2)), bytes::byte_suffix(line, 3))
}

/// The statuses and paths of a status listing.
pub open spec fn status_entries(ls: Seq<Seq<char>>) -> Seq<(Seq<char>, Seq<char>)> {
    ls.filter(|l: Seq<char>| names_file(l)).map_values(|l: Seq<char>| status_entry(l))
}

/// Each line of a status listing that names a file can be cut behind its status.
pub open spec fn listing_cuts(ls: Seq<Seq<char>>) -> bool {
    forall|k: int|
        0 <= k < ls.len() && names_file(#[trigger] ls[k]) ==> bytes::cuts_at(ls[k], 2)
            && bytes::cuts_at(ls[k], 3)
}

/// Whether each line that names a file can be cut behind its status.
pub fn can_read_listing(printed: &str) -> (r: bool)
    ensures
        r == listing_cuts(lines::lines_of(printed@)),
{
    let ls = lines::lines(printed);
    let ghost all = lines::lines_of(printed@);
    let mut i: usize = 0;
    while i < ls.len()
        invariant
            i <= ls@.len() == all.len(),
            all == text::texts(ls@),
            all == lines::lines_of(printed@),
            forall|k: int|
                0 <= k < i && names_file(#[trigger] all[k]) ==> bytes::cuts_at(all[k], 2)
                    && bytes::cuts_at(all[k], 3),
        decreases ls.len() - i,
    {
        let line = ls[i].as_str();
        assert(all[i as int] == line@);
        if bytes::len(line) >= 4 && !(bytes::cuts(line, 2) && bytes::cuts(line, 3)) {
            assert(names_file(all[i as int]));
            assert(!listing_cuts(all));
            return false;
        }
        i = i + 1;
    }
    assert(all.len() == ls@.len());
    true
}

/// The statuses and paths of a status listing.
pub fn read_listing(printed: &str) -> (r: Vec<(String, String)>)
    requires
        listing_cuts(lines::lines_of(printed@)),
    ensures
        pair_views(r@) == status_entries(lines::lines_of(printed@)),
{
    let ls = lines::lines(printed);
    let ghost all = lines::lines_of(printed@);
    let ghost p = |l: Seq<char>| names_file(l);
    let ghost f = |l: Seq<char>| status_entry(l);
    let mut out: Vec<(String, String)> = Vec::new();
    let mut i: usize = 0;
    proof {
        reveal(Seq::filter);
        assert(all.take(0).filter(p) =~= Seq::<Seq<char>>::empty());
        assert(pair_views(out@) =~= all.take(0).filter(p).map_values(f));
    }
    while i < ls.len()
        invariant
            i <= ls@.len() == all.len(),
            all == text::texts(ls@),
            listing_cuts(all),
            p == (|l: Seq<char>| names_file(l)),
            f == (|l: Seq<char>| status_entry(l)),
            pair_views(out@) == all.take(i as int).filter(p).map_values(f),
        decreases ls.len() - i,
    {
        let line = ls[i].as_str();
        proof {
            reveal(Seq::filter);
            assert(all.take(i + 1).drop_last() =~= all.take(i as int));
            assert(all[i as int] == line@);
        }
        if bytes::len(line) >= 4 {
            assert(names_file(all[i as int]));
            let (status, _path) = bytes::cut(line, 2);
            let (_status, path) = bytes::cut(line, 3);
            let entry = (text::trim(status.as_str()), path);
            let ghost before = out@;
            out.push(entry);
            proof {
                assert(pair_views(out@) =~= pair_views(before).push((entry.0@, entry.1@)));
                let kept = all.take(i as int).filter(p);
                assert(kept.push(line@).map_values(f) =~= kept.map_values(f).push(f(line@)));
            }
        }
        i = i + 1;
    }
    assert(all.take(all.len() as int) =~= all);
    out
}

/// The paths of a status listing, and what was done to each.
pub open spec fn changes_in(printed: Seq<char>) -> Seq<(Seq<char>, Seq<char>)> {
    status_entries(lines::lines_of(printed)).map_values(
        |e: (Seq<char>, Seq<char>)| (e.1, action_of(e.0)),
    )
}

/// What a two-letter status says was done to a file.
fn action_for(status: &str) -> (r: &'static str)
    ensures
        r@ == action_of(status@),
{
    if text::same(status, "M") || text::same(status, "MM") {
        "modified"
    } else if text::same(status, "A") || text::same(status, "??") {
        "added"
    } else if text::same(status, "D") {
        "deleted"
    } else if text::same(status, "R") {
        "renamed"
    } else {
        "changed"
    }
}

/// The paths of a status listing, and what was done to each.
pub fn changed_files(printed: &str) -> (r: Vec<(String, String)>)
    requires
        listing_cuts(lines::lines_of(printed@)),
    ensures
        pair_views(r@) == changes_in(printed@),
{
    let entries = read_listing(printed);
    let ghost all = pair_views(entries@);
    let ghost f = |e: (Seq<char>, Seq<char>)| (e.1, action_of(e.0));
    let mut out: Vec<(String, String)> = Vec::new();
    let mut i: usize = 0;
    assert(pair_views(out@) =~= all.take(0).map_values(f));
    while i < entries.len()
        invariant
            i <= entries@.len() == all.len(),
            all == pair_views(entries@),
            f == (|e: (Seq<char>, Seq<char>)| (e.1, action_of(e.0))),
            pair_views(out@) == all.take(i as int).map_values(f),
        decreases entries.len() - i,
    {
        let change = (entries[i].1.clone(), action_for(entries[i].0.as_str()).to_owned());
        let ghost before = out@;
        out.push(change);
        proof {
            assert(pair_views(out@) =~= pair_views(before).push((change.0@, change.1@)));
            assert(all[i as int] == (entries@[i as int].0@, entries@[i as int].1@));
            assert(all.take(i + 1).map_values(f) =~= all.take(i as int).map_values(f).push(
                f(all[i as int]),
            ));
        }
        i = i + 1;
    }
    assert(all.take(all.len() as int) =~= all);
    out
}

// ---------------------------------------------------------------------------
// The loop
// ---------------------------------------------------------------------------

/// The event with which a task begins.
pub fn starting_event(task: &str) -> (r: CodingEvent)
    ensures
        r@ == EventView::Status("starting: "@ + task@),
{
    CodingEvent::Status(error::prefixed("starting: ", task))
}

/// The event that shows the workspace of a task.
pub fn workspace_event(ws: &Workspace) -> (r: CodingEvent)
    ensures
        r@ == (EventView::Workspace { branch: ws.branch@, dir: ws.project_dir@ }),
{
    CodingEvent::Workspace { branch: ws.branch.clone(), dir: ws.project_dir.clone() }
}

/// What the model is told of the workspace.
pub open spec fn workspace_note(ws: Option<Workspace>) -> Seq<char> {
    match ws {
        Some(w) => "Working on isolated branch `"@ + w.branch@ + "` (from `"@ + w.original_branch@
            + "`)."@,
        None => "Not a git repository — working directly in the project dir."@,
    }
}

/// The first message to the model.
pub open spec fn opening(note: Seq<char>, context: Seq<char>, task: Seq<char>) -> Seq<char> {
    "## Workspace:\n"@ + note + "\n\n## Project context:\n"@ + context + "\n\n## Task:\n"@ + task
}

/// What stands between two messages of a prompt.
pub open spec fn rule() -> Seq<char> {
    "\n\n---\n\n"@
}

/// The message that follows an answer without tools.
pub open spec fn nudge(answer: Seq<char>) -> Seq<char> {
    "## Assistant:\n"@ + answer
        + "\n\n## System:\nYou did not use any tools. You MUST use tool tags to take action. Do not ask questions — make your best attempt. Start with <ls>.</ls> or <read_file> to explore, then build what was asked for."@
}

/// The head of the message that reports an answer's tools.
pub open spec fn log_head(iteration: nat, answer: Seq<char>) -> Seq<char> {
    "## Assistant (iteration "@ + number::decimal(iteration) + "):\n"@ + answer
        + "\n\n## Tool results:\n"@
}

/// The report of one tool.
pub open spec fn log_entry(tool: ToolView, result: Seq<char>) -> Seq<char> {
    "### "@ + tools::shown(tool) + "\n```\n"@ + result + "\n```\n\n"@
}

/// The result of a loop that came to its last round.
pub const LIMIT_REACHED: &'static str = "reached maximum iterations — check project state";

/// What stands for the messages that were left out.
pub const TRIMMED_MARK: &'static str = "[earlier iterations trimmed]";

/// The most bytes of messages that are kept whole.
pub const CONTEXT_LIMIT: u128 = 50_000;

/// The length of texts together, in bytes.
pub open spec fn total_bytes(messages: Seq<Seq<char>>) -> nat
    decreases messages.len(),
{
    if messages.len() == 0 {
        0
    } else {
        total_bytes(messages.drop_last()) + bytes::byte_len(messages.last())
    }
}

/// The messages that are kept: all of them, or, where they are long and more
/// than three, the first, a mark and the last three.
pub open spec fn kept(messages: Seq<Seq<char>>) -> Seq<Seq<char>> {
    if total_bytes(messages) > CONTEXT_LIMIT && messages.len() > 3 {
        seq![messages[0], TRIMMED_MARK@] + messages.skip(messages.len() - 3)
    } else {
        messages
    }
}

/// What the loop waits for.
#[derive(Clone, Copy, Debug, PartialEq, Eq, Structural)]
pub enum LoopPhase {
    /// The first round.
    Ready,
    /// The model's answer.
    Asking,
    /// The result of a tool.
    Using,
    /// The list of changed files.
    Listing,
    /// Nothing: the loop has ended.
    Ended,
}

/// The state of the loop.
pub struct CodingLoop {
    pub phase: LoopPhase,
    pub system: String,
    pub messages: Vec<String>,
    pub no_tool_streak: u32,
    /// The rounds that are over.
    pub iteration: usize,
    pub max_iterations: usize,
    pub changes: Vec<(String, String)>,
    /// The tools of the last answer that are still to be used; while the loop
    /// waits for a tool, the first is that one.
    pub tools: Vec<Tool>,
    /// The report of the tools of the last answer.
    pub log: String,
}

/// The state of the loop over the texts of its strings.
pub struct LoopView {
    pub phase: LoopPhase,
    pub system: Seq<char>,
    pub messages: Seq<Seq<char>>,
    pub no_tool_streak: nat,
    pub iteration: nat,
    pub max_iterations: nat,
    pub changes: Seq<(Seq<char>, Seq<char>)>,
    pub tools: Seq<ToolView>,
    pub log: Seq<char>,
}

impl View for CodingLoop {
    type V = LoopView;

    open spec fn view(&self) -> LoopView {
        LoopView {
            phase: self.phase,
            system: self.system@,
            messages: text::texts(self.messages@),
            no_tool_streak: self.no_tool_streak as nat,
            iteration: self.iteration as nat,
            max_iterations: self.max_iterations as nat,
            changes: pair_views(self.changes@),
            tools: tools::tool_views(self.tools@),
            log: self.log@,
        }
    }
}

/// What the loop is told.
pub enum LoopEvent {
    Answer(String),
    Result(String),
    Changes(Vec<(String, String)>),
}

/// What the loop does next.
pub enum LoopAction {
    /// Ask the model.
    Ask(GenerateTextParams),
    /// Use a tool.
    Use(ToolRequest),
    /// List the changed files.
    ListChanges,
    /// End with a result.
    Finish(String),
}

/// What the loop does next, over the texts.
pub enum LoopMove {
    Ask { system: Seq<char>, prompt: Seq<char> },
    Use(ToolView),
    ListChanges,
    Finish(Seq<char>),
}

impl LoopAction {
    /// The action is this one.
    pub open spec fn makes(self, m: LoopMove) -> bool {
        match m {
            LoopMove::Ask { system, prompt } => self is Ask && self->Ask_0.asks(
                ModelType::TextLarge,
                system,
                prompt,
                8192,
                number::POINT_2,
            ),
            LoopMove::Use(tool) => self is Use && tools::requests(tool, self->Use_0),
            LoopMove::ListChanges => self is ListChanges,
            LoopMove::Finish(result) => self is Finish && self->Finish_0@ == result,
        }
    }
}

/// A step of the loop: the state after it, what is told to those who follow the
/// loop, and what is done next.
pub struct LoopStepView {
    pub state: LoopView,
    pub events: Seq<EventView>,
    pub action: LoopMove,
}

impl LoopView {
    /// The state is one that the loop can be in.
    pub open spec fn wf(self) -> bool {
        &&& self.messages.len() >= 1
        &&& self.phase != LoopPhase::Ended ==> self.no_tool_streak < 3
        &&& self.phase != LoopPhase::Ended && self.phase != LoopPhase::Ready ==> self.iteration
            < self.max_iterations
        &&& self.phase == LoopPhase::Using ==> self.tools.len() > 0
    }

    /// The loop before its first round.
    pub open spec fn fresh(
        system: Seq<char>,
        workspace: Option<Workspace>,
        context: Seq<char>,
        task: Seq<char>,
        max_iterations: nat,
    ) -> Self {
        LoopView {
            phase: LoopPhase::Ready,
            system,
            messages: seq![opening(workspace_note(workspace), context, task)],
            no_tool_streak: 0,
            iteration: 0,
            max_iterations,
            changes: Seq::empty(),
            tools: Seq::empty(),
            log: Seq::empty(),
        }
    }

    /// The end of the loop with this result.
    pub open spec fn end(self, events: Seq<EventView>, result: Seq<char>) -> LoopStepView {
        LoopStepView {
            state: LoopView { phase: LoopPhase::Ended, ..self },
            events: events.push(EventView::Done(result)),
            action: LoopMove::Finish(result),
        }
    }

    /// The next round, unless the last is over.
    pub open spec fn round(self, events: Seq<EventView>) -> LoopStepView {
        if self.iteration < self.max_iterations {
            LoopStepView {
                state: LoopView { phase: LoopPhase::Asking, ..self },
                events: events.push(EventView::Iteration(self.iteration + 1)),
                action: LoopMove::Ask {
                    system: self.system,
                    prompt: lines::joined(self.messages, rule()),
                },
            }
        } else {
            self.end(events, LIMIT_REACHED@)
        }
    }

    /// The next of the answer's tools: the one that ends the task ends the loop,
    /// and behind the last the changed files are listed.
    pub open spec fn use_next(self, events: Seq<EventView>) -> LoopStepView {
        if self.tools.len() == 0 {
            LoopStepView {
                state: LoopView { phase: LoopPhase::Listing, ..self },
                events,
                action: LoopMove::ListChanges,
            }
        } else {
            match self.tools[0] {
                ToolView::Done { summary } => self.end(events, summary),
                t => LoopStepView {
                    state: LoopView { phase: LoopPhase::Using, ..self },
                    events: events.push(EventView::Tool(tools::shown(t))),
                    action: LoopMove::Use(t),
                },
            }
        }
    }

    /// The step on the model's answer: its tools are used one by one; an answer
    /// without tools is met with a reminder, and the third in a row ends the
    /// loop.
    pub open spec fn on_answer(self, answer: Seq<char>) -> LoopStepView {
        let events = seq![EventView::Thinking(answer)];
        let found = tools::tools_in(answer);
        if found.len() == 0 {
            let next = LoopView { no_tool_streak: self.no_tool_streak + 1, ..self };
            if next.no_tool_streak >= 3 {
                next.end(events, answer)
            } else {
                LoopView {
                    messages: self.messages.push(nudge(answer)),
                    iteration: self.iteration + 1,
                    ..next
                }.round(events)
            }
        } else {
            LoopView {
                no_tool_streak: 0,
                tools: found,
                log: log_head(self.iteration + 1, answer),
                ..self
            }.use_next(events)
        }
    }

    /// The step on the result of a tool.
    pub open spec fn on_result(self, result: Seq<char>) -> LoopStepView {
        LoopView {
            log: self.log + log_entry(self.tools[0], result),
            tools: self.tools.drop_first(),
            ..self
        }.use_next(seq![EventView::Output(tools::truncated(result, 2000))])
    }

    /// The step on the list of changed files: what it newly lists is told, and
    /// the next round begins.
    pub open spec fn on_changes(self, now: Seq<(Seq<char>, Seq<char>)>) -> LoopStepView {
        LoopView {
            messages: kept(self.messages.push(self.log)),
            changes: now,
            iteration: self.iteration + 1,
            ..self
        }.round(new_changes(now, self.changes))
    }

    /// The loop waits for this event.
    pub open spec fn awaits(self, event: LoopEvent) -> bool {
        match event {
            LoopEvent::Answer(_) => self.phase == LoopPhase::Asking,
            LoopEvent::Result(r) => self.phase == LoopPhase::Using && (bytes::byte_len(r@) > 2000
                ==> bytes::cuts_at(r@, 2000)),
            LoopEvent::Changes(_) => self.phase == LoopPhase::Listing,
        }
    }

    /// The step on an event.
    pub open spec fn on(self, event: LoopEvent) -> LoopStepView {
        match event {
            LoopEvent::Answer(a) => self.on_answer(a@),
            LoopEvent::Result(r) => self.on_result(r@),
            LoopEvent::Changes(c) => self.on_changes(pair_views(c@)),
        }
    }
}

/// The events for what is listed now and was not before.
pub open spec fn new_changes(
    now: Seq<(Seq<char>, Seq<char>)>,
    before: Seq<(Seq<char>, Seq<char>)>,
) -> Seq<EventView> {
    now.filter(|c: (Seq<char>, Seq<char>)| !before.contains(c)).map_values(
        |c: (Seq<char>, Seq<char>)| EventView::FileChanged { path: c.0, action: c.1 },
    )
}

/// Whether a change is among those listed.
fn lists(changes: &Vec<(String, String)>, path: &str, action: &str) -> (r: bool)
    ensures
        r == pair_views(changes@).contains((path@, action@)),
{
    let ghost all = pair_views(changes@);
    let mut i: usize = 0;
    while i < changes.len()
        invariant
            i <= changes@.len() == all.len(),
            all == pair_views(changes@),
            forall|k: int| 0 <= k < i ==> #[trigger] all[k] != (path@, action@),
        decreases changes.len() - i,
    {
        assert(all[i as int] == (changes@[i as int].0@, changes@[i as int].1@));
        if text::same(changes[i].0.as_str(), path) && text::same(changes[i].1.as_str(), action) {
            assert(all.contains((path@, action@)));
            return true;
        }
        i = i + 1;
    }
    false
}

/// The events for what is listed now and was not before.
pub fn file_changes(
    now: &Vec<(String, String)>,
    before: &Vec<(String, String)>,
) -> (r: Vec<CodingEvent>)
    ensures
        event_views(r@) == new_changes(pair_views(now@), pair_views(before@)),
{
    let ghost all = pair_views(now@);
    let ghost b = pair_views(before@);
    let ghost p = |c: (Seq<char>, Seq<char>)| !b.contains(c);
    let ghost f = |c: (Seq<char>, Seq<char>)| EventView::FileChanged { path: c.0, action: c.1 };
    let mut out: Vec<CodingEvent> = Vec::new();
    let mut i: usize = 0;
    proof {
        reveal(Seq::filter);
        assert(all.take(0).filter(p) =~= Seq::<(Seq<char>, Seq<char>)>::empty());
        assert(event_views(out@) =~= all.take(0).filter(p).map_values(f));
    }
    while i < now.len()
        invariant
            i <= now@.len() == all.len(),
            all == pair_views(now@),
            b == pair_views(before@),
            p == (|c: (Seq<char>, Seq<char>)| !b.contains(c)),
            f == (|c: (Seq<char>, Seq<char>)| EventView::FileChanged { path: c.0, action: c.1 }),
            event_views(out@) == all.take(i as int).filter(p).map_values(f),
        decreases now.len() - i,
    {
        proof {
            reveal(Seq::filter);
            assert(all.take(i + 1).drop_last() =~= all.take(i as int));
            assert(all[i as int] == (now@[i as int].0@, now@[i as int].1@));
        }
        let ghost shown = all.take(i as int).filter(p);
        if !lists(before, now[i].0.as_str(), now[i].1.as_str()) {
            emit(
                &mut out,
                CodingEvent::FileChanged { path: now[i].0.clone(), action: now[i].1.clone() },
            );
            assert(shown.push(all[i as int]).map_values(f) =~= shown.map_values(f).push(
                f(all[i as int]),
            ));
        }
        i = i + 1;
    }
    assert(all.take(all.len() as int) =~= all);
    out
}

/// The length of texts together, in bytes.
fn bytes_in_all(messages: &Vec<String>) -> (r: u128)
    ensures
        r == total_bytes(text::texts(messages@)),
{
    let ghost all = text::texts(messages@);
    let mut total: u128 = 0;
    let mut i: usize = 0;
    while i < messages.len()
        invariant
            i <= messages.len() == all.len(),
            all == text::texts(messages@),
            total == total_bytes(all.take(i as int)),
            total <= i * 0xFFFF_FFFF_FFFF_FFFF,
        decreases messages.len() - i,
    {
        assert(all.take(i + 1).drop_last() =~= all.take(i as int));
        assert(all[i as int] == messages@[i as int]@);
        total = total + bytes::len(messages[i].as_str()) as u128;
        i = i + 1;
    }
    assert(all.take(all.len() as int) =~= all);
    total
}

/// The messages that are kept.
pub fn trim_messages(messages: Vec<String>) -> (r: Vec<String>)
    ensures
        text::texts(r@) == kept(text::texts(messages@)),
{
    let ghost all = text::texts(messages@);
    if bytes_in_all(&messages) > CONTEXT_LIMIT && messages.len() > 3 {
        let n = messages.len();
        let mut out: Vec<String> = Vec::new();
        out.push(messages[0].clone());
        out.push(TRIMMED_MARK.to_owned());
        out.push(messages[n - 3].clone());
        out.push(messages[n - 2].clone());
        out.push(messages[n - 1].clone());
        assert(text::texts(out@) =~= kept(all));
        out
    } else {
        messages
    }
}

impl CodingLoop {
    /// The state is one that the loop can be in.
    pub open spec fn wf(&self) -> bool {
        self@.wf()
    }

    /// The loop before its first round.
    pub fn new(
        system: String,
        workspace: &Option<Workspace>,
        context: &str,
        task: &str,
        max_iterations: usize,
    ) -> (r: Self)
        ensures
            r@ == LoopView::fresh(system@, *workspace, context@, task@, max_iterations as nat),
            r.wf(),
    {
        let mut first = "## Workspace:\n".to_owned();
        match workspace {
            Some(w) => {
                let mut note = "Working on isolated branch `".to_owned();
                note.append(w.branch.as_str());
                note.append("` (from `");
                note.append(w.original_branch.as_str());
                note.append("`).");
                first.append(note.as_str());
            },
            None => {
                first.append("Not a git repository — working directly in the project dir.");
            },
        }
        first.append("\n\n## Project context:\n");
        first.append(context);
        first.append("\n\n## Task:\n");
        first.append(task);
        let ghost head = first@;
        let mut messages: Vec<String> = Vec::new();
        messages.push(first);
        let r = CodingLoop {
            phase: LoopPhase::Ready,
            system,
            messages,
            no_tool_streak: 0,
            iteration: 0,
            max_iterations,
            changes: Vec::new(),
            tools: Vec::new(),
            log: String::new(),
        };
        assert(r@.messages =~= seq![head]);
        assert(r@.changes =~= Seq::empty());
        assert(r@.tools =~= Seq::empty());
        assert(r@.log =~= Seq::empty());
        r
    }

    /// Ends the loop with a result.
    fn end(&mut self, events: &mut Vec<CodingEvent>, result: String) -> (r: LoopAction)
        ensures
            ({
                let s = old(self)@.end(event_views(old(events)@), result@);
                final(self)@ == s.state && event_views(final(events)@) == s.events && r.makes(
                    s.action,
                )
            }),
    {
        self.phase = LoopPhase::Ended;
        emit(events, CodingEvent::Done(result.clone()));
        LoopAction::Finish(result)
    }

    /// Begins the next round, unless the last is over.
    fn round(&mut self, events: &mut Vec<CodingEvent>) -> (r: LoopAction)
        ensures
            ({
                let s = old(self)@.round(event_views(old(events)@));
                final(self)@ == s.state && event_views(final(events)@) == s.events && r.makes(
                    s.action,
                )
            }),
    {
        if self.iteration < self.max_iterations {
            self.phase = LoopPhase::Asking;
            emit(events, CodingEvent::Iteration(self.iteration + 1));
            let prompt = lines::join(&self.messages, "\n\n---\n\n");
            LoopAction::Ask(
                GenerateTextParams::new(
                    ModelType::TextLarge,
                    self.system.clone(),
                    prompt,
                    8192,
                    number::POINT_2,
                ),
            )
        } else {
            self.end(events, LIMIT_REACHED.to_owned())
        }
    }

    /// Goes on to the next of the answer's tools.
    fn use_next(&mut self, events: &mut Vec<CodingEvent>) -> (r: LoopAction)
        ensures
            ({
                let s = old(self)@.use_next(event_views(old(events)@));
                final(self)@ == s.state && event_views(final(events)@) == s.events && r.makes(
                    s.action,
                )
            }),
    {
        if self.tools.len() == 0 {
            self.phase = LoopPhase::Listing;
            return LoopAction::ListChanges;
        }
        assert(self@.tools[0] == self.tools@[0]@);
        let done = match &self.tools[0] {
            Tool::Done { summary } => Some(summary.clone()),
            _ => None,
        };
        match done {
            Some(summary) => self.end(events, summary),
            None => {
                self.phase = LoopPhase::Using;
                emit(events, CodingEvent::Tool(self.tools[0].display()));
                LoopAction::Use(tools::execute_tool(&self.tools[0]))
            },
        }
    }

    /// Begins the first round.
    pub fn begin(&mut self) -> (r: (Vec<CodingEvent>, LoopAction))
        requires
            old(self).wf(),
            old(self)@.phase == LoopPhase::Ready,
        ensures
            ({
                let s = old(self)@.round(Seq::empty());
                final(self)@ == s.state && event_views(r.0@) == s.events && r.1.makes(s.action)
            }),
            final(self).wf(),
    {
        let mut events: Vec<CodingEvent> = Vec::new();
        assert(event_views(events@) =~= Seq::empty());
        let action = self.round(&mut events);
        (events, action)
    }

    /// Takes a step.
    pub fn step(&mut self, event: LoopEvent) -> (r: (Vec<CodingEvent>, LoopAction))
        requires
            old(self).wf(),
            old(self)@.awaits(event),
        ensures
            ({
                let s = old(self)@.on(event);
                final(self)@ == s.state && event_views(r.0@) == s.events && r.1.makes(s.action)
            }),
            final(self).wf(),
    {
        let ghost start = self@;
        let mut events: Vec<CodingEvent> = Vec::new();
        let action = match event {
            LoopEvent::Answer(answer) => {
                emit(&mut events, CodingEvent::Thinking(answer.clone()));
                assert(event_views(events@) =~= seq![EventView::Thinking(answer@)]);
                let found = tools::parse_tools(answer.as_str());
                if found.len() == 0 {
                    self.no_tool_streak = self.no_tool_streak + 1;
                    if self.no_tool_streak >= 3 {
                        self.end(&mut events, answer)
                    } else {
                        let mut m = error::prefixed("## Assistant:\n", answer.as_str());
                        m.append(
                            "\n\n## System:\nYou did not use any tools. You MUST use tool tags to take action. Do not ask questions — make your best attempt. Start with <ls>.</ls> or <read_file> to explore, then build what was asked for.",
                        );
                        self.messages.push(m);
                        assert(self@.messages =~= start.messages.push(m@));
                        self.iteration = self.iteration + 1;
                        self.round(&mut events)
                    }
                } else {
                    self.no_tool_streak = 0;
                    let mut log = "## Assistant (iteration ".to_owned();
                    log.append(number::decimal_text(self.iteration as u64 + 1).as_str());
                    log.append("):\n");
                    log.append(answer.as_str());
                    log.append("\n\n## Tool results:\n");
                    self.log = log;
                    self.tools = found;
                    self.use_next(&mut events)
                }
            },
            LoopEvent::Result(result) => {
                assert(start.tools[0] == self.tools@[0]@);
                emit(
                    &mut events,
                    CodingEvent::Output(tools::truncate_for_event(result.as_str(), 2000)),
                );
                assert(event_views(events@) =~= seq![
                    EventView::Output(tools::truncated(result@, 2000)),
                ]);
                let mut entry = error::prefixed("### ", self.tools[0].display().as_str());
                entry.append("\n```\n");
                entry.append(result.as_str());
                entry.append("\n```\n\n");
                self.log.append(entry.as_str());
                self.tools.remove(0);
                assert(self@.tools =~= start.tools.drop_first());
                self.use_next(&mut events)
            },
            LoopEvent::Changes(now) => {
                let mut events_now = file_changes(&now, &self.changes);
                events.append(&mut events_now);
                assert(event_views(events@) =~= new_changes(pair_views(now@), start.changes));
                let mut messages: Vec<String> = Vec::new();
                std::mem::swap(&mut messages, &mut self.messages);
                messages.push(self.log.clone());
                assert(text::texts(messages@) =~= start.messages.push(start.log));
                self.messages = trim_messages(messages);
                self.changes = now;
                self.iteration = self.iteration + 1;
                self.round(&mut events)
            },
        };
        (events, action)
    }
}

/// The first message, which holds the task, is never left out of the prompts.
pub proof fn task_stays_in_prompts(v: LoopView, event: LoopEvent)
    requires
        v.wf(),
        v.awaits(event),
    ensures
        v.on(event).state.messages.len() >= 1,
        v.on(event).state.messages[0] == v.messages[0],
{
}

/// The loop asks the model at most as often as it may: each question begins a
/// round, the rounds are counted, and no more begin than are allowed.
pub proof fn rounds_are_bounded(v: LoopView, event: LoopEvent)
    requires
        v.wf(),
        v.awaits(event),
    ensures
        v.on(event).state.max_iterations == v.max_iterations,
        v.on(event).state.iteration <= v.max_iterations,
        v.on(event).action is Ask ==> v.on(event).state.iteration == v.iteration + 1
            && v.on(event).state.iteration < v.max_iterations,
        v.on(event).state.iteration >= v.iteration,
{
}

/// The loop ends exactly when it hands out a result, and tells that result last.
pub proof fn end_is_told(v: LoopView, event: LoopEvent)
    requires
        v.wf(),
        v.awaits(event),
    ensures
        (v.on(event).state.phase == LoopPhase::Ended) <==> v.on(event).action is Finish,
        v.on(event).action is Finish ==> v.on(event).events.len() > 0
            && v.on(event).events.last() == EventView::Done(v.on(event).action->Finish_0),
{
}

/// What is kept of the messages is never more than five of them, once they are
/// long.
pub proof fn long_context_is_cut(messages: Seq<Seq<char>>)
    requires
        messages.len() >= 1,
    ensures
        total_bytes(messages) <= CONTEXT_LIMIT || kept(messages).len() <= 5,
        kept(messages)[0] == messages[0],
        kept(messages).last() == messages.last(),
{
}

/// The first question to the model holds the task, what is known of the project, and
/// the branch that is worked on.
#[verifier::rlimit(50)]
pub proof fn tasks_are_put_to_the_model(
    system: Seq<char>,
    workspace: Option<Workspace>,
    context: Seq<char>,
    task: Seq<char>,
    max_iterations: nat,
)
    ensures
        ({
            let s = LoopView::fresh(system, workspace, context, task, max_iterations).round(
                Seq::empty(),
            );
            if max_iterations == 0 {
                s.action is Finish
            } else {
                &&& s.action is Ask
                &&& s.action->system == system
                &&& text::ends_in(s.action->prompt, "## Task:\n"@ + task)
                &&& text::has(s.action->prompt, context)
                &&& workspace is Some ==> text::has(
                    s.action->prompt,
                    workspace.unwrap().branch@,
                )
            }
        }),
{
    let v = LoopView::fresh(system, workspace, context, task, max_iterations);
    let note = workspace_note(workspace);
    let first = opening(note, context, task);
    let none = Seq::<char>::empty();
    let q = "## Task:\n"@ + task;
    assert(lines::joined(v.messages, rule()) == first);
    reveal_strlit("\n\n## Task:\n");
    reveal_strlit("## Task:\n");
    assert("\n\n## Task:\n"@ =~= seq!['\n', '\n'] + "## Task:\n"@);
    assert(first.subrange(first.len() - q.len(), first.len() as int) =~= q);
    passages::lemma_stands(
        "## Workspace:\n"@ + note + "\n\n## Project context:\n"@,
        context,
        "\n\n## Task:\n"@ + task,
    );
    assert(first =~= "## Workspace:\n"@ + note + "\n\n## Project context:\n"@ + context + (
    "\n\n## Task:\n"@ + task));
    if workspace is Some {
        let w = workspace.unwrap();
        let rest = "` (from `"@ + w.original_branch@ + "`)."@;
        passages::lemma_stands("Working on isolated branch `"@, w.branch@, rest);
        assert(note =~= "Working on isolated branch `"@ + w.branch@ + rest);
        let behind = "\n\n## Project context:\n"@ + context + "\n\n## Task:\n"@ + task;
        assert(first =~= "## Workspace:\n"@ + note + behind);
        passages::lemma_has("## Workspace:\n"@, note, behind, w.branch@);
    }
}

/// The step after results of tools, one after the other.
pub open spec fn after_results(s: LoopStepView, results: Seq<Seq<char>>) -> LoopStepView
    decreases results.len(),
{
    if results.len() == 0 {
        s
    } else {
        after_results(s, results.drop_last()).state.on_result(results.last())
    }
}

/// The tools of an answer are used in turn, each once: behind the results of the first
/// of them comes the next, the end where that says that the work is done, or the list
/// of changed files where there is none; and the answer and the results are noted in
/// their order.
#[verifier::rlimit(50)]
pub proof fn tools_are_used_in_turn(v: LoopView, answer: Seq<char>, results: Seq<Seq<char>>)
    requires
        tools::tools_in(answer).len() > 0,
        results.len() <= tools::tools_in(answer).len(),
        forall|i: int|
            0 <= i < results.len() ==> !((#[trigger] tools::tools_in(answer)[i]) is Done),
    ensures
        ({
            let found = tools::tools_in(answer);
            let k = results.len() as int;
            let s = after_results(v.on_answer(answer), results);
            &&& s.state.tools == found.skip(k)
            &&& s.state.messages == v.messages
            &&& s.state.changes == v.changes
            &&& s.state.iteration == v.iteration
            &&& s.state.max_iterations == v.max_iterations
            &&& s.state.system == v.system
            &&& passages::in_order(s.state.log, seq![answer] + results)
            &&& k == found.len() ==> s.action is ListChanges && s.state.phase
                == LoopPhase::Listing
            &&& k < found.len() && found[k] is Done ==> s.action == LoopMove::Finish(
                found[k]->summary,
            )
            &&& k < found.len() && !(found[k] is Done) ==> s.action == LoopMove::Use(found[k])
                && s.state.phase == LoopPhase::Using
        }),
    decreases results.len(),
{
    let found = tools::tools_in(answer);
    let s = after_results(v.on_answer(answer), results);
    let none = Seq::<char>::empty();
    if results.len() == 0 {
        let head = "## Assistant (iteration "@ + number::decimal(v.iteration + 1) + "):\n"@;
        assert(found.skip(0) =~= found);
        passages::lemma_single(head, answer, "\n\n## Tool results:\n"@);
        assert(seq![answer] + results =~= seq![answer]);
    } else {
        let before = results.drop_last();
        let k = before.len() as int;
        assert forall|i: int| 0 <= i < before.len() implies !((
        #[trigger] tools::tools_in(answer)[i]) is Done) by {}
        tools_are_used_in_turn(v, answer, before);
        let p = after_results(v.on_answer(answer), before);
        assert(!(found[k] is Done));
        assert(p.state.tools[0] == found[k]);
        assert(found.skip(k).drop_first() =~= found.skip(k + 1));
        let r = results.last();
        let head = "### "@ + tools::shown(found[k]) + "\n```\n"@;
        let all = seq![answer] + results;
        assert(all.drop_last() =~= seq![answer] + before);
        let at = p.state.log.len() + head.len();
        let log = s.state.log;
        assert(log =~= p.state.log + head + r + "\n```\n\n"@);
        assert(log.subrange(at as int, at as int + r.len()) =~= r);
        assert(text::occurs_at(log, all.last(), at as int));
        passages::lemma_in_order(none, p.state.log, head, all.drop_last());
        assert(log.take(at as int) =~= none + p.state.log + head);
    }
}

/// The event that tells of a change.
pub open spec fn changed_event(c: (Seq<char>, Seq<char>)) -> EventView {
    EventView::FileChanged { path: c.0, action: c.1 }
}

/// What the tools gave is put to the model in the next round, with the first message
/// and under the same system prompt; and what is newly listed as changed is told, and
/// nothing else.
pub proof fn results_are_put_to_the_model(v: LoopView, now: Seq<(Seq<char>, Seq<char>)>)
    requires
        v.wf(),
        v.phase == LoopPhase::Listing,
    ensures
        ({
            let s = v.on_changes(now);
            &&& v.iteration + 1 >= v.max_iterations ==> s.action == LoopMove::Finish(LIMIT_REACHED@)
            &&& v.iteration + 1 < v.max_iterations ==> {
                &&& s.action is Ask
                &&& s.action->system == v.system
                &&& text::has(s.action->prompt, v.log)
                &&& text::begins_with(s.action->prompt, v.messages[0])
            }
            &&& s.state.changes == now
            &&& forall|c: (Seq<char>, Seq<char>)| #[trigger]
                s.events.contains(changed_event(c)) <==> now.contains(c) && !v.changes.contains(c)
        }),
{
    lemma_results_asked(v, now);
    assert forall|c: (Seq<char>, Seq<char>)| #[trigger]
        v.on_changes(now).events.contains(changed_event(c)) <==> now.contains(c)
        && !v.changes.contains(c) by {
        lemma_change_told(v, now, c);
    }
}

/// The next round puts the first message and the log to the model.
#[verifier::rlimit(50)]
proof fn lemma_results_asked(v: LoopView, now: Seq<(Seq<char>, Seq<char>)>)
    requires
        v.wf(),
        v.phase == LoopPhase::Listing,
    ensures
        ({
            let s = v.on_changes(now);
            &&& v.iteration + 1 >= v.max_iterations ==> s.action == LoopMove::Finish(LIMIT_REACHED@)
            &&& v.iteration + 1 < v.max_iterations ==> {
                &&& s.action is Ask
                &&& s.action->system == v.system
                &&& text::has(s.action->prompt, v.log)
                &&& text::begins_with(s.action->prompt, v.messages[0])
            }
            &&& s.state.changes == now
        }),
{
    let ms = kept(v.messages.push(v.log));
    passages::lemma_joined(ms, rule());
    let t = lines::joined(ms, rule());
    assert(ms.last() == v.log);
    passages::lemma_each(t, ms, ms.len() - 1);
    passages::lemma_joined_first(ms, rule());
    assert(t.subrange(0, v.messages[0].len() as int) =~= v.messages[0]);
}

/// A change is told where it is new.
proof fn lemma_change_told(
    v: LoopView,
    now: Seq<(Seq<char>, Seq<char>)>,
    c: (Seq<char>, Seq<char>),
)
    requires
        v.wf(),
        v.phase == LoopPhase::Listing,
    ensures
        v.on_changes(now).events.contains(changed_event(c)) <==> now.contains(c)
            && !v.changes.contains(c),
{
    let events = v.on_changes(now).events;
    let told = new_changes(now, v.changes);
    let e = changed_event(c);
    new_changes_are_told(now, v.changes, c.0, c.1);
    assert((c.0, c.1) == c);
    if told.contains(e) {
        let k = choose|k: int| 0 <= k < told.len() && told[k] == e;
        assert(events[k] == e);
    }
    if events.contains(e) {
        let k = choose|k: int| 0 <= k < events.len() && events[k] == e;
        assert(k < told.len());
        assert(told[k] == e);
    }
}

/// An answer without tools is met with a question that holds the answer, and the third
/// in a row is taken for the result; one with tools begins the count anew.
#[verifier::rlimit(50)]
pub proof fn answers_without_tools_are_met(v: LoopView, answer: Seq<char>)
    requires
        v.wf(),
        v.phase == LoopPhase::Asking,
    ensures
        tools::tools_in(answer).len() == 0 && v.no_tool_streak == 2 ==> v.on_answer(answer).action
            == LoopMove::Finish(answer),
        tools::tools_in(answer).len() == 0 && v.no_tool_streak < 2 && v.iteration + 1
            < v.max_iterations ==> v.on_answer(answer).action is Ask && text::has(
            v.on_answer(answer).action->prompt,
            answer,
        ) && v.on_answer(answer).state.no_tool_streak == v.no_tool_streak + 1,
        tools::tools_in(answer).len() > 0 ==> v.on_answer(answer).state.no_tool_streak == 0,
{
    if tools::tools_in(answer).len() == 0 && v.no_tool_streak < 2 {
        let ms = v.messages.push(nudge(answer));
        let rest =
            "\n\n## System:\nYou did not use any tools. You MUST use tool tags to take action. Do not ask questions — make your best attempt. Start with <ls>.</ls> or <read_file> to explore, then build what was asked for."@;
        passages::lemma_joined(ms, rule());
        passages::lemma_each(lines::joined(ms, rule()), ms, ms.len() - 1);
        passages::lemma_stands("## Assistant:\n"@, answer, rest);
        passages::lemma_has_through(lines::joined(ms, rule()), nudge(answer), answer);
    }
}

// ---------------------------------------------------------------------------
// The plugin
// ---------------------------------------------------------------------------

/// The most rounds of a task that an action starts.
pub const ACTION_ITERATIONS: usize = 50;

/// The action that starts the loop.
pub struct CodeAction {
    pub project_dir: String,
}

impl CodeAction {
    pub fn name(&self) -> (r: &'static str)
        ensures
            r@ == "CODE"@,
    {
        "CODE"
    }

    pub fn description(&self) -> (r: &'static str)
        ensures
            r@
                == "Execute an autonomous coding task — reads, writes, and edits files, runs commands, iterates until done"@,
    {
        "Execute an autonomous coding task — reads, writes, and edits files, runs commands, iterates until done"
    }

    pub fn similes(&self) -> (r: Vec<String>)
        ensures
            text::texts(r@) == seq!["IMPLEMENT"@, "BUILD"@, "FIX"@, "REFACTOR"@, "DEVELOP"@],
    {
        let r = vec![
            "IMPLEMENT".to_owned(),
            "BUILD".to_owned(),
            "FIX".to_owned(),
            "REFACTOR".to_owned(),
            "DEVELOP".to_owned(),
        ];
        assert(text::texts(r@) =~= seq![
            "IMPLEMENT"@,
            "BUILD"@,
            "FIX"@,
            "REFACTOR"@,
            "DEVELOP"@,
        ]);
        r
    }

    pub fn priority(&self) -> (r: i32)
        ensures
            r == 10,
    {
        10
    }

    /// The task that a message gives, or the result where it gives none.
    pub fn task(&self, message: &Memory) -> (r: Result<String, ActionResult>)
        ensures
            match r {
                Ok(t) => t@ == text::text_or_empty(message.content.text) && t@.len() > 0,
                Err(e) => text::text_or_empty(message.content.text).len() == 0 && e.is_err(
                    "no task description"@,
                ),
            },
    {
        match &message.content.text {
            Some(t) => if t.as_str().unicode_len() > 0 {
                Ok(t.clone())
            } else {
                Err(ActionResult::err("no task description"))
            },
            None => Err(ActionResult::err("no task description")),
        }
    }

    /// The result of the action, from that of the loop.
    pub fn finish(&self, outcome: &Result<String, String>) -> (r: ActionResult)
        ensures
            match *outcome {
                Ok(summary) => r.is_ok(summary@),
                Err(e) => r.is_err(e@),
            },
    {
        match outcome {
            Ok(summary) => ActionResult::ok(summary.as_str()),
            Err(e) => ActionResult::err(e.as_str()),
        }
    }
}

/// The provider that tells of the project.
pub struct ProjectProvider {
    pub project_dir: String,
}

impl ProjectProvider {
    pub fn name(&self) -> (r: &'static str)
        ensures
            r@ == "project"@,
    {
        "project"
    }

    pub fn description(&self) -> (r: &'static str)
        ensures
            r@ == "Project file tree and git status"@,
    {
        "Project file tree and git status"
    }

    /// What is told of the project.
    pub fn get(&self, context: &str) -> (r: ProviderResult)
        ensures
            text::opt_text(r.text) == Some(
                "# Project: "@ + self.project_dir@ + "\n"@ + context@,
            ),
            r.values@ == Map::<Seq<char>, Seq<char>>::empty(),
            r.data is None,
    {
        let mut out = error::prefixed("# Project: ", self.project_dir.as_str());
        out.append("\n");
        out.append(context);
        ProviderResult { text: Some(out), values: Values::new(), data: None }
    }
}

/// The plugin: the action and the provider, both for one directory.
pub fn coding_plugin<E, S>(project_dir: &str) -> (r: Plugin<CodeAction, E, ProjectProvider, S>)
    ensures
        r.name@ == "coding"@,
        r.description@ == "Autonomous coding — file ops, shell, git, search, iterative task loop"@,
        r.actions@.len() == 1,
        r.actions@[0].project_dir@ == project_dir@,
        r.providers@.len() == 1,
        r.providers@[0].project_dir@ == project_dir@,
        r.evaluators@.len() == 0,
        r.services@.len() == 0,
{
    let mut plugin: Plugin<CodeAction, E, ProjectProvider, S> = Plugin::new(
        "coding",
        "Autonomous coding — file ops, shell, git, search, iterative task loop",
    );
    plugin.actions.push(CodeAction { project_dir: project_dir.to_owned() });
    plugin.providers.push(ProjectProvider { project_dir: project_dir.to_owned() });
    plugin
}

/// A line of a listing that holds a status of two characters, a space and a path tells that
/// path and that status, without white space. What is told of lines is what is told of each,
/// in their order.
pub proof fn listings_are_read(
    first: Seq<Seq<char>>,
    second: Seq<Seq<char>>,
    status: Seq<char>,
    path: Seq<char>,
)
    requires
        bytes::byte_len(status) == 2,
        bytes::byte_len(path) > 0,
    ensures
        status_entries(first + second) == status_entries(first) + status_entries(second),
        status_entries(seq![status + seq![' '] + path]) == seq![(text::trimmed(status), path)],
{
    let p = |l: Seq<char>| names_file(l);
    let f = |l: Seq<char>| status_entry(l);
    let space = seq![' '];
    let line = status + space + path;
    vstd::utf8::is_ascii_chars_encode_utf8(space);
    bytes::lemma_byte_len_concat(status, space);
    bytes::lemma_byte_len_concat(status + space, path);
    bytes::lemma_cut_between(status, space + path);
    assert(status + (space + path) =~= line);
    bytes::lemma_cut_between(status + space, path);
    assert(status_entry(line) == (text::trimmed(status), path));
    reveal(Seq::filter);
    assert(seq![line].drop_last() =~= Seq::<Seq<char>>::empty());
    assert(Seq::<Seq<char>>::empty().filter(p) =~= Seq::<Seq<char>>::empty());
    assert(seq![line].filter(p) =~= seq![line]);
    assert(status_entries(seq![line]) =~= seq![(text::trimmed(status), path)]);
    lemma_entries_concat(first, second);
}

proof fn lemma_entries_concat(first: Seq<Seq<char>>, second: Seq<Seq<char>>)
    ensures
        status_entries(first + second) == status_entries(first) + status_entries(second),
    decreases second.len(),
{
    reveal(Seq::filter);
    let p = |l: Seq<char>| names_file(l);
    let f = |l: Seq<char>| status_entry(l);
    if second.len() == 0 {
        assert(first + second =~= first);
        assert(second.filter(p) =~= Seq::<Seq<char>>::empty());
        assert(status_entries(first) + status_entries(second) =~= status_entries(first));
    } else {
        let front = second.drop_last();
        let last = second.last();
        lemma_entries_concat(first, front);
        assert((first + second).drop_last() =~= first + front);
        assert((first + second).last() == last);
        if names_file(last) {
            let a = (first + front).filter(p);
            let b = front.filter(p);
            assert(a.push(last).map_values(f) =~= a.map_values(f).push(f(last)));
            assert(b.push(last).map_values(f) =~= b.map_values(f).push(f(last)));
        }
        assert(status_entries(first + second) =~= status_entries(first) + status_entries(second));
    }
}

/// A file is told as changed exactly where it is listed now with what was done to it and was
/// not listed so before.
pub proof fn new_changes_are_told(
    now: Seq<(Seq<char>, Seq<char>)>,
    before: Seq<(Seq<char>, Seq<char>)>,
    path: Seq<char>,
    action: Seq<char>,
)
    ensures
        new_changes(now, before).contains(EventView::FileChanged { path, action })
            <==> now.contains((path, action)) && !before.contains((path, action)),
        before == now ==> new_changes(now, before).len() == 0,
{
    let p = |c: (Seq<char>, Seq<char>)| !before.contains(c);
    let kept = now.filter(p);
    let told = new_changes(now, before);
    let e = EventView::FileChanged { path, action };
    if told.contains(e) {
        let k = choose|k: int| 0 <= k < told.len() && told[k] == e;
        assert(kept[k] == (path, action));
        now.lemma_filter_pred(p, k);
        assert(kept.contains(kept[k]));
        now.lemma_filter_contains_rev(p, kept[k]);
    }
    if now.contains((path, action)) && !before.contains((path, action)) {
        let i = choose|i: int| 0 <= i < now.len() && now[i] == (path, action);
        now.lemma_filter_contains(p, i);
        let k = choose|k: int| 0 <= k < kept.len() && kept[k] == now[i];
        assert(told[k] == e);
    }
    if before == now && told.len() > 0 {
        now.lemma_filter_pred(p, 0);
        assert(kept.contains(kept[0]));
        now.lemma_filter_contains_rev(p, kept[0]);
    }
}

/// What was done to a file tells its status apart: new files are added, and files with
/// changes, deleted and renamed ones are told as that.
pub proof fn statuses_are_told_apart()
    ensures
        action_of("??"@) == action_of("A"@),
        action_of("MM"@) == action_of("M"@),
        action_of("A"@) == "added"@,
        action_of("M"@) == "modified"@,
        action_of("D"@) == "deleted"@,
        action_of("R"@) == "renamed"@,
{
    reveal_strlit("??");
    reveal_strlit("MM");
    reveal_strlit("A");
    reveal_strlit("M");
    reveal_strlit("D");
    reveal_strlit("R");
    assert("??"@[0] == '?' && "MM"@[0] == 'M' && "MM"@.len() == 2 && "A"@[0] == 'A' && "M"@[0] == 'M'
        && "M"@.len() == 1 && "D"@[0] == 'D' && "R"@[0] == 'R');
}

/// As long as the messages are not too long, all are kept. Of longer ones the first and the
/// last three are, in their order, with a mark in between for those that are left out.
pub proof fn the_latest_messages_are_kept(messages: Seq<Seq<char>>)
    requires
        messages.len() >= 1,
    ensures
        total_bytes(messages) <= 50_000 ==> kept(messages) == messages,
        messages.len() <= 3 ==> kept(messages) == messages,
        kept(messages)[0] == messages[0],
        messages.len() > 3 ==> kept(messages).len() >= 4 && kept(messages).skip(
            kept(messages).len() - 3,
        ) == messages.skip(messages.len() - 3),
        kept(messages) != messages ==> kept(messages).len() == 5,
{
    if total_bytes(messages) > CONTEXT_LIMIT && messages.len() > 3 {
        let k = kept(messages);
        assert(k.skip(k.len() - 3) =~= messages.skip(messages.len() - 3));
    }
}

} // verus!
