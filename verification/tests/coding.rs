use rustliza::coding::{
    branch_for, can_read_listing, changed_files, checkout_command, coding_plugin,
    coding_system_prompt, create_workspace, get_project_context, is_git_repository, slugify,
    stamped_branch, starting_event, trim_messages, workspace_event, CodeAction, CodingEvent,
    CodingLoop, LoopAction, LoopEvent, LoopPhase, ProjectProvider, LIMIT_REACHED, TRIMMED_MARK,
};
use rustliza::runtime::Plugin;
use rustliza::time::Timestamp;
use rustliza::tools::{
    apply_edit, combine_output, command_failed, content_to_write, edited_message, execute_tool,
    file_error, format_shell_result, not_found_message, number_lines, parse_tools, path_error,
    resolve_path, timed_out, truncate_for_event, wrote_message, Resolved, Target, Tool,
    ToolRequest,
};
use rustliza::types::{ModelType, Memory, Content};
use rustliza::character::Character;
use rustliza::ids::Uuid;

#[test]
fn tools_are_read_kind_by_kind() {
    let answer = "first <run> ls -l </run> then <read_file> src/a.rs </read_file>\n\
                  <write_file path=\"b.txt\">\nhello\n</write_file>\n\
                  <edit_file  path=\"c.rs\">\n<old>x\ny</old>\n<new>z</new>\n</edit_file>\n\
                  <search>fn main</search><search path=\"src\"> todo </search>\n\
                  <ls>.</ls><done> all\nset </done>";
    let tools = parse_tools(answer);
    let shown: Vec<String> = tools.iter().map(|t| t.display()).collect();
    assert_eq!(
        shown,
        vec![
            "read_file: src/a.rs",
            "write_file: b.txt",
            "edit_file: c.rs",
            "run: ls -l",
            "search: fn main in .",
            "search: todo in src",
            "ls: .",
            "done: all\nset",
        ]
    );
    match &tools[1] {
        Tool::WriteFile { content, .. } => assert_eq!(content, "\nhello\n"),
        _ => panic!(),
    }
    match &tools[2] {
        Tool::EditFile { old, new, .. } => {
            assert_eq!(old, "x\ny");
            assert_eq!(new, "z");
        }
        _ => panic!(),
    }
}

#[test]
fn reading_needs_one_line_but_running_does_not() {
    assert!(parse_tools("<read_file>a\nb</read_file>").is_empty());
    assert!(parse_tools("<ls>a\nb</ls>").is_empty());
    assert_eq!(parse_tools("<run>a\nb</run>").len(), 1);
    assert!(parse_tools("nothing here").is_empty());
    assert_eq!(
        parse_tools("<read_file>a<read_file>b</read_file>")[0].display(),
        "read_file: a<read_file>b"
    );
}

#[test]
fn paths_stay_in_the_project() {
    let base = Ok(vec!["/".to_string(), "home".into(), "p".into()]);
    let inside = vec!["/".to_string(), "home".into(), "p".into(), "x".into()];
    let outside = vec!["/".to_string(), "home".into(), "px".into()];
    assert_eq!(
        resolve_path(&base, &Target::Exists(Ok(inside.clone()))),
        Ok(Resolved::Canonical)
    );
    assert_eq!(
        resolve_path(&base, &Target::Exists(Ok(outside.clone()))),
        Err("path outside project directory".to_string())
    );
    assert_eq!(
        resolve_path(&base, &Target::Exists(Err("e".into()))),
        Err("bad path: e".to_string())
    );
    assert_eq!(
        resolve_path(&base, &Target::Nameless),
        Err("no parent directory".to_string())
    );
    let missing = |ancestor: &Vec<String>, rest: &[&str]| Target::Missing {
        ancestor: Ok(ancestor.clone()),
        rest: rest.iter().map(|c| c.to_string()).collect(),
    };
    assert_eq!(resolve_path(&base, &missing(&inside, &["f"])), Ok(Resolved::AsGiven));
    assert_eq!(
        resolve_path(&base, &missing(&inside, &["new", "dir", "f"])),
        Ok(Resolved::AsGiven)
    );
    for refused in [
        missing(&outside, &["f"]),
        missing(&outside, &["new", "dir", "f"]),
        missing(&vec!["/".to_string(), "home".into()], &["new", "dir", "f"]),
        missing(&inside, &["new", "..", "f"]),
        missing(&inside, &["new", "..", "..", "..", "f"]),
    ] {
        assert_eq!(
            resolve_path(&base, &refused),
            Err("path outside project directory".to_string())
        );
    }
    assert_eq!(resolve_path(&base, &missing(&inside, &["..f"])), Ok(Resolved::AsGiven));
    assert_eq!(
        resolve_path(&base, &Target::Missing { ancestor: Err("e".into()), rest: vec![] }),
        Err("bad parent: e".to_string())
    );
    assert_eq!(
        resolve_path(&Err("gone".into()), &Target::Nameless),
        Err("bad project dir: gone".to_string())
    );
}

#[test]
fn what_tools_come_to() {
    assert_eq!(number_lines("a\nb"), "   1 | a\n   2 | b");
    assert_eq!(number_lines(""), "");
    assert_eq!(content_to_write("\n\nx"), "\nx");
    assert_eq!(wrote_message("f", "\nxé"), "wrote f (3 bytes)");
    assert_eq!(apply_edit("a b a", " a ", "c"), Some("c b a".to_string()));
    assert_eq!(apply_edit("a", "z", "c"), None);
    assert_eq!(apply_edit("ab", "  ", "c"), Some("cab".to_string()));
    assert_eq!(edited_message("f", " ab ", "c"), "edited f (2 → 1 bytes replaced)");
    assert_eq!(not_found_message("f"), "error: old text not found in f");
    assert_eq!(file_error("reading", "f", "why"), "error reading f: why");
    assert_eq!(path_error("why"), "error: why");
    match execute_tool(&Tool::Search { pattern: "it's".into(), path: None }) {
        ToolRequest::Shell { command, timeout_secs } => {
            assert_eq!(
                command,
                "grep -rn --binary-files=without-match 'it'\\''s' . 2>/dev/null | head -50"
            );
            assert_eq!(timeout_secs, 15);
        }
        _ => panic!(),
    }
    match execute_tool(&Tool::Ls { path: "".into() }) {
        ToolRequest::Shell { command, timeout_secs } => {
            assert!(command.starts_with("find . -maxdepth 3 "));
            assert_eq!(timeout_secs, 10);
        }
        _ => panic!(),
    }
    match execute_tool(&Tool::Run { command: "x".into() }) {
        ToolRequest::Shell { command, timeout_secs } => {
            assert_eq!((command.as_str(), timeout_secs), ("x", 60));
        }
        _ => panic!(),
    }
    assert!(matches!(
        execute_tool(&Tool::Done { summary: "s".into() }),
        ToolRequest::Answer(s) if s == "s"
    ));
}

#[test]
fn output_of_commands() {
    assert_eq!(combine_output("a", ""), "a");
    assert_eq!(combine_output("", "e"), "stderr: e");
    assert_eq!(combine_output("a", "e"), "a\nstderr: e");
    assert_eq!(format_shell_result("", Some(3)), "(exit 3)");
    assert_eq!(format_shell_result("", None), "(exit -1)");
    assert_eq!(format_shell_result("x", Some(0)), "x");
    let long = "y".repeat(10_001);
    assert_eq!(
        format_shell_result(&long, Some(0)),
        format!("{}...\n[truncated, 10001 total bytes]", "y".repeat(10_000))
    );
    assert_eq!(command_failed("e"), "command failed: e");
    assert_eq!(timed_out(5), "timed out after 5s");
    assert_eq!(truncate_for_event("abc", 3), "abc");
    assert_eq!(truncate_for_event("abcd", 3), "abc...[truncated]");
}

#[test]
fn workspaces() {
    assert_eq!(slugify("Add a README, then fix CI!"), "add-a-readme-then");
    assert_eq!(slugify("--é--"), "");
    assert_eq!(slugify("add-a-readme-then"), "add-a-readme-then");
    let at = Timestamp { secs: 1_700_000_000, nanos: 0 };
    assert_eq!(branch_for("fix", &at), "botdick/fix-221320");
    assert_eq!(stamped_branch("a", "b"), "botdick/a-b");
    assert_eq!(checkout_command("b"), "git checkout -b b 2>&1");
    assert!(is_git_repository(".git\n"));
    assert!(!is_git_repository("(exit 128)"));
    let ws = create_workspace("/p", "Fix it", "botdick/x", " main\n", "Switched to a new branch 'x' error")
        .unwrap();
    assert_eq!(ws.original_branch, "main");
    assert_eq!(ws.task_slug, "fix-it");
    assert!(create_workspace("/p", "t", "b", "m", "fatal error").is_none());
    assert!(create_workspace("/p", "t", "b", "m", "fatal").is_some());
    assert!(matches!(
        workspace_event(&ws),
        CodingEvent::Workspace { branch, dir } if branch == "botdick/x" && dir == "/p"
    ));
    assert!(matches!(starting_event("t"), CodingEvent::Status(s) if s == "starting: t"));
}

#[test]
fn changes_are_listed() {
    let printed = " M src/a.rs\n?? b\nA  c\nD  d\nR  e -> f\nUU g\nMM h\nx\n";
    assert!(can_read_listing(printed));
    let changes = changed_files(printed);
    let expected = vec![
        ("src/a.rs", "modified"),
        ("b", "added"),
        ("c", "added"),
        ("d", "deleted"),
        ("e -> f", "renamed"),
        ("g", "changed"),
        ("h", "modified"),
    ];
    let expected: Vec<(String, String)> =
        expected.iter().map(|(p, a)| (p.to_string(), a.to_string())).collect();
    assert_eq!(changes, expected);
    assert!(!can_read_listing("aéé\n"));
}

fn new_loop(max: usize) -> CodingLoop {
    CodingLoop::new("system".to_string(), &None, "ctx", "task", max)
}

#[test]
fn loop_ends_when_the_task_is_done() {
    let mut l = new_loop(5);
    let (events, action) = l.begin();
    assert!(matches!(events[0], CodingEvent::Iteration(1)));
    match action {
        LoopAction::Ask(p) => {
            assert_eq!(p.model_type, ModelType::TextLarge);
            assert_eq!(p.system_prompt, "system");
            assert_eq!(
                p.prompt,
                "## Workspace:\nNot a git repository — working directly in the project dir.\n\n\
                 ## Project context:\nctx\n\n## Task:\ntask"
            );
            assert_eq!(p.max_tokens, Some(8192));
            assert_eq!(p.temperature, Some(0.2f32.to_bits()));
        }
        _ => panic!(),
    }
    let (events, action) = l.step(LoopEvent::Answer("<run>ls</run><done>ok</done>".to_string()));
    assert_eq!(events.len(), 2);
    assert!(matches!(action, LoopAction::Use(ToolRequest::Shell { .. })));
    assert_eq!(l.phase, LoopPhase::Using);
    let (events, action) = l.step(LoopEvent::Result("out".to_string()));
    assert!(matches!(&events[0], CodingEvent::Output(s) if s == "out"));
    assert!(matches!(&events[1], CodingEvent::Done(s) if s == "ok"));
    assert!(matches!(action, LoopAction::Finish(s) if s == "ok"));
    assert_eq!(l.phase, LoopPhase::Ended);
}

#[test]
fn loop_ends_after_three_answers_without_tools() {
    let mut l = new_loop(9);
    l.begin();
    let (_, a) = l.step(LoopEvent::Answer("one".into()));
    assert!(matches!(a, LoopAction::Ask(p) if p.prompt.ends_with("build what was asked for.")));
    let (_, a) = l.step(LoopEvent::Answer("two".into()));
    assert!(matches!(a, LoopAction::Ask(_)));
    let (events, a) = l.step(LoopEvent::Answer("three".into()));
    assert!(matches!(&events[1], CodingEvent::Done(s) if s == "three"));
    assert!(matches!(a, LoopAction::Finish(s) if s == "three"));
}

#[test]
fn loop_reports_tools_and_new_changes() {
    let mut l = new_loop(2);
    l.begin();
    l.step(LoopEvent::Answer("<ls>.</ls>".into()));
    let (_, a) = l.step(LoopEvent::Result("files".into()));
    assert!(matches!(a, LoopAction::ListChanges));
    let (events, a) = l.step(LoopEvent::Changes(vec![("a".into(), "added".into())]));
    assert!(matches!(&events[0], CodingEvent::FileChanged { path, .. } if path == "a"));
    assert!(matches!(events[1], CodingEvent::Iteration(2)));
    match a {
        LoopAction::Ask(p) => assert!(p.prompt.ends_with(
            "\n\n---\n\n## Assistant (iteration 1):\n<ls>.</ls>\n\n## Tool results:\n### ls: .\n```\nfiles\n```\n\n"
        )),
        _ => panic!(),
    }
    l.step(LoopEvent::Answer("<ls>.</ls>".into()));
    l.step(LoopEvent::Result("files".into()));
    let (events, a) = l.step(LoopEvent::Changes(vec![
        ("a".into(), "added".into()),
        ("a".into(), "modified".into()),
    ]));
    assert_eq!(events.len(), 2);
    assert!(matches!(&events[0], CodingEvent::FileChanged { action, .. } if action == "modified"));
    assert!(matches!(a, LoopAction::Finish(s) if s == LIMIT_REACHED));
}

#[test]
fn long_contexts_are_cut() {
    let short: Vec<String> = (0..9).map(|i| i.to_string()).collect();
    assert_eq!(trim_messages(short.clone()), short);
    let mut long = short.clone();
    long[4] = "x".repeat(50_001);
    let kept = trim_messages(long);
    assert_eq!(kept, vec!["0", TRIMMED_MARK, "6", "7", "8"]);
}

#[test]
fn the_coding_plugin() {
    let plugin: Plugin<CodeAction, (), ProjectProvider, ()> = coding_plugin("/p");
    assert_eq!(plugin.name, "coding");
    let action = &plugin.actions[0];
    assert_eq!(action.name(), "CODE");
    assert_eq!(action.priority(), 10);
    assert_eq!(action.similes().len(), 5);
    let m = |t: &str| {
        Memory::new_message(Uuid::nil(), Uuid::nil(), Uuid::nil(), Content::text(t))
    };
    assert_eq!(action.task(&m("go")).unwrap(), "go");
    assert_eq!(action.task(&m("")).unwrap_err().error.unwrap(), "no task description");
    assert!(action.finish(&Ok("s".into())).success);
    assert!(!action.finish(&Err("e".into())).success);
    let told = plugin.providers[0].get("ctx");
    assert_eq!(told.text.unwrap(), "# Project: /p\nctx");
    let ctx = get_project_context("t", "s", "l");
    assert_eq!(
        ctx,
        "## Project files:\n```\nt\n```\n\n## Git status:\n```\ns\n```\n\n## Recent commits:\n```\nl\n```\n"
    );
    let mut c = Character::default();
    c.name = "Ada".into();
    c.bio = vec!["a".into(), "b".into()];
    let prompt = coding_system_prompt(&c, "/p");
    assert!(prompt.starts_with(
        "You are Ada, a senior autonomous coding engineer working on the project at `/p`.\n\nYou ship"
    ));
    assert!(prompt.ends_with("project description.</done>\n\na b"));
}

#[test]
fn what_a_tag_holds_is_read_as_it_stands() {
    let tools = parse_tools("a < b <write_file path=\" x.rs \">if a < b {\n \"q\" }\n</write_file> <b>");
    assert_eq!(tools.len(), 1);
    match &tools[0] {
        Tool::WriteFile { path, content } => {
            assert_eq!(path, "x.rs");
            assert_eq!(content, "if a < b {\n \"q\" }\n");
        }
        other => panic!("{:?}", other),
    }
    let tools = parse_tools(
        "<edit_file path=\"é\"> <old> a</b> </old>\t<new></new>\u{a0}</edit_file>",
    );
    assert_eq!(tools.len(), 1);
    match &tools[0] {
        Tool::EditFile { path, old, new } => {
            assert_eq!(path, "é");
            assert_eq!(old, " a</b> ");
            assert_eq!(new, "");
        }
        other => panic!("{:?}", other),
    }
    match &parse_tools("<search path=\"\">a>b</search>")[0] {
        Tool::Search { pattern, path } => {
            assert_eq!(pattern, "a>b");
            assert_eq!(path, &Some("".to_string()));
        }
        other => panic!("{:?}", other),
    }
    assert!(parse_tools("<write_file path=\"\">x</write_file>").is_empty());
    assert!(parse_tools("<search>a<b</search>").is_empty());
}
