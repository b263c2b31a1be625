use quark::code::tools::{
    apply_patch_result, err_result, expand_mentions, find_files_result, git_result, glob_match, grep_result,
    is_skipped_entry, listing, mention_paths, plan_extended, read_lines_result, wrote_result, ToolArgs, ToolPlan,
};

fn args() -> ToolArgs {
    ToolArgs {
        path: String::new(),
        pattern: String::new(),
        message: String::new(),
        content: String::new(),
        patch: String::new(),
        n: None,
        start: None,
        end: None,
    }
}

#[test]
fn globs() {
    assert!(glob_match("*.rs", "main.rs"));
    assert!(!glob_match("*.rs", "main.rsx"));
    assert!(glob_match("a?c", "abc"));
    assert!(!glob_match("a?c", "ac"));
    assert!(glob_match("*", ""));
    assert!(glob_match("**x*", "yxz"));
    assert!(!glob_match("", "a"));
}

#[test]
fn error_results() {
    let r = err_result("grep_code", "pattern arg required");
    assert!(!r.ok);
    assert_eq!(r.tool, "grep_code");
    assert_eq!(r.content, "pattern arg required");
}

#[test]
fn find_and_list_sort_their_entries() {
    let r = find_files_result(vec!["src/z.rs".to_string(), "a.rs".to_string(), "src/b.rs".to_string()]);
    assert_eq!(r.content, "a.rs\nsrc/b.rs\nsrc/z.rs");
    assert_eq!(find_files_result(vec![]).content, "No files matched.");
    assert_eq!(listing(vec!["b/".to_string(), "B".to_string(), "a".to_string()]), "B\na\nb/");
    assert_eq!(listing(vec![]), "");
}

#[test]
fn read_lines_shows_the_range() {
    let text = "one\r\ntwo\nthree\n";
    assert_eq!(read_lines_result("f.txt", text, 2, 9).content, "// f.txt lines 2–3\ntwo\nthree");
    assert_eq!(read_lines_result("f.txt", text, 0, 1).content, "// f.txt lines 1–1\none");
    // An empty range shows the whole file.
    assert_eq!(read_lines_result("f.txt", text, 5, 9).content, format!("// f.txt lines 5–3\n{text}"));
}

#[test]
fn tool_reports() {
    let r = git_result(&vec!["log".to_string(), "-5".to_string()], "", "", true);
    assert_eq!(r.tool, "git log -5");
    assert_eq!(r.content, "(no output)");
    let r = git_result(&vec!["status".to_string()], "", "fatal", false);
    assert!(!r.ok);
    assert_eq!(r.content, "fatal");
    assert_eq!(grep_result("").content, "No matches found.");
    assert_eq!(wrote_result("a/b").content, "Wrote a/b");
    assert_eq!(apply_patch_result("x").content, "apply_diff not yet implemented for x; use write_file instead.");
}

#[test]
fn extended_tool_plans() {
    let mut a = args();
    match plan_extended("git_log", &a) {
        ToolPlan::Git(v) => assert_eq!(v, ["log", "--oneline", "-10"]),
        other => panic!("{other:?}"),
    }
    a.n = Some(3);
    match plan_extended("git_log", &a) {
        ToolPlan::Git(v) => assert_eq!(v, ["log", "--oneline", "-3"]),
        other => panic!("{other:?}"),
    }
    match plan_extended("git_commit", &a) {
        ToolPlan::Answer(r) => assert_eq!(r.content, "message arg required"),
        other => panic!("{other:?}"),
    }
    a.path = "src".to_string();
    match plan_extended("git_diff", &a) {
        ToolPlan::Git(v) => assert_eq!(v, ["diff", "--", "src"]),
        other => panic!("{other:?}"),
    }
    a.pattern = "fn".to_string();
    match plan_extended("grep_code", &a) {
        ToolPlan::Grep { pattern, path } => assert_eq!((pattern.as_str(), path.as_str()), ("fn", "src")),
        other => panic!("{other:?}"),
    }
    match plan_extended("read_lines", &a) {
        ToolPlan::ReadLines { start, end, .. } => assert_eq!((start, end), (1, u64::MAX)),
        other => panic!("{other:?}"),
    }
    assert!(matches!(plan_extended("read_file", &a), ToolPlan::Basic));
}

#[test]
fn mentions_expand_to_file_blocks() {
    let input = "explain @src/a.rs and @missing  please";
    let paths = mention_paths(input);
    assert_eq!(paths, vec![None, Some("src/a.rs".to_string()), None, Some("missing".to_string()), None]);
    let contents = vec![None, Some("fn a() {}".to_string()), None, None, None];
    assert_eq!(
        expand_mentions(input, &contents),
        "explain \n<file path=\"src/a.rs\">\nfn a() {}\n</file>\n and @missing please "
    );
    assert!(is_skipped_entry(".git") && is_skipped_entry("target") && !is_skipped_entry("src"));
}
