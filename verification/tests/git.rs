use paladin::git::{
    add_args, checked_outcome, collect_changes, collect_excluded_paths, collection_queries,
    commit_paths, file_diff_paths, file_diff_queries, git_args, has_changes, is_path_in_dir,
    repo_check, should_skip_diff_path, staged_probe_query, use_staged_changes, CommandResult,
    CommitPathsError, FileDiff, GitQuery,
};

fn strings(v: &[&str]) -> Vec<String> {
    v.iter().map(|s| s.to_string()).collect()
}

fn result(output: &str) -> CommandResult {
    CommandResult { command: "git x".to_string(), output: output.to_string(), error: None }
}

#[test]
fn path_in_dir_cases() {
    assert!(is_path_in_dir("dist", "dist"));
    assert!(is_path_in_dir("dist/app.js", "dist"));
    assert!(is_path_in_dir("dist\\app.js", "dist"));
    assert!(!is_path_in_dir("distribution/app.js", "dist"));
    assert!(!is_path_in_dir("src/dist/app.js", "dist"));
    assert!(!is_path_in_dir("dis", "dist"));
    assert!(is_path_in_dir("public/build/x", "public/build"));
}

#[test]
fn skipped_paths() {
    for p in ["Cargo.lock", "package-lock.json", "pnpm-lock.yaml", "yarn.lock", "go.sum", "target/debug/x", "node_modules/a/b.js", ".next/cache", "bin", "public/build/app.js"] {
        assert!(should_skip_diff_path(p), "{p}");
    }
    for p in ["src/main.rs", "Cargo.toml", "sub/Cargo.lock", "public/index.html", "binary.rs"] {
        assert!(!should_skip_diff_path(p), "{p}");
    }
}

#[test]
fn name_only_paths_split() {
    let out = "src/a.rs\r\n  Cargo.lock \n\n target/x\nsrc/b.rs";
    assert_eq!(file_diff_paths(out), strings(&["src/a.rs", "src/b.rs"]));
    assert_eq!(collect_excluded_paths(out), strings(&["Cargo.lock", "target/x"]));
    assert!(file_diff_paths("").is_empty());
    assert!(file_diff_paths(" \n \n").is_empty());
}

#[test]
fn args_for_queries() {
    assert_eq!(git_args(&GitQuery::RepoCheck, false), strings(&["rev-parse", "--is-inside-work-tree"]));
    assert_eq!(git_args(&GitQuery::StagedProbe, false), strings(&["diff", "--staged"]));
    assert_eq!(git_args(&GitQuery::Branch, true), strings(&["branch", "--show-current"]));
    assert_eq!(git_args(&GitQuery::StatusShort, true), strings(&["status", "--short"]));
    assert_eq!(git_args(&GitQuery::DiffStat, true), strings(&["diff", "--staged", "--stat"]));
    assert_eq!(git_args(&GitQuery::DiffStat, false), strings(&["diff", "--stat"]));
    assert_eq!(git_args(&GitQuery::DiffNumstat, false), strings(&["diff", "--numstat"]));
    assert_eq!(git_args(&GitQuery::DiffNameOnly, true), strings(&["diff", "--staged", "--name-only"]));
    assert_eq!(
        git_args(&GitQuery::PathDiff("src/a.rs".to_string()), true),
        strings(&["diff", "--staged", "--", "src/a.rs"])
    );
    let filtered = git_args(&GitQuery::FilteredDiff, false);
    assert_eq!(filtered[..3], strings(&["diff", "--", "."])[..]);
    assert_eq!(filtered.len(), 3 + 22);
    assert_eq!(filtered[3], ":(exclude)Cargo.lock");
    assert_eq!(filtered[24], ":(exclude)bin/**");
}

#[test]
fn command_result_from_output() {
    let args = strings(&["diff", "--stat"]);
    let r = CommandResult::from_output(&args, "out".to_string(), "  \n".to_string());
    assert_eq!(r.command, "git diff --stat");
    assert_eq!(r.output, "out");
    assert_eq!(r.error, None);
    let r = CommandResult::from_output(&args, String::new(), "fatal: x\n".to_string());
    assert_eq!(r.error.as_deref(), Some("fatal: x\n"));
}

#[test]
fn staged_choice() {
    assert!(use_staged_changes(true, ""));
    assert!(use_staged_changes(false, "diff --git a/x b/x"));
    assert!(!use_staged_changes(false, " \n"));
}

fn outputs(diff: &str, name_only: &str) -> Vec<CommandResult> {
    vec![
        result("main\n"),
        result(" M src/a.rs\n"),
        result("1 file changed"),
        result("1\t1\tsrc/a.rs"),
        result(name_only),
        result(diff),
    ]
}

#[test]
fn collect_changes_keeps_small_diff() {
    let changes = collect_changes(true, "", 100, outputs("short diff", "src/a.rs\nCargo.lock\n"), strings(&["a diff"]));
    assert!(changes.staged);
    assert!(!changes.diff_truncated);
    assert_eq!(changes.diff.output, "short diff");
    assert_eq!(changes.file_diffs.len(), 1);
    assert_eq!(changes.file_diffs[0].path, "src/a.rs");
    assert_eq!(changes.file_diffs[0].diff, "a diff");
    assert_eq!(changes.skipped_diff_paths, strings(&["Cargo.lock"]));
    assert_eq!(changes.branch.output, "main\n");
    assert_eq!(changes.status_short.output, " M src/a.rs\n");
    assert_eq!(changes.diff_stat.output, "1 file changed");
    assert_eq!(changes.diff_numstat.output, "1\t1\tsrc/a.rs");
    assert!(has_changes(&changes));
}

#[test]
fn collect_changes_reads_mode_from_probe() {
    let staged = collect_changes(false, "diff --git a b", 100, outputs("d", "a\n"), strings(&["x"]));
    assert!(staged.staged);
    let unstaged = collect_changes(false, "  ", 100, outputs("d", "a\n"), strings(&["x"]));
    assert!(!unstaged.staged);
}

#[test]
fn collect_changes_truncates_large_diff() {
    let changes = collect_changes(false, "", 5, outputs("éééééé", "src/a.rs\n"), strings(&["d"]));
    assert!(!changes.staged);
    assert!(changes.diff_truncated);
    assert_eq!(changes.diff.output, "ééééé\n\n[diff truncated by paladin]");
    let exact = collect_changes(false, "", 6, outputs("éééééé", "src/a.rs\n"), strings(&["d"]));
    assert!(!exact.diff_truncated);
    assert_eq!(exact.diff.output, "éééééé");
}

#[test]
fn no_changes_when_name_only_blank() {
    let changes = collect_changes(false, "", 5, outputs("", "  \n"), Vec::new());
    assert!(!has_changes(&changes));
    assert!(changes.file_diffs.is_empty());
}

#[test]
fn no_changes_when_only_skipped_paths_changed() {
    let changes = collect_changes(false, "", 5, outputs("", "bin\nCargo.lock\n"), Vec::new());
    assert!(!has_changes(&changes));
    assert_eq!(changes.skipped_diff_paths, strings(&["bin", "Cargo.lock"]));
}

#[test]
fn query_plan() {
    assert!(repo_check(true).is_ok());
    assert_eq!(
        repo_check(false).unwrap_err().message(),
        "current directory is not inside a Git repository"
    );
    assert!(staged_probe_query(true).is_none());
    assert_eq!(staged_probe_query(false), Some(strings(&["diff", "--staged"])));
    let staged = collection_queries(true, "");
    assert_eq!(staged.len(), 6);
    assert_eq!(staged[0], strings(&["branch", "--show-current"]));
    assert_eq!(staged[1], strings(&["status", "--short"]));
    assert_eq!(staged[2], strings(&["diff", "--staged", "--stat"]));
    assert_eq!(staged[3], strings(&["diff", "--staged", "--numstat"]));
    assert_eq!(staged[4], strings(&["diff", "--staged", "--name-only"]));
    assert_eq!(staged[5][..4], strings(&["diff", "--staged", "--", "."])[..]);
    let fallback = collection_queries(false, " \n");
    assert_eq!(fallback[2], strings(&["diff", "--stat"]));
    assert_eq!(fallback[4], strings(&["diff", "--name-only"]));
    let something_staged = collection_queries(false, "diff --git");
    assert_eq!(something_staged[2], strings(&["diff", "--staged", "--stat"]));
    assert_eq!(
        file_diff_queries(true, "a.rs\nCargo.lock\n b.rs\n"),
        vec![strings(&["diff", "--staged", "--", "a.rs"]), strings(&["diff", "--staged", "--", "b.rs"])]
    );
}

#[test]
fn checked_outcomes() {
    let args = strings(&["commit", "-m", "fix: x", "--", "a"]);
    assert_eq!(checked_outcome(&args, true, "warning"), Ok(()));
    assert_eq!(
        checked_outcome(&args, false, "error: pathspec"),
        Err("`git commit -m fix: x -- a` failed:\nerror: pathspec".to_string())
    );
}

#[test]
fn commit_paths_args() {
    let args = commit_paths(
        "feat(auth): wire login",
        &strings(&["  - validate credentials", "- - return a token", "plain"]),
        &strings(&["src/auth.rs", "src/db.rs"]),
    )
    .ok()
    .unwrap();
    assert_eq!(
        args,
        strings(&[
            "commit",
            "-m",
            "feat(auth): wire login",
            "-m",
            "- validate credentials\n- return a token\n- plain",
            "--",
            "src/auth.rs",
            "src/db.rs"
        ])
    );
    let no_body = commit_paths("fix: x", &Vec::new(), &strings(&["a"])).ok().unwrap();
    assert_eq!(no_body, strings(&["commit", "-m", "fix: x", "--", "a"]));
}

#[test]
fn commit_paths_refuses_no_files() {
    match commit_paths("fix: x", &Vec::new(), &Vec::new()) {
        Err(e) => {
            assert!(matches!(e, CommitPathsError::NoFiles));
            assert_eq!(e.message(), "cannot create a path-based commit without files");
        }
        Ok(_) => panic!("expected an error"),
    }
}

#[test]
fn add_args_lists_paths() {
    assert_eq!(add_args(&strings(&["a", "b"])), strings(&["add", "-A", "--", "a", "b"]));
}

#[test]
fn file_diff_duplicate() {
    let f = FileDiff { path: "p".to_string(), diff: "d".to_string() };
    let g = f.duplicate();
    assert_eq!(g.path, "p");
    assert_eq!(g.diff, "d");
}
