use paladin::commit::prompt::{
    allowed_files, build_batch_commit_prompt, build_plan_review_prompt, truncate_chars,
};
use paladin::commit::schema::CommitSuggestion;
use paladin::git::FileDiff;

fn file(path: &str, diff: &str) -> FileDiff {
    FileDiff { path: path.to_string(), diff: diff.to_string() }
}

#[test]
fn truncate_marks_cut() {
    assert_eq!(truncate_chars("abc", 3), "abc");
    assert_eq!(truncate_chars("abcd", 3), "abc\n[per-file diff truncated by paladin]");
}

#[test]
fn batch_prompt_lists_files_and_diffs() {
    let batch = vec![file("src/a.rs", "  +a\n"), file("src/b.rs", "-b")];
    let p = build_batch_commit_prompt(&batch, 900);
    assert!(p.starts_with("\nTask: analyze the provided Git diff batch"));
    assert!(p.contains("Files in this batch:\nsrc/a.rs\nsrc/b.rs\n\nPer-file diffs:\nFILE: src/a.rs\n+a\n\n\nFILE: src/b.rs\n-b\n\nReturn ONLY the JSON object.\n"));
    assert!(p.ends_with("Return ONLY the JSON object.\n"));
    assert!(p.contains("{\n  \"type\": \"feat\",\n  \"scope\": null,"));
}

#[test]
fn batch_prompt_truncates_with_floor_of_200() {
    let long = "x".repeat(300);
    let batch = vec![file("a", &long)];
    let p = build_batch_commit_prompt(&batch, 10);
    let expected = format!("FILE: a\n{}\n[per-file diff truncated by paladin]\n\nReturn", "x".repeat(200));
    assert!(p.contains(&expected));
    let p = build_batch_commit_prompt(&batch, 250);
    assert!(p.contains(&format!("FILE: a\n{}\n[per-file", "x".repeat(250))));
}

fn suggestion(t: &str, subject: &str, body: &[&str], files: &[&str]) -> CommitSuggestion {
    CommitSuggestion {
        commit_type: t.to_string(),
        scope: None,
        subject: subject.to_string(),
        body: body.iter().map(|s| s.to_string()).collect(),
        risk: "low".to_string(),
        files: files.iter().map(|s| s.to_string()).collect(),
    }
}

#[test]
fn review_prompt_lists_candidates() {
    let s = vec![
        suggestion("feat", "add login", &["- check hash", " keep it short "], &["src/a.rs", "src/b.rs"]),
        suggestion("docs", "update readme", &[], &["README.md"]),
    ];
    assert_eq!(allowed_files(&s), vec!["src/a.rs", "src/b.rs", "README.md"]);
    let p = build_plan_review_prompt(&s, 0);
    assert!(p.contains("- Prefer between 1 and 1 files per commit when reasonable."));
    assert!(p.contains("Allowed files:\nsrc/a.rs\nsrc/b.rs\nREADME.md\n\nCandidate commit parts:\n"));
    assert!(p.contains("Candidate 1:\n- message: feat: add login\n- risk: low\n- files:\n  - src/a.rs\n  - src/b.rs\n- body:\n  - check hash\n  - keep it short\n\nCandidate 2:\n- message: docs: update readme\n- risk: low\n- files:\n  - README.md\n- body:\n  - none\n\nReturn ONLY the JSON object.\n"));
    let p = build_plan_review_prompt(&s, 4);
    assert!(p.contains("- Prefer between 1 and 4 files per commit when reasonable."));
}
