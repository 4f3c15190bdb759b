use paladin::commit::review::{check_reviewed_plan, settle_plan, ReviewError};
use paladin::commit::schema::{CommitPlan, CommitSuggestion, SchemaError};
use paladin::commit::{
    batch_paths, batched_plan_strategy, build_file_batches, choose_preview_mode, decide_fallback,
    duplicate_file_message, exhausted_message, extract_json_block, finish_suggestion,
    is_confirmation, json_candidate, next_attempt, no_changes_message, plan_batches,
    preview_details, preview_footer, preview_header, preview_list_items, preview_step,
    record_commit_files, retry_prompt, testing_hint, FallbackDecision, PlanError, PreviewKey,
    PreviewMode, fallback_notice, may_apply, preview_start, run_steps, tui_failure_lines, RunStep,
};
use paladin::git::FileDiff;

fn file(path: &str, diff_len: usize) -> FileDiff {
    FileDiff { path: path.to_string(), diff: "x".repeat(diff_len) }
}

fn paths(batches: &[Vec<FileDiff>]) -> Vec<Vec<String>> {
    batches.iter().map(|b| b.iter().map(|f| f.path.clone()).collect()).collect()
}

fn strings(v: &[&str]) -> Vec<String> {
    v.iter().map(|s| s.to_string()).collect()
}

#[test]
fn batches_by_file_count() {
    let files: Vec<FileDiff> = (0..5).map(|i| file(&format!("f{i}"), 1)).collect();
    let b = build_file_batches(&files, 2, 1000);
    assert_eq!(
        paths(&b),
        vec![strings(&["f0", "f1"]), strings(&["f2", "f3"]), strings(&["f4"])]
    );
}

#[test]
fn batches_by_characters() {
    let files = vec![file("a", 300), file("b", 300), file("c", 100), file("d", 600)];
    let b = build_file_batches(&files, 10, 700);
    assert_eq!(paths(&b), vec![strings(&["a", "b", "c"]), strings(&["d"])]);
}

#[test]
fn oversized_file_gets_own_batch() {
    let files = vec![file("small", 10), file("huge", 5000), file("next", 10)];
    let b = build_file_batches(&files, 10, 500);
    assert_eq!(paths(&b), vec![strings(&["small"]), strings(&["huge"]), strings(&["next"])]);
}

#[test]
fn path_length_counts_when_longer_than_diff() {
    let long_path = "p".repeat(400);
    let files = vec![file("a", 200), FileDiff { path: long_path.clone(), diff: String::new() }];
    let b = build_file_batches(&files, 10, 500);
    assert_eq!(b.len(), 2);
}

#[test]
fn empty_input_gives_no_batches() {
    assert!(build_file_batches(&Vec::new(), 3, 100).is_empty());
    assert!(matches!(plan_batches(&Vec::new(), 3, 100, 5), Err(PlanError::NoBatches)));
    assert_eq!(
        PlanError::NoBatches.message(),
        "no file batches available to generate commits"
    );
}

#[test]
fn plan_batches_applies_floors_and_cap() {
    let files: Vec<FileDiff> = (0..6).map(|i| file(&format!("f{i}"), 1)).collect();
    // zero files per batch counts as one, zero commits as one
    let b = plan_batches(&files, 0, 0, 0).ok().unwrap();
    assert_eq!(paths(&b), vec![strings(&["f0"])]);
    let b = plan_batches(&files, 2, 10, 2).ok().unwrap();
    assert_eq!(paths(&b), vec![strings(&["f0", "f1"]), strings(&["f2", "f3"])]);
    assert_eq!(batch_paths(&b[1]), strings(&["f2", "f3"]));
}

#[test]
fn strategy_text() {
    assert_eq!(
        batched_plan_strategy(3),
        "Generated 3 smaller commit batch(es) locally to keep model requests short."
    );
}

#[test]
fn json_block_extraction() {
    assert_eq!(extract_json_block("sure: {\"a\":{\"b\":1}} done"), Some("{\"a\":{\"b\":1}}"));
    assert_eq!(extract_json_block("no braces"), None);
    assert_eq!(extract_json_block("only { open"), None);
    assert_eq!(extract_json_block("}{"), Some(""));
    assert_eq!(extract_json_block("} x {"), None);
    assert_eq!(json_candidate("no json here"), "no json here");
    assert_eq!(json_candidate("```json\n{\"type\":\"fix\"}\n```"), "{\"type\":\"fix\"}");
}

fn suggestion(t: &str, subject: &str, files: &[&str]) -> CommitSuggestion {
    CommitSuggestion {
        commit_type: t.to_string(),
        scope: None,
        subject: subject.to_string(),
        body: Vec::new(),
        risk: "medium".to_string(),
        files: strings(files),
    }
}

#[test]
fn finish_sets_files_and_validates() {
    let s = finish_suggestion(suggestion("fix", "handle x", &["ignored"]), &strings(&["a", "b"]))
        .ok()
        .unwrap();
    assert_eq!(s.files, strings(&["a", "b"]));
    assert_eq!(s.subject, "handle x");
    match finish_suggestion(suggestion("fix", "handle x.", &[]), &strings(&["a"])) {
        Err(SchemaError::SubjectEndsWithPeriod) => {}
        _ => panic!("expected a period error"),
    }
}

#[test]
fn fallback_decisions() {
    assert!(matches!(decide_fallback(&None), FallbackDecision::Fail));
    match decide_fallback(&Some("small".to_string())) {
        FallbackDecision::RetryWith(m) => assert_eq!(m, "small"),
        _ => panic!(),
    }
    assert_eq!(
        fallback_notice("big", "small", true),
        "Primary model `big` failed to load. Retrying with fallback model `small`..."
    );
    assert_eq!(
        fallback_notice("big", "small", false),
        "Primary model `big` failed. Retrying with fallback model `small`..."
    );
}

#[test]
fn confirmation_gate() {
    assert!(may_apply(true, None));
    assert!(!may_apply(false, None));
    assert!(may_apply(false, Some("yes\n")));
    assert!(!may_apply(false, Some("n\n")));
}

fn step_text(s: &RunStep) -> String {
    match s {
        RunStep::Say(t) => format!("say:{t}"),
        RunStep::Interactive => "tui".to_string(),
        RunStep::PrintPlan => "print".to_string(),
        RunStep::AskConfirmation => "ask".to_string(),
    }
}

#[test]
fn run_step_plans() {
    let steps: Vec<String> = run_steps(PreviewMode::Plain, false).iter().map(step_text).collect();
    assert_eq!(steps, vec!["print", "ask"]);
    let steps: Vec<String> = run_steps(PreviewMode::PlainNotTerminal, true).iter().map(step_text).collect();
    assert_eq!(
        steps,
        vec!["say:Interactive preview unavailable because stdout is not a terminal.", "print"]
    );
    let steps: Vec<String> = run_steps(PreviewMode::Interactive, false).iter().map(step_text).collect();
    assert_eq!(
        steps,
        vec![
            "say:Opening interactive commit preview...",
            "say:Use arrow keys to switch commits, then press Enter to continue.",
            "tui",
            "say:",
            "say:Commit preview summary:",
            "print",
            "ask"
        ]
    );
    assert_eq!(
        tui_failure_lines("no tty"),
        vec!["Interactive preview unavailable: no tty", "Falling back to plain-text preview."]
    );
    assert_eq!(preview_start(0), None);
    assert_eq!(preview_start(3), Some(0));
}

#[test]
fn hint_text() {
    let h = testing_hint("gemma4:e4b", None);
    assert_eq!(h, "Testing tips:\n- Try a smaller or more reliable local model, for example `cargo run -- commit --model qwen2.5-coder:7b`\n- Verify Ollama can run the model directly with `ollama run gemma4:e4b`\n- If the model keeps ignoring the JSON schema, try another coding model");
    let h = testing_hint("m", Some("f"));
    assert!(h.ends_with("\n- You can also set a fallback now: `cargo run -- commit --fallback-model f`"));
}

#[test]
fn retries() {
    assert_eq!(next_attempt(0, 2), Some(1));
    assert_eq!(next_attempt(1, 2), Some(2));
    assert_eq!(next_attempt(2, 2), None);
    assert_eq!(next_attempt(0, 0), None);
    assert_eq!(
        retry_prompt("P", "E", "R"),
        "P\n\nYour previous reply was invalid.\nValidation error: E\nReturn corrected JSON only.\nDo not return tool calls.\nPrevious invalid reply:\nR"
    );
    assert_eq!(
        exhausted_message(2, "R"),
        "model did not return a valid commit suggestion after 3 attempt(s)\nlast response:\nR"
    );
}

#[test]
fn recording_files() {
    let mut seen = Vec::new();
    assert_eq!(record_commit_files(&mut seen, &strings(&["a", "b"])), Ok(()));
    assert_eq!(seen, strings(&["a", "b"]));
    assert_eq!(record_commit_files(&mut seen, &strings(&["c", "b"])), Err("b".to_string()));
    let mut fresh = Vec::new();
    assert_eq!(record_commit_files(&mut fresh, &strings(&["x", "y", "x"])), Err("x".to_string()));
    assert_eq!(duplicate_file_message("b"), "duplicate file in applied plan: b");
}

#[test]
fn confirmations() {
    for yes in ["y", "Y", "yes", "YES", "Yes", " yes\n", "\ty \r\n"] {
        assert!(is_confirmation(yes), "{yes:?}");
    }
    for no in ["", "n", "no", "ye", "yess", "y e s", "sí"] {
        assert!(!is_confirmation(no), "{no:?}");
    }
}

#[test]
fn preview_modes_and_keys() {
    assert!(matches!(choose_preview_mode(true, true), PreviewMode::Plain));
    assert!(matches!(choose_preview_mode(false, false), PreviewMode::PlainNotTerminal));
    assert!(matches!(choose_preview_mode(false, true), PreviewMode::Interactive));
    assert_eq!(preview_step(0, 3, PreviewKey::Previous), Some(0));
    assert_eq!(preview_step(2, 3, PreviewKey::Previous), Some(1));
    assert_eq!(preview_step(1, 3, PreviewKey::Next), Some(2));
    assert_eq!(preview_step(2, 3, PreviewKey::Next), Some(2));
    assert_eq!(preview_step(0, 0, PreviewKey::Next), Some(0));
    assert_eq!(preview_step(1, 3, PreviewKey::Other), Some(1));
    assert_eq!(preview_step(1, 3, PreviewKey::Exit), None);
    assert_eq!(preview_header(0, 2), "Commit plan preview  1/2");
    assert_eq!(preview_footer(false), "Arrows: switch commit  Enter/Esc/q: exit preview");
    assert!(preview_footer(true).ends_with("Note: diff was truncated"));
}

#[test]
fn preview_contents() {
    let mut s = suggestion("feat", "add login", &["src/a.rs"]);
    s.scope = Some("auth".to_string());
    s.body = strings(&["- check hash"]);
    assert_eq!(
        preview_details(&s),
        strings(&["feat(auth): add login", "", "Risk: medium", "", "Body:", "- check hash", "", "Files:", "- src/a.rs"])
    );
    let plain = suggestion("fix", "x", &[]);
    assert_eq!(
        preview_details(&plain),
        strings(&["fix: x", "", "Risk: medium", "", "Body:", "- no body", "", "Files:"])
    );
    assert_eq!(
        preview_list_items(&vec![s, plain]),
        strings(&["1. feat(auth): add login", "2. fix: x"])
    );
}

#[test]
fn messages() {
    assert_eq!(no_changes_message(true), "no staged changes found");
    assert_eq!(no_changes_message(false), "no changes found");
}

#[test]
fn review_accepts_exact_cover() {
    let allowed = strings(&["a", "b", "c"]);
    let plan = CommitPlan::from_commits(
        "grouped".to_string(),
        vec![suggestion("feat", "x", &["b", "a"]), suggestion("docs", "y", &["c"])],
    );
    assert!(check_reviewed_plan(&plan, &allowed, 5).is_ok());
}

#[test]
fn review_refusals() {
    let allowed = strings(&["a", "b"]);
    let check = |commits: Vec<CommitSuggestion>| {
        check_reviewed_plan(&CommitPlan::from_commits(String::new(), commits), &allowed, 5)
    };
    match check(vec![suggestion("feat", "x", &["a", "z"])]) {
        Err(ReviewError::UnknownFile(p)) => assert_eq!(p, "z"),
        _ => panic!(),
    }
    match check(vec![suggestion("feat", "x", &["a"]), suggestion("fix", "y", &["a", "b"])]) {
        Err(ReviewError::DuplicateFile(p)) => assert_eq!(p, "a"),
        _ => panic!(),
    }
    match check(vec![suggestion("feat", "x", &["b"])]) {
        Err(ReviewError::MissingFile(p)) => assert_eq!(p, "a"),
        _ => panic!(),
    }
    assert!(matches!(check(vec![suggestion("feat", "x", &[])]), Err(ReviewError::EmptyCommit)));
    match check(vec![suggestion("oops", "x", &["a", "b"])]) {
        Err(e) => {
            assert_eq!(e.message(), "reviewed plan has an invalid commit: invalid commit type: oops");
        }
        _ => panic!(),
    }
}

#[test]
fn review_limits_commit_count() {
    let allowed = strings(&["a", "b"]);
    let plan = CommitPlan::from_commits(
        String::new(),
        vec![suggestion("feat", "x", &["a"]), suggestion("fix", "y", &["b"])],
    );
    assert!(check_reviewed_plan(&plan, &allowed, 2).is_ok());
    match check_reviewed_plan(&plan, &allowed, 1) {
        Err(e @ ReviewError::TooManyCommits) => {
            assert_eq!(e.message(), "reviewed plan has more commits than allowed")
        }
        _ => panic!(),
    }
    assert!(matches!(check_reviewed_plan(&plan, &allowed, 0), Err(ReviewError::TooManyCommits)));
}

#[test]
fn settle_prefers_valid_review() {
    let allowed = strings(&["a"]);
    let batched = CommitPlan::from_commits("batched".to_string(), vec![suggestion("feat", "x", &["a"])]);
    let reviewed = CommitPlan::from_commits("reviewed".to_string(), vec![suggestion("fix", "y", &["a"])]);
    let (plan, err) = settle_plan(batched, reviewed, &allowed, 5);
    assert_eq!(plan.strategy, "reviewed");
    assert!(err.is_none());
    let batched = CommitPlan::from_commits("batched".to_string(), vec![suggestion("feat", "x", &["a"])]);
    let bad = CommitPlan::from_commits("reviewed".to_string(), vec![]);
    let (plan, err) = settle_plan(batched, bad, &allowed, 5);
    assert_eq!(plan.strategy, "batched");
    assert_eq!(err.unwrap().message(), "reviewed plan leaves out a file: a");
}
