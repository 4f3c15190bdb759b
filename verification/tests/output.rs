use paladin::commit::schema::{CommitPlan, CommitSuggestion};
use paladin::output::printer::{commit_plan_lines, PlanLine};

fn text(l: &PlanLine) -> String {
    match l {
        PlanLine::Blank => String::new(),
        PlanLine::Heading(s) => format!("H:{s}"),
        PlanLine::Strategy(s) => format!("S:{s}"),
        PlanLine::Message(s) => format!("M:{s}"),
        PlanLine::Item(s) => format!("I:{s}"),
        PlanLine::Note(s) => format!("N:{s}"),
    }
}

#[test]
fn readme_example_layout() {
    let plan = CommitPlan::from_commits(
        " Split auth logic from CLI wiring so each commit stays reviewable. ".to_string(),
        vec![
            CommitSuggestion {
                commit_type: "feat".to_string(),
                scope: Some("auth".to_string()),
                subject: "wire login flow to database".to_string(),
                body: vec![
                    "validate credentials using stored bcrypt hashes".to_string(),
                    "- return an access token after successful authentication".to_string(),
                ],
                risk: "medium".to_string(),
                files: vec!["src/auth.rs".to_string(), "src/db.rs".to_string()],
            },
            CommitSuggestion {
                commit_type: "refactor".to_string(),
                scope: Some("cli".to_string()),
                subject: "simplify login command flow".to_string(),
                body: vec![],
                risk: "low".to_string(),
                files: vec!["src/cli.rs".to_string()],
            },
        ],
    );
    let lines: Vec<String> = commit_plan_lines(&plan, true).iter().map(text).collect();
    assert_eq!(
        lines,
        vec![
            "",
            "H:Suggested commit plan:",
            "S:Split auth logic from CLI wiring so each commit stays reviewable.",
            "",
            "H:Commit 1",
            "M:feat(auth): wire login flow to database",
            "",
            "H:Body:",
            "I:- validate credentials using stored bcrypt hashes",
            "I:- return an access token after successful authentication",
            "",
            "H:Files:",
            "I:- src/auth.rs",
            "I:- src/db.rs",
            "",
            "H:Commit 2",
            "M:refactor(cli): simplify login command flow",
            "",
            "H:Files:",
            "I:- src/cli.rs",
            "",
            "N:Note: diff was truncated before being sent to the model.",
        ]
    );
}

#[test]
fn blank_strategy_is_left_out() {
    let plan = CommitPlan::from_commits("  ".to_string(), vec![]);
    let lines: Vec<String> = commit_plan_lines(&plan, false).iter().map(text).collect();
    assert_eq!(lines, vec!["", "H:Suggested commit plan:"]);
}
