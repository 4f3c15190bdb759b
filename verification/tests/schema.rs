use paladin::commit::schema::{CommitPlan, CommitSuggestion, SchemaError};

fn suggestion(commit_type: &str, scope: Option<&str>, subject: &str) -> CommitSuggestion {
    CommitSuggestion {
        commit_type: commit_type.to_string(),
        scope: scope.map(|s| s.to_string()),
        subject: subject.to_string(),
        body: Vec::new(),
        risk: "low".to_string(),
        files: Vec::new(),
    }
}

#[test]
fn message_with_scope() {
    let s = suggestion(" feat ", Some(" auth "), " wire login flow to database ");
    assert_eq!(s.commit_message(), "feat(auth): wire login flow to database");
}

#[test]
fn message_without_scope() {
    let s = suggestion("refactor", None, "simplify login command flow");
    assert_eq!(s.commit_message(), "refactor: simplify login command flow");
}

#[test]
fn message_drops_blank_scope() {
    let s = suggestion("fix", Some("   "), "handle missing body");
    assert_eq!(s.commit_message(), "fix: handle missing body");
}

#[test]
fn validate_accepts_every_allowed_type() {
    for t in [
        "feat", "fix", "docs", "style", "refactor", "test", "chore", "build", "ci", "perf",
        "revert",
    ] {
        assert!(suggestion(t, Some("cli"), "simplify login command flow").validate().is_ok(), "{t}");
    }
}

#[test]
fn validate_rejects_unknown_type() {
    match suggestion("feature", None, "add x").validate() {
        Err(SchemaError::InvalidCommitType(t)) => assert_eq!(t, "feature"),
        _ => panic!("expected an invalid type"),
    }
    let e = suggestion("feature", None, "add x").validate().unwrap_err();
    assert_eq!(e.message(), "invalid commit type: feature");
}

#[test]
fn validate_type_is_not_trimmed() {
    assert!(matches!(
        suggestion(" feat", None, "add x").validate(),
        Err(SchemaError::InvalidCommitType(_))
    ));
}

#[test]
fn validate_rejects_blank_subject() {
    let e = suggestion("feat", None, "  \t ").validate().unwrap_err();
    assert!(matches!(e, SchemaError::EmptySubject));
    assert_eq!(e.message(), "commit subject is empty");
}

#[test]
fn validate_rejects_trailing_period() {
    let e = suggestion("feat", None, "add login. ").validate().unwrap_err();
    assert!(matches!(e, SchemaError::SubjectEndsWithPeriod));
    assert_eq!(e.message(), "commit subject must not end with a period");
}

#[test]
fn validate_subject_length_limit() {
    let ok = "a".repeat(71);
    assert!(suggestion("feat", None, &ok).validate().is_ok());
    let long = "a".repeat(72);
    let e = suggestion("feat", None, &long).validate().unwrap_err();
    assert!(matches!(e, SchemaError::SubjectTooLong));
    assert_eq!(e.message(), "commit subject must be under 72 characters");
    // characters, not bytes
    let wide = "é".repeat(71);
    assert!(suggestion("feat", None, &wide).validate().is_ok());
}

#[test]
fn validate_rejects_bad_scope() {
    let e = suggestion("feat", Some(" "), "add x").validate().unwrap_err();
    assert!(matches!(e, SchemaError::EmptyScope));
    assert_eq!(e.message(), "commit scope is empty");
    let e = suggestion("feat", Some("git cli"), "add x").validate().unwrap_err();
    assert!(matches!(e, SchemaError::ScopeContainsSpace));
    assert_eq!(e.message(), "commit scope must not contain spaces");
}

#[test]
fn validate_checks_type_before_subject() {
    let e = suggestion("nope", None, "").validate().unwrap_err();
    assert!(matches!(e, SchemaError::InvalidCommitType(_)));
}

#[test]
fn plan_from_commits_keeps_both() {
    let plan = CommitPlan::from_commits("s".to_string(), vec![suggestion("feat", None, "a")]);
    assert_eq!(plan.strategy, "s");
    assert_eq!(plan.commits.len(), 1);
}
