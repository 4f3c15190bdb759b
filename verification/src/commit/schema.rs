use vstd::prelude::*;

use crate::text::{contains_char, ends_with, ends_with_char, is_blank, str_eq, trim_str, trimmed};
use vstd::string::{StringExecFns, StrSliceExecFns};

verus! {

/// One conventional commit proposed by the model.
pub struct CommitSuggestion {
    /// The conventional commit type, such as `feat` or `fix`.
    pub commit_type: String,
    pub scope: Option<String>,
    pub subject: String,
    pub body: Vec<String>,
    /// The model's estimate of the change's risk: `low`, `medium` or `high`.
    pub risk: String,
    /// The files that this commit covers.
    pub files: Vec<String>,
}

/// A whole commit plan: how the changes were grouped, and the commits in order.
pub struct CommitPlan {
    pub strategy: String,
    pub commits: Vec<CommitSuggestion>,
}

/// Why a suggestion was rejected.
pub enum SchemaError {
    InvalidCommitType(String),
    EmptySubject,
    SubjectEndsWithPeriod,
    SubjectTooLong,
    EmptyScope,
    ScopeContainsSpace,
}

/// The conventional commit types that a suggestion may use.
pub open spec fn is_allowed_commit_type(t: Seq<char>) -> bool {
    ||| t == "feat"@
    ||| t == "fix"@
    ||| t == "docs"@
    ||| t == "style"@
    ||| t == "refactor"@
    ||| t == "test"@
    ||| t == "chore"@
    ||| t == "build"@
    ||| t == "ci"@
    ||| t == "perf"@
    ||| t == "revert"@
}

/// The longest subject accepted is one character under this.
pub const SUBJECT_LIMIT: usize = 72;

/// What `validate` answers: the first rule that the suggestion breaks, in the order
/// type, subject, scope.
pub open spec fn validation(s: CommitSuggestion) -> Result<(), SchemaError> {
    if !is_allowed_commit_type(s.commit_type@) {
        Err(SchemaError::InvalidCommitType(s.commit_type))
    } else if trimmed(s.subject@).len() == 0 {
        Err(SchemaError::EmptySubject)
    } else if ends_with(trimmed(s.subject@), '.') {
        Err(SchemaError::SubjectEndsWithPeriod)
    } else if s.subject@.len() >= SUBJECT_LIMIT {
        Err(SchemaError::SubjectTooLong)
    } else {
        match s.scope {
            Some(scope) => if trimmed(scope@).len() == 0 {
                Err(SchemaError::EmptyScope)
            } else if scope@.contains(' ') {
                Err(SchemaError::ScopeContainsSpace)
            } else {
                Ok(())
            },
            None => Ok(()),
        }
    }
}

/// Only a subject whose trimmed text ends in `.` is refused for its period, and a
/// suggestion with an allowed type, a subject that is shorter than 72 characters, not blank
/// once trimmed and whose trimmed text does not end in `.` (periods elsewhere are fine),
/// and either no scope or a non-blank scope without spaces, is accepted.
pub proof fn lemma_period_only_at_end(s: CommitSuggestion)
    ensures
        validation(s) == Err::<(), SchemaError>(SchemaError::SubjectEndsWithPeriod) ==> {
            let t = trimmed(s.subject@);
            t.len() > 0 && t[t.len() - 1] == '.'
        },
        ({
            let t = trimmed(s.subject@);
            &&& is_allowed_commit_type(s.commit_type@)
            &&& t.len() > 0
            &&& t[t.len() - 1] != '.'
            &&& s.subject@.len() < 72
            &&& match s.scope {
                Some(sc) => trimmed(sc@).len() > 0 && !sc@.contains(' '),
                None => true,
            }
        }) ==> validation(s) == Ok::<(), SchemaError>(()),
{
}

/// Each refusal names a rule that the suggestion really breaks: an unknown type (reported
/// as given), a blank subject, a subject of 72 characters or more, a blank scope, or a
/// scope with a space.
pub proof fn lemma_refusal_has_its_cause(s: CommitSuggestion)
    ensures
        validation(s) matches Err(SchemaError::InvalidCommitType(v)) ==> v == s.commit_type
            && !is_allowed_commit_type(s.commit_type@),
        validation(s) == Err::<(), SchemaError>(SchemaError::EmptySubject) ==> trimmed(
            s.subject@,
        ).len() == 0,
        validation(s) == Err::<(), SchemaError>(SchemaError::SubjectTooLong) ==> s.subject@.len()
            >= 72,
        validation(s) == Err::<(), SchemaError>(SchemaError::EmptyScope) ==> (s.scope matches Some(
            sc,
        ) && trimmed(sc@).len() == 0),
        validation(s) == Err::<(), SchemaError>(SchemaError::ScopeContainsSpace) ==> (
        s.scope matches Some(sc) && sc@.contains(' ')),
{
}

/// The scope that appears in the message: the trimmed scope, when it is not blank.
pub open spec fn message_scope(scope: Option<String>) -> Option<Seq<char>> {
    match scope {
        Some(sc) => if trimmed(sc@).len() > 0 {
            Some(trimmed(sc@))
        } else {
            None
        },
        None => None,
    }
}

/// `type(scope): subject`, or `type: subject` without a scope.
pub open spec fn message_of(s: CommitSuggestion) -> Seq<char> {
    match message_scope(s.scope) {
        Some(scope) => trimmed(s.commit_type@) + "("@ + scope + "): "@ + trimmed(s.subject@),
        None => trimmed(s.commit_type@) + ": "@ + trimmed(s.subject@),
    }
}

/// The message names the scope: with a scope that is not blank once trimmed, the message
/// is the trimmed type, the trimmed scope in brackets, `: ` and the trimmed subject;
/// without one, the trimmed type, `: ` and the trimmed subject.
pub proof fn lemma_message_names_scope(s: CommitSuggestion)
    ensures
        (s.scope matches Some(sc) && trimmed(sc@).len() > 0) ==> message_of(s) == trimmed(
            s.commit_type@,
        ) + "("@ + trimmed(s.scope.unwrap()@) + "): "@ + trimmed(s.subject@),
        !(s.scope matches Some(sc) && trimmed(sc@).len() > 0) ==> message_of(s) == trimmed(
            s.commit_type@,
        ) + ": "@ + trimmed(s.subject@),
{
}

/// Checks the commit type against the allowed list (exact match).
fn validate_commit_type(value: &String) -> (r: Result<(), SchemaError>)
    ensures
        r is Ok <==> is_allowed_commit_type(value@),
        r matches Err(e) ==> e == SchemaError::InvalidCommitType(*value),
{
    let v = value.as_str();
    if str_eq(v, "feat") || str_eq(v, "fix") || str_eq(v, "docs") || str_eq(v, "style")
        || str_eq(v, "refactor") || str_eq(v, "test") || str_eq(v, "chore") || str_eq(v, "build")
        || str_eq(v, "ci") || str_eq(v, "perf") || str_eq(v, "revert") {
        return Ok(());
    }
    Err(SchemaError::InvalidCommitType(value.clone()))
}


/// The text that each error is reported with.
pub open spec fn schema_error_text(e: SchemaError) -> Seq<char> {
    match e {
        SchemaError::InvalidCommitType(value) => "invalid commit type: "@ + value@,
        SchemaError::EmptySubject => "commit subject is empty"@,
        SchemaError::SubjectEndsWithPeriod => "commit subject must not end with a period"@,
        SchemaError::SubjectTooLong => "commit subject must be under 72 characters"@,
        SchemaError::EmptyScope => "commit scope is empty"@,
        SchemaError::ScopeContainsSpace => "commit scope must not contain spaces"@,
    }
}

impl SchemaError {
    /// The error's text.
    pub fn message(&self) -> (r: String)
        ensures
            r@ == schema_error_text(*self),
    {
        match self {
            SchemaError::InvalidCommitType(value) => {
                let mut r = String::from_str("invalid commit type: ");
                r.append(value.as_str());
                r
            },
            SchemaError::EmptySubject => String::from_str("commit subject is empty"),
            SchemaError::SubjectEndsWithPeriod => String::from_str(
                "commit subject must not end with a period",
            ),
            SchemaError::SubjectTooLong => String::from_str(
                "commit subject must be under 72 characters",
            ),
            SchemaError::EmptyScope => String::from_str("commit scope is empty"),
            SchemaError::ScopeContainsSpace => String::from_str(
                "commit scope must not contain spaces",
            ),
        }
    }
}

impl CommitSuggestion {
    /// Checks the suggestion against the commit rules: an allowed type, a subject that is
    /// not blank, does not end with a period and is under 72 characters, and a scope, when
    /// there is one, that is not blank and has no space.
    pub fn validate(&self) -> (r: Result<(), SchemaError>)
        ensures
            r == validation(*self),
    {
        validate_commit_type(&self.commit_type)?;
        let subject = trim_str(self.subject.as_str());
        if subject.unicode_len() == 0 {
            return Err(SchemaError::EmptySubject);
        }
        if ends_with_char(subject, '.') {
            return Err(SchemaError::SubjectEndsWithPeriod);
        }
        if self.subject.as_str().unicode_len() >= SUBJECT_LIMIT {
            return Err(SchemaError::SubjectTooLong);
        }
        match &self.scope {
            Some(scope) => {
                if is_blank(scope.as_str()) {
                    return Err(SchemaError::EmptyScope);
                }
                if contains_char(scope.as_str(), ' ') {
                    return Err(SchemaError::ScopeContainsSpace);
                }
            },
            None => {},
        }
        Ok(())
    }

    /// The commit message's first line: `type(scope): subject`, each part trimmed; the
    /// scope is left out when it is missing or blank.
    pub fn commit_message(&self) -> (r: String)
        ensures
            r@ == message_of(*self),
    {
        let subject = trim_str(self.subject.as_str());
        let mut msg = String::from_str(trim_str(self.commit_type.as_str()));
        match &self.scope {
            Some(scope) => {
                let scope = trim_str(scope.as_str());
                if scope.unicode_len() > 0 {
                    msg.append("(");
                    msg.append(scope);
                    msg.append("): ");
                    msg.append(subject);
                    return msg;
                }
            },
            None => {},
        }
        msg.append(": ");
        msg.append(subject);
        msg
    }
}

impl CommitPlan {
    /// A plan from its strategy and its commits.
    pub fn from_commits(strategy: String, commits: Vec<CommitSuggestion>) -> (r: CommitPlan)
        ensures
            r.strategy == strategy,
            r.commits == commits,
    {
        CommitPlan { strategy, commits }
    }
}

} // verus!
