use vstd::prelude::*;

use crate::commit::contains_string;
use crate::commit::schema::{validation, CommitPlan, CommitSuggestion, SchemaError};
use crate::text::views;
use vstd::string::StringExecFns;

verus! {

/// Why a reviewed plan was refused.
pub enum ReviewError {
    /// The plan has more commits than the limit.
    TooManyCommits,
    /// A commit breaks the commit rules.
    InvalidCommit(SchemaError),
    /// A commit has no files.
    EmptyCommit,
    /// A file that is not one of the allowed files.
    UnknownFile(String),
    /// A file that the plan uses twice.
    DuplicateFile(String),
    /// An allowed file that the plan leaves out.
    MissingFile(String),
}

/// What checking a reviewed plan concludes.
pub enum ReviewOutcome {
    Accepted,
    TooManyCommits,
    InvalidCommit(SchemaError),
    EmptyCommit,
    UnknownFile(Seq<char>),
    DuplicateFile(Seq<char>),
    MissingFile(Seq<char>),
}

/// The conclusion that a check's result stands for.
pub open spec fn outcome_of(r: Result<(), ReviewError>) -> ReviewOutcome {
    match r {
        Ok(()) => ReviewOutcome::Accepted,
        Err(ReviewError::TooManyCommits) => ReviewOutcome::TooManyCommits,
        Err(ReviewError::InvalidCommit(e)) => ReviewOutcome::InvalidCommit(e),
        Err(ReviewError::EmptyCommit) => ReviewOutcome::EmptyCommit,
        Err(ReviewError::UnknownFile(p)) => ReviewOutcome::UnknownFile(p@),
        Err(ReviewError::DuplicateFile(p)) => ReviewOutcome::DuplicateFile(p@),
        Err(ReviewError::MissingFile(p)) => ReviewOutcome::MissingFile(p@),
    }
}

/// Checking the files of one commit, in order, after the files `seen` of the commits
/// before it: the files seen so far, or the first file that is unknown or repeated.
pub open spec fn scan_files(files: Seq<Seq<char>>, allowed: Seq<Seq<char>>, seen: Seq<Seq<char>>) -> Result<
    Seq<Seq<char>>,
    ReviewOutcome,
>
    decreases files.len(),
{
    if files.len() == 0 {
        Ok(seen)
    } else if !allowed.contains(files[0]) {
        Err(ReviewOutcome::UnknownFile(files[0]))
    } else if seen.contains(files[0]) {
        Err(ReviewOutcome::DuplicateFile(files[0]))
    } else {
        scan_files(files.drop_first(), allowed, seen.push(files[0]))
    }
}

/// Checking the commits in order: each must follow the commit rules, have files, and use
/// only allowed files not used before.
pub open spec fn scan_commits(
    commits: Seq<CommitSuggestion>,
    allowed: Seq<Seq<char>>,
    seen: Seq<Seq<char>>,
) -> Result<Seq<Seq<char>>, ReviewOutcome>
    decreases commits.len(),
{
    if commits.len() == 0 {
        Ok(seen)
    } else {
        let c = commits[0];
        match validation(c) {
            Err(e) => Err(ReviewOutcome::InvalidCommit(e)),
            Ok(()) => if c.files@.len() == 0 {
                Err(ReviewOutcome::EmptyCommit)
            } else {
                match scan_files(views(c.files@), allowed, seen) {
                    Err(o) => Err(o),
                    Ok(next) => scan_commits(commits.drop_first(), allowed, next),
                }
            },
        }
    }
}

/// The first allowed file that was not used, if any.
pub open spec fn first_missing(allowed: Seq<Seq<char>>, used: Seq<Seq<char>>) -> Option<Seq<char>>
    decreases allowed.len(),
{
    if allowed.len() == 0 {
        None
    } else if !used.contains(allowed[0]) {
        Some(allowed[0])
    } else {
        first_missing(allowed.drop_first(), used)
    }
}

/// The most commits a plan may have: `max_commits`, and at least one.
pub open spec fn commit_cap(max_commits: nat) -> nat {
    if max_commits < 1 {
        1
    } else {
        max_commits
    }
}

/// The verdict on a reviewed plan: it may have at most `commit_cap(max_commits)` commits,
/// its commits are checked in order, then every allowed file must have been used.
pub open spec fn review_outcome(plan: CommitPlan, allowed: Seq<Seq<char>>, max_commits: nat) -> ReviewOutcome {
    if plan.commits@.len() > commit_cap(max_commits) {
        ReviewOutcome::TooManyCommits
    } else {
        scan_outcome(plan, allowed)
    }
}

/// The verdict on a plan's commits and files.
pub open spec fn scan_outcome(plan: CommitPlan, allowed: Seq<Seq<char>>) -> ReviewOutcome {
    match scan_commits(plan.commits@, allowed, Seq::empty()) {
        Err(o) => o,
        Ok(used) => match first_missing(allowed, used) {
            Some(p) => ReviewOutcome::MissingFile(p),
            None => ReviewOutcome::Accepted,
        },
    }
}

fn check_files(files: &Vec<String>, allowed: &Vec<String>, seen: &mut Vec<String>) -> (r: Result<(), ReviewError>)
    ensures
        match scan_files(views(files@), views(allowed@), views(old(seen)@)) {
            Ok(next) => r is Ok && views(final(seen)@) == next,
            Err(o) => r is Err && outcome_of(r) == o,
        },
{
    let ghost all = views(files@);
    let ghost start = views(seen@);
    let mut i: usize = 0;
    assert(all.skip(0) =~= all);
    while i < files.len()
        invariant
            i <= files.len(),
            all == views(files@),
            start == views(old(seen)@),
            scan_files(all, views(allowed@), start) == scan_files(
                all.skip(i as int),
                views(allowed@),
                views(seen@),
            ),
        decreases files.len() - i,
    {
        let path = &files[i];
        assert(all.skip(i as int)[0] == path@);
        assert(all.skip(i as int).drop_first() =~= all.skip(i + 1));
        if !contains_string(allowed, path.as_str()) {
            return Err(ReviewError::UnknownFile(path.clone()));
        }
        if contains_string(seen, path.as_str()) {
            return Err(ReviewError::DuplicateFile(path.clone()));
        }
        let ghost prev = views(seen@);
        seen.push(path.clone());
        assert(views(seen@) =~= prev.push(path@));
        i = i + 1;
    }
    assert(all.skip(files.len() as int) =~= Seq::<Seq<char>>::empty());
    Ok(())
}

/// Checks a plan that the model returned after reviewing the candidates: it may have at
/// most `max_commits` commits (at least one), every commit must follow the commit rules
/// and have files, and together the commits must use each allowed file exactly once and no
/// other file.
pub fn check_reviewed_plan(plan: &CommitPlan, allowed_files: &Vec<String>, max_commits: usize) -> (r:
    Result<(), ReviewError>)
    ensures
        outcome_of(r) == review_outcome(*plan, views(allowed_files@), max_commits as nat),
{
    let cap: usize = if max_commits < 1 {
        1
    } else {
        max_commits
    };
    if plan.commits.len() > cap {
        return Err(ReviewError::TooManyCommits);
    }
    let ghost commits = plan.commits@;
    let ghost allowed = views(allowed_files@);
    let mut seen: Vec<String> = Vec::new();
    let mut i: usize = 0;
    assert(commits.skip(0) =~= commits);
    assert(views(seen@) =~= Seq::<Seq<char>>::empty());
    while i < plan.commits.len()
        invariant
            i <= plan.commits.len(),
            commits == plan.commits@,
            allowed == views(allowed_files@),
            plan.commits@.len() <= commit_cap(max_commits as nat),
            scan_commits(commits, allowed, Seq::empty()) == scan_commits(
                commits.skip(i as int),
                allowed,
                views(seen@),
            ),
        decreases plan.commits.len() - i,
    {
        let c = &plan.commits[i];
        assert(commits.skip(i as int)[0] == *c);
        assert(commits.skip(i as int).drop_first() =~= commits.skip(i + 1));
        match c.validate() {
            Err(e) => {
                return Err(ReviewError::InvalidCommit(e));
            },
            Ok(()) => {},
        }
        if c.files.len() == 0 {
            return Err(ReviewError::EmptyCommit);
        }
        match check_files(&c.files, allowed_files, &mut seen) {
            Err(e) => {
                return Err(e);
            },
            Ok(()) => {},
        }
        i = i + 1;
    }
    assert(commits.skip(plan.commits.len() as int) =~= Seq::<CommitSuggestion>::empty());
    let ghost used = views(seen@);
    assert(scan_commits(commits, allowed, Seq::empty()) == Ok::<Seq<Seq<char>>, ReviewOutcome>(used));
    let mut k: usize = 0;
    assert(allowed.skip(0) =~= allowed);
    while k < allowed_files.len()
        invariant
            k <= allowed_files.len(),
            allowed == views(allowed_files@),
            used == views(seen@),
            commits == plan.commits@,
            plan.commits@.len() <= commit_cap(max_commits as nat),
            scan_commits(commits, allowed, Seq::empty()) == Ok::<Seq<Seq<char>>, ReviewOutcome>(used),
            first_missing(allowed, used) == first_missing(allowed.skip(k as int), used),
        decreases allowed_files.len() - k,
    {
        let path = &allowed_files[k];
        assert(allowed.skip(k as int)[0] == path@);
        assert(allowed.skip(k as int).drop_first() =~= allowed.skip(k + 1));
        if !contains_string(&seen, path.as_str()) {
            return Err(ReviewError::MissingFile(path.clone()));
        }
        k = k + 1;
    }
    assert(allowed.skip(allowed_files.len() as int) =~= Seq::<Seq<char>>::empty());
    Ok(())
}


/// The files of the commits, in order.
pub open spec fn plan_files(commits: Seq<CommitSuggestion>) -> Seq<Seq<char>>
    decreases commits.len(),
{
    if commits.len() == 0 {
        Seq::empty()
    } else {
        views(commits[0].files@) + plan_files(commits.drop_first())
    }
}

proof fn lemma_scan_files(files: Seq<Seq<char>>, allowed: Seq<Seq<char>>, seen: Seq<Seq<char>>)
    requires
        seen.no_duplicates(),
        scan_files(files, allowed, seen) is Ok,
    ensures
        scan_files(files, allowed, seen) == Ok::<Seq<Seq<char>>, ReviewOutcome>(seen + files),
        (seen + files).no_duplicates(),
        forall|p: Seq<char>| files.contains(p) ==> allowed.contains(p),
    decreases files.len(),
{
    if files.len() == 0 {
        assert(seen + files =~= seen);
    } else {
        let f = files[0];
        let next = seen.push(f);
        assert forall|i: int, j: int|
            0 <= i < next.len() && 0 <= j < next.len() && i != j implies next[i] != next[j] by {
            if i == seen.len() {
                assert(next[j] == seen[j]);
            } else if j == seen.len() {
                assert(next[i] == seen[i]);
            }
        }
        lemma_scan_files(files.drop_first(), allowed, next);
        assert(next + files.drop_first() =~= seen + files);
        assert forall|p: Seq<char>| files.contains(p) implies allowed.contains(p) by {
            let k = choose|k: int| 0 <= k < files.len() && files[k] == p;
            if k > 0 {
                assert(files.drop_first()[k - 1] == p);
            }
        }
    }
}

proof fn lemma_scan_commits(commits: Seq<CommitSuggestion>, allowed: Seq<Seq<char>>, seen: Seq<Seq<char>>)
    requires
        seen.no_duplicates(),
        scan_commits(commits, allowed, seen) is Ok,
    ensures
        scan_commits(commits, allowed, seen) == Ok::<Seq<Seq<char>>, ReviewOutcome>(
            seen + plan_files(commits),
        ),
        (seen + plan_files(commits)).no_duplicates(),
        forall|p: Seq<char>| plan_files(commits).contains(p) ==> allowed.contains(p),
        forall|k: int|
            0 <= k < commits.len() ==> validation(#[trigger] commits[k]) is Ok
                && commits[k].files@.len() > 0,
    decreases commits.len(),
{
    if commits.len() == 0 {
        assert(seen + plan_files(commits) =~= seen);
    } else {
        let c = commits[0];
        let fs = views(c.files@);
        lemma_scan_files(fs, allowed, seen);
        let next = seen + fs;
        let rest = commits.drop_first();
        lemma_scan_commits(rest, allowed, next);
        assert(next + plan_files(rest) =~= seen + plan_files(commits));
        assert forall|p: Seq<char>| plan_files(commits).contains(p) implies allowed.contains(p) by {
            let k = choose|k: int| 0 <= k < plan_files(commits).len() && plan_files(commits)[k] == p;
            if k < fs.len() {
                assert(fs[k] == p);
            } else {
                assert(plan_files(rest)[k - fs.len()] == p);
            }
        }
        assert forall|k: int| 0 <= k < commits.len() implies validation(#[trigger] commits[k]) is Ok
            && commits[k].files@.len() > 0 by {
            if k > 0 {
                assert(commits[k] == rest[k - 1]);
            }
        }
    }
}

proof fn lemma_first_missing(allowed: Seq<Seq<char>>, used: Seq<Seq<char>>)
    requires
        first_missing(allowed, used) is None,
    ensures
        forall|p: Seq<char>| allowed.contains(p) ==> used.contains(p),
    decreases allowed.len(),
{
    if allowed.len() > 0 {
        lemma_first_missing(allowed.drop_first(), used);
        assert forall|p: Seq<char>| allowed.contains(p) implies used.contains(p) by {
            let k = choose|k: int| 0 <= k < allowed.len() && allowed[k] == p;
            if k > 0 {
                assert(allowed.drop_first()[k - 1] == p);
            }
        }
    }
}

proof fn lemma_scan_files_err(files: Seq<Seq<char>>, allowed: Seq<Seq<char>>, seen: Seq<Seq<char>>)
    ensures
        scan_files(files, allowed, seen) matches Err(o) ==> o != ReviewOutcome::Accepted,
    decreases files.len(),
{
    if files.len() > 0 {
        lemma_scan_files_err(files.drop_first(), allowed, seen.push(files[0]));
    }
}

proof fn lemma_scan_commits_err(commits: Seq<CommitSuggestion>, allowed: Seq<Seq<char>>, seen: Seq<Seq<char>>)
    ensures
        scan_commits(commits, allowed, seen) matches Err(o) ==> o != ReviewOutcome::Accepted,
    decreases commits.len(),
{
    if commits.len() > 0 {
        let c = commits[0];
        lemma_scan_files_err(views(c.files@), allowed, seen);
        match scan_files(views(c.files@), allowed, seen) {
            Ok(next) => lemma_scan_commits_err(commits.drop_first(), allowed, next),
            Err(_) => {},
        }
    }
}

/// An accepted plan has no more commits than the limit, uses every allowed file exactly
/// once and no other file, and each of its commits follows the commit rules and has files.
pub proof fn lemma_accepted_plan_uses_each_file_once(
    plan: CommitPlan,
    allowed: Seq<Seq<char>>,
    max_commits: nat,
)
    requires
        review_outcome(plan, allowed, max_commits) == ReviewOutcome::Accepted,
    ensures
        plan.commits@.len() <= commit_cap(max_commits),
        plan_files(plan.commits@).no_duplicates(),
        forall|p: Seq<char>| plan_files(plan.commits@).contains(p) ==> allowed.contains(p),
        forall|p: Seq<char>| allowed.contains(p) ==> plan_files(plan.commits@).contains(p),
        forall|k: int|
            0 <= k < plan.commits@.len() ==> validation(#[trigger] plan.commits@[k]) is Ok
                && plan.commits@[k].files@.len() > 0,
{
    let empty = Seq::<Seq<char>>::empty();
    lemma_scan_commits_err(plan.commits@, allowed, empty);
    lemma_scan_commits(plan.commits@, allowed, empty);
    assert(empty + plan_files(plan.commits@) =~= plan_files(plan.commits@));
    lemma_first_missing(allowed, plan_files(plan.commits@));
}


/// The text that each refusal is reported with.
pub open spec fn review_error_text(e: ReviewError) -> Seq<char> {
    match e {
        ReviewError::InvalidCommit(s) => "reviewed plan has an invalid commit: "@
            + crate::commit::schema::schema_error_text(s),
        ReviewError::TooManyCommits => "reviewed plan has more commits than allowed"@,
        ReviewError::EmptyCommit => "reviewed plan has a commit without files"@,
        ReviewError::UnknownFile(p) => "reviewed plan uses a file that is not part of the changes: "@
            + p@,
        ReviewError::DuplicateFile(p) => "reviewed plan uses a file more than once: "@ + p@,
        ReviewError::MissingFile(p) => "reviewed plan leaves out a file: "@ + p@,
    }
}

impl ReviewError {
    /// The refusal's text.
    pub fn message(&self) -> (r: String)
        ensures
            r@ == review_error_text(*self),
    {
        let (mut r, tail) = match self {
            ReviewError::InvalidCommit(s) => (
                String::from_str("reviewed plan has an invalid commit: "),
                s.message(),
            ),
            ReviewError::TooManyCommits => (
                String::from_str("reviewed plan has more commits than allowed"),
                String::new(),
            ),
            ReviewError::EmptyCommit => (
                String::from_str("reviewed plan has a commit without files"),
                String::new(),
            ),
            ReviewError::UnknownFile(p) => (
                String::from_str("reviewed plan uses a file that is not part of the changes: "),
                p.clone(),
            ),
            ReviewError::DuplicateFile(p) => (
                String::from_str("reviewed plan uses a file more than once: "),
                p.clone(),
            ),
            ReviewError::MissingFile(p) => (
                String::from_str("reviewed plan leaves out a file: "),
                p.clone(),
            ),
        };
        r.append(tail.as_str());
        r
    }
}

/// The plan to apply after the review: the reviewed plan when the check accepts it,
/// otherwise the batched plan, with the reason for the refusal.
pub fn settle_plan(
    batched: CommitPlan,
    reviewed: CommitPlan,
    allowed_files: &Vec<String>,
    max_commits: usize,
) -> (r: (CommitPlan, Option<ReviewError>))
    ensures
        review_outcome(reviewed, views(allowed_files@), max_commits as nat)
            == ReviewOutcome::Accepted ==> r.0 == reviewed && r.1 is None,
        review_outcome(reviewed, views(allowed_files@), max_commits as nat)
            != ReviewOutcome::Accepted ==> r.0 == batched,
        review_outcome(reviewed, views(allowed_files@), max_commits as nat)
            != ReviewOutcome::Accepted ==> r.1 is Some,
        r.1 matches Some(e) ==> outcome_of(Err(e)) == review_outcome(
            reviewed,
            views(allowed_files@),
            max_commits as nat,
        ),
{
    match check_reviewed_plan(&reviewed, allowed_files, max_commits) {
        Ok(()) => (reviewed, None),
        Err(e) => (batched, Some(e)),
    }
}

} // verus!
