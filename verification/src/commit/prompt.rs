use vstd::prelude::*;

use crate::commit::schema::{message_of, CommitSuggestion};
use crate::git::FileDiff;
use crate::text::{
    contains_run, is_space, join, join_strings, strip_prefixes, take_chars, take_prefix, trim_str,
    trimmed, views,
};
use vstd::string::{StringExecFns, StrSliceExecFns};

verus! {

/// The batch prompt up to the list of files.
pub const BATCH_PROMPT_HEAD: &'static str = r#"
Task: analyze the provided Git diff batch and write exactly one conventional commit suggestion for it.

You are a Git commit message generator.

Generate exactly ONE conventional commit for this small batch of related file changes.
Assume all listed files must belong to the same commit.

Return ONLY valid JSON.
Do NOT return markdown.
Do NOT explain.
Do NOT reason.
Do NOT include extra fields.
Do NOT return tool calls.

Required JSON schema:

{
  "type": "feat",
  "scope": null,
  "subject": "short imperative subject without period",
  "body": [],
  "risk": "medium"
}

Valid example:
{"type":"fix","scope":"auth","subject":"handle missing login response body","body":["guard against nil response readers","keep error output concise"],"risk":"low"}

Invalid examples:
- {"error":"please tell me what to do"}
- ```json ... ```
- Any reply with prose before or after the JSON object

Rules:
- "type" must be one of:
  feat, fix, docs, style, refactor, perf, test, build, ci, chore
- "scope" must be a string or null.
- "subject" must be under 72 characters.
- "subject" must not end with a period.
- "body" must be an array of strings.
- "risk" must be one of: low, medium, high.
- Describe the shared theme of the whole batch.
- Keep the subject specific but concise.

Files in this batch:
"#;

/// The batch prompt between the list of files and the diffs.
pub const BATCH_PROMPT_MID: &'static str = "\n\nPer-file diffs:\n";

/// The end of both prompts.
pub const PROMPT_TAIL: &'static str = "\n\nReturn ONLY the JSON object.\n";

/// The marker appended to a per-file diff that was cut.
pub const PER_FILE_TRUNCATION_MARKER: &'static str = "\n[per-file diff truncated by paladin]";

/// A per-file diff as it goes into a prompt: unchanged when it has at most `max` characters,
/// otherwise its first `max` characters and the truncation marker.
pub open spec fn per_file_truncated(value: Seq<char>, max: nat) -> Seq<char> {
    if value.len() <= max {
        value
    } else {
        value.take(max as int) + PER_FILE_TRUNCATION_MARKER@
    }
}

/// No file diff in a prompt is longer than its budget plus the truncation marker.
pub proof fn lemma_per_file_bounded(value: Seq<char>, max: nat)
    ensures
        per_file_truncated(value, max).len() <= max + PER_FILE_TRUNCATION_MARKER@.len(),
{
}

/// Cuts a per-file diff to `max_chars` characters, marking the cut.
pub fn truncate_chars(value: &str, max_chars: usize) -> (r: String)
    ensures
        r@ == per_file_truncated(value@, max_chars as nat),
{
    let count: usize = value.unicode_len();
    if count <= max_chars {
        return String::from_str(value);
    }
    let mut r = String::from_str(take_prefix(value, max_chars));
    r.append(PER_FILE_TRUNCATION_MARKER);
    r
}

/// The smallest per-file budget that a prompt uses.
pub open spec fn per_file_budget(max_file_diff_chars: nat) -> nat {
    if max_file_diff_chars < 200 {
        200
    } else {
        max_file_diff_chars
    }
}

/// How one file appears in the batch prompt.
pub open spec fn file_section(f: FileDiff, max_file_diff_chars: nat) -> Seq<char> {
    "FILE: "@ + f.path@ + "\n"@ + per_file_truncated(
        trimmed(f.diff@),
        per_file_budget(max_file_diff_chars),
    ) + "\n"@
}

/// A file's section in the batch prompt keeps the start of its trimmed diff: it is the
/// file's path line, then the first `min(len, budget)` characters of the trimmed diff (the
/// budget being `max_file_diff_chars`, at least 200), then the truncation marker exactly
/// when the trimmed diff is longer than the budget, then a newline.
pub proof fn lemma_section_keeps_diff_start(f: FileDiff, max_file_diff_chars: nat)
    ensures
        ({
            let d = trimmed(f.diff@);
            let budget: nat = if max_file_diff_chars < 200 {
                200
            } else {
                max_file_diff_chars
            };
            let head = "FILE: "@ + f.path@ + "\n"@;
            &&& d.len() <= budget ==> file_section(f, max_file_diff_chars) == head + d + "\n"@
            &&& d.len() > budget ==> file_section(f, max_file_diff_chars) == head + d.subrange(
                0,
                budget as int,
            ) + PER_FILE_TRUNCATION_MARKER@ + "\n"@
        }),
{
    let d = trimmed(f.diff@);
    let budget: nat = if max_file_diff_chars < 200 {
        200
    } else {
        max_file_diff_chars
    };
    if d.len() > budget {
        assert(d.take(budget as int) =~= d.subrange(0, budget as int));
    }
}

/// The batch prompt shows the start of each file's diff: for every file of the batch whose
/// trimmed diff is not blank, the prompt holds the file's path line followed by the trimmed
/// diff itself when it fits the budget (`max_file_diff_chars`, at least 200), or by its
/// first `budget` characters and the truncation marker when it does not.
pub proof fn lemma_batch_prompt_keeps_diff_start(
    batch: Seq<FileDiff>,
    max_file_diff_chars: nat,
    k: int,
)
    requires
        0 <= k < batch.len(),
        trimmed(batch[k].diff@).len() > 0,
    ensures
        ({
            let d = trimmed(batch[k].diff@);
            let budget: nat = if max_file_diff_chars < 200 {
                200
            } else {
                max_file_diff_chars
            };
            let head = "FILE: "@ + batch[k].path@ + "\n"@;
            &&& d.len() <= budget ==> contains_run(batch_prompt(batch, max_file_diff_chars), head + d)
            &&& d.len() > budget ==> contains_run(
                batch_prompt(batch, max_file_diff_chars),
                head + d.subrange(0, budget as int) + PER_FILE_TRUNCATION_MARKER@,
            )
        }),
{
    let f = batch[k];
    let d = trimmed(f.diff@);
    let budget = per_file_budget(max_file_diff_chars);
    let head = "FILE: "@ + f.path@ + "\n"@;
    let r = head + per_file_truncated(d, budget);
    let section = file_section(f, max_file_diff_chars);
    assert(section == r + "\n"@);
    reveal_strlit("FILE: ");
    reveal_strlit("\n[per-file diff truncated by paladin]");
    assert(r[0] == 'F');
    if d.len() <= budget {
        crate::text::lemma_trimmed_ends_solid(f.diff@);
        assert(r.last() == d.last());
    } else {
        assert(d.take(budget as int) =~= d.subrange(0, budget as int));
        assert(r.last() == ']');
    }
    assert(!is_space(r.last()));
    let parts = file_sections(batch, max_file_diff_chars);
    let x = join(parts, "\n\n"@);
    let o = crate::text::join_part_offset(parts, "\n\n"@, k);
    assert(parts[k] == section);
    assert(x.subrange(o, o + r.len()) =~= section.subrange(0, r.len() as int));
    assert(section.subrange(0, r.len() as int) =~= r);
    assert(x[o + r.len() - 1] == section[r.len() - 1]);
    let p = crate::text::lemma_trimmed_keeps_run(x, r, o, o + r.len() - 1);
    let before = BATCH_PROMPT_HEAD@ + trimmed(join(batch_paths_of(batch), "\n"@)) + BATCH_PROMPT_MID@;
    let prompt = batch_prompt(batch, max_file_diff_chars);
    assert(prompt == before + trimmed(x) + PROMPT_TAIL@);
    let w = before.len() + p;
    assert(prompt.subrange(w, w + r.len()) =~= trimmed(x).subrange(p, p + r.len()));
    assert(contains_run(prompt, r));
    if d.len() > budget {
        assert(r =~= head + d.subrange(0, budget as int) + PER_FILE_TRUNCATION_MARKER@);
    } else {
        assert(r =~= head + d);
    }
}

/// The paths of a batch.
pub open spec fn batch_paths_of(batch: Seq<FileDiff>) -> Seq<Seq<char>> {
    batch.map_values(|f: FileDiff| f.path@)
}

/// The sections of a batch.
pub open spec fn file_sections(batch: Seq<FileDiff>, max_file_diff_chars: nat) -> Seq<Seq<char>> {
    batch.map_values(|f: FileDiff| file_section(f, max_file_diff_chars))
}

/// The prompt that asks for one commit suggestion for a batch of files: the fixed
/// instructions, the trimmed list of paths, the trimmed per-file diffs, the closing line.
pub open spec fn batch_prompt(batch: Seq<FileDiff>, max_file_diff_chars: nat) -> Seq<char> {
    BATCH_PROMPT_HEAD@ + trimmed(join(batch_paths_of(batch), "\n"@)) + BATCH_PROMPT_MID@
        + trimmed(join(file_sections(batch, max_file_diff_chars), "\n\n"@)) + PROMPT_TAIL@
}

/// Builds the prompt that asks for exactly one commit suggestion for a batch of files.
pub fn build_batch_commit_prompt(batch: &[FileDiff], max_file_diff_chars: usize) -> (r: String)
    ensures
        r@ == batch_prompt(batch@, max_file_diff_chars as nat),
{
    let budget: usize = if max_file_diff_chars < 200 {
        200
    } else {
        max_file_diff_chars
    };
    let mut paths: Vec<String> = Vec::new();
    let mut sections: Vec<String> = Vec::new();
    let ghost all_paths = batch_paths_of(batch@);
    let ghost all_sections = file_sections(batch@, max_file_diff_chars as nat);
    let mut i: usize = 0;
    while i < batch.len()
        invariant
            i <= batch.len(),
            all_paths == batch_paths_of(batch@),
            all_sections == file_sections(batch@, max_file_diff_chars as nat),
            budget == per_file_budget(max_file_diff_chars as nat),
            views(paths@) == all_paths.take(i as int),
            views(sections@) == all_sections.take(i as int),
        decreases batch.len() - i,
    {
        let file = &batch[i];
        let ghost prev_paths = views(paths@);
        let ghost prev_sections = views(sections@);
        paths.push(file.path.clone());
        let mut section = String::from_str("FILE: ");
        section.append(file.path.as_str());
        section.append("\n");
        let cut = truncate_chars(trim_str(file.diff.as_str()), budget);
        section.append(cut.as_str());
        section.append("\n");
        sections.push(section);
        assert(views(paths@) =~= prev_paths.push(file.path@));
        assert(views(sections@) =~= prev_sections.push(file_section(*file, max_file_diff_chars as nat)));
        assert(all_paths.take(i + 1) =~= all_paths.take(i as int).push(file.path@));
        assert(all_sections.take(i + 1) =~= all_sections.take(i as int).push(
            file_section(*file, max_file_diff_chars as nat),
        ));
        i = i + 1;
    }
    assert(all_paths.take(batch.len() as int) =~= all_paths);
    assert(all_sections.take(batch.len() as int) =~= all_sections);
    let file_list = join_strings(&paths, "\n");
    let file_diffs = join_strings(&sections, "\n\n");
    let mut r = String::from_str(BATCH_PROMPT_HEAD);
    r.append(trim_str(file_list.as_str()));
    r.append(BATCH_PROMPT_MID);
    r.append(trim_str(file_diffs.as_str()));
    r.append(PROMPT_TAIL);
    r
}


/// The review prompt up to the number of files per commit.
pub const REVIEW_PROMPT_HEAD: &'static str = r#"
Task: review all candidate commit parts together and return one final commit plan.

You are refining a commit plan that was generated from several smaller diff batches.
Each candidate below covers a different part of the overall change set.

Return ONLY valid JSON.
Do NOT return markdown.
Do NOT explain.
Do NOT reason.
Do NOT include extra fields.
Do NOT return tool calls.

Required JSON schema:
{
  "strategy": "short explanation of how the overall change set was grouped",
  "commits": [
    {
      "type": "feat",
      "scope": null,
      "subject": "short imperative subject without period",
      "body": [],
      "risk": "medium",
      "files": ["src/example.rs"]
    }
  ]
}

Rules:
- Use every allowed file exactly once across the final plan.
- Do not invent files.
- Keep each commit focused and reviewable.
- Keep commit subjects under 72 characters and without a trailing period.
- "type" must be one of:
  feat, fix, docs, style, refactor, perf, test, build, ci, chore
- "risk" must be one of: low, medium, high.
- "files" must be an array of strings.
- Prefer between 1 and "#;

/// The review prompt between the number of files per commit and the allowed files.
pub const REVIEW_PROMPT_RULES_END: &'static str = r#" files per commit when reasonable.
- You may merge or regroup candidate parts, but every file must still appear exactly once.

Allowed files:
"#;

/// The review prompt between the allowed files and the candidates.
pub const REVIEW_PROMPT_MID: &'static str = "\n\nCandidate commit parts:\n";

/// Every file of every suggestion, in order, repeats included.
pub open spec fn all_files(suggestions: Seq<CommitSuggestion>) -> Seq<Seq<char>>
    decreases suggestions.len(),
{
    if suggestions.len() == 0 {
        Seq::empty()
    } else {
        all_files(suggestions.drop_last()) + views(suggestions.last().files@)
    }
}

/// Every file of every suggestion, in order: the files that a reviewed plan must use.
pub fn allowed_files(suggestions: &[CommitSuggestion]) -> (r: Vec<String>)
    ensures
        views(r@) == all_files(suggestions@),
{
    let mut files: Vec<String> = Vec::new();
    let mut i: usize = 0;
    assert(suggestions@.take(0) =~= Seq::<CommitSuggestion>::empty());
    assert(views(files@) =~= Seq::<Seq<char>>::empty());
    while i < suggestions.len()
        invariant
            i <= suggestions.len(),
            views(files@) == all_files(suggestions@.take(i as int)),
        decreases suggestions.len() - i,
    {
        let s = &suggestions[i];
        let mut k: usize = 0;
        let ghost before = views(files@);
        while k < s.files.len()
            invariant
                k <= s.files.len(),
                views(files@) == before + views(s.files@).take(k as int),
            decreases s.files.len() - k,
        {
            let ghost prev = views(files@);
            files.push(s.files[k].clone());
            assert(views(files@) =~= prev.push(s.files@[k as int]@));
            assert(views(s.files@).take(k + 1) =~= views(s.files@).take(k as int).push(
                s.files@[k as int]@,
            ));
            k = k + 1;
        }
        assert(views(s.files@).take(s.files.len() as int) =~= views(s.files@));
        assert(suggestions@.take(i + 1).drop_last() =~= suggestions@.take(i as int));
        i = i + 1;
    }
    assert(suggestions@.take(suggestions.len() as int) =~= suggestions@);
    files
}

/// A file as a candidate lists it.
pub open spec fn file_item(path: Seq<char>) -> Seq<char> {
    "  - "@ + path
}

/// A body line as a candidate lists it: trimmed and without its leading `- ` markers.
pub open spec fn body_item(line: Seq<char>) -> Seq<char> {
    "  - "@ + strip_prefixes(trimmed(line), "- "@)
}

/// The body of a candidate: its items, or `  - none` when it has none.
pub open spec fn body_block(body: Seq<Seq<char>>) -> Seq<char> {
    if body.len() == 0 {
        "  - none"@
    } else {
        join(body.map_values(|l: Seq<char>| body_item(l)), "\n"@)
    }
}

/// How the suggestion with 1-based number `number` appears in the review prompt.
pub open spec fn candidate_text(number: nat, s: CommitSuggestion) -> Seq<char> {
    "Candidate "@ + crate::text::decimal(number) + ":\n- message: "@ + message_of(s)
        + "\n- risk: "@ + s.risk@ + "\n- files:\n"@ + join(
        views(s.files@).map_values(|p: Seq<char>| file_item(p)),
        "\n"@,
    ) + "\n- body:\n"@ + body_block(views(s.body@))
}

/// The candidates, numbered from 1.
pub open spec fn candidate_texts(suggestions: Seq<CommitSuggestion>) -> Seq<Seq<char>> {
    Seq::new(suggestions.len(), |i: int| candidate_text((i + 1) as nat, suggestions[i]))
}

/// The prompt that asks the model to review the candidates together and return one plan.
pub open spec fn review_prompt(suggestions: Seq<CommitSuggestion>, max_files_per_commit: nat) -> Seq<
    char,
> {
    REVIEW_PROMPT_HEAD@ + crate::text::decimal(
        if max_files_per_commit < 1 {
            1
        } else {
            max_files_per_commit
        },
    ) + REVIEW_PROMPT_RULES_END@ + trimmed(join(all_files(suggestions), "\n"@))
        + REVIEW_PROMPT_MID@ + trimmed(join(candidate_texts(suggestions), "\n\n"@)) + PROMPT_TAIL@
}

/// The review prompt names each candidate with its full commit message: for the
/// suggestion at index `k`, it holds `Candidate <k + 1>:`, then `- message: ` and the
/// suggestion's message (scope included when it is not blank), then `- risk: ` on the next
/// line.
pub proof fn lemma_review_prompt_names_message(
    suggestions: Seq<CommitSuggestion>,
    max_files_per_commit: nat,
    k: int,
)
    requires
        0 <= k < suggestions.len(),
    ensures
        contains_run(
            review_prompt(suggestions, max_files_per_commit),
            "Candidate "@ + crate::text::decimal((k + 1) as nat) + ":\n- message: "@ + message_of(
                suggestions[k],
            ) + "\n- risk: "@,
        ),
{
    let s = suggestions[k];
    let r = "Candidate "@ + crate::text::decimal((k + 1) as nat) + ":\n- message: "@ + message_of(s)
        + "\n- risk: "@;
    let rest = "\n- files:\n"@ + join(views(s.files@).map_values(|p: Seq<char>| file_item(p)), "\n"@)
        + "\n- body:\n"@ + body_block(views(s.body@));
    let part = candidate_text((k + 1) as nat, s);
    assert(part =~= r + s.risk@ + rest);
    reveal_strlit("Candidate ");
    reveal_strlit("\n- files:\n");
    assert(r[0] == 'C');
    let e_in: int = r.len() + s.risk@.len() + 1int;
    assert(part[e_in] == '-');
    let parts = candidate_texts(suggestions);
    let x = join(parts, "\n\n"@);
    let o = crate::text::join_part_offset(parts, "\n\n"@, k);
    assert(parts[k] == part);
    assert(x.subrange(o, o + r.len()) =~= part.subrange(0, r.len() as int));
    assert(part.subrange(0, r.len() as int) =~= r);
    assert(x[o + e_in] == part[e_in]);
    let p = crate::text::lemma_trimmed_keeps_run(x, r, o, o + e_in);
    let before = REVIEW_PROMPT_HEAD@ + crate::text::decimal(
        if max_files_per_commit < 1 {
            1
        } else {
            max_files_per_commit
        },
    ) + REVIEW_PROMPT_RULES_END@ + trimmed(join(all_files(suggestions), "\n"@)) + REVIEW_PROMPT_MID@;
    let prompt = review_prompt(suggestions, max_files_per_commit);
    assert(prompt == before + trimmed(x) + PROMPT_TAIL@);
    let w = before.len() + p;
    assert(prompt.subrange(w, w + r.len()) =~= trimmed(x).subrange(p, p + r.len()));
    assert(contains_run(prompt, r));
}

/// The files of a candidate, one item per line.
fn file_items(lines: &Vec<String>) -> (r: String)
    ensures
        r@ == join(views(lines@).map_values(|p: Seq<char>| file_item(p)), "\n"@),
{
    let ghost items = views(lines@).map_values(|p: Seq<char>| file_item(p));
    let mut out: Vec<String> = Vec::new();
    let mut i: usize = 0;
    while i < lines.len()
        invariant
            i <= lines.len(),
            items == views(lines@).map_values(|p: Seq<char>| file_item(p)),
            views(out@) == items.take(i as int),
        decreases lines.len() - i,
    {
        let mut item = String::from_str("  - ");
        item.append(lines[i].as_str());
        let ghost prev = views(out@);
        out.push(item);
        assert(items[i as int] == file_item(lines@[i as int]@));
        assert(views(out@) =~= prev.push(items[i as int]));
        assert(items.take(i + 1) =~= items.take(i as int).push(items[i as int]));
        i = i + 1;
    }
    assert(items.take(lines.len() as int) =~= items);
    join_strings(&out, "\n")
}

/// The body lines of a candidate, one item per line.
fn body_items(lines: &Vec<String>) -> (r: String)
    ensures
        r@ == join(views(lines@).map_values(|l: Seq<char>| body_item(l)), "\n"@),
{
    let ghost items = views(lines@).map_values(|l: Seq<char>| body_item(l));
    let mut out: Vec<String> = Vec::new();
    let mut i: usize = 0;
    while i < lines.len()
        invariant
            i <= lines.len(),
            items == views(lines@).map_values(|l: Seq<char>| body_item(l)),
            views(out@) == items.take(i as int),
        decreases lines.len() - i,
    {
        let mut item = String::from_str("  - ");
        item.append(crate::text::trim_start_matches(trim_str(lines[i].as_str()), "- "));
        let ghost prev = views(out@);
        out.push(item);
        assert(items[i as int] == body_item(lines@[i as int]@));
        assert(views(out@) =~= prev.push(items[i as int]));
        assert(items.take(i + 1) =~= items.take(i as int).push(items[i as int]));
        i = i + 1;
    }
    assert(items.take(lines.len() as int) =~= items);
    join_strings(&out, "\n")
}

/// One candidate's text.
fn candidate(number: usize, s: &CommitSuggestion) -> (r: String)
    ensures
        r@ == candidate_text(number as nat, *s),
{
    let mut r = String::from_str("Candidate ");
    let n = crate::text::decimal_string(number);
    r.append(n.as_str());
    r.append(":\n- message: ");
    let message = s.commit_message();
    r.append(message.as_str());
    r.append("\n- risk: ");
    r.append(s.risk.as_str());
    r.append("\n- files:\n");
    let files = file_items(&s.files);
    r.append(files.as_str());
    let body = if s.body.len() == 0 {
        String::from_str("  - none")
    } else {
        body_items(&s.body)
    };
    r.append("\n- body:\n");
    r.append(body.as_str());
    r
}

/// Builds the prompt that asks the model to review every candidate commit together and
/// return one final plan that uses each file exactly once.
pub fn build_plan_review_prompt(suggestions: &[CommitSuggestion], max_files_per_commit: usize) -> (r:
    String)
    ensures
        r@ == review_prompt(suggestions@, max_files_per_commit as nat),
{
    let files = allowed_files(suggestions);
    let mut candidates: Vec<String> = Vec::new();
    let ghost texts = candidate_texts(suggestions@);
    let mut i: usize = 0;
    while i < suggestions.len()
        invariant
            i <= suggestions.len(),
            texts == candidate_texts(suggestions@),
            views(candidates@) == texts.take(i as int),
        decreases suggestions.len() - i,
    {
        let c = candidate(i + 1, &suggestions[i]);
        let ghost prev_c = views(candidates@);
        candidates.push(c);
        assert(views(candidates@) =~= prev_c.push(texts[i as int]));
        assert(texts.take(i + 1) =~= texts.take(i as int).push(texts[i as int]));
        i = i + 1;
    }
    assert(texts.take(suggestions.len() as int) =~= texts);
    let allowed = join_strings(&files, "\n");
    let plan = join_strings(&candidates, "\n\n");
    let per_commit: usize = if max_files_per_commit < 1 {
        1
    } else {
        max_files_per_commit
    };
    let mut r = String::from_str(REVIEW_PROMPT_HEAD);
    let n = crate::text::decimal_string(per_commit);
    r.append(n.as_str());
    r.append(REVIEW_PROMPT_RULES_END);
    r.append(trim_str(allowed.as_str()));
    r.append(REVIEW_PROMPT_MID);
    r.append(trim_str(plan.as_str()));
    r.append(PROMPT_TAIL);
    r
}

} // verus!
