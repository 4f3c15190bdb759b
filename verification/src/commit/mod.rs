pub mod prompt;
pub mod review;
pub mod schema;

use vstd::prelude::*;

use crate::commit::schema::{message_of, validation, CommitSuggestion, SchemaError};
use crate::git::{bullet, bullet_line, FileDiff};
use crate::text::{
    chars_of, decimal, decimal_string, find_char, first_index, is_space, last_index, rfind_char,
    str_eq, trim_bounds, trimmed, views,
};
use vstd::string::{StringExecFns, StrSliceExecFns};

verus! {

/// How much of a request budget a file takes: the longer of its diff and its path,
/// in characters.
pub open spec fn file_weight(f: FileDiff) -> nat {
    if f.diff@.len() >= f.path@.len() {
        f.diff@.len()
    } else {
        f.path@.len()
    }
}

/// The part of the character budget that a file is charged: its weight, at most the budget.
pub open spec fn charged(f: FileDiff, max_batch_chars: nat) -> nat {
    if file_weight(f) <= max_batch_chars {
        file_weight(f)
    } else {
        max_batch_chars
    }
}

/// Whether the batch being filled is closed before `f` joins: it is full, or it already
/// holds a file and `f` would take it over the character budget.
pub open spec fn closes_before(
    current: Seq<FileDiff>,
    current_chars: nat,
    f: FileDiff,
    max_files: nat,
    max_chars: nat,
) -> bool {
    current.len() >= max_files || (current.len() > 0 && current_chars + file_weight(f) > max_chars)
}

/// Batching the files one by one, in order: the closed batches, the batch being filled and
/// the characters charged to it.
pub open spec fn batch_state(files: Seq<FileDiff>, max_files: nat, max_chars: nat) -> (
    Seq<Seq<FileDiff>>,
    Seq<FileDiff>,
    nat,
)
    decreases files.len(),
{
    if files.len() == 0 {
        (Seq::empty(), Seq::empty(), 0)
    } else {
        let prev = batch_state(files.drop_last(), max_files, max_chars);
        let f = files.last();
        if closes_before(prev.1, prev.2, f, max_files, max_chars) {
            (prev.0.push(prev.1), seq![f], charged(f, max_chars))
        } else {
            (prev.0, prev.1.push(f), prev.2 + charged(f, max_chars))
        }
    }
}

/// The batches of `files`: the files in order, a new batch started whenever the current one
/// holds `max_files` files or the next file would take it over `max_chars` characters.
pub open spec fn file_batches(files: Seq<FileDiff>, max_files: nat, max_chars: nat) -> Seq<
    Seq<FileDiff>,
> {
    let s = batch_state(files, max_files, max_chars);
    if s.1.len() > 0 {
        s.0.push(s.1)
    } else {
        s.0
    }
}

/// The contents of a vector of batches.
pub open spec fn batch_views(v: Seq<Vec<FileDiff>>) -> Seq<Seq<FileDiff>> {
    v.map_values(|b: Vec<FileDiff>| b@)
}

/// The weight of a file, computed.
fn weight_of(f: &FileDiff) -> (w: usize)
    ensures
        w == file_weight(*f),
{
    let d: usize = f.diff.as_str().unicode_len();
    let p: usize = f.path.as_str().unicode_len();
    if d >= p {
        d
    } else {
        p
    }
}

/// Splits the files into batches of at most `max_files_per_batch` files each, starting a
/// new batch when the next file would take the current one over `max_batch_chars`
/// characters; a file is charged at most `max_batch_chars`.
pub fn build_file_batches(files: &[FileDiff], max_files_per_batch: usize, max_batch_chars: usize) -> (r:
    Vec<Vec<FileDiff>>)
    ensures
        batch_views(r@) == file_batches(files@, max_files_per_batch as nat, max_batch_chars as nat),
{
    let ghost mf = max_files_per_batch as nat;
    let ghost mc = max_batch_chars as nat;
    let mut batches: Vec<Vec<FileDiff>> = Vec::new();
    let mut current: Vec<FileDiff> = Vec::new();
    let mut current_chars: usize = 0;
    let mut i: usize = 0;
    assert(files@.take(0) =~= Seq::<FileDiff>::empty());
    assert(batch_views(batches@) =~= Seq::<Seq<FileDiff>>::empty());
    while i < files.len()
        invariant
            i <= files.len(),
            (batch_views(batches@), current@, current_chars as nat) == batch_state(
                files@.take(i as int),
                mf,
                mc,
            ),
            mf == max_files_per_batch,
            mc == max_batch_chars,
            current_chars <= max_batch_chars,
            current@.len() == 0 ==> current_chars == 0,
        decreases files.len() - i,
    {
        let file = &files[i];
        let file_chars: usize = weight_of(file);
        assert(files@.take(i + 1).drop_last() =~= files@.take(i as int));
        assert(files@.take(i + 1).last() == *file);
        let would_exceed_files = current.len() >= max_files_per_batch;
        let would_exceed_chars = current.len() > 0 && file_chars > max_batch_chars - current_chars;
        if would_exceed_files || would_exceed_chars {
            let ghost prev = batch_views(batches@);
            let full = current;
            batches.push(full);
            assert(batch_views(batches@) =~= prev.push(full@));
            current = Vec::new();
            current_chars = 0;
        }
        let charge: usize = if file_chars <= max_batch_chars {
            file_chars
        } else {
            max_batch_chars
        };
        current_chars = current_chars + charge;
        current.push(file.duplicate());
        proof {
            if would_exceed_files || would_exceed_chars {
                assert(current@ =~= seq![*file]);
            }
        }
        i = i + 1;
    }
    assert(files@.take(files.len() as int) =~= files@);
    if current.len() > 0 {
        let ghost prev = batch_views(batches@);
        let last = current;
        batches.push(last);
        assert(batch_views(batches@) =~= prev.push(last@));
    }
    batches
}


/// The batches put back together, in order.
pub open spec fn flatten(bs: Seq<Seq<FileDiff>>) -> Seq<FileDiff>
    decreases bs.len(),
{
    if bs.len() == 0 {
        Seq::empty()
    } else {
        flatten(bs.drop_last()) + bs.last()
    }
}

/// The characters charged to a batch.
pub open spec fn charged_total(b: Seq<FileDiff>, max_chars: nat) -> nat
    decreases b.len(),
{
    if b.len() == 0 {
        0
    } else {
        charged_total(b.drop_last(), max_chars) + charged(b.last(), max_chars)
    }
}

proof fn lemma_state_cover(files: Seq<FileDiff>, mf: nat, mc: nat)
    ensures
        ({
            let s = batch_state(files, mf, mc);
            &&& flatten(s.0) + s.1 == files
            &&& s.2 == charged_total(s.1, mc)
            &&& s.2 <= mc
            &&& files.len() > 0 ==> s.1.len() > 0
        }),
    decreases files.len(),
{
    if files.len() > 0 {
        let rest = files.drop_last();
        lemma_state_cover(rest, mf, mc);
        let p = batch_state(rest, mf, mc);
        let f = files.last();
        assert(files == rest.push(f));
        if closes_before(p.1, p.2, f, mf, mc) {
            assert(p.0.push(p.1).drop_last() =~= p.0);
            assert(flatten(p.0.push(p.1)) == flatten(p.0) + p.1);
            assert(seq![f].drop_last() =~= Seq::<FileDiff>::empty());
            assert(charged_total(Seq::<FileDiff>::empty(), mc) == 0);
            assert(seq![f].last() == f);
            assert(charged_total(seq![f], mc) == charged(f, mc));
            assert(flatten(p.0) + p.1 + seq![f] =~= files);
        } else {
            assert(p.1.push(f).drop_last() =~= p.1);
            assert(charged_total(p.1.push(f), mc) == p.2 + charged(f, mc));
            if p.1.len() == 0 {
                assert(p.2 == 0);
            }
            assert(flatten(p.0) + p.1.push(f) =~= files);
        }
    }
}

/// Batching keeps every file, once and in order: the batches put back together are the
/// files.
pub proof fn lemma_batches_cover_files(files: Seq<FileDiff>, max_files: nat, max_chars: nat)
    ensures
        flatten(file_batches(files, max_files, max_chars)) == files,
{
    lemma_state_cover(files, max_files, max_chars);
    let s = batch_state(files, max_files, max_chars);
    if s.1.len() > 0 {
        assert(s.0.push(s.1).drop_last() =~= s.0);
    } else {
        assert(s.1 =~= Seq::<FileDiff>::empty());
        assert(flatten(s.0) + s.1 =~= flatten(s.0));
    }
}

proof fn lemma_state_sizes(files: Seq<FileDiff>, mf: nat, mc: nat)
    requires
        mf >= 1,
    ensures
        ({
            let s = batch_state(files, mf, mc);
            &&& forall|k: int| 0 <= k < s.0.len() ==> 0 < #[trigger] s.0[k].len() <= mf
            &&& s.1.len() <= mf
            &&& forall|k: int| 0 <= k < s.0.len() ==> charged_total(#[trigger] s.0[k], mc) <= mc
        }),
    decreases files.len(),
{
    if files.len() > 0 {
        let rest = files.drop_last();
        lemma_state_sizes(rest, mf, mc);
        lemma_state_cover(rest, mf, mc);
        let p = batch_state(rest, mf, mc);
        let f = files.last();
        let s = batch_state(files, mf, mc);
        if closes_before(p.1, p.2, f, mf, mc) {
            assert forall|k: int| 0 <= k < s.0.len() implies 0 < #[trigger] s.0[k].len() <= mf
                && charged_total(s.0[k], mc) <= mc by {
                if k < p.0.len() {
                    assert(s.0[k] == p.0[k]);
                }
            }
        }
    }
}

/// With room for at least one file per batch, no batch is empty and none holds more than
/// `max_files` files.
pub proof fn lemma_batches_sizes(files: Seq<FileDiff>, max_files: nat, max_chars: nat)
    requires
        max_files >= 1,
    ensures
        forall|k: int|
            0 <= k < file_batches(files, max_files, max_chars).len() ==> 0 < (
            #[trigger] file_batches(files, max_files, max_chars)[k]).len() <= max_files,
{
    lemma_state_sizes(files, max_files, max_chars);
    lemma_state_cover(files, max_files, max_chars);
}

/// No batch is charged more than the character budget (a file is charged at most the
/// budget, so one large file still forms a batch of its own).
pub proof fn lemma_batches_within_budget(files: Seq<FileDiff>, max_files: nat, max_chars: nat)
    requires
        max_files >= 1,
    ensures
        forall|k: int|
            0 <= k < file_batches(files, max_files, max_chars).len() ==> charged_total(
                #[trigger] file_batches(files, max_files, max_chars)[k],
                max_chars,
            ) <= max_chars,
{
    lemma_state_sizes(files, max_files, max_chars);
    lemma_state_cover(files, max_files, max_chars);
}


proof fn lemma_state_greedy(files: Seq<FileDiff>, mf: nat, mc: nat)
    ensures
        ({
            let s = batch_state(files, mf, mc);
            &&& forall|k: int|
                0 <= k < s.0.len() - 1 ==> closes_before(
                    #[trigger] s.0[k],
                    charged_total(s.0[k], mc),
                    s.0[k + 1][0],
                    mf,
                    mc,
                )
            &&& (s.0.len() > 0 && s.1.len() > 0) ==> closes_before(
                s.0.last(),
                charged_total(s.0.last(), mc),
                s.1[0],
                mf,
                mc,
            )
        }),
    decreases files.len(),
{
    if files.len() > 0 {
        let rest = files.drop_last();
        lemma_state_greedy(rest, mf, mc);
        lemma_state_cover(rest, mf, mc);
        let p = batch_state(rest, mf, mc);
        let f = files.last();
        let s = batch_state(files, mf, mc);
        if closes_before(p.1, p.2, f, mf, mc) {
            if p.0.len() > 0 {
                assert(rest.len() > 0) by {
                    if rest.len() == 0 {
                        assert(batch_state(rest, mf, mc).0 =~= Seq::<Seq<FileDiff>>::empty());
                    }
                }
            }
            assert forall|k: int| 0 <= k < s.0.len() - 1 implies closes_before(
                #[trigger] s.0[k],
                charged_total(s.0[k], mc),
                s.0[k + 1][0],
                mf,
                mc,
            ) by {
                assert(s.0[k] == p.0[k]);
                if k < p.0.len() - 1 {
                    assert(s.0[k + 1] == p.0[k + 1]);
                } else {
                    assert(s.0[k + 1] == p.1);
                }
            }
        } else {
            if p.1.len() > 0 {
                assert(p.1.push(f)[0] == p.1[0]);
            }
        }
    }
}

/// Batches are filled greedily: each batch but the last was closed only because it was
/// full, or because the first file of the next batch would have taken it over the budget.
pub proof fn lemma_batches_greedy(files: Seq<FileDiff>, max_files: nat, max_chars: nat)
    ensures
        forall|k: int|
            0 <= k < file_batches(files, max_files, max_chars).len() - 1 ==> closes_before(
                #[trigger] file_batches(files, max_files, max_chars)[k],
                charged_total(file_batches(files, max_files, max_chars)[k], max_chars),
                file_batches(files, max_files, max_chars)[k + 1][0],
                max_files,
                max_chars,
            ),
{
    lemma_state_greedy(files, max_files, max_chars);
    let s = batch_state(files, max_files, max_chars);
    let bs = file_batches(files, max_files, max_chars);
    if s.1.len() > 0 {
        assert forall|k: int| 0 <= k < bs.len() - 1 implies closes_before(
            #[trigger] bs[k],
            charged_total(bs[k], max_chars),
            bs[k + 1][0],
            max_files,
            max_chars,
        ) by {
            assert(bs[k] == s.0[k]);
            if k < s.0.len() - 1 {
                assert(bs[k + 1] == s.0[k + 1]);
            } else {
                assert(bs[k + 1] == s.1);
            }
        }
    }
}


/// The weights of the files, added up.
pub open spec fn total_weight(files: Seq<FileDiff>) -> nat
    decreases files.len(),
{
    if files.len() == 0 {
        0
    } else {
        total_weight(files.drop_last()) + file_weight(files.last())
    }
}

proof fn lemma_state_single(files: Seq<FileDiff>, mf: nat, mc: nat)
    requires
        files.len() <= mf,
        total_weight(files) <= mc,
    ensures
        batch_state(files, mf, mc) == (Seq::<Seq<FileDiff>>::empty(), files, total_weight(files)),
    decreases files.len(),
{
    if files.len() > 0 {
        let rest = files.drop_last();
        lemma_state_single(rest, mf, mc);
        assert(rest.push(files.last()) =~= files);
    } else {
        assert(files =~= Seq::<FileDiff>::empty());
    }
}

/// Files that together fit the budgets are never split: when there are at most
/// `max_files` of them and their weights add up to at most `max_chars`, they form one batch.
pub proof fn lemma_fitting_files_form_one_batch(files: Seq<FileDiff>, max_files: nat, max_chars: nat)
    requires
        0 < files.len() <= max_files,
        total_weight(files) <= max_chars,
    ensures
        file_batches(files, max_files, max_chars) == seq![files],
{
    lemma_state_single(files, max_files, max_chars);
    assert(Seq::<Seq<FileDiff>>::empty().push(files) =~= seq![files]);
}

/// The batches planned from files that fit one batch under the floored budgets (at least
/// one file and 500 characters per batch) are exactly one batch holding all of them, in
/// order, whatever the commit cap.
pub proof fn lemma_fitting_files_planned_as_one_batch(
    files: Seq<FileDiff>,
    max_files_per_batch: nat,
    max_batch_chars: nat,
    max_commits: nat,
)
    requires
        files.len() > 0,
        files.len() <= max_files_per_batch || files.len() <= 1,
        total_weight(files) <= max_batch_chars || total_weight(files) <= 500,
    ensures
        planned_batches(files, max_files_per_batch, max_batch_chars, max_commits) == seq![files],
{
    let mf: nat = if max_files_per_batch < 1 {
        1
    } else {
        max_files_per_batch
    };
    let mc: nat = if max_batch_chars < 500 {
        500
    } else {
        max_batch_chars
    };
    lemma_fitting_files_form_one_batch(files, mf, mc);
}

/// The batches that commits are generated for: at least one file and at least 500
/// characters per batch, and at most `max_commits` batches (at least one).
pub open spec fn planned_batches(
    files: Seq<FileDiff>,
    max_files_per_batch: nat,
    max_batch_chars: nat,
    max_commits: nat,
) -> Seq<Seq<FileDiff>> {
    let all = file_batches(
        files,
        if max_files_per_batch < 1 {
            1
        } else {
            max_files_per_batch
        },
        if max_batch_chars < 500 {
            500
        } else {
            max_batch_chars
        },
    );
    let cap: nat = if max_commits < 1 {
        1
    } else {
        max_commits
    };
    if all.len() <= cap {
        all
    } else {
        all.take(cap as int)
    }
}

/// Why no commit plan could be generated.
pub enum PlanError {
    /// There were no file batches to generate commits for.
    NoBatches,
}

impl PlanError {
    /// The error's text.
    pub fn message(&self) -> (r: String)
        ensures
            r@ == "no file batches available to generate commits"@,
    {
        String::from_str("no file batches available to generate commits")
    }
}

/// The batches to generate commits for, in order; refused when there are none.
pub fn plan_batches(
    files: &[FileDiff],
    max_files_per_batch: usize,
    max_batch_chars: usize,
    max_commits: usize,
) -> (r: Result<Vec<Vec<FileDiff>>, PlanError>)
    ensures
        r is Err <==> file_batches(
            files@,
            if max_files_per_batch < 1 {
                1
            } else {
                max_files_per_batch as nat
            },
            if max_batch_chars < 500 {
                500
            } else {
                max_batch_chars as nat
            },
        ).len() == 0,
        r matches Ok(b) ==> batch_views(b@) == planned_batches(
            files@,
            max_files_per_batch as nat,
            max_batch_chars as nat,
            max_commits as nat,
        ),
        r matches Ok(b) ==> {
            let all = file_batches(
                files@,
                if max_files_per_batch < 1 {
                    1
                } else {
                    max_files_per_batch as nat
                },
                if max_batch_chars < 500 {
                    500
                } else {
                    max_batch_chars as nat
                },
            );
            let cap: int = if max_commits < 1 {
                1
            } else {
                max_commits as int
            };
            batch_views(b@) == all.take(if all.len() <= cap {
                all.len() as int
            } else {
                cap
            })
        },
{
    let per_batch: usize = if max_files_per_batch < 1 {
        1
    } else {
        max_files_per_batch
    };
    let chars: usize = if max_batch_chars < 500 {
        500
    } else {
        max_batch_chars
    };
    let mut batches = build_file_batches(files, per_batch, chars);
    if batches.len() == 0 {
        return Err(PlanError::NoBatches);
    }
    let cap: usize = if max_commits < 1 {
        1
    } else {
        max_commits
    };
    batches.truncate(cap);
    assert(batch_views(batches@) =~= planned_batches(
        files@,
        max_files_per_batch as nat,
        max_batch_chars as nat,
        max_commits as nat,
    ));
    proof {
        let all = file_batches(files@, per_batch as nat, chars as nat);
        assert(all.take(all.len() as int) =~= all);
    }
    Ok(batches)
}

/// A copy of a list of strings.
pub fn clone_strings(v: &Vec<String>) -> (r: Vec<String>)
    ensures
        r@ == v@,
{
    let mut r: Vec<String> = Vec::new();
    let mut i: usize = 0;
    while i < v.len()
        invariant
            i <= v.len(),
            r@ == v@.take(i as int),
        decreases v.len() - i,
    {
        r.push(v[i].clone());
        i = i + 1;
        assert(r@ =~= v@.take(i as int));
    }
    assert(v@.take(v.len() as int) =~= v@);
    r
}

/// The paths of a batch, in order.
pub fn batch_paths(batch: &Vec<FileDiff>) -> (r: Vec<String>)
    ensures
        r@.len() == batch@.len(),
        forall|k: int| 0 <= k < batch@.len() ==> #[trigger] r@[k] == batch@[k].path,
{
    let mut r: Vec<String> = Vec::new();
    let mut i: usize = 0;
    while i < batch.len()
        invariant
            i <= batch.len(),
            r@.len() == i,
            forall|k: int| 0 <= k < i ==> #[trigger] r@[k] == batch@[k].path,
        decreases batch.len() - i,
    {
        r.push(batch[i].path.clone());
        i = i + 1;
    }
    r
}

/// The strategy line of a plan made of `count` batch commits.
pub open spec fn batched_strategy(count: nat) -> Seq<char> {
    "Generated "@ + decimal(count) + " smaller commit batch(es) locally to keep model requests short."@
}

/// The strategy line of a plan made of `count` batch commits.
pub fn batched_plan_strategy(count: usize) -> (r: String)
    ensures
        r@ == batched_strategy(count as nat),
{
    let mut r = String::from_str("Generated ");
    let n = decimal_string(count);
    r.append(n.as_str());
    r.append(" smaller commit batch(es) locally to keep model requests short.");
    r
}

/// The advice that accompanies a failed generation, up to the primary model's name.
pub const HINT_HEAD: &'static str = "Testing tips:\n- Try a smaller or more reliable local model, for example `cargo run -- commit --model qwen2.5-coder:7b`\n- Verify Ollama can run the model directly with `ollama run ";

/// The advice after the primary model's name.
pub const HINT_TAIL: &'static str = "`\n- If the model keeps ignoring the JSON schema, try another coding model";

/// The advice given when generation failed, naming the fallback model when there is one.
pub open spec fn hint_text(primary_model: Seq<char>, fallback_model: Option<Seq<char>>) -> Seq<char> {
    HINT_HEAD@ + primary_model + HINT_TAIL@ + match fallback_model {
        Some(f) => "\n- You can also set a fallback now: `cargo run -- commit --fallback-model "@ + f
            + "`"@,
        None => Seq::empty(),
    }
}

/// The view of an optional string.
pub open spec fn opt_view(o: Option<&str>) -> Option<Seq<char>> {
    match o {
        Some(s) => Some(s@),
        None => None,
    }
}

/// The advice given when generation failed.
pub fn testing_hint(primary_model: &str, fallback_model: Option<&str>) -> (r: String)
    ensures
        r@ == hint_text(primary_model@, opt_view(fallback_model)),
{
    let mut hint = String::from_str(HINT_HEAD);
    hint.append(primary_model);
    hint.append(HINT_TAIL);
    match fallback_model {
        Some(fallback) => {
            hint.append("\n- You can also set a fallback now: `cargo run -- commit --fallback-model ");
            hint.append(fallback);
            hint.append("`");
        },
        None => {},
    }
    hint
}

/// What to do after the primary model failed to give a suggestion.
pub enum FallbackDecision {
    /// Report the failure; there is no fallback model.
    Fail,
    /// Try the same prompt again with this fallback model.
    RetryWith(String),
}

/// After the primary model failed, in whatever way: retry with the fallback model when
/// there is one; otherwise fail.
pub fn decide_fallback(fallback_model: &Option<String>) -> (r: FallbackDecision)
    ensures
        r == (match *fallback_model {
            None => FallbackDecision::Fail,
            Some(m) => FallbackDecision::RetryWith(m),
        }),
{
    match fallback_model {
        None => FallbackDecision::Fail,
        Some(m) => FallbackDecision::RetryWith(m.clone()),
    }
}

/// The notice printed before retrying with the fallback model; it says whether the
/// primary model failed to load or failed otherwise.
pub open spec fn fallback_notice_text(primary: Seq<char>, fallback: Seq<char>, failed_to_load: bool) -> Seq<
    char,
> {
    "Primary model `"@ + primary + (if failed_to_load {
        "` failed to load. Retrying with fallback model `"@
    } else {
        "` failed. Retrying with fallback model `"@
    }) + fallback + "`..."@
}

/// The notice printed before retrying with the fallback model.
pub fn fallback_notice(primary: &str, fallback: &str, failed_to_load: bool) -> (r: String)
    ensures
        r@ == fallback_notice_text(primary@, fallback@, failed_to_load),
{
    let mut r = String::from_str("Primary model `");
    r.append(primary);
    if failed_to_load {
        r.append("` failed to load. Retrying with fallback model `");
    } else {
        r.append("` failed. Retrying with fallback model `");
    }
    r.append(fallback);
    r.append("`...");
    r
}

/// After an invalid reply on attempt `attempt` (counted from 0): the next attempt's number,
/// or `None` when the `retries` are used up.
pub fn next_attempt(attempt: usize, retries: usize) -> (r: Option<usize>)
    ensures
        r == (if attempt >= retries {
            None
        } else {
            Some((attempt + 1) as usize)
        }),
{
    if attempt >= retries {
        None
    } else {
        Some(attempt + 1)
    }
}

/// The prompt of a retry: the original prompt, the validation error, and the invalid reply.
pub open spec fn retry_prompt_text(prompt: Seq<char>, last_error: Seq<char>, raw: Seq<char>) -> Seq<
    char,
> {
    prompt + "\n\nYour previous reply was invalid.\nValidation error: "@ + last_error
        + "\nReturn corrected JSON only.\nDo not return tool calls.\nPrevious invalid reply:\n"@
        + raw
}

/// The prompt of a retry.
pub fn retry_prompt(prompt: &str, last_error: &str, raw_response: &str) -> (r: String)
    ensures
        r@ == retry_prompt_text(prompt@, last_error@, raw_response@),
{
    let mut r = String::from_str(prompt);
    r.append("\n\nYour previous reply was invalid.\nValidation error: ");
    r.append(last_error);
    r.append("\nReturn corrected JSON only.\nDo not return tool calls.\nPrevious invalid reply:\n");
    r.append(raw_response);
    r
}

/// The report when every attempt gave an invalid reply; `attempt` is the last attempt,
/// counted from 0.
pub fn exhausted_message(attempt: usize, raw_response: &str) -> (r: String)
    requires
        attempt < usize::MAX,
    ensures
        r@ == "model did not return a valid commit suggestion after "@ + decimal(
            (attempt + 1) as nat,
        ) + " attempt(s)\nlast response:\n"@ + raw_response@,
{
    let mut r = String::from_str("model did not return a valid commit suggestion after ");
    let n = decimal_string(attempt + 1);
    r.append(n.as_str());
    r.append(" attempt(s)\nlast response:\n");
    r.append(raw_response);
    r
}


/// The JSON object inside a reply: from its first `{` to its last `}`. It is empty when the
/// last `}` comes just before the first `{`, and missing when either brace is missing or
/// the last `}` comes earlier still.
pub open spec fn json_block(value: Seq<char>) -> Option<Seq<char>> {
    let start = first_index(value, '{');
    let end = last_index(value, '}');
    if start >= 0 && end >= 0 && start <= end + 1 {
        Some(value.subrange(start, end + 1))
    } else {
        None
    }
}

/// The JSON object inside a model reply, when there is one.
pub fn extract_json_block(value: &str) -> (r: Option<&str>)
    ensures
        match r {
            Some(b) => json_block(value@) == Some(b@),
            None => json_block(value@) is None,
        },
{
    let v = chars_of(value);
    let start = match find_char(v.as_slice(), '{') {
        Some(i) => i,
        None => return None,
    };
    let end = match rfind_char(v.as_slice(), '}') {
        Some(j) => j,
        None => return None,
    };
    if start <= end + 1 {
        Some(value.substring_char(start, end + 1))
    } else {
        None
    }
}

/// The text of a reply that is parsed as a suggestion: its JSON block, or all of it when it
/// has none.
pub fn json_candidate(raw_response: &str) -> (r: &str)
    ensures
        r@ == match json_block(raw_response@) {
            Some(b) => b,
            None => raw_response@,
        },
{
    match extract_json_block(raw_response) {
        Some(b) => b,
        None => raw_response,
    }
}

/// A parsed suggestion made to cover the batch's files, then checked.
pub fn finish_suggestion(suggestion: CommitSuggestion, batch_files: &Vec<String>) -> (r: Result<
    CommitSuggestion,
    SchemaError,
>)
    ensures
        r is Ok <==> validation(suggestion) is Ok,
        r matches Ok(out) ==> out.files@ == batch_files@ && out == (CommitSuggestion {
            files: out.files,
            ..suggestion
        }),
        r matches Err(e) ==> validation(suggestion) == Err::<(), SchemaError>(e),
{
    let mut suggestion = suggestion;
    suggestion.files = clone_strings(batch_files);
    match suggestion.validate() {
        Ok(()) => Ok(suggestion),
        Err(e) => Err(e),
    }
}


/// Whether a list of strings holds `s`.
pub fn contains_string(v: &Vec<String>, s: &str) -> (b: bool)
    ensures
        b == views(v@).contains(s@),
{
    let mut i: usize = 0;
    while i < v.len()
        invariant
            i <= v.len(),
            forall|k: int| 0 <= k < i ==> v@[k]@ != s@,
        decreases v.len() - i,
    {
        if str_eq(v[i].as_str(), s) {
            assert(views(v@)[i as int] == s@);
            return true;
        }
        i = i + 1;
    }
    assert forall|k: int| 0 <= k < views(v@).len() implies views(v@)[k] != s@ by {
        assert(views(v@)[k] == v@[k]@);
    }
    false
}

/// The first of `files` that was already recorded in `seen` or appears earlier in `files`.
pub open spec fn first_repeat(seen: Seq<Seq<char>>, files: Seq<Seq<char>>) -> Option<Seq<char>>
    decreases files.len(),
{
    if files.len() == 0 {
        None
    } else if seen.contains(files[0]) {
        Some(files[0])
    } else {
        first_repeat(seen.push(files[0]), files.drop_first())
    }
}

/// The text of the error for a file that a plan commits twice.
pub open spec fn duplicate_file_text(path: Seq<char>) -> Seq<char> {
    "duplicate file in applied plan: "@ + path
}

/// The error for a file that a plan commits twice.
pub fn duplicate_file_message(path: &str) -> (r: String)
    ensures
        r@ == duplicate_file_text(path@),
{
    let mut r = String::from_str("duplicate file in applied plan: ");
    r.append(path);
    r
}

/// Records the files of the next commit of a plan in `seen`, the files of the commits
/// before it; fails with the first file that is recorded already or repeats.
pub fn record_commit_files(seen: &mut Vec<String>, files: &Vec<String>) -> (r: Result<(), String>)
    ensures
        r is Ok ==> first_repeat(views(old(seen)@), views(files@)) is None,
        r is Ok ==> views(final(seen)@) == views(old(seen)@) + views(files@),
        r matches Err(p) ==> first_repeat(views(old(seen)@), views(files@)) == Some(p@),
{
    let ghost start = views(seen@);
    let ghost all = views(files@);
    let mut i: usize = 0;
    assert(all.take(0) =~= Seq::<Seq<char>>::empty());
    assert(all.skip(0) =~= all);
    assert(start + all.take(0) =~= start);
    while i < files.len()
        invariant
            i <= files.len(),
            all == views(files@),
            start == views(old(seen)@),
            views(seen@) == start + all.take(i as int),
            first_repeat(start, all) == first_repeat(views(seen@), all.skip(i as int)),
        decreases files.len() - i,
    {
        let path = &files[i];
        assert(all.skip(i as int)[0] == path@);
        assert(all.skip(i as int).drop_first() =~= all.skip(i + 1));
        if contains_string(seen, path.as_str()) {
            assert(all.skip(i as int).len() > 0);
            assert(first_repeat(views(seen@), all.skip(i as int)) == Some(path@));
            let dup = path.clone();
            return Err(dup);
        }
        let ghost prev = views(seen@);
        seen.push(path.clone());
        assert(views(seen@) =~= prev.push(path@));
        assert(all.take(i + 1) =~= all.take(i as int).push(path@));
        i = i + 1;
    }
    assert(all.take(files.len() as int) =~= all);
    assert(all.skip(files.len() as int) =~= Seq::<Seq<char>>::empty());
    Ok(())
}

/// Files recorded without a repeat stay distinct: when each commit of a plan is recorded
/// in turn, starting from nothing, and none fails, no file is committed twice.
pub proof fn lemma_recorded_files_distinct(seen: Seq<Seq<char>>, files: Seq<Seq<char>>)
    requires
        seen.no_duplicates(),
        first_repeat(seen, files) is None,
    ensures
        (seen + files).no_duplicates(),
    decreases files.len(),
{
    if files.len() > 0 {
        let f = files[0];
        assert(!seen.contains(f));
        let next = seen.push(f);
        assert forall|i: int, j: int|
            0 <= i < next.len() && 0 <= j < next.len() && i != j implies next[i] != next[j] by {
            if i == seen.len() {
                assert(next[j] == seen[j]);
            } else if j == seen.len() {
                assert(next[i] == seen[i]);
            }
        }
        lemma_recorded_files_distinct(next, files.drop_first());
        assert(next + files.drop_first() =~= seen + files);
    } else {
        assert(seen + files =~= seen);
    }
}


/// Whether a confirmation answer accepts: once trimmed, it is `y` or `yes` in any case.
pub open spec fn is_yes(answer: Seq<char>) -> bool {
    let t = trimmed(answer);
    ||| t.len() == 1 && (t[0] == 'y' || t[0] == 'Y')
    ||| t.len() == 3 && (t[0] == 'y' || t[0] == 'Y') && (t[1] == 'e' || t[1] == 'E') && (t[2]
        == 's' || t[2] == 'S')
}

/// Whether the answer to the confirmation question accepts the commits
/// (`input.trim().to_lowercase()` is `y` or `yes`).
pub fn is_confirmation(input: &str) -> (b: bool)
    ensures
        b == is_yes(input@),
{
    let v = chars_of(input);
    let (i, j) = trim_bounds(v.as_slice());
    let ghost t = trimmed(input@);
    assert(forall|k: int| 0 <= k < j - i ==> t[k] == v@[i + k]);
    let n: usize = j - i;
    if n == 1 {
        let a = v[i];
        a == 'y' || a == 'Y'
    } else if n == 3 {
        let a = v[i];
        let b = v[i + 1];
        let c = v[i + 2];
        (a == 'y' || a == 'Y') && (b == 'e' || b == 'E') && (c == 's' || c == 'S')
    } else {
        false
    }
}

/// How the plan is shown before confirmation.
pub enum PreviewMode {
    /// Printed, as asked.
    Plain,
    /// Printed, because stdout is not a terminal.
    PlainNotTerminal,
    /// Shown in the interactive terminal preview, then printed.
    Interactive,
}

/// The plain preview when asked for, or when stdout is not a terminal; the interactive one
/// otherwise.
pub fn choose_preview_mode(no_tui: bool, stdout_is_terminal: bool) -> (r: PreviewMode)
    ensures
        r == (if no_tui {
            PreviewMode::Plain
        } else if !stdout_is_terminal {
            PreviewMode::PlainNotTerminal
        } else {
            PreviewMode::Interactive
        }),
{
    if no_tui {
        PreviewMode::Plain
    } else if !stdout_is_terminal {
        PreviewMode::PlainNotTerminal
    } else {
        PreviewMode::Interactive
    }
}

/// A key press in the interactive preview.
pub enum PreviewKey {
    /// Left or up.
    Previous,
    /// Right or down.
    Next,
    /// Enter, Esc or `q`.
    Exit,
    /// Any other key.
    Other,
}

/// The commit selected after a key press, or `None` when the preview is left.
pub open spec fn preview_next(selected: nat, count: nat, key: PreviewKey) -> Option<nat> {
    match key {
        PreviewKey::Previous => Some(
            if selected == 0 {
                0
            } else {
                (selected - 1) as nat
            },
        ),
        PreviewKey::Next => Some(
            if count == 0 {
                0
            } else if selected + 1 <= count - 1 {
                selected + 1
            } else {
                (count - 1) as nat
            },
        ),
        PreviewKey::Exit => None,
        PreviewKey::Other => Some(selected),
    }
}

/// Moves the selection of the interactive preview over `count` commits.
pub fn preview_step(selected: usize, count: usize, key: PreviewKey) -> (r: Option<usize>)
    requires
        selected < usize::MAX,
    ensures
        match r {
            Some(s) => preview_next(selected as nat, count as nat, key) == Some(s as nat),
            None => preview_next(selected as nat, count as nat, key) is None,
        },
{
    match key {
        PreviewKey::Previous => Some(
            if selected == 0 {
                0
            } else {
                selected - 1
            },
        ),
        PreviewKey::Next => {
            let last: usize = if count == 0 {
                0
            } else {
                count - 1
            };
            Some(
                if selected + 1 <= last {
                    selected + 1
                } else {
                    last
                },
            )
        },
        PreviewKey::Exit => None,
        PreviewKey::Other => Some(selected),
    }
}

/// The selection of the interactive preview always stays on a commit.
pub proof fn lemma_preview_selection_in_range(selected: nat, count: nat, key: PreviewKey)
    requires
        selected < count,
    ensures
        preview_next(selected, count, key) matches Some(s) ==> s < count,
{
}

/// The selection that the interactive preview starts with: the first commit, or none (and
/// no preview) when the plan has no commits.
pub fn preview_start(count: usize) -> (r: Option<usize>)
    ensures
        r == (if count == 0 {
            None::<usize>
        } else {
            Some(0usize)
        }),
{
    if count == 0 {
        None
    } else {
        Some(0)
    }
}

/// The selection after the keys `keys` were pressed from `selected`, or `None` once the
/// preview was left.
pub open spec fn selection_after(selected: nat, count: nat, keys: Seq<PreviewKey>) -> Option<nat>
    decreases keys.len(),
{
    if keys.len() == 0 {
        Some(selected)
    } else {
        match preview_next(selected, count, keys[0]) {
            Some(next) => selection_after(next, count, keys.drop_first()),
            None => None,
        }
    }
}

/// Whatever keys are pressed, the interactive preview of a non-empty plan, started on its
/// first commit, only ever shows a commit of the plan.
pub proof fn lemma_preview_always_on_a_commit(count: nat, keys: Seq<PreviewKey>)
    requires
        count > 0,
    ensures
        selection_after(0, count, keys) matches Some(s) ==> s < count,
{
    lemma_selection_stays(0, count, keys);
}

proof fn lemma_selection_stays(selected: nat, count: nat, keys: Seq<PreviewKey>)
    requires
        selected < count,
    ensures
        selection_after(selected, count, keys) matches Some(s) ==> s < count,
    decreases keys.len(),
{
    if keys.len() > 0 {
        match preview_next(selected, count, keys[0]) {
            Some(next) => lemma_selection_stays(next, count, keys.drop_first()),
            None => {},
        }
    }
}

/// One step of showing the plan and asking for confirmation.
pub enum RunStep {
    /// Print this line.
    Say(String),
    /// Open the interactive preview; when it fails, print `tui_failure_lines` and go on.
    Interactive,
    /// Print the plan.
    PrintPlan,
    /// Ask whether to create the commits.
    AskConfirmation,
}

/// The content of a step.
pub enum RunStepView {
    Say(Seq<char>),
    Interactive,
    PrintPlan,
    AskConfirmation,
}

/// The content of a step.
pub open spec fn step_view(s: RunStep) -> RunStepView {
    match s {
        RunStep::Say(t) => RunStepView::Say(t@),
        RunStep::Interactive => RunStepView::Interactive,
        RunStep::PrintPlan => RunStepView::PrintPlan,
        RunStep::AskConfirmation => RunStepView::AskConfirmation,
    }
}

/// The contents of steps.
pub open spec fn steps_view(v: Seq<RunStep>) -> Seq<RunStepView> {
    v.map_values(|x: RunStep| step_view(x))
}

/// The steps of showing the plan in a preview mode: the plan is printed in every mode,
/// after the interactive preview when there is one.
pub open spec fn preview_steps_of(mode: PreviewMode) -> Seq<RunStepView> {
    match mode {
        PreviewMode::Plain => seq![RunStepView::PrintPlan],
        PreviewMode::PlainNotTerminal => seq![
            RunStepView::Say("Interactive preview unavailable because stdout is not a terminal."@),
            RunStepView::PrintPlan,
        ],
        PreviewMode::Interactive => seq![
            RunStepView::Say("Opening interactive commit preview..."@),
            RunStepView::Say("Use arrow keys to switch commits, then press Enter to continue."@),
            RunStepView::Interactive,
            RunStepView::Say(""@),
            RunStepView::Say("Commit preview summary:"@),
            RunStepView::PrintPlan,
        ],
    }
}

/// The steps between generating the plan and creating the commits: the preview, then,
/// without `yes`, the confirmation question.
pub open spec fn run_steps_of(mode: PreviewMode, yes: bool) -> Seq<RunStepView> {
    preview_steps_of(mode) + if yes {
        Seq::empty()
    } else {
        seq![RunStepView::AskConfirmation]
    }
}

fn push_step(out: &mut Vec<RunStep>, s: RunStep)
    ensures
        steps_view(final(out)@) == steps_view(old(out)@).push(step_view(s)),
{
    let ghost v = step_view(s);
    out.push(s);
    assert(steps_view(final(out)@) =~= steps_view(old(out)@).push(v));
}

/// The steps between generating the plan and creating the commits.
pub fn run_steps(mode: PreviewMode, yes: bool) -> (r: Vec<RunStep>)
    ensures
        steps_view(r@) == run_steps_of(mode, yes),
{
    let mut r: Vec<RunStep> = Vec::new();
    assert(steps_view(r@) =~= Seq::<RunStepView>::empty());
    match mode {
        PreviewMode::Plain => {
            push_step(&mut r, RunStep::PrintPlan);
        },
        PreviewMode::PlainNotTerminal => {
            push_step(
                &mut r,
                RunStep::Say(
                    String::from_str("Interactive preview unavailable because stdout is not a terminal."),
                ),
            );
            push_step(&mut r, RunStep::PrintPlan);
        },
        PreviewMode::Interactive => {
            push_step(&mut r, RunStep::Say(String::from_str("Opening interactive commit preview...")));
            push_step(
                &mut r,
                RunStep::Say(
                    String::from_str("Use arrow keys to switch commits, then press Enter to continue."),
                ),
            );
            push_step(&mut r, RunStep::Interactive);
            push_step(&mut r, RunStep::Say(String::from_str("")));
            push_step(&mut r, RunStep::Say(String::from_str("Commit preview summary:")));
            push_step(&mut r, RunStep::PrintPlan);
        },
    }
    if !yes {
        push_step(&mut r, RunStep::AskConfirmation);
    }
    assert(steps_view(r@) =~= run_steps_of(mode, yes));
    r
}

/// In every preview mode the plan is printed, and it is printed before the confirmation
/// question, which is asked exactly when `yes` is not given.
pub proof fn lemma_plan_printed_before_confirmation(mode: PreviewMode, yes: bool)
    ensures
        ({
            let steps = run_steps_of(mode, yes);
            let p = preview_steps_of(mode).len() - 1;
            &&& steps[p] == RunStepView::PrintPlan
            &&& forall|k: int| 0 <= k < p ==> steps[k] != RunStepView::AskConfirmation
            &&& yes ==> steps.len() == p + 1
            &&& !yes ==> steps.len() == p + 2 && steps[p + 1] == RunStepView::AskConfirmation
        }),
{
}

/// The lines printed when the interactive preview fails with `error`.
pub fn tui_failure_lines(error: &str) -> (r: Vec<String>)
    ensures
        views(r@) == seq![
            "Interactive preview unavailable: "@ + error@,
            "Falling back to plain-text preview."@,
        ],
{
    let mut first = String::from_str("Interactive preview unavailable: ");
    first.append(error);
    let mut r: Vec<String> = Vec::new();
    r.push(first);
    r.push(String::from_str("Falling back to plain-text preview."));
    assert(views(r@) =~= seq![
        "Interactive preview unavailable: "@ + error@,
        "Falling back to plain-text preview."@,
    ]);
    r
}

/// Whether the commits are created: with `yes`, or when the answer to the confirmation
/// question (`None` when it was not asked) accepts.
pub fn may_apply(yes: bool, answer: Option<&str>) -> (b: bool)
    ensures
        b == (yes || (answer matches Some(a) && is_yes(a@))),
{
    if yes {
        return true;
    }
    match answer {
        Some(a) => is_confirmation(a),
        None => false,
    }
}

/// The header of the interactive preview.
pub fn preview_header(selected: usize, count: usize) -> (r: String)
    requires
        selected < usize::MAX,
    ensures
        r@ == "Commit plan preview  "@ + decimal((selected + 1) as nat) + "/"@ + decimal(
            count as nat,
        ),
{
    let mut r = String::from_str("Commit plan preview  ");
    let a = decimal_string(selected + 1);
    r.append(a.as_str());
    r.append("/");
    let b = decimal_string(count);
    r.append(b.as_str());
    r
}

/// The footer of the interactive preview, which notes a truncated diff.
pub fn preview_footer(diff_truncated: bool) -> (r: &'static str)
    ensures
        r@ == (if diff_truncated {
            "Arrows: switch commit  Enter/Esc/q: exit preview  Note: diff was truncated"@
        } else {
            "Arrows: switch commit  Enter/Esc/q: exit preview"@
        }),
{
    if diff_truncated {
        "Arrows: switch commit  Enter/Esc/q: exit preview  Note: diff was truncated"
    } else {
        "Arrows: switch commit  Enter/Esc/q: exit preview"
    }
}

/// A file as a plan lists it.
pub open spec fn dashed(path: Seq<char>) -> Seq<char> {
    "- "@ + path
}

/// Appends the bullet of each body line.
pub fn push_bullets(out: &mut Vec<String>, lines: &Vec<String>)
    ensures
        views(final(out)@) == views(old(out)@) + views(lines@).map_values(|l: Seq<char>| bullet(l)),
{
    let ghost start = views(out@);
    let ghost items = views(lines@).map_values(|l: Seq<char>| bullet(l));
    let mut i: usize = 0;
    assert(start + items.take(0) =~= start);
    while i < lines.len()
        invariant
            i <= lines.len(),
            items == views(lines@).map_values(|l: Seq<char>| bullet(l)),
            views(out@) == start + items.take(i as int),
        decreases lines.len() - i,
    {
        let ghost prev = views(out@);
        out.push(bullet_line(lines[i].as_str()));
        assert(items[i as int] == bullet(lines@[i as int]@));
        assert(views(out@) =~= prev.push(items[i as int]));
        assert(items.take(i + 1) =~= items.take(i as int).push(items[i as int]));
        i = i + 1;
    }
    assert(items.take(lines.len() as int) =~= items);
}

/// Appends `- path` for each path.
pub fn push_dashed(out: &mut Vec<String>, paths: &Vec<String>)
    ensures
        views(final(out)@) == views(old(out)@) + views(paths@).map_values(|p: Seq<char>| dashed(p)),
{
    let ghost start = views(out@);
    let ghost items = views(paths@).map_values(|p: Seq<char>| dashed(p));
    let mut i: usize = 0;
    assert(start + items.take(0) =~= start);
    while i < paths.len()
        invariant
            i <= paths.len(),
            items == views(paths@).map_values(|p: Seq<char>| dashed(p)),
            views(out@) == start + items.take(i as int),
        decreases paths.len() - i,
    {
        let ghost prev = views(out@);
        let mut line = String::from_str("- ");
        line.append(paths[i].as_str());
        out.push(line);
        assert(items[i as int] == dashed(paths@[i as int]@));
        assert(views(out@) =~= prev.push(items[i as int]));
        assert(items.take(i + 1) =~= items.take(i as int).push(items[i as int]));
        i = i + 1;
    }
    assert(items.take(paths.len() as int) =~= items);
}

/// The lines that the interactive preview shows for one commit.
pub open spec fn detail_lines(c: CommitSuggestion) -> Seq<Seq<char>> {
    seq![message_of(c), ""@, "Risk: "@ + c.risk@, ""@, "Body:"@] + (if c.body@.len() == 0 {
        seq!["- no body"@]
    } else {
        views(c.body@).map_values(|l: Seq<char>| bullet(l))
    }) + seq![""@, "Files:"@] + views(c.files@).map_values(|p: Seq<char>| dashed(p))
}

fn push_text(out: &mut Vec<String>, s: &str)
    ensures
        views(final(out)@) == views(old(out)@).push(s@),
{
    out.push(String::from_str(s));
    assert(views(final(out)@) =~= views(old(out)@).push(s@));
}

/// The lines that the interactive preview shows for one commit: its message, risk, body
/// and files.
pub fn preview_details(c: &CommitSuggestion) -> (r: Vec<String>)
    ensures
        views(r@) == detail_lines(*c),
{
    let mut r: Vec<String> = Vec::new();
    let message = c.commit_message();
    push_owned(&mut r, message);
    push_text(&mut r, "");
    let mut risk = String::from_str("Risk: ");
    risk.append(c.risk.as_str());
    push_owned(&mut r, risk);
    push_text(&mut r, "");
    push_text(&mut r, "Body:");
    let ghost head = seq![message_of(*c), ""@, "Risk: "@ + c.risk@, ""@, "Body:"@];
    assert(views(r@) =~= head);
    if c.body.len() == 0 {
        push_text(&mut r, "- no body");
        assert(views(r@) =~= head + seq!["- no body"@]);
    } else {
        push_bullets(&mut r, &c.body);
    }
    let ghost mid = views(r@);
    push_text(&mut r, "");
    push_text(&mut r, "Files:");
    assert(views(r@) =~= mid + seq![""@, "Files:"@]);
    push_dashed(&mut r, &c.files);
    assert(views(r@) =~= detail_lines(*c));
    r
}

fn push_owned(out: &mut Vec<String>, s: String)
    ensures
        views(final(out)@) == views(old(out)@).push(s@),
{
    let ghost v = s@;
    out.push(s);
    assert(views(final(out)@) =~= views(old(out)@).push(v));
}

/// How the commit with 1-based number `number` appears in the preview's list.
pub open spec fn list_item(number: nat, c: CommitSuggestion) -> Seq<char> {
    decimal(number) + ". "@ + message_of(c)
}

/// The entries of the preview's list of commits, numbered from 1.
pub fn preview_list_items(commits: &Vec<CommitSuggestion>) -> (r: Vec<String>)
    ensures
        r@.len() == commits@.len(),
        forall|k: int| 0 <= k < commits@.len() ==> (#[trigger] r@[k])@ == list_item((k + 1) as nat, commits@[k]),
{
    let mut r: Vec<String> = Vec::new();
    let mut i: usize = 0;
    while i < commits.len()
        invariant
            i <= commits.len(),
            r@.len() == i,
            forall|k: int| 0 <= k < i ==> (#[trigger] r@[k])@ == list_item((k + 1) as nat, commits@[k]),
        decreases commits.len() - i,
    {
        let mut item = decimal_string(i + 1);
        item.append(". ");
        let message = commits[i].commit_message();
        item.append(message.as_str());
        r.push(item);
        i = i + 1;
    }
    r
}

/// The error when nothing changed.
pub fn no_changes_message(staged: bool) -> (r: String)
    ensures
        r@ == (if staged {
            "no staged changes found"@
        } else {
            "no changes found"@
        }),
{
    if staged {
        String::from_str("no staged changes found")
    } else {
        String::from_str("no changes found")
    }
}

} // verus!
