use vstd::prelude::*;

use crate::text::{
    chars_of, is_blank, join, join_strings, nonblank_lines, nonblank_lines_of, str_eq,
    strip_prefixes, take_chars, take_prefix, trim_start_matches, trim_str, trimmed, views,
};
use vstd::string::{StringExecFns, StrSliceExecFns};

verus! {

/// What one `git` invocation printed.
pub struct CommandResult {
    /// The command line, as `git <args joined by spaces>`.
    pub command: String,
    /// What the command wrote to stdout.
    pub output: String,
    /// What it wrote to stderr, when that was not blank.
    pub error: Option<String>,
}

/// The changes that a commit plan is made from.
pub struct GitChangeSet {
    pub branch: CommandResult,
    pub status_short: CommandResult,
    pub diff_stat: CommandResult,
    pub diff_numstat: CommandResult,
    pub diff_name_only: CommandResult,
    pub diff: CommandResult,
    pub file_diffs: Vec<FileDiff>,
    pub skipped_diff_paths: Vec<String>,
    /// True when the diff came from staged changes: `git diff --staged`.
    pub staged: bool,
    /// True when the diff was too large and was truncated before it went to the model.
    pub diff_truncated: bool,
}

/// The diff of one changed file.
pub struct FileDiff {
    pub path: String,
    pub diff: String,
}

impl FileDiff {
    /// A copy of this file diff.
    pub fn duplicate(&self) -> (r: FileDiff)
        ensures
            r == *self,
    {
        FileDiff { path: self.path.clone(), diff: self.diff.clone() }
    }
}

/// Whether `path` is `dir` itself or lies below it (separated by `/` or `\`).
pub open spec fn in_dir(path: Seq<char>, dir: Seq<char>) -> bool {
    ||| path == dir
    ||| dir.len() < path.len() && path.take(dir.len() as int) == dir && (path[dir.len() as int]
        == '/' || path[dir.len() as int] == '\\')
}

/// Lock files and build or vendored output, whose diffs are left out of what the model sees.
pub open spec fn is_skipped_path(path: Seq<char>) -> bool {
    ||| path == "Cargo.lock"@
    ||| path == "package-lock.json"@
    ||| path == "pnpm-lock.yaml"@
    ||| path == "yarn.lock"@
    ||| path == "go.sum"@
    ||| in_dir(path, "dist"@)
    ||| in_dir(path, "build"@)
    ||| in_dir(path, "target"@)
    ||| in_dir(path, "node_modules"@)
    ||| in_dir(path, "coverage"@)
    ||| in_dir(path, ".next"@)
    ||| in_dir(path, "out"@)
    ||| in_dir(path, "vendor"@)
    ||| in_dir(path, "tmp"@)
    ||| in_dir(path, "temp"@)
    ||| in_dir(path, "storybook-static"@)
    ||| in_dir(path, ".turbo"@)
    ||| in_dir(path, ".parcel-cache"@)
    ||| in_dir(path, ".svelte-kit"@)
    ||| in_dir(path, ".nuxt"@)
    ||| in_dir(path, "public/build"@)
    ||| in_dir(path, "bin"@)
}

/// Whether `path` is `dir` or a path inside it.
pub fn is_path_in_dir(path: &str, dir: &str) -> (b: bool)
    ensures
        b == in_dir(path@, dir@),
{
    let p = chars_of(path);
    let d = chars_of(dir);
    if str_eq(path, dir) {
        return true;
    }
    if d.len() >= p.len() {
        return false;
    }
    let mut i: usize = 0;
    while i < d.len()
        invariant
            i <= d@.len(),
            d@.len() < p@.len(),
            p@ == path@,
            d@ == dir@,
            forall|k: int| 0 <= k < i ==> p@[k] == d@[k],
        decreases d.len() - i,
    {
        if p[i] != d[i] {
            assert(path@.take(dir@.len() as int)[i as int] != dir@[i as int]);
            return false;
        }
        i = i + 1;
    }
    assert(path@.take(dir@.len() as int) =~= dir@);
    let next = p[d.len()];
    next == '/' || next == '\\'
}

/// Whether the diff of `path` is left out of what the model sees.
pub fn should_skip_diff_path(path: &str) -> (b: bool)
    ensures
        b == is_skipped_path(path@),
{
    str_eq(path, "Cargo.lock") || str_eq(path, "package-lock.json") || str_eq(
        path,
        "pnpm-lock.yaml",
    ) || str_eq(path, "yarn.lock") || str_eq(path, "go.sum") || is_path_in_dir(path, "dist")
        || is_path_in_dir(path, "build") || is_path_in_dir(path, "target") || is_path_in_dir(
        path,
        "node_modules",
    ) || is_path_in_dir(path, "coverage") || is_path_in_dir(path, ".next") || is_path_in_dir(
        path,
        "out",
    ) || is_path_in_dir(path, "vendor") || is_path_in_dir(path, "tmp") || is_path_in_dir(
        path,
        "temp",
    ) || is_path_in_dir(path, "storybook-static") || is_path_in_dir(path, ".turbo")
        || is_path_in_dir(path, ".parcel-cache") || is_path_in_dir(path, ".svelte-kit")
        || is_path_in_dir(path, ".nuxt") || is_path_in_dir(path, "public/build")
        || is_path_in_dir(path, "bin")
}


/// The lines of `lines` whose path is skipped (when `skipped`) or kept (otherwise), in order.
pub open spec fn select_paths(lines: Seq<Seq<char>>, skipped: bool) -> Seq<Seq<char>>
    decreases lines.len(),
{
    if lines.len() == 0 {
        Seq::empty()
    } else {
        let prev = select_paths(lines.drop_last(), skipped);
        if is_skipped_path(lines.last()) == skipped {
            prev.push(lines.last())
        } else {
            prev
        }
    }
}

/// The paths listed by `git diff --name-only` whose diffs are sent to the model.
pub open spec fn diffable_paths(name_only: Seq<char>) -> Seq<Seq<char>> {
    select_paths(nonblank_lines(name_only), false)
}

/// The paths listed by `git diff --name-only` whose diffs are left out.
pub open spec fn skipped_paths(name_only: Seq<char>) -> Seq<Seq<char>> {
    select_paths(nonblank_lines(name_only), true)
}

fn select_lines(name_only_output: &str, skipped: bool) -> (r: Vec<String>)
    ensures
        views(r@) == select_paths(nonblank_lines(name_only_output@), skipped),
{
    let lines = nonblank_lines_of(name_only_output);
    let ghost all = views(lines@);
    let mut r: Vec<String> = Vec::new();
    let mut i: usize = 0;
    assert(all.take(0) =~= Seq::<Seq<char>>::empty());
    assert(views(r@) =~= Seq::<Seq<char>>::empty());
    while i < lines.len()
        invariant
            i <= lines.len(),
            all == views(lines@),
            views(r@) == select_paths(all.take(i as int), skipped),
        decreases lines.len() - i,
    {
        assert(all.take(i + 1).drop_last() =~= all.take(i as int));
        assert(all[i as int] == lines@[i as int]@);
        if should_skip_diff_path(lines[i].as_str()) == skipped {
            r.push(lines[i].clone());
            assert(views(r@) =~= select_paths(all.take(i as int), skipped).push(all[i as int]));
        }
        i = i + 1;
    }
    assert(all.take(lines.len() as int) =~= all);
    r
}

/// The paths of `git diff --name-only` output whose diffs are collected one by one: the
/// non-blank lines, trimmed, that are not skipped.
pub fn file_diff_paths(name_only_output: &str) -> (r: Vec<String>)
    ensures
        views(r@) == diffable_paths(name_only_output@),
{
    select_lines(name_only_output, false)
}

/// The paths of `git diff --name-only` output whose diffs are skipped.
pub fn collect_excluded_paths(name_only_output: &str) -> (r: Vec<String>)
    ensures
        views(r@) == skipped_paths(name_only_output@),
{
    select_lines(name_only_output, true)
}

/// The pathspecs that keep skipped paths out of the combined diff.
pub open spec fn excluded_pathspecs() -> Seq<Seq<char>> {
    seq![
        ":(exclude)Cargo.lock"@,
        ":(exclude)package-lock.json"@,
        ":(exclude)pnpm-lock.yaml"@,
        ":(exclude)yarn.lock"@,
        ":(exclude)go.sum"@,
        ":(exclude)dist/**"@,
        ":(exclude)build/**"@,
        ":(exclude)target/**"@,
        ":(exclude)node_modules/**"@,
        ":(exclude)coverage/**"@,
        ":(exclude).next/**"@,
        ":(exclude)out/**"@,
        ":(exclude)vendor/**"@,
        ":(exclude)tmp/**"@,
        ":(exclude)temp/**"@,
        ":(exclude)storybook-static/**"@,
        ":(exclude).turbo/**"@,
        ":(exclude).parcel-cache/**"@,
        ":(exclude).svelte-kit/**"@,
        ":(exclude).nuxt/**"@,
        ":(exclude)public/build/**"@,
        ":(exclude)bin/**"@,
    ]
}

proof fn lemma_dir_entry_names(spec: Seq<char>, lit: Seq<char>, dir: Seq<char>)
    requires
        spec == ":(exclude)"@ + lit + "/**"@,
        spec == ":(exclude)"@ + dir + "/**"@,
    ensures
        dir == lit,
{
    let a = ":(exclude)"@;
    let b = "/**"@;
    assert(a + lit + b =~= a + (lit + b));
    assert(a + dir + b =~= a + (dir + b));
    lemma_after_prefix(a, lit + b, dir + b);
    assert(lit =~= (lit + b).take(lit.len() as int));
    assert(dir =~= (dir + b).take(dir.len() as int));
}

proof fn lemma_after_prefix(a: Seq<char>, x: Seq<char>, y: Seq<char>)
    requires
        a + x == a + y,
    ensures
        x == y,
{
    assert(x =~= (a + x).skip(a.len() as int));
    assert(y =~= (a + y).skip(a.len() as int));
}

proof fn lemma_file_entry_not_dir(spec: Seq<char>, name: Seq<char>, dir: Seq<char>)
    requires
        spec == ":(exclude)"@ + name,
        name.len() > 0,
        name.last() != '*',
    ensures
        spec != ":(exclude)"@ + dir + "/**"@,
{
    reveal_strlit(":(exclude)");
    reveal_strlit("/**");
    if spec == ":(exclude)"@ + dir + "/**"@ {
        assert(spec[spec.len() - 1] == '*');
        assert(spec[spec.len() - 1] == name.last());
    }
}

/// The paths whose diffs are skipped agree with the pathspecs that keep them out of the
/// combined diff: a path below a directory excluded as `:(exclude)DIR/**` is skipped, and so
/// is a path that an entry excludes by its exact name.
pub proof fn lemma_excluded_pathspecs_are_skipped(path: Seq<char>, k: int, dir: Seq<char>)
    requires
        0 <= k < excluded_pathspecs().len(),
    ensures
        excluded_pathspecs()[k] == ":(exclude)"@ + dir + "/**"@ && in_dir(path, dir)
            ==> is_skipped_path(path),
        excluded_pathspecs()[k] == ":(exclude)"@ + path ==> is_skipped_path(path),
{
    reveal_strlit(":(exclude)");
    reveal_strlit("/**");
    let specs = excluded_pathspecs();
    assert(specs.len() == 22);
    if k == 0 {
        reveal_strlit(":(exclude)Cargo.lock");
        reveal_strlit("Cargo.lock");
        assert(specs[k] =~= ":(exclude)"@ + "Cargo.lock"@);
        lemma_file_entry_not_dir(specs[k], "Cargo.lock"@, dir);
        if specs[k] == ":(exclude)"@ + path {
            lemma_after_prefix(":(exclude)"@, path, "Cargo.lock"@);
        }
    }
    if k == 1 {
        reveal_strlit(":(exclude)package-lock.json");
        reveal_strlit("package-lock.json");
        assert(specs[k] =~= ":(exclude)"@ + "package-lock.json"@);
        lemma_file_entry_not_dir(specs[k], "package-lock.json"@, dir);
        if specs[k] == ":(exclude)"@ + path {
            lemma_after_prefix(":(exclude)"@, path, "package-lock.json"@);
        }
    }
    if k == 2 {
        reveal_strlit(":(exclude)pnpm-lock.yaml");
        reveal_strlit("pnpm-lock.yaml");
        assert(specs[k] =~= ":(exclude)"@ + "pnpm-lock.yaml"@);
        lemma_file_entry_not_dir(specs[k], "pnpm-lock.yaml"@, dir);
        if specs[k] == ":(exclude)"@ + path {
            lemma_after_prefix(":(exclude)"@, path, "pnpm-lock.yaml"@);
        }
    }
    if k == 3 {
        reveal_strlit(":(exclude)yarn.lock");
        reveal_strlit("yarn.lock");
        assert(specs[k] =~= ":(exclude)"@ + "yarn.lock"@);
        lemma_file_entry_not_dir(specs[k], "yarn.lock"@, dir);
        if specs[k] == ":(exclude)"@ + path {
            lemma_after_prefix(":(exclude)"@, path, "yarn.lock"@);
        }
    }
    if k == 4 {
        reveal_strlit(":(exclude)go.sum");
        reveal_strlit("go.sum");
        assert(specs[k] =~= ":(exclude)"@ + "go.sum"@);
        lemma_file_entry_not_dir(specs[k], "go.sum"@, dir);
        if specs[k] == ":(exclude)"@ + path {
            lemma_after_prefix(":(exclude)"@, path, "go.sum"@);
        }
    }
    if k == 5 {
        reveal_strlit(":(exclude)dist/**");
        reveal_strlit("dist");
        assert(specs[k] =~= ":(exclude)"@ + "dist"@ + "/**"@);
        if specs[k] == ":(exclude)"@ + dir + "/**"@ {
            lemma_dir_entry_names(specs[k], "dist"@, dir);
        }
        if specs[k] == ":(exclude)"@ + path {
            assert(specs[k] =~= ":(exclude)"@ + ("dist"@ + "/**"@));
            lemma_after_prefix(":(exclude)"@, path, "dist"@ + "/**"@);
            assert(path.take(4) =~= "dist"@);
        }
    }
    if k == 6 {
        reveal_strlit(":(exclude)build/**");
        reveal_strlit("build");
        assert(specs[k] =~= ":(exclude)"@ + "build"@ + "/**"@);
        if specs[k] == ":(exclude)"@ + dir + "/**"@ {
            lemma_dir_entry_names(specs[k], "build"@, dir);
        }
        if specs[k] == ":(exclude)"@ + path {
            assert(specs[k] =~= ":(exclude)"@ + ("build"@ + "/**"@));
            lemma_after_prefix(":(exclude)"@, path, "build"@ + "/**"@);
            assert(path.take(5) =~= "build"@);
        }
    }
    if k == 7 {
        reveal_strlit(":(exclude)target/**");
        reveal_strlit("target");
        assert(specs[k] =~= ":(exclude)"@ + "target"@ + "/**"@);
        if specs[k] == ":(exclude)"@ + dir + "/**"@ {
            lemma_dir_entry_names(specs[k], "target"@, dir);
        }
        if specs[k] == ":(exclude)"@ + path {
            assert(specs[k] =~= ":(exclude)"@ + ("target"@ + "/**"@));
            lemma_after_prefix(":(exclude)"@, path, "target"@ + "/**"@);
            assert(path.take(6) =~= "target"@);
        }
    }
    if k == 8 {
        reveal_strlit(":(exclude)node_modules/**");
        reveal_strlit("node_modules");
        assert(specs[k] =~= ":(exclude)"@ + "node_modules"@ + "/**"@);
        if specs[k] == ":(exclude)"@ + dir + "/**"@ {
            lemma_dir_entry_names(specs[k], "node_modules"@, dir);
        }
        if specs[k] == ":(exclude)"@ + path {
            assert(specs[k] =~= ":(exclude)"@ + ("node_modules"@ + "/**"@));
            lemma_after_prefix(":(exclude)"@, path, "node_modules"@ + "/**"@);
            assert(path.take(12) =~= "node_modules"@);
        }
    }
    if k == 9 {
        reveal_strlit(":(exclude)coverage/**");
        reveal_strlit("coverage");
        assert(specs[k] =~= ":(exclude)"@ + "coverage"@ + "/**"@);
        if specs[k] == ":(exclude)"@ + dir + "/**"@ {
            lemma_dir_entry_names(specs[k], "coverage"@, dir);
        }
        if specs[k] == ":(exclude)"@ + path {
            assert(specs[k] =~= ":(exclude)"@ + ("coverage"@ + "/**"@));
            lemma_after_prefix(":(exclude)"@, path, "coverage"@ + "/**"@);
            assert(path.take(8) =~= "coverage"@);
        }
    }
    if k == 10 {
        reveal_strlit(":(exclude).next/**");
        reveal_strlit(".next");
        assert(specs[k] =~= ":(exclude)"@ + ".next"@ + "/**"@);
        if specs[k] == ":(exclude)"@ + dir + "/**"@ {
            lemma_dir_entry_names(specs[k], ".next"@, dir);
        }
        if specs[k] == ":(exclude)"@ + path {
            assert(specs[k] =~= ":(exclude)"@ + (".next"@ + "/**"@));
            lemma_after_prefix(":(exclude)"@, path, ".next"@ + "/**"@);
            assert(path.take(5) =~= ".next"@);
        }
    }
    if k == 11 {
        reveal_strlit(":(exclude)out/**");
        reveal_strlit("out");
        assert(specs[k] =~= ":(exclude)"@ + "out"@ + "/**"@);
        if specs[k] == ":(exclude)"@ + dir + "/**"@ {
            lemma_dir_entry_names(specs[k], "out"@, dir);
        }
        if specs[k] == ":(exclude)"@ + path {
            assert(specs[k] =~= ":(exclude)"@ + ("out"@ + "/**"@));
            lemma_after_prefix(":(exclude)"@, path, "out"@ + "/**"@);
            assert(path.take(3) =~= "out"@);
        }
    }
    if k == 12 {
        reveal_strlit(":(exclude)vendor/**");
        reveal_strlit("vendor");
        assert(specs[k] =~= ":(exclude)"@ + "vendor"@ + "/**"@);
        if specs[k] == ":(exclude)"@ + dir + "/**"@ {
            lemma_dir_entry_names(specs[k], "vendor"@, dir);
        }
        if specs[k] == ":(exclude)"@ + path {
            assert(specs[k] =~= ":(exclude)"@ + ("vendor"@ + "/**"@));
            lemma_after_prefix(":(exclude)"@, path, "vendor"@ + "/**"@);
            assert(path.take(6) =~= "vendor"@);
        }
    }
    if k == 13 {
        reveal_strlit(":(exclude)tmp/**");
        reveal_strlit("tmp");
        assert(specs[k] =~= ":(exclude)"@ + "tmp"@ + "/**"@);
        if specs[k] == ":(exclude)"@ + dir + "/**"@ {
            lemma_dir_entry_names(specs[k], "tmp"@, dir);
        }
        if specs[k] == ":(exclude)"@ + path {
            assert(specs[k] =~= ":(exclude)"@ + ("tmp"@ + "/**"@));
            lemma_after_prefix(":(exclude)"@, path, "tmp"@ + "/**"@);
            assert(path.take(3) =~= "tmp"@);
        }
    }
    if k == 14 {
        reveal_strlit(":(exclude)temp/**");
        reveal_strlit("temp");
        assert(specs[k] =~= ":(exclude)"@ + "temp"@ + "/**"@);
        if specs[k] == ":(exclude)"@ + dir + "/**"@ {
            lemma_dir_entry_names(specs[k], "temp"@, dir);
        }
        if specs[k] == ":(exclude)"@ + path {
            assert(specs[k] =~= ":(exclude)"@ + ("temp"@ + "/**"@));
            lemma_after_prefix(":(exclude)"@, path, "temp"@ + "/**"@);
            assert(path.take(4) =~= "temp"@);
        }
    }
    if k == 15 {
        reveal_strlit(":(exclude)storybook-static/**");
        reveal_strlit("storybook-static");
        assert(specs[k] =~= ":(exclude)"@ + "storybook-static"@ + "/**"@);
        if specs[k] == ":(exclude)"@ + dir + "/**"@ {
            lemma_dir_entry_names(specs[k], "storybook-static"@, dir);
        }
        if specs[k] == ":(exclude)"@ + path {
            assert(specs[k] =~= ":(exclude)"@ + ("storybook-static"@ + "/**"@));
            lemma_after_prefix(":(exclude)"@, path, "storybook-static"@ + "/**"@);
            assert(path.take(16) =~= "storybook-static"@);
        }
    }
    if k == 16 {
        reveal_strlit(":(exclude).turbo/**");
        reveal_strlit(".turbo");
        assert(specs[k] =~= ":(exclude)"@ + ".turbo"@ + "/**"@);
        if specs[k] == ":(exclude)"@ + dir + "/**"@ {
            lemma_dir_entry_names(specs[k], ".turbo"@, dir);
        }
        if specs[k] == ":(exclude)"@ + path {
            assert(specs[k] =~= ":(exclude)"@ + (".turbo"@ + "/**"@));
            lemma_after_prefix(":(exclude)"@, path, ".turbo"@ + "/**"@);
            assert(path.take(6) =~= ".turbo"@);
        }
    }
    if k == 17 {
        reveal_strlit(":(exclude).parcel-cache/**");
        reveal_strlit(".parcel-cache");
        assert(specs[k] =~= ":(exclude)"@ + ".parcel-cache"@ + "/**"@);
        if specs[k] == ":(exclude)"@ + dir + "/**"@ {
            lemma_dir_entry_names(specs[k], ".parcel-cache"@, dir);
        }
        if specs[k] == ":(exclude)"@ + path {
            assert(specs[k] =~= ":(exclude)"@ + (".parcel-cache"@ + "/**"@));
            lemma_after_prefix(":(exclude)"@, path, ".parcel-cache"@ + "/**"@);
            assert(path.take(13) =~= ".parcel-cache"@);
        }
    }
    if k == 18 {
        reveal_strlit(":(exclude).svelte-kit/**");
        reveal_strlit(".svelte-kit");
        assert(specs[k] =~= ":(exclude)"@ + ".svelte-kit"@ + "/**"@);
        if specs[k] == ":(exclude)"@ + dir + "/**"@ {
            lemma_dir_entry_names(specs[k], ".svelte-kit"@, dir);
        }
        if specs[k] == ":(exclude)"@ + path {
            assert(specs[k] =~= ":(exclude)"@ + (".svelte-kit"@ + "/**"@));
            lemma_after_prefix(":(exclude)"@, path, ".svelte-kit"@ + "/**"@);
            assert(path.take(11) =~= ".svelte-kit"@);
        }
    }
    if k == 19 {
        reveal_strlit(":(exclude).nuxt/**");
        reveal_strlit(".nuxt");
        assert(specs[k] =~= ":(exclude)"@ + ".nuxt"@ + "/**"@);
        if specs[k] == ":(exclude)"@ + dir + "/**"@ {
            lemma_dir_entry_names(specs[k], ".nuxt"@, dir);
        }
        if specs[k] == ":(exclude)"@ + path {
            assert(specs[k] =~= ":(exclude)"@ + (".nuxt"@ + "/**"@));
            lemma_after_prefix(":(exclude)"@, path, ".nuxt"@ + "/**"@);
            assert(path.take(5) =~= ".nuxt"@);
        }
    }
    if k == 20 {
        reveal_strlit(":(exclude)public/build/**");
        reveal_strlit("public/build");
        assert(specs[k] =~= ":(exclude)"@ + "public/build"@ + "/**"@);
        if specs[k] == ":(exclude)"@ + dir + "/**"@ {
            lemma_dir_entry_names(specs[k], "public/build"@, dir);
        }
        if specs[k] == ":(exclude)"@ + path {
            assert(specs[k] =~= ":(exclude)"@ + ("public/build"@ + "/**"@));
            lemma_after_prefix(":(exclude)"@, path, "public/build"@ + "/**"@);
            assert(path.take(12) =~= "public/build"@);
        }
    }
    if k == 21 {
        reveal_strlit(":(exclude)bin/**");
        reveal_strlit("bin");
        assert(specs[k] =~= ":(exclude)"@ + "bin"@ + "/**"@);
        if specs[k] == ":(exclude)"@ + dir + "/**"@ {
            lemma_dir_entry_names(specs[k], "bin"@, dir);
        }
        if specs[k] == ":(exclude)"@ + path {
            assert(specs[k] =~= ":(exclude)"@ + ("bin"@ + "/**"@));
            lemma_after_prefix(":(exclude)"@, path, "bin"@ + "/**"@);
            assert(path.take(3) =~= "bin"@);
        }
    }
}

/// The `git` commands that collecting changes runs.
pub enum GitQuery {
    /// `git rev-parse --is-inside-work-tree`
    RepoCheck,
    /// `git diff --staged`, to learn whether anything is staged
    StagedProbe,
    /// `git branch --show-current`
    Branch,
    /// `git status --short`
    StatusShort,
    /// `git diff [--staged] --stat`
    DiffStat,
    /// `git diff [--staged] --numstat`
    DiffNumstat,
    /// `git diff [--staged] --name-only`
    DiffNameOnly,
    /// `git diff [--staged] -- . <excluded pathspecs>`
    FilteredDiff,
    /// `git diff [--staged] -- <path>`
    PathDiff(String),
}

/// `--staged` when the staged changes are read.
pub open spec fn staged_flag(staged: bool) -> Seq<Seq<char>> {
    if staged {
        seq!["--staged"@]
    } else {
        Seq::empty()
    }
}

/// The arguments given to `git` for a query.
pub open spec fn git_args_of(q: GitQuery, staged: bool) -> Seq<Seq<char>> {
    match q {
        GitQuery::RepoCheck => seq!["rev-parse"@, "--is-inside-work-tree"@],
        GitQuery::StagedProbe => seq!["diff"@, "--staged"@],
        GitQuery::Branch => seq!["branch"@, "--show-current"@],
        GitQuery::StatusShort => seq!["status"@, "--short"@],
        GitQuery::DiffStat => seq!["diff"@] + staged_flag(staged) + seq!["--stat"@],
        GitQuery::DiffNumstat => seq!["diff"@] + staged_flag(staged) + seq!["--numstat"@],
        GitQuery::DiffNameOnly => seq!["diff"@] + staged_flag(staged) + seq!["--name-only"@],
        GitQuery::FilteredDiff => seq!["diff"@] + staged_flag(staged) + seq!["--"@, "."@]
            + excluded_pathspecs(),
        GitQuery::PathDiff(path) => seq!["diff"@] + staged_flag(staged) + seq!["--"@, path@],
    }
}

fn push_arg(args: &mut Vec<String>, a: &str)
    ensures
        views(final(args)@) == views(old(args)@).push(a@),
{
    args.push(String::from_str(a));
    assert(views(final(args)@) =~= views(old(args)@).push(a@));
}

fn push_staged(args: &mut Vec<String>, staged: bool)
    ensures
        views(final(args)@) == views(old(args)@) + staged_flag(staged),
{
    if staged {
        push_arg(args, "--staged");
    }
    assert(views(final(args)@) =~= views(old(args)@) + staged_flag(staged));
}

fn push_excluded_pathspecs(args: &mut Vec<String>)
    ensures
        views(final(args)@) == views(old(args)@) + excluded_pathspecs(),
{
    push_arg(args, ":(exclude)Cargo.lock");
    push_arg(args, ":(exclude)package-lock.json");
    push_arg(args, ":(exclude)pnpm-lock.yaml");
    push_arg(args, ":(exclude)yarn.lock");
    push_arg(args, ":(exclude)go.sum");
    push_arg(args, ":(exclude)dist/**");
    push_arg(args, ":(exclude)build/**");
    push_arg(args, ":(exclude)target/**");
    push_arg(args, ":(exclude)node_modules/**");
    push_arg(args, ":(exclude)coverage/**");
    push_arg(args, ":(exclude).next/**");
    push_arg(args, ":(exclude)out/**");
    push_arg(args, ":(exclude)vendor/**");
    push_arg(args, ":(exclude)tmp/**");
    push_arg(args, ":(exclude)temp/**");
    push_arg(args, ":(exclude)storybook-static/**");
    push_arg(args, ":(exclude).turbo/**");
    push_arg(args, ":(exclude).parcel-cache/**");
    push_arg(args, ":(exclude).svelte-kit/**");
    push_arg(args, ":(exclude).nuxt/**");
    push_arg(args, ":(exclude)public/build/**");
    push_arg(args, ":(exclude)bin/**");
    assert(views(final(args)@) =~= views(old(args)@) + excluded_pathspecs());
}

/// The arguments to give `git` for `query`, reading staged changes when `staged`.
pub fn git_args(query: &GitQuery, staged: bool) -> (r: Vec<String>)
    ensures
        views(r@) == git_args_of(*query, staged),
{
    let mut r: Vec<String> = Vec::new();
    match query {
        GitQuery::RepoCheck => {
            push_arg(&mut r, "rev-parse");
            push_arg(&mut r, "--is-inside-work-tree");
        },
        GitQuery::StagedProbe => {
            push_arg(&mut r, "diff");
            push_arg(&mut r, "--staged");
        },
        GitQuery::Branch => {
            push_arg(&mut r, "branch");
            push_arg(&mut r, "--show-current");
        },
        GitQuery::StatusShort => {
            push_arg(&mut r, "status");
            push_arg(&mut r, "--short");
        },
        GitQuery::DiffStat => {
            push_arg(&mut r, "diff");
            push_staged(&mut r, staged);
            push_arg(&mut r, "--stat");
        },
        GitQuery::DiffNumstat => {
            push_arg(&mut r, "diff");
            push_staged(&mut r, staged);
            push_arg(&mut r, "--numstat");
        },
        GitQuery::DiffNameOnly => {
            push_arg(&mut r, "diff");
            push_staged(&mut r, staged);
            push_arg(&mut r, "--name-only");
        },
        GitQuery::FilteredDiff => {
            push_arg(&mut r, "diff");
            push_staged(&mut r, staged);
            push_arg(&mut r, "--");
            push_arg(&mut r, ".");
            push_excluded_pathspecs(&mut r);
        },
        GitQuery::PathDiff(path) => {
            push_arg(&mut r, "diff");
            push_staged(&mut r, staged);
            push_arg(&mut r, "--");
            push_arg(&mut r, path.as_str());
        },
    }
    assert(views(r@) =~= git_args_of(*query, staged));
    r
}


/// `git ` followed by the arguments joined by spaces.
pub open spec fn command_line(args: Seq<Seq<char>>) -> Seq<char> {
    "git "@ + join(args, " "@)
}

impl CommandResult {
    /// The record of running `git` with `args`, from what it printed: stderr is kept
    /// only when it is not blank.
    pub fn from_output(args: &Vec<String>, stdout: String, stderr: String) -> (r: CommandResult)
        ensures
            r.command@ == command_line(views(args@)),
            r.output == stdout,
            r.error == (if trimmed(stderr@).len() == 0 {
                None
            } else {
                Some(stderr)
            }),
    {
        let mut command = String::from_str("git ");
        let joined = join_strings(args, " ");
        command.append(joined.as_str());
        let error = if is_blank(stderr.as_str()) {
            None
        } else {
            Some(stderr)
        };
        CommandResult { command, output: stdout, error }
    }
}

/// Whether the staged changes are the ones to read: always with `staged`, and otherwise
/// when `git diff --staged` printed something that is not blank (`staged_probe_output`,
/// which is only read when `staged` is false).
pub fn use_staged_changes(staged: bool, staged_probe_output: &str) -> (r: bool)
    ensures
        r == (staged || trimmed(staged_probe_output@).len() > 0),
{
    staged || !is_blank(staged_probe_output)
}

/// The marker appended to a truncated diff.
pub open spec fn diff_truncation_marker() -> Seq<char> {
    "\n\n[diff truncated by paladin]"@
}

/// The diff text that is sent on: unchanged when it has at most `max` characters,
/// otherwise its first `max` characters and the truncation marker.
pub open spec fn limited_diff(diff: Seq<char>, max: nat) -> Seq<char> {
    if diff.len() > max {
        take_chars(diff, max) + diff_truncation_marker()
    } else {
        diff
    }
}

/// A diff that is sent on never exceeds the limit by more than the marker, and keeps the
/// original's first characters.
pub proof fn lemma_limited_diff_bounded(diff: Seq<char>, max: nat)
    ensures
        limited_diff(diff, max).len() <= max + diff_truncation_marker().len(),
        limited_diff(diff, max).take(
            if diff.len() <= max {
                diff.len() as int
            } else {
                max as int
            },
        ) == diff.take(
            if diff.len() <= max {
                diff.len() as int
            } else {
                max as int
            },
        ),
{
    if diff.len() > max {
        let t = take_chars(diff, max);
        assert((t + diff_truncation_marker()).take(max as int) =~= diff.take(max as int));
    } else {
        assert(diff.take(diff.len() as int) =~= diff);
    }
}

/// Why changes could not be collected.
pub enum RepoError {
    /// `git rev-parse --is-inside-work-tree` did not succeed.
    NotARepository,
}

impl RepoError {
    /// The error's text.
    pub fn message(&self) -> (r: String)
        ensures
            r@ == "current directory is not inside a Git repository"@,
    {
        String::from_str("current directory is not inside a Git repository")
    }
}

/// What the repository check (`git_args(&GitQuery::RepoCheck, _)`) leads to: collecting
/// goes on only when it succeeded.
pub fn repo_check(succeeded: bool) -> (r: Result<(), RepoError>)
    ensures
        r is Ok <==> succeeded,
{
    if succeeded {
        Ok(())
    } else {
        Err(RepoError::NotARepository)
    }
}

/// The query that learns whether anything is staged: run only without `--staged`.
pub fn staged_probe_query(staged: bool) -> (r: Option<Vec<String>>)
    ensures
        r is None <==> staged,
        r matches Some(args) ==> views(args@) == git_args_of(GitQuery::StagedProbe, false),
{
    if staged {
        None
    } else {
        Some(git_args(&GitQuery::StagedProbe, false))
    }
}

/// The queries whose outputs fill a change set, in this order: branch, short status, diff
/// stat, diff numstat, name-only listing, combined diff; all of them read the staged
/// changes exactly when `use_staged`.
pub open spec fn collection_args(use_staged: bool) -> Seq<Seq<Seq<char>>> {
    seq![
        git_args_of(GitQuery::Branch, use_staged),
        git_args_of(GitQuery::StatusShort, use_staged),
        git_args_of(GitQuery::DiffStat, use_staged),
        git_args_of(GitQuery::DiffNumstat, use_staged),
        git_args_of(GitQuery::DiffNameOnly, use_staged),
        git_args_of(GitQuery::FilteredDiff, use_staged),
    ]
}

/// Whether the staged changes are read: with `staged`, or when the staged probe printed
/// something that is not blank.
pub open spec fn reads_staged(staged: bool, staged_probe_output: Seq<char>) -> bool {
    staged || trimmed(staged_probe_output).len() > 0
}

/// The queries that fill a change set (see `collection_args`), for the staged changes with
/// `staged` or when something is staged (`staged_probe_output` is what the staged probe
/// printed; it is not read with `staged`), for the unstaged changes otherwise.
pub fn collection_queries(staged: bool, staged_probe_output: &str) -> (r: Vec<Vec<String>>)
    ensures
        r@.len() == 6,
        forall|k: int|
            0 <= k < 6 ==> views((#[trigger] r@[k])@) == collection_args(
                reads_staged(staged, staged_probe_output@),
            )[k],
{
    let use_staged = use_staged_changes(staged, staged_probe_output);
    let mut r: Vec<Vec<String>> = Vec::new();
    r.push(git_args(&GitQuery::Branch, use_staged));
    r.push(git_args(&GitQuery::StatusShort, use_staged));
    r.push(git_args(&GitQuery::DiffStat, use_staged));
    r.push(git_args(&GitQuery::DiffNumstat, use_staged));
    r.push(git_args(&GitQuery::DiffNameOnly, use_staged));
    r.push(git_args(&GitQuery::FilteredDiff, use_staged));
    r
}

/// The arguments of the query for one path's diff.
pub open spec fn path_diff_args(path: Seq<char>, use_staged: bool) -> Seq<Seq<char>> {
    seq!["diff"@] + staged_flag(use_staged) + seq!["--"@, path]
}

/// The queries for the diff of each path of the name-only listing that is not skipped,
/// in the order of `diffable_paths`.
pub fn file_diff_queries(use_staged: bool, name_only_output: &str) -> (r: Vec<Vec<String>>)
    ensures
        r@.len() == diffable_paths(name_only_output@).len(),
        forall|k: int|
            0 <= k < r@.len() ==> views((#[trigger] r@[k])@) == path_diff_args(
                diffable_paths(name_only_output@)[k],
                use_staged,
            ),
{
    let paths = file_diff_paths(name_only_output);
    let mut r: Vec<Vec<String>> = Vec::new();
    let mut i: usize = 0;
    while i < paths.len()
        invariant
            i <= paths.len(),
            views(paths@) == diffable_paths(name_only_output@),
            r@.len() == i,
            forall|k: int|
                0 <= k < i ==> views((#[trigger] r@[k])@) == path_diff_args(
                    views(paths@)[k],
                    use_staged,
                ),
        decreases paths.len() - i,
    {
        let q = GitQuery::PathDiff(paths[i].clone());
        let args = git_args(&q, use_staged);
        assert(views(paths@)[i as int] == paths@[i as int]@);
        r.push(args);
        i = i + 1;
    }
    r
}

/// Builds the change set from what the queries printed: `outputs[k]` is what
/// `collection_queries(staged, staged_probe_output)[k]` printed, and `path_diffs[k]` what
/// `file_diff_queries(..)[k]` printed for the name-only listing `outputs[4]`. The combined
/// diff is truncated to `max_diff_chars` characters (and marked so), each diffable path is
/// paired with its own diff, and the skipped paths are listed.
pub fn collect_changes(
    staged: bool,
    staged_probe_output: &str,
    max_diff_chars: usize,
    outputs: Vec<CommandResult>,
    path_diffs: Vec<String>,
) -> (r: GitChangeSet)
    requires
        outputs@.len() == 6,
        path_diffs@.len() == diffable_paths(outputs@[4].output@).len(),
    ensures
        r.staged == reads_staged(staged, staged_probe_output@),
        r.branch == outputs@[0],
        r.status_short == outputs@[1],
        r.diff_stat == outputs@[2],
        r.diff_numstat == outputs@[3],
        r.diff_name_only == outputs@[4],
        r.diff_truncated == (outputs@[5].output@.len() > max_diff_chars),
        r.diff.output@ == limited_diff(outputs@[5].output@, max_diff_chars as nat),
        r.diff.command == outputs@[5].command,
        r.diff.error == outputs@[5].error,
        r.file_diffs@.len() == diffable_paths(outputs@[4].output@).len(),
        forall|k: int|
            0 <= k < r.file_diffs@.len() ==> {
                &&& (#[trigger] r.file_diffs@[k]).path@ == diffable_paths(outputs@[4].output@)[k]
                &&& r.file_diffs@[k].diff == path_diffs@[k]
            },
        views(r.skipped_diff_paths@) == skipped_paths(outputs@[4].output@),
{
    let use_staged = use_staged_changes(staged, staged_probe_output);
    let ghost all = outputs@;
    let mut outputs = outputs;
    let branch = outputs.remove(0);
    let status_short = outputs.remove(0);
    let diff_stat = outputs.remove(0);
    let diff_numstat = outputs.remove(0);
    let diff_name_only = outputs.remove(0);
    let diff = outputs.remove(0);
    let CommandResult { command, output, error } = diff;
    let count: usize = output.as_str().unicode_len();
    let diff_truncated = count > max_diff_chars;
    let output = if diff_truncated {
        let mut limited = String::from_str(take_prefix(output.as_str(), max_diff_chars));
        limited.append("\n\n[diff truncated by paladin]");
        limited
    } else {
        output
    };
    let paths = file_diff_paths(diff_name_only.output.as_str());
    let skipped_diff_paths = collect_excluded_paths(diff_name_only.output.as_str());
    let mut file_diffs: Vec<FileDiff> = Vec::new();
    let mut i: usize = 0;
    while i < paths.len()
        invariant
            i <= paths.len(),
            paths@.len() == path_diffs@.len(),
            views(paths@) == diffable_paths(diff_name_only.output@),
            file_diffs@.len() == i,
            forall|k: int|
                0 <= k < i ==> {
                    &&& (#[trigger] file_diffs@[k]).path@ == views(paths@)[k]
                    &&& file_diffs@[k].diff == path_diffs@[k]
                },
        decreases paths.len() - i,
    {
        file_diffs.push(FileDiff { path: paths[i].clone(), diff: path_diffs[i].clone() });
        i = i + 1;
    }
    GitChangeSet {
        branch,
        status_short,
        diff_stat,
        diff_numstat,
        diff_name_only,
        diff: CommandResult { command, output, error },
        file_diffs,
        skipped_diff_paths,
        staged: use_staged,
        diff_truncated,
    }
}

/// Whether there is an actual diff to send to the model: at least one file diff remains
/// once the skipped paths are left out.
pub fn has_changes(changes: &GitChangeSet) -> (b: bool)
    ensures
        b == (changes.file_diffs@.len() > 0),
{
    changes.file_diffs.len() > 0
}

/// What a `git` command that must succeed leads to: nothing when it succeeded, otherwise
/// the report `` `git <args>` failed:`` followed by a newline and what it wrote to stderr.
pub fn checked_outcome(args: &[String], succeeded: bool, stderr: &str) -> (r: Result<(), String>)
    ensures
        r is Ok <==> succeeded,
        r matches Err(m) ==> m@ == "`"@ + command_line(views(args@)) + "` failed:\n"@ + stderr@,
{
    if succeeded {
        return Ok(());
    }
    let mut m = String::from_str("`");
    m.append("git ");
    let mut parts: Vec<String> = Vec::new();
    let mut i: usize = 0;
    while i < args.len()
        invariant
            i <= args.len(),
            views(parts@) == views(args@).take(i as int),
        decreases args.len() - i,
    {
        let ghost prev = views(parts@);
        parts.push(args[i].clone());
        assert(views(parts@) =~= prev.push(args@[i as int]@));
        assert(views(args@).take(i + 1) =~= views(args@).take(i as int).push(args@[i as int]@));
        i = i + 1;
    }
    assert(views(args@).take(args.len() as int) =~= views(args@));
    let joined = join_strings(&parts, " ");
    m.append(joined.as_str());
    m.append("` failed:\n");
    m.append(stderr);
    assert(m@ =~= "`"@ + command_line(views(args@)) + "` failed:\n"@ + stderr@);
    Err(m)
}

/// A body line as it goes into a commit message: trimmed, without leading `- ` markers,
/// behind one `- `.
pub open spec fn bullet(line: Seq<char>) -> Seq<char> {
    "- "@ + strip_prefixes(trimmed(line), "- "@)
}

/// The bullets of each body line.
pub open spec fn bullets(body: Seq<Seq<char>>) -> Seq<Seq<char>> {
    body.map_values(|l: Seq<char>| bullet(l))
}

/// The arguments of `git commit` for a path-based commit: the message, the body as a
/// second paragraph of bullets when there is one, then `--` and the paths.
pub open spec fn commit_args_of(message: Seq<char>, body: Seq<Seq<char>>, paths: Seq<Seq<char>>)
    -> Seq<Seq<char>> {
    seq!["commit"@, "-m"@, message] + (if body.len() > 0 {
        seq!["-m"@, join(bullets(body), "\n"@)]
    } else {
        Seq::empty()
    }) + seq!["--"@] + paths
}

/// Why a path-based commit could not be made.
pub enum CommitPathsError {
    /// There were no files to commit.
    NoFiles,
}

impl CommitPathsError {
    /// The error's text.
    pub fn message(&self) -> (r: String)
        ensures
            r@ == "cannot create a path-based commit without files"@,
    {
        String::from_str("cannot create a path-based commit without files")
    }
}

/// `- line`, with the line trimmed and its leading `- ` markers removed.
pub fn bullet_line(line: &str) -> (r: String)
    ensures
        r@ == bullet(line@),
{
    let mut r = String::from_str("- ");
    r.append(trim_start_matches(trim_str(line), "- "));
    r
}

/// The arguments to give `git` to commit exactly `paths` with `message` and `body`;
/// refused when there are no paths.
pub fn commit_paths(message: &str, body: &[String], paths: &[String]) -> (r: Result<
    Vec<String>,
    CommitPathsError,
>)
    ensures
        paths@.len() == 0 <==> r is Err,
        r matches Ok(args) ==> views(args@) == commit_args_of(message@, views(body@), views(paths@)),
{
    if paths.len() == 0 {
        return Err(CommitPathsError::NoFiles);
    }
    let mut args: Vec<String> = Vec::new();
    push_arg(&mut args, "commit");
    push_arg(&mut args, "-m");
    push_arg(&mut args, message);
    if body.len() > 0 {
        let mut lines: Vec<String> = Vec::new();
        let mut i: usize = 0;
        while i < body.len()
            invariant
                i <= body.len(),
                views(lines@) == bullets(views(body@)).take(i as int),
            decreases body.len() - i,
        {
            let ghost prev = views(lines@);
            let line = bullet_line(body[i].as_str());
            lines.push(line);
            assert(views(lines@) =~= prev.push(line@));
            assert(views(body@)[i as int] == body@[i as int]@);
            assert(bullets(views(body@))[i as int] == bullet(body@[i as int]@));
            assert(bullets(views(body@)).take(i + 1) =~= bullets(views(body@)).take(
                i as int,
            ).push(bullet(body@[i as int]@)));
            i = i + 1;
            assert(views(lines@) =~= bullets(views(body@)).take(i as int));
        }
        assert(bullets(views(body@)).take(body.len() as int) =~= bullets(views(body@)));
        let joined = join_strings(&lines, "\n");
        push_arg(&mut args, "-m");
        push_arg(&mut args, joined.as_str());
    }
    push_arg(&mut args, "--");
    let ghost mid = views(args@);
    let mut i: usize = 0;
    while i < paths.len()
        invariant
            i <= paths.len(),
            views(args@) == mid + views(paths@).take(i as int),
        decreases paths.len() - i,
    {
        push_arg(&mut args, paths[i].as_str());
        i = i + 1;
        assert(views(args@) =~= mid + views(paths@).take(i as int));
    }
    assert(views(paths@).take(paths.len() as int) =~= views(paths@));
    assert(views(args@) =~= commit_args_of(message@, views(body@), views(paths@)));
    Ok(args)
}


proof fn lemma_select_paths_contains(lines: Seq<Seq<char>>, skipped: bool, p: Seq<char>)
    ensures
        select_paths(lines, skipped).contains(p) <==> (lines.contains(p) && is_skipped_path(p)
            == skipped),
    decreases lines.len(),
{
    if lines.len() > 0 {
        let rest = lines.drop_last();
        lemma_select_paths_contains(rest, skipped, p);
        let prev = select_paths(rest, skipped);
        let last = lines.last();
        if lines.contains(p) && is_skipped_path(p) == skipped {
            let k = choose|k: int| 0 <= k < lines.len() && lines[k] == p;
            if k < lines.len() - 1 {
                assert(rest[k] == p);
                if is_skipped_path(last) == skipped {
                    let j = choose|j: int| 0 <= j < prev.len() && prev[j] == p;
                    assert(prev.push(last)[j] == p);
                }
            } else {
                assert(prev.push(last)[prev.len() as int] == p);
            }
        }
        if select_paths(lines, skipped).contains(p) {
            if is_skipped_path(last) == skipped {
                let j = choose|j: int|
                    0 <= j < prev.push(last).len() && prev.push(last)[j] == p;
                if j < prev.len() {
                    assert(prev[j] == p);
                    let k = choose|k: int| 0 <= k < rest.len() && rest[k] == p;
                    assert(lines[k] == p);
                } else {
                    assert(lines[lines.len() - 1] == p);
                }
            } else {
                let k = choose|k: int| 0 <= k < rest.len() && rest[k] == p;
                assert(lines[k] == p);
            }
        }
    }
}

/// The arguments of `git add` that stage exactly `paths`, new and deleted files included.
pub fn add_args(paths: &Vec<String>) -> (r: Vec<String>)
    ensures
        views(r@) == seq!["add"@, "-A"@, "--"@] + views(paths@),
{
    let mut args: Vec<String> = Vec::new();
    push_arg(&mut args, "add");
    push_arg(&mut args, "-A");
    push_arg(&mut args, "--");
    let ghost head = views(args@);
    let mut i: usize = 0;
    while i < paths.len()
        invariant
            i <= paths.len(),
            head == seq!["add"@, "-A"@, "--"@],
            views(args@) == head + views(paths@).take(i as int),
        decreases paths.len() - i,
    {
        push_arg(&mut args, paths[i].as_str());
        i = i + 1;
        assert(views(args@) =~= head + views(paths@).take(i as int));
    }
    assert(views(paths@).take(paths.len() as int) =~= views(paths@));
    args
}

proof fn lemma_select_paths_sizes(lines: Seq<Seq<char>>)
    ensures
        select_paths(lines, true).len() + select_paths(lines, false).len() == lines.len(),
    decreases lines.len(),
{
    if lines.len() > 0 {
        lemma_select_paths_sizes(lines.drop_last());
    }
}

/// The name-only listing is not blank exactly when it names a path; every listed path is
/// then either diffed on its own or reported as skipped.
pub proof fn lemma_changes_are_listed(name_only: Seq<char>)
    ensures
        trimmed(name_only).len() > 0 <==> diffable_paths(name_only).len() + skipped_paths(
            name_only,
        ).len() > 0,
        diffable_paths(name_only).len() + skipped_paths(name_only).len() == nonblank_lines(
            name_only,
        ).len(),
{
    crate::text::lemma_nonblank_lines_exist(name_only);
    lemma_select_paths_sizes(nonblank_lines(name_only));
}

/// Every path of the name-only listing is either diffed on its own or reported as
/// skipped, never both, and nothing else is.
pub proof fn lemma_paths_partition(name_only: Seq<char>, p: Seq<char>)
    ensures
        diffable_paths(name_only).contains(p) <==> (nonblank_lines(name_only).contains(p)
            && !is_skipped_path(p)),
        skipped_paths(name_only).contains(p) <==> (nonblank_lines(name_only).contains(p)
            && is_skipped_path(p)),
        !(diffable_paths(name_only).contains(p) && skipped_paths(name_only).contains(p)),
{
    lemma_select_paths_contains(nonblank_lines(name_only), false, p);
    lemma_select_paths_contains(nonblank_lines(name_only), true, p);
}

} // verus!
