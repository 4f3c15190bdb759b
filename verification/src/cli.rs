use vstd::prelude::*;

use vstd::string::StringExecFns;

verus! {

/// The command line: one subcommand.
pub struct Cli {
    pub command: Commands,
}

/// The subcommands.
pub enum Commands {
    /// Analyze the current Git diff and create conventional commits.
    Commit(CommitArgs),
}

/// The options of `paladin commit`.
pub struct CommitArgs {
    /// Only analyze already-staged changes.
    pub staged: bool,
    /// Skip confirmation and create the commits directly.
    pub yes: bool,
    /// Ollama model name.
    pub model: String,
    /// Optional fallback Ollama model if the primary one fails.
    pub fallback_model: Option<String>,
    /// Ollama base URL.
    pub ollama_url: String,
    /// Maximum diff characters sent to the model.
    pub max_diff_chars: usize,
    /// Maximum number of commit suggestions in a generated plan.
    pub max_commits: usize,
    /// Maximum changed files sent in a single model request.
    pub max_files_per_batch: usize,
    /// Maximum diff characters sent in a single model request batch.
    pub max_batch_chars: usize,
    /// Maximum characters of any single file diff in one request.
    pub max_file_diff_chars: usize,
    /// Retry attempts when the model returns invalid JSON.
    pub retries: usize,
    /// Disable the interactive terminal preview.
    pub no_tui: bool,
}

/// The model used when none is named.
pub const DEFAULT_MODEL: &'static str = "gemma4:e4b";

/// The Ollama server used when none is named.
pub const DEFAULT_OLLAMA_URL: &'static str = "http://localhost:11434";

impl Default for CommitArgs {
    /// The options when none is given on the command line or in the environment.
    fn default() -> (r: CommitArgs)
        ensures
            !r.staged,
            !r.yes,
            r.model@ == DEFAULT_MODEL@,
            r.fallback_model is None,
            r.ollama_url@ == DEFAULT_OLLAMA_URL@,
            r.max_diff_chars == 20_000,
            r.max_commits == 5,
            r.max_files_per_batch == 6,
            r.max_batch_chars == 8_000,
            r.max_file_diff_chars == 2_000,
            r.retries == 2,
            !r.no_tui,
    {
        CommitArgs {
            staged: false,
            yes: false,
            model: String::from_str(DEFAULT_MODEL),
            fallback_model: None,
            ollama_url: String::from_str(DEFAULT_OLLAMA_URL),
            max_diff_chars: 20_000,
            max_commits: 5,
            max_files_per_batch: 6,
            max_batch_chars: 8_000,
            max_file_diff_chars: 2_000,
            retries: 2,
            no_tui: false,
        }
    }
}

} // verus!
