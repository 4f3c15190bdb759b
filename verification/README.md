# Paladin

A local CLI that asks a local Ollama model for a conventional commit plan for the current
Git diff, previews it, and creates the commits after confirmation.

Layout:

- `src/` is the verified library (Verus). It holds the tool's data, rules and decisions, as
  functions from plain values to plain values:
  - `text.rs`: character-level string operations (trimming, lines, joining, searching,
    decimal formatting), each specified over `Seq<char>`.
  - `git/`: which `git` commands run, which paths are skipped, how the change set is
    assembled and truncated, and the arguments of `git add` / `git commit`.
  - `commit/`: batching of file diffs, the prompts, the commit schema and its rules, the
    retry and fallback decisions, the check of a reviewed plan, confirmation and preview
    logic.
  - `llm/ollama.rs`: the Ollama client's URL handling and how a reply is classified.
  - `output/printer.rs`: the layout of the printed plan.
- `app/` is the program around it: argument parsing (clap), running `git`, HTTP calls to
  Ollama (reqwest, tokio) and the awaiting loops around them (retries, one request per
  batch, the review request), JSON decoding (serde), the terminal preview (ratatui,
  crossterm) and colored output. Each of these asks the library what to do next and
  hands it what came back.
- `tests/` exercises the library on concrete values.
