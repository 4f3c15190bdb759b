use paladin::cli::CommitArgs;
use paladin::llm::ollama::{parse_error, read_error, OllamaClient, OllamaGenerateError};

#[test]
fn client_trims_url() {
    let c = OllamaClient::new("http://localhost:11434///".to_string(), "gemma4:e4b".to_string());
    assert_eq!(c.base_url(), "http://localhost:11434");
    assert_eq!(c.model(), "gemma4:e4b");
    assert_eq!(c.generate_url(), "http://localhost:11434/api/generate");
}

#[test]
fn reply_classification() {
    let c = OllamaClient::new("http://h".to_string(), "m".to_string());
    assert_eq!(c.classify_reply(200, "{}".to_string()).ok(), Some("{}".to_string()));
    assert_eq!(c.classify_reply(299, "b".to_string()).ok(), Some("b".to_string()));
    match c.classify_reply(500, "error: model failed to load, oom".to_string()) {
        Err(OllamaGenerateError::ModelLoadFailure { model, details }) => {
            assert_eq!(model, "m");
            assert_eq!(details, "error: model failed to load, oom");
        }
        _ => panic!(),
    }
    match c.classify_reply(500, "other".to_string()) {
        Err(e @ OllamaGenerateError::Http { .. }) => {
            assert_eq!(e.message(), "Ollama returned HTTP 500:\nother");
        }
        _ => panic!(),
    }
    match c.classify_reply(404, "model failed to load".to_string()) {
        Err(OllamaGenerateError::Http { status, .. }) => assert_eq!(status, 404),
        _ => panic!(),
    }
}

#[test]
fn error_texts() {
    let c = OllamaClient::new("http://h/".to_string(), "m".to_string());
    assert_eq!(
        c.transport_error("refused").message(),
        "failed to call Ollama at `http://h`; is Ollama running?\nrefused"
    );
    assert_eq!(read_error("eof").message(), "failed to read Ollama response\neof");
    assert_eq!(
        parse_error("bad", "body").message(),
        "failed to parse Ollama generate response\nbad\nraw body:\nbody"
    );
    let load = OllamaGenerateError::ModelLoadFailure { model: "m".to_string(), details: "d".to_string() };
    assert_eq!(load.message(), "Ollama could not load model `m`. This usually means the model is too large for available resources or Ollama hit an internal error.\nd");
}

#[test]
fn default_args() {
    let a = CommitArgs::default();
    assert_eq!(a.model, "gemma4:e4b");
    assert_eq!(a.ollama_url, "http://localhost:11434");
    assert_eq!(a.max_diff_chars, 20_000);
    assert_eq!(a.max_commits, 5);
    assert_eq!(a.max_files_per_batch, 6);
    assert_eq!(a.max_batch_chars, 8_000);
    assert_eq!(a.retries, 2);
    assert!(!a.staged && !a.yes && !a.no_tui && a.fallback_model.is_none());
}
