use vstd::prelude::*;

use crate::text::{contains_run, contains_str, strip_suffix_chars, trim_end_char};
use vstd::string::StringExecFns;

verus! {

/// The HTTP client of `reqwest`, carried through unopened.
#[verifier::external_type_specification]
#[verifier::external_body]
pub struct ExClient(reqwest::Client);

/// `reqwest::Client::new()`, a client with the default settings. Nothing is stated of the
/// client; the function panics when a TLS backend cannot be initialized or the system's
/// resolver configuration cannot be loaded, which depends on the machine and not on any
/// argument.
#[verifier::external_body]
fn new_http_client() -> reqwest::Client {
    reqwest::Client::new()
}

/// A client of one Ollama model at one server.
pub struct OllamaClient {
    base_url: String,
    model: String,
    http: reqwest::Client,
}

/// Why a generation request failed.
pub enum OllamaGenerateError {
    /// Ollama answered 500 because the model failed to load.
    ModelLoadFailure { model: String, details: String },
    /// Ollama answered with another status that is not a success.
    Http { status: u16, body: String },
    /// The request could not be sent, or the reply could not be read.
    Transport(String),
    /// The reply was not a generate response.
    Parse(String),
}

/// The text that each error is reported with.
pub open spec fn generate_error_text(e: OllamaGenerateError) -> Seq<char> {
    match e {
        OllamaGenerateError::ModelLoadFailure { model, details } => "Ollama could not load model `"@
            + model@
            + "`. This usually means the model is too large for available resources or Ollama hit an internal error.\n"@
            + details@,
        OllamaGenerateError::Http { status, body } => "Ollama returned HTTP "@ + crate::text::decimal(
            status as nat,
        ) + ":\n"@ + body@,
        OllamaGenerateError::Transport(message) => message@,
        OllamaGenerateError::Parse(message) => message@,
    }
}

impl OllamaGenerateError {
    /// The error's text.
    pub fn message(&self) -> (r: String)
        ensures
            r@ == generate_error_text(*self),
    {
        match self {
            OllamaGenerateError::ModelLoadFailure { model, details } => {
                let mut r = String::from_str("Ollama could not load model `");
                r.append(model.as_str());
                r.append(
                    "`. This usually means the model is too large for available resources or Ollama hit an internal error.\n",
                );
                r.append(details.as_str());
                r
            },
            OllamaGenerateError::Http { status, body } => {
                let mut r = String::from_str("Ollama returned HTTP ");
                let n = crate::text::decimal_string(*status as usize);
                r.append(n.as_str());
                r.append(":\n");
                r.append(body.as_str());
                r
            },
            OllamaGenerateError::Transport(message) => message.clone(),
            OllamaGenerateError::Parse(message) => message.clone(),
        }
    }
}

/// What a reply with HTTP status `status` and body `text` leads to: the body when the
/// status is a success (200 to 299); a model load failure on 500 when the body says that
/// the model failed to load; an HTTP error otherwise.
pub open spec fn reply_outcome(model: String, status: u16, text: String) -> Result<String, OllamaGenerateError> {
    if 200 <= status <= 299 {
        Ok(text)
    } else if status == 500 && contains_run(text@, "model failed to load"@) {
        Err(OllamaGenerateError::ModelLoadFailure { model, details: text })
    } else {
        Err(OllamaGenerateError::Http { status, body: text })
    }
}

/// A base URL with its trailing slashes dropped ends with no slash, so the endpoint path is
/// joined to it with exactly one.
pub proof fn lemma_base_url_has_no_trailing_slash(url: Seq<char>)
    ensures
        !crate::text::ends_with(strip_suffix_chars(url, '/'), '/'),
    decreases url.len(),
{
    if url.len() > 0 && url.last() == '/' {
        lemma_base_url_has_no_trailing_slash(url.drop_last());
    }
}

impl OllamaClient {
    /// The server's base URL, without trailing slashes.
    pub closed spec fn base_url_view(&self) -> Seq<char> {
        self.base_url@
    }

    /// The model's name.
    pub closed spec fn model_view(&self) -> Seq<char> {
        self.model@
    }

    /// The model's name, as the string the client holds.
    pub closed spec fn model_string(&self) -> String {
        self.model
    }


    /// A client for `model` at `base_url`; trailing slashes of the URL are dropped.
    pub fn new(base_url: String, model: String) -> (r: OllamaClient)
        ensures
            r.base_url_view() == strip_suffix_chars(base_url@, '/'),
            r.model_view() == model@,
    {
        OllamaClient {
            base_url: String::from_str(trim_end_char(base_url.as_str(), '/')),
            model,
            http: new_http_client(),
        }
    }

    /// The server's base URL.
    pub fn base_url(&self) -> (r: &str)
        ensures
            r@ == self.base_url_view(),
    {
        self.base_url.as_str()
    }

    /// The model's name.
    pub fn model(&self) -> (r: &str)
        ensures
            r@ == self.model_view(),
    {
        self.model.as_str()
    }

    /// The HTTP client that the client holds.
    pub closed spec fn http_client(&self) -> reqwest::Client {
        self.http
    }

    /// The HTTP client that requests go through: the one this client holds.
    pub fn http(&self) -> (r: &reqwest::Client)
        ensures
            *r == self.http_client(),
    {
        &self.http
    }

    /// The URL of the generate endpoint.
    pub fn generate_url(&self) -> (r: String)
        ensures
            r@ == self.base_url_view() + "/api/generate"@,
    {
        let mut r = self.base_url.clone();
        r.append("/api/generate");
        r
    }

    /// The error for a request that could not be sent.
    pub fn transport_error(&self, detail: &str) -> (r: OllamaGenerateError)
        ensures
            r matches OllamaGenerateError::Transport(m) && m@ == "failed to call Ollama at `"@
                + self.base_url_view() + "`; is Ollama running?\n"@ + detail@,
    {
        let mut m = String::from_str("failed to call Ollama at `");
        m.append(self.base_url.as_str());
        m.append("`; is Ollama running?\n");
        m.append(detail);
        OllamaGenerateError::Transport(m)
    }

    /// What a reply leads to: its body, or the error it stands for.
    pub fn classify_reply(&self, status: u16, text: String) -> (r: Result<String, OllamaGenerateError>)
        ensures
            r == reply_outcome(self.model_string(), status, text),
    {
        if 200 <= status && status <= 299 {
            return Ok(text);
        }
        if status == 500 && contains_str(text.as_str(), "model failed to load") {
            return Err(OllamaGenerateError::ModelLoadFailure { model: self.model.clone(), details: text });
        }
        Err(OllamaGenerateError::Http { status, body: text })
    }
}

/// The error for a reply whose body could not be read.
pub fn read_error(detail: &str) -> (r: OllamaGenerateError)
    ensures
        r matches OllamaGenerateError::Transport(m) && m@ == "failed to read Ollama response\n"@
            + detail@,
{
    let mut m = String::from_str("failed to read Ollama response\n");
    m.append(detail);
    OllamaGenerateError::Transport(m)
}

/// The error for a reply that is not a generate response.
pub fn parse_error(detail: &str, body: &str) -> (r: OllamaGenerateError)
    ensures
        r matches OllamaGenerateError::Parse(m) && m@ == "failed to parse Ollama generate response\n"@
            + detail@ + "\nraw body:\n"@ + body@,
{
    let mut m = String::from_str("failed to parse Ollama generate response\n");
    m.append(detail);
    m.append("\nraw body:\n");
    m.append(body);
    OllamaGenerateError::Parse(m)
}

} // verus!
