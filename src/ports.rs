use vstd::prelude::*;

use crate::error::Error;

verus! {

/// A language model. Each call returns one completion of `prompt`; what it returns is the
/// model's to decide.
pub trait LlmClient {
    fn chat_completion(&self, model: &String, prompt: &String) -> Result<String, Error>;
}

/// Renders an agent's prompt template with the body of the task (bound as both `prompt` and
/// `task`) and the agent's role.
pub trait PromptRenderer {
    fn render(&self, template: &String, body: &String, role: &String) -> Result<String, Error>;
}

/// A validator of samples: `Ok` keeps the sample, `Err(Error::RedFlag { .. })` rejects it.
pub trait RedFlagger {
    fn name(&self) -> String;

    fn check(&self, content: &String) -> Result<(), Error>;
}

/// The files that the applier writes.
pub trait FileSystem {
    fn read_to_string(&self, path: &String) -> Result<String, Error>;

    fn write(&self, path: &String, content: &String) -> Result<(), Error>;

    fn file_exists(&self, path: &String) -> bool;

    fn create_dir_all(&self, path: &String) -> Result<(), Error>;
}

/// Runs the shell commands of appliers and verifiers; `Ok(true)` when the command succeeded.
pub trait CommandRunner {
    fn run_shell(&self, command: &String) -> Result<bool, Error>;
}

/// The time, in milliseconds.
pub trait Clock {
    fn now_ms(&self) -> u128;
}

/// Where the runner's events go.
pub trait TelemetrySink {
    fn record_event(&self, event_name: &String, properties: Vec<(String, String)>);
}

/// A session as the store is asked to save it.
#[derive(Debug, Clone)]
pub struct SessionSaveRequest {
    pub session_id: String,
    pub domain: String,
    pub prompt: String,
    pub status: String,
    pub context_json: String,
    pub metadata_json: String,
}

/// A session as the store gives it back; `updated_at` is in unix seconds.
#[derive(Debug, Clone)]
pub struct SessionLoadResponse {
    pub session_id: String,
    pub domain: String,
    pub prompt: String,
    pub status: String,
    pub context_json: String,
    pub metadata_json: String,
    pub updated_at: i64,
}

/// Durable storage of sessions, keyed by session id.
pub trait SessionRepository {
    fn save_session(&self, request: &SessionSaveRequest) -> Result<(), Error>;

    fn load_session(&self, session_id: &String) -> Result<Option<SessionLoadResponse>, Error>;

    fn list_sessions(&self, limit: usize) -> Result<Vec<SessionLoadResponse>, Error>;
}

/// Asks `llm` for `n` completions of `prompt`, one call each, in order.
pub fn sample_n<L: LlmClient>(llm: &L, prompt: &String, n: usize, model: &String) -> (r: Result<
    Vec<String>,
    Error,
>)
    ensures
        r matches Ok(v) ==> v@.len() == n,
{
    let mut out: Vec<String> = Vec::new();
    let mut i: usize = 0;
    while i < n
        invariant
            i <= n,
            out@.len() == i,
        decreases n - i,
    {
        let s = llm.chat_completion(model, prompt)?;
        out.push(s);
        i = i + 1;
    }
    Ok(out)
}

} // verus!
