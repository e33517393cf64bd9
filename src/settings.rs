use vstd::prelude::*;

use crate::chars::{char_vec, slice_chars, string_of, trim_bounds, trimmed};
use crate::error::Error;
use crate::red_flags::same_text;

verus! {

// ---------------------------------------------------------------- paths

/// `dir` joined with `name`: a `/` between them unless `dir` is empty or ends with one.
pub open spec fn joined_path(dir: Seq<char>, name: Seq<char>) -> Seq<char> {
    if dir.len() == 0 {
        name
    } else if dir.last() == '/' {
        dir + name
    } else {
        dir + seq!['/'] + name
    }
}

pub fn join_path(dir: &String, name: &str) -> (r: String)
    ensures
        r@ == joined_path(dir@, name@),
{
    let v = char_vec(dir.as_str());
    if v.len() == 0 {
        String::from_str(name)
    } else if v[v.len() - 1] == '/' {
        dir.clone().concat(name)
    } else {
        proof {
            reveal_strlit("/");
        }
        dir.clone().concat("/").concat(name)
    }
}

/// The `.env` file of a home directory.
pub fn home_env_path(home: Option<String>) -> (r: Option<String>)
    ensures
        r matches Some(p) ==> home matches Some(h) && p@ == joined_path(h@, ".env"@),
        r is None <==> home is None,
{
    match home {
        Some(h) => Some(join_path(&h, ".env")),
        None => None,
    }
}

/// The `.env` files to probe, in order: the primary home's, then the fallback home's unless it
/// is the same file.
pub fn env_file_candidates_from(primary_home: Option<String>, fallback_home: Option<String>) -> (r: Vec<String>)
    ensures
        primary_home matches Some(p) ==> r@.len() >= 1 && r@[0]@ == joined_path(p@, ".env"@),
        fallback_home matches Some(f) ==> exists|i: int| 0 <= i < r@.len() && (#[trigger] r@[i])@ == joined_path(f@, ".env"@),
        r@.len() == (if primary_home is Some { 1int } else { 0 }) + (if fallback_home matches Some(f) && !(primary_home matches Some(p) && joined_path(p@, ".env"@) == joined_path(f@, ".env"@)) { 1int } else { 0 }),
{
    let mut candidates: Vec<String> = Vec::new();
    if let Some(home) = &primary_home {
        candidates.push(join_path(home, ".env"));
    }
    if let Some(fallback) = &fallback_home {
        let f = join_path(fallback, ".env");
        let duplicate = candidates.len() > 0 && same_text(candidates[0].as_str(), f.as_str());
        if !duplicate {
            let ghost fv = f@;
            candidates.push(f);
            assert(candidates@[candidates@.len() - 1]@ == fv);
        } else {
            assert(candidates@[0]@ == f@);
        }
    }
    candidates
}

pub fn env_file_candidates(primary_home: Option<String>, fallback_home: Option<String>) -> (r: Vec<String>)
    ensures
        primary_home matches Some(p) ==> r@.len() >= 1 && r@[0]@ == joined_path(p@, ".env"@),
{
    env_file_candidates_from(primary_home, fallback_home)
}

/// Where session state is kept: `.microfactory` under the home directory, else in the working
/// directory.
pub fn data_dir(home: Option<String>) -> (r: String)
    ensures
        home matches Some(h) ==> r@ == joined_path(h@, ".microfactory"@),
        home is None ==> r@ == ".microfactory"@,
{
    match home {
        Some(h) => join_path(&h, ".microfactory"),
        None => String::from_str(".microfactory"),
    }
}

// ---------------------------------------------------------------- keys and env files

/// A key given as `value`, trimmed, unless it is blank.
pub fn normalize_key(value: Option<String>) -> (r: Option<String>)
    ensures
        r matches Some(k) ==> value matches Some(v) && k@ == trimmed(v@) && k@.len() > 0,
        r is None <==> (value is None || (value matches Some(v) && trimmed(v@).len() == 0)),
{
    match value {
        Some(candidate) => {
            let t = crate::chars::trim_string(candidate.as_str());
            if t.as_str().unicode_len() == 0 {
                None
            } else {
                Some(t)
            }
        },
        None => None,
    }
}

/// The API key: the command line's if given and not blank, else the environment's, else a
/// `Config` error.
pub fn pick_api_key(cli_value: Option<String>, env_value: Option<String>) -> (r: Result<String, Error>)
    ensures
        (cli_value matches Some(c) && trimmed(c@).len() > 0) ==> (r matches Ok(k) && cli_value matches Some(c2) && k@ == trimmed(c2@)),
        !(cli_value matches Some(c) && trimmed(c@).len() > 0) && (env_value matches Some(e) && trimmed(e@).len() > 0)
            ==> (r matches Ok(k) && env_value matches Some(e2) && k@ == trimmed(e2@)),
        !(cli_value matches Some(c) && trimmed(c@).len() > 0) && !(env_value matches Some(e) && trimmed(e@).len() > 0)
            ==> (r matches Err(e) && e is Config),
{
    if let Some(key) = normalize_key(cli_value) {
        return Ok(key);
    }
    if let Some(key) = normalize_key(env_value) {
        return Ok(key);
    }
    Err(Error::Config(String::from_str("Missing API key")))
}

/// A value without one pair of matching quotes around it, after trimming.
pub open spec fn unquoted(raw: Seq<char>) -> Seq<char> {
    let t = trimmed(raw);
    if t.len() >= 2 && ((t[0] == '"' && t.last() == '"') || (t[0] == '\'' && t.last() == '\'')) {
        t.subrange(1, t.len() - 1)
    } else {
        t
    }
}

pub fn normalize_env_value(raw: &str) -> (r: String)
    ensures
        r@ == unquoted(raw@),
{
    let v = char_vec(raw);
    let (a, b) = trim_bounds(&v, 0, v.len());
    assert(v@.subrange(0, v@.len() as int) =~= v@);
    if b - a >= 2 && ((v[a] == '"' && v[b - 1] == '"') || (v[a] == '\'' && v[b - 1] == '\'')) {
        assert(v@.subrange(a + 1, b - 1) =~= v@.subrange(a as int, b as int).subrange(1, (b - a) - 1));
        string_of(&slice_chars(&v, a + 1, b - 1))
    } else {
        string_of(&slice_chars(&v, a, b))
    }
}

/// The assignment a line of an env file makes, if any: blank lines and `#` comments make none,
/// an `export ` prefix is dropped, the key is trimmed and must not be empty, and the value is
/// unquoted.
pub open spec fn assignment_of(line: Seq<char>) -> Option<(Seq<char>, Seq<char>)> {
    let t = trimmed(line);
    if t.len() == 0 || t[0] == '#' {
        None
    } else {
        let body = if crate::chars::starts_with(t, "export "@) {
            trimmed(t.subrange(7, t.len() as int))
        } else {
            t
        };
        match crate::chars::first_index(body, seq!['='], 0) {
            None => None,
            Some(eq) => {
                let key = trimmed(body.subrange(0, eq));
                if key.len() == 0 {
                    None
                } else {
                    Some((key, unquoted(body.subrange(eq + 1, body.len() as int))))
                }
            },
        }
    }
}

pub fn parse_env_assignment(line: &str) -> (r: Option<(String, String)>)
    ensures
        r matches Some(kv) ==> assignment_of(line@) == Some((kv.0@, kv.1@)),
        r is None ==> assignment_of(line@) is None,
{
    let v = char_vec(line);
    let (a, b) = trim_bounds(&v, 0, v.len());
    assert(v@.subrange(0, v@.len() as int) =~= v@);
    let t = slice_chars(&v, a, b);
    if t.len() == 0 || t[0] == '#' {
        return None;
    }
    let export = crate::chars::lit("export ");
    proof {
        reveal_strlit("export ");
    }
    let body = if crate::chars::occurs_at(&t, 0, &export) {
        let (c, d) = trim_bounds(&t, 7, t.len());
        slice_chars(&t, c, d)
    } else {
        assert(t@.subrange(0, t@.len() as int) =~= t@);
        t
    };
    let eq_sign = crate::chars::lit("=");
    proof {
        reveal_strlit("=");
        assert(eq_sign@ =~= seq!['=']);
    }
    match crate::chars::find_from(&body, &eq_sign, 0) {
        None => None,
        Some(eq) => {
            proof {
                crate::chars::lemma_first_index(body@, eq_sign@, 0);
            }
            let (c, d) = trim_bounds(&body, 0, eq);
            if d - c == 0 {
                return None;
            }
            let key = string_of(&slice_chars(&body, c, d));
            let rest = string_of(&slice_chars(&body, eq + 1, body.len()));
            let value = normalize_env_value(rest.as_str());
            Some((key, value))
        },
    }
}

// ---------------------------------------------------------------- command line

/// The language-model providers the command line offers.
#[derive(Debug, Clone, Copy, PartialEq, Eq, Structural)]
pub enum LlmProvider {
    Openai,
    Anthropic,
    Gemini,
    Grok,
}

pub open spec fn provider_name(p: LlmProvider) -> Seq<char> {
    match p {
        LlmProvider::Openai => "openai"@,
        LlmProvider::Anthropic => "anthropic"@,
        LlmProvider::Gemini => "gemini"@,
        LlmProvider::Grok => "grok"@,
    }
}

impl LlmProvider {
    /// The environment variable that holds the provider's API key.
    pub fn env_var(self) -> (r: &'static str)
        ensures
            self == LlmProvider::Openai ==> r@ == "OPENAI_API_KEY"@,
            self == LlmProvider::Anthropic ==> r@ == "ANTHROPIC_API_KEY"@,
            self == LlmProvider::Gemini ==> r@ == "GEMINI_API_KEY"@,
            self == LlmProvider::Grok ==> r@ == "XAI_API_KEY"@,
    {
        match self {
            LlmProvider::Openai => "OPENAI_API_KEY",
            LlmProvider::Anthropic => "ANTHROPIC_API_KEY",
            LlmProvider::Gemini => "GEMINI_API_KEY",
            LlmProvider::Grok => "XAI_API_KEY",
        }
    }

    pub fn as_str(self) -> (r: &'static str)
        ensures
            r@ == provider_name(self),
    {
        match self {
            LlmProvider::Openai => "openai",
            LlmProvider::Anthropic => "anthropic",
            LlmProvider::Gemini => "gemini",
            LlmProvider::Grok => "grok",
        }
    }

    /// The provider a name stands for.
    pub fn from_name(value: &str) -> (r: Option<LlmProvider>)
        ensures
            r matches Some(p) ==> provider_name(p) == value@,
            r is None ==> forall|p: LlmProvider| provider_name(p) != value@,
    {
        proof {
            reveal_strlit("openai");
            reveal_strlit("anthropic");
            reveal_strlit("gemini");
            reveal_strlit("grok");
        }
        if same_text(value, "openai") {
            Some(LlmProvider::Openai)
        } else if same_text(value, "anthropic") {
            Some(LlmProvider::Anthropic)
        } else if same_text(value, "gemini") {
            Some(LlmProvider::Gemini)
        } else if same_text(value, "grok") {
            Some(LlmProvider::Grok)
        } else {
            None
        }
    }
}

#[derive(Debug, Clone)]
pub struct RunArgs {
    pub prompt: String,
    pub config: String,
    pub domain: String,
    pub api_key: Option<String>,
    pub llm_model: String,
    pub llm_provider: LlmProvider,
    pub samples: usize,
    pub k: usize,
    pub adaptive_k: bool,
    pub max_concurrent_llm: usize,
    pub repo_path: Option<String>,
    pub dry_run: bool,
    pub step_by_step: bool,
}

#[derive(Debug, Clone)]
pub struct StatusArgs {
    pub session_id: Option<String>,
    pub limit: usize,
    pub json: bool,
}

impl Default for StatusArgs {
    fn default() -> (r: Self)
        ensures
            r.session_id is None,
            r.limit == 10,
            !r.json,
    {
        StatusArgs { session_id: None, limit: 10, json: false }
    }
}

#[derive(Debug, Clone)]
pub struct ResumeArgs {
    pub session_id: String,
    pub config: Option<String>,
    pub api_key: Option<String>,
    pub llm_provider: Option<LlmProvider>,
    pub llm_model: Option<String>,
    pub max_concurrent_llm: Option<usize>,
    pub samples: Option<usize>,
    pub k: Option<usize>,
}

#[derive(Debug, Clone)]
pub struct SubprocessArgs {
    pub domain: String,
    pub config: String,
    pub step: String,
    pub context_json: Option<String>,
    pub api_key: Option<String>,
    pub llm_model: String,
    pub llm_provider: LlmProvider,
    pub samples: usize,
    pub k: usize,
    pub max_concurrent_llm: usize,
}

#[derive(Debug, Clone)]
pub struct ServeArgs {
    pub bind: String,
    pub port: u16,
    pub limit: usize,
    pub poll_interval_ms: u64,
}

#[derive(Debug, Clone, Copy, PartialEq, Eq, Structural)]
pub enum HelpTopic {
    Overview,
    Run,
    Status,
    Resume,
    Subprocess,
    Serve,
}

#[derive(Debug, Clone, Copy, PartialEq, Eq, Structural)]
pub enum HelpFormat {
    Text,
    Json,
}

#[derive(Debug, Clone)]
pub struct HelpArgs {
    pub topic: Option<HelpTopic>,
    pub format: HelpFormat,
}

#[derive(Debug, Clone)]
pub enum Commands {
    Run(RunArgs),
    Status(StatusArgs),
    Resume(ResumeArgs),
    Subprocess(SubprocessArgs),
    Serve(ServeArgs),
    Help(HelpArgs),
}

/// A parsed command line.
#[derive(Debug, Clone)]
pub struct Cli {
    pub command: Commands,
}

/// What the HTTP surface serves by default: how many sessions a list holds, and how often the
/// stream polls, in milliseconds.
#[derive(Debug, Clone, Copy)]
pub struct ServeOptions {
    pub default_limit: usize,
    pub poll_interval_ms: u64,
}

impl Default for ServeOptions {
    fn default() -> (r: Self)
        ensures
            r.default_limit == 25,
            r.poll_interval_ms == 1000,
    {
        ServeOptions { default_limit: 25, poll_interval_ms: 1000 }
    }
}

impl ServeOptions {
    /// A list's size: the one asked for, else the default.
    pub fn limit_or_default(&self, requested: Option<usize>) -> (r: usize)
        ensures
            r == (match requested {
                Some(l) => l,
                None => self.default_limit,
            }),
    {
        match requested {
            Some(l) => l,
            None => self.default_limit,
        }
    }
}

/// How JSON log lines are laid out.
#[derive(Debug, Clone, Copy, PartialEq, Eq, Structural)]
pub enum JsonLogFormat {
    Pretty,
    Compact,
}

/// The request a `run` command makes of the session use cases.
pub fn run_args_to_request(args: &RunArgs, human_low_margin_threshold: usize) -> (r: crate::session::RunSessionRequest)
    ensures
        r.prompt == args.prompt,
        r.domain == args.domain,
        r.config_path == args.config,
        r.llm_provider@ == provider_name(args.llm_provider),
        r.samples == args.samples,
        r.k == args.k,
        r.dry_run == args.dry_run,
        r.step_by_step == args.step_by_step,
        r.human_low_margin_threshold == human_low_margin_threshold,
{
    crate::session::RunSessionRequest {
        prompt: args.prompt.clone(),
        domain: args.domain.clone(),
        config_path: args.config.clone(),
        llm_provider: String::from_str(args.llm_provider.as_str()),
        llm_model: args.llm_model.clone(),
        api_key: args.api_key.clone(),
        samples: args.samples,
        k: args.k,
        adaptive_k: args.adaptive_k,
        max_concurrent_llm: args.max_concurrent_llm,
        dry_run: args.dry_run,
        step_by_step: args.step_by_step,
        human_low_margin_threshold,
        output_dir: args.repo_path.clone(),
    }
}

} // verus!
