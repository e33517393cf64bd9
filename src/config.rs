use vstd::prelude::*;

use crate::domain::AgentKind;
use crate::error::Error;

verus! {

/// A validator of samples, as a domain or an agent configures it.
#[derive(Debug)]
pub enum RedFlaggerConfig {
    /// Rejects a sample with more than `max_tokens` whitespace-separated tokens.
    Length { max_tokens: usize },
    /// Rejects a sample that does not parse in `language`; with `extract_xml`, each
    /// `<file>` block is parsed on its own.
    Syntax { language: String, extract_xml: bool },
    /// Asks `model` through `prompt_template` whether the sample is bad.
    LlmCritique { model: String, prompt_template: String },
}

impl RedFlaggerConfig {
    pub fn copy(&self) -> (r: Self)
        ensures
            r == *self,
    {
        match self {
            RedFlaggerConfig::Length { max_tokens } => RedFlaggerConfig::Length {
                max_tokens: *max_tokens,
            },
            RedFlaggerConfig::Syntax { language, extract_xml } => RedFlaggerConfig::Syntax {
                language: language.clone(),
                extract_xml: *extract_xml,
            },
            RedFlaggerConfig::LlmCritique { model, prompt_template } => RedFlaggerConfig::LlmCritique {
                model: model.clone(),
                prompt_template: prompt_template.clone(),
            },
        }
    }
}

pub fn copy_flaggers(v: &Vec<RedFlaggerConfig>) -> (r: Vec<RedFlaggerConfig>)
    ensures
        r@ == v@,
{
    let mut r: Vec<RedFlaggerConfig> = Vec::new();
    let mut i: usize = 0;
    while i < v.len()
        invariant
            i <= v.len(),
            r@ =~= v@.take(i as int),
        decreases v.len() - i,
    {
        r.push(v[i].copy());
        i = i + 1;
    }
    assert(v@.take(v@.len() as int) =~= v@);
    r
}

pub fn copy_optional_flaggers(v: &Option<Vec<RedFlaggerConfig>>) -> (r: Option<Vec<RedFlaggerConfig>>)
    ensures
        r matches Some(x) ==> v matches Some(y) && x@ == y@,
        r is None <==> v is None,
{
    match v {
        Some(x) => Some(copy_flaggers(x)),
        None => None,
    }
}

/// The settings of one agent role at run time.
#[derive(Debug)]
pub struct AgentConfig {
    pub kind: AgentKind,
    pub prompt_template: String,
    pub model: String,
    pub samples: usize,
    pub k: Option<usize>,
    pub red_flaggers: Option<Vec<RedFlaggerConfig>>,
}

/// An agent role as a domain configures it; unset counts fall back to the run's defaults.
#[derive(Debug)]
pub struct AgentSettings {
    pub prompt_template: String,
    pub model: String,
    pub samples: Option<usize>,
    pub k: Option<usize>,
    pub red_flaggers: Option<Vec<RedFlaggerConfig>>,
}

/// Defaults for the agents' sample count and vote margin.
#[derive(Debug, Clone, Copy)]
pub struct AgentDefaults {
    pub samples: usize,
    pub k: usize,
}

impl AgentSettings {
    /// The agent's run-time settings: its own counts, else the defaults; at least one sample.
    pub fn as_agent_config(&self, kind: AgentKind, defaults: &AgentDefaults) -> (r: AgentConfig)
        ensures
            r.kind == kind,
            r.prompt_template == self.prompt_template,
            r.model == self.model,
            r.samples == (match self.samples {
                Some(s) => if s >= 1 {
                    s
                } else {
                    1
                },
                None => if defaults.samples >= 1 {
                    defaults.samples
                } else {
                    1
                },
            }),
            r.k == Some(
                match self.k {
                    Some(k) => k,
                    None => defaults.k,
                },
            ),
            r.red_flaggers is Some <==> self.red_flaggers is Some,
            r.red_flaggers matches Some(x) ==> self.red_flaggers matches Some(y) && x@ == y@,
    {
        let samples = match self.samples {
            Some(s) => s,
            None => defaults.samples,
        };
        AgentConfig {
            kind,
            prompt_template: self.prompt_template.clone(),
            model: self.model.clone(),
            samples: if samples >= 1 {
                samples
            } else {
                1
            },
            k: Some(
                match self.k {
                    Some(k) => k,
                    None => defaults.k,
                },
            ),
            red_flaggers: copy_optional_flaggers(&self.red_flaggers),
        }
    }
}

/// A domain's settings at run time: its four agents, its applier and verifier commands, and
/// its default validators.
#[derive(Debug)]
pub struct DomainRuntimeConfig {
    pub name: String,
    pub decomposition: AgentSettings,
    pub decomposition_discriminator: AgentSettings,
    pub solver: AgentSettings,
    pub solution_discriminator: AgentSettings,
    pub applier: Option<String>,
    pub verifier: Option<String>,
    pub red_flaggers: Vec<RedFlaggerConfig>,
}

impl DomainRuntimeConfig {
    pub open spec fn settings_of(&self, kind: AgentKind) -> AgentSettings {
        match kind {
            AgentKind::Decomposition => self.decomposition,
            AgentKind::DecompositionDiscriminator => self.decomposition_discriminator,
            AgentKind::Solver => self.solver,
            AgentKind::SolutionDiscriminator => self.solution_discriminator,
        }
    }

    pub fn agent_settings(&self, kind: AgentKind) -> (r: Option<&AgentSettings>)
        ensures
            r == Some(&self.settings_of(kind)),
    {
        match kind {
            AgentKind::Decomposition => Some(&self.decomposition),
            AgentKind::DecompositionDiscriminator => Some(&self.decomposition_discriminator),
            AgentKind::Solver => Some(&self.solver),
            AgentKind::SolutionDiscriminator => Some(&self.solution_discriminator),
        }
    }
}

/// Bounds on how finely a domain splits work.
#[derive(Debug, Clone, Copy, PartialEq, Eq, Structural)]
pub struct StepGranularity {
    pub max_files: Option<usize>,
    pub max_lines_changed: Option<usize>,
}

impl StepGranularity {
    /// Both bounds, when set, must be positive; `domain` names the domain in the error.
    pub fn validate(&self, domain: &str) -> (r: Result<(), Error>)
        ensures
            r is Ok <==> ((self.max_files matches Some(f) ==> f > 0) && (
            self.max_lines_changed matches Some(l) ==> l > 0)),
            r matches Err(e) ==> e is Config,
    {
        if let Some(f) = self.max_files {
            if f == 0 {
                return Err(Error::Config(String::from_str("Domain '").concat(domain).concat("' step_granularity.max_files must be > 0")));
            }
        }
        if let Some(l) = self.max_lines_changed {
            if l == 0 {
                return Err(Error::Config(String::from_str("Domain '").concat(domain).concat("' step_granularity.max_lines_changed must be > 0")));
            }
        }
        Ok(())
    }
}

/// Whether a configured prompt template names a template file rather than holding the text:
/// it holds a path separator or ends with a template extension.
pub open spec fn template_path_like(s: Seq<char>) -> bool {
    s.contains('/') || s.contains('\\') || crate::text::ends_with(s, ".hbs"@)
        || crate::text::ends_with(s, ".handlebars"@) || crate::text::ends_with(s, ".tmpl"@)
}

pub fn looks_like_template_path(value: &str) -> (r: bool)
    ensures
        r == template_path_like(value@),
{
    let v = crate::chars::char_vec(value);
    let n = v.len();
    assert(v@.subrange(0, n as int) =~= v@);
    crate::text::has_char(&v, 0, n, '/') || crate::text::has_char(&v, 0, n, '\\')
        || crate::text::ends_with_lit(&v, ".hbs") || crate::text::ends_with_lit(&v, ".handlebars")
        || crate::text::ends_with_lit(&v, ".tmpl")
}

/// A blank value: nothing but white space.
pub open spec fn blank(s: Seq<char>) -> bool {
    crate::chars::trimmed(s).len() == 0
}

fn is_blank(s: &String) -> (r: bool)
    ensures
        r == blank(s@),
{
    crate::chars::trim_string(s.as_str()).as_str().unicode_len() == 0
}

fn config_error(domain: &str, what: &str) -> (r: Error)
    ensures
        r is Config,
{
    Error::Config(String::from_str("Domain '").concat(domain).concat("': ").concat(what))
}

/// A validator from its configured kind and parameters: `length` needs a positive
/// `max_tokens`, `syntax` a non-blank `language` (`extract_xml` defaults to false),
/// `llm_critique` a non-blank `model` and `prompt_template`; other kinds are refused.
pub fn red_flagger_from_parts(
    domain: &str,
    kind: &str,
    max_tokens: Option<u64>,
    language: Option<String>,
    extract_xml: Option<bool>,
    model: Option<String>,
    prompt_template: Option<String>,
) -> (r: Result<RedFlaggerConfig, Error>)
    ensures
        kind@ == "length"@ ==> (r is Ok <==> (max_tokens matches Some(m) && 0 < m
            <= usize::MAX)),
        kind@ == "length"@ ==> (r matches Ok(c) ==> (c matches RedFlaggerConfig::Length { max_tokens: m }
            && max_tokens == Some(m as u64))),
        kind@ == "syntax"@ ==> (r is Ok <==> (language matches Some(l) && !blank(l@))),
        kind@ == "syntax"@ ==> (r matches Ok(c) ==> (c matches RedFlaggerConfig::Syntax { language: l, extract_xml: x }
            && language == Some(l) && x == (extract_xml == Some(true)))),
        kind@ == "llm_critique"@ ==> (r is Ok <==> ((model matches Some(m) && !blank(m@))
            && (prompt_template matches Some(t) && !blank(t@)))),
        kind@ != "length"@ && kind@ != "syntax"@ && kind@ != "llm_critique"@ ==> r is Err,
        r matches Err(e) ==> e is Config,
{
    proof {
        reveal_strlit("length");
        reveal_strlit("syntax");
        reveal_strlit("llm_critique");
        assert("syntax"@[0] != "length"@[0]);
        assert("llm_critique"@.len() != "length"@.len());
        assert("llm_critique"@.len() != "syntax"@.len());
    }
    if crate::red_flags::same_text(kind, "length") {
        match max_tokens {
            Some(m) => {
                if m == 0 || m > usize::MAX as u64 {
                    Err(config_error(domain, "red flagger max_tokens must be > 0"))
                } else {
                    Ok(RedFlaggerConfig::Length { max_tokens: m as usize })
                }
            },
            None => Err(config_error(domain, "red flagger of type 'length' must set max_tokens")),
        }
    } else if crate::red_flags::same_text(kind, "syntax") {
        match language {
            Some(l) => {
                if is_blank(&l) {
                    Err(config_error(domain, "red flagger language must not be blank"))
                } else {
                    let x = match extract_xml {
                        Some(b) => b,
                        None => false,
                    };
                    Ok(RedFlaggerConfig::Syntax { language: l, extract_xml: x })
                }
            },
            None => Err(config_error(domain, "red flagger of type 'syntax' must set language")),
        }
    } else if crate::red_flags::same_text(kind, "llm_critique") {
        match (model, prompt_template) {
            (Some(m), Some(t)) => {
                if is_blank(&m) || is_blank(&t) {
                    Err(config_error(domain, "red flagger model and prompt_template must not be blank"))
                } else {
                    Ok(RedFlaggerConfig::LlmCritique { model: m, prompt_template: t })
                }
            },
            _ => Err(config_error(domain, "red flagger of type 'llm_critique' must set model and prompt_template")),
        }
    } else {
        Err(config_error(domain, "unknown red flagger type"))
    }
}

/// An agent's settings are usable: a non-blank template and model, and positive counts where
/// set.
pub fn validate_agent_settings(domain: &str, settings: &AgentSettings) -> (r: Result<(), Error>)
    ensures
        r is Ok <==> (!blank(settings.prompt_template@) && !blank(settings.model@)
            && (settings.samples matches Some(s) ==> s > 0) && (settings.k matches Some(k) ==> k > 0)),
        r matches Err(e) ==> e is Config,
{
    if is_blank(&settings.prompt_template) {
        return Err(config_error(domain, "every agent must define a prompt_template"));
    }
    if is_blank(&settings.model) {
        return Err(config_error(domain, "every agent must define a model"));
    }
    if let Some(s) = settings.samples {
        if s == 0 {
            return Err(config_error(domain, "agent samples must be > 0"));
        }
    }
    if let Some(k) = settings.k {
        if k == 0 {
            return Err(config_error(domain, "agent k must be > 0"));
        }
    }
    Ok(())
}

} // verus!
