//! Settings and per-agent configuration, with their defaults and the rules
//! that fill an agent's LLM credentials from the environment.

use vstd::prelude::*;

use crate::llm::{LlmGateway, ThinkingPref};
use crate::text::{is_blank, owned, push_str, trim_str};

verus! {

/// Global settings (`data/settings.json`).
#[derive(Debug, Clone)]
pub struct Settings {
    pub default_agent_id: String,
    pub run_shell_timeout: u64,
    pub run_skills_timeout: u64,
    pub stream_chunk_timeout: u64,
    /// Default working directory when a task specifies none.
    pub default_work_dir: Option<String>,
    /// Globally registered working directories.
    pub work_dirs: Vec<String>,
    /// Format version marker.
    pub schema_version: u32,
}

/// The default agent's id.
pub const DEFAULT_AGENT_ID: &'static str = "main_agent";

/// Default timeouts, in seconds.
pub const DEFAULT_TIMEOUT_SECS: u64 = 60;

impl Default for Settings {
    fn default() -> (r: Self)
        ensures
            r.default_agent_id@ == DEFAULT_AGENT_ID@,
            r.run_shell_timeout == DEFAULT_TIMEOUT_SECS,
            r.run_skills_timeout == DEFAULT_TIMEOUT_SECS,
            r.stream_chunk_timeout == DEFAULT_TIMEOUT_SECS,
            r.default_work_dir is None,
            r.work_dirs@.len() == 0,
            r.schema_version == 1,
    {
        Settings {
            default_agent_id: owned(DEFAULT_AGENT_ID),
            run_shell_timeout: DEFAULT_TIMEOUT_SECS,
            run_skills_timeout: DEFAULT_TIMEOUT_SECS,
            stream_chunk_timeout: DEFAULT_TIMEOUT_SECS,
            default_work_dir: None,
            work_dirs: Vec::new(),
            schema_version: 1,
        }
    }
}

/// Per-agent LLM configuration (the `llm` field of `metadata.json`).
#[derive(Debug, Clone)]
pub struct LlmConfig {
    pub gateway: LlmGateway,
    pub provider: String,
    pub model: String,
    pub api_key: String,
    pub base_url: String,
    pub timeout: Option<u64>,
    pub max_tokens: Option<u64>,
    pub multimodal: bool,
    /// Extended thinking: `Some(false)` disables it; otherwise adaptive.
    pub enable_thinking: Option<bool>,
    /// Budget used when thinking is requested with a budget.
    pub thinking_budget_tokens: Option<u64>,
}

impl Default for LlmConfig {
    fn default() -> (r: Self)
        ensures
            r.gateway == LlmGateway::OpenAi,
            r.provider@.len() == 0,
            r.model@.len() == 0,
            r.api_key@.len() == 0,
            r.base_url@.len() == 0,
            r.timeout is None,
            r.max_tokens is None,
            !r.multimodal,
            r.enable_thinking is None,
            r.thinking_budget_tokens is None,
    {
        LlmConfig {
            gateway: LlmGateway::OpenAi,
            provider: String::new(),
            model: String::new(),
            api_key: String::new(),
            base_url: String::new(),
            timeout: None,
            max_tokens: None,
            multimodal: false,
            enable_thinking: None,
            thinking_budget_tokens: None,
        }
    }
}

/// Context-window management settings of an agent.
#[derive(Debug, Clone)]
pub struct ContextConfig {
    pub max_tokens: u64,
    pub unload_threshold_tokens: u64,
}

impl Default for ContextConfig {
    fn default() -> (r: Self)
        ensures
            r.max_tokens == 0,
            r.unload_threshold_tokens == 0,
    {
        ContextConfig { max_tokens: 0, unload_threshold_tokens: 0 }
    }
}

/// Per-agent configuration (`metadata.json`).
#[derive(Debug, Clone)]
pub struct AgentConfig {
    pub name: String,
    pub description: String,
    pub llm: LlmConfig,
    pub context: ContextConfig,
    /// Working directories the agent may write into.
    pub work_dirs: Vec<String>,
}

/// The environment variables that supply LLM credentials, as read by the
/// host (`None` when unset).
#[derive(Debug, Clone)]
pub struct LlmEnv {
    /// `LLM_API_KEY`.
    pub llm_api_key: Option<String>,
    /// `LLM_API_URL`.
    pub llm_api_url: Option<String>,
    /// `LLM_MODEL_NAME`.
    pub llm_model_name: Option<String>,
    /// `ANTHROPIC_API_KEY`.
    pub anthropic_api_key: Option<String>,
    /// `ANTHROPIC_MODEL`.
    pub anthropic_model: Option<String>,
}

/// The built-in provider, model and endpoint of the default agent.
pub const DEFAULT_PROVIDER: &'static str = "deepseek";

pub const DEFAULT_MODEL: &'static str = "deepseek-chat";

pub const DEFAULT_BASE_URL: &'static str = "https://api.deepseek.com/v1";

/// Default context limits of the default agent.
pub const DEFAULT_CONTEXT_MAX_TOKENS: u64 = 80000;

pub const DEFAULT_UNLOAD_THRESHOLD: u64 = 256000;

/// The plain value of an optional string.
pub open spec fn opt_view(s: Option<String>) -> Option<Seq<char>> {
    match s {
        Some(t) => Some(t@),
        None => None,
    }
}

fn opt_or(s: &Option<String>, default: &str) -> (r: String)
    ensures
        r@ == match opt_view(*s) {
            Some(t) => t,
            None => default@,
        },
{
    match s {
        Some(t) => t.clone(),
        None => owned(default),
    }
}

impl AgentConfig {
    /// The configuration of an agent that has no `metadata.json`: the OpenAI
    /// gateway to DeepSeek, the key from `LLM_API_KEY` (empty when unset) and
    /// the endpoint from `LLM_API_URL` (the DeepSeek one when unset).
    pub fn default_for(name: &str, env: &LlmEnv) -> (r: Self)
        ensures
            r.name@ == name@,
            r.description@.len() == 0,
            r.llm.gateway == LlmGateway::OpenAi,
            r.llm.provider@ == DEFAULT_PROVIDER@,
            r.llm.model@ == DEFAULT_MODEL@,
            r.llm.api_key@ == match opt_view(env.llm_api_key) {
                Some(k) => k,
                None => Seq::<char>::empty(),
            },
            r.llm.base_url@ == match opt_view(env.llm_api_url) {
                Some(u) => u,
                None => DEFAULT_BASE_URL@,
            },
            r.llm.timeout is None,
            r.llm.max_tokens is None,
            !r.llm.multimodal,
            r.llm.enable_thinking is None,
            r.llm.thinking_budget_tokens is None,
            r.context.max_tokens == DEFAULT_CONTEXT_MAX_TOKENS,
            r.context.unload_threshold_tokens == DEFAULT_UNLOAD_THRESHOLD,
            r.work_dirs@.len() == 0,
    {
        AgentConfig {
            name: owned(name),
            description: String::new(),
            llm: LlmConfig {
                gateway: LlmGateway::OpenAi,
                provider: owned(DEFAULT_PROVIDER),
                model: owned(DEFAULT_MODEL),
                api_key: match &env.llm_api_key {
                    Some(k) => k.clone(),
                    None => String::new(),
                },
                base_url: opt_or(&env.llm_api_url, DEFAULT_BASE_URL),
                timeout: None,
                max_tokens: None,
                multimodal: false,
                enable_thinking: None,
                thinking_budget_tokens: None,
            },
            context: ContextConfig {
                max_tokens: DEFAULT_CONTEXT_MAX_TOKENS,
                unload_threshold_tokens: DEFAULT_UNLOAD_THRESHOLD,
            },
            work_dirs: Vec::new(),
        }
    }
}

/// `value` when it is set and non-empty, else `current`.
pub open spec fn override_with(current: Seq<char>, value: Option<Seq<char>>) -> Seq<char> {
    match value {
        Some(v) => if v.len() > 0 {
            v
        } else {
            current
        },
        None => current,
    }
}

fn apply_override(current: &mut String, value: &Option<String>)
    ensures
        final(current)@ == override_with(old(current)@, opt_view(*value)),
{
    match value {
        Some(v) => {
            if !v.as_str().is_empty() {
                *current = v.clone();
            }
        },
        None => {},
    }
}

/// The LLM configuration after filling credentials from the environment:
/// only when the key is empty; for the OpenAI gateway from `LLM_API_KEY`,
/// `LLM_API_URL` and `LLM_MODEL_NAME`, for Anthropic from
/// `ANTHROPIC_API_KEY` and `ANTHROPIC_MODEL` (each when set and non-empty).
pub open spec fn filled(
    gateway: LlmGateway,
    key: Seq<char>,
    url: Seq<char>,
    model: Seq<char>,
    env: LlmEnv,
) -> (Seq<char>, Seq<char>, Seq<char>) {
    if key.len() > 0 {
        (key, url, model)
    } else {
        match gateway {
            LlmGateway::OpenAi => (
                override_with(key, opt_view(env.llm_api_key)),
                override_with(url, opt_view(env.llm_api_url)),
                override_with(model, opt_view(env.llm_model_name)),
            ),
            LlmGateway::Anthropic => (
                override_with(key, opt_view(env.anthropic_api_key)),
                url,
                override_with(model, opt_view(env.anthropic_model)),
            ),
        }
    }
}

/// Fill an agent's empty API key (and, per gateway, its endpoint and model)
/// from the environment. Seed agents ship with an empty key.
pub fn fill_from_env(config: &mut AgentConfig, env: &LlmEnv)
    ensures
        (final(config).llm.api_key@, final(config).llm.base_url@, final(config).llm.model@)
            == filled(
            old(config).llm.gateway,
            old(config).llm.api_key@,
            old(config).llm.base_url@,
            old(config).llm.model@,
            *env,
        ),
        final(config).name == old(config).name,
        final(config).llm.gateway == old(config).llm.gateway,
{
    if config.llm.api_key.as_str().is_empty() {
        match config.llm.gateway {
            LlmGateway::OpenAi => {
                apply_override(&mut config.llm.api_key, &env.llm_api_key);
                apply_override(&mut config.llm.base_url, &env.llm_api_url);
                apply_override(&mut config.llm.model, &env.llm_model_name);
            },
            LlmGateway::Anthropic => {
                apply_override(&mut config.llm.api_key, &env.anthropic_api_key);
                apply_override(&mut config.llm.model, &env.anthropic_model);
            },
        }
    }
}

/// The personality files of an agent, in order, with the tag each is
/// introduced by.
pub const SOUL_TAG: &'static str = "SOUL";

pub const USER_TAG: &'static str = "USER";

pub const AGENT_TAG: &'static str = "AGENT";

pub const TAG_OPEN: &'static str = "\n\n## ";

pub const TAG_CLOSE: &'static str = "\n";

/// What one personality file contributes: nothing when unreadable or blank,
/// else a blank line, `## <tag>`, a line break and the trimmed content.
pub open spec fn personality_part(tag: Seq<char>, content: Option<Seq<char>>) -> Seq<char> {
    match content {
        Some(c) => if crate::text::trim(c).len() > 0 {
            TAG_OPEN@ + tag + TAG_CLOSE@ + crate::text::trim(c)
        } else {
            seq![]
        },
        None => seq![],
    }
}

fn push_personality_part(out: &mut String, tag: &str, content: &Option<String>)
    ensures
        final(out)@ == old(out)@ + personality_part(tag@, opt_view(*content)),
{
    match content {
        Some(c) => {
            let t = trim_str(c.as_str());
            if !t.as_str().is_empty() {
                push_str(out, TAG_OPEN);
                push_str(out, tag);
                push_str(out, TAG_CLOSE);
                push_str(out, t.as_str());
            } else {
                assert(out@ + Seq::<char>::empty() =~= out@);
            }
        },
        None => {
            assert(out@ + Seq::<char>::empty() =~= out@);
        },
    }
}

/// An agent's personality from the contents of its `SOUL.md`, `USER.md` and
/// `AGENT.md` (`None` for a file that could not be read), each non-blank one
/// introduced by its tag.
pub fn load_agent_personality(
    soul: &Option<String>,
    user: &Option<String>,
    agent: &Option<String>,
) -> (r: String)
    ensures
        r@ == personality_part(SOUL_TAG@, opt_view(*soul)) + personality_part(
            USER_TAG@,
            opt_view(*user),
        ) + personality_part(AGENT_TAG@, opt_view(*agent)),
{
    let mut out = String::new();
    push_personality_part(&mut out, SOUL_TAG, soul);
    push_personality_part(&mut out, USER_TAG, user);
    push_personality_part(&mut out, AGENT_TAG, agent);
    assert(Seq::<char>::empty() + personality_part(SOUL_TAG@, opt_view(*soul)) =~= personality_part(
        SOUL_TAG@,
        opt_view(*soul),
    ));
    out
}

/// The agent bound to a session: the session's recorded `agent_id` when it
/// is a non-empty string, else the default agent.
pub fn resolve_session_agent_id(session_agent: Option<&str>, default_agent_id: &str) -> (r: String)
    ensures
        r@ == match session_agent {
            Some(a) => if a@.len() > 0 {
                a@
            } else {
                default_agent_id@
            },
            None => default_agent_id@,
        },
{
    match session_agent {
        Some(a) => if !a.is_empty() {
            owned(a)
        } else {
            owned(default_agent_id)
        },
        None => owned(default_agent_id),
    }
}

/// The thinking preference an agent's LLM configuration asks for:
/// disabled when `enable_thinking` is `Some(false)`; otherwise budgeted when
/// a positive budget is given; otherwise adaptive.
pub open spec fn thinking_pref_of(enable: Option<bool>, budget: Option<u64>) -> ThinkingPref {
    if enable == Some(false) {
        ThinkingPref::Disabled
    } else {
        match budget {
            Some(b) => if b > 0 {
                ThinkingPref::Enabled(b)
            } else {
                ThinkingPref::Adaptive
            },
            None => ThinkingPref::Adaptive,
        }
    }
}

impl LlmConfig {
    /// The thinking preference this configuration asks for.
    pub fn thinking_pref(&self) -> (r: ThinkingPref)
        ensures
            r == thinking_pref_of(self.enable_thinking, self.thinking_budget_tokens),
    {
        match self.enable_thinking {
            Some(false) => ThinkingPref::Disabled,
            _ => match self.thinking_budget_tokens {
                Some(b) => if b > 0 {
                    ThinkingPref::Enabled(b)
                } else {
                    ThinkingPref::Adaptive
                },
                None => ThinkingPref::Adaptive,
            },
        }
    }
}

} // verus!
