//! Settings and agent configuration defaults, environment filling and
//! personality assembly.

use fastclaw::config::{
    fill_from_env, load_agent_personality, resolve_session_agent_id, LlmEnv,
};
use fastclaw::llm::ThinkingPref;
use fastclaw::{AgentConfig, LlmGateway, Settings};

fn no_env() -> LlmEnv {
    LlmEnv {
        llm_api_key: None,
        llm_api_url: None,
        llm_model_name: None,
        anthropic_api_key: None,
        anthropic_model: None,
    }
}

#[test]
fn settings_default_when_missing() {
    let s = Settings::default();
    assert_eq!(s.default_agent_id, "main_agent");
    assert_eq!(s.run_shell_timeout, 60);
    assert_eq!(s.run_skills_timeout, 60);
    assert_eq!(s.schema_version, 1);
    assert!(s.default_work_dir.is_none());
    assert!(s.work_dirs.is_empty());
}

#[test]
fn agent_config_default_fallback() {
    let c = AgentConfig::default_for("nonexistent", &no_env());
    assert_eq!(c.name, "nonexistent");
    assert_eq!(c.llm.gateway, LlmGateway::OpenAi);
    assert!(c.work_dirs.is_empty());
    assert_eq!(c.llm.provider, "deepseek");
    assert_eq!(c.llm.model, "deepseek-chat");
    assert_eq!(c.llm.base_url, "https://api.deepseek.com/v1");
    assert_eq!(c.llm.api_key, "");
    assert_eq!(c.context.max_tokens, 80000);
    assert_eq!(c.context.unload_threshold_tokens, 256000);
}

#[test]
fn default_agent_takes_key_and_url_from_env() {
    let env = LlmEnv {
        llm_api_key: Some("sk-1".into()),
        llm_api_url: Some("http://local/v1".into()),
        ..no_env()
    };
    let c = AgentConfig::default_for("a", &env);
    assert_eq!(c.llm.api_key, "sk-1");
    assert_eq!(c.llm.base_url, "http://local/v1");
}

#[test]
fn personality_concatenates_three_files() {
    let pers = load_agent_personality(
        &Some("soul text".into()),
        &Some("user text".into()),
        &Some("agent text".into()),
    );
    assert!(pers.contains("## SOUL"));
    assert!(pers.contains("soul text"));
    assert!(pers.contains("## USER"));
    assert!(pers.contains("user text"));
    assert!(pers.contains("## AGENT"));
    assert!(pers.contains("agent text"));
    assert_eq!(
        pers,
        "\n\n## SOUL\nsoul text\n\n## USER\nuser text\n\n## AGENT\nagent text"
    );
}

#[test]
fn personality_empty_when_no_files() {
    assert_eq!(load_agent_personality(&None, &None, &None), "");
}

#[test]
fn personality_skips_blank_files_and_trims() {
    let pers = load_agent_personality(&Some("  \n".into()), &None, &Some("  hi  \n".into()));
    assert_eq!(pers, "\n\n## AGENT\nhi");
}

#[test]
fn resolve_session_agent_id_default_and_bound() {
    // No session → default.
    assert_eq!(resolve_session_agent_id(None, "main_agent"), "main_agent");
    // Session bound to a specific agent.
    assert_eq!(resolve_session_agent_id(Some("my_agent"), "main_agent"), "my_agent");
    // An empty binding falls back to the default.
    assert_eq!(resolve_session_agent_id(Some(""), "main_agent"), "main_agent");
}

#[test]
fn env_fills_only_an_empty_key() {
    let env = LlmEnv {
        llm_api_key: Some("sk-env".into()),
        llm_api_url: Some("http://env/v1".into()),
        llm_model_name: Some("env-model".into()),
        anthropic_api_key: Some("ak-env".into()),
        anthropic_model: Some("anthropic-model-env".into()),
    };
    let mut c = AgentConfig::default_for("a", &no_env());
    fill_from_env(&mut c, &env);
    assert_eq!(c.llm.api_key, "sk-env");
    assert_eq!(c.llm.base_url, "http://env/v1");
    assert_eq!(c.llm.model, "env-model");

    let mut keyed = AgentConfig::default_for("b", &no_env());
    keyed.llm.api_key = "own".into();
    fill_from_env(&mut keyed, &env);
    assert_eq!(keyed.llm.api_key, "own");
    assert_eq!(keyed.llm.model, "deepseek-chat");

    let mut anth = AgentConfig::default_for("c", &no_env());
    anth.llm.gateway = LlmGateway::Anthropic;
    fill_from_env(&mut anth, &env);
    assert_eq!(anth.llm.api_key, "ak-env");
    assert_eq!(anth.llm.model, "anthropic-model-env");
    assert_eq!(anth.llm.base_url, "https://api.deepseek.com/v1");
}

#[test]
fn thinking_preference_from_config() {
    let mut c = AgentConfig::default_for("a", &no_env());
    assert_eq!(c.llm.thinking_pref(), ThinkingPref::Adaptive);
    c.llm.thinking_budget_tokens = Some(2048);
    assert_eq!(c.llm.thinking_pref(), ThinkingPref::Enabled(2048));
    c.llm.thinking_budget_tokens = Some(0);
    assert_eq!(c.llm.thinking_pref(), ThinkingPref::Adaptive);
    c.llm.enable_thinking = Some(false);
    c.llm.thinking_budget_tokens = Some(2048);
    assert_eq!(c.llm.thinking_pref(), ThinkingPref::Disabled);
}
