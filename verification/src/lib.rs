//! fastclaw: the verified core of an embeddable AI agent library.

pub mod error;
pub mod paths;
pub mod patterns;
pub mod security;
pub mod text;
pub mod workdir;
pub mod system_prompt;
pub mod seed;
pub mod session;
pub mod llm;
pub mod stream;
pub mod config;
pub mod agent;
pub mod skills;
pub mod tools;
pub mod tui;
pub mod markdown;

pub use agent::StreamEvent;
pub use config::{AgentConfig, ContextConfig, LlmConfig, Settings};
pub use error::{Error, ErrorCode};
pub use llm::{
    ImagePart, LlmGateway, LlmResponse, LlmSink, Message, MessageToolCall, NullSink,
    ThinkingPref, ToolCall,
};
pub use paths::{SessionStore, WorkspacePaths};
pub use skills::{SkillInfo, SkillKind};
pub use system_prompt::{format_system_prompt, PromptSection};
pub use workdir::WorkDirManager;
