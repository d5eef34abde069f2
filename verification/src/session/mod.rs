//! Session history: token accounting and context-management helpers.

pub mod messages;

pub use messages::{
    calculate_tokens, count_messages_tokens, fix_invalid_tool_calls,
    fix_plan, first_user_text, unload_boundary, unload_early_messages, HistoryMessage, ToolCallsField,
};
