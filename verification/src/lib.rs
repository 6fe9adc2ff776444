//! The decision logic of the theway daemon.

pub mod agent_session;
pub mod attachments;
pub mod bug_report;
pub mod builtin_skills;
pub mod commands;
pub mod context;
pub mod control_plane_prompt;
pub mod executor;
pub mod external_protocol_ops;
pub mod feed_replay;
pub mod file_commands;
pub mod forwarding_tool_ops;
pub mod hooks;
pub mod job_transcripts;
pub mod json;
pub mod lsp;
pub mod lsp_supervisor;
pub mod mcp_layers;
pub mod mcp_loader;
pub mod mcp_server;
pub mod model;
pub mod model_defaults;
pub mod model_fetch;
pub mod observability;
pub mod orchestration;
pub mod order;
pub mod paths;
pub mod patterns;
pub mod session_tree;
pub mod skill;
pub mod skill_overrides;
pub mod text;
pub mod text_map;
pub mod user_input;
