//! Clawdia runtime core: approval tickets, session identifiers, notifications,
//! configuration resolution and authorization decisions for a policy-governed
//! multi-agent system.

pub mod text;
pub mod sessions;
pub mod approvals;
pub mod digest;
pub mod numfmt;
pub mod json;
pub mod persistence;
pub mod sub_agent;
pub mod inbox;
pub mod authz;
pub mod agents;
pub mod authz_hook;
pub mod cedar_authz;
pub mod config;
pub mod notifications;
pub mod policy_prompt;
pub mod tui;
pub mod advisor;
pub mod cli_args;
pub mod runtime;
pub mod commands;
