//! Verified core of a Codex thread that is a member of an externally managed agent team, and
//! of its durable automation.
//!
//! - `provider`, `team`, `tasks` and `collab`: the team member: roster, inbox and shutdown
//!   rules, the inbox worker's decisions, the shared task board, and how collaboration tools
//!   reach external teammates.
//! - `automation`, `automation_runtime`, `loops` and `notices`: durable loops, cron jobs and
//!   monitors, their leases and deliveries, the `/loop` command and its notices.
//! - `journal`: the bounded, ordered set of delivered message ids.
//! - `host`: the configuration block, the teammate launcher and the terminal UI's shutdown rule.
//! - `extension_api`: the provider boundary.
//! - `text`, `digest`, `json` and `paths`: text, SHA-256, JSON and path primitives.

pub mod text;
pub mod extension_api;
pub mod automation;
pub mod loops;
pub mod notices;
pub mod journal;
pub mod digest;
pub mod json;
pub mod provider;
pub mod team;
pub mod paths;
pub mod tasks;
pub mod collab;
pub mod automation_runtime;
pub mod host;
