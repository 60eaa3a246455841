//! Progression-driven role reconciliation: identity tokens, tier rules,
//! membership diffs and the request pipeline that sequences them.

pub mod config;
pub mod constants;
pub mod double;
pub mod errors;
pub mod handlers;
pub mod middleware;
pub mod models;
pub mod role_handling;
pub mod text;
pub mod utilities;
pub mod webhook_logging;
