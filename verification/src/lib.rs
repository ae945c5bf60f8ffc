//! Verified core of the PromptForge prompt runner: markdown chunking for the
//! `md_to_json` Lua global, the command line and its gateway configuration,
//! execution ids, bearer authentication, the model catalog and SSE framing for the
//! inference gateway, and the budgets of the Lua sandbox.

pub mod auth;
pub mod cli;
pub mod execution;
pub mod gateway_config;
pub mod lines;
pub mod lua_limits;
pub mod models;
pub mod md_events;
pub mod md_json;
pub mod md_shape;
pub mod sse;
pub mod switch_profile;
pub mod inference_route;
pub mod run_flow;
