//! Verified core of a browsing agent: loop detection, prompt rendering,
//! model-output recovery and the agent's step-by-step control decisions.

pub mod action_hash;
pub mod agent_output;
pub mod agent_run;
pub mod clickable_map;
pub mod cloud;
pub mod config;
pub mod detect_loop;
pub mod error;
pub mod hashing;
pub mod history;
pub mod ids;
pub mod llm;
pub mod loop_detector;
pub mod mouse;
pub mod navigation;
pub mod parse_output;
pub mod plan;
pub mod prompt;
pub mod registry;
pub mod run_step;
pub mod salvage;
pub mod screenshot;
pub mod session;
pub mod step_message;
pub mod targets;
pub mod text;
pub mod url_round_trip;
pub mod url_shortening;
pub mod urls;
