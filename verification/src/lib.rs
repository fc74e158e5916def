//! Verified core of the Sairgent kernel: manifests and capability policy,
//! schedule arithmetic, operator chat heuristics, webhook admission and the
//! audit chain.

pub mod text;
pub mod registry;
pub mod manifest;
pub mod error;
pub mod calendar;
pub mod schedule;
pub mod paths;
pub mod kernel;
pub mod orchestrator;
pub mod sairgent;
pub mod json;
pub mod ids;
pub mod webhook;
pub mod string_map;
pub mod workspace;
pub mod signals;
pub mod settings;
pub mod credentials;
pub mod protocol;
pub mod audit;
pub mod hsm;
pub mod fit;
pub mod worker;
pub mod agent_dirs;
pub mod chat;
pub mod commands;
pub mod cron;
pub mod recurring;
pub mod run_context;
pub mod seeding;
