//! slam: plan and carry out one change over many repositories.

pub mod cli;
pub mod command;
pub mod command_laws;
pub mod commands;
pub mod create;
pub mod create_laws;
pub mod diff;
pub mod git;
pub mod git_laws;
pub mod github;
pub mod hooks;
pub mod json;
pub mod numbers;
pub mod order;
pub mod paint;
pub mod paths;
pub mod patterns;
pub mod repo;
pub mod report;
pub mod requests;
pub mod review;
pub mod review_laws;
pub mod run_laws;
pub mod sandbox;
pub mod sandbox_laws;
pub mod search;
pub mod select;
pub mod select_laws;
pub mod show_laws;
pub mod text;
pub mod text_laws;
pub mod transaction;
pub mod utils;
