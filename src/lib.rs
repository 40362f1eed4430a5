//! Reorganise a run of unpushed commits into one branch and pull request per
//! issue group: the grouping, selection, naming and execution logic.
pub mod branch_name;
pub mod cli;
pub mod commands;
pub mod disjoint_branch;
pub mod github;
pub mod issue;
pub mod issue_group;
pub mod issue_group_map;
pub mod orchestrator;
pub mod pull_request_message;
pub mod pull_request_metadata;
pub mod text;
