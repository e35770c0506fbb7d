//! Verified decision logic for a system-update frontend.

pub mod name_map;
pub mod sort;
pub mod text;
pub mod version_compare;
pub mod version_parse;
pub mod date;
pub mod registry_client;
pub mod json;
pub mod orchestrator;
pub mod sbom_diff;
pub mod sbom_source;
pub mod paths;
pub mod uupd_compat;
pub mod bootc_progress;
pub mod service;
pub mod rebase_target;
pub mod calendar;
pub mod rebase_dialog;
pub mod app;
pub mod ffi;
pub mod changelog;
pub mod history_list;
pub mod preferences;
pub mod bootc_probe;
pub mod args;
pub mod cli;
