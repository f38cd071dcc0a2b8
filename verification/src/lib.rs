//! Branch ranking and resolution for a git branch switcher: ranking by
//! frecency, substring and fuzzy matching, score fusion with an auto-select
//! rule, repository-scoped aliases and a versioned usage store.

pub mod constants;
pub mod text;
pub mod validation;
pub mod order;
pub mod matcher;
pub mod storage;
pub mod frecency;
pub mod error;
pub mod selector;
pub mod resolve;
pub mod interactive;
pub mod commands;
pub mod git;
pub mod config;
