//! The settings the verified logic reads.
use vstd::prelude::*;

verus! {

/// The part of the application configuration that the library's logic reads.
#[derive(Debug, Clone)]
pub struct AppConfig {
    pub github_token: Option<String>,
    pub semantic_search_enabled: bool,
    pub scheduler_enabled: bool,
    pub ingest_max_repos_per_cycle: usize,
    pub corpus_refresh_stale_secs: u64,
    pub digest_interval_secs: u64,
    pub active_signal_default_consensus: u32,
    pub active_signal_severe_consensus: u32,
    pub repo_refresh_user_limit_per_hour: u32,
    pub repo_refresh_cooldown_secs: u64,
}

} // verus!
