//! Verified core of the UseStakly backend services.
use vstd::prelude::*;

pub mod account;
pub mod agent_token_events;
pub mod agent_tokens;
pub mod alerts;
pub mod capture;
pub mod config;
pub mod crypto;
pub mod delivery;
pub mod dimension_state;
pub mod email_templates;
pub mod error;
pub mod flags;
pub mod formula;
pub mod github;
pub mod github_client;
pub mod github_ingest;
pub mod github_structural;
pub mod github_quota;
pub mod ingestion_status;
pub mod mcp_metrics;
pub mod notification_channels;
pub mod notification_digest;
pub mod radar;
pub mod recommendations;
pub mod refresh_limits;
pub mod repo_categories;
pub mod reputation;
pub mod repo_explain;
pub mod repo_owners;
pub mod repos;
pub mod resolution;
pub mod scheduler;
pub mod semantic_search;
pub mod text;
pub mod use_case_watches;
pub mod weighting;

verus! {

} // verus!
