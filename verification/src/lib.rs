//! Verified request-validation, rendering and policy logic of the Anseo API.

pub mod text;
pub mod order;
pub mod errors;
pub mod json;
pub mod wire;
pub mod color;
pub mod auth;
pub mod comparisons;
pub mod rate_limit;
pub mod prompt_runs;
pub mod ingest;
pub mod contributions;
pub mod bundle_import;
pub mod brand;
pub mod badge;
pub mod operator_entities;
pub mod operator_plane1;
pub mod prompts;
pub mod geo_gate;
pub mod authz;
pub mod org_branding;
pub mod recommendations;
pub mod plugins;
pub mod impersonation;
pub mod citations;
pub mod billing;
pub mod dsar;
pub mod anomalies;
pub mod entities;
pub mod leaderboard;
pub mod density_check;
pub mod projects;
pub mod crawlers;
pub mod mcp;
pub mod alert_rules;
pub mod analytics;
pub mod audit;
pub mod orgs;
pub mod disputes;
pub mod boot;
pub mod project_scope;
pub mod providers;
pub mod prompts_similarity;
pub mod comms;
pub mod notifications;
pub mod account;
pub mod portal_grants;
pub mod brands;
pub mod events;
pub mod org_guc;
pub mod claims;
pub mod runs;
