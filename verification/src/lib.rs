//! Verified core of the fallow command-line interface: issue filters, rule
//! severities and scoping; baselines for issues, clone groups and health
//! findings; fix planning; the complexity findings of the health report;
//! the verdicts, summaries and scaffolding of the audit, combined and init
//! commands; rule metadata; and the text utilities they rely on.

pub mod text;
pub mod fix;
pub mod paths;
pub mod results;
pub mod order;
pub mod baseline;
pub mod explain;
pub mod glob;
pub mod keyset;
pub mod rules;
pub mod check;
pub mod scope;
pub mod dupes;
pub mod health_types;
pub mod health_baseline;
pub mod health;
pub mod scoring;
pub mod combined;
pub mod audit;
pub mod init;
pub mod fix_plan;
pub mod fix_groups;
