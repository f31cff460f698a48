//! Incident detection, deduplication and escalation.
pub mod ai;
pub mod clock;
pub mod clock_laws;
pub mod config;
pub mod config_laws;
pub mod decision_laws;
pub mod dedup;
pub mod dedup_laws;
pub mod diagnostics;
pub mod fingerprint;
pub mod fingerprint_laws;
pub mod incident;
pub mod incident_laws;
pub mod intake_laws;
pub mod json;
pub mod matcher;
pub mod matcher_laws;
pub mod onboard;
pub mod onboard_laws;
pub mod patterns;
pub mod recorder;
pub mod recorder_laws;
pub mod request_laws;
pub mod requests;
pub mod resource;
pub mod shutdown;
pub mod sort;
pub mod store;
pub mod store_laws;
pub mod supervisor;
pub mod supervisor_laws;
pub mod table;
pub mod text;
pub mod text_laws;
pub mod watcher;
