//! Decision logic of the Attune API routes: token scoping, RBAC grant
//! validation, visibility filters, pagination, status parsing and the
//! small state machines that the HTTP handlers drive.

pub mod auth;
pub mod events;
pub mod executions;
pub mod files;
pub mod health;
pub mod history;
pub mod identities;
pub mod pack_index;
pub mod inquiries;
pub mod keys;
pub mod laws;
pub mod pack_install;
pub mod packs;
pub mod policies;
pub mod provenance;
pub mod registry;
pub mod rbac;
pub mod rule_changes;
pub mod rules;
pub mod runtimes;
pub mod text;
