//! Audits module declarations of deployment manifests against a module registry.

pub mod branches;
pub mod forge;
pub mod grammar;
pub mod line;
pub mod models;
pub mod names;
pub mod precedence;
pub mod puppetfile;
pub mod reconcile;
pub mod report;
pub mod text;
pub mod version;
