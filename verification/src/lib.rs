//! Release orchestration for a multi-package workspace.
//!
//! One package's version bump may cascade into version bumps and
//! dependency-version rewrites across every package that depends on it.
//! This crate holds the verified core of that process: the bump
//! propagation policy, the dependency graphs and dependant collection,
//! line-based manifest mutation with preview/backup/restore semantics,
//! commit staging, the publish session, and the release state machine.

pub mod bump;
pub mod commit;
pub mod diff;
pub mod files;
pub mod graphs;
pub mod lines;
pub mod manifest;
pub mod manifests;
pub mod messages;
pub mod packages;
pub mod pathext;
pub mod publisher;
pub mod release;
pub mod text;
pub mod updater;
pub mod workspace;
