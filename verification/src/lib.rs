//! Verified core of a two-tier container-orchestration control plane.
//!
//! A central core turns typed execution requests into durable, observable,
//! mutually exclusive actions performed on remote periphery agents. This
//! library holds the decision logic of that execution plane — the update
//! journal, the per-resource action-state registry, the variable/secret
//! interpolator with its sanitising replacers, batch target resolution by
//! glob and tag patterns, the stack deploy bookkeeping, container command
//! construction, status-cache and paging rules, and the git pull core —
//! each function carrying a contract checked by Verus. The unverified rim
//! (process spawning, HTTP transport, the document store) lives outside and
//! hands this library plain values.

pub mod action_state;
pub mod container;
pub mod deployment;
pub mod execution;
pub mod gitpull;
pub mod interpolate;
pub mod pattern;
pub mod permission;
pub mod procedure;
pub mod requests;
pub mod server;
pub mod store;
pub mod stack;
pub mod text;
pub mod update;
