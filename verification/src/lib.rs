//! Verified core of a job scheduler: domain types, the condition language,
//! the JIL reader and the scheduling decisions built on them.

pub mod access;
pub mod agent;
pub mod alert;
pub mod api;
pub mod auth;
pub mod boxes;
pub mod calendar;
pub mod cli;
pub mod dedup;
pub mod resource;
pub mod policy;
pub mod raft;
pub mod error;
pub mod ids;
pub mod jil;
pub mod job;
pub mod run;
pub mod runner;
pub mod sla;
pub mod text;
pub mod time;
pub mod target;
pub mod trigger;
pub mod conditions;
