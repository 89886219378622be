//! Wheelhouse broker library: the verified core of the broker and of its deploy pipeline.

pub mod builtin_skill;
pub mod config;
pub mod control;
pub mod cron;
pub mod deploy;
pub mod error;
pub mod metrics;
pub mod monitor;
pub mod registry;
pub mod routing;
pub mod skill_router;
pub mod strmap;
pub mod text;
pub mod wal;
