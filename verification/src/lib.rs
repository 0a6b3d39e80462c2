use vstd::prelude::*;

pub mod api;
pub mod auth;
pub mod cli;
pub mod clock;
pub mod config;
pub mod control;
pub mod deploy;
pub mod devices;
pub mod docker;
pub mod digest;
pub mod events;
pub mod flows;
pub mod fs;
pub mod logs;
pub mod metrics;
pub mod paths;
pub mod rest;
pub mod runtime;
pub mod schedule;
pub mod services;
pub mod ssh;
pub mod terminal;
pub mod text;
pub mod units;
pub mod upgrade;

verus! {

} // verus!
