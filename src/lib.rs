//! Token vesting schedules: a piecewise linear vesting curve with an optional cliff,
//! and the periods of incremental release that it yields.
pub mod config;
pub mod schedule;
pub mod commands;
