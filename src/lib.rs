//! Core of a personal time tracker: a stopwatch that banks running time, an
//! activity tracker that tells active from idle, and the agent runtime, a state
//! machine that turns batches of commands into state changes and outbound effects.

pub mod activity;
pub mod agent;
pub mod format;
pub mod sessions;
pub mod settings;
pub mod tasks;
pub mod time;

