//! Core logic of a pacman front-end: classifying and filtering terminal
//! output, tracking database-sync progress, driving an interactive
//! package-manager session character by character, scanning the pacman log
//! for the last completed system upgrade, parsing mirror configuration,
//! summarising simulated upgrade transactions, and assembling a stats
//! record from a requested set of stat kinds.
//!
//! All decision logic lives here, verified; the surrounding process,
//! terminal, network and database plumbing hands in plain values.

pub mod ansi;
pub mod classify;
pub mod config;
pub mod gather;
pub mod logscan;
pub mod mirror;
pub mod numbers;
pub mod probes;
pub mod progress;
pub mod pty;
pub mod stats;
pub mod text;
pub mod upgrade;
pub mod util;
