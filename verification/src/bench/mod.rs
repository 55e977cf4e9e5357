//! The benchmark harness's rules: cases, promotion of recorded turns, listings
//! and comparisons.
//!
//! Project-local layout: `.wizard/trajectories.jsonl` holds the recorded turns,
//! `.wizard/bench/cases/<id>.toml` one case each, and
//! `.wizard/bench/results/<label>-<unix time>.json` the results of runs.

pub mod cases;
pub mod compare;
pub mod runner;
pub mod laws;
