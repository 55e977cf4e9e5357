//! Subcommands, as plain values.

use crate::bench::cases::{id_refusal, refusal, validate_case_id};
use vstd::prelude::*;

verus! {

/// `wizard fleet` subcommands.
#[derive(Debug, PartialEq, Eq)]
pub enum FleetCmd {
    /// Plan the mission and run up to `n` workers in parallel.
    Run { n: usize, prompt: String },
    /// Show the fleet's state.
    Status,
    /// Ask a running fleet to wind down.
    Stop,
}

/// `wizard bench` subcommands.
#[derive(Debug, PartialEq, Eq)]
pub enum BenchCmd {
    /// Create a case by hand.
    Add {
        id: String,
        prompt: String,
        check: String,
        git_ref: String,
        timeout: u64,
        check_timeout: u64,
        tag: Vec<String>,
        notes: Option<String>,
    },
    /// List cases, and recorded turns.
    List { trajectories: bool },
    /// Make a case of a recorded turn.
    Promote {
        trajectory: String,
        check: String,
        id: Option<String>,
        timeout: u64,
        check_timeout: u64,
        tag: Vec<String>,
        notes: Option<String>,
    },
    /// Replay cases.
    Run {
        runner: Option<String>,
        label: String,
        case: Vec<String>,
        tag: Vec<String>,
        keep_worktrees: bool,
    },
    /// Compare two results.
    Compare { a: String, b: String },
}

impl BenchCmd {
    /// What is checked before a command does any work: that the case to add can
    /// have its id.
    pub fn check(&self) -> (r: Result<(), String>)
        ensures
            refusal(r) == match self {
                BenchCmd::Add { id, .. } => id_refusal(id@),
                _ => None,
            },
    {
        match self {
            BenchCmd::Add { id, .. } => validate_case_id(id),
            _ => Ok(()),
        }
    }
}

} // verus!
