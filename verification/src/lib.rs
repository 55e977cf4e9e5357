//! Wizard's core: the terminal application's state machine, the reader for
//! on-disk session transcripts, file checkpoints, and the benchmark runner's
//! rules.  Everything here is verified; terminal, file and process work lives
//! in the application around it.

pub mod text;
pub mod text_laws;
pub mod json;
pub mod members;
pub mod paths;
pub mod path_laws;
pub mod config;
pub mod commands;
pub mod command_laws;
pub mod app;
pub mod order;
pub mod checkpoint;
pub mod checkpoint_laws;
pub mod claude_session;
pub mod claude_resume;
pub mod resume_laws;
pub mod bench;
pub mod cli;
