//! The terminal application: its state and how every event changes it.

pub mod keys;
pub mod vim;
pub mod transcript;
pub mod picker;
pub mod prompts;
pub mod state;
pub mod editor;
pub mod vim_edit;
pub mod rail;
pub mod chat;
pub mod modal;
pub mod submit;
pub mod menus;
pub mod session;
pub mod paste;
pub mod complete;
pub mod chords;
pub mod picking;
pub mod typing;
pub mod agent;
pub mod input;
pub mod replay;
pub mod recover;
pub mod term;
pub mod diff;
pub mod tasks;
pub mod command;
pub mod run;
pub mod done;
pub mod engine;
pub mod laws;
pub mod frame;
pub mod stream_laws;
pub mod replay_laws;
pub mod edit_laws;
pub mod motion_laws;
pub mod typing_laws;
pub mod submit_laws;
pub mod modal_laws;
pub mod view_laws;
pub mod outcome_laws;
pub mod menu_laws;
pub mod listing_laws;
pub mod complete_laws;
pub mod panel_laws;
pub mod edge_laws;
pub mod command_laws;
