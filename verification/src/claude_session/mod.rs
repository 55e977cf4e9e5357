//! Another agent's on-disk session transcripts: reading a file's lines into a
//! graph of messages, walking the conversation out of it, and finding the files
//! of a working directory.
//!
//! A file is a graph, not a list: editing a prompt appends a second child under
//! the same parent.  The conversation is the parent chain walked back from a
//! chosen leaf.  Nothing here writes; the caller reads files and directories and
//! hands their contents over.

pub mod line;
pub mod session;
pub mod preview;
pub mod laws;
