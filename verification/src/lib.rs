//! Verified core of a commit-log dashboard: parsing of graph-decorated
//! log lines into structured commit records, construction of the argument
//! lists handed to the external log tool, and the query operations that
//! combine the two around an injected invoker.

use vstd::prelude::*;

pub mod commands;
pub mod entry;
pub mod laws;
pub mod numbers;
pub mod parser;
pub mod query;
pub mod search;
pub mod text;

pub use entry::CommitEntry;
pub use entry::GitError;
