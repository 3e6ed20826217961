//! Builds and interprets self-directed authorization queries: parsing a
//! compact resource specifier (`resource[.group][/name]`), resolving the
//! effective namespace and impersonation, assembling the query, and mapping
//! the decision to terminal output and an exit code.

pub mod output;
pub mod query;
pub mod specifier;
