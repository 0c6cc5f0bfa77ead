//! A declarative task runner: named steps with shell commands, dependency,
//! ordering, and staleness metadata live in structured configuration files
//! that may reference sibling configuration files, forming a tree of build
//! units. This library holds the verified core: cross-file step resolution
//! with file-parse caching, and the decision logic of the concurrent
//! execution and staleness engine.

pub mod cache;
pub mod doc;
pub mod errors;
pub mod exec;
pub mod laws;
pub mod paths;
pub mod resolve;
pub mod step;
pub mod text;
