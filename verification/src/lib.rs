//! Finds build and cache artifacts beneath project roots and removes them.
//!
//! The library holds the rules: which names match, which paths a search
//! sees, in what order things are deleted, and which targets are never
//! touched. The search and the deletion are machines that a driver feeds
//! with what it met in the file system; the library itself reads and
//! removes nothing.

pub mod config;
pub mod delete;
pub mod error;
pub mod execute;
pub mod format;
pub mod interactive;
pub mod path;
pub mod report;
pub mod search;
pub mod text;
pub mod walk;

pub use config::{CleanConfig, Config, ConfigLoader, Options, ProjectType};
pub use delete::{DeleteEngine, DeletePlan, DeleteResult};
pub use error::CleanError;
pub use execute::{DeleteAction, DeleteEvent, DeleteRun, Decision};
pub use report::{ReportGenerator, Stats};
pub use search::{SearchEngine, SearchOptions, SearchResult};
pub use walk::{Entry, EntryKind, Walk, WalkAction, WalkEvent};
