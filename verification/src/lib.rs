//! Changelog generation: commit parsing, history pagination, pull-request
//! classification and the grouped, date-ordered Markdown report.

pub mod classify;
pub mod commit;
pub mod json;
pub mod pagination;
pub mod query;
pub mod report;
pub mod text;
pub mod time;

pub use crate::classify::{pr_from_commit, PRKind, PR};
pub use crate::commit::{Commit, Config, RawEntry};
pub use crate::pagination::{get_commits, Pagination};
pub use crate::report::Changelog;
pub use crate::time::Timestamp;
