//! Verified core of a keyword interest-over-time retriever.
//!
//! The library holds the logic that can be checked: calendar dates and
//! their validity, the tolerant parser for the exported data file, the
//! bounded polling policy that watches for the downloaded file, and the
//! step-by-step plan a query follows. The browser session and the
//! filesystem work around it are left to the unverified shell.

pub mod date;
pub mod parse;
pub mod query;
pub mod text;
pub mod url;
pub mod watch;

pub use date::Date;
pub use query::Report;
