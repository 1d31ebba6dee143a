//! Paging through a large, server-backed result set as if it were one sequence:
//! an incremental collector that fetches pages on demand, cursors over it, a
//! line windower that fits rendered records into a terminal, and the pager state
//! machine that drives them; plus the configuration rules of the command line tool.
pub mod client;
pub mod config;
pub mod extractor;
pub mod fetcher;
pub mod json;
pub mod lines;
pub mod options;
pub mod resolver;
pub mod search;
pub mod secrets;
pub mod state;
