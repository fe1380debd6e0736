//! Styled-text segmentation of terminal output.
//!
//! Text captured from a colorizing line-search tool carries SGR escape
//! sequences (`ESC [ <digits> m`) between runs of plain text. This crate scans
//! such text into styled segments and groups the segments into blocks, one
//! per blank-line separated paragraph of the output.

pub mod blocks;
pub mod laws;
pub mod palette;
pub mod scanner;
pub mod search;
pub mod segment;
mod strings;

pub use blocks::{group_blocks, parse_styled_blocks};
pub use palette::{color_role, ColorRole};
pub use search::{decide_search, search_args, search_directory, SearchAction};
pub use scanner::{scan_segments, ScanMode, Scanner};
pub use segment::{StyledBlock, TextSegment};
