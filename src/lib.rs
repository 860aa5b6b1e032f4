//! Extraction, deduplication and liveness classification of playlist
//! entries.
//!
//! The library parses the text of `.m3u8` / `.m3u` playlists into
//! description/URL entries, keeps a run-wide set of URLs so that the first
//! occurrence of each URL wins, and decides from the outcome of one probe per
//! entry whether that entry is written to the output playlist.

pub mod entry;
pub mod laws;
pub mod parser;
pub mod probe;
pub mod text;
pub mod urlset;

pub use entry::M3U8Entry;
pub use parser::{parse_lines, parse_m3u8_file};
pub use probe::{check_url_validity, is_success_or_redirection, Collector, InvalidReason, ProbeOutcome, Verdict};
pub use text::split_lines;
pub use urlset::UrlSet;
