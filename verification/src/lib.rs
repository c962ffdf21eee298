//! Per-author contribution statistics for a version-controlled source tree.
//!
//! The crate holds the pure core of the pipeline: discovering distinct
//! author names from raw command output, extracting per-author numeric
//! summaries from history text, assigning display colors, merging the
//! results into one aggregated mapping, and adapting that mapping to
//! chart records for an external renderer.

pub mod aggregate;
pub mod discovery;
pub mod palette;
pub mod present;
pub mod stats;
pub mod text;
