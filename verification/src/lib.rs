//! Scheduling core of a 24/7 broadcast playout system.
//!
//! The library produces, on demand, the next playable media item of a daily
//! wall-clock schedule: it computes seek offsets and duration clamps, detects
//! and corrects drift, rolls over at the day boundary, reloads a changed
//! playlist source, fills gaps with synthetic items, and applies operator
//! commands. All times are kept as whole milliseconds.

use vstd::prelude::*;

pub mod clock;
pub mod date;
pub mod status;
pub mod media;
pub mod numfmt;
pub mod playlist;
pub mod program;
pub mod rpc;

verus! {

/// Milliseconds in one civil day.
pub const MS_PER_DAY: i64 = 86_400_000;

/// Length of a synthetic filler clip, in milliseconds.
pub const DUMMY_LEN_MS: i64 = 20_000;

/// The configuration values the scheduling core reads. They are constant for
/// the lifetime of the process.
#[derive(Clone)]
pub struct Config {
    /// Seconds-of-day at which each daily playlist begins, in milliseconds.
    pub day_start_ms: i64,
    /// Total scheduled milliseconds per playlist day.
    pub day_length_ms: i64,
    /// Whether the schedule is bounded (the configured length names a
    /// concrete duration rather than "none").
    pub length_bounded: bool,
    /// Grace given to the last clip of a list before the next day fires,
    /// and the bound on tolerated early playlist ends, in milliseconds.
    pub stop_threshold_ms: i64,
    /// Drift beyond which a clip is reported out of sync, in milliseconds.
    pub sync_threshold_ms: i64,
    /// Directory root or URL prefix under which daily playlists are found.
    pub playlist_root: String,
    /// Informational playback mode tag, echoed by control queries.
    pub play_mode: String,
}

/// The ranges within which the configuration is meaningful and within which
/// all schedule arithmetic stays free of overflow.
pub open spec fn valid_config(c: Config) -> bool {
    &&& 0 <= c.day_start_ms < MS_PER_DAY
    &&& 0 < c.day_length_ms <= MS_PER_DAY
    &&& 0 <= c.stop_threshold_ms <= c.day_length_ms
    &&& 0 <= c.sync_threshold_ms <= c.day_length_ms
}

} // verus!
