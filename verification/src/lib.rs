//! River-level monitoring core: observation ingestion with conditional
//! upserts, an alert subscription lifecycle with cooldown-based
//! reactivation, and the parsing and formatting that surrounds them.
use vstd::prelude::*;

pub mod alerts;
pub mod chats;
pub mod commands;
pub mod display;
pub mod engine;
pub mod format;
pub mod json;
pub mod marche;
pub mod numeric;
pub mod parsing;
pub mod regions;
pub mod seq_util;
pub mod stations;
pub mod text_util;
pub mod time;

verus! {

/// Reserved sentinel standing for "level not known yet", in hundredths
/// of the measurement unit (the levels in this crate are fixed-point
/// integers: 250 stands for a reading of 2.50).
pub const UNKNOWN_THRESHOLD: i64 = -999900;

/// A level is a real reading only when it is not the unknown sentinel.
pub open spec fn is_known_level(v: i64) -> bool {
    v != UNKNOWN_THRESHOLD
}

/// Whether a level stands for a real reading rather than the unknown sentinel.
pub fn level_is_known(v: i64) -> (r: bool)
    ensures
        r == is_known_level(v),
{
    v != UNKNOWN_THRESHOLD
}

} // verus!
