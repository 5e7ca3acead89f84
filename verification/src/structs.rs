//! The bodies of form-encoded requests.
use vstd::prelude::*;

verus! {

/// A request naming one media file or library by its id.
pub struct Id {
    pub id: u64,
}

/// The details that come with an uploaded file. Coordinates are carried as the
/// bits of their `f64` values.
pub struct MediaInfo {
    pub bucket: String,
    pub filename: String,
    pub latitude_bits: u64,
    pub longitude_bits: u64,
    pub created: u64,
    pub modified: u64,
    pub duration: i64,
    pub h_res: u64,
    pub v_res: u64,
    pub size: u64,
}

/// A request that records when the client last synchronised.
pub struct LastSync {
    pub time: u64,
}

} // verus!
