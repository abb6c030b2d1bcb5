//! Records shared by the library's modules and its callers.

use vstd::prelude::*;
use crate::text::owned;

verus! {

/// A user playlist.
#[derive(Clone, Debug)]
pub struct Playlist {
    pub id: String,
    pub name: String,
    pub created_at: i64,
    pub updated_at: i64,
}

/// One artist of the library with how many tracks and albums it has.
#[derive(Clone, Debug)]
pub struct ArtistSummary {
    pub name: String,
    pub track_count: i64,
    pub album_count: i64,
}

/// Progress of a library scan.
#[derive(Clone, Debug)]
pub struct ScanProgress {
    pub current: usize,
    pub total: usize,
    pub phase: String,
}

impl ScanProgress {
    /// Looking for audio files; nothing counted yet.
    pub fn discovering() -> (r: ScanProgress)
        ensures
            r.current == 0 && r.total == 0 && r.phase@ == "discovering"@,
    {
        ScanProgress { current: 0, total: 0, phase: owned("discovering") }
    }

    /// Reading metadata: `current` of `total` files done.
    pub fn scanning(current: usize, total: usize) -> (r: ScanProgress)
        ensures
            r.current == current && r.total == total && r.phase@ == "scanning"@,
    {
        ScanProgress { current, total, phase: owned("scanning") }
    }

    /// The scan is over: all `total` files handled.
    pub fn complete(total: usize) -> (r: ScanProgress)
        ensures
            r.current == total && r.total == total && r.phase@ == "complete"@,
    {
        ScanProgress { current: total, total, phase: owned("complete") }
    }
}

/// An error reported to the user interface as its message.
#[derive(Debug)]
pub struct AppError {
    pub message: String,
}

impl AppError {
    /// The error's message.
    pub fn to_string(&self) -> (r: String)
        ensures
            r@ == self.message@,
    {
        self.message.clone()
    }
}

impl From<String> for AppError {
    fn from(s: String) -> (r: AppError) {
        AppError { message: s }
    }
}

impl vstd::std_specs::convert::FromSpecImpl<String> for AppError {
    open spec fn obeys_from_spec() -> bool {
        true
    }

    open spec fn from_spec(v: String) -> AppError {
        AppError { message: v }
    }
}

/// Where tracks come from when nothing else is recorded: "local".
pub fn default_source() -> (r: String)
    ensures
        r@ == "local"@,
{
    owned("local")
}

} // verus!
