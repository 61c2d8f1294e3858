//! Status reported while the application checks for, downloads and
//! installs a new version of itself; update transport lives outside the
//! library.

use vstd::prelude::*;

verus! {

/// Where an update attempt currently stands.
pub enum UpdateStatus {
    Checking,
    Latest,
    Downloading { chunk: usize, length: Option<u64> },
    Downloaded,
    Failed(String),
}

/// What the presentation layer receives once startup finished.
pub struct LoadResult {
    pub update_status: UpdateStatus,
}

impl UpdateStatus {
    /// Whether this status is final: no further progress will be reported.
    pub fn is_terminal(&self) -> (r: bool)
        ensures
            r == (*self is Latest || *self is Downloaded || *self is Failed),
    {
        match self {
            UpdateStatus::Latest => true,
            UpdateStatus::Downloaded => true,
            UpdateStatus::Failed(_) => true,
            _ => false,
        }
    }
}

} // verus!
