use vstd::prelude::*;
use crate::cfapi::utility::WriteAt;

verus! {

/// A data-fetch request of the cloud filter.
#[derive(Debug, Clone, Copy, Default)]
pub struct FetchData;

impl FetchData {
    /// Report transfer progress: accepted, nothing to show it in.
    pub fn report_progress(&self, total: u64, transferred: u64) -> (r: Result<(), std::io::Error>)
        ensures
            r is Ok,
    {
        Ok(())
    }
}

impl WriteAt for FetchData {
    /// Write fetched data: accepted and dropped.
    fn write_at(&self, data: &[u8], offset: u64) -> (r: Result<(), std::io::Error>)
        ensures
            r is Ok,
    {
        Ok(())
    }
}

} // verus!
