//! The version clock: the single source of sync versions.

use vstd::prelude::*;
use crate::error::SyncError;

verus! {

/// Issues strictly increasing sync versions. Version 0 is never issued: it is
/// the watermark that means "from the beginning".
#[derive(Debug)]
pub struct VersionClock {
    last: u64,
}

impl VersionClock {
    /// The last version issued, or the starting point where none was.
    pub closed spec fn last_issued(&self) -> u64 {
        self.last
    }

    /// A clock whose first version is 1.
    pub fn new() -> (r: VersionClock)
        ensures
            r.last_issued() == 0,
    {
        VersionClock { last: 0 }
    }

    /// A clock whose first version is `last + 1`.
    pub fn starting_after(last: u64) -> (r: VersionClock)
        ensures
            r.last_issued() == last,
    {
        VersionClock { last }
    }

    pub fn last(&self) -> (r: u64)
        ensures
            r == self.last_issued(),
    {
        self.last
    }

    /// Issues the next version, one above the last; fails once `u64::MAX`
    /// has been issued.
    pub fn next(&mut self) -> (r: Result<u64, SyncError>)
        ensures
            old(self).last_issued() < u64::MAX <==> r is Ok,
            r matches Ok(v) ==> v == old(self).last_issued() + 1 && final(self).last_issued() == v,
            r matches Err(e) ==> e == SyncError::ClockUnavailable && *final(self) == *old(self),
    {
        if self.last == u64::MAX {
            Err(SyncError::ClockUnavailable)
        } else {
            self.last = self.last + 1;
            Ok(self.last)
        }
    }
}

} // verus!
