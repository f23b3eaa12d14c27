//! Hardware resources a job demands and a worker offers: job slots,
//! cpu cores, and RAM in megabytes.

use vstd::prelude::*;

verus! {

/// A bundle of job slots, cpus, and RAM (MB). Used both for the demand of a
/// job (`required_resources`) and for the free capacity a worker reports.
#[derive(Clone, Copy, Debug, PartialEq, Eq, Structural)]
pub struct Resources {
    pub job_slots: u64,
    pub cpus: u64,
    pub ram_mb: u64,
}

impl Resources {
    pub fn new(job_slots: u64, cpus: u64, ram_mb: u64) -> (r: Resources)
        ensures
            r == (Resources { job_slots, cpus, ram_mb }),
    {
        Resources { job_slots, cpus, ram_mb }
    }

    /// True when a demand of `self` can be served out of `avail`:
    /// every component fits.
    pub open spec fn spec_fit_into(self, avail: Resources) -> bool {
        self.job_slots <= avail.job_slots && self.cpus <= avail.cpus && self.ram_mb <= avail.ram_mb
    }

    /// Returns whether the demand `self` fits into the free capacity `avail`.
    pub fn fit_into(&self, avail: &Resources) -> (r: bool)
        ensures
            r == self.spec_fit_into(*avail),
    {
        self.job_slots <= avail.job_slots && self.cpus <= avail.cpus && self.ram_mb <= avail.ram_mb
    }
}

} // verus!
