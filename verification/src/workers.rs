//! What the server knows about a connected worker, and the hardware and
//! load figures the worker reports about itself.

use vstd::prelude::*;
use crate::resources::Resources;

verus! {

/// Load averages over one, five and fifteen minutes, carried in
/// thousandths so that they stay plain integers (a load of 3.2 is 3200).
#[derive(Clone, Copy, Debug, PartialEq, Eq, Structural)]
pub struct LoadInfo {
    pub one_milli: u64,
    pub five_milli: u64,
    pub fifteen_milli: u64,
}

/// Hardware and load of a worker host, as last reported.
pub struct SystemInfo {
    pub kernel: String,
    pub distribution: String,
    pub cpu_cores: u64,
    /// Average core frequency in MHz.
    pub cpu_frequency: u64,
    pub total_ram_mb: u64,
    pub load_info: LoadInfo,
}

#[verifier::ext_equal]
pub ghost struct SystemInfoView {
    pub kernel: Seq<char>,
    pub distribution: Seq<char>,
    pub cpu_cores: u64,
    pub cpu_frequency: u64,
    pub total_ram_mb: u64,
    pub load_info: LoadInfo,
}

impl View for SystemInfo {
    type V = SystemInfoView;

    open spec fn view(&self) -> SystemInfoView {
        SystemInfoView {
            kernel: self.kernel@,
            distribution: self.distribution@,
            cpu_cores: self.cpu_cores,
            cpu_frequency: self.cpu_frequency,
            total_ram_mb: self.total_ram_mb,
            load_info: self.load_info,
        }
    }
}

impl Clone for SystemInfo {
    fn clone(&self) -> (r: Self)
        ensures
            r@ == self@,
    {
        let r = SystemInfo {
            kernel: self.kernel.clone(),
            distribution: self.distribution.clone(),
            cpu_cores: self.cpu_cores,
            cpu_frequency: self.cpu_frequency,
            total_ram_mb: self.total_ram_mb,
            load_info: self.load_info,
        };
        proof {
            assert(r@ =~= self@);
        }
        r
    }
}

impl SystemInfo {
    /// Placeholder figures until the worker's first report arrives.
    pub fn unknown() -> (r: SystemInfo)
        ensures
            r.cpu_cores == 0,
            r.cpu_frequency == 0,
            r.total_ram_mb == 0,
            r.load_info == (LoadInfo { one_milli: 0, five_milli: 0, fifteen_milli: 0 }),
    {
        SystemInfo {
            kernel: String::new(),
            distribution: String::new(),
            cpu_cores: 0,
            cpu_frequency: 0,
            total_ram_mb: 0,
            load_info: LoadInfo { one_milli: 0, five_milli: 0, fifteen_milli: 0 },
        }
    }
}

/// What the server shows about one worker.
pub struct WorkerInfo {
    /// Assigned by the server; unique for the server's lifetime.
    pub worker_id: u64,
    /// Human identifier; not unique.
    pub worker_name: String,
    pub system_info: SystemInfo,
    /// Free capacity as the worker last reported it.
    pub available_resources: Resources,
    /// Timestamp of the last message from the worker.
    pub last_seen_at: i64,
}

#[verifier::ext_equal]
pub ghost struct WorkerInfoView {
    pub worker_id: u64,
    pub worker_name: Seq<char>,
    pub system_info: SystemInfoView,
    pub available_resources: Resources,
    pub last_seen_at: i64,
}

impl View for WorkerInfo {
    type V = WorkerInfoView;

    open spec fn view(&self) -> WorkerInfoView {
        WorkerInfoView {
            worker_id: self.worker_id,
            worker_name: self.worker_name@,
            system_info: self.system_info@,
            available_resources: self.available_resources,
            last_seen_at: self.last_seen_at,
        }
    }
}

impl Clone for WorkerInfo {
    fn clone(&self) -> (r: Self)
        ensures
            r@ == self@,
    {
        let r = WorkerInfo {
            worker_id: self.worker_id,
            worker_name: self.worker_name.clone(),
            system_info: self.system_info.clone(),
            available_resources: self.available_resources,
            last_seen_at: self.last_seen_at,
        };
        proof {
            assert(r@ =~= self@);
        }
        r
    }
}

} // verus!
