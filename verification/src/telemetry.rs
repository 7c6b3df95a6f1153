//! System-wide swap telemetry handed in by the acquisition boundary:
//! per-device records, the total/used counters, and the error the boundary
//! reports when a fetch fails.

use vstd::prelude::*;
use crate::samples::RawSample;

verus! {

/// One swap device, as read from the system. Sizes are raw kilobytes.
#[derive(Debug, Clone)]
pub struct InfoSwap {
    pub name: String,
    pub kind: String,
    pub size_kb: u64,
    pub used_kb: u64,
    pub priority: i64,
}

/// One acquisition of the system-wide counters: the device list (empty on
/// platforms without device-level swap) and the total and used swap in
/// kilobytes.
#[derive(Debug)]
pub struct SwapUpdate {
    pub swap_devices: Vec<InfoSwap>,
    pub total_swap: u64,
    pub used_swap: u64,
}

impl SwapUpdate {
    /// An empty reading, shown until the first successful acquisition.
    pub fn new() -> (r: SwapUpdate)
        ensures
            r.swap_devices@ == Seq::<InfoSwap>::empty(),
            r.total_swap == 0,
            r.used_swap == 0,
    {
        let r = SwapUpdate { swap_devices: Vec::new(), total_swap: 0, used_swap: 0 };
        proof {
            assert(r.swap_devices@ =~= Seq::<InfoSwap>::empty());
        }
        r
    }
}

/// Everything one successful acquisition hands over: the per-process
/// samples and the system-wide counters.
#[derive(Debug)]
pub struct Acquisition {
    pub samples: Vec<RawSample>,
    pub update: SwapUpdate,
}

/// Why an acquisition failed. The boundary turns its platform error into
/// the matching variant; the message is carried for display only.
#[derive(Debug)]
pub enum SwapDataError {
    /// The process or memory tables could not be read.
    Procfs(String),
    /// An input/output error while reading system information.
    Io(String),
}

} // verus!
