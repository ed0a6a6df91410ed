//! Settings of the downloader that outlive a run.

use vstd::prelude::*;

verus! {

/// The persisted settings.
#[derive(Debug, Clone, Copy, PartialEq, Eq, Structural)]
pub struct DncliConfig {
    /// Upper bound on the transfer rate in kilobits per second, if any.
    pub throttle_limit_kbps: Option<u64>,
}

impl Default for DncliConfig {
    /// The settings of a fresh installation: no throttling.
    fn default() -> (config: DncliConfig)
        ensures
            config.throttle_limit_kbps is None,
    {
        DncliConfig { throttle_limit_kbps: None }
    }
}

} // verus!
