//! User-configurable Dask settings.

use vstd::prelude::*;

use crate::text::{dec, decimal, starts_with, strip_prefix};

verus! {

/// User-configurable Dask settings persisted in memory for this session.
#[derive(Debug, Clone)]
pub struct DaskSettings {
    /// Host the scheduler binds to (use 0.0.0.0 for multi-node).
    pub scheduler_host: String,
    /// Port the scheduler listens on.
    pub scheduler_port: u16,
    /// Dask diagnostics dashboard port.
    pub dashboard_port: u16,
    /// Address workers connect to (e.g. tcp://192.168.1.10:8786).
    pub scheduler_address: String,
    /// Worker thread count (0 = auto).
    pub worker_threads: usize,
    /// Optional memory limit string understood by Dask (e.g. "4GB").
    pub worker_memory_limit: String,
    /// Display name for the local worker.
    pub worker_name: String,
    /// Local directory for spill files.
    pub local_directory: String,
    /// Logging level passed into Dask processes.
    pub logging_level: String,
}

pub open spec fn is_default_settings(s: DaskSettings) -> bool {
    &&& s.scheduler_host@ == "0.0.0.0"@
    &&& s.scheduler_port == 8786
    &&& s.dashboard_port == 8787
    &&& s.scheduler_address@ == "tcp://127.0.0.1:8786"@
    &&& s.worker_threads == 0
    &&& s.worker_memory_limit@ == Seq::<char>::empty()
    &&& s.worker_name@ == "worker-1"@
    &&& s.local_directory@ == Seq::<char>::empty()
    &&& s.logging_level@ == "info"@
}

impl Default for DaskSettings {
    fn default() -> (s: DaskSettings)
        ensures
            is_default_settings(s),
    {
        DaskSettings {
            scheduler_host: String::from_str("0.0.0.0"),
            scheduler_port: 8786,
            dashboard_port: 8787,
            scheduler_address: String::from_str("tcp://127.0.0.1:8786"),
            worker_threads: 0,
            worker_memory_limit: String::new(),
            worker_name: String::from_str("worker-1"),
            local_directory: String::new(),
            logging_level: String::from_str("info"),
        }
    }
}

/// The dashboard URL for a dashboard port.
pub open spec fn dashboard_url_of(port: u16) -> Seq<char> {
    "http://127.0.0.1:"@ + dec(port as nat)
}

/// The address workers are told to use.
pub open spec fn advertised_address_of(s: DaskSettings) -> Seq<char> {
    if strip_prefix(s.scheduler_address@, "tcp://"@) is Some {
        s.scheduler_address@
    } else {
        "tcp://"@ + s.scheduler_host@ + ":"@ + dec(s.scheduler_port as nat)
    }
}

impl DaskSettings {
    pub fn dashboard_url(&self) -> (r: String)
        ensures
            r@ == dashboard_url_of(self.dashboard_port),
    {
        // Dashboard is typically reached via localhost from the scheduler machine.
        let mut r = String::from_str("http://127.0.0.1:");
        let port = decimal(self.dashboard_port as u64);
        r.append(port.as_str());
        r
    }

    pub fn advertised_scheduler_address(&self) -> (r: String)
        ensures
            r@ == advertised_address_of(*self),
    {
        if starts_with(self.scheduler_address.as_str(), "tcp://") {
            String::from_str(self.scheduler_address.as_str())
        } else {
            let mut r = String::from_str("tcp://");
            r.append(self.scheduler_host.as_str());
            r.append(":");
            let port = decimal(self.scheduler_port as u64);
            r.append(port.as_str());
            r
        }
    }
}

} // verus!
