//! Lightweight registration handle for the Dask Scheduler Plugin.

use vstd::prelude::*;

use crate::plugin_api::PluginDescriptor;

verus! {

/// Heavy initialization happens asynchronously elsewhere; this handle only
/// tracks whether the plugin is up.
pub struct DaskSchedulerPlugin {
    initialized: bool,
}

impl DaskSchedulerPlugin {
    pub closed spec fn is_initialized(&self) -> bool {
        self.initialized
    }

    pub fn new() -> (p: DaskSchedulerPlugin)
        ensures
            !p.is_initialized(),
    {
        DaskSchedulerPlugin { initialized: false }
    }

    pub fn metadata(&self) -> (d: PluginDescriptor)
        ensures
            d.id@ == "plugin-dask-scheduler"@,
            d.name@ == "Dask Scheduler"@,
            d.version@ == "0.1.0"@,
            d.description@ == "Distributed scheduling via Dask, powered by the Python Runtime Plugin."@,
            d.author@ == "Cluster Runtime Team"@,
    {
        PluginDescriptor {
            id: String::from_str("plugin-dask-scheduler"),
            name: String::from_str("Dask Scheduler"),
            version: String::from_str("0.1.0"),
            description: String::from_str(
                "Distributed scheduling via Dask, powered by the Python Runtime Plugin.",
            ),
            author: String::from_str("Cluster Runtime Team"),
        }
    }

    pub fn initialize(&mut self) -> (ok: bool)
        ensures
            ok,
            final(self).is_initialized(),
    {
        self.initialized = true;
        true
    }

    pub fn shutdown(&mut self)
        ensures
            !final(self).is_initialized(),
    {
        self.initialized = false;
    }

    pub fn health(&self) -> (b: bool)
        ensures
            b == self.is_initialized(),
    {
        self.initialized
    }
}

impl Default for DaskSchedulerPlugin {
    fn default() -> (p: DaskSchedulerPlugin)
        ensures
            !p.is_initialized(),
    {
        DaskSchedulerPlugin::new()
    }
}

} // verus!
