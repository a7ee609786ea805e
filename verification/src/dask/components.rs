//! What the scheduler and worker managers record of their processes, and
//! how each step of starting, polling and stopping changes that record.

use vstd::prelude::*;

use crate::clock::Timestamp;
use crate::dask::client::{json_parses, json_str_field};
use crate::dask::scheduler::{
    component_status_for, component_status_of, local_address_of, local_connect_address,
    memory_limit_setting, ready_payload, ready_payload_of, worker_scheduler_address,
};
use crate::dask::settings::{dashboard_url_of, DaskSettings};
use crate::dask::types::{ComponentStatus, ProcessStatus};
use crate::dask::scripts::{
    debug_quoted, optional_literal, scheduler_script, scheduler_script_text, thread_count_literal, worker_script,
    worker_script_text,
};
use crate::text::{dec, opt_view, trim};

verus! {

/// The text fields a ready line's JSON carries.
pub struct ReadyFields {
    pub address: Option<String>,
    pub dashboard: Option<String>,
    pub name: Option<String>,
}

/// `serde_json::from_str` of a ready line's JSON, then `get(..).as_str()` of
/// its `address`, `dashboard` and `name` entries; `None` when it is not JSON.
#[verifier::external_body]
fn read_ready_fields(text: &str) -> (r: Option<ReadyFields>)
    ensures
        r is Some <==> json_parses(text@),
        r matches Some(f) ==> {
            &&& opt_view(f.address) == json_str_field(text@, "address"@)
            &&& opt_view(f.dashboard) == json_str_field(text@, "dashboard"@)
            &&& opt_view(f.name) == json_str_field(text@, "name"@)
        },
{
    let v: serde_json::Value = serde_json::from_str(text).ok()?;
    let field = |k: &str| v.get(k).and_then(|x| x.as_str()).map(|x| x.to_string());
    Some(ReadyFields { address: field("address"), dashboard: field("dashboard"), name: field("name") })
}

/// A copy of an optional text.
pub fn copy_opt(o: &Option<String>) -> (r: Option<String>)
    ensures
        r == *o,
{
    match o {
        Some(x) => Some(x.clone()),
        None => None,
    }
}

/// The code a scheduler start spawns: the scheduler script of the settings.
pub open spec fn scheduler_code(s: DaskSettings) -> Seq<char> {
    scheduler_script_text(
        debug_quoted(s.logging_level@),
        debug_quoted(s.scheduler_host@),
        dec(s.scheduler_port as nat),
        dec(s.dashboard_port as nat),
    )
}

/// The code a worker start spawns: the worker script for the scheduler at
/// `address` and the settings.
pub open spec fn worker_code(address: Seq<char>, s: DaskSettings) -> Seq<char> {
    worker_script_text(
        debug_quoted(s.logging_level@),
        debug_quoted(address),
        debug_quoted(s.worker_name@),
        thread_count_literal(s.worker_threads as nat),
        optional_literal(s.worker_memory_limit@),
        optional_literal(s.local_directory@),
    )
}

/// How a worker start proceeds: the previous worker process to stop first,
/// if there is one, and the code to spawn.
pub struct WorkerLaunch {
    pub stop_first: Option<String>,
    pub code: String,
}

/// What the scheduler manager knows of its process.
#[derive(Debug, Clone)]
pub struct SchedulerInfo {
    pub status: ComponentStatus,
    pub host: String,
    pub port: u16,
    pub dashboard_port: u16,
    pub address: Option<String>,
    pub dashboard_url: Option<String>,
    pub process_id: Option<String>,
    pub started_at: Option<Timestamp>,
    pub error: Option<String>,
    /// The process's recent output, as last read.
    pub logs: String,
}

/// What the worker manager knows of its process.
#[derive(Debug, Clone)]
pub struct WorkerInfo {
    pub status: ComponentStatus,
    pub name: String,
    pub scheduler_address: String,
    pub nthreads: usize,
    pub memory_limit: Option<String>,
    pub process_id: Option<String>,
    pub started_at: Option<Timestamp>,
    pub error: Option<String>,
    /// The process's recent output, as last read.
    pub logs: String,
}

impl SchedulerInfo {
    /// A copy of the record.
    pub fn duplicate(&self) -> (r: SchedulerInfo)
        ensures
            r == *self,
    {
        SchedulerInfo {
            status: self.status,
            host: self.host.clone(),
            port: self.port,
            dashboard_port: self.dashboard_port,
            address: copy_opt(&self.address),
            dashboard_url: copy_opt(&self.dashboard_url),
            process_id: copy_opt(&self.process_id),
            started_at: self.started_at,
            error: copy_opt(&self.error),
            logs: self.logs.clone(),
        }
    }

    /// No scheduler process yet.
    pub fn new() -> (i: SchedulerInfo)
        ensures
            i.status == ComponentStatus::Stopped,
            i.host@.len() == 0,
            i.port == 0,
            i.dashboard_port == 0,
            i.address is None,
            i.dashboard_url is None,
            i.process_id is None,
            i.started_at is None,
            i.error is None,
            i.logs@.len() == 0,
    {
        SchedulerInfo {
            status: ComponentStatus::Stopped,
            host: String::new(),
            port: 0,
            dashboard_port: 0,
            address: None,
            dashboard_url: None,
            process_id: None,
            started_at: None,
            error: None,
            logs: String::new(),
        }
    }

    /// The first step of a start: a running scheduler is kept as it is and
    /// nothing is spawned (`None`); otherwise the record turns `Starting`
    /// with the configured host and ports and no error, and the code to spawn
    /// is the scheduler script of the settings.
    pub fn begin_start(&mut self, settings: &DaskSettings) -> (spawn: Option<String>)
        ensures
            spawn is Some <==> old(self).status != ComponentStatus::Running,
            spawn matches Some(code) ==> code@ == scheduler_code(*settings),
            spawn is None ==> *final(self) == *old(self),
            spawn is Some ==> *final(self) == (SchedulerInfo {
                status: ComponentStatus::Starting,
                host: settings.scheduler_host,
                port: settings.scheduler_port,
                dashboard_port: settings.dashboard_port,
                error: None,
                ..*old(self)
            }),
    {
        if self.status == ComponentStatus::Running {
            return None;
        }
        self.status = ComponentStatus::Starting;
        self.host = settings.scheduler_host.clone();
        self.port = settings.scheduler_port;
        self.dashboard_port = settings.dashboard_port;
        self.error = None;
        Some(
            scheduler_script(
                settings.scheduler_host.as_str(),
                settings.scheduler_port,
                settings.dashboard_port,
                settings.logging_level.as_str(),
            ),
        )
    }

    /// The scheduler process `process_id` became ready at `now`: the record
    /// is running, with the dashboard URL and the address local clients
    /// connect to.
    pub fn mark_started(&mut self, process_id: String, now: Timestamp, settings: &DaskSettings)
        ensures
            final(self).status == ComponentStatus::Running,
            final(self).process_id == Some(process_id),
            final(self).started_at == Some(now),
            final(self).dashboard_url matches Some(u) && u@ == dashboard_url_of(settings.dashboard_port),
            final(self).address matches Some(a) && a@ == local_address_of(
                settings.scheduler_host@,
                settings.scheduler_port,
            ),
            final(self).host == old(self).host,
            final(self).port == old(self).port,
            final(self).dashboard_port == old(self).dashboard_port,
            final(self).error == old(self).error,
    {
        self.process_id = Some(process_id);
        self.started_at = Some(now);
        self.status = ComponentStatus::Running;
        self.dashboard_url = Some(settings.dashboard_url());
        self.address = Some(local_connect_address(settings.scheduler_host.as_str(), settings.scheduler_port));
    }

    /// The start failed with `error`; the process's output, when it could
    /// be read, becomes the logs.
    pub fn mark_failed(&mut self, error: String, logs: Option<String>)
        ensures
            *final(self) == (SchedulerInfo {
                status: ComponentStatus::Error,
                error: Some(error),
                logs: match logs {
                    Some(l) => l,
                    None => old(self).logs,
                },
                ..*old(self)
            }),
    {
        self.status = ComponentStatus::Error;
        self.error = Some(error);
        match logs {
            Some(l) => {
                self.logs = l;
            },
            None => {},
        }
    }

    /// The scheduler was stopped: no process, no address, no error.
    pub fn mark_stopped(&mut self)
        ensures
            *final(self) == (SchedulerInfo {
                status: ComponentStatus::Stopped,
                process_id: None,
                address: None,
                error: None,
                ..*old(self)
            }),
    {
        self.status = ComponentStatus::Stopped;
        self.process_id = None;
        self.address = None;
        self.error = None;
    }

    /// Takes in a poll of the scheduler process (`None`: the poll failed)
    /// with the error its output shows and the tail of its standard output.
    /// A live process is running, and the last `DASK_SCHEDULER_READY ` line,
    /// when its JSON parses, gives the address and dashboard URL.
    pub fn apply_poll(
        &mut self,
        poll: Option<ProcessStatus>,
        process_error: Option<String>,
        stdout_tail: &str,
        logs: String,
    )
        ensures
            final(self).status == component_status_of(poll),
            poll is Some ==> final(self).logs == logs,
            poll is None ==> final(self).logs == old(self).logs,
            final(self).host == old(self).host,
            final(self).port == old(self).port,
            final(self).dashboard_port == old(self).dashboard_port,
            final(self).started_at == old(self).started_at,
            final(self).process_id == (match poll {
                Some(ProcessStatus::Exited) | Some(ProcessStatus::Stopped) => None,
                _ => old(self).process_id,
            }),
            final(self).error == (match poll {
                Some(ProcessStatus::Failed) => process_error,
                Some(ProcessStatus::Exited) | Some(ProcessStatus::Stopped) => None,
                _ => old(self).error,
            }),
            ({
                let fresh = match poll {
                    Some(ProcessStatus::Running) | Some(ProcessStatus::Starting) => match ready_payload_of(
                        stdout_tail@,
                        "DASK_SCHEDULER_READY "@,
                    ) {
                        Some(j) => if json_parses(j) {
                            Some(j)
                        } else {
                            None
                        },
                        None => None,
                    },
                    _ => None,
                };
                match fresh {
                    Some(j) => opt_view(final(self).address) == json_str_field(j, "address"@) && opt_view(
                        final(self).dashboard_url,
                    ) == json_str_field(j, "dashboard"@),
                    None => final(self).address == old(self).address && final(self).dashboard_url == old(
                        self,
                    ).dashboard_url,
                }
            }),
    {
        self.status = component_status_for(poll);
        if poll.is_some() {
            self.logs = logs;
        }
        match poll {
            Some(ProcessStatus::Running) | Some(ProcessStatus::Starting) => {
                match ready_payload(stdout_tail, "DASK_SCHEDULER_READY ") {
                    Some(j) => match read_ready_fields(j.as_str()) {
                        Some(f) => {
                            self.address = f.address;
                            self.dashboard_url = f.dashboard;
                        },
                        None => {},
                    },
                    None => {},
                }
            },
            Some(ProcessStatus::Failed) => {
                self.error = process_error;
            },
            Some(ProcessStatus::Exited) | Some(ProcessStatus::Stopped) => {
                self.process_id = None;
                self.error = None;
            },
            None => {},
        }
    }
}

impl WorkerInfo {
    /// A copy of the record.
    pub fn duplicate(&self) -> (r: WorkerInfo)
        ensures
            r == *self,
    {
        WorkerInfo {
            status: self.status,
            name: self.name.clone(),
            scheduler_address: self.scheduler_address.clone(),
            nthreads: self.nthreads,
            memory_limit: copy_opt(&self.memory_limit),
            process_id: copy_opt(&self.process_id),
            started_at: self.started_at,
            error: copy_opt(&self.error),
            logs: self.logs.clone(),
        }
    }

    /// No worker process yet.
    pub fn new() -> (i: WorkerInfo)
        ensures
            i.status == ComponentStatus::Stopped,
            i.name@.len() == 0,
            i.scheduler_address@.len() == 0,
            i.nthreads == 0,
            i.memory_limit is None,
            i.process_id is None,
            i.started_at is None,
            i.error is None,
            i.logs@.len() == 0,
    {
        WorkerInfo {
            status: ComponentStatus::Stopped,
            name: String::new(),
            scheduler_address: String::new(),
            nthreads: 0,
            memory_limit: None,
            process_id: None,
            started_at: None,
            error: None,
            logs: String::new(),
        }
    }

    /// The first step of a start: a running worker is kept as it is and
    /// nothing is spawned (`None`); otherwise the record turns `Starting`
    /// for the scheduler it will join (the requested address unless blank,
    /// else the configured one), with the configured name, threads and
    /// memory limit and no error. The start then stops the previous worker
    /// process, if the record had one, and spawns the worker script for that
    /// scheduler and the settings.
    pub fn begin_start(&mut self, requested: Option<String>, settings: &DaskSettings) -> (spawn: Option<WorkerLaunch>)
        ensures
            spawn is Some <==> old(self).status != ComponentStatus::Running,
            spawn matches Some(l) ==> l.stop_first == old(self).process_id && l.code@ == worker_code(
                final(self).scheduler_address@,
                *settings,
            ),
            spawn is None ==> *final(self) == *old(self),
            spawn is Some ==> {
                &&& final(self).status == ComponentStatus::Starting
                &&& final(self).scheduler_address@ == match requested {
                    Some(a) => if trim(a@).len() > 0 {
                        a@
                    } else {
                        settings.scheduler_address@
                    },
                    None => settings.scheduler_address@,
                }
                &&& final(self).name == settings.worker_name
                &&& final(self).nthreads == settings.worker_threads
                &&& (match final(self).memory_limit {
                    Some(m) => settings.worker_memory_limit@.len() > 0 && m@ == settings.worker_memory_limit@,
                    None => settings.worker_memory_limit@.len() == 0,
                })
                &&& final(self).error is None
                &&& final(self).process_id == old(self).process_id
                &&& final(self).started_at == old(self).started_at
            },
    {
        if self.status == ComponentStatus::Running {
            return None;
        }
        let stop_first = copy_opt(&self.process_id);
        self.status = ComponentStatus::Starting;
        self.scheduler_address = worker_scheduler_address(requested, settings.scheduler_address.as_str());
        self.name = settings.worker_name.clone();
        self.nthreads = settings.worker_threads;
        self.memory_limit = memory_limit_setting(settings.worker_memory_limit.as_str());
        self.error = None;
        let code = worker_script(
            self.scheduler_address.as_str(),
            settings.worker_name.as_str(),
            settings.worker_threads,
            settings.worker_memory_limit.as_str(),
            settings.local_directory.as_str(),
            settings.logging_level.as_str(),
        );
        Some(WorkerLaunch { stop_first, code })
    }

    /// The worker process `process_id` became ready at `now`.
    pub fn mark_started(&mut self, process_id: String, now: Timestamp)
        ensures
            *final(self) == (WorkerInfo {
                process_id: Some(process_id),
                started_at: Some(now),
                status: ComponentStatus::Running,
                ..*old(self)
            }),
    {
        self.process_id = Some(process_id);
        self.started_at = Some(now);
        self.status = ComponentStatus::Running;
    }

    /// The start failed with `error`; the process's output, when it could
    /// be read, becomes the logs.
    pub fn mark_failed(&mut self, error: String, logs: Option<String>)
        ensures
            *final(self) == (WorkerInfo {
                status: ComponentStatus::Error,
                error: Some(error),
                logs: match logs {
                    Some(l) => l,
                    None => old(self).logs,
                },
                ..*old(self)
            }),
    {
        self.status = ComponentStatus::Error;
        self.error = Some(error);
        match logs {
            Some(l) => {
                self.logs = l;
            },
            None => {},
        }
    }

    /// The worker was stopped: no process, no error.
    pub fn mark_stopped(&mut self)
        ensures
            *final(self) == (WorkerInfo {
                status: ComponentStatus::Stopped,
                process_id: None,
                error: None,
                ..*old(self)
            }),
    {
        self.status = ComponentStatus::Stopped;
        self.process_id = None;
        self.error = None;
    }

    /// Takes in a poll of the worker process (`None`: the poll failed). A
    /// live process is running, and the `name` of the last
    /// `DASK_WORKER_READY ` line's JSON, when there is one, becomes its name.
    pub fn apply_poll(
        &mut self,
        poll: Option<ProcessStatus>,
        process_error: Option<String>,
        stdout_tail: &str,
        logs: String,
    )
        ensures
            final(self).status == component_status_of(poll),
            poll is Some ==> final(self).logs == logs,
            poll is None ==> final(self).logs == old(self).logs,
            final(self).scheduler_address == old(self).scheduler_address,
            final(self).nthreads == old(self).nthreads,
            final(self).memory_limit == old(self).memory_limit,
            final(self).started_at == old(self).started_at,
            final(self).process_id == (match poll {
                Some(ProcessStatus::Exited) | Some(ProcessStatus::Stopped) => None,
                _ => old(self).process_id,
            }),
            final(self).error == (match poll {
                Some(ProcessStatus::Failed) => process_error,
                Some(ProcessStatus::Exited) | Some(ProcessStatus::Stopped) => None,
                _ => old(self).error,
            }),
            ({
                let named = match poll {
                    Some(ProcessStatus::Running) | Some(ProcessStatus::Starting) => match ready_payload_of(
                        stdout_tail@,
                        "DASK_WORKER_READY "@,
                    ) {
                        Some(j) => if json_parses(j) {
                            json_str_field(j, "name"@)
                        } else {
                            None
                        },
                        None => None,
                    },
                    _ => None,
                };
                match named {
                    Some(n) => final(self).name@ == n,
                    None => final(self).name == old(self).name,
                }
            }),
    {
        self.status = component_status_for(poll);
        if poll.is_some() {
            self.logs = logs;
        }
        match poll {
            Some(ProcessStatus::Running) | Some(ProcessStatus::Starting) => {
                match ready_payload(stdout_tail, "DASK_WORKER_READY ") {
                    Some(j) => match read_ready_fields(j.as_str()) {
                        Some(f) => match f.name {
                            Some(n) => {
                                self.name = n;
                            },
                            None => {},
                        },
                        None => {},
                    },
                    None => {},
                }
            },
            Some(ProcessStatus::Failed) => {
                self.error = process_error;
            },
            Some(ProcessStatus::Exited) | Some(ProcessStatus::Stopped) => {
                self.process_id = None;
                self.error = None;
            },
            None => {},
        }
    }
}

} // verus!
