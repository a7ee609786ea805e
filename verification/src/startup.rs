//! The start-up of the Python-based backends, step by step: Python first;
//! Dask and Ray only once Python runs.

use vstd::prelude::*;

use crate::plugin_registry::{dask_scheduler_id, python_runtime_id, PluginInfoView, PluginRegistry, PluginStatus};

verus! {

/// A scheduler backend whose adapter is registered.
#[derive(Debug, Clone, Copy, PartialEq, Eq, Structural)]
pub enum SchedulerBackend {
    Dask,
    Ray,
}

/// Where the start-up stands.
#[derive(Debug, Clone, Copy, PartialEq, Eq, Structural)]
pub enum InitStage {
    /// Looking for a Python interpreter.
    FindPython,
    /// Initializing the Python runtime.
    StartPython,
    /// Initializing the Dask service.
    StartDask,
    /// Initializing the Ray service.
    StartRay,
    /// Over.
    Done,
}

/// What the outside work of a stage came back with.
#[derive(Debug, Clone, Copy, PartialEq, Eq, Structural)]
pub enum InitEvent {
    Interpreter { found: bool },
    PythonStarted { ok: bool },
    DaskStarted { ok: bool },
    RayStarted { ok: bool },
}

/// What to do next.
#[derive(Debug, Clone, Copy, PartialEq, Eq, Structural)]
pub enum InitAction {
    /// Initialize the Python runtime with the interpreter found.
    StartPython,
    /// Keep the Python service, attach it to MPI, and initialize Dask.
    StartDask,
    /// Initialize Ray.
    StartRay,
    /// Nothing more to do.
    Finish,
}

/// The start-up's state: its stage, which service slots are filled, and the
/// scheduler adapters registered, in order.
pub struct Startup {
    pub stage: InitStage,
    pub python_service: bool,
    pub dask_service: bool,
    pub ray_service: bool,
    pub adapters: Vec<SchedulerBackend>,
}

/// The registry with the Python runtime and the schedulers on it in error.
pub open spec fn python_unavailable(m: Map<Seq<char>, PluginInfoView>) -> Map<Seq<char>, PluginInfoView> {
    Map::new(
        |k: Seq<char>| m.contains_key(k),
        |k: Seq<char>|
            if k == python_runtime_id() || k == dask_scheduler_id() || k == "plugin-ray"@ {
                PluginInfoView { status: PluginStatus::Error, ..m[k] }
            } else {
                m[k]
            },
    )
}

/// The registry with plugin `id` (when registered) in `status`.
pub open spec fn with_status(m: Map<Seq<char>, PluginInfoView>, id: Seq<char>, status: PluginStatus) -> Map<
    Seq<char>,
    PluginInfoView,
> {
    if m.contains_key(id) {
        m.insert(id, PluginInfoView { status, ..m[id] })
    } else {
        m
    }
}

/// Running when it initialized, in error otherwise.
pub open spec fn init_status(ok: bool) -> PluginStatus {
    if ok {
        PluginStatus::Running
    } else {
        PluginStatus::Error
    }
}

impl Startup {
    /// Nothing started yet.
    pub fn new() -> (s: Startup)
        ensures
            s.stage == InitStage::FindPython,
            !s.python_service && !s.dask_service && !s.ray_service,
            s.adapters@.len() == 0,
    {
        Startup {
            stage: InitStage::FindPython,
            python_service: false,
            dask_service: false,
            ray_service: false,
            adapters: Vec::new(),
        }
    }

    /// One step of the start-up. Without an interpreter, or when Python
    /// fails to initialize, the Python runtime, Dask and Ray are in error
    /// and the start-up ends with no service. Once Python runs it is kept,
    /// marked running, and Dask is initialized; Dask's service and adapter
    /// are kept whatever its initialization gave, and it is running exactly
    /// when that succeeded; then the same for Ray, and the start-up ends.
    /// An event that does not belong to the stage ends it, changing nothing
    /// else.
    pub fn step(&mut self, registry: &mut PluginRegistry, event: InitEvent) -> (a: InitAction)
        requires
            old(registry).wf(),
        ensures
            final(registry).wf(),
            final(self).stage == next_stage(old(self).stage, event),
            match (old(self).stage, event) {
                (InitStage::FindPython, InitEvent::Interpreter { found: true }) => {
                    &&& a == InitAction::StartPython
                    &&& final(self).stage == InitStage::StartPython
                    &&& final(registry).view() == old(registry).view()
                    &&& final(self).python_service == old(self).python_service
                    &&& final(self).dask_service == old(self).dask_service
                    &&& final(self).ray_service == old(self).ray_service
                    &&& final(self).adapters@ == old(self).adapters@
                },
                (InitStage::FindPython, InitEvent::Interpreter { found: false })
                | (InitStage::StartPython, InitEvent::PythonStarted { ok: false }) => {
                    &&& a == InitAction::Finish
                    &&& final(self).stage == InitStage::Done
                    &&& final(registry).view() == python_unavailable(old(registry).view())
                    &&& final(self).python_service == old(self).python_service
                    &&& final(self).dask_service == old(self).dask_service
                    &&& final(self).ray_service == old(self).ray_service
                    &&& final(self).adapters@ == old(self).adapters@
                },
                (InitStage::StartPython, InitEvent::PythonStarted { ok: true }) => {
                    &&& a == InitAction::StartDask
                    &&& final(self).stage == InitStage::StartDask
                    &&& final(self).python_service
                    &&& final(registry).view() == with_status(
                        old(registry).view(),
                        python_runtime_id(),
                        PluginStatus::Running,
                    )
                    &&& final(self).dask_service == old(self).dask_service
                    &&& final(self).ray_service == old(self).ray_service
                    &&& final(self).adapters@ == old(self).adapters@
                },
                (InitStage::StartDask, InitEvent::DaskStarted { ok }) => {
                    &&& a == InitAction::StartRay
                    &&& final(self).stage == InitStage::StartRay
                    &&& final(self).dask_service
                    &&& final(self).adapters@ == old(self).adapters@.push(SchedulerBackend::Dask)
                    &&& final(registry).view() == with_status(
                        old(registry).view(),
                        dask_scheduler_id(),
                        init_status(ok),
                    )
                    &&& final(self).python_service == old(self).python_service
                    &&& final(self).ray_service == old(self).ray_service
                },
                (InitStage::StartRay, InitEvent::RayStarted { ok }) => {
                    &&& a == InitAction::Finish
                    &&& final(self).stage == InitStage::Done
                    &&& final(self).ray_service
                    &&& final(self).adapters@ == old(self).adapters@.push(SchedulerBackend::Ray)
                    &&& final(registry).view() == with_status(old(registry).view(), "plugin-ray"@, init_status(ok))
                    &&& final(self).python_service == old(self).python_service
                    &&& final(self).dask_service == old(self).dask_service
                },
                _ => {
                    &&& a == InitAction::Finish
                    &&& final(self).stage == InitStage::Done
                    &&& final(registry).view() == old(registry).view()
                    &&& final(self).python_service == old(self).python_service
                    &&& final(self).dask_service == old(self).dask_service
                    &&& final(self).ray_service == old(self).ray_service
                    &&& final(self).adapters@ == old(self).adapters@
                },
            },
    {
        proof {
            reveal_strlit("plugin-python-runtime");
            reveal_strlit("plugin-dask-scheduler");
            reveal_strlit("plugin-ray");
        }
        match (self.stage, event) {
            (InitStage::FindPython, InitEvent::Interpreter { found: true }) => {
                self.stage = InitStage::StartPython;
                InitAction::StartPython
            },
            (InitStage::FindPython, InitEvent::Interpreter { found: false })
            | (InitStage::StartPython, InitEvent::PythonStarted { ok: false }) => {
                registry.mark_python_unavailable();
                proof {
                    assert(registry.view() =~= python_unavailable(old(registry).view()));
                }
                self.stage = InitStage::Done;
                InitAction::Finish
            },
            (InitStage::StartPython, InitEvent::PythonStarted { ok: true }) => {
                self.python_service = true;
                registry.update_plugin_status("plugin-python-runtime", PluginStatus::Running);
                self.stage = InitStage::StartDask;
                InitAction::StartDask
            },
            (InitStage::StartDask, InitEvent::DaskStarted { ok }) => {
                self.dask_service = true;
                self.adapters.push(SchedulerBackend::Dask);
                registry.record_initialization("plugin-dask-scheduler", ok);
                self.stage = InitStage::StartRay;
                InitAction::StartRay
            },
            (InitStage::StartRay, InitEvent::RayStarted { ok }) => {
                self.ray_service = true;
                self.adapters.push(SchedulerBackend::Ray);
                registry.record_initialization("plugin-ray", ok);
                self.stage = InitStage::Done;
                InitAction::Finish
            },
            _ => {
                self.stage = InitStage::Done;
                InitAction::Finish
            },
        }
    }
}

/// Dask and Ray are started only once Python runs: Dask's stage is reached
/// only from a successful Python start, and Ray's only from Dask's; every
/// step from an unfinished stage moves closer to the end.
pub proof fn lemma_backends_after_python(stage: InitStage, event: InitEvent)
    ensures
        next_stage(stage, event) == InitStage::StartDask ==> stage == InitStage::StartPython && event
            == (InitEvent::PythonStarted { ok: true }),
        next_stage(stage, event) == InitStage::StartRay ==> stage == InitStage::StartDask,
        stage != InitStage::Done ==> stage_rank(next_stage(stage, event)) < stage_rank(stage),
{
}

/// How many steps a stage is at most from the end.
pub open spec fn stage_rank(stage: InitStage) -> nat {
    match stage {
        InitStage::FindPython => 4,
        InitStage::StartPython => 3,
        InitStage::StartDask => 2,
        InitStage::StartRay => 1,
        InitStage::Done => 0,
    }
}

/// The stage a step leads to.
pub open spec fn next_stage(stage: InitStage, event: InitEvent) -> InitStage {
    match (stage, event) {
        (InitStage::FindPython, InitEvent::Interpreter { found: true }) => InitStage::StartPython,
        (InitStage::StartPython, InitEvent::PythonStarted { ok: true }) => InitStage::StartDask,
        (InitStage::StartDask, InitEvent::DaskStarted { .. }) => InitStage::StartRay,
        _ => InitStage::Done,
    }
}

} // verus!
