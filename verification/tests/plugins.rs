use cluster_runtime::dask::plugin::DaskSchedulerPlugin;
use cluster_runtime::plugin_api::ExamplePlugin;
use cluster_runtime::plugin_registry::{PluginInfo, PluginRegistry, PluginStatus};

fn info(id: &str, name: &str) -> PluginInfo {
    PluginInfo {
        id: id.into(),
        name: name.into(),
        version: "1".into(),
        status: PluginStatus::Loaded,
        author: "a".into(),
        description: "d".into(),
        capabilities: vec![],
        plugin_type: "Runtime".into(),
    }
}

#[test]
fn registry_lists_python_runtime_first_then_by_name() {
    let mut r = PluginRegistry::new();
    r.register_dask_scheduler();
    r.register_python_runtime();
    let list = r.list_plugins();
    assert_eq!(list.len(), 2);
    assert_eq!(list[0].id, "plugin-python-runtime");
    assert_eq!(list[0].name, "Python Runtime");
    assert_eq!(list[0].status, PluginStatus::Initializing);
    assert_eq!(list[0].capabilities.len(), 4);
    assert_eq!(list[1].id, "plugin-dask-scheduler");
    assert_eq!(list[1].capabilities.len(), 5);
    assert_eq!(list[1].plugin_type, "Scheduler");
}

#[test]
fn registry_status_updates() {
    let mut r = PluginRegistry::new();
    r.register_python_runtime();
    r.update_plugin_status("plugin-python-runtime", PluginStatus::Running);
    assert_eq!(r.get_plugin_info("plugin-python-runtime").unwrap().status, PluginStatus::Running);
    r.update_plugin_status("unknown", PluginStatus::Error);
    assert!(r.get_plugin_info("unknown").is_none());
    assert_eq!(r.list_plugins().len(), 1);
}

#[test]
fn info_copies_are_equal() {
    let i = info("x", "X");
    let d = i.duplicate();
    assert_eq!(d.id, i.id);
    assert_eq!(d.name, i.name);
}

#[test]
fn plugin_handles() {
    let mut p = DaskSchedulerPlugin::new();
    assert!(!p.health());
    assert!(p.initialize());
    assert!(p.health());
    p.shutdown();
    assert!(!p.health());
    assert_eq!(p.metadata().id, "plugin-dask-scheduler");
    let mut e = ExamplePlugin::new();
    assert!(e.initialize());
    assert!(e.health());
    assert_eq!(e.metadata().name, "Example Plugin");
    e.shutdown();
}
