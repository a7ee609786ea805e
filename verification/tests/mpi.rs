use cluster_runtime::jobs::models::{EntryPoint, JobStatus};
use cluster_runtime::mpi::adapter::{
    check_entry_supported, map_result, mpi_capabilities, mpi_cluster_info, mpi_dependency_report,
};
use cluster_runtime::mpi::jobs::is_python_mpi_entry;
use cluster_runtime::mpi::launcher::{
    first_output_line, flavour_from_version_output, flavour_of_text, launch_args,
    launcher_candidates, temp_script_name, toolchain_missing, LaunchSpec,
};
use cluster_runtime::mpi::services::{
    build_launch_spec, mpi4py_present, resolve_ranks, script_for_entry, wrap_python_function,
    LaunchContext, PythonLaunch,
};
use cluster_runtime::mpi::settings::MpiSettings;
use cluster_runtime::mpi::types::{MpiError, MpiFlavour, MpiLaunchResult, MpiToolchain};

fn settings_with(pref: Option<&str>) -> MpiSettings {
    MpiSettings {
        preferred_launcher: pref.map(|s| s.to_string()),
        default_ranks: 2,
        extra_launcher_args: vec![],
    }
}

#[test]
fn default_settings() {
    let s = MpiSettings::default();
    assert!(s.preferred_launcher.is_none());
    assert_eq!(s.default_ranks, 2);
    assert!(s.extra_launcher_args.is_empty());
}

#[test]
fn candidates_put_preference_first_without_repeats() {
    assert_eq!(launcher_candidates(&settings_with(None)), vec!["mpirun", "mpiexec"]);
    assert_eq!(
        launcher_candidates(&settings_with(Some("srun"))),
        vec!["srun", "mpirun", "mpiexec"]
    );
    assert_eq!(launcher_candidates(&settings_with(Some("mpiexec"))), vec!["mpiexec", "mpirun"]);
    assert_eq!(launcher_candidates(&settings_with(Some("mpirun"))), vec!["mpirun", "mpiexec"]);
}

#[test]
fn which_output_first_line() {
    assert_eq!(first_output_line("/usr/bin/mpirun\n/opt/mpirun\n"), Some("/usr/bin/mpirun".to_string()));
    assert_eq!(first_output_line("  /usr/bin/mpirun  \r\n"), Some("/usr/bin/mpirun".to_string()));
    assert_eq!(first_output_line(""), None);
    assert_eq!(first_output_line("   \n/usr/bin/x"), None);
}

#[test]
fn flavour_detection() {
    assert_eq!(flavour_of_text("mpirun (open mpi) 4.1.2"), MpiFlavour::OpenMpi);
    assert_eq!(flavour_of_text("openmpi"), MpiFlavour::OpenMpi);
    assert_eq!(flavour_of_text("microsoft mpi startup program"), MpiFlavour::MsMpi);
    assert_eq!(flavour_of_text("hydra build details"), MpiFlavour::Mpich);
    assert_eq!(flavour_of_text("something else"), MpiFlavour::Unknown);
    // The version text is compared in lowercase.
    assert_eq!(flavour_from_version_output("mpirun (Open MPI) 4.1", ""), MpiFlavour::OpenMpi);
    assert_eq!(flavour_from_version_output("", "HYDRA build"), MpiFlavour::Mpich);
    assert_eq!(flavour_from_version_output("Microsoft MPI", ""), MpiFlavour::MsMpi);
    assert_eq!(flavour_from_version_output("x", "y"), MpiFlavour::Unknown);
}

#[test]
fn missing_toolchain_message() {
    let e = toolchain_missing();
    assert_eq!(
        e.message(),
        "MPI toolchain not found: Neither mpirun nor mpiexec found on PATH. Install OpenMPI, MPICH, or Microsoft MPI."
    );
    assert_eq!(MpiError::NotReady("x".into()).message(), "MPI not initialized: x");
    assert_eq!(MpiError::Job("y".into()).message(), "Job error: y");
    assert_eq!(MpiError::Io("z".into()).message(), "IO error: z");
}

#[test]
fn launcher_arguments() {
    let tc = MpiToolchain { launcher: "/usr/bin/mpirun".into(), flavour: MpiFlavour::OpenMpi };
    let mut settings = settings_with(None);
    settings.extra_launcher_args = vec!["--oversubscribe".into()];
    let spec = LaunchSpec {
        executable: "./app".into(),
        ranks: 4,
        hostfile: Some("hosts".into()),
        working_dir: None,
        env_vars: vec![],
        cli_args: vec!["--n".into(), "10".into()],
    };
    assert_eq!(
        launch_args(&tc, &settings, &spec),
        vec!["--oversubscribe", "-np", "4", "--hostfile", "hosts", "./app", "--n", "10"]
    );
    let ms = MpiToolchain { launcher: "mpiexec".into(), flavour: MpiFlavour::MsMpi };
    let spec2 = LaunchSpec { hostfile: Some("h".into()), cli_args: vec![], ..spec };
    assert_eq!(launch_args(&ms, &settings_with(None), &spec2), vec!["-np", "4", "-hostfile", "h", "./app"]);
    assert_eq!(temp_script_name("id1", ".py"), "cluster_runtime_mpi_id1.py");
}

#[test]
fn ranks_resolution() {
    assert_eq!(resolve_ranks(Some(8), Some(3), 2), 8);
    assert_eq!(resolve_ranks(Some(0), Some(3), 2), 1);
    assert_eq!(resolve_ranks(None, Some(3), 2), 3);
    assert_eq!(resolve_ranks(None, Some(0), 2), 2);
    assert_eq!(resolve_ranks(None, None, 0), 1);
}

#[test]
fn python_function_is_wrapped() {
    assert_eq!(
        wrap_python_function("x = 1\nprint(x)"),
        "def user_fn():\n    x = 1\n    print(x)\n\nif __name__ == '__main__':\n    user_fn()\n"
    );
}

#[test]
fn entries_and_launch_specs() {
    let exe = EntryPoint::MpiExecutable { executable: "./a".into(), ranks: None, hostfile: None };
    let script = EntryPoint::PythonScript { script: "print(1)".into() };
    let func = EntryPoint::PythonFunction { body: "return 1".into() };
    let module = EntryPoint::PythonModule { module: "m".into() };
    assert!(is_python_mpi_entry(&script) && is_python_mpi_entry(&func));
    assert!(!is_python_mpi_entry(&exe) && !is_python_mpi_entry(&module));

    assert_eq!(script_for_entry(&exe).unwrap(), None);
    assert_eq!(script_for_entry(&script).unwrap(), Some("print(1)".to_string()));
    match script_for_entry(&module) {
        Err(MpiError::Job(m)) => assert_eq!(m, "Unsupported entry point for MPI: Discriminant(2)"),
        _ => panic!("module entries are refused"),
    }

    let ctx = || LaunchContext {
        working_dir: Some("/w".into()),
        env_vars: vec![("K".into(), "V".into())],
        job_env: vec![("J".into(), "1".into())],
        cli_args: vec!["x".into()],
        cores_floor: Some(3),
    };
    let l = build_launch_spec(&exe, ctx(), 2, None).unwrap();
    assert_eq!(l.executable, "./a");
    assert_eq!(l.ranks, 3);
    assert_eq!(l.cli_args, vec!["x"]);
    assert_eq!(l.env_vars, vec![("K".to_string(), "V".to_string()), ("J".to_string(), "1".to_string())]);
    let py = || Some(PythonLaunch { interpreter: "/py".into(), script_path: "/tmp/s.py".into() });
    let l = build_launch_spec(&script, ctx(), 2, py()).unwrap();
    assert_eq!(l.executable, "/py");
    assert_eq!(l.cli_args, vec!["/tmp/s.py", "x"]);
    assert!(l.hostfile.is_none());
    let l = build_launch_spec(&func, ctx(), 2, py()).unwrap();
    assert_eq!(l.cli_args, vec!["/tmp/s.py"]);
    assert_eq!(l.working_dir, Some("/w".to_string()));
    assert!(build_launch_spec(&module, ctx(), 2, None).is_err());
}

#[test]
fn mpi4py_detection_ignores_case() {
    assert!(mpi4py_present(&vec!["numpy".into(), "MPI4PY".into()]));
    assert!(!mpi4py_present(&vec!["numpy".into()]));
}

#[test]
fn launch_results_are_reported() {
    let ok = MpiLaunchResult {
        success: true,
        exit_code: Some(0),
        stdout: "hi".into(),
        stderr: String::new(),
        execution_time_ms: 1500,
        ranks: 4,
    };
    let r = map_result("job-1", ok);
    assert_eq!(r.status, JobStatus::Completed);
    assert!(r.errors.is_empty());
    assert_eq!(r.result_summary, "MPI completed (4 ranks)");
    assert_eq!(r.workers_used, 4);

    let failed = MpiLaunchResult {
        success: false,
        exit_code: Some(-3),
        stdout: String::new(),
        stderr: String::new(),
        execution_time_ms: 10,
        ranks: 2,
    };
    let r = map_result("job-2", failed);
    assert_eq!(r.status, JobStatus::Failed);
    assert_eq!(r.errors, vec!["MPI job exited with code Some(-3)"]);
    assert_eq!(r.result_summary, "MPI failed (exit Some(-3))");

    let crashed = MpiLaunchResult {
        success: false,
        exit_code: None,
        stdout: String::new(),
        stderr: "boom".into(),
        execution_time_ms: 10,
        ranks: 2,
    };
    let r = map_result("job-3", crashed);
    assert_eq!(r.errors, vec!["boom"]);
    assert_eq!(r.result_summary, "MPI failed (exit None)");
}

#[test]
fn backend_description() {
    let c = mpi_capabilities();
    assert!(c.supports_python && !c.supports_gpu && !c.supports_fault_tolerance);
    let i = mpi_cluster_info("mpi", None);
    assert_eq!(i.health, "unavailable");
    assert!(!i.client_connected);
    let tc = MpiToolchain { launcher: "/usr/bin/mpirun".into(), flavour: MpiFlavour::Mpich };
    let i = mpi_cluster_info("mpi", Some(tc));
    assert_eq!(i.health, "healthy");
    assert_eq!(i.address, Some("/usr/bin/mpirun".to_string()));
    let r = mpi_dependency_report(&EntryPoint::PythonScript { script: String::new() });
    assert_eq!(r.detected, vec!["mpi4py"]);
    assert_eq!(r.installed, vec!["mpi4py"]);
    let r = mpi_dependency_report(&EntryPoint::MpiExecutable { executable: "a".into(), ranks: None, hostfile: None });
    assert!(r.detected.is_empty());
    assert_eq!(
        check_entry_supported(&EntryPoint::PythonModule { module: "m".into() }),
        Err("MPI scheduler does not support this entry point: Discriminant(2)".to_string())
    );
    assert!(check_entry_supported(&EntryPoint::PythonFunction { body: String::new() }).is_ok());
}
