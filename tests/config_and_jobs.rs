use vuinputd::config::{select_mode, CliArgs, ConfigError, DevicePolicy, Placement, RunMode};
use vuinputd::event_store::{EventKind, EventStore, UdevEvent};
use vuinputd::jobs::{
    drain_on_shutdown, Action, EmitStep, EmitUdevEventJob, InjectInContainerJob, Job, JobStep, MknodDeviceJob,
    RemoveDeviceJob, State,
};
use vuinputd::monitor::MonitorBackgroundLoop;
use vuinputd::namespace::{NamespaceInodes, RequestingProcess};
use vuinputd::registry::{initialize_vuinput_state, FileHandleCounter, RegistryError, Route, TargetRouter};
use vuinputd::session::{
    create_steps, CreateStep, destroy_steps, input_device_plan, makedev, release_steps, NodePlan, NodeStat, SessionStep,
    fetch_device_node, fetch_major_minor, initialize_dedup_last_error, on_device_created,
    take_device_for_removal, VuFileHandle, VuInputDevice, VuInputState,
};
use vuinputd::jobs::JobTarget;

fn args() -> CliArgs {
    CliArgs {
        major: None,
        minor: None,
        devname: None,
        action: None,
        action_base64: None,
        target_namespace: None,
        vt_guard: false,
        device_policy: DevicePolicy::MuteSysRq,
        placement: Placement::InContainer,
    }
}

fn container() -> RequestingProcess {
    RequestingProcess {
        nspath: "/proc/42/ns".to_string(),
        nsroot: "/proc/40/ns".to_string(),
        namespaces: NamespaceInodes { mnt: Some(5), net: Some(6), ..NamespaceInodes::default() },
        is_compat: false,
    }
}

fn device() -> VuInputDevice {
    VuInputDevice {
        major: 13,
        minor: 73,
        syspath: "/sys/devices/virtual/input/input97".to_string(),
        devnode: "/dev/input/event9".to_string(),
        devname: "event9".to_string(),
    }
}

#[test]
fn devname_of_124_bytes_is_refused() {
    let mut a = args();
    a.devname = Some("x".repeat(124));
    let e = select_mode(a).unwrap_err();
    assert_eq!(e, ConfigError::DevnameTooLong);
    assert_eq!(e.exit_code(), 2);
    let mut ok = args();
    ok.devname = Some("x".repeat(123));
    assert!(matches!(select_mode(ok), Ok(RunMode::Daemon { .. })));
}

#[test]
fn command_line_errors() {
    let mut a = args();
    a.major = Some(120);
    assert_eq!(select_mode(a).unwrap_err(), ConfigError::MajorMinorNotPaired);
    let mut b = args();
    b.target_namespace = Some("/proc/1/ns".to_string());
    assert_eq!(select_mode(b).unwrap_err(), ConfigError::TargetNamespaceWithoutAction);
    let mut c = args();
    c.action = Some("{}".to_string());
    c.action_base64 = Some("e30=".to_string());
    assert_eq!(select_mode(c).unwrap_err(), ConfigError::TwoActions);
}

#[test]
fn modes_are_selected() {
    match select_mode(args()).unwrap() {
        RunMode::Daemon { config, major, minor } => {
            assert_eq!(config.devname, "vuinput");
            assert_eq!(config.policy, DevicePolicy::MuteSysRq);
            assert_eq!((major, minor), (None, None));
        }
        _ => panic!("expected the daemon"),
    }
    let mut v = args();
    v.vt_guard = true;
    assert!(matches!(select_mode(v), Ok(RunMode::VtGuard)));
    let mut a = args();
    a.action = Some("{}".to_string());
    a.target_namespace = Some("/proc/1/ns".to_string());
    assert!(matches!(select_mode(a), Ok(RunMode::Action { .. })));
}

#[test]
fn create_in_container_yields_mknod_and_emit_jobs() {
    let own = NamespaceInodes { mnt: Some(1), net: Some(2), ..NamespaceInodes::default() };
    let mut s = VuInputState::new(container());
    let jobs = on_device_created(&mut s, device(), &own).unwrap();
    assert_eq!(jobs.mknod.devname, "event9");
    assert_eq!(jobs.emit.dev_path, "/dev/input/event9");
    match jobs.mknod.steps(Placement::InContainer, "vuinput").as_slice() {
        [JobStep::InContainer(Action::MknodDevice { path, major: 13, minor: 73 })] => {
            assert_eq!(path, "/dev/input/event9")
        }
        other => panic!("unexpected steps {:?}", other),
    }
    match jobs.mknod.steps(Placement::OnHost, "vuinput").as_slice() {
        [JobStep::OnHost { action: Action::MknodDevice { path, .. }, .. }] => {
            assert_eq!(path, "/run/vuinputd/vuinput/dev-input/event9")
        }
        other => panic!("unexpected steps {:?}", other),
    }
    assert!(jobs.mknod.steps(Placement::Nowhere, "vuinput").is_empty());
}

#[test]
fn same_namespace_session_needs_no_jobs() {
    let own = container().namespaces;
    let mut s = VuInputState::new(container());
    assert!(on_device_created(&mut s, device(), &own).is_none());
    assert!(s.input_device.is_some());
    assert!(take_device_for_removal(&mut s, &own).is_none());
}

#[test]
fn destroy_then_release_removes_once() {
    let own = NamespaceInodes { mnt: Some(1), net: Some(2), ..NamespaceInodes::default() };
    let mut s = VuInputState::new(container());
    on_device_created(&mut s, device(), &own);
    let first = take_device_for_removal(&mut s, &own).unwrap();
    assert_eq!(first.dev_name, "event9");
    assert!(take_device_for_removal(&mut s, &own).is_none());
}

fn store_with_add() -> EventStore {
    let mut store = EventStore::new(60_000);
    store.on_event(
        UdevEvent {
            syspath: "/sys/devices/virtual/input/input97".to_string(),
            seqnum: 1,
            kind: EventKind::Add,
            payload: vec![("ACTION".to_string(), "add".to_string()), ("MAJOR".to_string(), "13".to_string())],
        },
        0,
    );
    store
}

#[test]
fn remove_job_replays_the_uevent_as_remove() {
    let own = NamespaceInodes { mnt: Some(1), net: Some(2), ..NamespaceInodes::default() };
    let mut s = VuInputState::new(container());
    on_device_created(&mut s, device(), &own);
    let job = take_device_for_removal(&mut s, &own).unwrap();
    let mut store = store_with_add();
    let steps = job.steps(store.take("/sys/devices/virtual/input/input97"), Placement::InContainer, "vuinput");
    assert_eq!(steps.len(), 3);
    match &steps[0] {
        JobStep::InContainer(Action::RemoveDevice { path, .. }) => assert_eq!(path, "/dev/input/event9"),
        other => panic!("unexpected {:?}", other),
    }
    assert!(matches!(&steps[1], JobStep::InContainer(Action::WriteUdevRuntimeData { runtime_data: None, .. })));
    match &steps[2] {
        JobStep::InContainer(Action::EmitNetlinkMessage { netlink_message }) => {
            assert_eq!(
                netlink_message,
                &vec![("MAJOR".to_string(), "13".to_string()), ("ACTION".to_string(), "remove".to_string())]
            );
        }
        other => panic!("unexpected {:?}", other),
    }
    let never = RemoveDeviceJob::new(container(), "event1".to_string(), "/sys/x".to_string(), 13, 65);
    assert!(never.steps(None, Placement::InContainer, "vuinput").is_empty());
}

#[test]
fn emit_job_waits_then_runs() {
    let mut job = EmitUdevEventJob::new(
        container(),
        "/dev/input/event9".to_string(),
        "/sys/devices/virtual/input/input97".to_string(),
        13,
        73,
    );
    assert!(job.needs_netlink_data());
    assert!(matches!(job.record_attempt(None, None, Placement::InContainer, "vuinput"), EmitStep::Retry));
    let mut store = store_with_add();
    let taken = store.take("/sys/devices/virtual/input/input97");
    assert!(matches!(job.record_attempt(taken, None, Placement::InContainer, "vuinput"), EmitStep::Retry));
    assert!(!job.needs_netlink_data());
    assert!(job.needs_runtime_data());
    match job.record_attempt(None, Some("E:ID_INPUT=1\n".to_string()), Placement::InContainer, "vuinput") {
        EmitStep::Run(steps) => {
            assert_eq!(steps.len(), 2);
            assert!(matches!(&steps[1], JobStep::InContainer(Action::EmitNetlinkMessage { .. })));
        }
        other => panic!("unexpected {:?}", other),
    }
    job.set_state(State::Finished);
    assert_eq!(job.state, State::Finished);
}

#[test]
fn emit_job_stops_for_removed_device_and_gives_up_after_fifty() {
    let mut job = EmitUdevEventJob::new(container(), "/dev/input/event9".to_string(), "/sys/x".to_string(), 13, 73);
    let mut store = store_with_add();
    store.on_event(
        UdevEvent { syspath: "/sys/x".to_string(), seqnum: 2, kind: EventKind::Remove, payload: vec![] },
        1,
    );
    let taken = store.take("/sys/x");
    assert!(matches!(job.record_attempt(taken, None, Placement::InContainer, "v"), EmitStep::Stop));
    assert_eq!(job.state, State::Finished);
    let mut patient = EmitUdevEventJob::new(container(), "/dev/input/event9".to_string(), "/sys/y".to_string(), 13, 73);
    for _ in 0..49 {
        assert!(matches!(patient.record_attempt(None, None, Placement::InContainer, "v"), EmitStep::Retry));
    }
    assert!(matches!(patient.record_attempt(None, None, Placement::InContainer, "v"), EmitStep::Stop));
}

#[test]
fn shutdown_keeps_only_cleanup_jobs() {
    let mk = MknodDeviceJob::new(container(), "event9".to_string(), "/sys/x".to_string(), 13, 73);
    let rm = RemoveDeviceJob::new(container(), "event9".to_string(), "/sys/x".to_string(), 13, 73);
    let jobs = vec![
        (Job::MknodDevice(mk), 1),
        (Job::RemoveDevice(rm), 2),
        (Job::MonitorUdev(MonitorBackgroundLoop::new()), 3),
    ];
    assert!(jobs[1].0.execute_after_cancellation());
    let kept = drain_on_shutdown(jobs);
    assert_eq!(kept.len(), 1);
    assert!(matches!(kept[0], (Job::RemoveDevice(_), 2)));
}

#[test]
fn targets_get_stable_queues() {
    let mut router = TargetRouter::new();
    assert_eq!(router.route(&JobTarget::BackgroundLoop), Route::Spawn);
    assert_eq!(router.route(&JobTarget::Container(container())), Route::Queue { index: 0, created: true });
    assert_eq!(router.route(&JobTarget::Host), Route::Queue { index: 1, created: true });
    assert_eq!(router.route(&JobTarget::Container(container())), Route::Queue { index: 0, created: false });
}

#[test]
fn registry_refuses_reused_handles() {
    let mut reg = initialize_vuinput_state();
    let fh = VuFileHandle::from_fuse_file_info(3);
    assert!(reg.insert_vuinput_state(&fh, VuInputState::new(container())).is_ok());
    assert!(reg.contains(&fh));
    assert_eq!(
        reg.insert_vuinput_state(&fh, VuInputState::new(container())).unwrap_err(),
        RegistryError::HandleReused
    );
    let removed = reg.remove_vuinput_state(&fh).unwrap();
    assert_eq!(removed.requesting_process, container());
    assert!(!reg.contains(&fh));
    assert_eq!(reg.remove_vuinput_state(&fh).unwrap_err(), RegistryError::UnknownHandle);
    let mut counter = FileHandleCounter::new(3);
    assert_eq!(counter.get_fresh_filehandle(), Some(3));
    assert_eq!(counter.get_fresh_filehandle(), Some(4));
    let mut last = FileHandleCounter::new(u64::MAX);
    assert_eq!(last.get_fresh_filehandle(), None);
}

#[test]
fn device_node_and_numbers() {
    let entries = vec!["capabilities".to_string(), "mouse0".to_string(), "event9".to_string()];
    assert_eq!(fetch_device_node(&entries), Some(("event9".to_string(), "/dev/input/event9".to_string())));
    assert_eq!(fetch_device_node(&vec!["name".to_string()]), None);
    assert_eq!(fetch_major_minor(true, (13 << 8) | 73), Ok((13, 73)));
    assert!(fetch_major_minor(false, 0).is_err());
}

#[test]
fn write_errors_are_logged_once_per_handle() {
    let mut d = initialize_dedup_last_error();
    assert!(d.write_error(3));
    assert!(!d.write_error(3));
    assert!(d.write_error(4));
    assert!(d.write_error(3));
}

#[test]
fn inject_job_makes_node_then_data_then_uevent() {
    let mut job = InjectInContainerJob::new(
        container(),
        "/dev/input/event9".to_string(),
        "/sys/devices/virtual/input/input97".to_string(),
        13,
        73,
    );
    let mut store = store_with_add();
    let taken = store.take("/sys/devices/virtual/input/input97");
    match job.record_attempt(taken, Some("E:ID_INPUT=1\n".to_string())) {
        EmitStep::Run(steps) => {
            assert_eq!(steps.len(), 3);
            match &steps[0] {
                JobStep::InContainer(Action::MknodDevice { path, major: 13, minor: 73 }) => {
                    assert_eq!(path, "/dev/input/event9")
                }
                other => panic!("unexpected {:?}", other),
            }
            assert!(matches!(&steps[1], JobStep::InContainer(Action::WriteUdevRuntimeData { runtime_data: Some(_), .. })));
            assert!(matches!(&steps[2], JobStep::InContainer(Action::EmitNetlinkMessage { .. })));
        }
        other => panic!("unexpected {:?}", other),
    }
}

#[test]
fn destroy_and_release_plans_keep_their_order() {
    let own = NamespaceInodes { mnt: Some(1), net: Some(2), ..NamespaceInodes::default() };
    let mut s = VuInputState::new(container());
    on_device_created(&mut s, device(), &own);
    let steps = destroy_steps(&mut s, &own);
    assert_eq!(steps.len(), 3);
    match &steps[0] {
        SessionStep::RemoveInContainer(j) => {
            assert_eq!(j.dev_name, "event9");
            assert_eq!(j.sys_path, "/sys/devices/virtual/input/input97");
            assert_eq!((j.major, j.minor), (13, 73));
            assert_eq!(j.target, JobTarget::Container(container()));
            assert_eq!(j.state, State::Initialized);
        }
        other => panic!("unexpected {:?}", other),
    }
    assert!(matches!(steps[1], SessionStep::DestroyHostDevice));
    assert!(matches!(steps[2], SessionStep::ReplyOk));
    let after = release_steps(&mut s, &own);
    assert_eq!(after.len(), 2);
    assert!(matches!(after[0], SessionStep::CloseHostFile));
    assert!(matches!(after[1], SessionStep::ReplyOk));
    let mut t = VuInputState::new(container());
    on_device_created(&mut t, device(), &own);
    let released = release_steps(&mut t, &own);
    assert_eq!(released.len(), 3);
    assert!(matches!(released[0], SessionStep::RemoveInContainer(_)));
    assert!(matches!(released[1], SessionStep::CloseHostFile));
}

#[test]
fn device_node_plans() {
    let rdev = makedev(13, 73);
    assert_eq!(rdev, (13 << 8) | 73);
    assert_eq!(makedev(13, 0x12345), (13 << 8) | 0x45 | (0x123 << 20));
    assert_eq!(fetch_major_minor(true, rdev), Ok((13, 73)));
    let good = NodeStat { is_char_device: true, rdev, mode: 0o20666 };
    assert_eq!(input_device_plan(Some(good), 13, 73), NodePlan::Keep);
    assert_eq!(input_device_plan(Some(NodeStat { mode: 0o20600, ..good }), 13, 73), NodePlan::FixMode);
    assert_eq!(input_device_plan(Some(NodeStat { rdev: makedev(13, 74), ..good }), 13, 73), NodePlan::Replace);
    assert_eq!(input_device_plan(Some(NodeStat { is_char_device: false, ..good }), 13, 73), NodePlan::Replace);
    assert_eq!(input_device_plan(None, 13, 73), NodePlan::Replace);
}

#[test]
fn create_plan_waits_for_mknod_before_reply() {
    let own = NamespaceInodes { mnt: Some(1), net: Some(2), ..NamespaceInodes::default() };
    let mut s = VuInputState::new(container());
    let steps = create_steps(&mut s, device(), &own);
    assert_eq!(steps.len(), 3);
    match &steps[0] {
        CreateStep::WaitForMknod(m) => {
            assert_eq!(m.devname, "event9");
            assert_eq!(m.target, JobTarget::Container(container()));
        }
        other => panic!("unexpected {:?}", other),
    }
    assert!(matches!(steps[1], CreateStep::ReplyOk));
    match &steps[2] {
        CreateStep::DispatchEmit(e) => assert_eq!(e.dev_path, "/dev/input/event9"),
        other => panic!("unexpected {:?}", other),
    }
    assert!(s.input_device.is_some());
    let mut same = VuInputState::new(container());
    let local = create_steps(&mut same, device(), &container().namespaces);
    assert_eq!(local.len(), 1);
    assert!(matches!(local[0], CreateStep::ReplyOk));
}
