use vuinputd::config::{DevicePolicy, Placement};
use vuinputd::event_store::EventStore;
use vuinputd::ioctl::{classify_ioctl, rewrite_setup_identity, IoctlStep, UinputCommand, UinputSetup, UI_DEV_CREATE, UI_DEV_DESTROY, UI_DEV_SETUP};
use vuinputd::jobs::{Action, EmitStep, JobStep};
use vuinputd::monitor::udev_event_from_properties;
use vuinputd::namespace::{NamespaceInodes, RequestingProcess};
use vuinputd::netlink::udev_monitor_message;
use vuinputd::session::{on_device_created, plan_write, take_device_for_removal, VuInputDevice, VuInputState, WritePlan};
use vuinputd::udev_data::sanitize_udev_data;

fn props(pairs: &[(&str, &str)]) -> Vec<(String, String)> {
    pairs.iter().map(|(k, v)| (k.to_string(), v.to_string())).collect()
}

fn container_process() -> RequestingProcess {
    RequestingProcess {
        nspath: "/proc/4242/ns".to_string(),
        nsroot: "/proc/4200/ns".to_string(),
        namespaces: NamespaceInodes { mnt: Some(4026532001), net: Some(4026532002), ..NamespaceInodes::default() },
        is_compat: false,
    }
}

fn daemon_namespaces() -> NamespaceInodes {
    NamespaceInodes { mnt: Some(4026531841), net: Some(4026531840), ..NamespaceInodes::default() }
}

fn keyboard() -> VuInputDevice {
    VuInputDevice {
        major: 13,
        minor: 73,
        syspath: "/sys/devices/virtual/input/input97".to_string(),
        devnode: "/dev/input/event9".to_string(),
        devname: "event9".to_string(),
    }
}

fn kernel_add_event() -> Vec<(String, String)> {
    props(&[
        ("ACTION", "add"),
        ("DEVPATH", "/devices/virtual/input/input97/event9"),
        ("SUBSYSTEM", "input"),
        ("DEVNAME", "/dev/input/event9"),
        ("SEQNUM", "14499"),
        ("ID_VUINPUT_KEYBOARD", "1"),
        ("ID_SEAT", "seat_vuinput"),
        ("MAJOR", "13"),
        ("MINOR", "73"),
    ])
}

#[test]
fn keyboard_create_in_container() {
    // UI_DEV_SETUP is retried once for its buffer, then gets the daemon's identity.
    assert_eq!(classify_ioctl(UI_DEV_SETUP, 0, 0), IoctlStep::NeedIn(92));
    assert_eq!(classify_ioctl(UI_DEV_SETUP, 92, 0), IoctlStep::Ready(UinputCommand::DevSetup));
    let mut setup = UinputSetup { bustype: 0x06, vendor: 1, product: 2, version: 1, name: vec![0; 80], ff_effects_max: 0 };
    rewrite_setup_identity(&mut setup);
    assert_eq!((setup.vendor, setup.product), (0x1209, 0x5020));

    // UI_DEV_CREATE: the node is made in the container before the reply.
    assert_eq!(classify_ioctl(UI_DEV_CREATE, 0, 0), IoctlStep::Ready(UinputCommand::DevCreate));
    let mut session = VuInputState::new(container_process());
    let jobs = on_device_created(&mut session, keyboard(), &daemon_namespaces()).expect("cross-namespace session");
    match jobs.mknod.steps(Placement::InContainer, "vuinput").as_slice() {
        [JobStep::InContainer(Action::MknodDevice { path, major: 13, minor: 73 })] => assert_eq!(path, "/dev/input/event9"),
        other => panic!("unexpected {:?}", other),
    }

    // The host's add uevent reaches the store; the emit job then runs.
    let mut store = EventStore::new(60_000);
    store.on_event(udev_event_from_properties(&kernel_add_event()).unwrap(), 5);
    let host_udev_data = "I:1\nE:ID_VUINPUT_KEYBOARD=1\nE:ID_SEAT=seat_vuinput\nG:seat_vuinput\nV:1\n".to_string();
    let mut emit = jobs.emit;
    let taken = store.take(&emit.sys_path);
    let steps = match emit.record_attempt(taken, Some(host_udev_data), Placement::InContainer, "vuinput") {
        EmitStep::Run(steps) => steps,
        other => panic!("unexpected {:?}", other),
    };
    assert_eq!(steps.len(), 2);
    match &steps[0] {
        JobStep::InContainer(Action::WriteUdevRuntimeData { runtime_data: Some(data), major: 13, minor: 73 }) => {
            let written = sanitize_udev_data(data);
            assert!(written.contains("ID_INPUT_KEYBOARD=1"));
            assert!(!written.contains("ID_SEAT"));
            assert!(!written.contains("seat_"));
        }
        other => panic!("unexpected {:?}", other),
    }
    match &steps[1] {
        JobStep::InContainer(Action::EmitNetlinkMessage { netlink_message }) => {
            let message = udev_monitor_message(netlink_message).unwrap();
            assert_eq!(&message[24..28], &3248653424u32.to_be_bytes());
            let payload = String::from_utf8(message[40..].to_vec()).unwrap();
            for expected in ["ACTION=add", "DEVPATH=/devices/virtual/input/input97/event9", "SUBSYSTEM=input", "MAJOR=13", "MINOR=73"] {
                assert!(payload.split('\0').any(|p| p == expected), "missing {expected}");
            }
        }
        other => panic!("unexpected {:?}", other),
    }
}

fn native(type_: u16, code: u16, value: i32) -> Vec<u8> {
    let mut b = vec![0u8; 16];
    b.extend_from_slice(&type_.to_le_bytes());
    b.extend_from_slice(&code.to_le_bytes());
    b.extend_from_slice(&value.to_le_bytes());
    b
}

#[test]
fn write_then_destroy() {
    let mut session = VuInputState::new(container_process());
    on_device_created(&mut session, keyboard(), &daemon_namespaces());
    let mut buf = Vec::new();
    for (t, c, v) in [(1u16, 57u16, 1i32), (0, 0, 0), (1, 57, 0), (0, 0, 0)] {
        buf.extend(native(t, c, v));
    }
    match plan_write(&mut session, DevicePolicy::MuteSysRq, &buf) {
        WritePlan::Forward { records, consumed } => {
            assert_eq!(consumed, 96);
            assert_eq!(records.len(), 4);
            for (i, r) in records.iter().enumerate() {
                assert_eq!(r.as_slice(), &buf[i * 24..i * 24 + 24]);
            }
        }
        WritePlan::LegacySetup(_) => panic!("not a legacy setup"),
    }

    assert_eq!(classify_ioctl(UI_DEV_DESTROY, 0, 0), IoctlStep::Ready(UinputCommand::DevDestroy));
    let remove = take_device_for_removal(&mut session, &daemon_namespaces()).expect("device to remove");
    let mut store = EventStore::new(60_000);
    store.on_event(udev_event_from_properties(&kernel_add_event()).unwrap(), 5);
    let steps = remove.steps(store.take(&remove.sys_path), Placement::InContainer, "vuinput");
    match steps.as_slice() {
        [JobStep::InContainer(Action::RemoveDevice { path, .. }), JobStep::InContainer(Action::WriteUdevRuntimeData { runtime_data: None, major: 13, minor: 73 }), JobStep::InContainer(Action::EmitNetlinkMessage { netlink_message })] => {
            assert_eq!(path, "/dev/input/event9");
            assert!(netlink_message.contains(&("ACTION".to_string(), "remove".to_string())));
            assert!(!netlink_message.contains(&("ACTION".to_string(), "add".to_string())));
        }
        other => panic!("unexpected {:?}", other),
    }
    // A later release finds nothing left to remove.
    assert!(take_device_for_removal(&mut session, &daemon_namespaces()).is_none());
}
