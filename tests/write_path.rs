use vuinputd::config::DevicePolicy;
use vuinputd::device_policy::{is_allowed, KeyTracker, EV_KEY, EV_SYN, KEY_SPACE, SYN_REPORT};
use vuinputd::input_event::InputEvent;
use vuinputd::ioctl::{BUS_USB, LEGACY_USER_DEV_SIZE, VUINPUT_PRODUCT, VUINPUT_VENDOR};
use vuinputd::namespace::{NamespaceInodes, RequestingProcess};
use vuinputd::session::{plan_write, VuInputDevice, VuInputState, WritePlan};

fn native(type_: u16, code: u16, value: i32) -> Vec<u8> {
    let mut b = Vec::new();
    b.extend_from_slice(&0i64.to_le_bytes());
    b.extend_from_slice(&0i64.to_le_bytes());
    b.extend_from_slice(&type_.to_le_bytes());
    b.extend_from_slice(&code.to_le_bytes());
    b.extend_from_slice(&value.to_le_bytes());
    b
}

fn process(is_compat: bool) -> RequestingProcess {
    RequestingProcess {
        nspath: "/proc/42/ns".to_string(),
        nsroot: "/proc/40/ns".to_string(),
        namespaces: NamespaceInodes::default(),
        is_compat,
    }
}

fn created_session(is_compat: bool) -> VuInputState {
    let mut s = VuInputState::new(process(is_compat));
    s.input_device = Some(VuInputDevice {
        major: 13,
        minor: 73,
        syspath: "/sys/devices/virtual/input/input97".to_string(),
        devnode: "/dev/input/event9".to_string(),
        devname: "event9".to_string(),
    });
    s
}

#[test]
fn four_native_records_are_forwarded_verbatim() {
    let mut buf = Vec::new();
    buf.extend(native(EV_KEY, KEY_SPACE, 1));
    buf.extend(native(EV_SYN, SYN_REPORT, 0));
    buf.extend(native(EV_KEY, KEY_SPACE, 0));
    buf.extend(native(EV_SYN, SYN_REPORT, 0));
    let mut s = created_session(false);
    match plan_write(&mut s, DevicePolicy::MuteSysRq, &buf) {
        WritePlan::Forward { records, consumed } => {
            assert_eq!(consumed, 96);
            assert_eq!(records.len(), 4);
            assert_eq!(records.concat(), buf);
        }
        WritePlan::LegacySetup(_) => panic!("not a legacy setup"),
    }
}

#[test]
fn compat_record_is_written_as_24_bytes() {
    let mut buf = Vec::new();
    buf.extend_from_slice(&1234u32.to_le_bytes());
    buf.extend_from_slice(&0u32.to_le_bytes());
    buf.extend_from_slice(&1u16.to_le_bytes());
    buf.extend_from_slice(&57u16.to_le_bytes());
    buf.extend_from_slice(&1i32.to_le_bytes());
    let mut s = created_session(true);
    match plan_write(&mut s, DevicePolicy::Unfiltered, &buf) {
        WritePlan::Forward { records, consumed } => {
            assert_eq!(consumed, 16);
            assert_eq!(records.len(), 1);
            let mut expected = Vec::new();
            expected.extend_from_slice(&1234i64.to_le_bytes());
            expected.extend_from_slice(&0i64.to_le_bytes());
            expected.extend_from_slice(&1u16.to_le_bytes());
            expected.extend_from_slice(&57u16.to_le_bytes());
            expected.extend_from_slice(&1i32.to_le_bytes());
            assert_eq!(records[0], expected);
        }
        WritePlan::LegacySetup(_) => panic!("not a legacy setup"),
    }
}

#[test]
fn strict_gamepad_drops_a_keyboard_event() {
    let buf = native(EV_KEY, KEY_SPACE, 1);
    let mut s = created_session(false);
    match plan_write(&mut s, DevicePolicy::StrictGamepad, &buf) {
        WritePlan::Forward { records, consumed } => {
            assert!(records.is_empty());
            assert_eq!(consumed, 24);
        }
        WritePlan::LegacySetup(_) => panic!("not a legacy setup"),
    }
}

#[test]
fn unfiltered_policy_forwards_every_event() {
    let mut buf = Vec::new();
    buf.extend(native(EV_KEY, 99, 1));
    buf.extend(native(EV_KEY, 116, 1));
    buf.extend(native(EV_KEY, KEY_SPACE, 1));
    let mut s = created_session(false);
    match plan_write(&mut s, DevicePolicy::Unfiltered, &buf) {
        WritePlan::Forward { records, consumed } => {
            assert_eq!(records.len(), 3);
            assert_eq!(consumed, 72);
        }
        WritePlan::LegacySetup(_) => panic!("not a legacy setup"),
    }
}

#[test]
fn partial_trailing_record_is_not_consumed() {
    let mut buf = native(EV_KEY, KEY_SPACE, 1);
    buf.extend_from_slice(&[1, 2, 3]);
    let mut s = created_session(false);
    match plan_write(&mut s, DevicePolicy::Unfiltered, &buf) {
        WritePlan::Forward { records, consumed } => {
            assert_eq!(records.len(), 1);
            assert_eq!(consumed, 24);
        }
        WritePlan::LegacySetup(_) => panic!("not a legacy setup"),
    }
}

#[test]
fn legacy_setup_write_is_synthesized() {
    let mut buf = vec![0u8; LEGACY_USER_DEV_SIZE];
    buf[..8].copy_from_slice(b"legacy-k");
    buf[80..82].copy_from_slice(&0x11u16.to_le_bytes()); // bustype
    buf[82..84].copy_from_slice(&0xdeadu16.to_le_bytes()); // vendor
    buf[84..86].copy_from_slice(&0xbeefu16.to_le_bytes()); // product
    buf[86..88].copy_from_slice(&7u16.to_le_bytes()); // version
    buf[88..92].copy_from_slice(&3u32.to_le_bytes()); // ff_effects_max
    // absmax[0] = 255, absmin[2] = -10, absfuzz[0] = 4, absflat[0] = 2
    buf[92..96].copy_from_slice(&255i32.to_le_bytes());
    buf[348 + 8..348 + 12].copy_from_slice(&(-10i32).to_le_bytes());
    buf[604..608].copy_from_slice(&4i32.to_le_bytes());
    buf[860..864].copy_from_slice(&2i32.to_le_bytes());
    let mut s = VuInputState::new(process(false));
    match plan_write(&mut s, DevicePolicy::MuteSysRq, &buf) {
        WritePlan::LegacySetup(l) => {
            assert_eq!(l.setup.bustype, BUS_USB);
            assert_eq!(l.setup.vendor, VUINPUT_VENDOR);
            assert_eq!(l.setup.product, VUINPUT_PRODUCT);
            assert_eq!(l.setup.vendor, 0x1209);
            assert_eq!(l.setup.product, 0x5020);
            assert_eq!(l.setup.version, 7);
            assert_eq!(l.setup.ff_effects_max, 3);
            assert_eq!(&l.setup.name[..8], b"legacy-k");
            assert_eq!(l.setup.name.len(), 80);
            assert_eq!(l.abs_setups.len(), 2);
            assert_eq!(l.abs_setups[0].code, 0);
            assert_eq!(l.abs_setups[0].maximum, 255);
            assert_eq!(l.abs_setups[0].minimum, 0);
            assert_eq!(l.abs_setups[0].fuzz, 4);
            assert_eq!(l.abs_setups[0].flat, 2);
            assert_eq!(l.abs_setups[1].code, 2);
            assert_eq!(l.abs_setups[1].minimum, -10);
        }
        WritePlan::Forward { .. } => panic!("expected a legacy setup"),
    }
}

#[test]
fn legacy_size_after_creation_is_events() {
    let buf = vec![0u8; LEGACY_USER_DEV_SIZE];
    let mut s = created_session(false);
    match plan_write(&mut s, DevicePolicy::Unfiltered, &buf) {
        WritePlan::Forward { consumed, .. } => assert_eq!(consumed, 1104),
        WritePlan::LegacySetup(_) => panic!("device already created"),
    }
}

#[test]
fn sanitized_policy_blocks_vt_switch_and_tracks_release() {
    let mut kt = KeyTracker::new();
    let ev = |code: u16, value: i32| InputEvent { sec: 0, usec: 0, type_: EV_KEY, code, value };
    let p = DevicePolicy::Sanitized;
    assert!(is_allowed(&mut kt, &p, &ev(56, 1))); // left alt down
    assert!(!is_allowed(&mut kt, &p, &ev(59, 1))); // F1 with alt
    assert!(is_allowed(&mut kt, &p, &ev(56, 0))); // release
    assert!(!kt.left_alt_down);
    assert!(is_allowed(&mut kt, &p, &ev(59, 1))); // F1 alone
    assert!(!is_allowed(&mut kt, &p, &ev(99, 1))); // SysRq
    assert!(!is_allowed(&mut kt, &p, &ev(116, 1))); // power
    assert!(is_allowed(&mut kt, &p, &ev(29, 1))); // ctrl
    assert!(is_allowed(&mut kt, &p, &ev(100, 1))); // right alt
    assert!(!is_allowed(&mut kt, &p, &ev(111, 1))); // ctrl+alt+del
    assert!(!is_allowed(&mut kt, &p, &ev(83, 1))); // ctrl+alt+kpdot
    assert!(!is_allowed(&mut kt, &p, &ev(88, 1))); // alt+F12
}

#[test]
fn mute_sysrq_drops_only_sysrq() {
    let mut kt = KeyTracker::new();
    let p = DevicePolicy::MuteSysRq;
    let sysrq = InputEvent { sec: 0, usec: 0, type_: EV_KEY, code: 99, value: 1 };
    let space = InputEvent { sec: 0, usec: 0, type_: EV_KEY, code: KEY_SPACE, value: 1 };
    assert!(!is_allowed(&mut kt, &p, &sysrq));
    assert!(is_allowed(&mut kt, &p, &space));
}

#[test]
fn strict_gamepad_allows_buttons_and_axes() {
    let mut kt = KeyTracker::new();
    let p = DevicePolicy::StrictGamepad;
    let e = |type_: u16, code: u16| InputEvent { sec: 0, usec: 0, type_, code, value: 1 };
    assert!(is_allowed(&mut kt, &p, &e(EV_KEY, 0x130)));
    assert!(!is_allowed(&mut kt, &p, &e(EV_KEY, 0x13e)));
    assert!(is_allowed(&mut kt, &p, &e(EV_KEY, 0x226)));
    assert!(!is_allowed(&mut kt, &p, &e(EV_KEY, 0x227)));
    assert!(is_allowed(&mut kt, &p, &e(3, 0)));
    assert!(is_allowed(&mut kt, &p, &e(EV_SYN, 0)));
    assert!(is_allowed(&mut kt, &p, &e(0x15, 0)));
    assert!(!is_allowed(&mut kt, &p, &e(2, 0)));
}

#[test]
fn only_the_sanitized_policy_tracks_modifiers() {
    let alt = InputEvent { sec: 0, usec: 0, type_: EV_KEY, code: 56, value: 1 };
    let mut kt = KeyTracker::new();
    assert!(!is_allowed(&mut kt, &DevicePolicy::StrictGamepad, &alt));
    assert!(!kt.left_alt_down);
    assert!(is_allowed(&mut kt, &DevicePolicy::Unfiltered, &alt));
    assert!(!kt.left_alt_down);
    assert!(is_allowed(&mut kt, &DevicePolicy::Sanitized, &alt));
    assert!(kt.left_alt_down);
}
