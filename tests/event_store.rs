use vuinputd::event_store::{EventKind, EventStore, UdevEvent};
use vuinputd::monitor::{
    get_property, harvest_properties, syspath_of_devpath, udev_event_from_properties, CleanupSchedule,
};

fn props(pairs: &[(&str, &str)]) -> Vec<(String, String)> {
    pairs.iter().map(|(k, v)| (k.to_string(), v.to_string())).collect()
}

fn event(kind: EventKind, seqnum: u64) -> UdevEvent {
    UdevEvent {
        syspath: "/sys/devices/virtual/input/input97".to_string(),
        seqnum,
        kind,
        payload: props(&[("ACTION", if kind == EventKind::Add { "add" } else { "remove" })]),
    }
}

#[test]
fn take_after_remove_gives_tombstones() {
    let p = "/sys/devices/virtual/input/input97";
    let mut store = EventStore::new(60_000);
    store.on_event(event(EventKind::Add, 1), 10);
    let first = store.take(p).unwrap();
    assert!(!first.tombstone);
    assert!(!first.add_processed);
    let second = store.take(p).unwrap();
    assert!(second.add_processed);
    store.on_event(event(EventKind::Remove, 2), 20);
    let third = store.take(p).unwrap();
    assert!(third.remove_data.is_some());
    assert!(!third.tombstone);
    let fourth = store.take(p).unwrap();
    assert!(fourth.tombstone);
    let fifth = store.take(p).unwrap();
    assert!(fifth.tombstone);
    assert_eq!(fifth.seqnum, 2);
}

#[test]
fn take_of_unknown_device_is_none() {
    let mut store = EventStore::new(60_000);
    assert!(store.take("/sys/devices/virtual/input/input1").is_none());
}

#[test]
fn add_resets_remove_and_processed() {
    let p = "/sys/devices/virtual/input/input97";
    let mut store = EventStore::new(60_000);
    store.on_event(event(EventKind::Remove, 1), 1);
    store.on_event(event(EventKind::Add, 2), 2);
    let e = store.take(p).unwrap();
    assert!(e.remove_data.is_none());
    assert!(e.add_data.is_some());
    assert_eq!(e.last_update, 2);
}

#[test]
fn cleanup_evicts_tombstones_and_old_entries() {
    let mut store = EventStore::new(100);
    store.on_event(event(EventKind::Add, 1), 0);
    let mut other = event(EventKind::Add, 2);
    other.syspath = "/sys/devices/virtual/input/input98".to_string();
    store.on_event(other, 50);
    store.cleanup(120);
    assert!(store.take("/sys/devices/virtual/input/input97").is_none());
    assert!(store.take("/sys/devices/virtual/input/input98").is_some());
    let mut gone = event(EventKind::Remove, 3);
    gone.syspath = "/sys/devices/virtual/input/input98".to_string();
    store.on_event(gone, 60);
    store.take("/sys/devices/virtual/input/input98");
    store.cleanup(61);
    assert!(store.take("/sys/devices/virtual/input/input98").is_none());
}

#[test]
fn harvesting_renames_and_drops_seat() {
    let raw = props(&[("ID_VUINPUT_KEYBOARD", "1"), ("ID_SEAT", "seat_vuinput"), ("ID_VUINPUT_MOUSE", "1"), ("MAJOR", "13")]);
    let h = harvest_properties(&raw);
    assert_eq!(h, props(&[("ID_INPUT_KEYBOARD", "1"), ("ID_INPUT_MOUSE", "1"), ("MAJOR", "13")]));
    assert_eq!(get_property(&h, "MAJOR").map(|s| s.as_str()), Some("13"));
    assert_eq!(get_property(&h, "MINOR"), None);
}

#[test]
fn harvesting_renames_every_marker_and_keeps_the_later_value() {
    let raw = props(&[("ID_VUINPUT_JOYSTICK", "1"), ("MAJOR", "12"), ("ID_VUINPUT", "1"), ("MAJOR", "13")]);
    let h = harvest_properties(&raw);
    assert_eq!(h, props(&[("ID_INPUT_JOYSTICK", "1"), ("ID_VUINPUT", "1"), ("MAJOR", "13")]));
}

#[test]
fn devpath_maps_to_canonical_syspath() {
    assert_eq!(
        syspath_of_devpath("/devices/virtual/input/input126/event9").as_deref(),
        Some("/sys/devices/virtual/input/input126")
    );
    assert_eq!(
        syspath_of_devpath("/devices/virtual/input/input007/event9").as_deref(),
        Some("/sys/devices/virtual/input/input7")
    );
    assert_eq!(syspath_of_devpath("/devices/virtual/input/input126"), None);
    assert_eq!(syspath_of_devpath("/devices/virtual/input/input12x/event9"), None);
}

#[test]
fn uevent_properties_become_store_events() {
    let raw = props(&[
        ("ACTION", "remove"),
        ("DEVPATH", "/devices/virtual/input/input97/event9"),
        ("SEQNUM", "14499"),
        ("ID_SEAT", "seat_vuinput"),
    ]);
    let ev = udev_event_from_properties(&raw).unwrap();
    assert_eq!(ev.syspath, "/sys/devices/virtual/input/input97");
    assert_eq!(ev.seqnum, 14499);
    assert_eq!(ev.kind, EventKind::Remove);
    assert_eq!(ev.payload.len(), 3);
    let add = props(&[("ACTION", "add"), ("DEVPATH", "/devices/virtual/input/input97/event9"), ("SEQNUM", "1")]);
    assert_eq!(udev_event_from_properties(&add).unwrap().kind, EventKind::Add);
    let parent = props(&[("ACTION", "add"), ("DEVPATH", "/devices/virtual/input/input97"), ("SEQNUM", "1")]);
    assert!(udev_event_from_properties(&parent).is_none());
    let no_seq = props(&[("DEVPATH", "/devices/virtual/input/input97/event9")]);
    assert!(udev_event_from_properties(&no_seq).is_none());
}

#[test]
fn cleanup_runs_every_sixty_seconds() {
    let mut s = CleanupSchedule::starting_at(1_000);
    assert_eq!(s.next, 61_000);
    assert!(!s.due(61_000));
    assert!(s.due(61_001));
    assert_eq!(s.next, 121_001);
}
