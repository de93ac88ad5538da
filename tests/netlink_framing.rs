use vuinputd::netlink::{encode_properties, string_hash32, udev_monitor_message, MonitorNetlinkHeader, NetlinkError};

#[test]
fn input_subsystem_hash_is_libudevs() {
    assert_eq!(string_hash32("input"), 3248653424);
    assert_eq!(string_hash32(""), 0);
    assert_ne!(string_hash32("inpuT"), 3248653424);
}

#[test]
fn header_layout() {
    let h = MonitorNetlinkHeader::new(12, Some("input"), None);
    let b = h.to_bytes();
    assert_eq!(b.len(), 40);
    assert_eq!(&b[0..8], b"libudev\0");
    assert_eq!(&b[8..12], &0xfeedcafeu32.to_be_bytes());
    assert_eq!(&b[12..16], &40u32.to_le_bytes());
    assert_eq!(&b[16..20], &40u32.to_le_bytes());
    assert_eq!(&b[20..24], &12u32.to_le_bytes());
    assert_eq!(&b[24..28], &3248653424u32.to_be_bytes());
    assert_eq!(&b[28..40], &[0u8; 12]);
}

#[test]
fn payload_is_nul_separated() {
    let props = vec![("ACTION".to_string(), "add".to_string()), ("MAJOR".to_string(), "13".to_string())];
    assert_eq!(encode_properties(&props), b"ACTION=add\0MAJOR=13\0".to_vec());
    let m = udev_monitor_message(&props).unwrap();
    assert_eq!(m.len(), 40 + 20);
    assert_eq!(&m[20..24], &20u32.to_le_bytes());
    assert_eq!(&m[40..], b"ACTION=add\0MAJOR=13\0");
}

#[test]
fn oversized_message_is_refused() {
    let props = vec![("K".to_string(), "v".repeat(65536 - 40 - 3))];
    assert!(udev_monitor_message(&props).is_ok());
    let props = vec![("K".to_string(), "v".repeat(65536 - 40 - 2))];
    assert_eq!(udev_monitor_message(&props), Err(NetlinkError::TooLarge));
}
