use vuinputd::input_event::{
    compat_uses_64bit_time_on, decode_compat_event, decode_event, encode_event, input_event_compat,
    map_to_64_bit, InputEvent,
};

fn compat_bytes(sec: u32, usec: u32, type_: u16, code: u16, value: i32) -> Vec<u8> {
    let mut b = Vec::new();
    b.extend_from_slice(&sec.to_le_bytes());
    b.extend_from_slice(&usec.to_le_bytes());
    b.extend_from_slice(&type_.to_le_bytes());
    b.extend_from_slice(&code.to_le_bytes());
    b.extend_from_slice(&value.to_le_bytes());
    b
}

fn native_bytes(sec: i64, usec: i64, type_: u16, code: u16, value: i32) -> Vec<u8> {
    let mut b = Vec::new();
    b.extend_from_slice(&sec.to_le_bytes());
    b.extend_from_slice(&usec.to_le_bytes());
    b.extend_from_slice(&type_.to_le_bytes());
    b.extend_from_slice(&code.to_le_bytes());
    b.extend_from_slice(&value.to_le_bytes());
    b
}

#[test]
fn compat_record_widens_to_native_layout() {
    let c = decode_compat_event(&compat_bytes(1234, 0, 1, 57, 1), 0);
    let e = map_to_64_bit(&c);
    assert_eq!(e, InputEvent { sec: 1234, usec: 0, type_: 1, code: 57, value: 1 });
    assert_eq!(encode_event(&e), native_bytes(1234, 0, 1, 57, 1));
}

#[test]
fn widening_then_narrowing_keeps_the_event() {
    let c = input_event_compat { input_event_sec: u32::MAX, input_event_usec: 999_999, type_: 3, code: 0, value: -5 };
    let e = map_to_64_bit(&c);
    assert_eq!(e.sec, u32::MAX as i64);
    let back = input_event_compat {
        input_event_sec: e.sec as u32,
        input_event_usec: e.usec as u32,
        type_: e.type_,
        code: e.code,
        value: e.value,
    };
    assert_eq!(back, c);
}

#[test]
fn native_record_round_trips() {
    let bytes = native_bytes(-7, 123456, 1, 30, -1);
    let e = decode_event(&bytes, 0);
    assert_eq!(e.sec, -7);
    assert_eq!(e.value, -1);
    assert_eq!(encode_event(&e), bytes);
}

#[test]
fn only_x86_64_and_ppc64_use_32bit_compat_time() {
    assert!(!compat_uses_64bit_time_on("x86_64"));
    assert!(!compat_uses_64bit_time_on("ppc64"));
    assert!(compat_uses_64bit_time_on("aarch64"));
}
