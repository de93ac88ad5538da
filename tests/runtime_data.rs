use vuinputd::udev_data::{sanitize_udev_data, udev_data_path};

#[test]
fn test_replacement_and_filter() {
    let input = r#"I:16429403327735
E:ID_VUINPUT_KEYBOARD=1
E:ID_INPUT=1
E:ID_INPUT_KEY=1
E:ID_SERIAL=noserial
E:ID_SEAT=seat_vuinput
G:seat_vuinput
G:power-switch
Q:seat_vuinput
Q:power-switch
V:1"#;

    let expected = r#"I:16429403327735
E:ID_INPUT_KEYBOARD=1
E:ID_INPUT=1
E:ID_INPUT_KEY=1
E:ID_SERIAL=noserial
G:power-switch
Q:power-switch
V:1
"#;

    let cleaned = sanitize_udev_data(input);
    assert_eq!(cleaned, expected);
}

#[test]
fn sanitizer_renames_mouse_and_drops_seat_lines() {
    let input = "E:ID_VUINPUT_MOUSE=1\r\nE:ID_SEAT=seat0\nX:keep\n";
    assert_eq!(sanitize_udev_data(input), "E:ID_INPUT_MOUSE=1\nX:keep\n");
}

#[test]
fn sanitizer_is_idempotent_on_its_output() {
    let input = "I:1\nE:ID_VUINPUT_KEYBOARD=1\nG:seat_x\nE:ID_VUINPUT_MOUSE=1\nV:1";
    let once = sanitize_udev_data(input);
    let twice = sanitize_udev_data(&once);
    assert_eq!(once, twice);
}

#[test]
fn sanitizer_of_empty_text_is_empty() {
    assert_eq!(sanitize_udev_data(""), "");
}

#[test]
fn udev_data_path_formats_major_and_minor() {
    assert_eq!(udev_data_path("/run", 13, 73), "/run/udev/data/c13:73");
    assert_eq!(udev_data_path("/run/vuinputd/vuinput", 0, 0), "/run/vuinputd/vuinput/udev/data/c0:0");
}
