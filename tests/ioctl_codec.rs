use vuinputd::ioctl::{
    classify_ioctl, ioctl_size, normalize_command, rewrite_setup_identity, CapabilityBit, IoctlStep,
    UinputCommand, UinputSetup, UI_ABS_SETUP, UI_BEGIN_FF_UPLOAD, UI_DEV_CREATE, UI_DEV_SETUP,
    UI_GET_SYSNAME_WITHOUT_SIZE, UI_GET_VERSION, UI_SET_KEYBIT, UI_SET_PHYS,
};

fn sysname(len: u32) -> u32 {
    UI_GET_SYSNAME_WITHOUT_SIZE | (len << 16)
}

#[test]
fn command_numbers_match_the_kernel() {
    assert_eq!(UI_DEV_SETUP, 0x405c5503);
    assert_eq!(UI_ABS_SETUP, 0x401c5504);
    assert_eq!(UI_GET_VERSION, 0x8004552d);
    assert_eq!(UI_SET_KEYBIT, 0x40045565);
    assert_eq!(UI_SET_PHYS, 0x4008556c);
    assert_eq!(UI_BEGIN_FF_UPLOAD, 0xc06855c8);
    assert_eq!(sysname(64), 0x8040552c);
}

#[test]
fn buffer_commands_are_retried_once() {
    assert_eq!(classify_ioctl(UI_DEV_SETUP, 0, 0), IoctlStep::NeedIn(92));
    assert_eq!(classify_ioctl(UI_DEV_SETUP, 92, 0), IoctlStep::Ready(UinputCommand::DevSetup));
    assert_eq!(classify_ioctl(UI_GET_VERSION, 0, 0), IoctlStep::NeedOut(4));
    assert_eq!(classify_ioctl(UI_GET_VERSION, 0, 4), IoctlStep::Ready(UinputCommand::GetVersion));
    assert_eq!(classify_ioctl(UI_BEGIN_FF_UPLOAD, 0, 0), IoctlStep::NeedInOut(104, 104));
    assert_eq!(classify_ioctl(UI_BEGIN_FF_UPLOAD, 104, 104), IoctlStep::Ready(UinputCommand::BeginFfUpload));
    assert_eq!(classify_ioctl(UI_SET_PHYS, 0, 0), IoctlStep::NeedIn(1024));
}

#[test]
fn plain_commands_need_no_buffer() {
    assert_eq!(classify_ioctl(UI_DEV_CREATE, 0, 0), IoctlStep::Ready(UinputCommand::DevCreate));
    assert_eq!(
        classify_ioctl(UI_SET_KEYBIT, 0, 0),
        IoctlStep::Ready(UinputCommand::SetBit(CapabilityBit::Key))
    );
}

#[test]
fn sysname_size_is_masked_and_must_be_64() {
    assert_eq!(normalize_command(sysname(80)), Some(UinputCommand::GetSysname));
    assert_eq!(ioctl_size(sysname(80)), 80);
    assert_eq!(classify_ioctl(sysname(80), 0, 0), IoctlStep::NeedOut(64));
    assert_eq!(classify_ioctl(sysname(64), 0, 64), IoctlStep::Ready(UinputCommand::GetSysname));
    assert_eq!(classify_ioctl(sysname(80), 0, 80), IoctlStep::UnsupportedOutSize(80));
}

#[test]
fn unknown_command_is_refused() {
    assert_eq!(classify_ioctl(0x1234, 0, 0), IoctlStep::Unknown);
    assert_eq!(normalize_command(0x1234), None);
}

#[test]
fn setup_gets_the_daemon_identity() {
    let mut s = UinputSetup { bustype: 0x11, vendor: 0xdead, product: 0xbeef, version: 2, name: vec![b'k'; 80], ff_effects_max: 1 };
    rewrite_setup_identity(&mut s);
    assert_eq!((s.bustype, s.vendor, s.product, s.version, s.ff_effects_max), (0x03, 0x1209, 0x5020, 2, 1));
    assert_eq!(s.name, vec![b'k'; 80]);
}
