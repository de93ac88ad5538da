//! The uinput ioctl codec: which command an ioctl number stands for, which
//! user buffers the bridge must map before the command can run, and the
//! rewriting of device setups.

use vstd::prelude::*;
use crate::bytes::{le_value, lemma_le_value_bound, lemma_pow256_8, read_le};

verus! {

// Linux ioctl numbers: direction in bits 30..32, argument size in bits
// 16..30, type `U` in bits 8..16, number in bits 0..8.
pub const UI_DEV_CREATE: u32 = 0x5501;
pub const UI_DEV_DESTROY: u32 = 0x5502;
pub const UI_DEV_SETUP: u32 = 0x405c_5503;
pub const UI_ABS_SETUP: u32 = 0x401c_5504;
/// `UI_GET_SYSNAME(len)` with its size field cleared.
pub const UI_GET_SYSNAME_WITHOUT_SIZE: u32 = 0x8000_552c;
pub const UI_GET_VERSION: u32 = 0x8004_552d;
pub const UI_SET_EVBIT: u32 = 0x4004_5564;
pub const UI_SET_KEYBIT: u32 = 0x4004_5565;
pub const UI_SET_RELBIT: u32 = 0x4004_5566;
pub const UI_SET_ABSBIT: u32 = 0x4004_5567;
pub const UI_SET_MSCBIT: u32 = 0x4004_5568;
pub const UI_SET_LEDBIT: u32 = 0x4004_5569;
pub const UI_SET_SNDBIT: u32 = 0x4004_556a;
pub const UI_SET_FFBIT: u32 = 0x4004_556b;
pub const UI_SET_PHYS: u32 = 0x4008_556c;
pub const UI_SET_SWBIT: u32 = 0x4004_556d;
pub const UI_SET_PROPBIT: u32 = 0x4004_556e;
pub const UI_BEGIN_FF_UPLOAD: u32 = 0xc068_55c8;
pub const UI_END_FF_UPLOAD: u32 = 0x4068_55c9;
pub const UI_BEGIN_FF_ERASE: u32 = 0xc00c_55ca;
pub const UI_END_FF_ERASE: u32 = 0x400c_55cb;

/// Bits 16..30 of an ioctl number hold the size of its argument.
pub const IOC_SIZE_SHIFT: u32 = 16;
pub const IOC_SIZE_MASK: u32 = 0x3fff;

/// Size of `struct uinput_setup`.
pub const UINPUT_SETUP_SIZE: usize = 92;
/// Size of `struct uinput_abs_setup`.
pub const UINPUT_ABS_SETUP_SIZE: usize = 28;
/// Size of `struct uinput_ff_upload`.
pub const UINPUT_FF_UPLOAD_SIZE: usize = 104;
/// Size of `struct uinput_ff_erase`.
pub const UINPUT_FF_ERASE_SIZE: usize = 12;
/// Size of the reply of UI_GET_VERSION.
pub const VERSION_SIZE: usize = 4;
/// Size of the buffer mapped for UI_SET_PHYS.
pub const PHYS_BUFFER_SIZE: usize = 1024;
/// The only out-buffer size served for UI_GET_SYSNAME.
pub const SYSNAME_BUFFER_SIZE: usize = 64;

/// The version reported by UI_GET_VERSION.
pub const UINPUT_VERSION: u32 = 5;

/// Bus type, vendor and product that every created device gets.
pub const BUS_USB: u16 = 0x03;
pub const VUINPUT_VENDOR: u16 = 0x1209;
pub const VUINPUT_PRODUCT: u16 = 0x5020;

/// Which capability bit a UI_SET_*BIT command sets.
#[derive(Clone, Copy, Debug, PartialEq, Eq, Structural)]
pub enum CapabilityBit {
    Ev,
    Key,
    Rel,
    Abs,
    Msc,
    Led,
    Snd,
    Ff,
    Sw,
    Prop,
}

/// A uinput command, with the size field of UI_GET_SYSNAME taken out.
#[derive(Clone, Copy, Debug, PartialEq, Eq, Structural)]
pub enum UinputCommand {
    DevCreate,
    DevDestroy,
    DevSetup,
    AbsSetup,
    GetSysname,
    GetVersion,
    SetBit(CapabilityBit),
    SetPhys,
    BeginFfUpload,
    EndFfUpload,
    BeginFfErase,
    EndFfErase,
}

/// What the server does with one ioctl call.
#[derive(Clone, Copy, Debug, PartialEq, Eq, Structural)]
pub enum IoctlStep {
    /// Ask the bridge to retry with this many input bytes mapped.
    NeedIn(usize),
    /// Ask the bridge to retry with this many output bytes mapped.
    NeedOut(usize),
    /// Ask the bridge to retry with both buffers mapped.
    NeedInOut(usize, usize),
    /// Everything is mapped: run the command.
    Ready(UinputCommand),
    /// UI_GET_SYSNAME with an output buffer of another size than 64 bytes.
    UnsupportedOutSize(usize),
    /// Not a uinput command: reply EBADRQC.
    Unknown,
}

/// The command that an ioctl number stands for.
pub open spec fn command_of(cmd: u32) -> Option<UinputCommand> {
    if cmd == UI_DEV_CREATE {
        Some(UinputCommand::DevCreate)
    } else if cmd == UI_DEV_DESTROY {
        Some(UinputCommand::DevDestroy)
    } else if cmd == UI_DEV_SETUP {
        Some(UinputCommand::DevSetup)
    } else if cmd == UI_ABS_SETUP {
        Some(UinputCommand::AbsSetup)
    } else if cmd == UI_GET_VERSION {
        Some(UinputCommand::GetVersion)
    } else if cmd == UI_SET_EVBIT {
        Some(UinputCommand::SetBit(CapabilityBit::Ev))
    } else if cmd == UI_SET_KEYBIT {
        Some(UinputCommand::SetBit(CapabilityBit::Key))
    } else if cmd == UI_SET_RELBIT {
        Some(UinputCommand::SetBit(CapabilityBit::Rel))
    } else if cmd == UI_SET_ABSBIT {
        Some(UinputCommand::SetBit(CapabilityBit::Abs))
    } else if cmd == UI_SET_MSCBIT {
        Some(UinputCommand::SetBit(CapabilityBit::Msc))
    } else if cmd == UI_SET_LEDBIT {
        Some(UinputCommand::SetBit(CapabilityBit::Led))
    } else if cmd == UI_SET_SNDBIT {
        Some(UinputCommand::SetBit(CapabilityBit::Snd))
    } else if cmd == UI_SET_FFBIT {
        Some(UinputCommand::SetBit(CapabilityBit::Ff))
    } else if cmd == UI_SET_PHYS {
        Some(UinputCommand::SetPhys)
    } else if cmd == UI_SET_SWBIT {
        Some(UinputCommand::SetBit(CapabilityBit::Sw))
    } else if cmd == UI_SET_PROPBIT {
        Some(UinputCommand::SetBit(CapabilityBit::Prop))
    } else if cmd == UI_BEGIN_FF_UPLOAD {
        Some(UinputCommand::BeginFfUpload)
    } else if cmd == UI_END_FF_UPLOAD {
        Some(UinputCommand::EndFfUpload)
    } else if cmd == UI_BEGIN_FF_ERASE {
        Some(UinputCommand::BeginFfErase)
    } else if cmd == UI_END_FF_ERASE {
        Some(UinputCommand::EndFfErase)
    } else if cmd & !(IOC_SIZE_MASK << IOC_SIZE_SHIFT) == UI_GET_SYSNAME_WITHOUT_SIZE {
        Some(UinputCommand::GetSysname)
    } else {
        None
    }
}

/// The buffers (input bytes, output bytes) a command needs mapped.
pub open spec fn buffers_of(c: UinputCommand) -> (usize, usize) {
    match c {
        UinputCommand::DevSetup => (UINPUT_SETUP_SIZE, 0),
        UinputCommand::AbsSetup => (UINPUT_ABS_SETUP_SIZE, 0),
        UinputCommand::GetSysname => (0, SYSNAME_BUFFER_SIZE),
        UinputCommand::GetVersion => (0, VERSION_SIZE),
        UinputCommand::SetPhys => (PHYS_BUFFER_SIZE, 0),
        UinputCommand::BeginFfUpload => (UINPUT_FF_UPLOAD_SIZE, UINPUT_FF_UPLOAD_SIZE),
        UinputCommand::EndFfUpload => (UINPUT_FF_UPLOAD_SIZE, 0),
        UinputCommand::BeginFfErase => (UINPUT_FF_ERASE_SIZE, UINPUT_FF_ERASE_SIZE),
        UinputCommand::EndFfErase => (UINPUT_FF_ERASE_SIZE, 0),
        _ => (0, 0),
    }
}

/// The step for a command, given the sizes of the buffers mapped so far. A
/// command that reads input is retried while no input is mapped; one that
/// only writes output, while no output is mapped.
pub open spec fn step_of(c: UinputCommand, in_bufsz: usize, out_bufsz: usize) -> IoctlStep {
    let (need_in, need_out) = buffers_of(c);
    if need_in > 0 && in_bufsz == 0 {
        if need_out > 0 {
            IoctlStep::NeedInOut(need_in, need_out)
        } else {
            IoctlStep::NeedIn(need_in)
        }
    } else if need_in == 0 && need_out > 0 && out_bufsz == 0 {
        IoctlStep::NeedOut(need_out)
    } else if c == UinputCommand::GetSysname && out_bufsz != SYSNAME_BUFFER_SIZE {
        IoctlStep::UnsupportedOutSize(out_bufsz)
    } else {
        IoctlStep::Ready(c)
    }
}

pub open spec fn classify_spec(cmd: u32, in_bufsz: usize, out_bufsz: usize) -> IoctlStep {
    match command_of(cmd) {
        Some(c) => step_of(c, in_bufsz, out_bufsz),
        None => IoctlStep::Unknown,
    }
}

/// The command that an ioctl number stands for, if any.
pub fn normalize_command(cmd: u32) -> (r: Option<UinputCommand>)
    ensures
        r == command_of(cmd),
{
    let without_size = cmd & !(IOC_SIZE_MASK << IOC_SIZE_SHIFT);
    if cmd == UI_DEV_CREATE {
        Some(UinputCommand::DevCreate)
    } else if cmd == UI_DEV_DESTROY {
        Some(UinputCommand::DevDestroy)
    } else if cmd == UI_DEV_SETUP {
        Some(UinputCommand::DevSetup)
    } else if cmd == UI_ABS_SETUP {
        Some(UinputCommand::AbsSetup)
    } else if cmd == UI_GET_VERSION {
        Some(UinputCommand::GetVersion)
    } else if cmd == UI_SET_EVBIT {
        Some(UinputCommand::SetBit(CapabilityBit::Ev))
    } else if cmd == UI_SET_KEYBIT {
        Some(UinputCommand::SetBit(CapabilityBit::Key))
    } else if cmd == UI_SET_RELBIT {
        Some(UinputCommand::SetBit(CapabilityBit::Rel))
    } else if cmd == UI_SET_ABSBIT {
        Some(UinputCommand::SetBit(CapabilityBit::Abs))
    } else if cmd == UI_SET_MSCBIT {
        Some(UinputCommand::SetBit(CapabilityBit::Msc))
    } else if cmd == UI_SET_LEDBIT {
        Some(UinputCommand::SetBit(CapabilityBit::Led))
    } else if cmd == UI_SET_SNDBIT {
        Some(UinputCommand::SetBit(CapabilityBit::Snd))
    } else if cmd == UI_SET_FFBIT {
        Some(UinputCommand::SetBit(CapabilityBit::Ff))
    } else if cmd == UI_SET_PHYS {
        Some(UinputCommand::SetPhys)
    } else if cmd == UI_SET_SWBIT {
        Some(UinputCommand::SetBit(CapabilityBit::Sw))
    } else if cmd == UI_SET_PROPBIT {
        Some(UinputCommand::SetBit(CapabilityBit::Prop))
    } else if cmd == UI_BEGIN_FF_UPLOAD {
        Some(UinputCommand::BeginFfUpload)
    } else if cmd == UI_END_FF_UPLOAD {
        Some(UinputCommand::EndFfUpload)
    } else if cmd == UI_BEGIN_FF_ERASE {
        Some(UinputCommand::BeginFfErase)
    } else if cmd == UI_END_FF_ERASE {
        Some(UinputCommand::EndFfErase)
    } else if without_size == UI_GET_SYSNAME_WITHOUT_SIZE {
        Some(UinputCommand::GetSysname)
    } else {
        None
    }
}

/// The size field of an ioctl number.
pub fn ioctl_size(cmd: u32) -> (r: u32)
    ensures
        r == (cmd >> IOC_SIZE_SHIFT) & IOC_SIZE_MASK,
{
    (cmd >> IOC_SIZE_SHIFT) & IOC_SIZE_MASK
}

fn buffers(c: UinputCommand) -> (r: (usize, usize))
    ensures
        r == buffers_of(c),
{
    match c {
        UinputCommand::DevSetup => (UINPUT_SETUP_SIZE, 0),
        UinputCommand::AbsSetup => (UINPUT_ABS_SETUP_SIZE, 0),
        UinputCommand::GetSysname => (0, SYSNAME_BUFFER_SIZE),
        UinputCommand::GetVersion => (0, VERSION_SIZE),
        UinputCommand::SetPhys => (PHYS_BUFFER_SIZE, 0),
        UinputCommand::BeginFfUpload => (UINPUT_FF_UPLOAD_SIZE, UINPUT_FF_UPLOAD_SIZE),
        UinputCommand::EndFfUpload => (UINPUT_FF_UPLOAD_SIZE, 0),
        UinputCommand::BeginFfErase => (UINPUT_FF_ERASE_SIZE, UINPUT_FF_ERASE_SIZE),
        UinputCommand::EndFfErase => (UINPUT_FF_ERASE_SIZE, 0),
        _ => (0, 0),
    }
}

/// Classifies one ioctl call from the bridge: retry with buffers mapped, run
/// a command, or refuse it.
pub fn classify_ioctl(cmd: u32, in_bufsz: usize, out_bufsz: usize) -> (r: IoctlStep)
    ensures
        r == classify_spec(cmd, in_bufsz, out_bufsz),
{
    match normalize_command(cmd) {
        None => IoctlStep::Unknown,
        Some(c) => {
            let (need_in, need_out) = buffers(c);
            if need_in > 0 && in_bufsz == 0 {
                if need_out > 0 {
                    IoctlStep::NeedInOut(need_in, need_out)
                } else {
                    IoctlStep::NeedIn(need_in)
                }
            } else if need_in == 0 && need_out > 0 && out_bufsz == 0 {
                IoctlStep::NeedOut(need_out)
            } else if c == UinputCommand::GetSysname && out_bufsz != SYSNAME_BUFFER_SIZE {
                IoctlStep::UnsupportedOutSize(out_bufsz)
            } else {
                IoctlStep::Ready(c)
            }
        },
    }
}

/// A command that needs a mapped buffer is retried exactly once: the first
/// call, with nothing mapped, asks for a retry, and the retried call, with
/// the buffers asked for, is ready to run.
pub proof fn lemma_one_retry(cmd: u32)
    requires
        command_of(cmd) is Some,
        buffers_of(command_of(cmd)->Some_0) != (0usize, 0usize),
    ensures
        match classify_spec(cmd, 0, 0) {
            IoctlStep::NeedIn(n) => classify_spec(cmd, n, 0) == IoctlStep::Ready(
                command_of(cmd)->Some_0,
            ),
            IoctlStep::NeedOut(n) => classify_spec(cmd, 0, n) == IoctlStep::Ready(
                command_of(cmd)->Some_0,
            ),
            IoctlStep::NeedInOut(i, o) => classify_spec(cmd, i, o) == IoctlStep::Ready(
                command_of(cmd)->Some_0,
            ),
            _ => false,
        },
{
}

/// The device identity and name of a `struct uinput_setup`.
#[derive(Clone, Debug)]
pub struct UinputSetup {
    pub bustype: u16,
    pub vendor: u16,
    pub product: u16,
    pub version: u16,
    /// The 80 bytes of the NUL-padded name.
    pub name: Vec<u8>,
    pub ff_effects_max: u32,
}

/// One `struct uinput_abs_setup`.
#[derive(Clone, Copy, Debug, PartialEq, Eq, Structural)]
pub struct AbsSetup {
    pub code: u16,
    pub minimum: i32,
    pub maximum: i32,
    pub fuzz: i32,
    pub flat: i32,
}

/// Gives a setup the bus type, vendor and product of this daemon; the
/// version, name and effect count are kept.
pub fn rewrite_setup_identity(setup: &mut UinputSetup)
    ensures
        final(setup).bustype == BUS_USB,
        final(setup).vendor == VUINPUT_VENDOR,
        final(setup).product == VUINPUT_PRODUCT,
        final(setup).version == old(setup).version,
        final(setup).name@ == old(setup).name@,
        final(setup).ff_effects_max == old(setup).ff_effects_max,
{
    setup.bustype = BUS_USB;
    setup.vendor = VUINPUT_VENDOR;
    setup.product = VUINPUT_PRODUCT;
}

/// Length of the name field of the legacy and modern setup structures.
pub const UINPUT_MAX_NAME_SIZE: usize = 80;
/// Number of absolute axes.
pub const ABS_CNT: usize = 64;
/// Size of the legacy `struct uinput_user_dev`.
pub const LEGACY_USER_DEV_SIZE: usize = 1116;

pub const LEGACY_ID_VERSION_OFFSET: usize = 86;
pub const LEGACY_FF_EFFECTS_MAX_OFFSET: usize = 88;
pub const LEGACY_ABSMAX_OFFSET: usize = 92;
pub const LEGACY_ABSMIN_OFFSET: usize = 348;
pub const LEGACY_ABSFUZZ_OFFSET: usize = 604;
pub const LEGACY_ABSFLAT_OFFSET: usize = 860;

/// The little-endian value of `n` bytes at `off`.
pub open spec fn le_at(b: Seq<u8>, off: int, n: int) -> nat {
    le_value(b.subrange(off, off + n))
}

/// The i32 at `off`.
pub open spec fn i32_at(b: Seq<u8>, off: int) -> i32 {
    le_at(b, off, 4) as u32 as i32
}

/// The axis setup of axis `code` of a legacy device.
pub open spec fn legacy_abs(b: Seq<u8>, code: int) -> AbsSetup {
    AbsSetup {
        code: code as u16,
        minimum: i32_at(b, LEGACY_ABSMIN_OFFSET + 4 * code),
        maximum: i32_at(b, LEGACY_ABSMAX_OFFSET + 4 * code),
        fuzz: i32_at(b, LEGACY_ABSFUZZ_OFFSET + 4 * code),
        flat: i32_at(b, LEGACY_ABSFLAT_OFFSET + 4 * code),
    }
}

/// The axis setups of the axes below `n` whose minimum or maximum is nonzero.
pub open spec fn legacy_abs_setups(b: Seq<u8>, n: int) -> Seq<AbsSetup>
    decreases n,
{
    if n <= 0 {
        Seq::empty()
    } else {
        let prev = legacy_abs_setups(b, n - 1);
        let a = legacy_abs(b, n - 1);
        if a.minimum != 0 || a.maximum != 0 {
            prev.push(a)
        } else {
            prev
        }
    }
}

/// The modern setup and axis setups that a legacy device write stands for.
#[derive(Clone, Debug)]
pub struct LegacySetup {
    pub setup: UinputSetup,
    pub abs_setups: Vec<AbsSetup>,
}

fn read_i32(b: &[u8], off: usize) -> (r: i32)
    requires
        off + 4 <= b.len(),
    ensures
        r == i32_at(b@, off as int),
{
    proof {
        lemma_le_value_bound(b@.subrange(off as int, off + 4));
        lemma_pow256_8();
    }
    read_le(b, off, 4) as u32 as i32
}

/// Reads a legacy `struct uinput_user_dev` and synthesizes the modern setup:
/// this daemon's bus type, vendor and product, the legacy version, name and
/// effect count, and one axis setup for each axis with a nonzero minimum or
/// maximum, in axis order.
pub fn legacy_setup(buf: &[u8]) -> (r: LegacySetup)
    requires
        buf.len() == LEGACY_USER_DEV_SIZE,
    ensures
        r.setup.bustype == BUS_USB,
        r.setup.vendor == VUINPUT_VENDOR,
        r.setup.product == VUINPUT_PRODUCT,
        r.setup.version as nat == le_at(buf@, LEGACY_ID_VERSION_OFFSET as int, 2),
        r.setup.name@ == buf@.subrange(0, UINPUT_MAX_NAME_SIZE as int),
        r.setup.ff_effects_max as nat == le_at(buf@, LEGACY_FF_EFFECTS_MAX_OFFSET as int, 4),
        r.abs_setups@ == legacy_abs_setups(buf@, ABS_CNT as int),
{
    let mut name: Vec<u8> = Vec::new();
    let mut i: usize = 0;
    while i < UINPUT_MAX_NAME_SIZE
        invariant
            i <= UINPUT_MAX_NAME_SIZE,
            buf.len() == LEGACY_USER_DEV_SIZE,
            name@ == buf@.subrange(0, i as int),
        decreases UINPUT_MAX_NAME_SIZE - i,
    {
        name.push(buf[i]);
        i = i + 1;
        assert(name@ =~= buf@.subrange(0, i as int));
    }
    proof {
        lemma_le_value_bound(buf@.subrange(86, 88));
        lemma_le_value_bound(buf@.subrange(88, 92));
        lemma_pow256_8();
    }
    let version = read_le(buf, LEGACY_ID_VERSION_OFFSET, 2) as u16;
    let ff_effects_max = read_le(buf, LEGACY_FF_EFFECTS_MAX_OFFSET, 4) as u32;
    let mut abs_setups: Vec<AbsSetup> = Vec::new();
    let mut code: usize = 0;
    while code < ABS_CNT
        invariant
            code <= ABS_CNT,
            buf.len() == LEGACY_USER_DEV_SIZE,
            abs_setups@ == legacy_abs_setups(buf@, code as int),
        decreases ABS_CNT - code,
    {
        let a = AbsSetup {
            code: code as u16,
            minimum: read_i32(buf, LEGACY_ABSMIN_OFFSET + 4 * code),
            maximum: read_i32(buf, LEGACY_ABSMAX_OFFSET + 4 * code),
            fuzz: read_i32(buf, LEGACY_ABSFUZZ_OFFSET + 4 * code),
            flat: read_i32(buf, LEGACY_ABSFLAT_OFFSET + 4 * code),
        };
        if a.minimum != 0 || a.maximum != 0 {
            abs_setups.push(a);
        }
        code = code + 1;
    }
    LegacySetup {
        setup: UinputSetup {
            bustype: BUS_USB,
            vendor: VUINPUT_VENDOR,
            product: VUINPUT_PRODUCT,
            version,
            name,
            ff_effects_max,
        },
        abs_setups,
    }
}

} // verus!
