//! Process-wide configuration: the device policy, where artifacts are placed,
//! the device name, and the validation of the command line.

use vstd::prelude::*;
use vstd::utf8::encode_utf8;

verus! {

/// The device policy decides which events reach the host device.
#[derive(Clone, Copy, Debug, PartialEq, Eq, Structural)]
pub enum DevicePolicy {
    /// Allow every event.
    Unfiltered,
    /// Drop the SysRq key.
    MuteSysRq,
    /// Allow keyboards and mice but drop dangerous keys and chords.
    Sanitized,
    /// Allow only gamepad-like events.
    StrictGamepad,
}

/// Where the runtime artifacts (device nodes and udev data) are created.
#[derive(Clone, Copy, Debug, PartialEq, Eq, Structural)]
pub enum Placement {
    /// Inside the container.
    InContainer,
    /// On the host, for the user to bind-mount.
    OnHost,
    /// Nowhere (the netlink message in the container is unaffected).
    Nowhere,
}

impl DevicePolicy {
    /// The policy used when none is given.
    pub fn default_policy() -> (r: DevicePolicy)
        ensures
            r == DevicePolicy::MuteSysRq,
    {
        DevicePolicy::MuteSysRq
    }
}

impl Placement {
    /// The placement used when none is given.
    pub fn default_placement() -> (r: Placement)
        ensures
            r == Placement::InContainer,
    {
        Placement::InContainer
    }
}

/// Devices names must be shorter than this many bytes.
pub const MAX_DEVNAME_LEN: usize = 124;

/// The exit code of a failed argument validation.
pub const CONFIG_ERROR_EXIT_CODE: i32 = 2;

/// The configuration of one daemon process.
#[derive(Debug)]
pub struct GlobalConfig {
    pub policy: DevicePolicy,
    pub placement: Placement,
    pub devname: String,
}

pub fn get_device_policy(config: &GlobalConfig) -> (r: DevicePolicy)
    ensures
        r == config.policy,
{
    config.policy
}

pub fn get_placement(config: &GlobalConfig) -> (r: Placement)
    ensures
        r == config.placement,
{
    config.placement
}

pub fn get_devname(config: &GlobalConfig) -> (r: &String)
    ensures
        r@ == config.devname@,
{
    &config.devname
}

/// The name of the synthetic device when none is given.
pub open spec fn default_devname() -> Seq<char> {
    "vuinput"@
}

/// Builds the configuration; a missing device name becomes `vuinput`. The
/// device name must be shorter than 124 bytes (`select_mode` refuses longer
/// ones with exit code 2 before anything else happens).
pub fn initialize_global_config(
    device_policy: DevicePolicy,
    placement: Placement,
    devname: Option<String>,
) -> (r: GlobalConfig)
    requires
        devname_ok(devname),
    ensures
        r.policy == device_policy,
        r.placement == placement,
        r.devname@ == (match devname {
            Some(d) => d@,
            None => default_devname(),
        }),
{
    let name = match devname {
        Some(d) => d,
        None => String::from_str("vuinput"),
    };
    GlobalConfig { policy: device_policy, placement, devname: name }
}

/// Why the command line was refused.
#[derive(Clone, Copy, Debug, PartialEq, Eq, Structural)]
pub enum ConfigError {
    /// `--major` and `--minor` must be given together.
    MajorMinorNotPaired,
    /// The device name has 124 bytes or more.
    DevnameTooLong,
    /// `--target-namespace` was given without an action.
    TargetNamespaceWithoutAction,
    /// Both `--action` and `--action-base64` were given.
    TwoActions,
}

impl ConfigError {
    /// The process exit code for this error.
    pub fn exit_code(&self) -> (r: i32)
        ensures
            r == CONFIG_ERROR_EXIT_CODE,
    {
        CONFIG_ERROR_EXIT_CODE
    }

    /// A message for the user.
    pub fn message(&self) -> (r: &'static str) {
        match self {
            ConfigError::MajorMinorNotPaired => "--major and --minor must be given together",
            ConfigError::DevnameTooLong => "--devname must be shorter than 124 bytes",
            ConfigError::TargetNamespaceWithoutAction => {
                "--target-namespace is only allowed together with --action or --action-base64"
            },
            ConfigError::TwoActions => "--action and --action-base64 exclude each other",
        }
    }
}

/// The command line of the daemon binary, as parsed.
#[derive(Debug)]
pub struct CliArgs {
    pub major: Option<u32>,
    pub minor: Option<u32>,
    pub devname: Option<String>,
    pub action: Option<String>,
    pub action_base64: Option<String>,
    pub target_namespace: Option<String>,
    pub vt_guard: bool,
    pub device_policy: DevicePolicy,
    pub placement: Placement,
}

/// An action to run, given as JSON or as base64-wrapped JSON.
#[derive(Debug)]
pub enum ActionText {
    Json(String),
    Base64(String),
}

/// What the binary does, decided from its command line.
#[derive(Debug)]
pub enum RunMode {
    /// Run one action, optionally inside the namespaces under `target_namespace`.
    Action { action: ActionText, target_namespace: Option<String> },
    /// Switch the keyboard of the first virtual terminal off.
    VtGuard,
    /// Serve the synthetic device.
    Daemon { config: GlobalConfig, major: Option<u32>, minor: Option<u32> },
}

pub open spec fn devname_ok(devname: Option<String>) -> bool {
    match devname {
        Some(d) => encode_utf8(d@).len() < MAX_DEVNAME_LEN,
        None => true,
    }
}

/// The error that a command line gets, if any, in order of precedence.
pub open spec fn cli_error(a: CliArgs) -> Option<ConfigError> {
    if a.major.is_some() != a.minor.is_some() {
        Some(ConfigError::MajorMinorNotPaired)
    } else if !devname_ok(a.devname) {
        Some(ConfigError::DevnameTooLong)
    } else if a.action.is_some() && a.action_base64.is_some() {
        Some(ConfigError::TwoActions)
    } else if a.target_namespace.is_some() && a.action.is_none() && a.action_base64.is_none() {
        Some(ConfigError::TargetNamespaceWithoutAction)
    } else {
        None
    }
}

/// Validates the command line and selects the mode: an action if one is
/// given, else the VT guard if asked for, else the daemon.
pub fn select_mode(args: CliArgs) -> (r: Result<RunMode, ConfigError>)
    ensures
        cli_error(args) is Some <==> r is Err,
        r matches Err(e) ==> cli_error(args) == Some(e),
        r is Ok && (args.action is Some || args.action_base64 is Some) ==> r->Ok_0 is Action,
        r matches Ok(RunMode::Action { action: ActionText::Json(j), target_namespace: t }) ==> args.action
            == Some(j) && t == args.target_namespace,
        r matches Ok(RunMode::Action { action: ActionText::Base64(b), target_namespace: t })
            ==> args.action is None && args.action_base64 == Some(b) && t == args.target_namespace,
        r is Ok && args.action is None && args.action_base64 is None && args.vt_guard
            ==> r->Ok_0 is VtGuard,
        r is Ok && args.action is None && args.action_base64 is None && !args.vt_guard
            ==> r->Ok_0 is Daemon,
        r matches Ok(RunMode::Daemon { config, major, minor }) ==> {
            &&& config.policy == args.device_policy
            &&& config.placement == args.placement
            &&& major == args.major
            &&& minor == args.minor
            &&& args.action is None && args.action_base64 is None && !args.vt_guard
            &&& config.devname@ == match args.devname {
                Some(d) => d@,
                None => default_devname(),
            }
        },
{
    if args.major.is_some() != args.minor.is_some() {
        return Err(ConfigError::MajorMinorNotPaired);
    }
    let devname_too_long = match &args.devname {
        Some(d) => d.as_str().as_bytes().len() >= MAX_DEVNAME_LEN,
        None => false,
    };
    if devname_too_long {
        return Err(ConfigError::DevnameTooLong);
    }
    if args.action.is_some() && args.action_base64.is_some() {
        return Err(ConfigError::TwoActions);
    }
    if args.target_namespace.is_some() && args.action.is_none() && args.action_base64.is_none() {
        return Err(ConfigError::TargetNamespaceWithoutAction);
    }
    let CliArgs {
        major,
        minor,
        devname,
        action,
        action_base64,
        target_namespace,
        vt_guard,
        device_policy,
        placement,
    } = args;
    match action {
        Some(json) => {
            return Ok(RunMode::Action { action: ActionText::Json(json), target_namespace });
        },
        None => {},
    }
    match action_base64 {
        Some(b64) => {
            return Ok(RunMode::Action { action: ActionText::Base64(b64), target_namespace });
        },
        None => {},
    }
    if vt_guard {
        return Ok(RunMode::VtGuard);
    }
    let config = initialize_global_config(device_policy, placement, devname);
    Ok(RunMode::Daemon { config, major, minor })
}

} // verus!
