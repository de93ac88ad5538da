//! One open of the synthetic device: its state, and the server's decisions
//! on writes, device creation, destruction and release. The host uinput file
//! stays with the caller, which performs the host calls and the replies.

use vstd::prelude::*;
use crate::config::DevicePolicy;
use crate::device_policy::{is_allowed, policy_allows, tracker_step, KeyTracker};
use crate::input_event::{
    compat_event_of, decode_compat_event, decode_event, encode_event, event_bytes, map_to_64_bit,
    native_event_of, widened, COMPAT_EVENT_SIZE, NATIVE_EVENT_SIZE,
};
use crate::ioctl::{legacy_abs_setups, le_at, legacy_setup, LegacySetup, LEGACY_USER_DEV_SIZE};
use crate::jobs::{EmitUdevEventJob, JobTarget, MknodDeviceJob, RemoveDeviceJob, State};
use crate::namespace::{same_mnt_and_net, NamespaceInodes, RequestingProcess};
use crate::text::{chars_of, push_str, starts_with, occurs_at_exec, string_of};

verus! {

/// The identity of the host device created for a session.
#[derive(Debug)]
pub struct VuInputDevice {
    pub major: u64,
    pub minor: u64,
    pub syspath: String,
    /// `/dev/input/<devname>`.
    pub devnode: String,
    /// The node name, such as `event9`.
    pub devname: String,
}

/// The state of one session, besides its host file.
#[derive(Debug)]
pub struct VuInputState {
    pub requesting_process: RequestingProcess,
    pub input_device: Option<VuInputDevice>,
    pub keytracker: KeyTracker,
}

impl VuInputState {
    /// A fresh session for `requesting_process`.
    pub fn new(requesting_process: RequestingProcess) -> (r: VuInputState)
        ensures
            r.requesting_process == requesting_process,
            r.input_device is None,
            !r.keytracker.left_alt_down && !r.keytracker.right_alt_down,
            !r.keytracker.left_ctrl_down && !r.keytracker.right_ctrl_down,
    {
        VuInputState { requesting_process, input_device: None, keytracker: KeyTracker::new() }
    }
}

/// The handle the bridge uses for a session.
#[derive(Clone, Copy, Debug, PartialEq, Eq, Hash, Structural)]
pub enum VuFileHandle {
    Fh(u64),
}

impl VuFileHandle {
    /// The session handle of the bridge's file handle number.
    pub fn from_fuse_file_info(fh: u64) -> (r: VuFileHandle)
        ensures
            r == VuFileHandle::Fh(fh),
    {
        VuFileHandle::Fh(fh)
    }
}

/// The record size a session writes.
pub open spec fn record_size(is_compat: bool) -> nat {
    if is_compat {
        COMPAT_EVENT_SIZE as nat
    } else {
        NATIVE_EVENT_SIZE as nat
    }
}

/// The event of record `i` of a write.
pub open spec fn event_at(buf: Seq<u8>, is_compat: bool, i: int) -> crate::input_event::InputEvent {
    if is_compat {
        widened(compat_event_of(buf.subrange(i * 16, i * 16 + 16)))
    } else {
        native_event_of(buf.subrange(i * 24, i * 24 + 24))
    }
}

/// The events of the first `n` records of a write.
pub open spec fn events_of(buf: Seq<u8>, is_compat: bool, n: nat) -> Seq<crate::input_event::InputEvent> {
    Seq::new(n, |i: int| event_at(buf, is_compat, i))
}

/// The modifier state after a run of events.
pub open spec fn tracker_after_all(policy: DevicePolicy, kt: KeyTracker, evs: Seq<crate::input_event::InputEvent>) -> KeyTracker
    decreases evs.len(),
{
    if evs.len() == 0 {
        kt
    } else {
        tracker_step(policy, tracker_after_all(policy, kt, evs.drop_last()), evs.last())
    }
}

/// The events of a run that the policy lets through, in order.
pub open spec fn forwarded(policy: DevicePolicy, kt: KeyTracker, evs: Seq<crate::input_event::InputEvent>) -> Seq<
    crate::input_event::InputEvent,
>
    decreases evs.len(),
{
    if evs.len() == 0 {
        Seq::empty()
    } else {
        let prev = forwarded(policy, kt, evs.drop_last());
        if policy_allows(policy, tracker_after_all(policy, kt, evs.drop_last()), evs.last()) {
            prev.push(evs.last())
        } else {
            prev
        }
    }
}

/// What the server does with one write.
#[derive(Debug)]
pub enum WritePlan {
    /// Set the device up from a legacy `uinput_user_dev`, then reply the
    /// whole size.
    LegacySetup(LegacySetup),
    /// Write each record to the host device in order; reply `consumed`
    /// when all were written, EIO at the first that was not.
    Forward { records: Vec<Vec<u8>>, consumed: usize },
}

/// Whether `r` is the legacy setup of the legacy bytes `b`.
pub open spec fn is_legacy_setup_of(b: Seq<u8>, r: LegacySetup) -> bool {
    &&& r.setup.bustype == crate::ioctl::BUS_USB
    &&& r.setup.vendor == crate::ioctl::VUINPUT_VENDOR
    &&& r.setup.product == crate::ioctl::VUINPUT_PRODUCT
    &&& r.setup.version as nat == le_at(b, crate::ioctl::LEGACY_ID_VERSION_OFFSET as int, 2)
    &&& r.setup.name@ == b.subrange(0, crate::ioctl::UINPUT_MAX_NAME_SIZE as int)
    &&& r.setup.ff_effects_max as nat == le_at(
        b,
        crate::ioctl::LEGACY_FF_EFFECTS_MAX_OFFSET as int,
        4,
    )
    &&& r.abs_setups@ == legacy_abs_setups(b, crate::ioctl::ABS_CNT as int)
}

/// Plans one write of the session's client: a legacy setup when no device
/// was created yet and the write has the size of `uinput_user_dev`;
/// otherwise the complete records of the write, widened for a 32-bit client,
/// filtered by the policy and serialized in the host layout.
pub fn plan_write(state: &mut VuInputState, policy: DevicePolicy, buf: &[u8]) -> (r: WritePlan)
    ensures
        final(state).requesting_process == old(state).requesting_process,
        final(state).input_device == old(state).input_device,
        (old(state).input_device is None && buf@.len() == LEGACY_USER_DEV_SIZE) <==> r is LegacySetup,
        r matches WritePlan::LegacySetup(l) ==> is_legacy_setup_of(buf@, l),
        r is LegacySetup ==> final(state).keytracker == old(state).keytracker,
        r matches WritePlan::Forward { records, consumed } ==> {
            let c = old(state).requesting_process.is_compat;
            let n = buf@.len() / record_size(c);
            let evs = events_of(buf@, c, n);
            let fw = forwarded(policy, old(state).keytracker, evs);
            &&& consumed == n * record_size(c)
            &&& records@.len() == fw.len()
            &&& forall|i: int| 0 <= i < fw.len() ==> #[trigger] records@[i]@ == event_bytes(fw[i])
            &&& final(state).keytracker == tracker_after_all(policy, old(state).keytracker, evs)
        },
{
    if state.input_device.is_none() && buf.len() == LEGACY_USER_DEV_SIZE {
        let l = legacy_setup(buf);
        return WritePlan::LegacySetup(l);
    }
    let is_compat = state.requesting_process.is_compat;
    let size: usize = if is_compat {
        COMPAT_EVENT_SIZE
    } else {
        NATIVE_EVENT_SIZE
    };
    let blen = buf.len();
    let n = blen / size;
    let ghost evs = events_of(buf@, is_compat, n as nat);
    let ghost kt0 = state.keytracker;
    let mut records: Vec<Vec<u8>> = Vec::new();
    let mut i: usize = 0;
    while i < n
        invariant
            i <= n,
            blen == buf@.len(),
            n == buf@.len() / size as nat,
            size as nat == record_size(is_compat),
            is_compat == state.requesting_process.is_compat,
            evs == events_of(buf@, is_compat, n as nat),
            state.requesting_process == old(state).requesting_process,
            state.input_device == old(state).input_device,
            kt0 == old(state).keytracker,
            state.keytracker == tracker_after_all(policy, kt0, evs.subrange(0, i as int)),
            records@.len() == forwarded(policy, kt0, evs.subrange(0, i as int)).len(),
            forall|k: int|
                0 <= k < records@.len() ==> #[trigger] records@[k]@ == event_bytes(
                    forwarded(policy, kt0, evs.subrange(0, i as int))[k],
                ),
        decreases n - i,
    {
        proof {
            assert(i * size + size <= n * size) by (nonlinear_arith)
                requires
                    i < n,
            ;
            assert(n * size <= buf@.len()) by (nonlinear_arith)
                requires
                    n == buf@.len() / size as nat,
                    size > 0,
            ;
        }
        let ev = if is_compat {
            let c = decode_compat_event(buf, i * size);
            map_to_64_bit(&c)
        } else {
            decode_event(buf, i * size)
        };
        proof {
            assert(ev == evs[i as int]);
            assert(evs.subrange(0, i + 1).drop_last() =~= evs.subrange(0, i as int));
            assert(evs.subrange(0, i + 1).last() == evs[i as int]);
        }
        let allowed = is_allowed(&mut state.keytracker, &policy, &ev);
        if allowed {
            let bytes = encode_event(&ev);
            records.push(bytes);
        }
        i = i + 1;
    }
    proof {
        assert(evs.subrange(0, n as int) =~= evs);
    }
    WritePlan::Forward { records, consumed: n * size }
}

/// Under the policy `none` every event of a write is forwarded.
pub proof fn lemma_unfiltered_forwards_all(kt: KeyTracker, evs: Seq<crate::input_event::InputEvent>)
    ensures
        forwarded(DevicePolicy::Unfiltered, kt, evs) == evs,
    decreases evs.len(),
{
    if evs.len() > 0 {
        lemma_unfiltered_forwards_all(kt, evs.drop_last());
        assert(evs.drop_last().push(evs.last()) =~= evs);
    }
}

/// Under the strict-gamepad policy no forwarded event is a key event outside
/// the gamepad button ranges.
pub proof fn lemma_strict_gamepad_forwards_no_other_key(
    kt: KeyTracker,
    evs: Seq<crate::input_event::InputEvent>,
)
    ensures
        forall|i: int|
            0 <= i < forwarded(DevicePolicy::StrictGamepad, kt, evs).len() ==> {
                let e = #[trigger] forwarded(DevicePolicy::StrictGamepad, kt, evs)[i];
                e.type_ == crate::device_policy::EV_KEY ==> crate::device_policy::is_gamepad_button(
                    e.code,
                )
            },
    decreases evs.len(),
{
    if evs.len() > 0 {
        lemma_strict_gamepad_forwards_no_other_key(kt, evs.drop_last());
        let prev = forwarded(DevicePolicy::StrictGamepad, kt, evs.drop_last());
        let fw = forwarded(DevicePolicy::StrictGamepad, kt, evs);
        assert forall|i: int| 0 <= i < fw.len() && fw[i].type_ == crate::device_policy::EV_KEY implies crate::device_policy::is_gamepad_button(fw[i].code) by {
            if i < prev.len() {
                assert(fw[i] == prev[i]);
            }
        }
    }
}

/// What the server does when it failed to write a record: log the error
/// unless the last error logged was a write error of the same handle.
#[derive(Clone, Copy, Debug, PartialEq, Eq, Structural)]
pub enum VuError {
    WriteError,
}

/// The last error logged, for log deduplication.
#[derive(Debug)]
pub struct DedupLastError {
    pub last: Option<(u64, VuError)>,
}

/// No error logged yet.
pub fn initialize_dedup_last_error() -> (r: DedupLastError)
    ensures
        r.last is None,
{
    DedupLastError { last: None }
}

impl DedupLastError {
    /// Records a write error of handle `fh`; tells whether to log it.
    pub fn write_error(&mut self, fh: u64) -> (log: bool)
        ensures
            log == (old(self).last != Some((fh, VuError::WriteError))),
            final(self).last == Some((fh, VuError::WriteError)),
    {
        let log = match self.last {
            Some((last_fh, e)) => {
                assert(e == VuError::WriteError);
                last_fh != fh
            },
            None => true,
        };
        self.last = Some((fh, VuError::WriteError));
        log
    }
}

/// The device node name among the entries of a device's sysfs directory:
/// the first that begins with `event`, with its `/dev/input` path.
pub open spec fn device_node_of(entries: Seq<Seq<char>>) -> Option<(Seq<char>, Seq<char>)>
    decreases entries.len(),
{
    if entries.len() == 0 {
        None
    } else if starts_with(entries[0], "event"@) {
        Some((entries[0], "/dev/input/"@ + entries[0]))
    } else {
        device_node_of(entries.drop_first())
    }
}

/// Finds the event node among the entries of a device's sysfs directory:
/// its name and its `/dev/input` path.
pub fn fetch_device_node(entries: &Vec<String>) -> (r: Option<(String, String)>)
    ensures
        match r {
            Some((name, node)) => device_node_of(entries@.map_values(|e: String| e@)) == Some(
                (name@, node@),
            ),
            None => device_node_of(entries@.map_values(|e: String| e@)) is None,
        },
{
    let prefix = chars_of("event");
    let ghost ev = entries@.map_values(|e: String| e@);
    let mut i: usize = 0;
    assert(ev.subrange(0, ev.len() as int) =~= ev);
    while i < entries.len()
        invariant
            i <= entries@.len(),
            ev == entries@.map_values(|e: String| e@),
            prefix@ == "event"@,
            device_node_of(ev.subrange(i as int, ev.len() as int)) == device_node_of(ev),
        decreases entries@.len() - i,
    {
        let name = &entries[i];
        let nc = chars_of(name.as_str());
        proof {
            let rest = ev.subrange(i as int, ev.len() as int);
            assert(rest[0] == name@);
            assert(rest.drop_first() =~= ev.subrange(i + 1, ev.len() as int));
        }
        if occurs_at_exec(&nc, &prefix, 0) {
            let mut node: Vec<char> = Vec::new();
            push_str(&mut node, "/dev/input/");
            push_str(&mut node, name.as_str());
            return Some((name.clone(), string_of(&node)));
        }
        i = i + 1;
    }
    None
}

/// Major number of a device number, in the layout `fetch_major_minor` reads.
pub open spec fn major_of(rdev: u64) -> u64 {
    (rdev >> 8u64) & 0xfff
}

/// Minor number of a device number.
pub open spec fn minor_of(rdev: u64) -> u64 {
    (rdev & 0xff) | ((rdev >> 12u64) & 0xfff00)
}

/// Why a device node could not be used.
#[derive(Clone, Copy, Debug, PartialEq, Eq, Structural)]
pub enum NodeError {
    NotACharacterDevice,
}

/// The (major, minor) numbers of a device node from its file type and
/// device number.
pub fn fetch_major_minor(is_char_device: bool, rdev: u64) -> (r: Result<(u64, u64), NodeError>)
    ensures
        !is_char_device <==> r is Err,
        r matches Ok((major, minor)) ==> major == major_of(rdev) && minor == minor_of(rdev),
{
    if !is_char_device {
        return Err(NodeError::NotACharacterDevice);
    }
    Ok(((rdev >> 8u64) & 0xfff, (rdev & 0xff) | ((rdev >> 12u64) & 0xfff00)))
}

/// Whether a session's process lives in other mount or network namespaces
/// than the daemon.
pub open spec fn cross_namespace(state: VuInputState, own: NamespaceInodes) -> bool {
    !same_mnt_and_net(own, state.requesting_process.namespaces)
}

/// The jobs that follow a successful UI_DEV_CREATE.
#[derive(Debug)]
pub struct CreateJobs {
    /// Dispatch and wait for it before replying.
    pub mknod: MknodDeviceJob,
    /// Dispatch after replying; nobody waits for it.
    pub emit: EmitUdevEventJob,
}

/// Records the created device; for a session in other namespaces than the
/// daemon, returns the jobs that publish the device in its container.
pub fn on_device_created(state: &mut VuInputState, device: VuInputDevice, own: &NamespaceInodes) -> (r:
    Option<CreateJobs>)
    ensures
        final(state).requesting_process == old(state).requesting_process,
        final(state).keytracker == old(state).keytracker,
        final(state).input_device == Some(device),
        cross_namespace(*old(state), *own) <==> r is Some,
        r matches Some(j) ==> {
            &&& j.mknod.requesting_process == old(state).requesting_process
            &&& j.mknod.target == JobTarget::Container(old(state).requesting_process)
            &&& j.mknod.state == State::Initialized
            &&& j.emit.target == JobTarget::Container(old(state).requesting_process)
            &&& j.emit.state == State::Initialized
            &&& j.emit.attempts == 0
            &&& j.emit.netlink_data is None
            &&& j.emit.runtime_data is None
            &&& j.mknod.devname == device.devname
            &&& j.mknod.sys_path == device.syspath
            &&& j.mknod.major == device.major
            &&& j.mknod.minor == device.minor
            &&& j.emit.requesting_process == old(state).requesting_process
            &&& j.emit.dev_path == device.devnode
            &&& j.emit.sys_path == device.syspath
            &&& j.emit.major == device.major
            &&& j.emit.minor == device.minor
        },
{
    let cross = !own.equal_mnt_and_net(&state.requesting_process.namespaces);
    let jobs = if cross {
        let mknod = MknodDeviceJob::new(
            state.requesting_process.duplicate(),
            device.devname.clone(),
            device.syspath.clone(),
            device.major,
            device.minor,
        );
        let emit = EmitUdevEventJob::new(
            state.requesting_process.duplicate(),
            device.devnode.clone(),
            device.syspath.clone(),
            device.major,
            device.minor,
        );
        Some(CreateJobs { mknod, emit })
    } else {
        None
    };
    state.input_device = Some(device);
    jobs
}

/// Whether `j` removes the device of session `state` from its container:
/// it targets the session's container and carries the device's node name,
/// syspath and numbers.
pub open spec fn is_removal_job_for(j: RemoveDeviceJob, state: VuInputState) -> bool {
    let d = state.input_device->Some_0;
    &&& j.requesting_process == state.requesting_process
    &&& j.target == JobTarget::Container(state.requesting_process)
    &&& j.dev_name == d.devname
    &&& j.sys_path == d.syspath
    &&& j.major == d.major
    &&& j.minor == d.minor
    &&& j.state == State::Initialized
}

/// Takes the session's device and, for a session in other namespaces than
/// the daemon, returns the job that removes it from the container. Used both
/// for UI_DEV_DESTROY (before the host destroy) and for release.
pub fn take_device_for_removal(state: &mut VuInputState, own: &NamespaceInodes) -> (r: Option<
    RemoveDeviceJob,
>)
    ensures
        final(state).requesting_process == old(state).requesting_process,
        final(state).keytracker == old(state).keytracker,
        final(state).input_device is None,
        (old(state).input_device is Some && cross_namespace(*old(state), *own)) <==> r is Some,
        r matches Some(j) ==> is_removal_job_for(j, *old(state)),
{
    let device = state.input_device.take();
    match device {
        Some(d) => {
            if !own.equal_mnt_and_net(&state.requesting_process.namespaces) {
                Some(
                    RemoveDeviceJob::new(
                        state.requesting_process.duplicate(),
                        d.devname,
                        d.syspath,
                        d.major,
                        d.minor,
                    ),
                )
            } else {
                None
            }
        },
        None => None,
    }
}

/// A session event after creation: UI_DEV_DESTROY or release.
pub enum SessionOp {
    Destroy,
    Release,
}

/// How many removal jobs a run of destroys and releases produces, from a
/// session whose device is `has_device` and whose namespaces are `cross`.
pub open spec fn removals(has_device: bool, cross: bool, ops: Seq<SessionOp>) -> nat
    decreases ops.len(),
{
    if ops.len() == 0 {
        0
    } else {
        (if has_device && cross {
            1nat
        } else {
            0nat
        }) + removals(false, cross, ops.drop_first())
    }
}

/// A created device of a session in a container is removed exactly once,
/// by the first destroy or release, whatever follows.
pub proof fn lemma_removed_exactly_once(cross: bool, ops: Seq<SessionOp>)
    requires
        cross,
        ops.len() > 0,
    ensures
        removals(true, cross, ops) == 1,
{
    lemma_no_removal_without_device(cross, ops.drop_first());
}

proof fn lemma_no_removal_without_device(cross: bool, ops: Seq<SessionOp>)
    ensures
        removals(false, cross, ops) == 0,
    decreases ops.len(),
{
    if ops.len() > 0 {
        lemma_no_removal_without_device(cross, ops.drop_first());
    }
}

} // verus!

verus! {

/// One step of the server's handling of UI_DEV_DESTROY or release, in order.
#[derive(Debug)]
pub enum SessionStep {
    /// Dispatch this removal job and wait until it has finished.
    RemoveInContainer(RemoveDeviceJob),
    /// Destroy the device on the host file.
    DestroyHostDevice,
    /// Close the host file.
    CloseHostFile,
    /// Reply success to the bridge.
    ReplyOk,
}

pub enum StepKind {
    Remove,
    Destroy,
    Close,
    Reply,
}

pub open spec fn step_kind(s: SessionStep) -> StepKind {
    match s {
        SessionStep::RemoveInContainer(_) => StepKind::Remove,
        SessionStep::DestroyHostDevice => StepKind::Destroy,
        SessionStep::CloseHostFile => StepKind::Close,
        SessionStep::ReplyOk => StepKind::Reply,
    }
}

pub open spec fn step_kinds(s: Seq<SessionStep>) -> Seq<StepKind> {
    s.map_values(|x: SessionStep| step_kind(x))
}

/// The removal prefix of a plan: one removal when the session had a device
/// and lives in other namespaces than the daemon.
pub open spec fn removal_kinds(state: VuInputState, own: NamespaceInodes) -> Seq<StepKind> {
    if state.input_device is Some && cross_namespace(state, own) {
        seq![StepKind::Remove]
    } else {
        Seq::empty()
    }
}

fn removal_prefix(state: &mut VuInputState, own: &NamespaceInodes) -> (r: Vec<SessionStep>)
    ensures
        final(state).requesting_process == old(state).requesting_process,
        final(state).keytracker == old(state).keytracker,
        final(state).input_device is None,
        step_kinds(r@) == removal_kinds(*old(state), *own),
        r@.len() == 1 ==> (r@[0] matches SessionStep::RemoveInContainer(j) && is_removal_job_for(
            j,
            *old(state),
        )),
{
    let mut steps: Vec<SessionStep> = Vec::new();
    match take_device_for_removal(state, own) {
        Some(job) => steps.push(SessionStep::RemoveInContainer(job)),
        None => {},
    }
    assert(step_kinds(steps@) =~= removal_kinds(*old(state), *own));
    steps
}

/// The steps of UI_DEV_DESTROY: the container's copy of the device is
/// removed first, then the host device is destroyed, then the reply is sent.
pub fn destroy_steps(state: &mut VuInputState, own: &NamespaceInodes) -> (r: Vec<SessionStep>)
    ensures
        final(state).requesting_process == old(state).requesting_process,
        final(state).input_device is None,
        step_kinds(r@) == removal_kinds(*old(state), *own) + seq![
            StepKind::Destroy,
            StepKind::Reply,
        ],
        removal_kinds(*old(state), *own).len() == 1 ==> (r@[0] matches SessionStep::RemoveInContainer(
            j,
        ) && is_removal_job_for(j, *old(state))),
{
    let mut steps = removal_prefix(state, own);
    let ghost pre = steps@;
    steps.push(SessionStep::DestroyHostDevice);
    steps.push(SessionStep::ReplyOk);
    assert(step_kinds(steps@) =~= step_kinds(pre) + seq![StepKind::Destroy, StepKind::Reply]);
    steps
}

/// The steps of release: the container's copy of a device left behind is
/// removed first, then the host file is closed, then the reply is sent.
pub fn release_steps(state: &mut VuInputState, own: &NamespaceInodes) -> (r: Vec<SessionStep>)
    ensures
        final(state).requesting_process == old(state).requesting_process,
        final(state).input_device is None,
        step_kinds(r@) == removal_kinds(*old(state), *own) + seq![StepKind::Close, StepKind::Reply],
        removal_kinds(*old(state), *own).len() == 1 ==> (r@[0] matches SessionStep::RemoveInContainer(
            j,
        ) && is_removal_job_for(j, *old(state))),
{
    let mut steps = removal_prefix(state, own);
    let ghost pre = steps@;
    steps.push(SessionStep::CloseHostFile);
    steps.push(SessionStep::ReplyOk);
    assert(step_kinds(steps@) =~= step_kinds(pre) + seq![StepKind::Close, StepKind::Reply]);
    steps
}

/// On release the host file is closed before the reply is sent, and it is
/// the last step but one.
pub proof fn lemma_release_closes_before_reply(state: VuInputState, own: NamespaceInodes)
    ensures
        ({
            let k = removal_kinds(state, own) + seq![StepKind::Close, StepKind::Reply];
            &&& k[k.len() - 2] == StepKind::Close
            &&& k[k.len() - 1] == StepKind::Reply
            &&& forall|i: int| 0 <= i < k.len() - 2 ==> k[i] == StepKind::Remove
        }),
{
}

} // verus!

verus! {

/// The device number of `major:minor`, as Linux encodes it.
pub open spec fn device_number(major: u64, minor: u64) -> u64 {
    ((major & 0xffff_f000) << 32u64) | ((major & 0x0000_0fff) << 8u64) | ((minor & 0xffff_ff00)
        << 12u64) | (minor & 0x0000_00ff)
}

/// The device number of `major:minor`.
pub fn makedev(major: u64, minor: u64) -> (r: u64)
    ensures
        r == device_number(major, minor),
{
    ((major & 0xffff_f000) << 32u64) | ((major & 0x0000_0fff) << 8u64) | ((minor & 0xffff_ff00)
        << 12u64) | (minor & 0x0000_00ff)
}

/// What is at a device node path now.
#[derive(Clone, Copy, Debug, PartialEq, Eq, Structural)]
pub struct NodeStat {
    pub is_char_device: bool,
    pub rdev: u64,
    /// The permission bits.
    pub mode: u32,
}

/// The mode every device node gets.
pub const NODE_MODE: u32 = 0o666;

/// What to do to make a path the device node `major:minor` with mode 0666.
#[derive(Clone, Copy, Debug, PartialEq, Eq, Structural)]
pub enum NodePlan {
    /// It is right as it is.
    Keep,
    /// It is the right node; only set its mode.
    FixMode,
    /// Unlink whatever is there and create the node.
    Replace,
}

/// Decides how to ensure the device node `major:minor` at a path, from what
/// is there now (`None`: nothing).
pub fn input_device_plan(current: Option<NodeStat>, major: u64, minor: u64) -> (r: NodePlan)
    ensures
        r == match current {
            Some(st) => if st.is_char_device && st.rdev == device_number(major, minor) {
                if st.mode & 0o777 == NODE_MODE {
                    NodePlan::Keep
                } else {
                    NodePlan::FixMode
                }
            } else {
                NodePlan::Replace
            },
            None => NodePlan::Replace,
        },
{
    match current {
        Some(st) => {
            if st.is_char_device && st.rdev == makedev(major, minor) {
                if st.mode & 0o777 == NODE_MODE {
                    NodePlan::Keep
                } else {
                    NodePlan::FixMode
                }
            } else {
                NodePlan::Replace
            }
        },
        None => NodePlan::Replace,
    }
}

} // verus!

verus! {

/// One step of the server's handling of a successful UI_DEV_CREATE, in order.
#[derive(Debug)]
pub enum CreateStep {
    /// Dispatch the job that creates the node and wait until it has finished.
    WaitForMknod(MknodDeviceJob),
    /// Reply success to the bridge.
    ReplyOk,
    /// Dispatch the job that announces the device; nobody waits for it.
    DispatchEmit(EmitUdevEventJob),
}

/// The steps after the host created `device`: for a session in other
/// namespaces than the daemon, the node is created in the container before
/// the reply, and the announcement is dispatched after it; otherwise only the
/// reply.
pub fn create_steps(state: &mut VuInputState, device: VuInputDevice, own: &NamespaceInodes) -> (r: Vec<
    CreateStep,
>)
    ensures
        final(state).requesting_process == old(state).requesting_process,
        final(state).keytracker == old(state).keytracker,
        final(state).input_device == Some(device),
        !cross_namespace(*old(state), *own) ==> r@.len() == 1 && r@[0] is ReplyOk,
        cross_namespace(*old(state), *own) ==> {
            &&& r@.len() == 3
            &&& r@[1] is ReplyOk
            &&& r@[0] matches CreateStep::WaitForMknod(m) && {
                &&& m.requesting_process == old(state).requesting_process
                &&& m.target == JobTarget::Container(old(state).requesting_process)
                &&& m.devname == device.devname
                &&& m.sys_path == device.syspath
                &&& m.major == device.major
                &&& m.minor == device.minor
                &&& m.state == State::Initialized
            }
            &&& r@[2] matches CreateStep::DispatchEmit(e) && {
                &&& e.requesting_process == old(state).requesting_process
                &&& e.target == JobTarget::Container(old(state).requesting_process)
                &&& e.dev_path == device.devnode
                &&& e.sys_path == device.syspath
                &&& e.major == device.major
                &&& e.minor == device.minor
                &&& e.attempts == 0
                &&& e.netlink_data is None
                &&& e.runtime_data is None
            }
        },
{
    let mut steps: Vec<CreateStep> = Vec::new();
    match on_device_created(state, device, own) {
        Some(jobs) => {
            let CreateJobs { mknod, emit } = jobs;
            steps.push(CreateStep::WaitForMknod(mknod));
            steps.push(CreateStep::ReplyOk);
            steps.push(CreateStep::DispatchEmit(emit));
        },
        None => {
            steps.push(CreateStep::ReplyOk);
        },
    }
    steps
}

} // verus!
