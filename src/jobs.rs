//! Jobs: what runs for a container (or the host) after a device is created
//! or destroyed, as descriptions and decision steps. Running a step (forking
//! into a namespace, writing files, sending netlink messages) is left to the
//! caller, which reports back what it observed.

use vstd::prelude::*;
use crate::config::Placement;
use crate::event_store::{
    copy_properties, props_view, set_property, with_property, Entry, EntryView, Properties,
};
use crate::monitor::MonitorBackgroundLoop;
use crate::namespace::RequestingProcess;
use crate::text::{push_str, string_of};

verus! {

/// A side effect, in the wire form exchanged with the in-namespace helper.
#[derive(Debug)]
pub enum Action {
    /// Ensure a character device node `major:minor` at `path`.
    MknodDevice { path: String, major: u64, minor: u64 },
    /// Write (`Some`) or delete (`None`) the udev data of `major:minor`.
    WriteUdevRuntimeData { runtime_data: Option<String>, major: u64, minor: u64 },
    /// Send one udev monitor message with these properties.
    EmitNetlinkMessage { netlink_message: Properties },
    /// Remove the device node at `path`.
    RemoveDevice { path: String, major: u64, minor: u64 },
}

/// One step of a job and where it runs.
#[derive(Debug)]
pub enum JobStep {
    /// Inside the namespaces of the job's container.
    InContainer(Action),
    /// On the host, with udev data under `udev_prefix`.
    OnHost { action: Action, udev_prefix: String },
}

/// Progress of a job that a caller may wait for.
#[derive(Clone, Copy, Debug, PartialEq, Eq, Structural)]
pub enum State {
    Initialized,
    Started,
    Finished,
}

/// The rank of a state: jobs only move forward.
pub open spec fn state_rank(s: State) -> nat {
    match s {
        State::Initialized => 0,
        State::Started => 1,
        State::Finished => 2,
    }
}

/// Whether a waiter for state `wanted` may stop waiting at state `current`.
pub fn reached(current: State, wanted: State) -> (r: bool)
    ensures
        r == (state_rank(current) >= state_rank(wanted)),
{
    let c: u8 = match current {
        State::Initialized => 0,
        State::Started => 1,
        State::Finished => 2,
    };
    let w: u8 = match wanted {
        State::Initialized => 0,
        State::Started => 1,
        State::Finished => 2,
    };
    c >= w
}

/// Where a job runs.
#[derive(Clone, Debug, PartialEq, Eq, Hash)]
pub enum JobTarget {
    /// A host-wide task.
    Host,
    /// A loop of its own, outside every queue.
    BackgroundLoop,
    /// The queue of one container.
    Container(RequestingProcess),
}

/// The directory under which host placement puts artifacts.
pub open spec fn host_prefix(devname: Seq<char>) -> Seq<char> {
    "/run/vuinputd/"@ + devname
}

fn host_prefix_exec(devname: &str) -> (r: String)
    ensures
        r@ == host_prefix(devname@),
{
    let mut out: Vec<char> = Vec::new();
    push_str(&mut out, "/run/vuinputd/");
    push_str(&mut out, devname);
    string_of(&out)
}

/// The device node path in a container for node name `name`.
pub open spec fn container_node(name: Seq<char>) -> Seq<char> {
    "/dev/input/"@ + name
}

fn container_node_exec(name: &str) -> (r: String)
    ensures
        r@ == container_node(name@),
{
    let mut out: Vec<char> = Vec::new();
    push_str(&mut out, "/dev/input/");
    push_str(&mut out, name);
    string_of(&out)
}

/// The device node path on the host for node name `name`.
pub open spec fn host_node(devname: Seq<char>, name: Seq<char>) -> Seq<char> {
    host_prefix(devname) + "/dev-input/"@ + name
}

fn host_node_exec(devname: &str, name: &str) -> (r: String)
    ensures
        r@ == host_node(devname@, name@),
{
    let mut out: Vec<char> = Vec::new();
    push_str(&mut out, "/run/vuinputd/");
    push_str(&mut out, devname);
    push_str(&mut out, "/dev-input/");
    push_str(&mut out, name);
    string_of(&out)
}

/// The kinds of steps, for contracts.
pub enum StepShape {
    ContainerMknod(Seq<char>, u64, u64),
    ContainerUdevData(Option<Seq<char>>, u64, u64),
    ContainerNetlink(Seq<(Seq<char>, Seq<char>)>),
    ContainerRemove(Seq<char>, u64, u64),
    HostMknod(Seq<char>, u64, u64),
    HostUdevData(Seq<char>, Option<Seq<char>>, u64, u64),
    HostRemove(Seq<char>, u64, u64),
    Other,
}

pub open spec fn shape(s: JobStep) -> StepShape {
    match s {
        JobStep::InContainer(Action::MknodDevice { path, major, minor }) => StepShape::ContainerMknod(
            path@,
            major,
            minor,
        ),
        JobStep::InContainer(Action::WriteUdevRuntimeData { runtime_data, major, minor }) => {
            StepShape::ContainerUdevData(
                match runtime_data {
                    Some(d) => Some(d@),
                    None => None,
                },
                major,
                minor,
            )
        },
        JobStep::InContainer(Action::EmitNetlinkMessage { netlink_message }) => {
            StepShape::ContainerNetlink(props_view(netlink_message@))
        },
        JobStep::InContainer(Action::RemoveDevice { path, major, minor }) => StepShape::ContainerRemove(
            path@,
            major,
            minor,
        ),
        JobStep::OnHost { action: Action::MknodDevice { path, major, minor }, .. } => StepShape::HostMknod(
            path@,
            major,
            minor,
        ),
        JobStep::OnHost {
            action: Action::WriteUdevRuntimeData { runtime_data, major, minor },
            udev_prefix,
        } => StepShape::HostUdevData(
            udev_prefix@,
            match runtime_data {
                Some(d) => Some(d@),
                None => None,
            },
            major,
            minor,
        ),
        JobStep::OnHost { action: Action::RemoveDevice { path, major, minor }, .. } => StepShape::HostRemove(
            path@,
            major,
            minor,
        ),
        _ => StepShape::Other,
    }
}

pub open spec fn shapes(s: Seq<JobStep>) -> Seq<StepShape> {
    s.map_values(|x: JobStep| shape(x))
}

/// Creates the device node of a new device for its container.
#[derive(Debug)]
pub struct MknodDeviceJob {
    pub requesting_process: RequestingProcess,
    pub target: JobTarget,
    pub devname: String,
    pub sys_path: String,
    pub major: u64,
    pub minor: u64,
    pub state: State,
}

impl MknodDeviceJob {
    pub fn new(
        requesting_process: RequestingProcess,
        devname: String,
        sys_path: String,
        major: u64,
        minor: u64,
    ) -> (r: Self)
        ensures
            r.requesting_process == requesting_process,
            r.target == JobTarget::Container(requesting_process),
            r.devname == devname,
            r.sys_path == sys_path,
            r.major == major,
            r.minor == minor,
            r.state == State::Initialized,
    {
        let target = JobTarget::Container(requesting_process.duplicate());
        MknodDeviceJob {
            requesting_process,
            target,
            devname,
            sys_path,
            major,
            minor,
            state: State::Initialized,
        }
    }

    pub fn set_state(&mut self, new_state: State)
        ensures
            final(self).state == new_state,
            final(self).devname == old(self).devname,
            final(self).sys_path == old(self).sys_path,
            final(self).major == old(self).major,
            final(self).minor == old(self).minor,
            final(self).requesting_process == old(self).requesting_process,
            final(self).target == old(self).target,
    {
        self.state = new_state;
    }

    /// The steps that create the node: `/dev/input/<name>` in the container,
    /// `/run/vuinputd/<devname>/dev-input/<name>` on the host, or none.
    pub fn steps(&self, placement: Placement, host_devname: &str) -> (r: Vec<JobStep>)
        ensures
            shapes(r@) == match placement {
                Placement::InContainer => seq![
                    StepShape::ContainerMknod(container_node(self.devname@), self.major, self.minor),
                ],
                Placement::OnHost => seq![
                    StepShape::HostMknod(
                        host_node(host_devname@, self.devname@),
                        self.major,
                        self.minor,
                    ),
                ],
                Placement::Nowhere => Seq::<StepShape>::empty(),
            },
    {
        let mut steps: Vec<JobStep> = Vec::new();
        match placement {
            Placement::InContainer => {
                steps.push(
                    JobStep::InContainer(
                        Action::MknodDevice {
                            path: container_node_exec(self.devname.as_str()),
                            major: self.major,
                            minor: self.minor,
                        },
                    ),
                );
            },
            Placement::OnHost => {
                steps.push(
                    JobStep::OnHost {
                        action: Action::MknodDevice {
                            path: host_node_exec(host_devname, self.devname.as_str()),
                            major: self.major,
                            minor: self.minor,
                        },
                        udev_prefix: host_prefix_exec(host_devname),
                    },
                );
            },
            Placement::Nowhere => {},
        }
        assert(shapes(steps@) =~= match placement {
            Placement::InContainer => seq![
                StepShape::ContainerMknod(container_node(self.devname@), self.major, self.minor),
            ],
            Placement::OnHost => seq![
                StepShape::HostMknod(host_node(host_devname@, self.devname@), self.major, self.minor),
            ],
            Placement::Nowhere => Seq::<StepShape>::empty(),
        });
        steps
    }
}

/// Attempts of the emit job before it gives up (one every 100 ms).
pub const EMIT_MAX_ATTEMPTS: u32 = 50;

/// What the emit job does after one attempt.
#[derive(Debug)]
pub enum EmitStep {
    /// Wait 100 ms and try again.
    Retry,
    /// Stop without doing anything more.
    Stop,
    /// Run these steps, then finish.
    Run(Vec<JobStep>),
}

/// Announces a new device in its container: once the store has the
/// kernel's `add` uevent and the host's udev has written the device's data,
/// writes the data and sends the uevent in the container.
#[derive(Debug)]
pub struct EmitUdevEventJob {
    pub requesting_process: RequestingProcess,
    pub target: JobTarget,
    pub dev_path: String,
    pub sys_path: String,
    pub major: u64,
    pub minor: u64,
    pub state: State,
    pub attempts: u32,
    pub netlink_data: Option<Properties>,
    pub runtime_data: Option<String>,
}

impl EmitUdevEventJob {
    pub fn new(
        requesting_process: RequestingProcess,
        dev_path: String,
        sys_path: String,
        major: u64,
        minor: u64,
    ) -> (r: Self)
        ensures
            r.requesting_process == requesting_process,
            r.target == JobTarget::Container(requesting_process),
            r.dev_path == dev_path,
            r.sys_path == sys_path,
            r.major == major,
            r.minor == minor,
            r.state == State::Initialized,
            r.attempts == 0,
            r.netlink_data is None,
            r.runtime_data is None,
    {
        let target = JobTarget::Container(requesting_process.duplicate());
        EmitUdevEventJob {
            requesting_process,
            target,
            dev_path,
            sys_path,
            major,
            minor,
            state: State::Initialized,
            attempts: 0,
            netlink_data: None,
            runtime_data: None,
        }
    }

    pub fn set_state(&mut self, new_state: State)
        ensures
            final(self).state == new_state,
            final(self).attempts == old(self).attempts,
            final(self).sys_path == old(self).sys_path,
            final(self).major == old(self).major,
            final(self).minor == old(self).minor,
    {
        self.state = new_state;
    }

    /// Whether the next attempt should take the device's entry from the store.
    pub fn needs_netlink_data(&self) -> (r: bool)
        ensures
            r == self.netlink_data is None,
    {
        self.netlink_data.is_none()
    }

    /// Whether the next attempt should read the device's udev data.
    pub fn needs_runtime_data(&self) -> (r: bool)
        ensures
            r == self.runtime_data is None,
    {
        self.runtime_data.is_none()
    }

    /// Records one attempt: `taken` is what the store handed out for the
    /// device (when asked), `runtime` the udev data read on the host (when
    /// asked). A removed device stops the job; with both pieces the job runs
    /// its steps; after the last attempt it gives up.
    pub fn record_attempt(
        &mut self,
        taken: Option<Entry>,
        runtime: Option<String>,
        placement: Placement,
        host_devname: &str,
    ) -> (r: EmitStep)
        requires
            old(self).attempts < EMIT_MAX_ATTEMPTS,
        ensures
            final(self).attempts == old(self).attempts + 1,
            final(self).dev_path == old(self).dev_path,
            final(self).requesting_process == old(self).requesting_process,
            final(self).target == old(self).target,
            final(self).sys_path == old(self).sys_path,
            final(self).major == old(self).major,
            final(self).minor == old(self).minor,
            stopped_by_removal(old(self).netlink_data is None, taken) ==> (r is Stop
                && final(self).state == State::Finished),
            !stopped_by_removal(old(self).netlink_data is None, taken) ==> {
                &&& crate::event_store::opt_props(final(self).netlink_data) == if old(
                    self,
                ).netlink_data is None && taken is Some {
                    crate::event_store::opt_props(taken->Some_0.add_data)
                } else {
                    crate::event_store::opt_props(old(self).netlink_data)
                }
                &&& opt_text(final(self).runtime_data) == if old(self).runtime_data is None {
                    opt_text(runtime)
                } else {
                    opt_text(old(self).runtime_data)
                }
                &&& (r is Run <==> (final(self).netlink_data is Some
                    && final(self).runtime_data is Some))
                &&& (r is Retry <==> (!(r is Run) && final(self).attempts < EMIT_MAX_ATTEMPTS))
                &&& (r is Stop ==> final(self).state == State::Finished)
            },
            r matches EmitStep::Run(steps) ==> shapes(steps@) == emit_shapes(
                placement,
                host_devname@,
                final(self).runtime_data->Some_0@,
                props_view(final(self).netlink_data->Some_0@),
                old(self).major,
                old(self).minor,
            ),
    {
        self.attempts = self.attempts + 1;
        if self.netlink_data.is_none() {
            match taken {
                Some(e) => {
                    if e.tombstone || e.remove_data.is_some() {
                        self.state = State::Finished;
                        return EmitStep::Stop;
                    }
                    self.netlink_data = e.add_data;
                },
                None => {},
            }
        }
        if self.runtime_data.is_none() {
            self.runtime_data = runtime;
        }
        match (&self.netlink_data, &self.runtime_data) {
            (Some(netlink), Some(runtime_data)) => {
                let steps = emit_steps(
                    placement,
                    host_devname,
                    runtime_data,
                    netlink,
                    self.major,
                    self.minor,
                );
                EmitStep::Run(steps)
            },
            _ => {
                if self.attempts >= EMIT_MAX_ATTEMPTS {
                    self.state = State::Finished;
                    EmitStep::Stop
                } else {
                    EmitStep::Retry
                }
            },
        }
    }
}

/// Whether an attempt stops the emit job because the device is already
/// gone: the store was asked and handed out a tombstone or a removal.
pub open spec fn stopped_by_removal(asked: bool, taken: Option<Entry>) -> bool {
    asked && taken is Some && (taken->Some_0.tombstone || taken->Some_0.remove_data is Some)
}

pub open spec fn opt_text(s: Option<String>) -> Option<Seq<char>> {
    match s {
        Some(t) => Some(t@),
        None => None,
    }
}

/// The steps of the emit job: the udev data where the placement puts it,
/// then the uevent in the container.
pub open spec fn emit_shapes(
    placement: Placement,
    host_devname: Seq<char>,
    runtime: Seq<char>,
    netlink: Seq<(Seq<char>, Seq<char>)>,
    major: u64,
    minor: u64,
) -> Seq<StepShape> {
    let data = match placement {
        Placement::InContainer => seq![StepShape::ContainerUdevData(Some(runtime), major, minor)],
        Placement::OnHost => seq![
            StepShape::HostUdevData(host_prefix(host_devname), Some(runtime), major, minor),
        ],
        Placement::Nowhere => Seq::<StepShape>::empty(),
    };
    data.push(StepShape::ContainerNetlink(netlink))
}

fn emit_steps(
    placement: Placement,
    host_devname: &str,
    runtime: &String,
    netlink: &Properties,
    major: u64,
    minor: u64,
) -> (r: Vec<JobStep>)
    ensures
        shapes(r@) == emit_shapes(
            placement,
            host_devname@,
            runtime@,
            props_view(netlink@),
            major,
            minor,
        ),
{
    let mut steps: Vec<JobStep> = Vec::new();
    match placement {
        Placement::InContainer => {
            steps.push(
                JobStep::InContainer(
                    Action::WriteUdevRuntimeData {
                        runtime_data: Some(runtime.clone()),
                        major,
                        minor,
                    },
                ),
            );
        },
        Placement::OnHost => {
            steps.push(
                JobStep::OnHost {
                    action: Action::WriteUdevRuntimeData {
                        runtime_data: Some(runtime.clone()),
                        major,
                        minor,
                    },
                    udev_prefix: host_prefix_exec(host_devname),
                },
            );
        },
        Placement::Nowhere => {},
    }
    steps.push(
        JobStep::InContainer(Action::EmitNetlinkMessage { netlink_message: copy_properties(netlink) }),
    );
    assert(shapes(steps@) =~= emit_shapes(
        placement,
        host_devname@,
        runtime@,
        props_view(netlink@),
        major,
        minor,
    ));
    steps
}

/// Removes a device from its container: the uevent seen on the host is
/// replayed there as `remove`, and the node and udev data are deleted.
#[derive(Debug)]
pub struct RemoveDeviceJob {
    pub requesting_process: RequestingProcess,
    pub target: JobTarget,
    pub dev_name: String,
    pub sys_path: String,
    pub major: u64,
    pub minor: u64,
    pub state: State,
}

/// The shapes of the removal steps, for the add data `add` of the device.
pub open spec fn remove_shapes(
    placement: Placement,
    host_devname: Seq<char>,
    dev_name: Seq<char>,
    add: Seq<(Seq<char>, Seq<char>)>,
    major: u64,
    minor: u64,
) -> Seq<StepShape> {
    let local = match placement {
        Placement::InContainer => seq![
            StepShape::ContainerRemove(container_node(dev_name), major, minor),
            StepShape::ContainerUdevData(None, major, minor),
        ],
        Placement::OnHost => seq![
            StepShape::HostRemove(host_node(host_devname, dev_name), major, minor),
            StepShape::HostUdevData(host_prefix(host_devname), None, major, minor),
        ],
        Placement::Nowhere => Seq::<StepShape>::empty(),
    };
    local.push(StepShape::ContainerNetlink(with_property(add, "ACTION"@, "remove"@)))
}

/// What removing a device does, given what the store handed out for it:
/// nothing when the device was never announced, was already removed, or has
/// no add data; otherwise the removal steps.
pub open spec fn remove_plan(
    taken: Option<EntryView>,
    placement: Placement,
    host_devname: Seq<char>,
    dev_name: Seq<char>,
    major: u64,
    minor: u64,
) -> Seq<StepShape> {
    match taken {
        Some(e) => if !e.tombstone && e.add_data is Some {
            remove_shapes(
                placement,
                host_devname,
                dev_name,
                props_view(e.add_data->Some_0),
                major,
                minor,
            )
        } else {
            Seq::empty()
        },
        None => Seq::empty(),
    }
}

impl RemoveDeviceJob {
    pub fn new(
        requesting_process: RequestingProcess,
        dev_name: String,
        sys_path: String,
        major: u64,
        minor: u64,
    ) -> (r: Self)
        ensures
            r.requesting_process == requesting_process,
            r.target == JobTarget::Container(requesting_process),
            r.dev_name == dev_name,
            r.sys_path == sys_path,
            r.major == major,
            r.minor == minor,
            r.state == State::Initialized,
    {
        let target = JobTarget::Container(requesting_process.duplicate());
        RemoveDeviceJob {
            requesting_process,
            target,
            dev_name,
            sys_path,
            major,
            minor,
            state: State::Initialized,
        }
    }

    pub fn set_state(&mut self, new_state: State)
        ensures
            final(self).state == new_state,
            final(self).dev_name == old(self).dev_name,
            final(self).sys_path == old(self).sys_path,
            final(self).major == old(self).major,
            final(self).minor == old(self).minor,
    {
        self.state = new_state;
    }

    /// The removal steps for the entry the store handed out for the device.
    pub fn steps(&self, taken: Option<Entry>, placement: Placement, host_devname: &str) -> (r: Vec<
        JobStep,
    >)
        ensures
            shapes(r@) == remove_plan(
                match taken {
                    Some(e) => Some(e@),
                    None => None,
                },
                placement,
                host_devname@,
                self.dev_name@,
                self.major,
                self.minor,
            ),
    {
        let e = match taken {
            Some(e) => e,
            None => {
                return Vec::new();
            },
        };
        if e.tombstone {
            return Vec::new();
        }
        let add = match &e.add_data {
            Some(a) => a,
            None => {
                return Vec::new();
            },
        };
        let mut steps: Vec<JobStep> = Vec::new();
        match placement {
            Placement::InContainer => {
                steps.push(
                    JobStep::InContainer(
                        Action::RemoveDevice {
                            path: container_node_exec(self.dev_name.as_str()),
                            major: self.major,
                            minor: self.minor,
                        },
                    ),
                );
                steps.push(
                    JobStep::InContainer(
                        Action::WriteUdevRuntimeData {
                            runtime_data: None,
                            major: self.major,
                            minor: self.minor,
                        },
                    ),
                );
            },
            Placement::OnHost => {
                steps.push(
                    JobStep::OnHost {
                        action: Action::RemoveDevice {
                            path: host_node_exec(host_devname, self.dev_name.as_str()),
                            major: self.major,
                            minor: self.minor,
                        },
                        udev_prefix: host_prefix_exec(host_devname),
                    },
                );
                steps.push(
                    JobStep::OnHost {
                        action: Action::WriteUdevRuntimeData {
                            runtime_data: None,
                            major: self.major,
                            minor: self.minor,
                        },
                        udev_prefix: host_prefix_exec(host_devname),
                    },
                );
            },
            Placement::Nowhere => {},
        }
        proof {
            reveal_strlit("ACTION");
            reveal_strlit("remove");
        }
        let message = set_property(add, "ACTION", "remove");
        steps.push(JobStep::InContainer(Action::EmitNetlinkMessage { netlink_message: message }));
        assert(shapes(steps@) =~= remove_shapes(
            placement,
            host_devname@,
            self.dev_name@,
            props_view(add@),
            self.major,
            self.minor,
        ));
        steps
    }
}

/// Publishes a new device in its container in one go: once the store has
/// the kernel's `add` uevent and the host's udev has written the device's
/// data, the node is created, the data written and the uevent sent, all in
/// the container.
#[derive(Debug)]
pub struct InjectInContainerJob {
    pub emit: EmitUdevEventJob,
}

impl InjectInContainerJob {
    pub fn new(
        requesting_process: RequestingProcess,
        dev_path: String,
        sys_path: String,
        major: u64,
        minor: u64,
    ) -> (r: Self)
        ensures
            r.emit.requesting_process == requesting_process,
            r.emit.target == JobTarget::Container(requesting_process),
            r.emit.dev_path == dev_path,
            r.emit.sys_path == sys_path,
            r.emit.major == major,
            r.emit.minor == minor,
            r.emit.attempts == 0,
            r.emit.netlink_data is None,
            r.emit.runtime_data is None,
    {
        InjectInContainerJob {
            emit: EmitUdevEventJob::new(requesting_process, dev_path, sys_path, major, minor),
        }
    }

    /// Records one attempt as the emit job does; when both pieces are there,
    /// the steps are the node at the device path, then the emit job's steps
    /// for a placement in the container.
    pub fn record_attempt(&mut self, taken: Option<Entry>, runtime: Option<String>) -> (r: EmitStep)
        requires
            old(self).emit.attempts < EMIT_MAX_ATTEMPTS,
        ensures
            final(self).emit.attempts == old(self).emit.attempts + 1,
            r is Run ==> final(self).emit.netlink_data is Some && final(self).emit.runtime_data is Some,
            r matches EmitStep::Run(steps) ==> shapes(steps@) == seq![
                StepShape::ContainerMknod(
                    old(self).emit.dev_path@,
                    old(self).emit.major,
                    old(self).emit.minor,
                ),
            ] + emit_shapes(
                Placement::InContainer,
                Seq::empty(),
                final(self).emit.runtime_data->Some_0@,
                props_view(final(self).emit.netlink_data->Some_0@),
                old(self).emit.major,
                old(self).emit.minor,
            ),
            final(self).emit.dev_path == old(self).emit.dev_path,
            final(self).emit.sys_path == old(self).emit.sys_path,
            final(self).emit.major == old(self).emit.major,
            final(self).emit.minor == old(self).emit.minor,
            final(self).emit.requesting_process == old(self).emit.requesting_process,
            final(self).emit.target == old(self).emit.target,
            stopped_by_removal(old(self).emit.netlink_data is None, taken) ==> (r is Stop
                && final(self).emit.state == State::Finished),
            !stopped_by_removal(old(self).emit.netlink_data is None, taken) ==> {
                &&& crate::event_store::opt_props(final(self).emit.netlink_data) == if old(
                    self,
                ).emit.netlink_data is None && taken is Some {
                    crate::event_store::opt_props(taken->Some_0.add_data)
                } else {
                    crate::event_store::opt_props(old(self).emit.netlink_data)
                }
                &&& opt_text(final(self).emit.runtime_data) == if old(self).emit.runtime_data is None {
                    opt_text(runtime)
                } else {
                    opt_text(old(self).emit.runtime_data)
                }
                &&& (r is Run <==> (final(self).emit.netlink_data is Some
                    && final(self).emit.runtime_data is Some))
                &&& (r is Retry <==> (!(r is Run) && final(self).emit.attempts < EMIT_MAX_ATTEMPTS))
                &&& (r is Stop ==> final(self).emit.state == State::Finished)
            },
    {
        let ghost dev_path = self.emit.dev_path@;
        match self.emit.record_attempt(taken, runtime, Placement::InContainer, "") {
            EmitStep::Run(steps) => {
                let mut all: Vec<JobStep> = Vec::new();
                all.push(
                    JobStep::InContainer(
                        Action::MknodDevice {
                            path: self.emit.dev_path.clone(),
                            major: self.emit.major,
                            minor: self.emit.minor,
                        },
                    ),
                );
                let mut rest = steps;
                let ghost head = all@;
                let ghost tail = rest@;
                all.append(&mut rest);
                proof {
                    assert(shapes(all@) =~= shapes(head) + shapes(tail));
                    assert(shapes(head) =~= seq![
                        StepShape::ContainerMknod(dev_path, old(self).emit.major, old(self).emit.minor),
                    ]);
                }
                EmitStep::Run(all)
            },
            other => other,
        }
    }
}

/// The job run when a session is released with its device still created.
pub type RemoveFromContainerJob = RemoveDeviceJob;

/// The job that creates the node of a new device in its container.
pub type MknodDeviceInContainerJob = MknodDeviceJob;

/// The job that announces a new device in its container.
pub type EmitUdevEventInContainerJob = EmitUdevEventJob;

/// Any job the dispatcher runs.
#[derive(Debug)]
pub enum Job {
    MknodDevice(MknodDeviceJob),
    EmitUdevEvent(EmitUdevEventJob),
    RemoveDevice(RemoveDeviceJob),
    MonitorUdev(MonitorBackgroundLoop),
}

pub open spec fn job_target_of(j: Job) -> JobTarget {
    match j {
        Job::MknodDevice(m) => m.target,
        Job::EmitUdevEvent(e) => e.target,
        Job::RemoveDevice(r) => r.target,
        Job::MonitorUdev(_) => JobTarget::BackgroundLoop,
    }
}

/// Cleanup-class jobs must run even when the dispatcher shuts down.
pub open spec fn survives_cancellation(j: Job) -> bool {
    j is RemoveDevice
}

impl Job {
    /// A description for logs.
    pub fn desc(&self) -> (r: &'static str) {
        match self {
            Job::MknodDevice(_) => "mknod input device in container",
            Job::EmitUdevEvent(_) => "emit udev event into container",
            Job::RemoveDevice(_) => "remove input device from container",
            Job::MonitorUdev(_) => "monitor udev events",
        }
    }

    /// Where the job runs.
    pub fn job_target(&self) -> (r: JobTarget)
        ensures
            r == job_target_of(*self),
    {
        match self {
            Job::MknodDevice(m) => copy_target(&m.target),
            Job::EmitUdevEvent(e) => copy_target(&e.target),
            Job::RemoveDevice(r) => copy_target(&r.target),
            Job::MonitorUdev(_) => JobTarget::BackgroundLoop,
        }
    }

    /// Whether the job still runs after the dispatcher was asked to stop.
    pub fn execute_after_cancellation(&self) -> (r: bool)
        ensures
            r == survives_cancellation(*self),
    {
        match self {
            Job::RemoveDevice(_) => true,
            _ => false,
        }
    }
}

/// A copy of a target.
pub fn copy_target(t: &JobTarget) -> (r: JobTarget)
    ensures
        r == *t,
{
    match t {
        JobTarget::Host => JobTarget::Host,
        JobTarget::BackgroundLoop => JobTarget::BackgroundLoop,
        JobTarget::Container(p) => JobTarget::Container(p.duplicate()),
    }
}

/// The pending jobs (each with a value the caller keeps beside it) that a
/// shutdown must still run, in their order.
pub fn drain_on_shutdown<T>(pending: Vec<(Job, T)>) -> (r: Vec<(Job, T)>)
    ensures
        r@ == pending@.filter(|p: (Job, T)| survives_cancellation(p.0)),
{
    let ghost all = pending@;
    let ghost f = |p: (Job, T)| survives_cancellation(p.0);
    let mut rest = pending;
    let mut kept: Vec<(Job, T)> = Vec::new();
    let ghost mut i: int = 0;
    proof {
        reveal(Seq::filter);
        assert(all.subrange(0, 0) =~= Seq::<(Job, T)>::empty());
        assert(all.subrange(0, all.len() as int) =~= all);
    }
    while rest.len() > 0
        invariant
            0 <= i <= all.len(),
            f == (|p: (Job, T)| survives_cancellation(p.0)),
            rest@ == all.subrange(i, all.len() as int),
            kept@ == all.subrange(0, i).filter(f),
        decreases rest@.len(),
    {
        let p = rest.remove(0);
        proof {
            reveal(Seq::filter);
            assert(p == all[i]);
            assert(all.subrange(0, i + 1).drop_last() =~= all.subrange(0, i));
            assert(rest@ =~= all.subrange(i + 1, all.len() as int));
        }
        if p.0.execute_after_cancellation() {
            kept.push(p);
        }
        proof {
            i = i + 1;
        }
    }
    proof {
        assert(all.subrange(0, i) =~= all);
    }
    kept
}

} // verus!

verus! {

/// A shutdown keeps every pending removal job.
pub proof fn lemma_drain_keeps_removals<T>(pending: Seq<(Job, T)>, i: int)
    requires
        0 <= i < pending.len(),
        pending[i].0 is RemoveDevice,
    ensures
        pending.filter(|p: (Job, T)| survives_cancellation(p.0)).contains(pending[i]),
{
    let f = |p: (Job, T)| survives_cancellation(p.0);
    assert(pending.contains(pending[i]));
    pending.lemma_filter_contains_rev(f, pending[i]);
}

} // verus!
