//! Mediation of a virtual uinput device for processes in containers: the
//! event codec, the per-session device policy, the ioctl codec, the udev
//! event store and the rules that decide which jobs run inside a container.

pub mod bytes;
pub mod input_event;
pub mod text;
pub mod config;
pub mod device_policy;
pub mod ioctl;
pub mod udev_data;
pub mod namespace;
pub mod event_store;
pub mod monitor;
pub mod netlink;
pub mod jobs;
pub mod session;
pub mod registry;
pub mod base64_text;
