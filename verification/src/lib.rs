//! Device-session engine for an ADB desktop companion.
//!
//! The crate holds the logic of the engine: typed `adb` command
//! construction, parsing of the tool's output, the scrcpy v2.7
//! mirroring protocol (H.264 NAL extraction, parameter-set caching,
//! viewer synchronisation, control-message encoding), the device
//! tracker's change detection, logcat batching, and the session
//! registry.  Everything that talks to the operating system — spawning
//! `adb`, sockets, timers — lives outside, hands the engine plain
//! values and receives plain values back.

pub mod adb;
pub mod agent;
pub mod apk;
pub mod capture;
pub mod command;
pub mod control;
pub mod devices;
pub mod encode;
pub mod error;
pub mod files;
pub mod json;
pub mod logcat;
pub mod nal;
pub mod num;
pub mod props;
pub mod requirements;
pub mod runner;
pub mod scrcpy;
pub mod shell;
pub mod text;
pub mod tracker;
pub mod wireless;
