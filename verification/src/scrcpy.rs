//! The scrcpy session manager: server start-up sequence, session
//! registry, frame fan-out and viewer synchronisation.
//!
//! The engine drives a scrcpy v2.7 server pushed onto the device.
//! All sockets and child processes live with the embedder; this
//! module owns every decision: the exact command lines, the ordered
//! start-up sequence with its bounded connect retries, the NAL
//! fan-out, the cached parameter sets, and the teardown plan.

use vstd::prelude::*;
use vstd::string::StringExecFns;

use crate::error::{AppError, AppErrorV};
use crate::logcat::{sanitize_id_spec, sanitize_device_id};
use crate::encode::{b64_encode, base64_of};
use crate::nal::{CacheV, ParamSetCache, sync_burst_spec};
use crate::num::{dec_spec, dec_signed_spec, u64_dec, i64_dec};
use crate::text::{chars_of, string_of};

verus! {

/// The default forwarded host TCP port.
pub const SCRCPY_VIDEO_PORT: u16 = 27183;

/// Connection attempts to the freshly spawned server's video socket.
pub const VIDEO_CONNECT_ATTEMPTS: u8 = 10;

/// Delay before each video connect attempt, in milliseconds.
pub const VIDEO_CONNECT_DELAY_MS: u64 = 500;

/// Connection attempts to the control socket.
pub const CONTROL_CONNECT_ATTEMPTS: u8 = 5;

/// Delay after a failed control connect attempt, in milliseconds.
pub const CONTROL_CONNECT_DELAY_MS: u64 = 200;

/// Mathematical image of a [`ScrcpyConfig`].
pub ghost struct ScrcpyConfigV {
    pub max_size: u32,
    pub bit_rate: u32,
    pub max_fps: u8,
    pub lock_video_orientation: i8,
    pub tunnel_forward: bool,
    pub send_frame_meta: bool,
    pub control: bool,
    pub display_id: u32,
    pub show_touches: bool,
    pub stay_awake: bool,
    pub power_off_on_close: bool,
    pub cleanup: bool,
    pub power_on: bool,
}

/// Options handed to the on-device server.  The bit rate is kept for
/// callers but intentionally not passed on the command line; the
/// server's default is used.
#[derive(Debug, Clone)]
pub struct ScrcpyConfig {
    pub max_size: u32,
    pub bit_rate: u32,
    pub max_fps: u8,
    pub lock_video_orientation: i8,
    pub tunnel_forward: bool,
    pub send_frame_meta: bool,
    pub control: bool,
    pub display_id: u32,
    pub show_touches: bool,
    pub stay_awake: bool,
    pub power_off_on_close: bool,
    pub cleanup: bool,
    pub power_on: bool,
}

impl View for ScrcpyConfig {
    type V = ScrcpyConfigV;

    open spec fn view(&self) -> ScrcpyConfigV {
        ScrcpyConfigV {
            max_size: self.max_size,
            bit_rate: self.bit_rate,
            max_fps: self.max_fps,
            lock_video_orientation: self.lock_video_orientation,
            tunnel_forward: self.tunnel_forward,
            send_frame_meta: self.send_frame_meta,
            control: self.control,
            display_id: self.display_id,
            show_touches: self.show_touches,
            stay_awake: self.stay_awake,
            power_off_on_close: self.power_off_on_close,
            cleanup: self.cleanup,
            power_on: self.power_on,
        }
    }
}

impl Default for ScrcpyConfig {
    /// The stock configuration: 512 px, 4 Mbps, 30 fps, free
    /// orientation, forward tunnel, no frame metadata, control on,
    /// main display, stay awake, clean up, power on.
    fn default() -> (r: Self)
        ensures
            r@ == (ScrcpyConfigV {
                max_size: 512u32,
                bit_rate: 4000000u32,
                max_fps: 30u8,
                lock_video_orientation: -1i8,
                tunnel_forward: true,
                send_frame_meta: false,
                control: true,
                display_id: 0u32,
                show_touches: false,
                stay_awake: true,
                power_off_on_close: false,
                cleanup: true,
                power_on: true,
            }),
    {
        ScrcpyConfig {
            max_size: 512,
            bit_rate: 4000000,
            max_fps: 30,
            lock_video_orientation: -1,
            tunnel_forward: true,
            send_frame_meta: false,
            control: true,
            display_id: 0,
            show_touches: false,
            stay_awake: true,
            power_off_on_close: false,
            cleanup: true,
            power_on: true,
        }
    }
}

pub open spec fn bool_str(b: bool) -> Seq<char> {
    if b {
        "true"@
    } else {
        "false"@
    }
}

fn append_bool(s: &mut String, b: bool)
    ensures
        final(s)@ == old(s)@ + bool_str(b),
{
    if b {
        s.append("true");
    } else {
        s.append("false");
    }
}

fn append_u64(s: &mut String, x: u64)
    ensures
        final(s)@ == old(s)@ + dec_spec(x as int),
{
    let d = u64_dec(x);
    let ds = string_of(d.as_slice());
    s.append(ds.as_str());
}

fn append_i64(s: &mut String, x: i64)
    ensures
        final(s)@ == old(s)@ + dec_signed_spec(x as int),
{
    let d = i64_dec(x);
    let ds = string_of(d.as_slice());
    s.append(ds.as_str());
}

/// The server invocation line, exactly as handed to `adb shell`: the
/// class path, `app_process`, the server class, the client version
/// as first positional token, then the `key=value` options.  The
/// `video_bit_rate` option is deliberately absent.
pub open spec fn server_args_spec(c: ScrcpyConfigV, scid: Seq<char>) -> Seq<char> {
    "CLASSPATH=/data/local/tmp/scrcpy-server.jar app_process / com.genymobile.scrcpy.Server 2.7 scid="@
        + scid + " log_level=verbose max_size="@ + dec_spec(c.max_size as int) + " max_fps="@
        + dec_spec(c.max_fps as int) + " lock_video_orientation="@ + dec_signed_spec(
        c.lock_video_orientation as int,
    ) + " tunnel_forward="@ + bool_str(c.tunnel_forward) + " send_frame_meta="@ + bool_str(
        c.send_frame_meta,
    ) + " control=true display_id="@ + dec_spec(c.display_id as int) + " show_touches="@
        + bool_str(c.show_touches) + " stay_awake="@ + bool_str(c.stay_awake)
        + " power_off_on_close="@ + bool_str(c.power_off_on_close) + " cleanup="@ + bool_str(
        c.cleanup,
    ) + " power_on="@ + bool_str(c.power_on) + " audio=false video=true"@
}

/// Build the server invocation line.
pub fn server_args_string(config: &ScrcpyConfig, scid: &str) -> (r: String)
    ensures
        r@ == server_args_spec(config@, scid@),
{
    let mut s = String::from_str(
        "CLASSPATH=/data/local/tmp/scrcpy-server.jar app_process / com.genymobile.scrcpy.Server 2.7 scid=",
    );
    s.append(scid);
    s.append(" log_level=verbose max_size=");
    append_u64(&mut s, config.max_size as u64);
    s.append(" max_fps=");
    append_u64(&mut s, config.max_fps as u64);
    s.append(" lock_video_orientation=");
    append_i64(&mut s, config.lock_video_orientation as i64);
    s.append(" tunnel_forward=");
    append_bool(&mut s, config.tunnel_forward);
    s.append(" send_frame_meta=");
    append_bool(&mut s, config.send_frame_meta);
    s.append(" control=true display_id=");
    append_u64(&mut s, config.display_id as u64);
    s.append(" show_touches=");
    append_bool(&mut s, config.show_touches);
    s.append(" stay_awake=");
    append_bool(&mut s, config.stay_awake);
    s.append(" power_off_on_close=");
    append_bool(&mut s, config.power_off_on_close);
    s.append(" cleanup=");
    append_bool(&mut s, config.cleanup);
    s.append(" power_on=");
    append_bool(&mut s, config.power_on);
    s.append(" audio=false video=true");
    proof {
        assert(s@ =~= server_args_spec(config@, scid@));
    }
    s
}

/// The abstract socket name the device side listens on.
pub fn socket_name(scid: &str) -> (r: String)
    ensures
        r@ == "localabstract:scrcpy_"@ + scid@,
{
    let mut s = String::from_str("localabstract:scrcpy_");
    s.append(scid);
    s
}

/// The `tcp:<port>` forward spec for the host side.
pub fn tcp_spec_string(port: u16) -> (r: String)
    ensures
        r@ == "tcp:"@ + dec_spec(port as int),
{
    let mut s = String::from_str("tcp:");
    append_u64(&mut s, port as u64);
    s
}

// ---------------------------------------------------------------------------
// the ordered start-up sequence
// ---------------------------------------------------------------------------

/// Where the start-up currently stands.  Connection phases carry the
/// number of attempts already failed.
#[derive(Debug, Clone, PartialEq)]
pub enum StartupPhase {
    /// Kill any prior server instance on the device.
    KillPrior,
    /// Push the server JAR.
    PushServer,
    /// Forward the TCP port to the abstract socket.
    ForwardPort,
    /// Spawn the server through `adb shell`.
    SpawnServer,
    /// Let the server come up before connecting.
    AwaitStartup,
    /// Connect the video socket and read the dummy byte.
    ConnectVideo { failed: u8 },
    /// Connect the control socket.
    ConnectControl { failed: u8 },
    /// Read the 64-byte device-name block.
    ReadDeviceName,
    /// Read the 12-byte codec header.
    ReadCodecHeader,
    /// The session streams.
    Streaming,
    /// The attempt failed; no further action.
    Failed,
}

/// What the embedder must do next for a given phase.
#[derive(Debug, Clone, PartialEq)]
pub enum StartupAction {
    /// Run the kill-prior command; its outcome is ignored.
    RunKillPrior,
    /// Push the server JAR.
    RunPush,
    /// Issue the forward command.
    RunForward,
    /// Spawn the server with the built invocation line.
    RunSpawn,
    /// Sleep this many milliseconds, always succeeding.
    SleepMs(u64),
    /// Sleep the connect delay, try the video socket, read one dummy
    /// byte.
    TryConnectVideo(u64),
    /// Try the control socket once.
    TryConnectControl,
    /// Read exactly 64 bytes: the NUL-padded device name.
    ReadBytes(u8),
    /// Nothing: the start-up has finished or failed.
    Done,
}

/// The start-up state machine.  Its transitions encode the ordered
/// sequence of the protocol: kill, push, forward, spawn, wait one
/// second, connect video (up to ten attempts, half a second apart),
/// connect control (up to five attempts), read the 64-byte name, the
/// 12-byte header, then stream.  Every failure outside the connect
/// loops is fatal.
pub struct ScrcpyStartup {
    pub phase: StartupPhase,
}

/// The transition function: the next phase after a step's outcome,
/// and the error (if any) the attempt fails with.
pub open spec fn startup_next(phase: StartupPhase, ok: bool) -> (StartupPhase, Option<
    AppErrorV,
>) {
    match phase {
        StartupPhase::KillPrior => (StartupPhase::PushServer, None),
        StartupPhase::PushServer => if ok {
            (StartupPhase::ForwardPort, None)
        } else {
            (
                StartupPhase::Failed,
                Some(AppErrorV { code: "PUSH_FAILED"@, message: "Push failed"@, details: None }),
            )
        },
        StartupPhase::ForwardPort => if ok {
            (StartupPhase::SpawnServer, None)
        } else {
            (
                StartupPhase::Failed,
                Some(
                    AppErrorV {
                        code: "FORWARD_FAILED"@,
                        message: "Forward failed"@,
                        details: None,
                    },
                ),
            )
        },
        StartupPhase::SpawnServer => if ok {
            (StartupPhase::AwaitStartup, None)
        } else {
            (
                StartupPhase::Failed,
                Some(
                    AppErrorV {
                        code: "SERVER_START_FAILED"@,
                        message: "Failed to start"@,
                        details: None,
                    },
                ),
            )
        },
        StartupPhase::AwaitStartup => (StartupPhase::ConnectVideo { failed: 0 }, None),
        StartupPhase::ConnectVideo { failed } => if ok {
            (StartupPhase::ConnectControl { failed: 0 }, None)
        } else if failed + 1 < VIDEO_CONNECT_ATTEMPTS {
            (StartupPhase::ConnectVideo { failed: (failed + 1) as u8 }, None)
        } else {
            (
                StartupPhase::Failed,
                Some(
                    AppErrorV {
                        code: "SOCKET_ERROR"@,
                        message: "Failed to connect video after 10 attempts"@,
                        details: None,
                    },
                ),
            )
        },
        StartupPhase::ConnectControl { failed } => if ok {
            (StartupPhase::ReadDeviceName, None)
        } else if failed + 1 < CONTROL_CONNECT_ATTEMPTS {
            (StartupPhase::ConnectControl { failed: (failed + 1) as u8 }, None)
        } else {
            (
                StartupPhase::Failed,
                Some(
                    AppErrorV {
                        code: "CONTROL_SOCKET_ERROR"@,
                        message: "Failed to connect control socket"@,
                        details: None,
                    },
                ),
            )
        },
        StartupPhase::ReadDeviceName => if ok {
            (StartupPhase::ReadCodecHeader, None)
        } else {
            (
                StartupPhase::Failed,
                Some(
                    AppErrorV {
                        code: "SOCKET_ERROR"@,
                        message: "Failed to read device name"@,
                        details: None,
                    },
                ),
            )
        },
        StartupPhase::ReadCodecHeader => if ok {
            (StartupPhase::Streaming, None)
        } else {
            (
                StartupPhase::Failed,
                Some(
                    AppErrorV {
                        code: "SOCKET_ERROR"@,
                        message: "Failed to read codec header"@,
                        details: None,
                    },
                ),
            )
        },
        StartupPhase::Streaming => (StartupPhase::Streaming, None),
        StartupPhase::Failed => (StartupPhase::Failed, None),
    }
}

impl ScrcpyStartup {
    /// A fresh start-up, beginning by killing prior instances.
    pub fn new() -> (r: Self)
        ensures
            r.phase == StartupPhase::KillPrior,
    {
        ScrcpyStartup { phase: StartupPhase::KillPrior }
    }

    /// What the embedder must do in the current phase.
    pub fn next_action(&self) -> (a: StartupAction)
        ensures
            a == (match self.phase {
                StartupPhase::KillPrior => StartupAction::RunKillPrior,
                StartupPhase::PushServer => StartupAction::RunPush,
                StartupPhase::ForwardPort => StartupAction::RunForward,
                StartupPhase::SpawnServer => StartupAction::RunSpawn,
                StartupPhase::AwaitStartup => StartupAction::SleepMs(1000u64),
                StartupPhase::ConnectVideo { .. } => StartupAction::TryConnectVideo(
                    VIDEO_CONNECT_DELAY_MS,
                ),
                StartupPhase::ConnectControl { .. } => StartupAction::TryConnectControl,
                StartupPhase::ReadDeviceName => StartupAction::ReadBytes(64u8),
                StartupPhase::ReadCodecHeader => StartupAction::ReadBytes(12u8),
                StartupPhase::Streaming => StartupAction::Done,
                StartupPhase::Failed => StartupAction::Done,
            }),
    {
        match self.phase {
            StartupPhase::KillPrior => StartupAction::RunKillPrior,
            StartupPhase::PushServer => StartupAction::RunPush,
            StartupPhase::ForwardPort => StartupAction::RunForward,
            StartupPhase::SpawnServer => StartupAction::RunSpawn,
            StartupPhase::AwaitStartup => StartupAction::SleepMs(1000),
            StartupPhase::ConnectVideo { .. } => StartupAction::TryConnectVideo(
                VIDEO_CONNECT_DELAY_MS,
            ),
            StartupPhase::ConnectControl { .. } => StartupAction::TryConnectControl,
            StartupPhase::ReadDeviceName => StartupAction::ReadBytes(64),
            StartupPhase::ReadCodecHeader => StartupAction::ReadBytes(12),
            StartupPhase::Streaming => StartupAction::Done,
            StartupPhase::Failed => StartupAction::Done,
        }
    }

    /// Take in the outcome of the current phase's action and move to
    /// the next phase, surfacing the fatal error if the start-up is
    /// over.
    pub fn advance(&mut self, ok: bool) -> (r: Option<AppError>)
        ensures
            final(self).phase == startup_next(old(self).phase, ok).0,
            (match (r, startup_next(old(self).phase, ok).1) {
                (Some(e), Some(ev)) => e@ == ev,
                (None, None) => true,
                _ => false,
            }),
    {
        let (next, err) = match &self.phase {
            StartupPhase::KillPrior => (StartupPhase::PushServer, None),
            StartupPhase::PushServer => if ok {
                (StartupPhase::ForwardPort, None)
            } else {
                (StartupPhase::Failed, Some(AppError::new("PUSH_FAILED", "Push failed")))
            },
            StartupPhase::ForwardPort => if ok {
                (StartupPhase::SpawnServer, None)
            } else {
                (StartupPhase::Failed, Some(AppError::new("FORWARD_FAILED", "Forward failed")))
            },
            StartupPhase::SpawnServer => if ok {
                (StartupPhase::AwaitStartup, None)
            } else {
                (
                    StartupPhase::Failed,
                    Some(AppError::new("SERVER_START_FAILED", "Failed to start")),
                )
            },
            StartupPhase::AwaitStartup => (StartupPhase::ConnectVideo { failed: 0 }, None),
            StartupPhase::ConnectVideo { failed } => {
                let f = *failed;
                if ok {
                    (StartupPhase::ConnectControl { failed: 0 }, None)
                } else if f < VIDEO_CONNECT_ATTEMPTS - 1 {
                    (StartupPhase::ConnectVideo { failed: f + 1 }, None)
                } else {
                    (
                        StartupPhase::Failed,
                        Some(
                            AppError::new(
                                "SOCKET_ERROR",
                                "Failed to connect video after 10 attempts",
                            ),
                        ),
                    )
                }
            },
            StartupPhase::ConnectControl { failed } => {
                let f = *failed;
                if ok {
                    (StartupPhase::ReadDeviceName, None)
                } else if f < CONTROL_CONNECT_ATTEMPTS - 1 {
                    (StartupPhase::ConnectControl { failed: f + 1 }, None)
                } else {
                    (
                        StartupPhase::Failed,
                        Some(
                            AppError::new(
                                "CONTROL_SOCKET_ERROR",
                                "Failed to connect control socket",
                            ),
                        ),
                    )
                }
            },
            StartupPhase::ReadDeviceName => if ok {
                (StartupPhase::ReadCodecHeader, None)
            } else {
                (
                    StartupPhase::Failed,
                    Some(AppError::new("SOCKET_ERROR", "Failed to read device name")),
                )
            },
            StartupPhase::ReadCodecHeader => if ok {
                (StartupPhase::Streaming, None)
            } else {
                (
                    StartupPhase::Failed,
                    Some(AppError::new("SOCKET_ERROR", "Failed to read codec header")),
                )
            },
            StartupPhase::Streaming => (StartupPhase::Streaming, None),
            StartupPhase::Failed => (StartupPhase::Failed, None),
        };
        self.phase = next;
        err
    }
}

/// The control socket is connected only after the video socket: no
/// run of transitions reaches `ConnectControl` without passing a
/// successful `ConnectVideo` step first.
pub proof fn lemma_video_before_control(phase: StartupPhase, ok: bool)
    requires
        startup_next(phase, ok).0 is ConnectControl,
    ensures
        phase is ConnectVideo && ok || phase is ConnectControl,
{
}

// ---------------------------------------------------------------------------
// event naming
// ---------------------------------------------------------------------------

/// The shared frame channel, `scrcpy-frame-<sanitized id>`; the id
/// is sanitized as every event name is, each non-alphanumeric
/// character becoming `_`.
pub fn frame_event_name(device_id: &str) -> (r: String)
    ensures
        r@ == "scrcpy-frame-"@ + sanitize_id_spec(device_id@),
{
    let mut s = String::from_str("scrcpy-frame-");
    let sanitized = sanitize_device_id(device_id);
    s.append(sanitized.as_str());
    s
}

/// The per-viewer sync channel,
/// `scrcpy-sync-<window label>-<sanitized id>`.
pub fn sync_event_name(window_label: &str, device_id: &str) -> (r: String)
    ensures
        r@ == "scrcpy-sync-"@ + window_label@ + "-"@ + sanitize_id_spec(device_id@),
{
    let mut s = String::from_str("scrcpy-sync-");
    s.append(window_label);
    s.append("-");
    let sanitized = sanitize_device_id(device_id);
    s.append(sanitized.as_str());
    proof {
        assert(s@ =~= "scrcpy-sync-"@ + window_label@ + "-"@ + sanitize_id_spec(device_id@));
    }
    s
}

/// Base64-encode extracted NAL frames for emission, keeping order.
pub fn encode_frames(frames: &Vec<Vec<u8>>) -> (r: Vec<String>)
    ensures
        r@.len() == frames@.len(),
        forall|i: int| 0 <= i < r@.len() ==> r.deep_view()[i] == base64_of(
            #[trigger] frames.deep_view()[i],
        ),
{
    let mut out: Vec<String> = Vec::new();
    let mut i: usize = 0;
    while i < frames.len()
        invariant
            0 <= i <= frames@.len(),
            out@.len() == i,
            forall|k: int| 0 <= k < i ==> out.deep_view()[k] == base64_of(
                #[trigger] frames.deep_view()[k],
            ),
        decreases frames@.len() - i,
    {
        let ghost prev = out.deep_view();
        let enc = b64_encode(frames[i].as_slice());
        let ghost ev = enc@;
        proof {
            assert(frames@[i as int]@ =~= frames.deep_view()[i as int]);
        }
        out.push(enc);
        proof {
            assert(out.deep_view() =~~= prev.push(ev));
        }
        i = i + 1;
    }
    out
}

// ---------------------------------------------------------------------------
// the session registry
// ---------------------------------------------------------------------------

/// Mathematical image of a [`ScrcpySession`].
pub ghost struct ScrcpySessionV {
    pub server_child: u64,
    pub streaming: bool,
    pub video_port: u16,
    pub control_port: u16,
    pub cache: CacheV,
}

/// One live mirroring session: the opaque handle of the on-device
/// server's `adb shell` child, the streaming flag, the forwarded
/// ports, and the parameter-set cache the video reader maintains.
pub struct ScrcpySession {
    pub server_child: u64,
    pub streaming: bool,
    pub video_port: u16,
    pub control_port: u16,
    pub cache: ParamSetCache,
}

impl View for ScrcpySession {
    type V = ScrcpySessionV;

    open spec fn view(&self) -> ScrcpySessionV {
        ScrcpySessionV {
            server_child: self.server_child,
            streaming: self.streaming,
            video_port: self.video_port,
            control_port: self.control_port,
            cache: self.cache@,
        }
    }
}

/// Status reported for a device.
#[derive(Debug, Clone)]
pub struct ScrcpyStatus {
    pub running: bool,
    pub device_id: Option<String>,
    pub port: Option<u16>,
    pub codec_info: Option<Vec<u8>>,
}

pub open spec fn reg_keys_unique(entries: Seq<(Seq<char>, ScrcpySessionV)>) -> bool {
    forall|i: int, j: int| 0 <= i < j < entries.len() ==> (#[trigger] entries[i]).0 != (
    #[trigger] entries[j]).0
}

pub open spec fn reg_has_key(entries: Seq<(Seq<char>, ScrcpySessionV)>, key: Seq<char>) -> bool {
    exists|i: int| 0 <= i < entries.len() && (#[trigger] entries[i]).0 == key
}

/// Process-wide map from device id to live scrcpy session.  Owned by
/// the engine; at most one session per device.
pub struct ScrcpyRegistry {
    pub sessions: Vec<(String, ScrcpySession)>,
}

impl ScrcpyRegistry {
    pub open spec fn entries(&self) -> Seq<(Seq<char>, ScrcpySessionV)> {
        Seq::new(self.sessions@.len(), |i: int| (self.sessions@[i].0@, self.sessions@[i].1@))
    }

    pub open spec fn wf(&self) -> bool {
        reg_keys_unique(self.entries())
    }

    /// Empty registry.
    pub fn new() -> (r: Self)
        ensures
            r.wf(),
            r.entries() == Seq::<(Seq<char>, ScrcpySessionV)>::empty(),
    {
        let r = ScrcpyRegistry { sessions: Vec::new() };
        proof {
            assert(r.entries() =~= Seq::<(Seq<char>, ScrcpySessionV)>::empty());
        }
        r
    }

    fn find_index(&self, device_id: &str) -> (r: Option<usize>)
        ensures
            match r {
                Some(i) => 0 <= i < self.entries().len() && self.entries()[i as int].0
                    == device_id@,
                None => !reg_has_key(self.entries(), device_id@),
            },
    {
        let mut i: usize = 0;
        while i < self.sessions.len()
            invariant
                0 <= i <= self.sessions@.len(),
                forall|k: int| 0 <= k < i ==> (#[trigger] self.entries()[k]).0 != device_id@,
            decreases self.sessions@.len() - i,
        {
            let dc = chars_of(device_id);
            let ec = chars_of(self.sessions[i].0.as_str());
            if crate::text::chars_eq(dc.as_slice(), ec.as_slice()) {
                assert(self.entries()[i as int].0 == device_id@);
                return Some(i);
            }
            assert(self.entries()[i as int].0 != device_id@);
            i = i + 1;
        }
        None
    }

    /// Register a fresh session for a device with none.
    pub fn insert_session(&mut self, device_id: &str, session: ScrcpySession)
        requires
            old(self).wf(),
            !reg_has_key(old(self).entries(), device_id@),
        ensures
            final(self).wf(),
            final(self).entries() == old(self).entries().push((device_id@, session@)),
    {
        let ghost sv = session@;
        self.sessions.push((String::from_str(device_id), session));
        proof {
            assert(self.entries() =~= old(self).entries().push((device_id@, sv)));
        }
    }

    /// Whether a session is registered for the device.
    pub fn has_session(&self, device_id: &str) -> (r: bool)
        ensures
            r == reg_has_key(self.entries(), device_id@),
    {
        match self.find_index(device_id) {
            Some(_) => true,
            None => false,
        }
    }

    /// The status surface: running with the forwarded port when a
    /// session exists, not running otherwise.
    pub fn get_status(&self, device_id: &str) -> (r: ScrcpyStatus)
        ensures
            reg_has_key(self.entries(), device_id@) ==> {
                &&& r.running
                &&& r.device_id matches Some(d) && d@ == device_id@
                &&& exists|i: int|
                    0 <= i < self.entries().len() && (#[trigger] self.entries()[i]).0 == device_id@
                        && r.port == Some(self.entries()[i].1.video_port)
                &&& r.codec_info is None
            },
            !reg_has_key(self.entries(), device_id@) ==> {
                &&& !r.running
                &&& r.device_id is None
                &&& r.port is None
                &&& r.codec_info is None
            },
    {
        match self.find_index(device_id) {
            Some(i) => ScrcpyStatus {
                running: true,
                device_id: Some(String::from_str(device_id)),
                port: Some(self.sessions[i].1.video_port),
                codec_info: None,
            },
            None => ScrcpyStatus { running: false, device_id: None, port: None, codec_info: None },
        }
    }

    /// Replace the registered cache with the video reader's current
    /// one (the reader is the single writer; viewers read from the
    /// registry).
    pub fn update_cache(&mut self, device_id: &str, cache: ParamSetCache)
        requires
            old(self).wf(),
        ensures
            final(self).wf(),
            final(self).entries().len() == old(self).entries().len(),
            forall|i: int| 0 <= i < old(self).entries().len() ==> {
                let oe = #[trigger] old(self).entries()[i];
                let ne = final(self).entries()[i];
                if oe.0 == device_id@ {
                    ne == (oe.0, ScrcpySessionV { cache: cache@, ..oe.1 })
                } else {
                    ne == oe
                }
            },
    {
        let idx = self.find_index(device_id);
        match idx {
            Some(i) => {
                let entry = self.sessions.remove(i);
                let (key, mut session) = entry;
                session.cache = cache;
                self.sessions.insert(i, (key, session));
                proof {
                    let oe = old(self).entries();
                    let ne = self.entries();
                    assert(forall|k: int| 0 <= k < oe.len() && k != i ==> #[trigger] ne[k]
                        == oe[k]);
                    assert(ne[i as int].0 == oe[i as int].0);
                    assert(ne[i as int].1 == (ScrcpySessionV { cache: cache@, ..oe[i as int].1 }));
                    assert forall|a: int, b: int| 0 <= a < b < ne.len() implies (
                    #[trigger] ne[a]).0 != (#[trigger] ne[b]).0 by {
                        assert(ne[a].0 == oe[a].0);
                        assert(ne[b].0 == oe[b].0);
                    }
                    assert forall|k: int| 0 <= k < oe.len() && oe[k].0 == device_id@ implies k
                        == i by {
                        if k != i {
                            assert(oe[k].0 != oe[i as int].0);
                        }
                    }
                }
            },
            None => {},
        }
    }

    /// The synchronisation burst for a new viewer: the sync channel
    /// name and the cached SPS, PPS and IDR (those present), base64
    /// encoded, in exactly that order with nothing in between.
    pub fn sync_session(&self, device_id: &str, window_label: &str) -> (r: Option<(
        String,
        Vec<String>,
    )>)
        ensures
            !reg_has_key(self.entries(), device_id@) ==> r is None,
            reg_has_key(self.entries(), device_id@) ==> (r matches Some(p) && {
                &&& p.0@ == "scrcpy-sync-"@ + window_label@ + "-"@ + sanitize_id_spec(
                    device_id@,
                )
                &&& exists|i: int|
                    0 <= i < self.entries().len() && (#[trigger] self.entries()[i]).0 == device_id@
                        && {
                        let burst = sync_burst_spec(self.entries()[i].1.cache);
                        &&& p.1@.len() == burst.len()
                        &&& forall|k: int| 0 <= k < burst.len() ==> p.1.deep_view()[k]
                            == base64_of(#[trigger] burst[k])
                    }
            }),
    {
        match self.find_index(device_id) {
            Some(i) => {
                let name = sync_event_name(window_label, device_id);
                let frames = self.sessions[i].1.cache.sync_frames();
                let encoded = encode_frames(&frames);
                proof {
                    assert(frames.deep_view() == sync_burst_spec(
                        self.entries()[i as int].1.cache));
                }
                Some((name, encoded))
            },
            None => None,
        }
    }

    /// The framed control message to write, when the device has a
    /// session: the one-byte type, then the payload.
    pub fn send_control_event(&self, device_id: &str, event_type: u8, data: &[u8]) -> (r: Option<
        Vec<u8>,
    >)
        ensures
            !reg_has_key(self.entries(), device_id@) ==> r is None,
            reg_has_key(self.entries(), device_id@) ==> (r matches Some(m) && m@ == seq![
                event_type,
            ] + data@),
    {
        if self.has_session(device_id) {
            let mut msg: Vec<u8> = Vec::new();
            msg.push(event_type);
            let mut i: usize = 0;
            while i < data.len()
                invariant
                    0 <= i <= data@.len(),
                    msg@ == seq![event_type] + data@.take(i as int),
                decreases data@.len() - i,
            {
                msg.push(data[i]);
                proof {
                    assert(msg@ =~= seq![event_type] + data@.take(i + 1 as int));
                }
                i = i + 1;
            }
            proof {
                assert(data@.take(data@.len() as int) =~= data@);
            }
            Some(msg)
        } else {
            None
        }
    }

    /// Tear a session down: remove it from the registry and hand the
    /// embedder the session with its streaming flag lowered, so the
    /// reader stops and the server child can be killed.
    pub fn stop_server(&mut self, device_id: &str) -> (r: Option<ScrcpySession>)
        requires
            old(self).wf(),
        ensures
            final(self).wf(),
            !reg_has_key(final(self).entries(), device_id@),
            !reg_has_key(old(self).entries(), device_id@) ==> r is None && final(self).entries()
                == old(self).entries(),
            reg_has_key(old(self).entries(), device_id@) ==> (r matches Some(s) && !s@.streaming
                && exists|i: int|
                0 <= i < old(self).entries().len() && (#[trigger] old(self).entries()[i]).0
                    == device_id@ && s@ == (ScrcpySessionV {
                    streaming: false,
                    ..old(self).entries()[i].1
                })),
    {
        match self.find_index(device_id) {
            Some(i) => {
                let (_, mut session) = self.sessions.remove(i);
                session.streaming = false;
                proof {
                    let oe = old(self).entries();
                    let ne = self.entries();
                    assert(ne =~= oe.remove(i as int));
                    assert forall|k: int| 0 <= k < ne.len() implies (#[trigger] ne[k]).0
                        != device_id@ by {
                        if k < i {
                            assert(ne[k] == oe[k]);
                        } else {
                            assert(ne[k] == oe[k + 1]);
                        }
                    }
                }
                Some(session)
            },
            None => None,
        }
    }

    /// Drain every session at shutdown, streaming flags lowered.
    pub fn drain_all(&mut self) -> (r: Vec<ScrcpySession>)
        ensures
            final(self).entries() == Seq::<(Seq<char>, ScrcpySessionV)>::empty(),
            r@.len() == old(self).entries().len(),
            forall|i: int| 0 <= i < r@.len() ==> (#[trigger] r@[i])@ == (ScrcpySessionV {
                streaming: false,
                ..old(self).entries()[i].1
            }),
    {
        let mut out: Vec<ScrcpySession> = Vec::new();
        loop
            invariant_except_break
                out@.len() + self.sessions@.len() == old(self).entries().len(),
                forall|i: int| 0 <= i < out@.len() ==> (#[trigger] out@[i])@ == (ScrcpySessionV {
                    streaming: false,
                    ..old(self).entries()[i].1
                }),
                forall|i: int| 0 <= i < self.sessions@.len() ==> #[trigger] self.entries()[i]
                    == old(self).entries()[out@.len() + i],
            ensures
                self.sessions@.len() == 0,
                out@.len() == old(self).entries().len(),
                forall|i: int| 0 <= i < out@.len() ==> (#[trigger] out@[i])@ == (ScrcpySessionV {
                    streaming: false,
                    ..old(self).entries()[i].1
                }),
            decreases self.sessions@.len(),
        {
            if self.sessions.len() == 0 {
                break;
            }
            let ghost n_out = out@.len() as int;
            let ghost before = self.entries();
            let ghost prev_sessions = self.sessions@;
            let (_, mut session) = self.sessions.remove(0);
            proof {
                assert(session@ == before[0].1);
                assert forall|k: int| 0 <= k < self.sessions@.len() implies
                    #[trigger] self.entries()[k] == before[k + 1] by {
                    assert(self.sessions@[k] == prev_sessions.remove(0)[k]);
                    assert(prev_sessions.remove(0)[k] == prev_sessions[k + 1]);
                }
            }
            session.streaming = false;
            let ghost sv = session@;
            out.push(session);
            proof {
                assert(sv == (ScrcpySessionV { streaming: false, ..before[0].1 }));
                assert(before[0] == old(self).entries()[n_out]);
                assert(out@[n_out]@ == (ScrcpySessionV {
                    streaming: false,
                    ..old(self).entries()[n_out].1
                }));
                assert forall|k: int| 0 <= k < self.sessions@.len() implies
                    #[trigger] self.entries()[k] == old(self).entries()[out@.len() + k] by {
                    assert(self.entries()[k] == before[k + 1]);
                    assert(before[k + 1] == old(self).entries()[n_out + 1 + k]);
                }
            }
        }
        proof {
            assert(self.entries() =~= Seq::<(Seq<char>, ScrcpySessionV)>::empty());
        }
        out
    }
}

/// The deprecated single-frame read: event streaming replaced it.
pub fn read_video_frame(device_id: &str) -> (r: Result<Vec<u8>, AppError>)
    ensures
        r matches Err(e) && e@.code == "DEPRECATED"@,
{
    let _ = device_id;
    Err(AppError::new("DEPRECATED", "Use event-based streaming"))
}

// ---------------------------------------------------------------------------
// request builders for the start-up and teardown commands
// ---------------------------------------------------------------------------

/// `adb -s <id> shell pkill -f scrcpy`
pub fn kill_prior_args(device_id: &str) -> (r: Vec<String>)
    ensures
        r.deep_view() == seq!["-s"@, device_id@, "shell"@, "pkill -f scrcpy"@],
{
    let mut v: Vec<String> = Vec::new();
    v.push(String::from_str("-s"));
    v.push(String::from_str(device_id));
    v.push(String::from_str("shell"));
    v.push(String::from_str("pkill -f scrcpy"));
    proof {
        assert(v.deep_view() =~~= seq!["-s"@, device_id@, "shell"@, "pkill -f scrcpy"@]);
    }
    v
}

/// `adb -s <id> push <jar> /data/local/tmp/scrcpy-server.jar`
pub fn push_server_args(device_id: &str, local_jar: &str) -> (r: Vec<String>)
    ensures
        r.deep_view() == seq!["-s"@, device_id@, "push"@, local_jar@,
            "/data/local/tmp/scrcpy-server.jar"@],
{
    let mut v: Vec<String> = Vec::new();
    v.push(String::from_str("-s"));
    v.push(String::from_str(device_id));
    v.push(String::from_str("push"));
    v.push(String::from_str(local_jar));
    v.push(String::from_str("/data/local/tmp/scrcpy-server.jar"));
    proof {
        assert(v.deep_view() =~~= seq!["-s"@, device_id@, "push"@, local_jar@,
            "/data/local/tmp/scrcpy-server.jar"@]);
    }
    v
}

/// `adb -s <id> forward tcp:<port> localabstract:scrcpy_<scid>`
pub fn forward_args(device_id: &str, port: u16, scid: &str) -> (r: Vec<String>)
    ensures
        r.deep_view() == seq!["-s"@, device_id@, "forward"@, "tcp:"@ + dec_spec(port as int),
            "localabstract:scrcpy_"@ + scid@],
{
    let mut v: Vec<String> = Vec::new();
    v.push(String::from_str("-s"));
    v.push(String::from_str(device_id));
    v.push(String::from_str("forward"));
    v.push(tcp_spec_string(port));
    v.push(socket_name(scid));
    proof {
        assert(v.deep_view() =~~= seq!["-s"@, device_id@, "forward"@, "tcp:"@ + dec_spec(
            port as int), "localabstract:scrcpy_"@ + scid@]);
    }
    v
}

/// `adb -s <id> shell <server invocation>`
pub fn spawn_server_args(device_id: &str, config: &ScrcpyConfig, scid: &str) -> (r: Vec<String>)
    ensures
        r.deep_view() == seq!["-s"@, device_id@, "shell"@, server_args_spec(config@, scid@)],
{
    let mut v: Vec<String> = Vec::new();
    v.push(String::from_str("-s"));
    v.push(String::from_str(device_id));
    v.push(String::from_str("shell"));
    v.push(server_args_string(config, scid));
    proof {
        assert(v.deep_view() =~~= seq!["-s"@, device_id@, "shell"@, server_args_spec(
            config@, scid@)]);
    }
    v
}

/// `adb -s <id> forward --remove-all`
pub fn remove_forwards_args(device_id: &str) -> (r: Vec<String>)
    ensures
        r.deep_view() == seq!["-s"@, device_id@, "forward"@, "--remove-all"@],
{
    let mut v: Vec<String> = Vec::new();
    v.push(String::from_str("-s"));
    v.push(String::from_str(device_id));
    v.push(String::from_str("forward"));
    v.push(String::from_str("--remove-all"));
    proof {
        assert(v.deep_view() =~~= seq!["-s"@, device_id@, "forward"@, "--remove-all"@]);
    }
    v
}

/// `adb -s <id> shell pkill -f scrcpy`, word by word, for teardown.
pub fn pkill_args(device_id: &str) -> (r: Vec<String>)
    ensures
        r.deep_view() == seq!["-s"@, device_id@, "shell"@, "pkill"@, "-f"@, "scrcpy"@],
{
    let mut v: Vec<String> = Vec::new();
    v.push(String::from_str("-s"));
    v.push(String::from_str(device_id));
    v.push(String::from_str("shell"));
    v.push(String::from_str("pkill"));
    v.push(String::from_str("-f"));
    v.push(String::from_str("scrcpy"));
    proof {
        assert(v.deep_view() =~~= seq!["-s"@, device_id@, "shell"@, "pkill"@, "-f"@, "scrcpy"@]);
    }
    v
}

/// The outcome of writing one framed control message to the control
/// socket: a failed write surfaces the control-write error; the
/// missing-session case was already a silent no-op before any write.
pub fn control_write_result(write_ok: bool) -> (r: Result<(), AppError>)
    ensures
        write_ok ==> r is Ok,
        !write_ok ==> (r matches Err(e) && e@.code == "CONTROL_WRITE_FAILED"@ && e@.message
            == "Control write failed"@),
{
    if write_ok {
        Ok(())
    } else {
        Err(AppError::new("CONTROL_WRITE_FAILED", "Control write failed"))
    }
}

/// How one read on the video socket ended.
#[derive(Debug, Clone, PartialEq)]
pub enum VideoReadEvent {
    /// Bytes arrived.
    Data,
    /// The peer closed the stream (a zero-byte read).
    Closed,
    /// The receive deadline passed with nothing to read.
    TimedOut,
    /// Any other read error.
    Failed,
}

/// What the video reader does next.
#[derive(Debug, Clone, PartialEq)]
pub enum VideoLoopStep {
    /// Feed the bytes to the extractor, emit its frames, read again.
    ProcessAndContinue,
    /// Read again without new bytes.
    Continue,
    /// The session is over: leave the loop.
    Stop,
}

/// The video loop's policy: cancellation (the streaming flag
/// lowered) and the peer closing end the session, as does a hard
/// read error; a receive timeout does not — only a short read ends
/// the session.
pub fn video_read_step(streaming: bool, event: VideoReadEvent) -> (r: VideoLoopStep)
    ensures
        !streaming ==> r == VideoLoopStep::Stop,
        streaming ==> r == (match event {
            VideoReadEvent::Data => VideoLoopStep::ProcessAndContinue,
            VideoReadEvent::Closed => VideoLoopStep::Stop,
            VideoReadEvent::TimedOut => VideoLoopStep::Continue,
            VideoReadEvent::Failed => VideoLoopStep::Stop,
        }),
{
    if !streaming {
        return VideoLoopStep::Stop;
    }
    match event {
        VideoReadEvent::Data => VideoLoopStep::ProcessAndContinue,
        VideoReadEvent::Closed => VideoLoopStep::Stop,
        VideoReadEvent::TimedOut => VideoLoopStep::Continue,
        VideoReadEvent::Failed => VideoLoopStep::Stop,
    }
}

/// Where the server JAR is looked for, in order: the application's
/// resource directory (its `resources` child first, then itself),
/// the `resources` directory beside the executable, and the
/// workspace-relative fallback.
pub fn scrcpy_jar_candidates(resource_dir: Option<&str>, exe_dir: Option<&str>) -> (r: Vec<
    String,
>)
    ensures
        ({
            let from_resources = match resource_dir {
                Some(d) => seq![d@ + "/resources/scrcpy-server.jar"@, d@ + "/scrcpy-server.jar"@],
                None => Seq::<Seq<char>>::empty(),
            };
            let from_exe = match exe_dir {
                Some(d) => seq![d@ + "/resources/scrcpy-server.jar"@],
                None => Seq::<Seq<char>>::empty(),
            };
            r.deep_view() == from_resources + from_exe + seq!["resources/scrcpy-server.jar"@]
        }),
{
    let mut v: Vec<String> = Vec::new();
    if let Some(d) = resource_dir {
        let mut a = String::from_str(d);
        a.append("/resources/scrcpy-server.jar");
        v.push(a);
        let mut b = String::from_str(d);
        b.append("/scrcpy-server.jar");
        v.push(b);
    }
    if let Some(d) = exe_dir {
        let mut c = String::from_str(d);
        c.append("/resources/scrcpy-server.jar");
        v.push(c);
    }
    v.push(String::from_str("resources/scrcpy-server.jar"));
    proof {
        let from_resources = match resource_dir {
            Some(d) => seq![d@ + "/resources/scrcpy-server.jar"@, d@ + "/scrcpy-server.jar"@],
            None => Seq::<Seq<char>>::empty(),
        };
        let from_exe = match exe_dir {
            Some(d) => seq![d@ + "/resources/scrcpy-server.jar"@],
            None => Seq::<Seq<char>>::empty(),
        };
        assert(v.deep_view() =~~= from_resources + from_exe + seq![
            "resources/scrcpy-server.jar"@]);
    }
    v
}

} // verus!
