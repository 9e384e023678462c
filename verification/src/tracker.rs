//! Device tracker: diff-based change detection, debouncing, and the
//! heartbeat poll policy.
//!
//! The embedder owns the `adb track-devices` child and the timers; it
//! hands every fresh device list to [`DeviceTrackerState::observe`],
//! which decides whether a change event is emitted, and asks
//! [`heartbeat_interval_secs`] and [`debounce_allows`] for its
//! timing.

use vstd::prelude::*;
use crate::devices::{DeviceInfo, DeviceInfoV, DeviceStatus};

verus! {

/// Debounce delay between event-driven refreshes, in milliseconds.
pub const DEBOUNCE_MS: u64 = 500;

/// Payload of a device-change event: the full new list.
#[derive(Debug, Clone)]
pub struct DeviceChangedPayload {
    pub devices: Vec<DeviceInfo>,
}

/// The tracker's shared state: the last emitted snapshot and the
/// cancellation flag both workers observe.
pub struct DeviceTrackerState {
    pub last_devices: Vec<DeviceInfo>,
    pub running: bool,
}

/// What one observation does.  A failed listing changes nothing and
/// emits nothing.  A successful one makes its list the snapshot, and
/// an event is emitted exactly when the list differs structurally
/// from the previous snapshot.
pub open spec fn observe_spec(last: Seq<DeviceInfoV>, listing: Option<Seq<DeviceInfoV>>) -> (
    Seq<DeviceInfoV>,
    bool,
) {
    match listing {
        Some(devices) => (devices, last != devices),
        None => (last, false),
    }
}

fn status_eq(a: &DeviceStatus, b: &DeviceStatus) -> (r: bool)
    ensures
        r == (a@ == b@),
{
    match (a, b) {
        (DeviceStatus::Device, DeviceStatus::Device) => true,
        (DeviceStatus::Offline, DeviceStatus::Offline) => true,
        (DeviceStatus::Unauthorized, DeviceStatus::Unauthorized) => true,
        (DeviceStatus::Unknown(x), DeviceStatus::Unknown(y)) => *x == *y,
        _ => false,
    }
}

fn opt_string_eq(a: &Option<String>, b: &Option<String>) -> (r: bool)
    ensures
        r == ((match a {
            Some(x) => Some(x@),
            None => None::<Seq<char>>,
        }) == (match b {
            Some(y) => Some(y@),
            None => None::<Seq<char>>,
        })),
{
    match (a, b) {
        (Some(x), Some(y)) => *x == *y,
        (None, None) => true,
        _ => false,
    }
}

/// Structural equality of two device records, on all four fields.
pub fn device_info_eq(a: &DeviceInfo, b: &DeviceInfo) -> (r: bool)
    ensures
        r == (a@ == b@),
{
    let r = a.id == b.id && status_eq(&a.status, &b.status) && opt_string_eq(&a.model, &b.model)
        && opt_string_eq(&a.product, &b.product);
    proof {
        if r {
            assert(a@ == b@);
        }
    }
    r
}

/// Structural equality of two device lists.
pub fn device_list_eq(a: &Vec<DeviceInfo>, b: &Vec<DeviceInfo>) -> (r: bool)
    ensures
        r == (a.deep_view() == b.deep_view()),
{
    if a.len() != b.len() {
        assert(a.deep_view().len() != b.deep_view().len());
        return false;
    }
    let mut i: usize = 0;
    while i < a.len()
        invariant
            0 <= i <= a@.len(),
            a@.len() == b@.len(),
            forall|k: int| 0 <= k < i ==> a.deep_view()[k] == b.deep_view()[k],
        decreases a@.len() - i,
    {
        if !device_info_eq(&a[i], &b[i]) {
            assert(a.deep_view()[i as int] != b.deep_view()[i as int]);
            return false;
        }
        i = i + 1;
    }
    proof {
        assert(a.deep_view() =~~= b.deep_view());
    }
    true
}

fn clone_status(s: &DeviceStatus) -> (r: DeviceStatus)
    ensures
        r@ == s@,
{
    match s {
        DeviceStatus::Device => DeviceStatus::Device,
        DeviceStatus::Offline => DeviceStatus::Offline,
        DeviceStatus::Unauthorized => DeviceStatus::Unauthorized,
        DeviceStatus::Unknown(x) => DeviceStatus::Unknown(x.clone()),
    }
}

fn clone_opt_string(o: &Option<String>) -> (r: Option<String>)
    ensures
        (match (r, o) {
            (Some(x), Some(y)) => x@ == y@,
            (None, None) => true,
            _ => false,
        }),
{
    match o {
        Some(x) => Some(x.clone()),
        None => None,
    }
}

/// Field-wise copy of one device record.
pub fn clone_device_info(d: &DeviceInfo) -> (r: DeviceInfo)
    ensures
        r@ == d@,
{
    DeviceInfo {
        id: d.id.clone(),
        status: clone_status(&d.status),
        model: clone_opt_string(&d.model),
        product: clone_opt_string(&d.product),
    }
}

/// Field-wise copy of a device list.
pub fn clone_device_list(v: &Vec<DeviceInfo>) -> (r: Vec<DeviceInfo>)
    ensures
        r.deep_view() == v.deep_view(),
{
    let mut out: Vec<DeviceInfo> = Vec::new();
    let mut i: usize = 0;
    while i < v.len()
        invariant
            0 <= i <= v@.len(),
            out@.len() == i,
            forall|k: int| 0 <= k < i ==> out.deep_view()[k] == v.deep_view()[k],
        decreases v@.len() - i,
    {
        let ghost prev = out.deep_view();
        let d = clone_device_info(&v[i]);
        let ghost dv = d@;
        out.push(d);
        proof {
            assert(out.deep_view() =~~= prev.push(dv));
        }
        i = i + 1;
    }
    proof {
        assert(out.deep_view() =~~= v.deep_view());
    }
    out
}

impl DeviceTrackerState {
    /// Fresh tracker state: empty snapshot, running.
    pub fn new() -> (r: Self)
        ensures
            r.last_devices.deep_view() == Seq::<DeviceInfoV>::empty(),
            r.running,
    {
        let r = DeviceTrackerState { last_devices: Vec::new(), running: true };
        proof {
            assert(r.last_devices.deep_view() =~~= Seq::<DeviceInfoV>::empty());
        }
        r
    }

    /// Take in the outcome of one device listing.  A failed listing
    /// (`None`) emits nothing and leaves the snapshot alone.  A
    /// fresh list emits a change payload exactly when it differs
    /// from the last snapshot, and becomes the new snapshot.
    pub fn observe(&mut self, listing: Option<Vec<DeviceInfo>>) -> (r: Option<
        DeviceChangedPayload,
    >)
        ensures
            final(self).running == old(self).running,
            ({
                let lv = match listing {
                    Some(ref devices) => Some(devices.deep_view()),
                    None => None::<Seq<DeviceInfoV>>,
                };
                let (snapshot, emits) = observe_spec(old(self).last_devices.deep_view(), lv);
                &&& final(self).last_devices.deep_view() == snapshot
                &&& emits <==> (r matches Some(p) && p.devices.deep_view() == snapshot)
                &&& !emits ==> r is None
            }),
    {
        let devices = match listing {
            Some(devices) => devices,
            None => {
                return None;
            },
        };
        if device_list_eq(&self.last_devices, &devices) {
            self.last_devices = devices;
            None
        } else {
            let payload = DeviceChangedPayload { devices: clone_device_list(&devices) };
            self.last_devices = devices;
            Some(payload)
        }
    }

    /// Signal cancellation: both workers exit at their next check.
    pub fn cancel(&mut self)
        ensures
            !final(self).running,
            final(self).last_devices == old(self).last_devices,
    {
        self.running = false;
    }
}

/// Re-emitting an unchanged snapshot is silent: once the snapshot has
/// been taken in, observing the very same list again emits nothing;
/// neither does a failed listing.
pub proof fn lemma_no_reemit(last: Seq<DeviceInfoV>, devices: Seq<DeviceInfoV>)
    ensures
        !observe_spec(observe_spec(last, Some(devices)).0, Some(devices)).1,
        !observe_spec(last, None).1,
        observe_spec(last, None).0 == last,
{
}

/// Whether any device is in a transitional state.
pub open spec fn has_transitional(ds: Seq<DeviceInfoV>) -> bool {
    exists|i: int|
        0 <= i < ds.len() && ((#[trigger] ds[i]).status is Unauthorized || ds[i].status is Unknown)
}

/// The heartbeat poll interval: two seconds while any device is
/// unauthorized or unknown (authorization flips are not always
/// reflected by `track-devices`), ten seconds otherwise.
pub fn heartbeat_interval_secs(devices: &Vec<DeviceInfo>) -> (r: u64)
    ensures
        r == (if has_transitional(devices.deep_view()) {
            2u64
        } else {
            10u64
        }),
{
    let mut i: usize = 0;
    while i < devices.len()
        invariant
            0 <= i <= devices@.len(),
            forall|k: int| 0 <= k < i ==> !((#[trigger] devices.deep_view()[k]).status
                is Unauthorized || devices.deep_view()[k].status is Unknown),
        decreases devices@.len() - i,
    {
        if devices[i].status.is_transitional() {
            assert(devices.deep_view()[i as int].status == devices@[i as int].status@);
            return 2;
        }
        proof {
            assert(devices.deep_view()[i as int].status == devices@[i as int].status@);
        }
        i = i + 1;
    }
    10
}

/// Whether an event-driven refresh may run: at least the debounce
/// delay has passed since the last emit.
pub fn debounce_allows(now_ms: u64, last_emit_ms: u64) -> (r: bool)
    requires
        now_ms >= last_emit_ms,
    ensures
        r == (now_ms - last_emit_ms >= DEBOUNCE_MS),
{
    now_ms - last_emit_ms >= DEBOUNCE_MS
}

/// How long the event worker sleeps before respawning its child:
/// five seconds after a spawn failure, one second after end of
/// stream.
pub fn respawn_delay_secs(spawn_failed: bool) -> (r: u64)
    ensures
        r == (if spawn_failed {
            5u64
        } else {
            1u64
        }),
{
    if spawn_failed {
        5
    } else {
        1
    }
}

} // verus!
