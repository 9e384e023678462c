//! Device requirement checks: structured pass/fail results with
//! remediation hints, derived from already-fetched device state.

use vstd::prelude::*;
use vstd::string::StringExecFns;
use crate::adb::AdbExecutor;
use crate::devices::{DeviceInfo, DeviceInfoV};
use crate::runner::CommandResult;
use crate::text::{chars_of, chars_eq, contains_sub, contains_spec};

verus! {

/// Mathematical image of a [`RequirementCheck`].
pub ghost struct RequirementCheckV {
    pub id: Seq<char>,
    pub name: Seq<char>,
    pub description: Seq<char>,
    pub passed: bool,
    pub hint: Option<Seq<char>>,
}

/// One requirement check result; a failed check carries a concrete
/// remediation hint that callers display unchanged.
#[derive(Debug, Clone)]
pub struct RequirementCheck {
    pub id: String,
    pub name: String,
    pub description: String,
    pub passed: bool,
    pub hint: Option<String>,
}

impl View for RequirementCheck {
    type V = RequirementCheckV;

    open spec fn view(&self) -> RequirementCheckV {
        RequirementCheckV {
            id: self.id@,
            name: self.name@,
            description: self.description@,
            passed: self.passed,
            hint: match self.hint {
                Some(ref h) => Some(h@),
                None => None,
            },
        }
    }
}

impl RequirementCheck {
    /// A check that has not been decided yet: not passed, no hint.
    pub fn new(id: &str, name: &str, description: &str) -> (r: Self)
        ensures
            r@.id == id@,
            r@.name == name@,
            r@.description == description@,
            !r@.passed,
            r@.hint is None,
    {
        RequirementCheck {
            id: String::from_str(id),
            name: String::from_str(name),
            description: String::from_str(description),
            passed: false,
            hint: None,
        }
    }

    /// Mark the check as passed, clearing any hint.
    pub fn pass(self) -> (r: Self)
        ensures
            r@.id == self@.id,
            r@.name == self@.name,
            r@.description == self@.description,
            r@.passed,
            r@.hint is None,
    {
        RequirementCheck { passed: true, hint: None, ..self }
    }

    /// Mark the check as failed with a remediation hint.
    pub fn fail(self, hint: &str) -> (r: Self)
        ensures
            r@.id == self@.id,
            r@.name == self@.name,
            r@.description == self@.description,
            !r@.passed,
            r@.hint == Some(hint@),
    {
        RequirementCheck { passed: false, hint: Some(String::from_str(hint)), ..self }
    }
}

/// All checks for one device, with the combined verdict.
#[derive(Debug, Clone)]
pub struct DeviceRequirements {
    pub device_id: String,
    pub checks: Vec<RequirementCheck>,
    pub all_passed: bool,
}

impl DeviceRequirements {
    /// Bundle the checks; the verdict holds exactly when every
    /// check passed.
    pub fn new(device_id: &str, checks: Vec<RequirementCheck>) -> (r: Self)
        ensures
            r.device_id@ == device_id@,
            r.checks@ == checks@,
            r.all_passed == (forall|i: int|
                0 <= i < checks@.len() ==> (#[trigger] checks@[i])@.passed),
    {
        let mut all = true;
        let mut i: usize = 0;
        while i < checks.len()
            invariant
                0 <= i <= checks@.len(),
                all == (forall|k: int| 0 <= k < i ==> (#[trigger] checks@[k])@.passed),
            decreases checks@.len() - i,
        {
            if !checks[i].passed {
                all = false;
                proof {
                    assert(!(checks@[i as int])@.passed);
                }
            }
            i = i + 1;
        }
        DeviceRequirements { device_id: String::from_str(device_id), checks, all_passed: all }
    }
}

/// The first listed device with the given identifier.
pub open spec fn find_device(ds: Seq<DeviceInfoV>, id: Seq<char>) -> Option<DeviceInfoV>
    decreases ds.len(),
{
    if ds.len() == 0 {
        None
    } else if ds[0].id == id {
        Some(ds[0])
    } else {
        find_device(ds.skip(1), id)
    }
}

/// Whether the authorization check passes: the device list was
/// obtained, the device is in it, and its status is authorized.
pub open spec fn usb_check_passes(devices: Option<Seq<DeviceInfoV>>, id: Seq<char>) -> bool {
    match devices {
        Some(ds) => match find_device(ds, id) {
            Some(d) => d.status is Device,
            None => false,
        },
        None => false,
    }
}

/// Checks device requirements from already-fetched state.
pub struct RequirementChecker<'a> {
    pub executor: &'a AdbExecutor,
}

impl<'a> RequirementChecker<'a> {
    pub fn new(executor: &'a AdbExecutor) -> (r: Self)
        ensures
            r.executor.client.adb_path@ == executor.client.adb_path@,
    {
        RequirementChecker { executor }
    }

    fn find_device_exec(&self, devices: &Vec<DeviceInfo>, device_id: &str) -> (r: Option<
        DeviceInfo,
    >)
        ensures
            match (r, find_device(devices.deep_view(), device_id@)) {
                (Some(d), Some(dv)) => d@ == dv,
                (None, None) => true,
                _ => false,
            },
    {
        let mut i: usize = 0;
        proof {
            assert(devices.deep_view().skip(0) =~~= devices.deep_view());
        }
        while i < devices.len()
            invariant
                0 <= i <= devices@.len(),
                find_device(devices.deep_view(), device_id@) == find_device(
                    devices.deep_view().skip(i as int),
                    device_id@,
                ),
            decreases devices@.len() - i,
        {
            let idc = chars_of(devices[i].id.as_str());
            let qc = chars_of(device_id);
            let ghost rest = devices.deep_view().skip(i as int);
            proof {
                assert(rest[0] == devices.deep_view()[i as int]);
                assert(rest.skip(1) =~~= devices.deep_view().skip(i + 1));
                assert(devices@[i as int].id@ == devices.deep_view()[i as int].id);
            }
            if chars_eq(idc.as_slice(), qc.as_slice()) {
                return Some(crate::tracker::clone_device_info(&devices[i]));
            }
            i = i + 1;
        }
        proof {
            assert(devices.deep_view().skip(devices@.len() as int)
                =~~= Seq::<DeviceInfoV>::empty());
        }
        None
    }

    /// The base requirements: USB debugging authorization first;
    /// only when it holds, developer options and the install
    /// permission, decided from the two settings values.
    ///
    /// `devices` is the parsed device list, absent when listing
    /// failed; `dev_enabled` and `non_market` are the
    /// `development_settings_enabled` and `install_non_market_apps`
    /// settings, fetched only when the first check passed.
    pub fn check_device_requirements(
        &self,
        device_id: &str,
        devices: Option<&Vec<DeviceInfo>>,
        dev_enabled: Option<String>,
        non_market: Option<String>,
    ) -> (r: Vec<RequirementCheck>)
        ensures
            ({
                let dv = match devices {
                    Some(ds) => Some(ds.deep_view()),
                    None => None::<Seq<DeviceInfoV>>,
                };
                let first_passes = usb_check_passes(dv, device_id@);
                &&& r@.len() == (if first_passes {
                    3int
                } else {
                    1int
                })
                &&& r@[0]@.id == "usb_debugging"@
                &&& r@[0]@.passed == first_passes
                &&& r@[0]@.hint == (match dv {
                    Some(ds) => match find_device(ds, device_id@) {
                        Some(d) => if d.status is Device {
                            None
                        } else {
                            Some(
                                "Accept the USB debugging prompt on your device, or reconnect the USB cable"@,
                            )
                        },
                        None => Some("Device not found. Please reconnect."@),
                    },
                    None => Some("Unable to check device status"@),
                })
                &&& first_passes ==> {
                    let dev_on = (match dev_enabled {
                        Some(ref v) => Some(v@),
                        None => None::<Seq<char>>,
                    }) == Some("1"@);
                    let blocked = (match non_market {
                        Some(ref v) => Some(v@),
                        None => None::<Seq<char>>,
                    }) == Some("0"@);
                    &&& r@[1]@.id == "developer_options"@
                    &&& r@[1]@.passed == dev_on
                    &&& r@[1]@.hint == (if dev_on {
                        None
                    } else {
                        Some("Go to Settings > About Phone > Tap Build Number 7 times"@)
                    })
                    &&& r@[2]@.id == "unknown_sources"@
                    &&& r@[2]@.passed == !blocked
                    &&& r@[2]@.hint == (if blocked {
                        Some("Go to Settings > Security > Enable 'Unknown Sources'"@)
                    } else {
                        None
                    })
                }
            }),
    {
        let mut checks: Vec<RequirementCheck> = Vec::new();
        let usb_debug = RequirementCheck::new(
            "usb_debugging",
            "USB Debugging",
            "Device must be authorized for debugging",
        );
        let mut first_passed = false;
        match devices {
            Some(ds) => {
                match self.find_device_exec(ds, device_id) {
                    Some(d) => {
                        if d.status.is_authorized() {
                            checks.push(usb_debug.pass());
                            first_passed = true;
                        } else {
                            checks.push(
                                usb_debug.fail(
                                    "Accept the USB debugging prompt on your device, or reconnect the USB cable",
                                ),
                            );
                        }
                    },
                    None => {
                        checks.push(usb_debug.fail("Device not found. Please reconnect."));
                    },
                }
            },
            None => {
                checks.push(usb_debug.fail("Unable to check device status"));
            },
        }
        if first_passed {
            let dev_options = RequirementCheck::new(
                "developer_options",
                "Developer Options",
                "Developer Options must be enabled",
            );
            let dev_on = match dev_enabled {
                Some(ref v) => {
                    let vc = chars_of(v.as_str());
                    let one = chars_of("1");
                    chars_eq(vc.as_slice(), one.as_slice())
                },
                None => false,
            };
            if dev_on {
                checks.push(dev_options.pass());
            } else {
                checks.push(
                    dev_options.fail("Go to Settings > About Phone > Tap Build Number 7 times"),
                );
            }
            let unknown_sources = RequirementCheck::new(
                "unknown_sources",
                "Install Unknown Apps",
                "Permission to install apps from unknown sources",
            );
            let blocked = match non_market {
                Some(ref v) => {
                    let vc = chars_of(v.as_str());
                    let zero = chars_of("0");
                    chars_eq(vc.as_slice(), zero.as_slice())
                },
                None => false,
            };
            if blocked {
                checks.push(
                    unknown_sources.fail("Go to Settings > Security > Enable 'Unknown Sources'"),
                );
            } else {
                checks.push(unknown_sources.pass());
            }
        }
        checks
    }

    /// The advanced-action requirement, decided from a probe `input
    /// keyevent` run: a security exception means the secured
    /// debugging switch is off; any other error asks for the same
    /// switch or permission monitoring; a clean run passes; an
    /// unrunnable probe fails with the last hint.
    pub fn check_action_requirements(&self, probe: Option<&CommandResult>) -> (r: Vec<
        RequirementCheck,
    >)
        ensures
            r@.len() == 1,
            r@[0]@.id == "usb_debug_security"@,
            ({
                match probe {
                    Some(out) => {
                        let combined = out@.stdout + out@.stderr;
                        if contains_spec(combined, "INJECT_EVENTS"@) || contains_spec(
                            combined,
                            "SecurityException"@,
                        ) {
                            !r@[0]@.passed && r@[0]@.hint == Some(
                                "Enable 'USB debugging (Security settings)' in Developer Options"@,
                            )
                        } else if contains_spec(combined, "Exception"@) || contains_spec(
                            combined,
                            "error"@,
                        ) {
                            !r@[0]@.passed && r@[0]@.hint == Some(
                                "Enable 'USB debugging (Security settings)' or 'Disable permission monitoring'"@,
                            )
                        } else {
                            r@[0]@.passed
                        }
                    },
                    None => !r@[0]@.passed && r@[0]@.hint == Some(
                        "Unable to test input capability"@,
                    ),
                }
            }),
    {
        let mut checks: Vec<RequirementCheck> = Vec::new();
        let usb_security = RequirementCheck::new(
            "usb_debug_security",
            "USB Debugging (Security)",
            "Required for Input Text and some advanced actions",
        );
        match probe {
            Some(out) => {
                let mut combined = chars_of(out.stdout.as_str());
                let err_part = chars_of(out.stderr.as_str());
                let mut k: usize = 0;
                while k < err_part.len()
                    invariant
                        0 <= k <= err_part@.len(),
                        combined@ == out@.stdout + err_part@.take(k as int),
                        err_part@ == out@.stderr,
                    decreases err_part@.len() - k,
                {
                    combined.push(err_part[k]);
                    proof {
                        assert(combined@ =~= out@.stdout + err_part@.take(k + 1 as int));
                    }
                    k = k + 1;
                }
                proof {
                    assert(err_part@.take(err_part@.len() as int) =~= err_part@);
                }
                let inject = chars_of("INJECT_EVENTS");
                let sec_exc = chars_of("SecurityException");
                let exc = chars_of("Exception");
                let err_lit = chars_of("error");
                if contains_sub(combined.as_slice(), inject.as_slice()) || contains_sub(
                    combined.as_slice(),
                    sec_exc.as_slice(),
                ) {
                    checks.push(
                        usb_security.fail(
                            "Enable 'USB debugging (Security settings)' in Developer Options",
                        ),
                    );
                } else if contains_sub(combined.as_slice(), exc.as_slice()) || contains_sub(
                    combined.as_slice(),
                    err_lit.as_slice(),
                ) {
                    checks.push(
                        usb_security.fail(
                            "Enable 'USB debugging (Security settings)' or 'Disable permission monitoring'",
                        ),
                    );
                } else {
                    checks.push(usb_security.pass());
                }
            },
            None => {
                checks.push(usb_security.fail("Unable to test input capability"));
            },
        }
        checks
    }
}

} // verus!
