//! The ADB facade: the client's path handling, the executor's typed
//! operations, and device discovery.
//!
//! Every operation that runs `adb` comes in two halves: a request
//! builder (the argument list and the execution policy) and an
//! interpretation of the captured output.  The embedder runs the
//! request through the process runner and hands the result back.

use vstd::prelude::*;
use vstd::string::StringExecFns;
use crate::devices::{
    parse_devices_spec, parse_devices_output, friendly_model, friendly_model_spec, DeviceInfo,
};
use crate::error::{AdbError, AppError, adb_error_surfaced};
use crate::runner::{CommandResult, ExecutionConfig};
use crate::text::{chars_of, string_of, trim_chars, trim_spec, lines_of, lines_spec};

verus! {

/// The low-level client: it knows where `adb` lives.
pub struct AdbClient {
    pub adb_path: String,
}

/// Where the executable is taken from: a bundled copy found by the
/// embedder's probing, or the name `adb` resolved on the search path.
pub open spec fn discover_adb_spec(bundled: Option<Seq<char>>) -> Seq<char> {
    match bundled {
        Some(p) => p,
        None => "adb"@,
    }
}

impl AdbClient {
    /// Where a bundled `adb` is probed for, in order: the directory
    /// holding the application binary, its `binaries` sibling, its
    /// `resources` sibling, and the current working directory.  The
    /// embedder probes these for an existing file; with none found,
    /// [`AdbClient::discover_adb`] falls back to the name resolved
    /// on the system search path.
    pub fn bundled_adb_candidates(exe_dir: Option<&str>, exe_name: &str) -> (r: Vec<String>)
        ensures
            ({
                let beside = match exe_dir {
                    Some(d) => seq![d@ + "/"@ + exe_name@, d@ + "/binaries/"@ + exe_name@,
                        d@ + "/resources/"@ + exe_name@],
                    None => Seq::<Seq<char>>::empty(),
                };
                r.deep_view() == beside + seq![exe_name@]
            }),
    {
        let mut v: Vec<String> = Vec::new();
        if let Some(d) = exe_dir {
            let mut a = String::from_str(d);
            a.append("/");
            a.append(exe_name);
            v.push(a);
            let mut b = String::from_str(d);
            b.append("/binaries/");
            b.append(exe_name);
            v.push(b);
            let mut c = String::from_str(d);
            c.append("/resources/");
            c.append(exe_name);
            v.push(c);
        }
        v.push(String::from_str(exe_name));
        proof {
            let beside = match exe_dir {
                Some(d) => seq![d@ + "/"@ + exe_name@, d@ + "/binaries/"@ + exe_name@,
                    d@ + "/resources/"@ + exe_name@],
                None => Seq::<Seq<char>>::empty(),
            };
            assert(v.deep_view() =~~= beside + seq![exe_name@]);
        }
        v
    }

    /// Pick the `adb` path: the bundled copy when the embedder's
    /// probing found one, the plain search-path name otherwise.
    pub fn discover_adb(bundled: Option<String>) -> (r: String)
        ensures
            r@ == discover_adb_spec(
                match bundled {
                    Some(ref p) => Some(p@),
                    None => None,
                },
            ),
    {
        match bundled {
            Some(p) => p,
            None => String::from_str("adb"),
        }
    }
}

impl AdbClient {
    /// A client on the system-path executable; a bundled copy, if
    /// any, is injected through [`AdbClient::with_path`].
    pub fn new() -> (r: Self)
        ensures
            r.adb_path@ == "adb"@,
    {
        AdbClient { adb_path: String::from_str("adb") }
    }

    /// A client on a specific executable.
    pub fn with_path(path: &str) -> (r: Self)
        ensures
            r.adb_path@ == path@,
    {
        AdbClient { adb_path: String::from_str(path) }
    }

    /// The executable in use.
    pub fn adb_path(&self) -> (r: &String)
        ensures
            r@ == self.adb_path@,
    {
        &self.adb_path
    }
}

/// Trim a string, as `str::trim` does for ASCII whitespace.
pub fn trim_string(s: &str) -> (r: String)
    ensures
        r@ == trim_spec(s@),
{
    let cs = chars_of(s);
    let t = trim_chars(cs.as_slice());
    string_of(t.as_slice())
}

/// The executor: typed one-shot operations over the client.
pub struct AdbExecutor {
    pub client: AdbClient,
}

/// The version banner taken from `adb version` output: its first
/// line, or a placeholder when there is none.
pub open spec fn version_line_spec(stdout: Seq<char>) -> Seq<char> {
    if lines_spec(stdout).len() > 0 {
        lines_spec(stdout)[0]
    } else {
        "Unknown version"@
    }
}

/// A device property value: the trimmed output, absent when the
/// command failed or printed nothing.
pub open spec fn prop_value_spec(r: crate::runner::CommandResultV) -> Option<Seq<char>> {
    if r.success && trim_spec(r.stdout).len() > 0 {
        Some(trim_spec(r.stdout))
    } else {
        None
    }
}

/// A settings value: the trimmed output, absent when the command
/// failed or printed nothing or the literal `null`.
pub open spec fn setting_value_spec(r: crate::runner::CommandResultV) -> Option<Seq<char>> {
    if r.success && trim_spec(r.stdout).len() > 0 && trim_spec(r.stdout) != "null"@ {
        Some(trim_spec(r.stdout))
    } else {
        None
    }
}

impl AdbExecutor {
    /// An executor on the system-path executable.
    pub fn new() -> (r: Self)
        ensures
            r.client.adb_path@ == "adb"@,
    {
        AdbExecutor { client: AdbClient::new() }
    }

    /// An executor on a specific executable.
    pub fn with_path(path: &str) -> (r: Self)
        ensures
            r.client.adb_path@ == path@,
    {
        AdbExecutor { client: AdbClient::with_path(path) }
    }

    /// The executable in use.
    pub fn get_adb_path(&self) -> (r: &String)
        ensures
            r@ == self.client.adb_path@,
    {
        self.client.adb_path()
    }

    /// Whether a bundled copy is in use (anything but the plain
    /// search-path name).
    pub fn is_bundled(&self) -> (r: bool)
        ensures
            r == (self.client.adb_path@ != "adb"@),
    {
        let adb = chars_of("adb");
        let own = chars_of(self.client.adb_path.as_str());
        !crate::text::chars_eq(own.as_slice(), adb.as_slice())
    }

    /// Interpret `adb version` output: the first line of a
    /// successful run; a failed run means the executable is absent.
    pub fn check_available(&self, output: &CommandResult) -> (r: Result<String, AppError>)
        ensures
            output@.success ==> (r matches Ok(v) && v@ == version_line_spec(output@.stdout)),
            !output@.success ==> (r matches Err(e) && e@ == adb_error_surfaced(AdbError::NotFound)),
    {
        if output.success {
            let cs = chars_of(output.stdout.as_str());
            let ls = lines_of(cs.as_slice());
            if ls.len() > 0 {
                proof {
                    assert(ls@[0]@ =~= ls.deep_view()[0]);
                }
                Ok(string_of(ls[0].as_slice()))
            } else {
                Ok(String::from_str("Unknown version"))
            }
        } else {
            Err(AppError::from(AdbError::NotFound))
        }
    }

    /// Interpret `adb devices -l` output.
    pub fn list_devices(&self, output: &CommandResult) -> (r: Vec<DeviceInfo>)
        ensures
            r.deep_view() == parse_devices_spec(output@.stdout),
    {
        parse_devices_output(output.stdout.as_str())
    }

    /// Interpret a `getprop` run: the trimmed value on success, the
    /// device-not-found error otherwise.
    pub fn get_device_prop(&self, device_id: &str, output: &CommandResult) -> (r: Result<
        String,
        AppError,
    >)
        ensures
            output@.success ==> (r matches Ok(v) && v@ == trim_spec(output@.stdout)),
            !output@.success ==> (r matches Err(e) && e@ == (crate::error::AppErrorV {
                code: "DEVICE_NOT_FOUND"@,
                message: "Device not found or disconnected"@,
                details: Some(device_id@),
            })),
    {
        if output.success {
            Ok(trim_string(output.stdout.as_str()))
        } else {
            Err(AppError::from(AdbError::DeviceNotFound(String::from_str(device_id))))
        }
    }

    /// Interpret a `settings get` run: the value, with `null` and
    /// emptiness meaning absent.
    pub fn get_setting(&self, output: &CommandResult) -> (r: Option<String>)
        ensures
            match (r, setting_value_spec(output@)) {
                (Some(v), Some(sv)) => v@ == sv,
                (None, None) => true,
                _ => false,
            },
    {
        if !output.success {
            return None;
        }
        let value = trim_string(output.stdout.as_str());
        if value.as_str().is_empty() {
            return None;
        }
        let vc = chars_of(value.as_str());
        let null_lit = chars_of("null");
        if crate::text::chars_eq(vc.as_slice(), null_lit.as_slice()) {
            return None;
        }
        Some(value)
    }

    /// A server start or stop is successful exactly when its run
    /// was; the output itself carries nothing.
    pub fn server_command_done(&self, outcome: Result<CommandResult, AppError>) -> (r: Result<
        (),
        AppError,
    >)
        ensures
            outcome is Ok ==> r is Ok,
            (match (outcome, r) {
                (Err(e), Err(f)) => e@ == f@,
                (Err(_), Ok(_)) => false,
                _ => true,
            }),
    {
        match outcome {
            Ok(_) => Ok(()),
            Err(e) => Err(e),
        }
    }

    /// The execution policy for listing devices.
    pub fn list_devices_config(&self) -> (r: ExecutionConfig)
        ensures
            r@.timeout_ms == 5000 && r@.retries == 2 && r@.hidden,
    {
        ExecutionConfig { timeout_ms: 5000, retries: 2, hidden: true }
    }

    /// The execution policy for `adb version`.
    pub fn version_config(&self) -> (r: ExecutionConfig)
        ensures
            r@.timeout_ms == 3000 && r@.retries == 1 && r@.hidden,
    {
        ExecutionConfig { timeout_ms: 3000, retries: 1, hidden: true }
    }

    /// The execution policy for starting the server.
    pub fn start_server_config(&self) -> (r: ExecutionConfig)
        ensures
            r@.timeout_ms == 10000 && r@.retries == 1 && r@.hidden,
    {
        ExecutionConfig { timeout_ms: 10000, retries: 1, hidden: true }
    }

    /// The execution policy for killing the server.
    pub fn kill_server_config(&self) -> (r: ExecutionConfig)
        ensures
            r@.timeout_ms == 5000 && r@.retries == 1 && r@.hidden,
    {
        ExecutionConfig { timeout_ms: 5000, retries: 1, hidden: true }
    }

    /// The execution policy for installing an APK.
    pub fn install_config(&self) -> (r: ExecutionConfig)
        ensures
            r@.timeout_ms == 120000 && r@.retries == 0 && r@.hidden,
    {
        ExecutionConfig { timeout_ms: 120000, retries: 0, hidden: true }
    }

    /// Starting the server succeeds exactly when its run did.
    pub fn start_server(&self, outcome: Result<CommandResult, AppError>) -> (r: Result<
        (),
        AppError,
    >)
        ensures
            outcome is Ok ==> r is Ok,
            (match (outcome, r) {
                (Err(e), Err(f)) => e@ == f@,
                (Err(_), Ok(_)) => false,
                _ => true,
            }),
    {
        self.server_command_done(outcome)
    }

    /// Killing the server succeeds exactly when its run did.
    pub fn kill_server(&self, outcome: Result<CommandResult, AppError>) -> (r: Result<
        (),
        AppError,
    >)
        ensures
            outcome is Ok ==> r is Ok,
            (match (outcome, r) {
                (Err(e), Err(f)) => e@ == f@,
                (Err(_), Ok(_)) => false,
                _ => true,
            }),
    {
        self.server_command_done(outcome)
    }

    /// The ADB status surface: availability from the version run,
    /// alongside the path in use.
    pub fn check_adb_status(&self, version_output: &CommandResult) -> (r: AdbStatus)
        ensures
            r.adb_path matches Some(p) && p@ == self.client.adb_path@,
            r.is_bundled == (self.client.adb_path@ != "adb"@),
            version_output@.success ==> r.available && (r.version matches Some(v) && v@
                == version_line_spec(version_output@.stdout)) && r.error is None,
            !version_output@.success ==> !r.available && r.version is None && (
            r.error matches Some(e) && e@ == "ADB executable not found. Please ensure Android platform-tools are installed."@),
    {
        let is_bundled = self.is_bundled();
        let adb_path = Some(self.client.adb_path.clone());
        match self.check_available(version_output) {
            Ok(version) => AdbStatus {
                available: true,
                version: Some(version),
                error: None,
                adb_path,
                is_bundled,
            },
            Err(e) => AdbStatus {
                available: false,
                version: None,
                error: Some(e.message),
                adb_path,
                is_bundled,
            },
        }
    }
}

impl AdbExecutor {
    /// The base device requirements, decided from already-fetched
    /// state, exactly as the requirement checker decides them: the
    /// authorization check first, with its hint per failure cause;
    /// only when it passes, the developer-options and install
    /// permission checks from the two settings values.
    pub fn check_device_requirements(
        &self,
        device_id: &str,
        devices: Option<&Vec<DeviceInfo>>,
        dev_enabled: Option<String>,
        non_market: Option<String>,
    ) -> (r: Vec<crate::requirements::RequirementCheck>)
        ensures
            ({
                let dv = match devices {
                    Some(ds) => Some(ds.deep_view()),
                    None => None::<Seq<crate::devices::DeviceInfoV>>,
                };
                let first_passes = crate::requirements::usb_check_passes(dv, device_id@);
                &&& r@.len() == (if first_passes {
                    3int
                } else {
                    1int
                })
                &&& r@[0]@.id == "usb_debugging"@
                &&& r@[0]@.passed == first_passes
                &&& r@[0]@.hint == (match dv {
                    Some(ds) => match crate::requirements::find_device(ds, device_id@) {
                        Some(d) => if d.status is Device {
                            None
                        } else {
                            Some(
                                "Accept the USB debugging prompt on your device, or reconnect the USB cable"@,
                            )
                        },
                        None => Some("Device not found. Please reconnect."@),
                    },
                    None => Some("Unable to check device status"@),
                })
                &&& first_passes ==> {
                    let dev_on = (match dev_enabled {
                        Some(ref v) => Some(v@),
                        None => None::<Seq<char>>,
                    }) == Some("1"@);
                    let blocked = (match non_market {
                        Some(ref v) => Some(v@),
                        None => None::<Seq<char>>,
                    }) == Some("0"@);
                    &&& r@[1]@.id == "developer_options"@
                    &&& r@[1]@.passed == dev_on
                    &&& r@[1]@.hint == (if dev_on {
                        None
                    } else {
                        Some("Go to Settings > About Phone > Tap Build Number 7 times"@)
                    })
                    &&& r@[2]@.id == "unknown_sources"@
                    &&& r@[2]@.passed == !blocked
                    &&& r@[2]@.hint == (if blocked {
                        Some("Go to Settings > Security > Enable 'Unknown Sources'"@)
                    } else {
                        None
                    })
                }
            }),
    {
        let checker = crate::requirements::RequirementChecker::new(self);
        checker.check_device_requirements(device_id, devices, dev_enabled, non_market)
    }

    /// The advanced-action requirement, decided from the probe run,
    /// exactly as the requirement checker decides it.
    pub fn check_action_requirements(&self, probe: Option<&CommandResult>) -> (r: Vec<
        crate::requirements::RequirementCheck,
    >)
        ensures
            r@.len() == 1,
            r@[0]@.id == "usb_debug_security"@,
            ({
                match probe {
                    Some(out) => {
                        let combined = out@.stdout + out@.stderr;
                        if crate::text::contains_spec(combined, "INJECT_EVENTS"@)
                            || crate::text::contains_spec(combined, "SecurityException"@) {
                            !r@[0]@.passed && r@[0]@.hint == Some(
                                "Enable 'USB debugging (Security settings)' in Developer Options"@,
                            )
                        } else if crate::text::contains_spec(combined, "Exception"@)
                            || crate::text::contains_spec(combined, "error"@) {
                            !r@[0]@.passed && r@[0]@.hint == Some(
                                "Enable 'USB debugging (Security settings)' or 'Disable permission monitoring'"@,
                            )
                        } else {
                            r@[0]@.passed
                        }
                    },
                    None => !r@[0]@.passed && r@[0]@.hint == Some(
                        "Unable to test input capability"@,
                    ),
                }
            }),
    {
        let checker = crate::requirements::RequirementChecker::new(self);
        checker.check_action_requirements(probe)
    }

    /// Interpret an installation attempt, exactly as the installer
    /// does: a missing APK fails before anything runs; a runner
    /// failure is reported; a completed run succeeds exactly when
    /// the process exited successfully and printed `Success`, and
    /// otherwise carries the mapped message and error code.
    pub fn install_apk(
        &self,
        device_id: &str,
        apk_exists: bool,
        outcome: Option<&CommandResult>,
    ) -> (r: crate::apk::InstallResult)
        ensures
            r@.device_id == device_id@,
            !apk_exists ==> !r@.success && r@.message == "APK file not found"@,
            apk_exists ==> (match outcome {
                None => !r@.success && r@.message == "Failed to run adb"@,
                Some(out) => {
                    let combined = out@.stdout + out@.stderr;
                    if out.success && crate::text::contains_spec(combined, "Success"@) {
                        r@.success && r@.message == "APK installed successfully"@
                    } else {
                        !r@.success && r@.message == crate::apk::map_install_error_spec(
                            combined,
                        ).0 && r@.error_code == crate::apk::map_install_error_spec(combined).1
                    }
                },
            }),
    {
        let installer = crate::apk::ApkInstaller::new(self);
        installer.install(device_id, apk_exists, outcome)
    }
}

/// Availability report for the `adb` executable.
#[derive(Debug, Clone)]
pub struct AdbStatus {
    pub available: bool,
    pub version: Option<String>,
    pub error: Option<String>,
    pub adb_path: Option<String>,
    pub is_bundled: bool,
}

/// Discovery: parsing device lists and deriving friendly model names.
pub struct AdbDiscovery<'a> {
    pub client: &'a AdbClient,
}

impl<'a> AdbDiscovery<'a> {
    /// Discovery over the given client.
    pub fn new(client: &'a AdbClient) -> (r: Self)
        ensures
            r.client.adb_path@ == client.adb_path@,
    {
        AdbDiscovery { client }
    }

    /// Interpret `adb devices -l` output.
    pub fn list_devices(&self, output: &CommandResult) -> (r: Vec<DeviceInfo>)
        ensures
            r.deep_view() == parse_devices_spec(output@.stdout),
    {
        parse_devices_output(output.stdout.as_str())
    }

    /// Parse the raw text of `adb devices -l`.
    pub fn parse_devices_output(&self, output: &str) -> (r: Vec<DeviceInfo>)
        ensures
            r.deep_view() == parse_devices_spec(output@),
    {
        parse_devices_output(output)
    }

    /// The value of one fetched property, filtered as the discovery
    /// uses it.
    pub fn prop_value(&self, output: &CommandResult) -> (r: Option<String>)
        ensures
            match (r, prop_value_spec(output@)) {
                (Some(v), Some(sv)) => v@ == sv,
                (None, None) => true,
                _ => false,
            },
    {
        if !output.success {
            return None;
        }
        let value = trim_string(output.stdout.as_str());
        if value.as_str().is_empty() {
            return None;
        }
        Some(value)
    }

    /// Derive the friendly model string from the outputs of the
    /// `ro.product.marketname`, `ro.product.model` and
    /// `ro.product.brand` queries.
    pub fn get_device_model_info(
        &self,
        marketname_out: &CommandResult,
        model_out: &CommandResult,
        brand_out: &CommandResult,
    ) -> (r: Option<String>)
        ensures
            ({
                let expected = friendly_model_spec(
                    prop_value_spec(marketname_out@),
                    prop_value_spec(model_out@),
                    prop_value_spec(brand_out@),
                );
                match (r, expected) {
                    (Some(v), Some(sv)) => v@ == sv,
                    (None, None) => true,
                    _ => false,
                }
            }),
    {
        let marketname = self.prop_value(marketname_out);
        let model = self.prop_value(model_out);
        let brand = self.prop_value(brand_out);
        friendly_model(
            match marketname {
                Some(ref s) => Some(s.as_str()),
                None => None,
            },
            match model {
                Some(ref s) => Some(s.as_str()),
                None => None,
            },
            match brand {
                Some(ref s) => Some(s.as_str()),
                None => None,
            },
        )
    }

    /// Attach a derived model string to an authorized device; other
    /// devices and absent strings leave the record unchanged.
    pub fn enrich_device(&self, device: &mut DeviceInfo, model_info: Option<String>)
        ensures
            final(device).id == old(device).id,
            final(device).status == old(device).status,
            final(device).product == old(device).product,
            (old(device).status@ is Device && model_info is Some) ==> final(device)@.model
                == Some(model_info->Some_0@),
            !(old(device).status@ is Device && model_info is Some) ==> final(device).model == old(
                device,
            ).model,
    {
        if device.status.is_authorized() {
            if let Some(m) = model_info {
                device.model = Some(m);
            }
        }
    }
}

} // verus!
