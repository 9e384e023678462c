//! APK handling: file description, install-result interpretation and
//! the error-code mapping.

use vstd::prelude::*;
use vstd::string::StringExecFns;
use crate::adb::AdbExecutor;
use crate::error::AppError;
use crate::num::{lower_seq, lower_seq_spec};
use crate::runner::CommandResult;
use crate::text::{chars_of, string_of, chars_eq, contains_sub, contains_spec, rfind_char,
    rfind_char_spec};

verus! {

/// Mathematical image of an [`ApkInfo`].
pub ghost struct ApkInfoV {
    pub path: Seq<char>,
    pub file_name: Seq<char>,
    pub size_bytes: u64,
    pub valid: bool,
    pub last_modified: Option<u128>,
}

/// What the engine records about an APK file on disk.
#[derive(Debug, Clone)]
pub struct ApkInfo {
    pub path: String,
    pub file_name: String,
    pub size_bytes: u64,
    pub valid: bool,
    pub last_modified: Option<u128>,
}

impl View for ApkInfo {
    type V = ApkInfoV;

    open spec fn view(&self) -> ApkInfoV {
        ApkInfoV {
            path: self.path@,
            file_name: self.file_name@,
            size_bytes: self.size_bytes,
            valid: self.valid,
            last_modified: match self.last_modified {
                Some(m) => Some(m),
                None => None,
            },
        }
    }
}

/// Metadata the embedder read from the file system.
#[derive(Debug, Clone)]
pub struct FileMeta {
    pub size_bytes: u64,
    pub modified_ms: Option<u128>,
}

/// The last path component: everything after the final `/` or `\`;
/// the placeholder name when that component is empty.
pub open spec fn file_name_spec(path: Seq<char>) -> Seq<char> {
    let cut = path.map_values(
        |c: char|
            if c == '\\' {
                '/'
            } else {
                c
            },
    );
    let tail = match rfind_char_spec(cut, '/') {
        Some(i) => path.skip(i + 1),
        None => path,
    };
    if tail.len() == 0 {
        "unknown.apk"@
    } else {
        tail
    }
}

/// Whether a file name carries the `.apk` extension,
/// case-insensitively: the part after the last dot, which must not
/// be the leading character.
pub open spec fn has_apk_extension(name: Seq<char>) -> bool {
    match rfind_char_spec(name, '.') {
        Some(i) => i > 0 && lower_seq_spec(name.skip(i + 1)) == "apk"@,
        None => false,
    }
}

impl ApkInfo {
    /// Describe an APK file from its path and the metadata the
    /// embedder fetched; an absent file yields nothing.
    pub fn from_path(path: &str, meta: Option<FileMeta>) -> (r: Option<ApkInfo>)
        ensures
            meta is None ==> r is None,
            (match (meta, r) {
                (Some(m), Some(info)) => {
                    &&& info@.path == path@
                    &&& info@.file_name == file_name_spec(path@)
                    &&& info@.size_bytes == m.size_bytes
                    &&& info@.valid == has_apk_extension(file_name_spec(path@))
                    &&& info@.last_modified == (match m.modified_ms {
                        Some(t) => Some(t),
                        None => None::<u128>,
                    })
                },
                (Some(_), None) => false,
                (None, _) => true,
            }),
    {
        let m = match meta {
            Some(m) => m,
            None => {
                return None;
            },
        };
        let cs = chars_of(path);
        let mut cut: Vec<char> = Vec::new();
        let mut i: usize = 0;
        while i < cs.len()
            invariant
                0 <= i <= cs@.len(),
                cut@.len() == i,
                forall|k: int| 0 <= k < i ==> cut@[k] == (if cs@[k] == '\\' {
                    '/'
                } else {
                    cs@[k]
                }),
            decreases cs@.len() - i,
        {
            let c = cs[i];
            if c == '\\' {
                cut.push('/');
            } else {
                cut.push(c);
            }
            i = i + 1;
        }
        proof {
            assert(cut@ =~= path@.map_values(
                |c: char|
                    if c == '\\' {
                        '/'
                    } else {
                        c
                    },
            ));
        }
        let tail: Vec<char> = match rfind_char(cut.as_slice(), '/') {
            Some(idx) => {
                let t = vstd::slice::slice_subrange(cs.as_slice(), idx + 1, cs.len());
                let mut v: Vec<char> = Vec::new();
                let mut k: usize = 0;
                while k < t.len()
                    invariant
                        0 <= k <= t@.len(),
                        v@ == t@.take(k as int),
                    decreases t@.len() - k,
                {
                    v.push(t[k]);
                    proof {
                        assert(v@ =~= t@.take(k + 1 as int));
                    }
                    k = k + 1;
                }
                proof {
                    assert(t@.take(t@.len() as int) =~= t@);
                    assert(v@ =~= path@.skip(idx + 1));
                }
                v
            },
            None => {
                let mut v: Vec<char> = Vec::new();
                let mut k: usize = 0;
                while k < cs.len()
                    invariant
                        0 <= k <= cs@.len(),
                        v@ == cs@.take(k as int),
                    decreases cs@.len() - k,
                {
                    v.push(cs[k]);
                    proof {
                        assert(v@ =~= cs@.take(k + 1 as int));
                    }
                    k = k + 1;
                }
                proof {
                    assert(cs@.take(cs@.len() as int) =~= cs@);
                }
                v
            },
        };
        let file_name_chars: Vec<char> = if tail.len() == 0 {
            chars_of("unknown.apk")
        } else {
            tail
        };
        assert(file_name_chars@ == file_name_spec(path@));
        let fn_len = file_name_chars.len();
        let valid = match rfind_char(file_name_chars.as_slice(), '.') {
            Some(di) => {
                assert(di < fn_len);
                if di > 0 {
                    let ext = vstd::slice::slice_subrange(
                        file_name_chars.as_slice(),
                        di + 1,
                        file_name_chars.len(),
                    );
                    proof {
                        assert(ext@ =~= file_name_chars@.skip(di + 1));
                    }
                    let lowered = lower_seq(ext);
                    let apk = chars_of("apk");
                    chars_eq(lowered.as_slice(), apk.as_slice())
                } else {
                    false
                }
            },
            None => false,
        };
        Some(
            ApkInfo {
                path: String::from_str(path),
                file_name: string_of(file_name_chars.as_slice()),
                size_bytes: m.size_bytes,
                valid,
                last_modified: m.modified_ms,
            },
        )
    }
}

/// Mathematical image of an [`InstallResult`].
pub ghost struct InstallResultV {
    pub success: bool,
    pub device_id: Seq<char>,
    pub message: Seq<char>,
    pub error_code: Option<Seq<char>>,
}

/// Outcome of an installation attempt.
#[derive(Debug, Clone)]
pub struct InstallResult {
    pub success: bool,
    pub device_id: String,
    pub message: String,
    pub error_code: Option<String>,
}

impl View for InstallResult {
    type V = InstallResultV;

    open spec fn view(&self) -> InstallResultV {
        InstallResultV {
            success: self.success,
            device_id: self.device_id@,
            message: self.message@,
            error_code: match self.error_code {
                Some(ref c) => Some(c@),
                None => None,
            },
        }
    }
}

impl InstallResult {
    /// A successful installation.
    pub fn success(device_id: &str, message: &str) -> (r: Self)
        ensures
            r@.success,
            r@.device_id == device_id@,
            r@.message == message@,
            r@.error_code is None,
    {
        InstallResult {
            success: true,
            device_id: String::from_str(device_id),
            message: String::from_str(message),
            error_code: None,
        }
    }

    /// A failed installation, optionally with the raw error code.
    pub fn failure(device_id: &str, message: &str, error_code: Option<&str>) -> (r: Self)
        ensures
            !r@.success,
            r@.device_id == device_id@,
            r@.message == message@,
            r@.error_code == (match error_code {
                Some(c) => Some(c@),
                None => None::<Seq<char>>,
            }),
    {
        InstallResult {
            success: false,
            device_id: String::from_str(device_id),
            message: String::from_str(message),
            error_code: match error_code {
                Some(c) => Some(String::from_str(c)),
                None => None,
            },
        }
    }
}

/// The message and code for an install failure: the first known
/// `INSTALL_…` code contained in the output decides, in this fixed
/// order; an unrecognised output gets the generic message and no
/// code.
pub open spec fn map_install_error_spec(out: Seq<char>) -> (Seq<char>, Option<Seq<char>>) {
    if contains_spec(out, "INSTALL_FAILED_ALREADY_EXISTS"@) {
        ("App is already installed. Try uninstalling first."@, Some(
            "INSTALL_FAILED_ALREADY_EXISTS"@,
        ))
    } else if contains_spec(out, "INSTALL_FAILED_INSUFFICIENT_STORAGE"@) {
        ("Not enough storage space on device."@, Some("INSTALL_FAILED_INSUFFICIENT_STORAGE"@))
    } else if contains_spec(out, "INSTALL_FAILED_INVALID_APK"@) {
        ("Invalid or corrupted APK file."@, Some("INSTALL_FAILED_INVALID_APK"@))
    } else if contains_spec(out, "INSTALL_FAILED_VERSION_DOWNGRADE"@) {
        ("Cannot install older version over newer one."@, Some(
            "INSTALL_FAILED_VERSION_DOWNGRADE"@,
        ))
    } else if contains_spec(out, "INSTALL_FAILED_USER_RESTRICTED"@) {
        ("Installation blocked by device policy."@, Some("INSTALL_FAILED_USER_RESTRICTED"@))
    } else if contains_spec(out, "INSTALL_FAILED_UPDATE_INCOMPATIBLE"@) {
        ("Update incompatible with installed version."@, Some(
            "INSTALL_FAILED_UPDATE_INCOMPATIBLE"@,
        ))
    } else if contains_spec(out, "INSTALL_PARSE_FAILED_NO_CERTIFICATES"@) {
        ("APK is not signed properly."@, Some("INSTALL_PARSE_FAILED_NO_CERTIFICATES"@))
    } else if contains_spec(out, "INSTALL_FAILED_OLDER_SDK"@) {
        ("App requires newer Android version."@, Some("INSTALL_FAILED_OLDER_SDK"@))
    } else if contains_spec(out, "INSTALL_FAILED_CONFLICTING_PROVIDER"@) {
        ("Conflicts with another installed app."@, Some("INSTALL_FAILED_CONFLICTING_PROVIDER"@))
    } else if contains_spec(out, "INSTALL_FAILED_NO_MATCHING_ABIS"@) {
        ("App not compatible with device architecture."@, Some(
            "INSTALL_FAILED_NO_MATCHING_ABIS"@,
        ))
    } else {
        ("Installation failed. Check device connection and try again."@, None)
    }
}

/// Map raw installer output to a friendly message and the matched
/// code.
pub fn map_install_error(error_output: &str) -> (r: (String, Option<String>))
    ensures
        r.0@ == map_install_error_spec(error_output@).0,
        (match (r.1, map_install_error_spec(error_output@).1) {
            (Some(c), Some(cv)) => c@ == cv,
            (None, None) => true,
            _ => false,
        }),
{
    let out = chars_of(error_output);
    let c1 = chars_of("INSTALL_FAILED_ALREADY_EXISTS");
    if contains_sub(out.as_slice(), c1.as_slice()) {
        return (
            String::from_str("App is already installed. Try uninstalling first."),
            Some(String::from_str("INSTALL_FAILED_ALREADY_EXISTS")),
        );
    }
    let c2 = chars_of("INSTALL_FAILED_INSUFFICIENT_STORAGE");
    if contains_sub(out.as_slice(), c2.as_slice()) {
        return (
            String::from_str("Not enough storage space on device."),
            Some(String::from_str("INSTALL_FAILED_INSUFFICIENT_STORAGE")),
        );
    }
    let c3 = chars_of("INSTALL_FAILED_INVALID_APK");
    if contains_sub(out.as_slice(), c3.as_slice()) {
        return (
            String::from_str("Invalid or corrupted APK file."),
            Some(String::from_str("INSTALL_FAILED_INVALID_APK")),
        );
    }
    let c4 = chars_of("INSTALL_FAILED_VERSION_DOWNGRADE");
    if contains_sub(out.as_slice(), c4.as_slice()) {
        return (
            String::from_str("Cannot install older version over newer one."),
            Some(String::from_str("INSTALL_FAILED_VERSION_DOWNGRADE")),
        );
    }
    let c5 = chars_of("INSTALL_FAILED_USER_RESTRICTED");
    if contains_sub(out.as_slice(), c5.as_slice()) {
        return (
            String::from_str("Installation blocked by device policy."),
            Some(String::from_str("INSTALL_FAILED_USER_RESTRICTED")),
        );
    }
    let c6 = chars_of("INSTALL_FAILED_UPDATE_INCOMPATIBLE");
    if contains_sub(out.as_slice(), c6.as_slice()) {
        return (
            String::from_str("Update incompatible with installed version."),
            Some(String::from_str("INSTALL_FAILED_UPDATE_INCOMPATIBLE")),
        );
    }
    let c7 = chars_of("INSTALL_PARSE_FAILED_NO_CERTIFICATES");
    if contains_sub(out.as_slice(), c7.as_slice()) {
        return (
            String::from_str("APK is not signed properly."),
            Some(String::from_str("INSTALL_PARSE_FAILED_NO_CERTIFICATES")),
        );
    }
    let c8 = chars_of("INSTALL_FAILED_OLDER_SDK");
    if contains_sub(out.as_slice(), c8.as_slice()) {
        return (
            String::from_str("App requires newer Android version."),
            Some(String::from_str("INSTALL_FAILED_OLDER_SDK")),
        );
    }
    let c9 = chars_of("INSTALL_FAILED_CONFLICTING_PROVIDER");
    if contains_sub(out.as_slice(), c9.as_slice()) {
        return (
            String::from_str("Conflicts with another installed app."),
            Some(String::from_str("INSTALL_FAILED_CONFLICTING_PROVIDER")),
        );
    }
    let c10 = chars_of("INSTALL_FAILED_NO_MATCHING_ABIS");
    if contains_sub(out.as_slice(), c10.as_slice()) {
        return (
            String::from_str("App not compatible with device architecture."),
            Some(String::from_str("INSTALL_FAILED_NO_MATCHING_ABIS")),
        );
    }
    (String::from_str("Installation failed. Check device connection and try again."), None)
}

/// Drives an installation and interprets what came back.
pub struct ApkInstaller<'a> {
    pub executor: &'a AdbExecutor,
}

impl<'a> ApkInstaller<'a> {
    pub fn new(executor: &'a AdbExecutor) -> (r: Self)
        ensures
            r.executor.client.adb_path@ == executor.client.adb_path@,
    {
        ApkInstaller { executor }
    }

    /// Interpret an installation attempt.  A missing APK fails
    /// before anything runs; a runner failure is reported verbatim;
    /// a completed run succeeds exactly when the process exited
    /// successfully and printed `Success`, and otherwise carries the
    /// mapped error.
    pub fn install(
        &self,
        device_id: &str,
        apk_exists: bool,
        outcome: Option<&CommandResult>,
    ) -> (r: InstallResult)
        ensures
            !apk_exists ==> !r@.success && r@.message == "APK file not found"@,
            apk_exists ==> (match outcome {
                None => !r@.success && r@.message == "Failed to run adb"@,
                Some(out) => {
                    let combined = out@.stdout + out@.stderr;
                    if out.success && contains_spec(combined, "Success"@) {
                        r@.success && r@.message == "APK installed successfully"@
                    } else {
                        !r@.success && r@.message == map_install_error_spec(combined).0
                            && r@.error_code == map_install_error_spec(combined).1
                    }
                },
            }),
            r@.device_id == device_id@,
    {
        if !apk_exists {
            return InstallResult::failure(device_id, "APK file not found", None);
        }
        match outcome {
            None => InstallResult::failure(device_id, "Failed to run adb", None),
            Some(out) => {
                let mut combined = chars_of(out.stdout.as_str());
                let err_part = chars_of(out.stderr.as_str());
                let mut k: usize = 0;
                while k < err_part.len()
                    invariant
                        0 <= k <= err_part@.len(),
                        combined@ == out@.stdout + err_part@.take(k as int),
                        err_part@ == out@.stderr,
                    decreases err_part@.len() - k,
                {
                    combined.push(err_part[k]);
                    proof {
                        assert(combined@ =~= out@.stdout + err_part@.take(k + 1 as int));
                    }
                    k = k + 1;
                }
                proof {
                    assert(err_part@.take(err_part@.len() as int) =~= err_part@);
                }
                let success_lit = chars_of("Success");
                if out.success && contains_sub(combined.as_slice(), success_lit.as_slice()) {
                    InstallResult::success(device_id, "APK installed successfully")
                } else {
                    let combined_str = string_of(combined.as_slice());
                    let (message, error_code) = map_install_error(combined_str.as_str());
                    InstallResult::failure(
                        device_id,
                        message.as_str(),
                        match error_code {
                            Some(ref c) => Some(c.as_str()),
                            None => None,
                        },
                    )
                }
            },
        }
    }
}

} // verus!
