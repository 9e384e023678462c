//! Screen capture bookkeeping: save-path policy, capture file names,
//! and base64 payload decoding.

use vstd::prelude::*;
use vstd::string::StringExecFns;
use crate::encode::{b64_decode, base64_decoded};
use crate::error::AppError;

verus! {

/// Result of a capture operation.
#[derive(Debug, Clone)]
pub struct CaptureResult {
    pub success: bool,
    pub path: Option<String>,
    pub error: Option<String>,
}

impl CaptureResult {
    /// A capture that produced the named file.
    pub fn saved(path: &str) -> (r: Self)
        ensures
            r.success,
            r.path matches Some(p) && p@ == path@,
            r.error is None,
    {
        CaptureResult { success: true, path: Some(String::from_str(path)), error: None }
    }

    /// A capture that succeeded without a file (a recording that is
    /// still running on the device).
    pub fn started() -> (r: Self)
        ensures
            r.success,
            r.path is None,
            r.error is None,
    {
        CaptureResult { success: true, path: None, error: None }
    }

    /// A failed capture with its reason.
    pub fn failed(error: &str) -> (r: Self)
        ensures
            !r.success,
            r.path is None,
            r.error matches Some(e) && e@ == error@,
    {
        CaptureResult { success: false, path: None, error: Some(String::from_str(error)) }
    }
}

/// Where captures are kept: a non-empty custom path wins; otherwise
/// the media directory the embedder resolved next to the
/// application; otherwise a relative fallback.
pub open spec fn capture_base_path_spec(
    custom: Option<Seq<char>>,
    default_media_dir: Option<Seq<char>>,
) -> Seq<char> {
    match custom {
        Some(p) if p.len() > 0 => p,
        _ => match default_media_dir {
            Some(d) => d,
            None => "./media"@,
        },
    }
}

/// Pick the capture base path.
pub fn get_capture_base_path(custom: Option<&str>, default_media_dir: Option<&str>) -> (r:
    String)
    ensures
        r@ == capture_base_path_spec(
            match custom {
                Some(p) => Some(p@),
                None => None,
            },
            match default_media_dir {
                Some(d) => Some(d@),
                None => None,
            },
        ),
{
    match custom {
        Some(p) => {
            if !p.is_empty() {
                return String::from_str(p);
            }
        },
        None => {},
    }
    match default_media_dir {
        Some(d) => String::from_str(d),
        None => String::from_str("./media"),
    }
}

/// The screenshot file name for a timestamp.
pub fn screenshot_filename(timestamp: &str) -> (r: String)
    ensures
        r@ == "screenshot_"@ + timestamp@ + ".png"@,
{
    let mut s = String::from_str("screenshot_");
    s.append(timestamp);
    s.append(".png");
    proof {
        assert(s@ =~= "screenshot_"@ + timestamp@ + ".png"@);
    }
    s
}

/// The recording file name for a timestamp.
pub fn recording_filename(timestamp: &str) -> (r: String)
    ensures
        r@ == "recording_"@ + timestamp@ + ".mp4"@,
{
    let mut s = String::from_str("recording_");
    s.append(timestamp);
    s.append(".mp4");
    proof {
        assert(s@ =~= "recording_"@ + timestamp@ + ".mp4"@);
    }
    s
}

/// Where a capture file lands: an absolute path wins outright;
/// otherwise the base path, the subfolder and the file name, joined.
pub fn capture_target_path(
    absolute: Option<&str>,
    base: &str,
    subfolder: &str,
    filename: &str,
) -> (r: String)
    ensures
        (match absolute {
            Some(p) => r@ == p@,
            None => r@ == base@ + "/"@ + subfolder@ + "/"@ + filename@,
        }),
{
    match absolute {
        Some(p) => String::from_str(p),
        None => {
            let mut s = String::from_str(base);
            s.append("/");
            s.append(subfolder);
            s.append("/");
            s.append(filename);
            proof {
                assert(s@ =~= base@ + "/"@ + subfolder@ + "/"@ + filename@);
            }
            s
        },
    }
}

/// The screenshot verdict, from whether `screencap` ran cleanly and
/// whether saving succeeded, in that order of precedence.
pub fn screenshot_result(capture_ok: bool, write_ok: bool, path: &str) -> (r: CaptureResult)
    ensures
        !capture_ok ==> !r.success && (r.error matches Some(e) && e@ == "Screencap failed"@),
        (capture_ok && !write_ok) ==> !r.success && (r.error matches Some(e) && e@
            == "Failed to save screenshot"@),
        (capture_ok && write_ok) ==> r.success && (r.path matches Some(p) && p@ == path@),
{
    if !capture_ok {
        CaptureResult::failed("Screencap failed")
    } else if !write_ok {
        CaptureResult::failed("Failed to save screenshot")
    } else {
        CaptureResult::saved(path)
    }
}

/// The recording verdict after the device-side recorder was stopped:
/// a successful pull names the saved file; a failed one reports it.
pub fn stop_recording_result(pull_ok: bool, path: &str) -> (r: CaptureResult)
    ensures
        pull_ok ==> r.success && (r.path matches Some(p) && p@ == path@),
        !pull_ok ==> !r.success && (r.error matches Some(e) && e@
            == "Failed to pull recording"@),
{
    if pull_ok {
        CaptureResult::saved(path)
    } else {
        CaptureResult::failed("Failed to pull recording")
    }
}

/// Decode a base64 capture payload: the bytes it denotes, or the
/// decode failure.
pub fn decode_capture_data(data_base64: &str) -> (r: Result<Vec<u8>, AppError>)
    ensures
        (match r {
            Ok(v) => base64_decoded(data_base64@) == Some(v@),
            Err(e) => base64_decoded(data_base64@) == None::<Seq<u8>> && e@.code
                == "DECODE_FAILED"@,
        }),
{
    match b64_decode(data_base64) {
        Some(v) => Ok(v),
        None => Err(AppError::new("DECODE_FAILED", "Failed to decode base64")),
    }
}

} // verus!
