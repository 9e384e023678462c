//! One-shot shell command interpretation.

use vstd::prelude::*;
use vstd::string::StringExecFns;
use crate::num::dec_spec;
use crate::runner::CommandResult;

verus! {

/// Interpret an `adb shell <command>` run: output on stderr with an
/// empty stdout is reported as the failure text; otherwise stdout is
/// the answer.
pub fn execute_shell(output: &CommandResult) -> (r: Result<String, String>)
    ensures
        (output@.stderr.len() > 0 && output@.stdout.len() == 0) ==> (r matches Err(e) && e@
            == output@.stderr),
        !(output@.stderr.len() > 0 && output@.stdout.len() == 0) ==> (r matches Ok(v) && v@
            == output@.stdout),
{
    if !output.stderr.as_str().is_empty() && output.stdout.as_str().is_empty() {
        Err(output.stderr.clone())
    } else {
        Ok(output.stdout.clone())
    }
}

/// The argument words of a one-shot logcat dump: the last `lines`
/// entries, with an optional filter expression.
pub fn get_logcat_args(device_id: &str, lines: u32, filter: Option<&str>) -> (r: Vec<String>)
    ensures
        ({
            let base = seq!["-s"@, device_id@, "logcat"@, "-d"@, "-t"@, dec_spec(lines as int)];
            match filter {
                Some(f) => r.deep_view() == base.push(f@),
                None => r.deep_view() == base,
            }
        }),
{
    let mut v: Vec<String> = Vec::new();
    v.push(String::from_str("-s"));
    v.push(String::from_str(device_id));
    v.push(String::from_str("logcat"));
    v.push(String::from_str("-d"));
    v.push(String::from_str("-t"));
    v.push(crate::text::string_of(crate::num::u64_dec(lines as u64).as_slice()));
    match filter {
        Some(f) => {
            v.push(String::from_str(f));
            proof {
                assert(v.deep_view() =~~= seq!["-s"@, device_id@, "logcat"@, "-d"@, "-t"@,
                    dec_spec(lines as int)].push(f@));
            }
        },
        None => {
            proof {
                assert(v.deep_view() =~~= seq!["-s"@, device_id@, "logcat"@, "-d"@, "-t"@,
                    dec_spec(lines as int)]);
            }
        },
    }
    v
}

/// Interpret a one-shot logcat dump: its captured output.
pub fn get_logcat(output: &CommandResult) -> (r: String)
    ensures
        r@ == output@.stdout,
{
    output.stdout.clone()
}

/// Interpret a `logcat -c` run.
pub fn clear_logcat(output: &CommandResult) -> (r: Result<(), String>)
    ensures
        output@.success ==> r is Ok,
        !output@.success ==> (r matches Err(e) && e@ == "Failed to clear logcat: "@
            + output@.stderr),
{
    if output.success {
        Ok(())
    } else {
        let mut s = String::from_str("Failed to clear logcat: ");
        s.append(output.stderr.as_str());
        Err(s)
    }
}

} // verus!
