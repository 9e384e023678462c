//! The on-device agent channel: preparation commands, the
//! newline-delimited JSON requests, and the typed reading of each
//! response.
//!
//! The embedder owns the TCP socket.  Every command is one request
//! line built by verified code; the response line comes back whole,
//! and the value under `data.<field>` is carved out through the
//! serde_json bridge, with the command's typed empty default
//! substituted when the field is absent or null.

use vstd::prelude::*;
use vstd::string::StringExecFns;
use crate::adb::AdbExecutor;
use crate::error::{AdbError, AppError};
use crate::json::{build_agent_request, request_line_spec, JsonScalar, JsonScalarV};
use crate::num::dec_spec;

verus! {

/// The agent's fixed TCP port.
pub const AGENT_PORT: u16 = 12345;

/// Delay after launching the agent before the first connect, in
/// milliseconds.
pub const AGENT_STARTUP_DELAY_MS: u64 = 1500;

/// Deadline of the first connect attempt, in milliseconds.
pub const AGENT_CONNECT_TIMEOUT_MS: u64 = 1000;

/// Deadline of the connect retry after starting the agent.
pub const AGENT_RETRY_CONNECT_TIMEOUT_MS: u64 = 2000;

/// Whether a response line parses as JSON at all.  A function of the
/// line alone; a line that does not parse is a protocol error, fatal
/// to the call.
pub uninterp spec fn agent_response_ok(line: Seq<char>) -> bool;

/// The compact rendering of the JSON value under `data.<field>` of a
/// parsable agent response line, absent when the field is missing or
/// null.  A function of the line and the field alone.
pub uninterp spec fn agent_field_of(line: Seq<char>, field: Seq<char>) -> Option<Seq<char>>;

/// Relies on serde_json (`from_str`, `Value::get`, `Value::to_string`):
/// parse the response line, take the value under `data.<field>`, and
/// render it back compactly.  The outer level reports whether the
/// line parsed; inside it, an absent field and a JSON null yield
/// nothing.  serde_json computes all of this from the two arguments
/// alone.
#[verifier::external_body]
fn agent_data_field(line: &str, field: &str) -> (r: Option<Option<String>>)
    ensures
        match r {
            None => !agent_response_ok(line@),
            Some(inner) => agent_response_ok(line@) && match inner {
                Some(v) => agent_field_of(line@, field@) == Some(v@),
                None => agent_field_of(line@, field@) == None::<Seq<char>>,
            },
        },
{
    let parsed: serde_json::Value = match serde_json::from_str(line) {
        Ok(v) => v,
        Err(_) => return None,
    };
    let value = match parsed.get("data").and_then(|d| d.get(field)) {
        Some(v) => v,
        None => return Some(None),
    };
    if value.is_null() {
        Some(None)
    } else {
        Some(Some(value.to_string()))
    }
}

/// The compact rendering of the whole `data` object of a parsable
/// response line, under the same conditions.
pub uninterp spec fn agent_data_of(line: Seq<char>) -> Option<Seq<char>>;

/// Relies on serde_json (`from_str`, `Value::get`, `Value::to_string`):
/// as above, for the whole `data` value.
#[verifier::external_body]
fn agent_data(line: &str) -> (r: Option<Option<String>>)
    ensures
        match r {
            None => !agent_response_ok(line@),
            Some(inner) => agent_response_ok(line@) && match inner {
                Some(v) => agent_data_of(line@) == Some(v@),
                None => agent_data_of(line@) == None::<Seq<char>>,
            },
        },
{
    let parsed: serde_json::Value = match serde_json::from_str(line) {
        Ok(v) => v,
        Err(_) => return None,
    };
    let value = match parsed.get("data") {
        Some(v) => v,
        None => return Some(None),
    };
    if value.is_null() {
        Some(None)
    } else {
        Some(Some(value.to_string()))
    }
}

/// What a command's answer is, for a parsable response: the field's
/// rendering, or the typed empty default.
pub open spec fn field_or_default(
    line: Seq<char>,
    field: Seq<char>,
    default: Seq<char>,
) -> Seq<char> {
    match agent_field_of(line, field) {
        Some(v) => v,
        None => default,
    }
}

/// The contract every command reader keeps: a response line that is
/// not JSON is a fatal protocol error; a parsable one yields the
/// field or the command's typed empty default.
pub open spec fn reader_post(
    r: Result<String, AppError>,
    line: Seq<char>,
    field: Seq<char>,
    default: Seq<char>,
) -> bool {
    &&& !agent_response_ok(line) ==> (r matches Err(e) && e@.code == "ADB_EXECUTION_FAILED"@
        && e@.details == Some("JSON parse error"@))
    &&& agent_response_ok(line) ==> (r matches Ok(v) && v@ == field_or_default(
        line,
        field,
        default,
    ))
}

fn extract_or(line: &str, field: &str, default: &str) -> (r: Result<String, AppError>)
    ensures
        reader_post(r, line@, field@, default@),
{
    match agent_data_field(line, field) {
        Some(Some(v)) => Ok(v),
        Some(None) => Ok(String::from_str(default)),
        None => Err(
            AppError::from(AdbError::ExecutionFailed(String::from_str("JSON parse error"))),
        ),
    }
}

/// Drives the agent protocol for one executor.
pub struct AgentManager {
    pub executor: AdbExecutor,
    pub port: u16,
}

impl AgentManager {
    /// A manager on the reference port.
    pub fn new(executor: AdbExecutor) -> (r: Self)
        ensures
            r.port == AGENT_PORT,
            r.executor.client.adb_path@ == executor.client.adb_path@,
    {
        AgentManager { executor, port: AGENT_PORT }
    }

    /// `adb -s <id> push binaries/agent.jar /data/local/tmp/agent.jar`
    pub fn push_agent_args(&self, device_id: &str) -> (r: Vec<String>)
        ensures
            r.deep_view() == seq!["-s"@, device_id@, "push"@, "binaries/agent.jar"@,
                "/data/local/tmp/agent.jar"@],
    {
        let mut v: Vec<String> = Vec::new();
        v.push(String::from_str("-s"));
        v.push(String::from_str(device_id));
        v.push(String::from_str("push"));
        v.push(String::from_str("binaries/agent.jar"));
        v.push(String::from_str("/data/local/tmp/agent.jar"));
        proof {
            assert(v.deep_view() =~~= seq!["-s"@, device_id@, "push"@, "binaries/agent.jar"@,
                "/data/local/tmp/agent.jar"@]);
        }
        v
    }

    /// `adb -s <id> shell CLASSPATH=… app_process / <Main> <port>`
    pub fn launch_agent_args(&self, device_id: &str) -> (r: Vec<String>)
        ensures
            r.deep_view() == seq!["-s"@, device_id@, "shell"@,
                "CLASSPATH=/data/local/tmp/agent.jar app_process / com.h1dr0n.adbcompass.Main "@
                + dec_spec(self.port as int)],
    {
        let mut cmd = String::from_str(
            "CLASSPATH=/data/local/tmp/agent.jar app_process / com.h1dr0n.adbcompass.Main ",
        );
        let d = crate::text::string_of(crate::num::u64_dec(self.port as u64).as_slice());
        cmd.append(d.as_str());
        let mut v: Vec<String> = Vec::new();
        v.push(String::from_str("-s"));
        v.push(String::from_str(device_id));
        v.push(String::from_str("shell"));
        v.push(cmd);
        proof {
            assert(v.deep_view() =~~= seq!["-s"@, device_id@, "shell"@,
                "CLASSPATH=/data/local/tmp/agent.jar app_process / com.h1dr0n.adbcompass.Main "@
                + dec_spec(self.port as int)]);
        }
        v
    }

    /// `adb -s <id> forward tcp:<port> tcp:<port>`
    pub fn forward_agent_args(&self, device_id: &str) -> (r: Vec<String>)
        ensures
            r.deep_view() == seq!["-s"@, device_id@, "forward"@, "tcp:"@ + dec_spec(
                self.port as int), "tcp:"@ + dec_spec(self.port as int)],
    {
        let mut v: Vec<String> = Vec::new();
        v.push(String::from_str("-s"));
        v.push(String::from_str(device_id));
        v.push(String::from_str("forward"));
        v.push(crate::scrcpy::tcp_spec_string(self.port));
        v.push(crate::scrcpy::tcp_spec_string(self.port));
        proof {
            assert(v.deep_view() =~~= seq!["-s"@, device_id@, "forward"@, "tcp:"@ + dec_spec(
                self.port as int), "tcp:"@ + dec_spec(self.port as int)]);
        }
        v
    }

    /// The request line of one command with a flat payload.
    pub fn command_line(&self, cmd_type: &str, fields: &Vec<(String, JsonScalar)>) -> (r: String)
        ensures
            r@ == request_line_spec(
                cmd_type@,
                Seq::new(fields@.len(), |i: int| (fields@[i].0@, fields@[i].1@)),
            ),
    {
        build_agent_request(cmd_type, fields)
    }

    /// Read a `LIST_FILES` response: the `files` value, `[]` when absent or null;
    /// an unparsable line is a fatal protocol error.
    pub fn list_files_fast(&self, response_line: &str) -> (r: Result<String, AppError>)
        ensures
            reader_post(r, response_line@, "files"@, "[]"@),
    {
        extract_or(response_line, "files", "[]")
    }

    /// Read a `GET_APPS` response: the `apps` value, `[]` when absent or null;
    /// an unparsable line is a fatal protocol error.
    pub fn get_apps_full(&self, response_line: &str) -> (r: Result<String, AppError>)
        ensures
            reader_post(r, response_line@, "apps"@, "[]"@),
    {
        extract_or(response_line, "apps", "[]")
    }

    /// Read a `GET_ICON` response: the `icon` value, the empty JSON string when absent or null;
    /// an unparsable line is a fatal protocol error.
    pub fn get_app_icon(&self, response_line: &str) -> (r: Result<String, AppError>)
        ensures
            reader_post(r, response_line@, "icon"@, "\"\""@),
    {
        extract_or(response_line, "icon", "\"\"")
    }

    /// Read a `GET_STATS` response: the `stats` value, zeroed when absent or null;
    /// an unparsable line is a fatal protocol error.
    pub fn get_performance_stats(&self, response_line: &str) -> (r: Result<String, AppError>)
        ensures
            reader_post(r, response_line@, "stats"@, "{\"cpu\":0,\"ram\":0}"@),
    {
        extract_or(response_line, "stats", "{\"cpu\":0,\"ram\":0}")
    }

    /// Read a `GET_CLIPBOARD` response: the `text` value, the empty JSON string when absent or null;
    /// an unparsable line is a fatal protocol error.
    pub fn get_clipboard(&self, response_line: &str) -> (r: Result<String, AppError>)
        ensures
            reader_post(r, response_line@, "text"@, "\"\""@),
    {
        extract_or(response_line, "text", "\"\"")
    }

    /// Read a `SET_CLIPBOARD` response: the `success` value, `false` when absent or null;
    /// an unparsable line is a fatal protocol error.
    pub fn set_clipboard(&self, response_line: &str) -> (r: Result<String, AppError>)
        ensures
            reader_post(r, response_line@, "success"@, "false"@),
    {
        extract_or(response_line, "success", "false")
    }

    /// Read a `INJECT_INPUT` response: the `success` value, `false` when absent or null;
    /// an unparsable line is a fatal protocol error.
    pub fn inject_tap(&self, response_line: &str) -> (r: Result<String, AppError>)
        ensures
            reader_post(r, response_line@, "success"@, "false"@),
    {
        extract_or(response_line, "success", "false")
    }

    /// Read a `INDEX_FILES` response: the `status` value, the empty JSON string when absent or null;
    /// an unparsable line is a fatal protocol error.
    pub fn build_index(&self, response_line: &str) -> (r: Result<String, AppError>)
        ensures
            reader_post(r, response_line@, "status"@, "\"\""@),
    {
        extract_or(response_line, "status", "\"\"")
    }

    /// Read a `SEARCH_FILES` response: the whole `data` value, an
    /// empty result set when absent or null; an unparsable line is a
    /// fatal protocol error.
    pub fn search_files_fast(&self, response_line: &str) -> (r: Result<String, AppError>)
        ensures
            !agent_response_ok(response_line@) ==> (r matches Err(e) && e@.code
                == "ADB_EXECUTION_FAILED"@ && e@.details == Some("JSON parse error"@)),
            agent_response_ok(response_line@) ==> (r matches Ok(v) && v@ == (match agent_data_of(
                response_line@,
            ) {
                Some(d) => d,
                None => "{\"results\":[],\"is_indexing\":false}"@,
            })),
    {
        match agent_data(response_line) {
            Some(Some(v)) => Ok(v),
            Some(None) => Ok(String::from_str("{\"results\":[],\"is_indexing\":false}")),
            None => Err(
                AppError::from(AdbError::ExecutionFailed(String::from_str("JSON parse error"))),
            ),
        }
    }
}

/// The ensure-alive policy: connect with the first deadline; on any
/// failure run the full preparation (push, launch, forward, wait)
/// and connect once more with the longer deadline; a second failure
/// is fatal for the call.
#[derive(Debug, Clone, PartialEq)]
pub enum EnsureAgentStep {
    /// Try connecting with this deadline in milliseconds.
    Connect(u64),
    /// Run the preparation sequence, then reconnect.
    StartAgent,
    /// Give up: the agent cannot be reached.
    Fail,
}

/// What ensure-alive does after each failed step: the first connect
/// failure starts the agent; a failure after the restart is fatal.
pub fn ensure_agent_next(failed_connects: u32) -> (r: EnsureAgentStep)
    ensures
        failed_connects == 0 ==> r == EnsureAgentStep::Connect(AGENT_CONNECT_TIMEOUT_MS),
        failed_connects == 1 ==> r == EnsureAgentStep::StartAgent,
        failed_connects == 2 ==> r == EnsureAgentStep::Connect(AGENT_RETRY_CONNECT_TIMEOUT_MS),
        failed_connects >= 3 ==> r == EnsureAgentStep::Fail,
{
    if failed_connects == 0 {
        EnsureAgentStep::Connect(AGENT_CONNECT_TIMEOUT_MS)
    } else if failed_connects == 1 {
        EnsureAgentStep::StartAgent
    } else if failed_connects == 2 {
        EnsureAgentStep::Connect(AGENT_RETRY_CONNECT_TIMEOUT_MS)
    } else {
        EnsureAgentStep::Fail
    }
}

} // verus!
