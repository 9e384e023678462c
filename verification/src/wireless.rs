//! Wireless ADB: TCP/IP mode, connect/disconnect interpretation, and
//! the four-strategy device IP search.

use vstd::prelude::*;
use vstd::string::StringExecFns;
use crate::num::{parse_u16_spec, parse_u16, dec_spec, u64_dec};
use crate::runner::CommandResult;
use crate::text::{
    chars_of, string_of, trim_chars, trim_spec, starts_with, starts_with_spec, contains_sub,
    contains_spec, find_sub, find_sub_spec, split_ws, split_ws_spec, split_char, split_char_spec,
    lines_of, lines_spec,
};

verus! {

/// The port used when the requested one does not parse.
pub const DEFAULT_TCPIP_PORT: u16 = 5555;

/// The port `adb tcpip` is asked for: the parsed request, or the
/// default.
pub open spec fn tcpip_port_spec(port: Seq<char>) -> u16 {
    match parse_u16_spec(port) {
        Some(p) => p,
        None => DEFAULT_TCPIP_PORT,
    }
}

/// Parse the requested TCP/IP port, falling back to the default.
pub fn tcpip_port(port: &str) -> (r: u16)
    ensures
        r == tcpip_port_spec(port@),
{
    let cs = chars_of(port);
    match parse_u16(cs.as_slice()) {
        Some(p) => p,
        None => DEFAULT_TCPIP_PORT,
    }
}

/// Interpret an `adb tcpip` run.
pub fn enable_tcpip(output: &CommandResult, port: u16) -> (r: Result<String, String>)
    ensures
        output@.success ==> (r matches Ok(v) && v@ == "TCP/IP mode enabled on port "@ + dec_spec(
            port as int,
        )),
        !output@.success ==> (r matches Err(e) && e@ == "Failed to enable TCP/IP: "@
            + output@.stderr),
{
    if output.success {
        let mut s = String::from_str("TCP/IP mode enabled on port ");
        let d = string_of(u64_dec(port as u64).as_slice());
        s.append(d.as_str());
        Ok(s)
    } else {
        let mut s = String::from_str("Failed to enable TCP/IP: ");
        s.append(output.stderr.as_str());
        Err(s)
    }
}

/// The `<ip>:<port>` address used by connect and disconnect.
pub fn wireless_address(ip: &str, port: &str) -> (r: String)
    ensures
        r@ == ip@ + ":"@ + port@,
{
    let mut s = String::from_str(ip);
    s.append(":");
    s.append(port);
    proof {
        assert(s@ =~= ip@ + ":"@ + port@);
    }
    s
}

/// Interpret an `adb connect` run: the trimmed report is a success
/// exactly when it says so; an empty report gets the generic
/// message.
pub fn connect_wireless(output: &CommandResult) -> (r: Result<String, String>)
    ensures
        ({
            let report = trim_spec(output@.stdout);
            if contains_spec(report, "connected"@) {
                r matches Ok(v) && v@ == report
            } else if report.len() == 0 {
                r matches Err(e) && e@ == "Connection failed - no response"@
            } else {
                r matches Err(e) && e@ == report
            }
        }),
{
    let cs = chars_of(output.stdout.as_str());
    let report = trim_chars(cs.as_slice());
    let needle = chars_of("connected");
    if contains_sub(report.as_slice(), needle.as_slice()) {
        Ok(string_of(report.as_slice()))
    } else if report.len() == 0 {
        Err(String::from_str("Connection failed - no response"))
    } else {
        Err(string_of(report.as_slice()))
    }
}

/// Interpret an `adb disconnect` run: the trimmed report.
pub fn disconnect_wireless(output: &CommandResult) -> (r: String)
    ensures
        r@ == trim_spec(output@.stdout),
{
    let cs = chars_of(output.stdout.as_str());
    let report = trim_chars(cs.as_slice());
    string_of(report.as_slice())
}

// ---------------------------------------------------------------------------
// device IP strategies
// ---------------------------------------------------------------------------

/// Strategy one, `ip route get`: the first whitespace token after
/// `src `.
pub open spec fn ip_from_route_spec(out: Seq<char>) -> Option<Seq<char>> {
    match find_sub_spec(out, "src "@) {
        Some(i) => {
            let rest = out.skip(i + 4);
            let toks = split_ws_spec(rest);
            if toks.len() > 0 {
                Some(toks[0])
            } else {
                None
            }
        },
        None => None,
    }
}

pub fn parse_ip_route(out: &str) -> (r: Option<String>)
    ensures
        match (r, ip_from_route_spec(out@)) {
            (Some(v), Some(sv)) => v@ == sv,
            (None, None) => true,
            _ => false,
        },
{
    let cs = chars_of(out);
    let n = cs.len();
    let pat = chars_of("src ");
    match find_sub(cs.as_slice(), pat.as_slice()) {
        Some(i) => {
            proof {
                reveal_strlit("src ");
                crate::text::lemma_find_sub_from_props(cs@, pat@, 0);
                assert(i + 4 <= n);
            }
            let rest = vstd::slice::slice_subrange(cs.as_slice(), i + 4, n);
            proof {
                assert(rest@ =~= out@.skip(i + 4));
            }
            let toks = split_ws(rest);
            if toks.len() > 0 {
                proof {
                    assert(toks@[0]@ =~= split_ws_spec(out@.skip(i + 4))[0]);
                }
                Some(string_of(toks[0].as_slice()))
            } else {
                None
            }
        },
        None => None,
    }
}

/// Strategy two, `ip addr show <iface>`: on the first line whose
/// trimmed form begins with `inet `, the second whitespace token,
/// cut at the CIDR slash.
pub open spec fn ip_from_addr_show_spec(out: Seq<char>) -> Option<Seq<char>> {
    match first_inet_line(lines_spec(out)) {
        Some(line) => {
            let toks = split_ws_spec(line);
            if toks.len() > 1 {
                Some(split_char_spec(toks[1], '/')[0])
            } else {
                None
            }
        },
        None => None,
    }
}

pub open spec fn first_inet_line(ls: Seq<Seq<char>>) -> Option<Seq<char>>
    decreases ls.len(),
{
    if ls.len() == 0 {
        None
    } else if starts_with_spec(trim_spec(ls[0]), "inet "@) {
        Some(ls[0])
    } else {
        first_inet_line(ls.skip(1))
    }
}

pub fn parse_ip_addr_show(out: &str) -> (r: Option<String>)
    ensures
        match (r, ip_from_addr_show_spec(out@)) {
            (Some(v), Some(sv)) => v@ == sv,
            (None, None) => true,
            _ => false,
        },
{
    let cs = chars_of(out);
    let ls = lines_of(cs.as_slice());
    let prefix = chars_of("inet ");
    let mut i: usize = 0;
    proof {
        assert(lines_spec(out@).skip(0) =~~= lines_spec(out@));
    }
    while i < ls.len()
        invariant
            0 <= i <= ls@.len(),
            ls.deep_view() == lines_spec(out@),
            ls@.len() == ls.deep_view().len(),
            prefix@ == "inet "@,
            first_inet_line(lines_spec(out@)) == first_inet_line(ls.deep_view().skip(i as int)),
        decreases ls@.len() - i,
    {
        let ghost rest = ls.deep_view().skip(i as int);
        proof {
            assert(rest[0] == ls.deep_view()[i as int]);
            assert(rest.skip(1) =~~= ls.deep_view().skip(i + 1));
            assert(ls@[i as int]@ =~= ls.deep_view()[i as int]);
        }
        let line = &ls[i];
        let trimmed = trim_chars(line.as_slice());
        if starts_with(trimmed.as_slice(), prefix.as_slice()) {
            let toks = split_ws(line.as_slice());
            if toks.len() > 1 {
                proof {
                    assert(toks@[1]@ =~= split_ws_spec(ls.deep_view()[i as int])[1]);
                }
                let parts = split_char(toks[1].as_slice(), '/');
                proof {
                    assert(parts@[0]@ =~= split_char_spec(toks@[1]@, '/')[0]);
                }
                return Some(string_of(parts[0].as_slice()));
            }
            return None;
        }
        i = i + 1;
    }
    proof {
        assert(ls.deep_view().skip(ls@.len() as int) =~~= Seq::<Seq<char>>::empty());
    }
    None
}

/// Strategy three, `ifconfig`: the first whitespace token after
/// `addr:`.
pub open spec fn ip_from_ifconfig_spec(out: Seq<char>) -> Option<Seq<char>> {
    match find_sub_spec(out, "addr:"@) {
        Some(i) => {
            let rest = out.skip(i + 5);
            let toks = split_ws_spec(rest);
            if toks.len() > 0 {
                Some(toks[0])
            } else {
                None
            }
        },
        None => None,
    }
}

pub fn parse_ifconfig(out: &str) -> (r: Option<String>)
    ensures
        match (r, ip_from_ifconfig_spec(out@)) {
            (Some(v), Some(sv)) => v@ == sv,
            (None, None) => true,
            _ => false,
        },
{
    let cs = chars_of(out);
    let n = cs.len();
    let pat = chars_of("addr:");
    match find_sub(cs.as_slice(), pat.as_slice()) {
        Some(i) => {
            proof {
                reveal_strlit("addr:");
                crate::text::lemma_find_sub_from_props(cs@, pat@, 0);
                assert(i + 5 <= n);
            }
            let rest = vstd::slice::slice_subrange(cs.as_slice(), i + 5, n);
            proof {
                assert(rest@ =~= out@.skip(i + 5));
            }
            let toks = split_ws(rest);
            if toks.len() > 0 {
                proof {
                    assert(toks@[0]@ =~= split_ws_spec(out@.skip(i + 5))[0]);
                }
                Some(string_of(toks[0].as_slice()))
            } else {
                None
            }
        },
        None => None,
    }
}

/// The final address search, over every interface: the candidate
/// address on one line, if the line reports an `inet` address other
/// than loopback: the first token containing a dot, with every
/// `addr:` removed, cut at the slash — kept when it has four
/// dot-separated parts.
pub open spec fn remove_all_spec(s: Seq<char>, pat: Seq<char>) -> Seq<char>
    decreases s.len(),
    via remove_all_spec_dec
{
    if pat.len() == 0 {
        s
    } else {
        match find_sub_spec(s, pat) {
            Some(i) => s.take(i) + remove_all_spec(s.skip(i + pat.len()), pat),
            None => s,
        }
    }
}

#[via_fn]
proof fn remove_all_spec_dec(s: Seq<char>, pat: Seq<char>) {
    if pat.len() > 0 {
        crate::text::lemma_find_sub_from_props(s, pat, 0);
    }
}

/// Remove every occurrence of `pat` from `s`.
pub fn remove_all(s: &[char], pat: &[char]) -> (r: Vec<char>)
    ensures
        r@ == remove_all_spec(s@, pat@),
    decreases s@.len(),
{
    if pat.len() == 0 {
        return vstd::slice::slice_to_vec(s);
    }
    let n = s.len();
    match find_sub(s, pat) {
        Some(i) => {
            proof {
                crate::text::lemma_find_sub_from_props(s@, pat@, 0);
                assert(i + pat@.len() <= n);
            }
            let head = vstd::slice::slice_subrange(s, 0, i);
            let tail = vstd::slice::slice_subrange(s, i + pat.len(), n);
            proof {
                assert(head@ =~= s@.take(i as int));
                assert(tail@ =~= s@.skip(i + pat@.len()));
            }
            let mut out = vstd::slice::slice_to_vec(head);
            let rest = remove_all(tail, pat);
            let ghost head_v = out@;
            let mut k: usize = 0;
            while k < rest.len()
                invariant
                    0 <= k <= rest@.len(),
                    out@ == head_v + rest@.take(k as int),
                decreases rest@.len() - k,
            {
                out.push(rest[k]);
                proof {
                    assert(out@ =~= head_v + rest@.take(k + 1 as int));
                }
                k = k + 1;
            }
            proof {
                assert(rest@.take(rest@.len() as int) =~= rest@);
            }
            out
        },
        None => vstd::slice::slice_to_vec(s),
    }
}

/// The first token of the line that contains a dot.
pub open spec fn first_dotted_token(toks: Seq<Seq<char>>) -> Option<Seq<char>>
    decreases toks.len(),
{
    if toks.len() == 0 {
        None
    } else if contains_spec(toks[0], "."@) {
        Some(toks[0])
    } else {
        first_dotted_token(toks.skip(1))
    }
}

/// The candidate drawn from one line of the broad scan.
pub open spec fn scan_line_candidate(line: Seq<char>) -> Option<Seq<char>> {
    if contains_spec(trim_spec(line), "inet "@) && !contains_spec(line, "127.0.0.1"@) {
        match first_dotted_token(split_ws_spec(line)) {
            Some(tok) => {
                let clean = remove_all_spec(tok, "addr:"@);
                let ip = split_char_spec(clean, '/')[0];
                if split_char_spec(ip, '.').len() == 4 {
                    Some(ip)
                } else {
                    None
                }
            },
            None => None,
        }
    } else {
        None
    }
}

pub open spec fn scan_lines_spec(ls: Seq<Seq<char>>) -> Option<Seq<char>>
    decreases ls.len(),
{
    if ls.len() == 0 {
        None
    } else {
        match scan_line_candidate(ls[0]) {
            Some(ip) => Some(ip),
            None => scan_lines_spec(ls.skip(1)),
        }
    }
}

/// Strategy four: scan every interface line of `ip addr show`.
pub open spec fn ip_from_scan_spec(out: Seq<char>) -> Option<Seq<char>> {
    scan_lines_spec(lines_spec(out))
}

fn scan_one_line(line: &[char]) -> (r: Option<String>)
    ensures
        match (r, scan_line_candidate(line@)) {
            (Some(v), Some(sv)) => v@ == sv,
            (None, None) => true,
            _ => false,
        },
{
    let trimmed = trim_chars(line);
    let inet = chars_of("inet ");
    let loopback = chars_of("127.0.0.1");
    if !contains_sub(trimmed.as_slice(), inet.as_slice()) || contains_sub(
        line,
        loopback.as_slice(),
    ) {
        return None;
    }
    let toks = split_ws(line);
    let dot = chars_of(".");
    let mut i: usize = 0;
    proof {
        assert(split_ws_spec(line@).skip(0) =~~= split_ws_spec(line@));
    }
    while i < toks.len()
        invariant
            0 <= i <= toks@.len(),
            toks.deep_view() == split_ws_spec(line@),
            toks@.len() == toks.deep_view().len(),
            dot@ == "."@,
            contains_spec(trim_spec(line@), "inet "@),
            !contains_spec(line@, "127.0.0.1"@),
            first_dotted_token(split_ws_spec(line@)) == first_dotted_token(
                toks.deep_view().skip(i as int),
            ),
        decreases toks@.len() - i,
    {
        let ghost rest = toks.deep_view().skip(i as int);
        proof {
            assert(rest[0] == toks.deep_view()[i as int]);
            assert(rest.skip(1) =~~= toks.deep_view().skip(i + 1));
            assert(toks@[i as int]@ =~= toks.deep_view()[i as int]);
        }
        let tok = &toks[i];
        if contains_sub(tok.as_slice(), dot.as_slice()) {
            let addr_pat = chars_of("addr:");
            let clean = remove_all(tok.as_slice(), addr_pat.as_slice());
            let parts = split_char(clean.as_slice(), '/');
            proof {
                assert(parts@[0]@ =~= split_char_spec(clean@, '/')[0]);
            }
            let ip = &parts[0];
            let dots = split_char(ip.as_slice(), '.');
            if dots.len() == 4 {
                proof {
                    assert(split_char_spec(ip@, '.').len() == dots.deep_view().len());
                }
                return Some(string_of(ip.as_slice()));
            }
            return None;
        }
        i = i + 1;
    }
    proof {
        assert(toks.deep_view().skip(toks@.len() as int) =~~= Seq::<Seq<char>>::empty());
    }
    None
}

pub fn parse_ip_scan(out: &str) -> (r: Option<String>)
    ensures
        match (r, ip_from_scan_spec(out@)) {
            (Some(v), Some(sv)) => v@ == sv,
            (None, None) => true,
            _ => false,
        },
{
    let cs = chars_of(out);
    let ls = lines_of(cs.as_slice());
    let mut i: usize = 0;
    proof {
        assert(lines_spec(out@).skip(0) =~~= lines_spec(out@));
    }
    while i < ls.len()
        invariant
            0 <= i <= ls@.len(),
            ls.deep_view() == lines_spec(out@),
            ls@.len() == ls.deep_view().len(),
            scan_lines_spec(lines_spec(out@)) == scan_lines_spec(ls.deep_view().skip(i as int)),
        decreases ls@.len() - i,
    {
        let ghost rest = ls.deep_view().skip(i as int);
        proof {
            assert(rest[0] == ls.deep_view()[i as int]);
            assert(rest.skip(1) =~~= ls.deep_view().skip(i + 1));
            assert(ls@[i as int]@ =~= ls.deep_view()[i as int]);
        }
        match scan_one_line(ls[i].as_slice()) {
            Some(ip) => {
                return Some(ip);
            },
            None => {},
        }
        i = i + 1;
    }
    proof {
        assert(ls.deep_view().skip(ls@.len() as int) =~~= Seq::<Seq<char>>::empty());
    }
    None
}

/// The strategy cascade: the route lookup first, then the known
/// interfaces in order, then `ifconfig`, then the broad scan; the
/// first address found wins, and with none the caller reports the
/// WiFi hint.  A strategy whose command could not run contributes
/// nothing.
pub fn get_device_ip(
    route: Option<&CommandResult>,
    wlan0: Option<&CommandResult>,
    eth0: Option<&CommandResult>,
    wlan1: Option<&CommandResult>,
    ifconfig: Option<&CommandResult>,
    all_ifaces: Option<&CommandResult>,
) -> (r: Result<String, String>)
    ensures
        ({
            let s1 = match route {
                Some(o) => ip_from_route_spec(o@.stdout),
                None => None::<Seq<char>>,
            };
            let s2 = match wlan0 {
                Some(o) => ip_from_addr_show_spec(o@.stdout),
                None => None::<Seq<char>>,
            };
            let s3 = match eth0 {
                Some(o) => ip_from_addr_show_spec(o@.stdout),
                None => None::<Seq<char>>,
            };
            let s4 = match wlan1 {
                Some(o) => ip_from_addr_show_spec(o@.stdout),
                None => None::<Seq<char>>,
            };
            let s5 = match ifconfig {
                Some(o) => ip_from_ifconfig_spec(o@.stdout),
                None => None::<Seq<char>>,
            };
            let s6 = match all_ifaces {
                Some(o) => ip_from_scan_spec(o@.stdout),
                None => None::<Seq<char>>,
            };
            let winner = if s1 is Some {
                s1
            } else if s2 is Some {
                s2
            } else if s3 is Some {
                s3
            } else if s4 is Some {
                s4
            } else if s5 is Some {
                s5
            } else {
                s6
            };
            match winner {
                Some(ip) => r matches Ok(v) && v@ == ip,
                None => r matches Err(e) && e@
                    == "Could not determine IP. Ensure WiFi is connected."@,
            }
        }),
{
    if let Some(o) = route {
        if let Some(ip) = parse_ip_route(o.stdout.as_str()) {
            return Ok(ip);
        }
    }
    if let Some(o) = wlan0 {
        if let Some(ip) = parse_ip_addr_show(o.stdout.as_str()) {
            return Ok(ip);
        }
    }
    if let Some(o) = eth0 {
        if let Some(ip) = parse_ip_addr_show(o.stdout.as_str()) {
            return Ok(ip);
        }
    }
    if let Some(o) = wlan1 {
        if let Some(ip) = parse_ip_addr_show(o.stdout.as_str()) {
            return Ok(ip);
        }
    }
    if let Some(o) = ifconfig {
        if let Some(ip) = parse_ifconfig(o.stdout.as_str()) {
            return Ok(ip);
        }
    }
    if let Some(o) = all_ifaces {
        if let Some(ip) = parse_ip_scan(o.stdout.as_str()) {
            return Ok(ip);
        }
    }
    Err(String::from_str("Could not determine IP. Ensure WiFi is connected."))
}

} // verus!
