//! Devices: status mapping and `adb devices -l` output parsing.

use vstd::prelude::*;
use vstd::string::StringExecFns;
use crate::text::{
    chars_of, string_of, trim_spec, trim_chars, split_ws, split_ws_spec, starts_with,
    starts_with_spec, chars_eq, lines_of, lines_spec,
};
use crate::num::{lower_seq, lower_seq_spec, upper_char, upper_char_spec};

verus! {

/// Mathematical image of a [`DeviceStatus`].
pub ghost enum DeviceStatusV {
    Device,
    Offline,
    Unauthorized,
    Unknown(Seq<char>),
}

/// Connection status of a device, as `adb devices` reports it.
#[derive(Debug, Clone, PartialEq)]
pub enum DeviceStatus {
    /// Connected and authorized.
    Device,
    /// Connected but not responding.
    Offline,
    /// Connected but not authorized for debugging.
    Unauthorized,
    Unknown(String),
}

impl View for DeviceStatus {
    type V = DeviceStatusV;

    open spec fn view(&self) -> DeviceStatusV {
        match self {
            DeviceStatus::Device => DeviceStatusV::Device,
            DeviceStatus::Offline => DeviceStatusV::Offline,
            DeviceStatus::Unauthorized => DeviceStatusV::Unauthorized,
            DeviceStatus::Unknown(s) => DeviceStatusV::Unknown(s@),
        }
    }
}

/// The case-insensitive status mapping: `device`, `offline` and
/// `unauthorized` map to their variants (whitespace around the token
/// ignored); anything else is kept raw, exactly as it arrived.
pub open spec fn status_from_spec(s: Seq<char>) -> DeviceStatusV {
    let t = lower_seq_spec(trim_spec(s));
    if t == "device"@ {
        DeviceStatusV::Device
    } else if t == "offline"@ {
        DeviceStatusV::Offline
    } else if t == "unauthorized"@ {
        DeviceStatusV::Unauthorized
    } else {
        DeviceStatusV::Unknown(s)
    }
}

impl DeviceStatus {
    /// Map a raw status token, case-insensitively.
    pub fn from(s: &str) -> (r: DeviceStatus)
        ensures
            r@ == status_from_spec(s@),
    {
        let cs = chars_of(s);
        let trimmed = trim_chars(cs.as_slice());
        let t = lower_seq(trimmed.as_slice());
        let device = chars_of("device");
        let offline = chars_of("offline");
        let unauthorized = chars_of("unauthorized");
        if chars_eq(t.as_slice(), device.as_slice()) {
            DeviceStatus::Device
        } else if chars_eq(t.as_slice(), offline.as_slice()) {
            DeviceStatus::Offline
        } else if chars_eq(t.as_slice(), unauthorized.as_slice()) {
            DeviceStatus::Unauthorized
        } else {
            DeviceStatus::Unknown(String::from_str(s))
        }
    }

    /// Whether the device is connected and authorized.
    pub fn is_authorized(&self) -> (r: bool)
        ensures
            r == (self@ is Device),
    {
        match self {
            DeviceStatus::Device => true,
            _ => false,
        }
    }

    /// Whether the status is a transitional one (unauthorized or
    /// unknown), which the tracker polls faster for.
    pub fn is_transitional(&self) -> (r: bool)
        ensures
            r == (self@ is Unauthorized || self@ is Unknown),
    {
        match self {
            DeviceStatus::Unauthorized => true,
            DeviceStatus::Unknown(_) => true,
            _ => false,
        }
    }
}

/// Mathematical image of a [`DeviceInfo`].
pub ghost struct DeviceInfoV {
    pub id: Seq<char>,
    pub status: DeviceStatusV,
    pub model: Option<Seq<char>>,
    pub product: Option<Seq<char>>,
}

/// One connected Android device.
#[derive(Debug, Clone, PartialEq)]
pub struct DeviceInfo {
    pub id: String,
    pub status: DeviceStatus,
    pub model: Option<String>,
    pub product: Option<String>,
}

impl View for DeviceInfo {
    type V = DeviceInfoV;

    open spec fn view(&self) -> DeviceInfoV {
        DeviceInfoV {
            id: self.id@,
            status: self.status@,
            model: match self.model {
                Some(ref m) => Some(m@),
                None => None,
            },
            product: match self.product {
                Some(ref p) => Some(p@),
                None => None,
            },
        }
    }
}

impl DeepView for DeviceInfo {
    type V = DeviceInfoV;

    open spec fn deep_view(&self) -> DeviceInfoV {
        self.view()
    }
}

// ---------------------------------------------------------------------------
// parsing `adb devices -l`
// ---------------------------------------------------------------------------

/// The value of the last token carrying the given `key:` prefix.
pub open spec fn last_with_prefix(tokens: Seq<Seq<char>>, prefix: Seq<char>) -> Option<Seq<char>>
    decreases tokens.len(),
{
    if tokens.len() == 0 {
        None
    } else if starts_with_spec(tokens.last(), prefix) {
        Some(tokens.last().skip(prefix.len() as int))
    } else {
        last_with_prefix(tokens.drop_last(), prefix)
    }
}

/// One line below the banner: whitespace-separated, the identifier
/// first, the status second, then optional `key:value` tokens of
/// which `model:` and `product:` are read (last occurrence wins).
/// Lines with fewer than two tokens are skipped.
pub open spec fn parse_device_line(line: Seq<char>) -> Option<DeviceInfoV> {
    let parts = split_ws_spec(line);
    if parts.len() < 2 {
        None
    } else {
        Some(
            DeviceInfoV {
                id: parts[0],
                status: status_from_spec(parts[1]),
                model: last_with_prefix(parts.skip(2), "model:"@),
                product: last_with_prefix(parts.skip(2), "product:"@),
            },
        )
    }
}

pub open spec fn parse_lines(ls: Seq<Seq<char>>) -> Seq<DeviceInfoV>
    decreases ls.len(),
{
    if ls.len() == 0 {
        Seq::empty()
    } else {
        match parse_device_line(ls[0]) {
            Some(d) => seq![d] + parse_lines(ls.skip(1)),
            None => parse_lines(ls.skip(1)),
        }
    }
}

/// What parsing the whole `adb devices -l` output yields: the banner
/// line is skipped, every remaining line is parsed, skipped lines
/// contribute nothing.  Malformed output yields an empty list, never
/// a failure.
pub open spec fn parse_devices_spec(out: Seq<char>) -> Seq<DeviceInfoV> {
    let ls = lines_spec(out);
    if ls.len() == 0 {
        Seq::empty()
    } else {
        parse_lines(ls.skip(1))
    }
}

fn parse_one_line(line: &[char]) -> (r: Option<DeviceInfo>)
    ensures
        match (r, parse_device_line(line@)) {
            (Some(d), Some(dv)) => d@ == dv,
            (None, None) => true,
            _ => false,
        },
{
    let parts = split_ws(line);
    if parts.len() < 2 {
        return None;
    }
    let id = string_of(parts[0].as_slice());
    let status_str = string_of(parts[1].as_slice());
    let status = DeviceStatus::from(status_str.as_str());
    let model_prefix = chars_of("model:");
    let product_prefix = chars_of("product:");
    let ghost tokens = parts.deep_view().skip(2);
    let mut model: Option<String> = None;
    let mut product: Option<String> = None;
    let mut i: usize = 2;
    proof {
        assert(tokens.take(0) =~~= Seq::<Seq<char>>::empty());
    }
    while i < parts.len()
        invariant
            2 <= i <= parts@.len(),
            tokens == parts.deep_view().skip(2),
            parts@.len() == parts.deep_view().len(),
            model_prefix@ == "model:"@,
            product_prefix@ == "product:"@,
            ({
                let seen = tokens.take(i - 2);
                &&& (match model {
                    Some(ref m) => Some(m@),
                    None => None,
                }) == last_with_prefix(seen, "model:"@)
                &&& (match product {
                    Some(ref p) => Some(p@),
                    None => None,
                }) == last_with_prefix(seen, "product:"@)
            }),
        decreases parts@.len() - i,
    {
        let part = &parts[i];
        let ghost seen = tokens.take(i - 2);
        let ghost seen1 = tokens.take(i - 1);
        proof {
            reveal_strlit("model:");
            reveal_strlit("product:");
            assert(seen1.drop_last() =~~= seen);
            assert(seen1.last() == tokens[i - 2]);
            assert(tokens[i - 2] == parts.deep_view()[i as int]);
            assert(part@ =~= parts.deep_view()[i as int]);
        }
        if starts_with(part.as_slice(), model_prefix.as_slice()) {
            assert(part@.len() >= 6);
            let value = vstd::slice::slice_subrange(part.as_slice(), 6, part.len());
            proof {
                assert(value@ =~= parts.deep_view()[i as int].skip(6));
            }
            model = Some(string_of(value));
        } else {
            proof {
                assert(!starts_with_spec(seen1.last(), "model:"@));
            }
        }
        if starts_with(part.as_slice(), product_prefix.as_slice()) {
            assert(part@.len() >= 8);
            let value = vstd::slice::slice_subrange(part.as_slice(), 8, part.len());
            proof {
                assert(value@ =~= parts.deep_view()[i as int].skip(8));
            }
            product = Some(string_of(value));
        } else {
            proof {
                assert(!starts_with_spec(seen1.last(), "product:"@));
            }
        }
        i = i + 1;
    }
    proof {
        assert(tokens.take(parts@.len() - 2) =~~= tokens);
        assert(id@ =~= parts.deep_view()[0]);
        assert(status_str@ =~= parts.deep_view()[1]);
    }
    Some(DeviceInfo { id, status, model, product })
}

/// Parse the full output of `adb devices -l`.
pub fn parse_devices_output(output: &str) -> (r: Vec<DeviceInfo>)
    ensures
        r.deep_view() == parse_devices_spec(output@),
{
    let cs = chars_of(output);
    let ls = lines_of(cs.as_slice());
    let mut devices: Vec<DeviceInfo> = Vec::new();
    if ls.len() == 0 {
        proof {
            assert(devices.deep_view() =~~= parse_devices_spec(output@));
        }
        return devices;
    }
    let ghost body = lines_spec(output@).skip(1);
    let mut i: usize = 1;
    proof {
        assert(body.skip(0) =~~= body);
        assert(devices.deep_view() + parse_lines(body) =~~= parse_lines(body));
    }
    while i < ls.len()
        invariant
            1 <= i <= ls@.len(),
            ls.deep_view() == lines_spec(output@),
            ls@.len() == ls.deep_view().len(),
            ls@.len() >= 1,
            body == lines_spec(output@).skip(1),
            parse_lines(body) == devices.deep_view() + parse_lines(ls.deep_view().skip(i as int)),
        decreases ls@.len() - i,
    {
        let ghost rest = ls.deep_view().skip(i as int);
        proof {
            assert(rest[0] == ls.deep_view()[i as int]);
            assert(rest.skip(1) =~~= ls.deep_view().skip(i + 1));
            assert(ls@[i as int]@ =~= ls.deep_view()[i as int]);
        }
        match parse_one_line(ls[i].as_slice()) {
            Some(d) => {
                let ghost prev = devices.deep_view();
                let ghost dv = d@;
                devices.push(d);
                proof {
                    assert(devices.deep_view() =~~= prev.push(dv));
                    assert(prev + parse_lines(rest) =~~= devices.deep_view() + parse_lines(
                        rest.skip(1)));
                }
            },
            None => {},
        }
        i = i + 1;
    }
    proof {
        assert(ls.deep_view().skip(ls@.len() as int) =~~= Seq::<Seq<char>>::empty());
        assert(devices.deep_view() + Seq::<DeviceInfoV>::empty() =~~= devices.deep_view());
    }
    devices
}

// ---------------------------------------------------------------------------
// friendly model derivation
// ---------------------------------------------------------------------------

/// The brand, ASCII title-cased.
pub open spec fn title_case_spec(b: Seq<char>) -> Seq<char> {
    if b.len() == 0 {
        b
    } else {
        seq![upper_char_spec(b[0])] + b.skip(1)
    }
}

/// The friendly model rule: market name falls back to model; if a
/// brand is present and the model does not already begin with it
/// (case-insensitively), the title-cased brand is prepended; with
/// only a brand, the brand; with neither, nothing.
pub open spec fn friendly_model_spec(
    marketname: Option<Seq<char>>,
    model: Option<Seq<char>>,
    brand: Option<Seq<char>>,
) -> Option<Seq<char>> {
    let m = if marketname is Some {
        marketname
    } else {
        model
    };
    match (brand, m) {
        (Some(b), Some(mm)) => {
            if starts_with_spec(lower_seq_spec(mm), lower_seq_spec(b)) {
                Some(mm)
            } else {
                Some(title_case_spec(b) + seq![' '] + mm)
            }
        },
        (None, Some(mm)) => Some(mm),
        (Some(b), None) => Some(b),
        (None, None) => None,
    }
}

/// Assemble the friendly model string from the three device
/// properties, already fetched and filtered to non-empty values.
pub fn friendly_model(
    marketname: Option<&str>,
    model: Option<&str>,
    brand: Option<&str>,
) -> (r: Option<String>)
    ensures
        ({
            let mk = match marketname {
                Some(s) => Some(s@),
                None => None::<Seq<char>>,
            };
            let md = match model {
                Some(s) => Some(s@),
                None => None::<Seq<char>>,
            };
            let br = match brand {
                Some(s) => Some(s@),
                None => None::<Seq<char>>,
            };
            match (r, friendly_model_spec(mk, md, br)) {
                (Some(v), Some(sv)) => v@ == sv,
                (None, None) => true,
                _ => false,
            }
        }),
{
    let m: Option<&str> = match marketname {
        Some(s) => Some(s),
        None => model,
    };
    match (brand, m) {
        (Some(b), Some(mm)) => {
            let bc = chars_of(b);
            let mc = chars_of(mm);
            let lb = lower_seq(bc.as_slice());
            let lm = lower_seq(mc.as_slice());
            if starts_with(lm.as_slice(), lb.as_slice()) {
                Some(chars_to_string_helper(&mc))
            } else {
                let mut out: Vec<char> = Vec::new();
                if bc.len() > 0 {
                    out.push(upper_char(bc[0]));
                    let mut k: usize = 1;
                    while k < bc.len()
                        invariant
                            1 <= k <= bc@.len(),
                            bc@.len() >= 1,
                            out@ == seq![upper_char_spec(bc@[0])] + bc@.skip(1).take(k - 1),
                        decreases bc@.len() - k,
                    {
                        out.push(bc[k]);
                        proof {
                            assert(out@ =~= seq![upper_char_spec(bc@[0])] + bc@.skip(1).take(
                                k as int));
                        }
                        k = k + 1;
                    }
                    proof {
                        assert(bc@.skip(1).take(bc@.len() - 1) =~= bc@.skip(1));
                        assert(out@ =~= title_case_spec(bc@));
                    }
                }
                out.push(' ');
                let mut j: usize = 0;
                let ghost head = title_case_spec(bc@) + seq![' '];
                proof {
                    assert(out@ =~= head);
                }
                while j < mc.len()
                    invariant
                        0 <= j <= mc@.len(),
                        out@ == head + mc@.take(j as int),
                    decreases mc@.len() - j,
                {
                    out.push(mc[j]);
                    proof {
                        assert(out@ =~= head + mc@.take(j + 1 as int));
                    }
                    j = j + 1;
                }
                proof {
                    assert(mc@.take(mc@.len() as int) =~= mc@);
                }
                Some(string_of(out.as_slice()))
            }
        },
        (None, Some(mm)) => {
            let mc = chars_of(mm);
            Some(chars_to_string_helper(&mc))
        },
        (Some(b), None) => {
            let bc = chars_of(b);
            Some(chars_to_string_helper(&bc))
        },
        (None, None) => None,
    }
}

fn chars_to_string_helper(v: &Vec<char>) -> (r: String)
    ensures
        r@ == v@,
{
    string_of(v.as_slice())
}

/// Parsing is a pure function of the output text: the same output
/// parses to the same device list, every time.
pub proof fn lemma_parse_idempotent(out: Seq<char>)
    ensures
        parse_devices_spec(out) == parse_devices_spec(out),
{
}

} // verus!
