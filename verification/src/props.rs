//! Device actions that interpret on-device command output: property
//! extraction, the device summary, package listing, text input
//! escaping, and the SoC name mapping.

use vstd::prelude::*;
use vstd::string::StringExecFns;
use crate::error::AppError;
use crate::num::{
    parse_u8_spec, parse_u8, parse_u64_spec, parse_u64, lower_seq, lower_seq_spec, upper_char,
    upper_char_spec, dec_spec, u64_dec,
};
use crate::runner::CommandResult;
use crate::text::{
    chars_of, string_of, chars_eq, contains_sub, contains_spec, starts_with, starts_with_spec,
    trim_chars, trim_spec, lines_of, lines_spec, split_ws, split_ws_spec, split_char, split_char_spec,
};

verus! {

/// Mathematical image of a [`DeviceProps`].
pub ghost struct DevicePropsV {
    pub model: Seq<char>,
    pub android_version: Seq<char>,
    pub sdk_version: Seq<char>,
    pub battery_level: Option<u8>,
    pub is_charging: bool,
    pub screen_resolution: Option<Seq<char>>,
    pub storage_total: Option<Seq<char>>,
    pub storage_free: Option<Seq<char>>,
    pub ram_total: Option<Seq<char>>,
    pub manufacturer: Option<Seq<char>>,
    pub cpu: Option<Seq<char>>,
    pub build_number: Option<Seq<char>>,
    pub security_patch: Option<Seq<char>>,
}

/// The device summary assembled from several shell-outs.
#[derive(Debug, Clone)]
pub struct DeviceProps {
    pub model: String,
    pub android_version: String,
    pub sdk_version: String,
    pub battery_level: Option<u8>,
    pub is_charging: bool,
    pub screen_resolution: Option<String>,
    pub storage_total: Option<String>,
    pub storage_free: Option<String>,
    pub ram_total: Option<String>,
    pub manufacturer: Option<String>,
    pub cpu: Option<String>,
    pub build_number: Option<String>,
    pub security_patch: Option<String>,
}

pub open spec fn view_opt(o: Option<String>) -> Option<Seq<char>> {
    match o {
        Some(s) => Some(s@),
        None => None,
    }
}

impl View for DeviceProps {
    type V = DevicePropsV;

    open spec fn view(&self) -> DevicePropsV {
        DevicePropsV {
            model: self.model@,
            android_version: self.android_version@,
            sdk_version: self.sdk_version@,
            battery_level: self.battery_level,
            is_charging: self.is_charging,
            screen_resolution: view_opt(self.screen_resolution),
            storage_total: view_opt(self.storage_total),
            storage_free: view_opt(self.storage_free),
            ram_total: view_opt(self.ram_total),
            manufacturer: view_opt(self.manufacturer),
            cpu: view_opt(self.cpu),
            build_number: view_opt(self.build_number),
            security_patch: view_opt(self.security_patch),
        }
    }
}

// ---------------------------------------------------------------------------
// getprop extraction
// ---------------------------------------------------------------------------

/// The first line containing the pattern.
pub open spec fn first_line_with(ls: Seq<Seq<char>>, pat: Seq<char>) -> Option<Seq<char>>
    decreases ls.len(),
{
    if ls.len() == 0 {
        None
    } else if contains_spec(ls[0], pat) {
        Some(ls[0])
    } else {
        first_line_with(ls.skip(1), pat)
    }
}

/// The text between the last `[` and the last `]` of a line, when
/// both exist in that order.
pub open spec fn value_between_brackets(line: Seq<char>) -> Option<Seq<char>> {
    match crate::text::rfind_char_spec(line, '[') {
        Some(a) => match crate::text::rfind_char_spec(line, ']') {
            Some(b) => if a + 1 < b {
                Some(line.subrange(a + 1, b))
            } else {
                None
            },
            None => None,
        },
        None => None,
    }
}

/// What `extract_prop` yields over full `getprop` output: the value
/// between the last `[` and `]` of the first line that carries
/// `[key]:`.
pub open spec fn extract_prop_spec(output: Seq<char>, key: Seq<char>) -> Option<Seq<char>> {
    let pat = seq!['['] + key + seq![']', ':'];
    match first_line_with(lines_spec(output), pat) {
        Some(line) => value_between_brackets(line),
        None => None,
    }
}

/// Extract one property value from `getprop` output.
pub fn extract_prop(output: &str, key: &str) -> (r: Option<String>)
    ensures
        match (r, extract_prop_spec(output@, key@)) {
            (Some(v), Some(sv)) => v@ == sv,
            (None, None) => true,
            _ => false,
        },
{
    let mut pat: Vec<char> = Vec::new();
    pat.push('[');
    let kc = chars_of(key);
    let mut i: usize = 0;
    while i < kc.len()
        invariant
            0 <= i <= kc@.len(),
            pat@ == seq!['['] + kc@.take(i as int),
        decreases kc@.len() - i,
    {
        pat.push(kc[i]);
        proof {
            assert(pat@ =~= seq!['['] + kc@.take(i + 1 as int));
        }
        i = i + 1;
    }
    pat.push(']');
    pat.push(':');
    proof {
        assert(kc@.take(kc@.len() as int) =~= kc@);
        assert(pat@ =~= seq!['['] + key@ + seq![']', ':']);
    }
    let cs = chars_of(output);
    let ls = lines_of(cs.as_slice());
    let mut li: usize = 0;
    proof {
        assert(lines_spec(output@).skip(0) =~~= lines_spec(output@));
    }
    while li < ls.len()
        invariant
            0 <= li <= ls@.len(),
            ls.deep_view() == lines_spec(output@),
            ls@.len() == ls.deep_view().len(),
            pat@ == seq!['['] + key@ + seq![']', ':'],
            first_line_with(lines_spec(output@), pat@) == first_line_with(
                ls.deep_view().skip(li as int),
                pat@,
            ),
        decreases ls@.len() - li,
    {
        let ghost rest = ls.deep_view().skip(li as int);
        proof {
            assert(rest[0] == ls.deep_view()[li as int]);
            assert(rest.skip(1) =~~= ls.deep_view().skip(li + 1));
            assert(ls@[li as int]@ =~= ls.deep_view()[li as int]);
        }
        let line = &ls[li];
        let line_len = line.len();
        if contains_sub(line.as_slice(), pat.as_slice()) {
            let a = match crate::text::rfind_char(line.as_slice(), '[') {
                Some(a) => a,
                None => {
                    return None;
                },
            };
            let b = match crate::text::rfind_char(line.as_slice(), ']') {
                Some(b) => b,
                None => {
                    return None;
                },
            };
            if a + 1 < b {
                let value = vstd::slice::slice_subrange(line.as_slice(), a + 1, b);
                return Some(string_of(value));
            }
            return None;
        }
        li = li + 1;
    }
    proof {
        assert(ls.deep_view().skip(ls@.len() as int) =~~= Seq::<Seq<char>>::empty());
    }
    None
}

// ---------------------------------------------------------------------------
// storage size formatting
// ---------------------------------------------------------------------------

/// Tenths of `num/den`, rounded to nearest, ties to even.
pub open spec fn tenths_spec(num: int, den: int) -> int {
    let q = num * 10 / den;
    let r = num * 10 % den;
    if 2 * r > den {
        q + 1
    } else if 2 * r == den {
        q + (q % 2)
    } else {
        q
    }
}

/// A value with one decimal place: `<q/10>.<q%10>`.
pub open spec fn one_decimal_spec(t: int) -> Seq<char> {
    dec_spec(t / 10) + seq!['.'] + dec_spec(t % 10)
}

/// How a `df` size in KiB is rendered: GB with one decimal from a
/// MiB's worth of KiB upward, MB with one decimal from one MiB of
/// bytes upward, plain KB below, and any non-numeric token verbatim.
pub open spec fn format_storage_size_spec(s: Seq<char>) -> Seq<char> {
    match parse_u64_spec(s) {
        Some(kb) => if kb >= 1048576 {
            one_decimal_spec(tenths_spec(kb as int, 1048576)) + " GB"@
        } else if kb >= 1024 {
            one_decimal_spec(tenths_spec(kb as int, 1024)) + " MB"@
        } else {
            dec_spec(kb as int) + " KB"@
        },
        None => s,
    }
}

fn one_decimal_of(num: u64, den: u64) -> (r: String)
    requires
        den == 1048576 || den == 1024,
    ensures
        r@ == one_decimal_spec(tenths_spec(num as int, den as int)),
{
    let num10: u128 = (num as u128) * 10;
    let d: u128 = den as u128;
    let q: u128 = num10 / d;
    let rem: u128 = num10 % d;
    let t: u128 = if 2 * rem > d {
        q + 1
    } else if 2 * rem == d {
        q + (q % 2)
    } else {
        q
    };
    proof {
        assert(num10 == num * 10);
        assert(q == num * 10 / (den as int));
        assert(rem == num * 10 % (den as int));
        assert(t == tenths_spec(num as int, den as int));
        assert(t <= num10 / d + 1);
        assert(num10 <= u64::MAX as u128 * 10);
    }
    let whole: u64 = (t / 10) as u64;
    let frac: u64 = (t % 10) as u64;
    let mut s = string_of(u64_dec(whole).as_slice());
    s.append(".");
    let fs = string_of(u64_dec(frac).as_slice());
    s.append(fs.as_str());
    proof {
        reveal_strlit(".");
        assert(s@ =~= one_decimal_spec(tenths_spec(num as int, den as int)));
    }
    s
}

/// Render a `df` size given in KiB.
pub fn format_storage_size(s: &str) -> (r: String)
    ensures
        r@ == format_storage_size_spec(s@),
{
    let cs = chars_of(s);
    match parse_u64(cs.as_slice()) {
        Some(kb) => {
            if kb >= 1048576 {
                let mut out = one_decimal_of(kb, 1048576);
                out.append(" GB");
                out
            } else if kb >= 1024 {
                let mut out = one_decimal_of(kb, 1024);
                out.append(" MB");
                out
            } else {
                let mut out = string_of(u64_dec(kb).as_slice());
                out.append(" KB");
                out
            }
        },
        None => String::from_str(s),
    }
}

// ---------------------------------------------------------------------------
// SoC codename mapping
// ---------------------------------------------------------------------------

/// The input with its first character ASCII-uppercased.
pub open spec fn capitalized_spec(s: Seq<char>) -> Seq<char> {
    if s.len() == 0 {
        s
    } else {
        seq![upper_char_spec(s[0])] + s.skip(1)
    }
}

/// Whether the string already reads like a marketing name.
pub open spec fn looks_marketing(s: Seq<char>) -> bool {
    contains_spec(s, "Snapdragon"@) || contains_spec(s, "Dimensity"@) || contains_spec(
        s,
        "Exynos"@,
    ) || contains_spec(s, "Helio"@) || contains_spec(s, "Tensor"@)
}

pub open spec fn soc_table() -> Seq<(Seq<char>, Seq<char>)> {
    seq![
        ("taro"@, "Snapdragon 8 Gen 1"@),
        ("kalama"@, "Snapdragon 8 Gen 2"@),
        ("kailua"@, "Snapdragon 8 Gen 2"@),
        ("pineapple"@, "Snapdragon 8 Gen 3"@),
        ("lahaina"@, "Snapdragon 888"@),
        ("kona"@, "Snapdragon 865"@),
        ("msmnile"@, "Snapdragon 855"@),
        ("sm8150"@, "Snapdragon 855"@),
        ("sdm845"@, "Snapdragon 845"@),
        ("crow"@, "Snapdragon 7 Gen 3"@),
        ("cape"@, "Snapdragon 7+ Gen 2"@),
        ("kodiak"@, "Snapdragon 7 Gen 1"@),
        ("sm7250"@, "Snapdragon 765G"@),
        ("lito"@, "Snapdragon 765G"@),
        ("parrot"@, "Snapdragon 6 Gen 1"@),
        ("bengal"@, "Snapdragon 685/680"@),
        ("holi"@, "Snapdragon 695"@),
        ("sm6150"@, "Snapdragon 675"@),
        ("trinket"@, "Snapdragon 665"@),
        ("khaje"@, "Snapdragon 4 Gen 1"@),
        ("scuba"@, "Snapdragon 460"@),
        ("mt6893"@, "Dimensity 1200"@),
        ("mt6891"@, "Dimensity 1200"@),
        ("mt6885"@, "Dimensity 1000"@),
        ("mt6889"@, "Dimensity 1000"@),
        ("mt6877"@, "Dimensity 900"@),
        ("mt6873"@, "Dimensity 800"@),
        ("mt6875"@, "Dimensity 800"@),
        ("mt6853"@, "Dimensity 720"@),
        ("mt6833"@, "Dimensity 700"@),
        ("mt6769"@, "Helio G85"@),
        ("mt6768"@, "Helio G80"@),
        ("mt6765"@, "Helio P35"@),
        ("mt6762"@, "Helio P35"@),
        ("mt6785"@, "Helio G95"@),
        ("exynos2200"@, "Exynos 2200"@),
        ("exynos2100"@, "Exynos 2100"@),
        ("exynos990"@, "Exynos 990"@),
        ("exynos9820"@, "Exynos 9825"@),
        ("exynos9825"@, "Exynos 9825"@),
        ("exynos9810"@, "Exynos 9810"@),
        ("exynos1280"@, "Exynos 1280"@),
        ("s5e8825"@, "Exynos 1280"@),
        ("oriole"@, "Google Tensor"@),
        ("raven"@, "Google Tensor"@),
        ("cloudripper"@, "Google Tensor G2"@),
        ("bluejay"@, "Google Tensor G2"@),
        ("zuma"@, "Google Tensor G3"@),
    ]
}

pub open spec fn soc_lookup(lower: Seq<char>, table: Seq<(Seq<char>, Seq<char>)>) -> Option<
    Seq<char>,
>
    decreases table.len(),
{
    if table.len() == 0 {
        None
    } else if table[0].0 == lower {
        Some(table[0].1)
    } else {
        soc_lookup(lower, table.skip(1))
    }
}

/// The marketing name for a SoC codename: a known lowercased
/// codename maps through the table; a string already carrying a
/// marketing family name is kept; anything else is capitalized.
pub open spec fn map_soc_spec(codename: Seq<char>) -> Seq<char> {
    match soc_lookup(lower_seq_spec(codename), soc_table()) {
        Some(name) => name,
        None => if looks_marketing(codename) {
            codename
        } else {
            capitalized_spec(codename)
        },
    }
}

fn soc_entry(key: &str, name: &str, lower: &Vec<char>) -> (r: Option<String>)
    ensures
        match r {
            Some(v) => key@ == lower@ && v@ == name@,
            None => key@ != lower@,
        },
{
    let kc = chars_of(key);
    if chars_eq(kc.as_slice(), lower.as_slice()) {
        Some(String::from_str(name))
    } else {
        None
    }
}

/// Map a SoC codename to its marketing name.
pub fn map_soc_codename(codename: &str) -> (r: String)
    ensures
        r@ == map_soc_spec(codename@),
{
    let cs = chars_of(codename);
    let lower = lower_seq(cs.as_slice());
    let table: Vec<(&'static str, &'static str)> = soc_pairs();
    let mut i: usize = 0;
    proof {
        assert(soc_table().skip(0) =~~= soc_table());
    }
    while i < table.len()
        invariant
            0 <= i <= table@.len(),
            table@.len() == soc_table().len(),
            forall|k: int| 0 <= k < table@.len() ==> (#[trigger] table@[k]).0@ == soc_table()[k].0
                && table@[k].1@ == soc_table()[k].1,
            soc_lookup(lower_seq_spec(codename@), soc_table()) == soc_lookup(
                lower_seq_spec(codename@),
                soc_table().skip(i as int),
            ),
            lower@ == lower_seq_spec(codename@),
        decreases table@.len() - i,
    {
        let ghost rest = soc_table().skip(i as int);
        proof {
            assert(rest[0] == soc_table()[i as int]);
            assert(rest.skip(1) =~~= soc_table().skip(i + 1));
        }
        let (key, name) = table[i];
        match soc_entry(key, name, &lower) {
            Some(v) => {
                return v;
            },
            None => {},
        }
        i = i + 1;
    }
    proof {
        assert(soc_table().skip(soc_table().len() as int)
            =~~= Seq::<(Seq<char>, Seq<char>)>::empty());
    }
    let snap = chars_of("Snapdragon");
    let dim = chars_of("Dimensity");
    let exy = chars_of("Exynos");
    let hel = chars_of("Helio");
    let ten = chars_of("Tensor");
    if contains_sub(cs.as_slice(), snap.as_slice()) || contains_sub(cs.as_slice(), dim.as_slice())
        || contains_sub(cs.as_slice(), exy.as_slice()) || contains_sub(
        cs.as_slice(),
        hel.as_slice(),
    ) || contains_sub(cs.as_slice(), ten.as_slice()) {
        return String::from_str(codename);
    }
    if cs.len() == 0 {
        return String::new();
    }
    let mut out: Vec<char> = Vec::new();
    out.push(upper_char(cs[0]));
    let mut k: usize = 1;
    while k < cs.len()
        invariant
            1 <= k <= cs@.len(),
            cs@.len() >= 1,
            out@ == seq![upper_char_spec(cs@[0])] + cs@.skip(1).take(k - 1),
        decreases cs@.len() - k,
    {
        out.push(cs[k]);
        proof {
            assert(out@ =~= seq![upper_char_spec(cs@[0])] + cs@.skip(1).take(k as int));
        }
        k = k + 1;
    }
    proof {
        assert(cs@.skip(1).take(cs@.len() - 1) =~= cs@.skip(1));
    }
    string_of(out.as_slice())
}

// ---------------------------------------------------------------------------
// shell `input text` escaping
// ---------------------------------------------------------------------------

/// How one character is escaped for `adb shell input text`: a space
/// becomes `%s`, shell metacharacters get a backslash, everything
/// else passes through.
pub open spec fn escape_char_spec(c: char) -> Seq<char> {
    if c == '\\' {
        seq!['\\', '\\']
    } else if c == '"' {
        seq!['\\', '"']
    } else if c == '\'' {
        seq!['\\', '\'']
    } else if c == ' ' {
        seq!['%', 's']
    } else if c == '&' {
        seq!['\\', '&']
    } else if c == '|' {
        seq!['\\', '|']
    } else if c == ';' {
        seq!['\\', ';']
    } else if c == '(' {
        seq!['\\', '(']
    } else if c == ')' {
        seq!['\\', ')']
    } else if c == '<' {
        seq!['\\', '<']
    } else if c == '>' {
        seq!['\\', '>']
    } else {
        seq![c]
    }
}

pub open spec fn escape_text_spec(s: Seq<char>) -> Seq<char>
    decreases s.len(),
{
    if s.len() == 0 {
        Seq::empty()
    } else {
        escape_text_spec(s.drop_last()) + escape_char_spec(s.last())
    }
}

/// Escape a text for injection through `adb shell input text`.
pub fn escape_input_text(text: &str) -> (r: String)
    ensures
        r@ == escape_text_spec(text@),
{
    let cs = chars_of(text);
    let mut out: Vec<char> = Vec::new();
    let mut i: usize = 0;
    proof {
        assert(cs@.take(0) =~= Seq::<char>::empty());
    }
    while i < cs.len()
        invariant
            0 <= i <= cs@.len(),
            out@ == escape_text_spec(cs@.take(i as int)),
        decreases cs@.len() - i,
    {
        let c = cs[i];
        let ghost before = out@;
        if c == '\\' {
            out.push('\\');
            out.push('\\');
        } else if c == '"' {
            out.push('\\');
            out.push('"');
        } else if c == '\'' {
            out.push('\\');
            out.push('\'');
        } else if c == ' ' {
            out.push('%');
            out.push('s');
        } else if c == '&' {
            out.push('\\');
            out.push('&');
        } else if c == '|' {
            out.push('\\');
            out.push('|');
        } else if c == ';' {
            out.push('\\');
            out.push(';');
        } else if c == '(' {
            out.push('\\');
            out.push('(');
        } else if c == ')' {
            out.push('\\');
            out.push(')');
        } else if c == '<' {
            out.push('\\');
            out.push('<');
        } else if c == '>' {
            out.push('\\');
            out.push('>');
        } else {
            out.push(c);
        }
        proof {
            let pre = cs@.take(i + 1 as int);
            assert(pre.drop_last() =~= cs@.take(i as int));
            assert(pre.last() == cs@[i as int]);
            assert(out@ =~= before + escape_char_spec(cs@[i as int]));
        }
        i = i + 1;
    }
    proof {
        assert(cs@.take(cs@.len() as int) =~= cs@);
    }
    string_of(out.as_slice())
}

// ---------------------------------------------------------------------------
// interpreting action command output
// ---------------------------------------------------------------------------

/// Interpret an `input text` run.  Android reports failures on
/// stdout: any exception or error text there fails the call with the
/// trimmed report; then a non-zero exit does, quoting stderr unless
/// it is empty.
pub fn input_text_result(output: &CommandResult) -> (r: Result<(), AppError>)
    ensures
        ({
            let bad_stdout = contains_spec(output@.stdout, "Exception"@) || contains_spec(
                output@.stdout,
                "Error"@,
            ) || contains_spec(output@.stdout, "error"@);
            if bad_stdout {
                r matches Err(e) && e@.code == "INPUT_FAILED"@ && e@.message
                    == "Input failed: "@ + trim_spec(output@.stdout)
            } else if !output@.success {
                r matches Err(e) && e@.code == "INPUT_FAILED"@ && e@.message
                    == "Input failed: "@ + trim_spec(
                    if output@.stderr.len() == 0 {
                        output@.stdout
                    } else {
                        output@.stderr
                    },
                )
            } else {
                r is Ok
            }
        }),
{
    let so = chars_of(output.stdout.as_str());
    let exc = chars_of("Exception");
    let err1 = chars_of("Error");
    let err2 = chars_of("error");
    if contains_sub(so.as_slice(), exc.as_slice()) || contains_sub(so.as_slice(), err1.as_slice())
        || contains_sub(so.as_slice(), err2.as_slice()) {
        let trimmed = trim_chars(so.as_slice());
        let mut msg = String::from_str("Input failed: ");
        let ts = string_of(trimmed.as_slice());
        msg.append(ts.as_str());
        return Err(AppError::new("INPUT_FAILED", msg.as_str()));
    }
    if !output.success {
        let source = if output.stderr.as_str().is_empty() {
            chars_of(output.stdout.as_str())
        } else {
            chars_of(output.stderr.as_str())
        };
        let trimmed = trim_chars(source.as_slice());
        let mut msg = String::from_str("Input failed: ");
        let ts = string_of(trimmed.as_slice());
        msg.append(ts.as_str());
        return Err(AppError::new("INPUT_FAILED", msg.as_str()));
    }
    Ok(())
}

/// Interpret an `adb uninstall` run: `Success` on stdout decides; a
/// failure quotes the trimmed report.
pub fn uninstall_app_result(output: &CommandResult) -> (r: Result<String, AppError>)
    ensures
        contains_spec(output@.stdout, "Success"@) ==> (r matches Ok(v) && v@
            == "Successfully uninstalled"@),
        !contains_spec(output@.stdout, "Success"@) ==> (r matches Err(e) && e@.code
            == "UNINSTALL_FAILED"@ && e@.message == "Uninstall failed: "@ + trim_spec(
            output@.stdout,
        )),
{
    let so = chars_of(output.stdout.as_str());
    let succ = chars_of("Success");
    if contains_sub(so.as_slice(), succ.as_slice()) {
        Ok(String::from_str("Successfully uninstalled"))
    } else {
        let trimmed = trim_chars(so.as_slice());
        let mut msg = String::from_str("Uninstall failed: ");
        let ts = string_of(trimmed.as_slice());
        msg.append(ts.as_str());
        Err(AppError::new("UNINSTALL_FAILED", msg.as_str()))
    }
}

/// The packages named in `pm list packages` output: the trimmed
/// remainder of every line carrying the `package:` prefix.
pub open spec fn parse_packages_lines(ls: Seq<Seq<char>>) -> Seq<Seq<char>>
    decreases ls.len(),
{
    if ls.len() == 0 {
        Seq::empty()
    } else {
        let rest = parse_packages_lines(ls.skip(1));
        if starts_with_spec(ls[0], "package:"@) {
            seq![trim_spec(ls[0].skip(8))] + rest
        } else {
            rest
        }
    }
}

pub open spec fn parse_packages_spec(out: Seq<char>) -> Seq<Seq<char>> {
    parse_packages_lines(lines_spec(out))
}

/// Interpret a `pm list packages` run.
pub fn list_packages(output: &CommandResult) -> (r: Result<Vec<String>, AppError>)
    ensures
        output@.success ==> (r matches Ok(v) && v.deep_view() == parse_packages_spec(
            output@.stdout,
        )),
        !output@.success ==> (r matches Err(e) && e@.code == "LIST_PACKAGES_FAILED"@),
{
    if !output.success {
        return Err(AppError::new("LIST_PACKAGES_FAILED", "List packages failed"));
    }
    let cs = chars_of(output.stdout.as_str());
    let ls = lines_of(cs.as_slice());
    let prefix = chars_of("package:");
    let mut out: Vec<String> = Vec::new();
    let mut i: usize = 0;
    proof {
        reveal_strlit("package:");
        assert(lines_spec(output@.stdout).skip(0) =~~= lines_spec(output@.stdout));
        assert(out.deep_view() =~~= Seq::<Seq<char>>::empty());
    }
    while i < ls.len()
        invariant
            0 <= i <= ls@.len(),
            ls.deep_view() == lines_spec(output@.stdout),
            ls@.len() == ls.deep_view().len(),
            prefix@ == "package:"@,
            "package:"@.len() == 8,
            parse_packages_spec(output@.stdout) == out.deep_view() + parse_packages_lines(
                ls.deep_view().skip(i as int),
            ),
        decreases ls@.len() - i,
    {
        let ghost rest = ls.deep_view().skip(i as int);
        proof {
            assert(rest[0] == ls.deep_view()[i as int]);
            assert(rest.skip(1) =~~= ls.deep_view().skip(i + 1));
            assert(ls@[i as int]@ =~= ls.deep_view()[i as int]);
        }
        let line = &ls[i];
        if starts_with(line.as_slice(), prefix.as_slice()) {
            let tail = vstd::slice::slice_subrange(line.as_slice(), 8, line.len());
            proof {
                assert(tail@ =~= ls.deep_view()[i as int].skip(8));
            }
            let trimmed = trim_chars(tail);
            let ghost prev = out.deep_view();
            let ghost tv = trimmed@;
            out.push(string_of(trimmed.as_slice()));
            proof {
                assert(out.deep_view() =~~= prev.push(tv));
                assert(prev + parse_packages_lines(rest) =~~= out.deep_view()
                    + parse_packages_lines(rest.skip(1)));
            }
        }
        i = i + 1;
    }
    proof {
        assert(ls.deep_view().skip(ls@.len() as int) =~~= Seq::<Seq<char>>::empty());
        assert(out.deep_view() + Seq::<Seq<char>>::empty() =~~= out.deep_view());
    }
    Ok(out)
}

// ---------------------------------------------------------------------------
// the device summary
// ---------------------------------------------------------------------------

/// The first line whose trimmed form begins with the prefix.
pub open spec fn first_trimmed_line_with_prefix(ls: Seq<Seq<char>>, prefix: Seq<char>) -> Option<
    Seq<char>,
>
    decreases ls.len(),
{
    if ls.len() == 0 {
        None
    } else if starts_with_spec(trim_spec(ls[0]), prefix) {
        Some(ls[0])
    } else {
        first_trimmed_line_with_prefix(ls.skip(1), prefix)
    }
}

/// The battery level in `dumpsys battery` output: on the first line
/// whose trimmed form begins with `level:`, the token after the
/// colon, parsed as a small number.
pub open spec fn battery_level_spec(out: Seq<char>) -> Option<u8> {
    match first_trimmed_line_with_prefix(lines_spec(out), "level:"@) {
        Some(line) => {
            let parts = split_char_spec(line, ':');
            if parts.len() > 1 {
                parse_u8_spec(trim_spec(parts[1]))
            } else {
                None
            }
        },
        None => None,
    }
}

/// Whether `dumpsys battery` reports any powered state.
pub open spec fn battery_charging_spec(out: Seq<char>) -> bool {
    contains_spec(out, "USB powered: true"@) || contains_spec(out, "AC powered: true"@)
        || contains_spec(out, "Wireless powered: true"@)
}

fn find_line_with_trimmed_prefix(ls: &Vec<Vec<char>>, prefix: &Vec<char>, ghost_src: Ghost<
    Seq<Seq<char>>,
>) -> (r: Option<Vec<char>>)
    requires
        ls.deep_view() == ghost_src@,
    ensures
        match (r, first_trimmed_line_with_prefix(ghost_src@, prefix@)) {
            (Some(v), Some(sv)) => v@ == sv,
            (None, None) => true,
            _ => false,
        },
{
    let mut i: usize = 0;
    proof {
        assert(ghost_src@.skip(0) =~~= ghost_src@);
    }
    while i < ls.len()
        invariant
            0 <= i <= ls@.len(),
            ls.deep_view() == ghost_src@,
            ls@.len() == ghost_src@.len(),
            first_trimmed_line_with_prefix(ghost_src@, prefix@) == first_trimmed_line_with_prefix(
                ghost_src@.skip(i as int),
                prefix@,
            ),
        decreases ls@.len() - i,
    {
        let ghost rest = ghost_src@.skip(i as int);
        proof {
            assert(rest[0] == ghost_src@[i as int]);
            assert(rest.skip(1) =~~= ghost_src@.skip(i + 1));
            assert(ls@[i as int]@ =~= ghost_src@[i as int]);
        }
        let line = &ls[i];
        let trimmed = trim_chars(line.as_slice());
        if starts_with(trimmed.as_slice(), prefix.as_slice()) {
            let mut v: Vec<char> = Vec::new();
            let mut k: usize = 0;
            while k < line.len()
                invariant
                    0 <= k <= line@.len(),
                    v@ == line@.take(k as int),
                decreases line@.len() - k,
            {
                v.push(line[k]);
                proof {
                    assert(v@ =~= line@.take(k + 1 as int));
                }
                k = k + 1;
            }
            proof {
                assert(line@.take(line@.len() as int) =~= line@);
            }
            return Some(v);
        }
        i = i + 1;
    }
    proof {
        assert(ghost_src@.skip(ls@.len() as int) =~~= Seq::<Seq<char>>::empty());
    }
    None
}

/// Read the battery level out of `dumpsys battery` output.
pub fn parse_battery_level(out: &str) -> (r: Option<u8>)
    ensures
        r == battery_level_spec(out@),
{
    let cs = chars_of(out);
    let ls = lines_of(cs.as_slice());
    let prefix = chars_of("level:");
    match find_line_with_trimmed_prefix(&ls, &prefix, Ghost(lines_spec(out@))) {
        Some(line) => {
            let parts = split_char(line.as_slice(), ':');
            if parts.len() > 1 {
                proof {
                    assert(parts@[1]@ =~= split_char_spec(line@, ':')[1]);
                }
                let trimmed = trim_chars(parts[1].as_slice());
                parse_u8(trimmed.as_slice())
            } else {
                None
            }
        },
        None => None,
    }
}

/// Read the charging state out of `dumpsys battery` output.
pub fn parse_battery_charging(out: &str) -> (r: bool)
    ensures
        r == battery_charging_spec(out@),
{
    let cs = chars_of(out);
    let usb = chars_of("USB powered: true");
    let ac = chars_of("AC powered: true");
    let wl = chars_of("Wireless powered: true");
    contains_sub(cs.as_slice(), usb.as_slice()) || contains_sub(cs.as_slice(), ac.as_slice())
        || contains_sub(cs.as_slice(), wl.as_slice())
}

/// The screen resolution in `wm size` output: the trimmed value
/// after the colon on the first line carrying a size report.
pub open spec fn screen_resolution_spec(out: Seq<char>) -> Option<Seq<char>> {
    match first_line_with_either(lines_spec(out), "Physical size:"@, "Override size:"@) {
        Some(line) => {
            let parts = split_char_spec(line, ':');
            if parts.len() > 1 {
                Some(trim_spec(parts[1]))
            } else {
                None
            }
        },
        None => None,
    }
}

pub open spec fn first_line_with_either(ls: Seq<Seq<char>>, a: Seq<char>, b: Seq<char>) -> Option<
    Seq<char>,
>
    decreases ls.len(),
{
    if ls.len() == 0 {
        None
    } else if contains_spec(ls[0], a) || contains_spec(ls[0], b) {
        Some(ls[0])
    } else {
        first_line_with_either(ls.skip(1), a, b)
    }
}

/// Read the screen resolution out of `wm size` output.
pub fn parse_screen_resolution(out: &str) -> (r: Option<String>)
    ensures
        match (r, screen_resolution_spec(out@)) {
            (Some(v), Some(sv)) => v@ == sv,
            (None, None) => true,
            _ => false,
        },
{
    let cs = chars_of(out);
    let ls = lines_of(cs.as_slice());
    let pa = chars_of("Physical size:");
    let pb = chars_of("Override size:");
    let mut i: usize = 0;
    proof {
        assert(lines_spec(out@).skip(0) =~~= lines_spec(out@));
    }
    while i < ls.len()
        invariant
            0 <= i <= ls@.len(),
            ls.deep_view() == lines_spec(out@),
            ls@.len() == ls.deep_view().len(),
            pa@ == "Physical size:"@,
            pb@ == "Override size:"@,
            first_line_with_either(lines_spec(out@), "Physical size:"@, "Override size:"@)
                == first_line_with_either(
                ls.deep_view().skip(i as int),
                "Physical size:"@,
                "Override size:"@,
            ),
        decreases ls@.len() - i,
    {
        let ghost rest = ls.deep_view().skip(i as int);
        proof {
            assert(rest[0] == ls.deep_view()[i as int]);
            assert(rest.skip(1) =~~= ls.deep_view().skip(i + 1));
            assert(ls@[i as int]@ =~= ls.deep_view()[i as int]);
        }
        let line = &ls[i];
        if contains_sub(line.as_slice(), pa.as_slice()) || contains_sub(
            line.as_slice(),
            pb.as_slice(),
        ) {
            let parts = split_char(line.as_slice(), ':');
            if parts.len() > 1 {
                proof {
                    assert(parts@[1]@ =~= split_char_spec(line@, ':')[1]);
                }
                let trimmed = trim_chars(parts[1].as_slice());
                return Some(string_of(trimmed.as_slice()));
            }
            return None;
        }
        i = i + 1;
    }
    proof {
        assert(ls.deep_view().skip(ls@.len() as int) =~~= Seq::<Seq<char>>::empty());
    }
    None
}

/// The storage summary in `df /data` output: from the second line's
/// whitespace fields, the total (second field) and the free space
/// (fourth field), both rendered as sizes.
pub open spec fn storage_spec(out: Seq<char>) -> Option<(Seq<char>, Seq<char>)> {
    let ls = lines_spec(out);
    if ls.len() < 2 {
        None
    } else {
        let parts = split_ws_spec(ls[1]);
        if parts.len() >= 4 {
            Some((format_storage_size_spec(parts[1]), format_storage_size_spec(parts[3])))
        } else {
            None
        }
    }
}

/// Read the storage totals out of `df /data` output.
pub fn parse_storage(out: &str) -> (r: Option<(String, String)>)
    ensures
        match (r, storage_spec(out@)) {
            (Some(v), Some(sv)) => v.0@ == sv.0 && v.1@ == sv.1,
            (None, None) => true,
            _ => false,
        },
{
    let cs = chars_of(out);
    let ls = lines_of(cs.as_slice());
    if ls.len() < 2 {
        return None;
    }
    proof {
        assert(ls@[1]@ =~= lines_spec(out@)[1]);
    }
    let parts = split_ws(ls[1].as_slice());
    if parts.len() >= 4 {
        proof {
            assert(parts@[1]@ =~= split_ws_spec(lines_spec(out@)[1])[1]);
            assert(parts@[3]@ =~= split_ws_spec(lines_spec(out@)[1])[3]);
        }
        let total_str = string_of(parts[1].as_slice());
        let free_str = string_of(parts[3].as_slice());
        let total = format_storage_size(total_str.as_str());
        let free = format_storage_size(free_str.as_str());
        Some((total, free))
    } else {
        None
    }
}

/// The RAM total in `/proc/meminfo`: the second field of the
/// `MemTotal:` line, in KiB, rendered in GB with one decimal.
pub open spec fn ram_total_spec(out: Seq<char>) -> Option<Seq<char>> {
    match first_line_with_prefix(lines_spec(out), "MemTotal:"@) {
        Some(line) => {
            let parts = split_ws_spec(line);
            if parts.len() > 1 {
                match parse_u64_spec(parts[1]) {
                    Some(kb) => Some(
                        one_decimal_spec(tenths_spec(kb as int, 1048576)) + " GB"@,
                    ),
                    None => None,
                }
            } else {
                None
            }
        },
        None => None,
    }
}

pub open spec fn first_line_with_prefix(ls: Seq<Seq<char>>, prefix: Seq<char>) -> Option<
    Seq<char>,
>
    decreases ls.len(),
{
    if ls.len() == 0 {
        None
    } else if starts_with_spec(ls[0], prefix) {
        Some(ls[0])
    } else {
        first_line_with_prefix(ls.skip(1), prefix)
    }
}

/// Read the RAM total out of `/proc/meminfo` output.
pub fn parse_ram_total(out: &str) -> (r: Option<String>)
    ensures
        match (r, ram_total_spec(out@)) {
            (Some(v), Some(sv)) => v@ == sv,
            (None, None) => true,
            _ => false,
        },
{
    let cs = chars_of(out);
    let ls = lines_of(cs.as_slice());
    let prefix = chars_of("MemTotal:");
    let mut i: usize = 0;
    proof {
        assert(lines_spec(out@).skip(0) =~~= lines_spec(out@));
    }
    while i < ls.len()
        invariant
            0 <= i <= ls@.len(),
            ls.deep_view() == lines_spec(out@),
            ls@.len() == ls.deep_view().len(),
            prefix@ == "MemTotal:"@,
            first_line_with_prefix(lines_spec(out@), "MemTotal:"@) == first_line_with_prefix(
                ls.deep_view().skip(i as int),
                "MemTotal:"@,
            ),
        decreases ls@.len() - i,
    {
        let ghost rest = ls.deep_view().skip(i as int);
        proof {
            assert(rest[0] == ls.deep_view()[i as int]);
            assert(rest.skip(1) =~~= ls.deep_view().skip(i + 1));
            assert(ls@[i as int]@ =~= ls.deep_view()[i as int]);
        }
        let line = &ls[i];
        if starts_with(line.as_slice(), prefix.as_slice()) {
            let parts = split_ws(line.as_slice());
            if parts.len() > 1 {
                proof {
                    assert(parts@[1]@ =~= split_ws_spec(ls.deep_view()[i as int])[1]);
                }
                match parse_u64(parts[1].as_slice()) {
                    Some(kb) => {
                        let mut s = one_decimal_of(kb, 1048576);
                        s.append(" GB");
                        return Some(s);
                    },
                    None => {
                        return None;
                    },
                }
            }
            return None;
        }
        i = i + 1;
    }
    proof {
        assert(ls.deep_view().skip(ls@.len() as int) =~~= Seq::<Seq<char>>::empty());
    }
    None
}

pub open spec fn opt_seq_of(o: Option<Seq<char>>, fallback: Seq<char>) -> Seq<char> {
    match o {
        Some(v) => v,
        None => fallback,
    }
}

/// The CPU description: the first present of the SoC model, chip
/// name, board and hardware properties, mapped through the codename
/// table.
pub open spec fn cpu_spec(props: Seq<char>) -> Option<Seq<char>> {
    let raw = if extract_prop_spec(props, "ro.soc.model"@) is Some {
        extract_prop_spec(props, "ro.soc.model"@)
    } else if extract_prop_spec(props, "ro.hardware.chipname"@) is Some {
        extract_prop_spec(props, "ro.hardware.chipname"@)
    } else if extract_prop_spec(props, "ro.product.board"@) is Some {
        extract_prop_spec(props, "ro.product.board"@)
    } else {
        extract_prop_spec(props, "ro.hardware"@)
    };
    match raw {
        Some(v) => Some(map_soc_spec(v)),
        None => None,
    }
}

/// Assemble the device summary from the five command outputs: the
/// full `getprop` dump, and — each absent when its command could not
/// run — `dumpsys battery`, `wm size`, `df /data` and
/// `/proc/meminfo`.
pub fn get_device_props(
    props: &str,
    battery: Option<&str>,
    screen: Option<&str>,
    storage: Option<&str>,
    ram: Option<&str>,
) -> (r: DeviceProps)
    ensures
        r@.model == opt_seq_of(extract_prop_spec(props@, "ro.product.model"@), "Unknown"@),
        r@.android_version == opt_seq_of(
            extract_prop_spec(props@, "ro.build.version.release"@),
            "Unknown"@,
        ),
        r@.sdk_version == opt_seq_of(
            extract_prop_spec(props@, "ro.build.version.sdk"@),
            "Unknown"@,
        ),
        r@.manufacturer == extract_prop_spec(props@, "ro.product.brand"@),
        r@.cpu == cpu_spec(props@),
        r@.build_number == extract_prop_spec(props@, "ro.build.display.id"@),
        r@.security_patch == extract_prop_spec(props@, "ro.build.version.security_patch"@),
        r@.battery_level == (match battery {
            Some(b) => battery_level_spec(b@),
            None => None::<u8>,
        }),
        r@.is_charging == (match battery {
            Some(b) => battery_charging_spec(b@),
            None => false,
        }),
        r@.screen_resolution == (match screen {
            Some(s) => screen_resolution_spec(s@),
            None => None::<Seq<char>>,
        }),
        (match storage {
            Some(s) => r@.storage_total == (match storage_spec(s@) {
                Some(p) => Some(p.0),
                None => None::<Seq<char>>,
            }) && r@.storage_free == (match storage_spec(s@) {
                Some(p) => Some(p.1),
                None => None::<Seq<char>>,
            }),
            None => r@.storage_total is None && r@.storage_free is None,
        }),
        r@.ram_total == (match ram {
            Some(s) => ram_total_spec(s@),
            None => None::<Seq<char>>,
        }),
{
    let model = match extract_prop(props, "ro.product.model") {
        Some(v) => v,
        None => String::from_str("Unknown"),
    };
    let android_version = match extract_prop(props, "ro.build.version.release") {
        Some(v) => v,
        None => String::from_str("Unknown"),
    };
    let sdk_version = match extract_prop(props, "ro.build.version.sdk") {
        Some(v) => v,
        None => String::from_str("Unknown"),
    };
    let manufacturer = extract_prop(props, "ro.product.brand");
    let cpu_raw = match extract_prop(props, "ro.soc.model") {
        Some(v) => Some(v),
        None => match extract_prop(props, "ro.hardware.chipname") {
            Some(v) => Some(v),
            None => match extract_prop(props, "ro.product.board") {
                Some(v) => Some(v),
                None => extract_prop(props, "ro.hardware"),
            },
        },
    };
    let cpu = match cpu_raw {
        Some(ref raw) => Some(map_soc_codename(raw.as_str())),
        None => None,
    };
    let build_number = extract_prop(props, "ro.build.display.id");
    let security_patch = extract_prop(props, "ro.build.version.security_patch");
    let (battery_level, is_charging) = match battery {
        Some(b) => (parse_battery_level(b), parse_battery_charging(b)),
        None => (None, false),
    };
    let screen_resolution = match screen {
        Some(s) => parse_screen_resolution(s),
        None => None,
    };
    let (storage_total, storage_free) = match storage {
        Some(s) => match parse_storage(s) {
            Some((t, f)) => (Some(t), Some(f)),
            None => (None, None),
        },
        None => (None, None),
    };
    let ram_total = match ram {
        Some(s) => parse_ram_total(s),
        None => None,
    };
    DeviceProps {
        model,
        android_version,
        sdk_version,
        battery_level,
        is_charging,
        screen_resolution,
        storage_total,
        storage_free,
        ram_total,
        manufacturer,
        cpu,
        build_number,
        security_patch,
    }
}

fn soc_pairs() -> (r: Vec<(&'static str, &'static str)>)
    ensures
        r@.len() == soc_table().len(),
        forall|k: int| 0 <= k < r@.len() ==> (#[trigger] r@[k]).0@ == soc_table()[k].0
            && r@[k].1@ == soc_table()[k].1,
{
    let mut v: Vec<(&'static str, &'static str)> = Vec::new();
    v.push(("taro", "Snapdragon 8 Gen 1"));
    v.push(("kalama", "Snapdragon 8 Gen 2"));
    v.push(("kailua", "Snapdragon 8 Gen 2"));
    v.push(("pineapple", "Snapdragon 8 Gen 3"));
    v.push(("lahaina", "Snapdragon 888"));
    v.push(("kona", "Snapdragon 865"));
    v.push(("msmnile", "Snapdragon 855"));
    v.push(("sm8150", "Snapdragon 855"));
    v.push(("sdm845", "Snapdragon 845"));
    v.push(("crow", "Snapdragon 7 Gen 3"));
    v.push(("cape", "Snapdragon 7+ Gen 2"));
    v.push(("kodiak", "Snapdragon 7 Gen 1"));
    v.push(("sm7250", "Snapdragon 765G"));
    v.push(("lito", "Snapdragon 765G"));
    v.push(("parrot", "Snapdragon 6 Gen 1"));
    v.push(("bengal", "Snapdragon 685/680"));
    v.push(("holi", "Snapdragon 695"));
    v.push(("sm6150", "Snapdragon 675"));
    v.push(("trinket", "Snapdragon 665"));
    v.push(("khaje", "Snapdragon 4 Gen 1"));
    v.push(("scuba", "Snapdragon 460"));
    v.push(("mt6893", "Dimensity 1200"));
    v.push(("mt6891", "Dimensity 1200"));
    v.push(("mt6885", "Dimensity 1000"));
    v.push(("mt6889", "Dimensity 1000"));
    v.push(("mt6877", "Dimensity 900"));
    v.push(("mt6873", "Dimensity 800"));
    v.push(("mt6875", "Dimensity 800"));
    v.push(("mt6853", "Dimensity 720"));
    v.push(("mt6833", "Dimensity 700"));
    v.push(("mt6769", "Helio G85"));
    v.push(("mt6768", "Helio G80"));
    v.push(("mt6765", "Helio P35"));
    v.push(("mt6762", "Helio P35"));
    v.push(("mt6785", "Helio G95"));
    v.push(("exynos2200", "Exynos 2200"));
    v.push(("exynos2100", "Exynos 2100"));
    v.push(("exynos990", "Exynos 990"));
    v.push(("exynos9820", "Exynos 9825"));
    v.push(("exynos9825", "Exynos 9825"));
    v.push(("exynos9810", "Exynos 9810"));
    v.push(("exynos1280", "Exynos 1280"));
    v.push(("s5e8825", "Exynos 1280"));
    v.push(("oriole", "Google Tensor"));
    v.push(("raven", "Google Tensor"));
    v.push(("cloudripper", "Google Tensor G2"));
    v.push(("bluejay", "Google Tensor G2"));
    v.push(("zuma", "Google Tensor G3"));
    proof {
        assert forall|k: int| 0 <= k < v@.len() implies (#[trigger] v@[k]).0@ == soc_table()[k].0
            && v@[k].1@ == soc_table()[k].1 by {
        }
    }
    v
}

} // verus!
