//! Decimal parsing and formatting over character sequences.

use vstd::prelude::*;

verus! {

pub open spec fn is_digit_char(c: char) -> bool {
    '0' <= c && c <= '9'
}

pub open spec fn digit_val(c: char) -> int {
    c as int - '0' as int
}

pub open spec fn all_digits(s: Seq<char>) -> bool {
    forall|k: int| 0 <= k < s.len() ==> is_digit_char(#[trigger] s[k])
}

/// Numeric value of a digit string, most significant digit first.
pub open spec fn digits_val(s: Seq<char>) -> int
    decreases s.len(),
{
    if s.len() == 0 {
        0
    } else {
        digits_val(s.take(s.len() - 1)) * 10 + digit_val(s[s.len() - 1])
    }
}

proof fn lemma_digits_val_nonneg(s: Seq<char>)
    requires
        all_digits(s),
    ensures
        digits_val(s) >= 0,
    decreases s.len(),
{
    if s.len() > 0 {
        let t = s.take(s.len() - 1);
        assert(forall|k: int| 0 <= k < t.len() ==> is_digit_char(#[trigger] t[k]));
        lemma_digits_val_nonneg(t);
        assert(digits_val(t) * 10 >= 0) by (nonlinear_arith)
            requires digits_val(t) >= 0;
    }
}

proof fn lemma_digits_val_grows(s: Seq<char>, i: int)
    requires
        all_digits(s),
        0 <= i <= s.len(),
    ensures
        digits_val(s) >= digits_val(s.take(i)),
    decreases s.len() - i,
{
    if i < s.len() {
        let t = s.take(i + 1);
        assert(t.take(i) =~= s.take(i));
        assert(forall|k: int| 0 <= k < t.len() ==> is_digit_char(#[trigger] t[k]));
        lemma_digits_val_nonneg(s.take(i));
        assert(digits_val(t) == digits_val(s.take(i)) * 10 + digit_val(t[i]));
        assert(digits_val(s.take(i)) * 10 >= digits_val(s.take(i))) by (nonlinear_arith)
            requires digits_val(s.take(i)) >= 0;
        lemma_digits_val_grows(s, i + 1);
    } else {
        assert(s.take(i) =~= s);
    }
}

/// What `str::parse::<u64>` accepts: an optional `+` sign, then one
/// or more decimal digits, with a value that fits.
pub open spec fn parse_u64_spec(s: Seq<char>) -> Option<u64> {
    let t = if s.len() > 0 && s[0] == '+' {
        s.skip(1)
    } else {
        s
    };
    if t.len() > 0 && all_digits(t) && digits_val(t) <= u64::MAX {
        Some(digits_val(t) as u64)
    } else {
        None
    }
}

fn parse_digits(t: &[char]) -> (r: Option<u64>)
    ensures
        r == (if t@.len() > 0 && all_digits(t@) && digits_val(t@) <= u64::MAX {
            Some(digits_val(t@) as u64)
        } else {
            None::<u64>
        }),
{
    let n = t.len();
    if n == 0 {
        return None;
    }
    let mut acc: u64 = 0;
    let mut i: usize = 0;
    proof {
        assert(t@.take(0) =~= Seq::<char>::empty());
    }
    while i < n
        invariant
            0 <= i <= n,
            n == t@.len(),
            forall|k: int| 0 <= k < i ==> is_digit_char(#[trigger] t@[k]),
            acc == digits_val(t@.take(i as int)),
        decreases n - i,
    {
        let c = t[i];
        if !('0' <= c && c <= '9') {
            assert(!is_digit_char(t@[i as int]));
            return None;
        }
        let d: u64 = (c as u32 - 48) as u64;
        assert(d == digit_val(t@[i as int]));
        if acc > (u64::MAX - d) / 10 {
            proof {
                let pre = t@.take(i + 1);
                assert(pre.take(i as int) =~= t@.take(i as int));
                assert(pre[i as int] == t@[i as int]);
                assert(digits_val(pre) == acc * 10 + d);
                assert(acc >= (u64::MAX - d) / 10 + 1);
                assert(((u64::MAX - d) / 10 + 1) * 10 >= u64::MAX - d + 1) by (nonlinear_arith);
                assert(acc * 10 >= ((u64::MAX - d) / 10 + 1) * 10) by (nonlinear_arith)
                    requires acc >= (u64::MAX - d) / 10 + 1;
                assert(digits_val(pre) > u64::MAX);
                assert(forall|k: int| 0 <= k < i + 1 ==> is_digit_char(#[trigger] t@[k]));
                assert(forall|k: int| 0 <= k < pre.len() ==> is_digit_char(#[trigger] pre[k]));
                assert(all_digits(t@) ==> digits_val(t@) > u64::MAX) by {
                    if all_digits(t@) {
                        lemma_digits_val_grows(t@, i + 1);
                    }
                }
            }
            return None;
        }
        proof {
            assert(acc * 10 + d <= u64::MAX) by (nonlinear_arith)
                requires acc <= (u64::MAX - d) / 10, d <= u64::MAX;
            let pre = t@.take(i + 1);
            assert(pre.take(i as int) =~= t@.take(i as int));
            assert(pre[i as int] == t@[i as int]);
            assert(digits_val(pre) == acc * 10 + d);
        }
        acc = acc * 10 + d;
        i = i + 1;
    }
    proof {
        assert(t@.take(n as int) =~= t@);
    }
    Some(acc)
}

/// Parse a `u64`, exactly as `str::parse::<u64>` would.
pub fn parse_u64(s: &[char]) -> (r: Option<u64>)
    ensures
        r == parse_u64_spec(s@),
{
    if s.len() > 0 && s[0] == '+' {
        let rest = vstd::slice::slice_subrange(s, 1, s.len());
        assert(rest@ =~= s@.skip(1));
        parse_digits(rest)
    } else {
        parse_digits(s)
    }
}

/// Parse a `u8`, exactly as `str::parse::<u8>` would.
pub open spec fn parse_u8_spec(s: Seq<char>) -> Option<u8> {
    match parse_u64_spec(s) {
        Some(v) => if v <= u8::MAX as u64 {
            Some(v as u8)
        } else {
            None
        },
        None => {
            // a value over u64::MAX is over u8::MAX as well
            None
        },
    }
}

pub fn parse_u8(s: &[char]) -> (r: Option<u8>)
    ensures
        r == parse_u8_spec(s@),
{
    match parse_u64(s) {
        Some(v) => if v <= 255 {
            Some(v as u8)
        } else {
            None
        },
        None => None,
    }
}

pub open spec fn parse_u16_spec(s: Seq<char>) -> Option<u16> {
    match parse_u64_spec(s) {
        Some(v) => if v <= u16::MAX as u64 {
            Some(v as u16)
        } else {
            None
        },
        None => None,
    }
}

pub fn parse_u16(s: &[char]) -> (r: Option<u16>)
    ensures
        r == parse_u16_spec(s@),
{
    match parse_u64(s) {
        Some(v) => if v <= 65535 {
            Some(v as u16)
        } else {
            None
        },
        None => None,
    }
}

// ---------------------------------------------------------------------------
// formatting
// ---------------------------------------------------------------------------

pub open spec fn digit_char(d: int) -> char {
    (48 + d) as char
}

/// The decimal representation of `n`, no sign, no leading zeros
/// (except for zero itself).
pub open spec fn dec_spec(n: int) -> Seq<char>
    decreases n,
{
    if n < 10 {
        seq![digit_char(n)]
    } else {
        dec_spec(n / 10).push(digit_char(n % 10))
    }
}

/// Decimal digits of an unsigned value.
pub fn u64_dec(n: u64) -> (r: Vec<char>)
    ensures
        r@ == dec_spec(n as int),
    decreases n,
{
    if n < 10 {
        let c = ((48 + n as u32) as u8) as char;
        assert(c == digit_char(n as int));
        let mut v: Vec<char> = Vec::new();
        v.push(c);
        proof {
            assert(v@ =~= seq![digit_char(n as int)]);
        }
        v
    } else {
        let mut v = u64_dec(n / 10);
        let d = n % 10;
        let c = ((48 + d as u32) as u8) as char;
        assert(c == digit_char(d as int));
        v.push(c);
        v
    }
}

/// The decimal representation of a signed value: a `-` sign when
/// negative, then the digits of the magnitude.
pub open spec fn dec_signed_spec(n: int) -> Seq<char> {
    if n < 0 {
        seq!['-'] + dec_spec(-n)
    } else {
        dec_spec(n)
    }
}

pub fn i64_dec(n: i64) -> (r: Vec<char>)
    ensures
        r@ == dec_signed_spec(n as int),
{
    if n >= 0 {
        u64_dec(n as u64)
    } else {
        // magnitude computed without overflowing i64::MIN
        let mag: u64 = ((-(n + 1)) as u64) + 1;
        assert(mag == -(n as int));
        let digits = u64_dec(mag);
        let mut v: Vec<char> = Vec::new();
        v.push('-');
        let mut k: usize = 0;
        while k < digits.len()
            invariant
                0 <= k <= digits@.len(),
                v@ == seq!['-'] + digits@.take(k as int),
            decreases digits@.len() - k,
        {
            v.push(digits[k]);
            proof {
                assert(v@ =~= seq!['-'] + digits@.take(k + 1 as int));
            }
            k = k + 1;
        }
        proof {
            assert(digits@.take(digits@.len() as int) =~= digits@);
        }
        v
    }
}

// ---------------------------------------------------------------------------
// ASCII case
// ---------------------------------------------------------------------------

pub open spec fn lower_char_spec(c: char) -> char {
    if 'A' <= c && c <= 'Z' {
        ((c as int) + 32) as char
    } else {
        c
    }
}

pub open spec fn upper_char_spec(c: char) -> char {
    if 'a' <= c && c <= 'z' {
        ((c as int) - 32) as char
    } else {
        c
    }
}

pub fn lower_char(c: char) -> (r: char)
    ensures
        r == lower_char_spec(c),
{
    let u = c as u32;
    if 65 <= u && u <= 90 {
        ((u + 32) as u8) as char
    } else {
        c
    }
}

pub fn upper_char(c: char) -> (r: char)
    ensures
        r == upper_char_spec(c),
{
    let u = c as u32;
    if 97 <= u && u <= 122 {
        ((u - 32) as u8) as char
    } else {
        c
    }
}

pub open spec fn lower_seq_spec(s: Seq<char>) -> Seq<char> {
    s.map_values(|c: char| lower_char_spec(c))
}

/// ASCII-lowercase every character.
pub fn lower_seq(s: &[char]) -> (r: Vec<char>)
    ensures
        r@ == lower_seq_spec(s@),
{
    let mut out: Vec<char> = Vec::new();
    let mut i: usize = 0;
    while i < s.len()
        invariant
            0 <= i <= s@.len(),
            out@.len() == i,
            forall|k: int| 0 <= k < i ==> out@[k] == lower_char_spec(s@[k]),
        decreases s@.len() - i,
    {
        out.push(lower_char(s[i]));
        i = i + 1;
    }
    proof {
        assert(out@ =~= lower_seq_spec(s@));
    }
    out
}

/// Case-insensitive (ASCII) equality.
pub open spec fn eq_ignore_case_spec(a: Seq<char>, b: Seq<char>) -> bool {
    lower_seq_spec(a) == lower_seq_spec(b)
}

pub fn eq_ignore_case(a: &[char], b: &[char]) -> (r: bool)
    ensures
        r == eq_ignore_case_spec(a@, b@),
{
    if a.len() != b.len() {
        assert(lower_seq_spec(a@).len() != lower_seq_spec(b@).len());
        return false;
    }
    let mut i: usize = 0;
    while i < a.len()
        invariant
            0 <= i <= a@.len(),
            a@.len() == b@.len(),
            forall|k: int| 0 <= k < i ==> lower_char_spec(a@[k]) == lower_char_spec(b@[k]),
        decreases a@.len() - i,
    {
        if lower_char(a[i]) != lower_char(b[i]) {
            assert(lower_seq_spec(a@)[i as int] != lower_seq_spec(b@)[i as int]);
            return false;
        }
        i = i + 1;
    }
    proof {
        assert(lower_seq_spec(a@) =~= lower_seq_spec(b@));
    }
    true
}

/// Lexicographic order on character sequences, by code point.
pub open spec fn lex_le_spec(a: Seq<char>, b: Seq<char>) -> bool
    decreases a.len(),
{
    if a.len() == 0 {
        true
    } else if b.len() == 0 {
        false
    } else if a[0] != b[0] {
        a[0] < b[0]
    } else {
        lex_le_spec(a.skip(1), b.skip(1))
    }
}

pub fn lex_le(a: &[char], b: &[char]) -> (r: bool)
    ensures
        r == lex_le_spec(a@, b@),
{
    let mut i: usize = 0;
    proof {
        assert(a@.skip(0) =~= a@);
        assert(b@.skip(0) =~= b@);
    }
    while i < a.len() && i < b.len()
        invariant
            0 <= i <= a@.len(),
            i <= b@.len(),
            forall|k: int| 0 <= k < i ==> a@[k] == b@[k],
            lex_le_spec(a@, b@) == lex_le_spec(a@.skip(i as int), b@.skip(i as int)),
        decreases a@.len() - i,
    {
        let ca = a[i];
        let cb = b[i];
        proof {
            let sa = a@.skip(i as int);
            let sb = b@.skip(i as int);
            assert(sa[0] == a@[i as int]);
            assert(sb[0] == b@[i as int]);
            assert(sa.skip(1) =~= a@.skip(i + 1));
            assert(sb.skip(1) =~= b@.skip(i + 1));
        }
        if ca != cb {
            return ca < cb;
        }
        i = i + 1;
    }
    proof {
        let sa = a@.skip(i as int);
        let sb = b@.skip(i as int);
        if i >= a@.len() {
            assert(sa.len() == 0);
        } else {
            assert(sb.len() == 0);
            assert(sa.len() > 0);
        }
    }
    i >= a.len()
}

pub proof fn lemma_lex_le_total(a: Seq<char>, b: Seq<char>)
    ensures
        lex_le_spec(a, b) || lex_le_spec(b, a),
    decreases a.len(),
{
    if a.len() > 0 && b.len() > 0 && a[0] == b[0] {
        lemma_lex_le_total(a.skip(1), b.skip(1));
    }
}

pub proof fn lemma_lex_le_trans(a: Seq<char>, b: Seq<char>, c: Seq<char>)
    requires
        lex_le_spec(a, b),
        lex_le_spec(b, c),
    ensures
        lex_le_spec(a, c),
    decreases a.len(),
{
    if a.len() > 0 && b.len() > 0 && c.len() > 0 && a[0] == b[0] && b[0] == c[0] {
        lemma_lex_le_trans(a.skip(1), b.skip(1), c.skip(1));
    }
}

} // verus!
