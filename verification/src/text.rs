//! Character-level text utilities.
//!
//! All of the engine's parsers work over `Vec<char>` / `&[char]`,
//! whose view is the same `Seq<char>` as the view of `String` and
//! `&str`.  The two trusted bridges at the top convert between the
//! executable string types and character vectors; everything below
//! them is verified against spec functions over `Seq<char>`.

use vstd::prelude::*;

verus! {

/// Relies on str::chars / Iterator::collect: yields exactly the
/// characters of the string, in order.
#[verifier::external_body]
pub fn chars_of(s: &str) -> (r: Vec<char>)
    ensures
        r@ == s@,
{
    s.chars().collect()
}

/// Relies on String's FromIterator over char: concatenates exactly
/// the given characters, in order.
#[verifier::external_body]
pub fn string_of(v: &[char]) -> (r: String)
    ensures
        r@ == v@,
{
    v.iter().collect()
}

// ---------------------------------------------------------------------------
// whitespace
// ---------------------------------------------------------------------------

/// ASCII whitespace, as the engine's parsers understand it.
pub open spec fn is_ws_char(c: char) -> bool {
    c == ' ' || c == '\t' || c == '\n' || c == '\r' || c == '\u{b}' || c == '\u{c}'
}

pub fn is_ws(c: char) -> (r: bool)
    ensures
        r == is_ws_char(c),
{
    c == ' ' || c == '\t' || c == '\n' || c == '\r' || c == '\u{b}' || c == '\u{c}'
}

// ---------------------------------------------------------------------------
// trimming
// ---------------------------------------------------------------------------

pub open spec fn trim_start_spec(s: Seq<char>) -> Seq<char>
    decreases s.len(),
{
    if s.len() > 0 && is_ws_char(s[0]) {
        trim_start_spec(s.skip(1))
    } else {
        s
    }
}

pub open spec fn trim_end_spec(s: Seq<char>) -> Seq<char>
    decreases s.len(),
{
    if s.len() > 0 && is_ws_char(s[s.len() - 1]) {
        trim_end_spec(s.take(s.len() - 1))
    } else {
        s
    }
}

/// What `str::trim` leaves: the input without leading and trailing
/// whitespace.
pub open spec fn trim_spec(s: Seq<char>) -> Seq<char> {
    trim_end_spec(trim_start_spec(s))
}

proof fn lemma_trim_start_skip(s: Seq<char>, i: int)
    requires
        0 <= i <= s.len(),
        forall|k: int| 0 <= k < i ==> is_ws_char(s[k]),
        i < s.len() ==> !is_ws_char(s[i]),
    ensures
        trim_start_spec(s) == s.skip(i),
    decreases i,
{
    if i == 0 {
        assert(s.skip(0) =~= s);
    } else {
        assert(is_ws_char(s[0]));
        let t = s.skip(1);
        assert(forall|k: int| 0 <= k < i - 1 ==> is_ws_char(t[k]));
        lemma_trim_start_skip(t, i - 1);
        assert(t.skip(i - 1) =~= s.skip(i));
    }
}

proof fn lemma_trim_end_take(s: Seq<char>, j: int)
    requires
        0 <= j <= s.len(),
        forall|k: int| j <= k < s.len() ==> is_ws_char(s[k]),
        j > 0 ==> !is_ws_char(s[j - 1]),
    ensures
        trim_end_spec(s) == s.take(j),
    decreases s.len() - j,
{
    if j == s.len() {
        if s.len() > 0 && is_ws_char(s[s.len() - 1]) {
            assert(j <= s.len() - 1);
            assert(false);
        }
        assert(s.take(j) =~= s);
    } else {
        assert(is_ws_char(s[s.len() - 1]));
        let t = s.take(s.len() - 1);
        assert(forall|k: int| j <= k < t.len() ==> is_ws_char(t[k]));
        lemma_trim_end_take(t, j);
        assert(t.take(j) =~= s.take(j));
    }
}

/// The input without leading and trailing ASCII whitespace.
pub fn trim_chars(s: &[char]) -> (r: Vec<char>)
    ensures
        r@ == trim_spec(s@),
{
    let n = s.len();
    let mut i: usize = 0;
    while i < n && is_ws(s[i])
        invariant
            0 <= i <= n,
            n == s@.len(),
            forall|k: int| 0 <= k < i ==> is_ws_char(s@[k]),
        decreases n - i,
    {
        i = i + 1;
    }
    proof {
        lemma_trim_start_skip(s@, i as int);
    }
    let mut j: usize = n;
    while j > i && is_ws(s[j - 1])
        invariant
            i <= j <= n,
            n == s@.len(),
            forall|k: int| j <= k < n ==> is_ws_char(s@[k]),
        decreases j,
    {
        j = j - 1;
    }
    let ghost mid = s@.skip(i as int);
    proof {
        assert(forall|k: int| j - i <= k < mid.len() ==> is_ws_char(mid[k]));
        if j > i {
            assert(mid[j - i - 1] == s@[j - 1]);
        }
        lemma_trim_end_take(mid, j - i);
    }
    let mut out: Vec<char> = Vec::new();
    let mut k: usize = i;
    while k < j
        invariant
            i <= k <= j <= n,
            n == s@.len(),
            out@ == s@.subrange(i as int, k as int),
        decreases j - k,
    {
        out.push(s[k]);
        proof {
            assert(out@ =~= s@.subrange(i as int, k + 1 as int));
        }
        k = k + 1;
    }
    proof {
        assert(mid.take(j - i) =~= s@.subrange(i as int, j as int));
    }
    out
}

// ---------------------------------------------------------------------------
// splitting on whitespace
// ---------------------------------------------------------------------------

/// Length of the maximal non-whitespace prefix.
pub open spec fn token_len_spec(s: Seq<char>) -> int
    decreases s.len(),
{
    if s.len() > 0 && !is_ws_char(s[0]) {
        1 + token_len_spec(s.skip(1))
    } else {
        0
    }
}

proof fn lemma_token_len_bound(s: Seq<char>)
    ensures
        0 <= token_len_spec(s) <= s.len(),
    decreases s.len(),
{
    if s.len() > 0 && !is_ws_char(s[0]) {
        lemma_token_len_bound(s.skip(1));
    }
}

proof fn lemma_token_len(s: Seq<char>, t: int)
    requires
        0 <= t <= s.len(),
        forall|k: int| 0 <= k < t ==> !is_ws_char(s[k]),
        t < s.len() ==> is_ws_char(s[t]),
    ensures
        token_len_spec(s) == t,
    decreases t,
{
    if t == 0 {
    } else {
        let u = s.skip(1);
        assert(forall|k: int| 0 <= k < t - 1 ==> !is_ws_char(u[k]));
        lemma_token_len(u, t - 1);
    }
}

/// What `str::split_whitespace` yields: the maximal non-whitespace
/// runs of the input, in order.
pub open spec fn split_ws_spec(s: Seq<char>) -> Seq<Seq<char>>
    decreases s.len(),
    via split_ws_spec_dec
{
    if s.len() == 0 {
        Seq::empty()
    } else if is_ws_char(s[0]) {
        split_ws_spec(s.skip(1))
    } else {
        let t = token_len_spec(s);
        seq![s.take(t)] + split_ws_spec(s.skip(t))
    }
}

#[via_fn]
proof fn split_ws_spec_dec(s: Seq<char>) {
    if s.len() > 0 && !is_ws_char(s[0]) {
        lemma_token_len_bound(s.skip(1));
        lemma_token_len_bound(s);
    }
}

pub fn split_ws(s: &[char]) -> (r: Vec<Vec<char>>)
    ensures
        r.deep_view() == split_ws_spec(s@),
{
    let n = s.len();
    let mut out: Vec<Vec<char>> = Vec::new();
    let mut i: usize = 0;
    proof {
        assert(s@.skip(0) =~= s@);
        assert(out.deep_view() =~~= Seq::<Seq<char>>::empty());
        assert(out.deep_view() + split_ws_spec(s@) =~~= split_ws_spec(s@));
    }
    while i < n
        invariant
            0 <= i <= n,
            n == s@.len(),
            split_ws_spec(s@) == out.deep_view() + split_ws_spec(s@.skip(i as int)),
        decreases n - i,
    {
        if is_ws(s[i]) {
            proof {
                let rest = s@.skip(i as int);
                assert(rest[0] == s@[i as int]);
                assert(rest.skip(1) =~= s@.skip(i + 1));
            }
            i = i + 1;
        } else {
            let start = i;
            let mut j: usize = i;
            while j < n && !is_ws(s[j])
                invariant
                    start <= j <= n,
                    n == s@.len(),
                    forall|k: int| start <= k < j ==> !is_ws_char(s@[k]),
                decreases n - j,
            {
                j = j + 1;
            }
            let mut tok: Vec<char> = Vec::new();
            let mut k: usize = start;
            while k < j
                invariant
                    start <= k <= j <= n,
                    n == s@.len(),
                    tok@ == s@.subrange(start as int, k as int),
                decreases j - k,
            {
                tok.push(s[k]);
                proof {
                    assert(tok@ =~= s@.subrange(start as int, k + 1 as int));
                }
                k = k + 1;
            }
            proof {
                let rest = s@.skip(start as int);
                assert(forall|k: int| 0 <= k < j - start ==> {
                    &&& rest[k] == s@[start + k]
                    &&& !is_ws_char(rest[k])
                });
                if j < n {
                    assert(rest[j - start] == s@[j as int]);
                }
                lemma_token_len(rest, j - start);
                assert(!is_ws_char(rest[0]));
                assert(rest.take(j - start) =~= s@.subrange(start as int, j as int));
                assert(rest.skip(j - start) =~= s@.skip(j as int));
                assert(split_ws_spec(rest) == seq![s@.subrange(start as int, j as int)]
                    + split_ws_spec(s@.skip(j as int)));
            }
            let ghost old_out = out.deep_view();
            out.push(tok);
            proof {
                assert(out.deep_view() =~~= old_out.push(tok@));
                assert(old_out + split_ws_spec(s@.skip(start as int))
                    =~~= out.deep_view() + split_ws_spec(s@.skip(j as int)));
            }
            i = j;
        }
    }
    proof {
        assert(s@.skip(n as int) =~= Seq::<char>::empty());
        assert(out.deep_view() + Seq::<Seq<char>>::empty() =~~= out.deep_view());
    }
    out
}

// ---------------------------------------------------------------------------
// prefixes and substring search
// ---------------------------------------------------------------------------

/// `h` begins with `n`.
pub open spec fn starts_with_spec(h: Seq<char>, n: Seq<char>) -> bool {
    h.len() >= n.len() && h.take(n.len() as int) == n
}

pub fn starts_with(h: &[char], n: &[char]) -> (r: bool)
    ensures
        r == starts_with_spec(h@, n@),
{
    if h.len() < n.len() {
        assert(!starts_with_spec(h@, n@));
        return false;
    }
    let mut i: usize = 0;
    while i < n.len()
        invariant
            0 <= i <= n@.len() <= h@.len(),
            forall|k: int| 0 <= k < i ==> h@[k] == n@[k],
        decreases n@.len() - i,
    {
        if h[i] != n[i] {
            assert(h@.take(n@.len() as int)[i as int] != n@[i as int]);
            return false;
        }
        i = i + 1;
    }
    proof {
        assert(h@.take(n@.len() as int) =~= n@);
    }
    true
}

/// `n` occurs in `h` at position `i`.
pub open spec fn occurs_at(h: Seq<char>, n: Seq<char>, i: int) -> bool {
    0 <= i && i + n.len() <= h.len() && h.subrange(i, i + n.len()) == n
}

/// `n` occurs somewhere in `h` (what `str::contains` decides).
pub open spec fn contains_spec(h: Seq<char>, n: Seq<char>) -> bool {
    exists|i: int| occurs_at(h, n, i)
}

pub fn contains_at(h: &[char], n: &[char], i: usize) -> (r: bool)
    requires
        i + n@.len() <= h@.len(),
    ensures
        r == occurs_at(h@, n@, i as int),
{
    let hl = h.len();
    let mut k: usize = 0;
    while k < n.len()
        invariant
            0 <= k <= n@.len(),
            i + n@.len() <= h@.len(),
            hl == h@.len(),
            forall|m: int| 0 <= m < k ==> h@[i + m] == n@[m],
        decreases n@.len() - k,
    {
        if h[i + k] != n[k] {
            assert(h@.subrange(i as int, i + n@.len())[k as int] != n@[k as int]);
            return false;
        }
        k = k + 1;
    }
    proof {
        assert(h@.subrange(i as int, i + n@.len()) =~= n@);
    }
    true
}

/// Substring search.
pub fn contains_sub(h: &[char], n: &[char]) -> (r: bool)
    ensures
        r == contains_spec(h@, n@),
{
    if n.len() == 0 {
        proof {
            assert(h@.subrange(0, 0) =~= n@);
            assert(occurs_at(h@, n@, 0));
        }
        return true;
    }
    if n.len() > h.len() {
        assert(forall|i: int| !occurs_at(h@, n@, i));
        return false;
    }
    let last = h.len() - n.len();
    let mut i: usize = 0;
    while i <= last
        invariant
            0 <= i <= last + 1,
            last == h@.len() - n@.len(),
            last < usize::MAX,
            n@.len() >= 1,
            forall|k: int| 0 <= k < i ==> !occurs_at(h@, n@, k),
        decreases last - i + 1,
    {
        if contains_at(h, n, i) {
            return true;
        }
        i = i + 1;
    }
    proof {
        assert(forall|k: int| occurs_at(h@, n@, k) ==> 0 <= k <= last);
    }
    false
}

/// Position of the first occurrence of `n` in `h` at or after `i`.
pub open spec fn find_sub_from(h: Seq<char>, n: Seq<char>, i: int) -> Option<int>
    decreases h.len() + 1 - i,
{
    if i < 0 || i + n.len() > h.len() {
        None
    } else if occurs_at(h, n, i) {
        Some(i)
    } else {
        find_sub_from(h, n, i + 1)
    }
}

/// Index of the first occurrence of `n` in `h`, if any.
pub open spec fn find_sub_spec(h: Seq<char>, n: Seq<char>) -> Option<int> {
    find_sub_from(h, n, 0)
}

pub proof fn lemma_find_sub_from_props(h: Seq<char>, n: Seq<char>, i: int)
    requires
        i >= 0,
    ensures
        match find_sub_from(h, n, i) {
            Some(q) => i <= q && q + n.len() <= h.len() && occurs_at(h, n, q) && forall|m: int|
                i <= m < q ==> !occurs_at(h, n, m),
            None => forall|m: int| i <= m ==> !occurs_at(h, n, m),
        },
    decreases h.len() + 1 - i,
{
    if i + n.len() > h.len() {
        assert(forall|m: int| i <= m ==> !occurs_at(h, n, m));
    } else if occurs_at(h, n, i) {
    } else {
        lemma_find_sub_from_props(h, n, i + 1);
    }
}

proof fn lemma_find_sub_at(h: Seq<char>, n: Seq<char>, q: int)
    requires
        0 <= q,
        occurs_at(h, n, q),
        forall|m: int| 0 <= m < q ==> !occurs_at(h, n, m),
    ensures
        find_sub_spec(h, n) == Some(q),
{
    lemma_find_sub_from_props(h, n, 0);
    match find_sub_spec(h, n) {
        Some(p) => {
            if p < q {
                assert(!occurs_at(h, n, p));
            }
            if q < p {
                assert(!occurs_at(h, n, q));
            }
        },
        None => {
            assert(!occurs_at(h, n, q));
        },
    }
}

/// Find the first occurrence of `n` in `h`.
pub fn find_sub(h: &[char], n: &[char]) -> (r: Option<usize>)
    ensures
        match r {
            Some(i) => occurs_at(h@, n@, i as int) && (forall|k: int|
                0 <= k < i ==> !occurs_at(h@, n@, k)) && find_sub_spec(h@, n@) == Some(i as int),
            None => !contains_spec(h@, n@) && find_sub_spec(h@, n@) == None::<int>,
        },
{
    if n.len() == 0 {
        proof {
            assert(h@.subrange(0, 0) =~= n@);
            assert(occurs_at(h@, n@, 0));
            lemma_find_sub_at(h@, n@, 0);
        }
        return Some(0);
    }
    if n.len() > h.len() {
        proof {
            assert(forall|i: int| !occurs_at(h@, n@, i));
            lemma_find_sub_from_props(h@, n@, 0);
        }
        return None;
    }
    let last = h.len() - n.len();
    let mut i: usize = 0;
    while i <= last
        invariant
            0 <= i <= last + 1,
            last == h@.len() - n@.len(),
            last < usize::MAX,
            n@.len() >= 1,
            forall|k: int| 0 <= k < i ==> !occurs_at(h@, n@, k),
        decreases last - i + 1,
    {
        if contains_at(h, n, i) {
            proof {
                lemma_find_sub_at(h@, n@, i as int);
            }
            return Some(i);
        }
        i = i + 1;
    }
    proof {
        assert(forall|k: int| occurs_at(h@, n@, k) ==> 0 <= k <= last);
        lemma_find_sub_from_props(h@, n@, 0);
        match find_sub_spec(h@, n@) {
            Some(q) => {
                assert(!occurs_at(h@, n@, q));
            },
            None => {},
        }
    }
    None
}

// ---------------------------------------------------------------------------
// splitting on a single character
// ---------------------------------------------------------------------------

/// Index of the first occurrence of `c` in `s`.
pub open spec fn find_char_spec(s: Seq<char>, c: char) -> Option<int>
    decreases s.len(),
{
    if s.len() == 0 {
        None
    } else if s[0] == c {
        Some(0)
    } else {
        match find_char_spec(s.skip(1), c) {
            Some(i) => Some(i + 1),
            None => None,
        }
    }
}

proof fn lemma_find_char_props(s: Seq<char>, c: char)
    ensures
        match find_char_spec(s, c) {
            Some(i) => 0 <= i < s.len() && s[i] == c && forall|k: int| 0 <= k < i ==> s[k] != c,
            None => forall|k: int| 0 <= k < s.len() ==> s[k] != c,
        },
    decreases s.len(),
{
    if s.len() > 0 && s[0] != c {
        let t = s.skip(1);
        lemma_find_char_props(t, c);
        match find_char_spec(t, c) {
            Some(i) => {
                assert(s[i + 1] == t[i]);
                assert forall|k: int| 0 <= k < i + 1 implies s[k] != c by {
                    if k > 0 {
                        assert(t[k - 1] != c);
                    }
                }
            },
            None => {
                assert forall|k: int| 0 <= k < s.len() implies s[k] != c by {
                    if k > 0 {
                        assert(t[k - 1] != c);
                    }
                }
            },
        }
    }
}

proof fn lemma_find_char_at(s: Seq<char>, c: char, i: int)
    requires
        0 <= i <= s.len(),
        forall|k: int| 0 <= k < i ==> s[k] != c,
        i < s.len() ==> s[i] == c,
    ensures
        find_char_spec(s, c) == if i < s.len() { Some(i) } else { None::<int> },
    decreases i,
{
    if i == 0 {
    } else {
        let t = s.skip(1);
        assert(forall|k: int| 0 <= k < i - 1 ==> t[k] != c);
        lemma_find_char_at(t, c, i - 1);
    }
}

pub fn find_char(s: &[char], c: char) -> (r: Option<usize>)
    ensures
        match r {
            Some(i) => find_char_spec(s@, c) == Some(i as int),
            None => find_char_spec(s@, c) == None::<int>,
        },
{
    let mut i: usize = 0;
    while i < s.len()
        invariant
            0 <= i <= s@.len(),
            forall|k: int| 0 <= k < i ==> s@[k] != c,
        decreases s@.len() - i,
    {
        if s[i] == c {
            proof {
                lemma_find_char_at(s@, c, i as int);
            }
            return Some(i);
        }
        i = i + 1;
    }
    proof {
        lemma_find_char_at(s@, c, s@.len() as int);
    }
    None
}

/// Index of the last occurrence of `c` in `s`.
pub open spec fn rfind_char_spec(s: Seq<char>, c: char) -> Option<int> {
    if exists|i: int| 0 <= i < s.len() && s[i] == c {
        let i = choose|i: int| 0 <= i < s.len() && s[i] == c && forall|k: int|
            i < k < s.len() ==> s[k] != c;
        Some(i)
    } else {
        None
    }
}

pub fn rfind_char(s: &[char], c: char) -> (r: Option<usize>)
    ensures
        match r {
            Some(i) => 0 <= i < s@.len() && s@[i as int] == c && (forall|k: int|
                i < k < s@.len() ==> s@[k] != c) && rfind_char_spec(s@, c) == Some(i as int),
            None => (forall|k: int| 0 <= k < s@.len() ==> s@[k] != c) && rfind_char_spec(s@, c)
                == None::<int>,
        },
{
    let mut i: usize = s.len();
    while i > 0
        invariant
            0 <= i <= s@.len(),
            forall|k: int| i <= k < s@.len() ==> s@[k] != c,
        decreases i,
    {
        i = i - 1;
        if s[i] == c {
            proof {
                assert(exists|q: int| 0 <= q < s@.len() && s@[q] == c);
                let w = choose|q: int| 0 <= q < s@.len() && s@[q] == c && forall|k: int|
                    q < k < s@.len() ==> s@[k] != c;
                if w < i {
                    assert(s@[i as int] != c);
                }
                if w > i {
                    assert(s@[w] != c);
                }
            }
            return Some(i);
        }
    }
    proof {
        if exists|q: int| 0 <= q < s@.len() && s@[q] == c {
            let q = choose|q: int| 0 <= q < s@.len() && s@[q] == c;
            assert(s@[q] != c);
        }
    }
    None
}

/// What `str::split(c)` yields: the runs between occurrences of `c`,
/// empty runs included.
pub open spec fn split_char_spec(s: Seq<char>, c: char) -> Seq<Seq<char>>
    decreases s.len(),
    via split_char_spec_dec
{
    match find_char_spec(s, c) {
        None => seq![s],
        Some(i) => seq![s.take(i)] + split_char_spec(s.skip(i + 1), c),
    }
}

#[via_fn]
proof fn split_char_spec_dec(s: Seq<char>, c: char) {
    lemma_find_char_props(s, c);
}

pub fn split_char(s: &[char], c: char) -> (r: Vec<Vec<char>>)
    ensures
        r.deep_view() == split_char_spec(s@, c),
        r@.len() > 0,
{
    let n = s.len();
    let mut out: Vec<Vec<char>> = Vec::new();
    let mut start: usize = 0;
    let mut i: usize = 0;
    proof {
        assert(s@.skip(0) =~= s@);
        assert(out.deep_view() =~~= Seq::<Seq<char>>::empty());
        assert(out.deep_view() + split_char_spec(s@, c) =~~= split_char_spec(s@, c));
    }
    while i < n
        invariant
            0 <= start <= i <= n,
            n == s@.len(),
            forall|k: int| start <= k < i ==> s@[k] != c,
            split_char_spec(s@, c) == out.deep_view() + split_char_spec(s@.skip(start as int), c),
        decreases n - i,
    {
        if s[i] == c {
            let mut tok: Vec<char> = Vec::new();
            let mut k: usize = start;
            while k < i
                invariant
                    start <= k <= i,
                    n == s@.len(),
                    i < n,
                    tok@ == s@.subrange(start as int, k as int),
                decreases i - k,
            {
                tok.push(s[k]);
                proof {
                    assert(tok@ =~= s@.subrange(start as int, k + 1 as int));
                }
                k = k + 1;
            }
            proof {
                let rest = s@.skip(start as int);
                assert(forall|m: int| 0 <= m < i - start ==> {
                    &&& rest[m] == s@[start + m]
                    &&& rest[m] != c
                });
                assert(rest[i - start] == s@[i as int]);
                lemma_find_char_at(rest, c, i - start);
                assert(rest.take(i - start) =~= s@.subrange(start as int, i as int));
                assert(rest.skip(i - start + 1) =~= s@.skip(i + 1));
            }
            let ghost old_out = out.deep_view();
            out.push(tok);
            proof {
                assert(out.deep_view() =~~= old_out.push(s@.subrange(start as int, i as int)));
                assert(old_out + split_char_spec(s@.skip(start as int), c)
                    =~~= out.deep_view() + split_char_spec(s@.skip(i + 1), c));
            }
            start = i + 1;
            i = i + 1;
        } else {
            i = i + 1;
        }
    }
    let mut tok: Vec<char> = Vec::new();
    let mut k: usize = start;
    while k < n
        invariant
            start <= k <= n,
            n == s@.len(),
            tok@ == s@.subrange(start as int, k as int),
        decreases n - k,
    {
        tok.push(s[k]);
        proof {
            assert(tok@ =~= s@.subrange(start as int, k + 1 as int));
        }
        k = k + 1;
    }
    proof {
        let rest = s@.skip(start as int);
        assert(forall|m: int| 0 <= m < rest.len() ==> {
            &&& rest[m] == s@[start + m]
            &&& rest[m] != c
        });
        lemma_find_char_at(rest, c, rest.len() as int);
        assert(split_char_spec(rest, c) == seq![rest]);
        assert(rest =~= s@.subrange(start as int, n as int));
    }
    let ghost old_out = out.deep_view();
    out.push(tok);
    proof {
        assert(out.deep_view() =~~= old_out.push(s@.subrange(start as int, n as int)));
        assert(old_out + seq![s@.subrange(start as int, n as int)] =~~= out.deep_view());
    }
    out
}

/// Element-wise equality of character slices.
pub fn chars_eq(a: &[char], b: &[char]) -> (r: bool)
    ensures
        r == (a@ == b@),
{
    if a.len() != b.len() {
        return false;
    }
    let mut i: usize = 0;
    while i < a.len()
        invariant
            0 <= i <= a@.len(),
            a@.len() == b@.len(),
            forall|k: int| 0 <= k < i ==> a@[k] == b@[k],
        decreases a@.len() - i,
    {
        if a[i] != b[i] {
            return false;
        }
        i = i + 1;
    }
    proof {
        assert(a@ =~= b@);
    }
    true
}

// ---------------------------------------------------------------------------
// lines
// ---------------------------------------------------------------------------

/// One line with a trailing carriage return removed.
pub open spec fn strip_cr_spec(p: Seq<char>) -> Seq<char> {
    if p.len() > 0 && p[p.len() - 1] == '\r' {
        p.take(p.len() - 1)
    } else {
        p
    }
}

/// What `str::lines` yields: the input split at `\n`, a final line
/// ending optional, each line stripped of one trailing `\r`.
pub open spec fn lines_spec(s: Seq<char>) -> Seq<Seq<char>> {
    if s.len() == 0 {
        Seq::empty()
    } else {
        let parts = split_char_spec(s, '\n');
        let kept = if s[s.len() - 1] == '\n' {
            parts.drop_last()
        } else {
            parts
        };
        kept.map_values(|p: Seq<char>| strip_cr_spec(p))
    }
}

proof fn lemma_split_char_len(s: Seq<char>, c: char)
    ensures
        split_char_spec(s, c).len() >= 1,
    decreases s.len(),
{
    lemma_find_char_props(s, c);
    match find_char_spec(s, c) {
        None => {},
        Some(i) => {
            lemma_split_char_len(s.skip(i + 1), c);
        },
    }
}

/// Split into lines.
pub fn lines_of(s: &[char]) -> (r: Vec<Vec<char>>)
    ensures
        r.deep_view() == lines_spec(s@),
{
    if s.len() == 0 {
        let r: Vec<Vec<char>> = Vec::new();
        proof {
            assert(r.deep_view() =~~= lines_spec(s@));
        }
        return r;
    }
    let mut parts = split_char(s, '\n');
    proof {
        lemma_split_char_len(s@, '\n');
    }
    if s[s.len() - 1] == '\n' {
        let _ = parts.pop();
    }
    let ghost kept = parts.deep_view();
    let mut out: Vec<Vec<char>> = Vec::new();
    let mut i: usize = 0;
    while i < parts.len()
        invariant
            0 <= i <= parts@.len(),
            kept == parts.deep_view(),
            out@.len() == i,
            forall|k: int| 0 <= k < i ==> out.deep_view()[k] == strip_cr_spec(kept[k]),
        decreases parts@.len() - i,
    {
        let line = &parts[i];
        let n = line.len();
        let mut stripped: Vec<char>;
        if n > 0 && line[n - 1] == '\r' {
            stripped = vstd::slice::slice_to_vec(
                vstd::slice::slice_subrange(line.as_slice(), 0, n - 1),
            );
            proof {
                assert(stripped@ =~= strip_cr_spec(kept[i as int]));
            }
        } else {
            stripped = vstd::slice::slice_to_vec(line.as_slice());
            proof {
                assert(stripped@ =~= strip_cr_spec(kept[i as int]));
            }
        }
        let ghost prev = out.deep_view();
        let ghost sv = stripped@;
        out.push(stripped);
        proof {
            assert(out.deep_view() =~~= prev.push(sv));
        }
        i = i + 1;
    }
    proof {
        if s@[s@.len() - 1] == '\n' {
            assert(kept =~~= split_char_spec(s@, '\n').drop_last());
        }
        assert(out.deep_view() =~~= lines_spec(s@));
    }
    out
}

} // verus!
