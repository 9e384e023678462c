//! H.264 Annex-B NAL unit extraction.
//!
//! The video socket delivers a continuous Annex-B elementary stream:
//! NAL units delimited by the start codes `00 00 01` or `00 00 00 01`.
//! A captured NAL unit is the bytes from one start code up to, but not
//! including, the next start code; the incomplete trailing region
//! stays in the accumulator until more bytes arrive.

use vstd::prelude::*;
use vstd::slice::{slice_subrange, slice_to_vec};

verus! {

/// A three-byte start code `00 00 01` begins at `i`.
pub open spec fn sc3_at(s: Seq<u8>, i: int) -> bool {
    0 <= i && i + 3 <= s.len() && s[i] == 0 && s[i + 1] == 0 && s[i + 2] == 1
}

/// A four-byte start code `00 00 00 01` begins at `i`.
pub open spec fn sc4_at(s: Seq<u8>, i: int) -> bool {
    0 <= i && i + 4 <= s.len() && s[i] == 0 && s[i + 1] == 0 && s[i + 2] == 0 && s[i + 3] == 1
}

/// Either form of start code begins at `i`.
pub open spec fn is_start_at(s: Seq<u8>, i: int) -> bool {
    sc3_at(s, i) || sc4_at(s, i)
}

/// Position of the first start code at or after `i`.
pub open spec fn find_start_from(s: Seq<u8>, i: int) -> Option<int>
    decreases s.len() - i,
{
    if i < 0 || i + 3 > s.len() {
        None
    } else if is_start_at(s, i) {
        Some(i)
    } else {
        find_start_from(s, i + 1)
    }
}

/// Position of the first start code in `s`.
pub open spec fn find_start_spec(s: Seq<u8>) -> Option<int> {
    find_start_from(s, 0)
}

pub proof fn lemma_find_start_from_props(s: Seq<u8>, i: int)
    requires
        i >= 0,
    ensures
        match find_start_from(s, i) {
            Some(q) => i <= q && q + 3 <= s.len() && is_start_at(s, q) && forall|m: int|
                i <= m < q ==> !is_start_at(s, m),
            None => forall|m: int| i <= m ==> !is_start_at(s, m),
        },
    decreases s.len() - i,
{
    if i + 3 > s.len() {
        assert(forall|m: int| i <= m ==> !is_start_at(s, m));
    } else if is_start_at(s, i) {
    } else {
        lemma_find_start_from_props(s, i + 1);
    }
}

pub proof fn lemma_find_start_at(s: Seq<u8>, q: int)
    requires
        0 <= q,
        is_start_at(s, q),
        forall|m: int| 0 <= m < q ==> !is_start_at(s, m),
    ensures
        find_start_spec(s) == Some(q),
{
    lemma_find_start_from_props(s, 0);
    match find_start_spec(s) {
        Some(p) => {
            if p < q {
                assert(!is_start_at(s, p));
            }
            if q < p {
                assert(!is_start_at(s, q));
            }
        },
        None => {
            assert(!is_start_at(s, q));
        },
    }
}

/// Find the first start code, as the video reader's scanner does.
pub fn find_start(s: &[u8]) -> (r: Option<usize>)
    ensures
        match r {
            Some(i) => find_start_spec(s@) == Some(i as int),
            None => find_start_spec(s@) == None::<int>,
        },
{
    let n = s.len();
    if n < 3 {
        proof {
            lemma_find_start_from_props(s@, 0);
            assert(find_start_spec(s@) != None::<int> ==> false);
        }
        return None;
    }
    let mut i: usize = 0;
    while i <= n - 3
        invariant
            0 <= i <= n - 2,
            n == s@.len(),
            n >= 3,
            forall|m: int| 0 <= m < i ==> !is_start_at(s@, m),
        decreases n - i,
    {
        if s[i] == 0 && s[i + 1] == 0 {
            if s[i + 2] == 1 {
                proof {
                    lemma_find_start_at(s@, i as int);
                }
                return Some(i);
            }
            if n - i >= 4 && s[i + 2] == 0 && s[i + 3] == 1 {
                proof {
                    lemma_find_start_at(s@, i as int);
                }
                return Some(i);
            }
        }
        proof {
            assert(!is_start_at(s@, i as int));
        }
        i = i + 1;
    }
    proof {
        assert(forall|m: int| 0 <= m ==> m + 3 > s@.len() ==> !is_start_at(s@, m));
        lemma_find_start_from_props(s@, 0);
        if find_start_spec(s@) is Some {
            let q = find_start_spec(s@)->0;
            assert(!is_start_at(s@, q));
        }
    }
    None
}

/// Length of the start-code prefix at the head of a NAL: four bytes
/// for `00 00 00 01`, three otherwise.
pub open spec fn prefix_len_spec(s: Seq<u8>) -> int {
    if sc4_at(s, 0) {
        4
    } else {
        3
    }
}

/// One extraction step on the accumulator: the extracted NAL, if a
/// whole one is present, and what the accumulator becomes.
///
/// When a start code exists, bytes before it are discarded; the NAL
/// ends right before the next start code after the prefix, and is
/// returned with its start code.  Without a second start code the
/// accumulator keeps the (garbage-trimmed) bytes.
pub open spec fn extract_step(s: Seq<u8>) -> (Option<Seq<u8>>, Seq<u8>) {
    match find_start_spec(s) {
        None => (None, s),
        Some(i) => {
            let t = s.skip(i);
            let p = prefix_len_spec(t);
            match find_start_spec(t.skip(p)) {
                None => (None, t),
                Some(j) => (Some(t.take(p + j)), t.skip(p + j)),
            }
        },
    }
}

/// Extract the next whole NAL unit from the accumulator, start code
/// included, discarding any bytes that precede the first start code.
pub fn extract_next_nal(nal_buffer: &mut Vec<u8>) -> (r: Option<Vec<u8>>)
    ensures
        ({
            let (r0, b0) = extract_step(old(nal_buffer)@);
            &&& match (r, r0) {
                (Some(v), Some(v0)) => v@ == v0,
                (None, None) => true,
                _ => false,
            }
            &&& final(nal_buffer)@ == b0
        }),
{
    let start_idx = match find_start(nal_buffer.as_slice()) {
        Some(i) => i,
        None => {
            return None;
        },
    };
    proof {
        lemma_find_start_from_props(nal_buffer@, 0);
    }
    if start_idx > 0 {
        let trimmed = slice_to_vec(slice_subrange(
            nal_buffer.as_slice(),
            start_idx,
            nal_buffer.len(),
        ));
        proof {
            assert(trimmed@ =~= old(nal_buffer)@.skip(start_idx as int));
        }
        *nal_buffer = trimmed;
    } else {
        proof {
            assert(nal_buffer@ =~= old(nal_buffer)@.skip(0));
        }
    }
    let ghost t = old(nal_buffer)@.skip(start_idx as int);
    assert(nal_buffer@ == t);
    let prefix_len: usize = if nal_buffer.len() > 3 && nal_buffer[2] == 0 && nal_buffer[3] == 1 {
        4
    } else {
        3
    };
    proof {
        assert(is_start_at(t, 0));
        if sc4_at(t, 0) {
            assert(t[2] == 0 && t[3] == 1 && t.len() >= 4);
        } else {
            assert(sc3_at(t, 0));
            assert(t[2] == 1);
        }
        assert(prefix_len == prefix_len_spec(t));
    }
    let rest = slice_subrange(nal_buffer.as_slice(), prefix_len, nal_buffer.len());
    proof {
        assert(rest@ =~= t.skip(prefix_len as int));
    }
    let end_off = match find_start(rest) {
        Some(j) => j,
        None => {
            return None;
        },
    };
    proof {
        lemma_find_start_from_props(rest@, 0);
    }
    let end_idx = prefix_len + end_off;
    let nal_unit = slice_to_vec(slice_subrange(nal_buffer.as_slice(), 0, end_idx));
    let remaining = slice_to_vec(slice_subrange(nal_buffer.as_slice(), end_idx, nal_buffer.len()));
    proof {
        assert(nal_unit@ =~= t.take(prefix_len as int + end_off as int));
        assert(remaining@ =~= t.skip(prefix_len as int + end_off as int));
    }
    *nal_buffer = remaining;
    Some(nal_unit)
}

// ---------------------------------------------------------------------------
// NAL classification and the parameter-set cache
// ---------------------------------------------------------------------------

/// The byte immediately following the start code (meaningful when the
/// NAL is longer than four bytes).
pub open spec fn nal_type_byte(s: Seq<u8>) -> u8 {
    if s[2] == 0 && s[3] == 1 {
        s[4]
    } else {
        s[3]
    }
}

/// The NAL unit type: the five low bits of the byte after the start
/// code.  Type 7 is an SPS, 8 a PPS, 5 an IDR slice.
pub open spec fn nal_type_spec(s: Seq<u8>) -> u8 {
    nal_type_byte(s) & 0x1f
}

/// Mathematical image of a [`ParamSetCache`].
pub ghost struct CacheV {
    pub sps: Option<Seq<u8>>,
    pub pps: Option<Seq<u8>>,
    pub idr: Option<Seq<u8>>,
}

/// How one extracted NAL changes the cache: an SPS, PPS or IDR NAL
/// replaces its slot; every other NAL leaves the cache unchanged.
pub open spec fn cache_update_spec(c: CacheV, nal: Seq<u8>) -> CacheV {
    if nal.len() > 4 {
        let ty = nal_type_spec(nal);
        if ty == 7 {
            CacheV { sps: Some(nal), ..c }
        } else if ty == 8 {
            CacheV { pps: Some(nal), ..c }
        } else if ty == 5 {
            CacheV { idr: Some(nal), ..c }
        } else {
            c
        }
    } else {
        c
    }
}

/// The last seen SPS, PPS and IDR NAL units, raw bytes with their
/// start codes, kept for synchronising late viewers.
pub struct ParamSetCache {
    pub last_sps: Option<Vec<u8>>,
    pub last_pps: Option<Vec<u8>>,
    pub last_idr: Option<Vec<u8>>,
}

impl View for ParamSetCache {
    type V = CacheV;

    open spec fn view(&self) -> CacheV {
        CacheV {
            sps: match self.last_sps {
                Some(ref v) => Some(v@),
                None => None,
            },
            pps: match self.last_pps {
                Some(ref v) => Some(v@),
                None => None,
            },
            idr: match self.last_idr {
                Some(ref v) => Some(v@),
                None => None,
            },
        }
    }
}

impl ParamSetCache {
    /// An empty cache: no parameter set seen yet.
    pub fn new() -> (r: Self)
        ensures
            r@.sps is None,
            r@.pps is None,
            r@.idr is None,
    {
        ParamSetCache { last_sps: None, last_pps: None, last_idr: None }
    }

    /// Record one extracted NAL unit.
    pub fn update(&mut self, nal: &Vec<u8>)
        ensures
            final(self)@ == cache_update_spec(old(self)@, nal@),
    {
        if nal.len() > 4 {
            let type_byte: u8 = if nal[2] == 0 && nal[3] == 1 {
                nal[4]
            } else {
                nal[3]
            };
            let nal_type = type_byte & 0x1f;
            if nal_type == 7 {
                self.last_sps = Some(nal.clone());
            } else if nal_type == 8 {
                self.last_pps = Some(nal.clone());
            } else if nal_type == 5 {
                self.last_idr = Some(nal.clone());
            }
        }
    }

    /// A copy of the cache, slot by slot, for handing the reader's
    /// current state to the registry.
    pub fn clone_cache(&self) -> (r: Self)
        ensures
            r@ == self@,
    {
        ParamSetCache {
            last_sps: match self.last_sps {
                Some(ref v) => Some(v.clone()),
                None => None,
            },
            last_pps: match self.last_pps {
                Some(ref v) => Some(v.clone()),
                None => None,
            },
            last_idr: match self.last_idr {
                Some(ref v) => Some(v.clone()),
                None => None,
            },
        }
    }

    /// The synchronisation burst for a freshly attached viewer: the
    /// cached SPS, then PPS, then IDR, each only if present, and
    /// nothing else.
    pub fn sync_frames(&self) -> (r: Vec<Vec<u8>>)
        ensures
            r.deep_view() == sync_burst_spec(self@),
    {
        let mut out: Vec<Vec<u8>> = Vec::new();
        if let Some(ref sps) = self.last_sps {
            let x = sps.clone();
            assert(x@ == self@.sps->0);
            out.push(x);
        }
        if let Some(ref pps) = self.last_pps {
            let x = pps.clone();
            assert(x@ == self@.pps->0);
            out.push(x);
        }
        if let Some(ref idr) = self.last_idr {
            let x = idr.clone();
            assert(x@ == self@.idr->0);
            out.push(x);
        }
        proof {
            assert(out.deep_view() =~~= sync_burst_spec(self@));
        }
        out
    }
}

pub open spec fn opt_burst(o: Option<Seq<u8>>) -> Seq<Seq<u8>> {
    match o {
        Some(x) => seq![x],
        None => Seq::empty(),
    }
}

/// The exact order of a sync burst: SPS, PPS, IDR, nothing between.
pub open spec fn sync_burst_spec(c: CacheV) -> Seq<Seq<u8>> {
    opt_burst(c.sps) + opt_burst(c.pps) + opt_burst(c.idr)
}

/// Parameter-set classification, slot by slot: a NAL of type 7, 8 or
/// 5 replaces exactly the SPS, PPS or IDR slot; any other NAL leaves
/// all three slots unchanged.
pub proof fn lemma_classification(c: CacheV, nal: Seq<u8>)
    requires
        nal.len() > 4,
    ensures
        nal_type_spec(nal) == 7 ==> cache_update_spec(c, nal) == (CacheV { sps: Some(nal), ..c }),
        nal_type_spec(nal) == 8 ==> cache_update_spec(c, nal) == (CacheV { pps: Some(nal), ..c }),
        nal_type_spec(nal) == 5 ==> cache_update_spec(c, nal) == (CacheV { idr: Some(nal), ..c }),
        (nal_type_spec(nal) != 7 && nal_type_spec(nal) != 8 && nal_type_spec(nal) != 5)
            ==> cache_update_spec(c, nal) == c,
{
}

// ---------------------------------------------------------------------------
// the accumulating stream state
// ---------------------------------------------------------------------------

proof fn lemma_extract_step_shrinks(s: Seq<u8>)
    ensures
        extract_step(s).0 is Some ==> extract_step(s).1.len() < s.len(),
{
    match find_start_spec(s) {
        None => {},
        Some(i) => {
            lemma_find_start_from_props(s, 0);
            let t = s.skip(i);
            let p = prefix_len_spec(t);
            match find_start_spec(t.skip(p)) {
                None => {},
                Some(j) => {
                    lemma_find_start_from_props(t.skip(p), 0);
                },
            }
        },
    }
}

/// Repeatedly extract whole NAL units until none remains: the frames,
/// in arrival order, and the final accumulator.
pub open spec fn drain_spec(s: Seq<u8>) -> (Seq<Seq<u8>>, Seq<u8>)
    decreases s.len(),
    via drain_spec_dec
{
    match extract_step(s) {
        (Some(f), b) => {
            let (fs, r) = drain_spec(b);
            (seq![f] + fs, r)
        },
        (None, b) => (Seq::empty(), b),
    }
}

#[via_fn]
proof fn drain_spec_dec(s: Seq<u8>) {
    lemma_extract_step_shrinks(s);
}

/// The cache after recording a sequence of frames in order.
pub open spec fn cache_fold_spec(c: CacheV, frames: Seq<Seq<u8>>) -> CacheV
    decreases frames.len(),
{
    if frames.len() == 0 {
        c
    } else {
        cache_fold_spec(cache_update_spec(c, frames[0]), frames.skip(1))
    }
}

/// Mathematical image of a [`StreamState`].
pub ghost struct StreamV {
    pub buf: Seq<u8>,
    pub cache: CacheV,
}

/// The video reader's state: the NAL accumulator and the
/// parameter-set cache it maintains.
pub struct StreamState {
    pub buf: Vec<u8>,
    pub cache: ParamSetCache,
}

impl View for StreamState {
    type V = StreamV;

    open spec fn view(&self) -> StreamV {
        StreamV { buf: self.buf@, cache: self.cache@ }
    }
}

impl StreamState {
    /// Fresh state: empty accumulator, empty cache.
    pub fn new() -> (r: Self)
        ensures
            r@.buf == Seq::<u8>::empty(),
            r@.cache.sps is None,
            r@.cache.pps is None,
            r@.cache.idr is None,
    {
        let r = StreamState { buf: Vec::new(), cache: ParamSetCache::new() };
        proof {
            assert(r.buf@ =~= Seq::<u8>::empty());
        }
        r
    }

    /// Append one chunk read from the video socket and extract every
    /// whole NAL unit it completes, in arrival order, recording each
    /// in the parameter-set cache.
    pub fn feed(&mut self, chunk: &[u8]) -> (frames: Vec<Vec<u8>>)
        ensures
            ({
                let (fs, rest) = drain_spec(old(self)@.buf + chunk@);
                &&& frames.deep_view() == fs
                &&& final(self)@.buf == rest
                &&& final(self)@.cache == cache_fold_spec(old(self)@.cache, fs)
            }),
    {
        let ghost total = old(self)@.buf + chunk@;
        self.buf.extend_from_slice(chunk);
        assert(self.buf@ == total);
        let mut frames: Vec<Vec<u8>> = Vec::new();
        proof {
            assert(frames.deep_view() =~~= Seq::<Seq<u8>>::empty());
            assert(drain_spec(total).0 =~~= frames.deep_view() + drain_spec(self.buf@).0);
        }
        loop
            invariant_except_break
                drain_spec(total).0 == frames.deep_view() + drain_spec(self@.buf).0,
                drain_spec(total).1 == drain_spec(self@.buf).1,
                self@.cache == cache_fold_spec(old(self)@.cache, frames.deep_view()),
            ensures
                frames.deep_view() == drain_spec(total).0,
                self@.buf == drain_spec(total).1,
                self@.cache == cache_fold_spec(old(self)@.cache, frames.deep_view()),
            decreases self@.buf.len(),
        {
            let ghost buf_before = self@.buf;
            match extract_next_nal(&mut self.buf) {
                Some(nal) => {
                    proof {
                        lemma_extract_step_shrinks(buf_before);
                    }
                    self.cache.update(&nal);
                    let ghost prev_frames = frames.deep_view();
                    let ghost nv = nal@;
                    frames.push(nal);
                    proof {
                        assert(frames.deep_view() =~~= prev_frames.push(nv));
                        let (fs0, r0) = drain_spec(buf_before);
                        assert(fs0 == seq![nv] + drain_spec(self@.buf).0);
                        assert(prev_frames + fs0 =~~= frames.deep_view() + drain_spec(
                            self@.buf).0);
                        lemma_cache_fold_push(old(self)@.cache, prev_frames, nv);
                    }
                },
                None => {
                    proof {
                        assert(drain_spec(buf_before).0 =~~= Seq::<Seq<u8>>::empty());
                        assert(frames.deep_view() + Seq::<Seq<u8>>::empty()
                            =~~= frames.deep_view());
                    }
                    break;
                },
            }
        }
        frames
    }

    /// End of stream: if the accumulator holds a final NAL (it begins
    /// with a start code), emit and record it; any garbage left
    /// without a start code is discarded.
    pub fn finish(&mut self) -> (r: Option<Vec<u8>>)
        ensures
            final(self)@.buf == Seq::<u8>::empty(),
            is_start_at(old(self)@.buf, 0) ==> {
                &&& r matches Some(v) && v@ == old(self)@.buf
                &&& final(self)@.cache == cache_update_spec(old(self)@.cache, old(self)@.buf)
            },
            !is_start_at(old(self)@.buf, 0) ==> {
                &&& r is None
                &&& final(self)@.cache == old(self)@.cache
            },
    {
        let n = self.buf.len();
        let starts = n >= 3 && self.buf[0] == 0 && self.buf[1] == 0 && (self.buf[2] == 1 || (n
            >= 4 && self.buf[2] == 0 && self.buf[3] == 1));
        assert(starts == is_start_at(self@.buf, 0));
        if starts {
            let nal = self.buf.clone();
            assert(nal@ == old(self)@.buf);
            self.cache.update(&nal);
            self.buf.clear();
            Some(nal)
        } else {
            self.buf.clear();
            None
        }
    }
}

// ---------------------------------------------------------------------------
// extraction laws
// ---------------------------------------------------------------------------

proof fn lemma_start_extends(s: Seq<u8>, c: Seq<u8>, q: int)
    requires
        is_start_at(s, q),
    ensures
        is_start_at(s + c, q),
{
    assert((s + c)[q] == s[q]);
    assert((s + c)[q + 1] == s[q + 1]);
    assert((s + c)[q + 2] == s[q + 2]);
    if sc4_at(s, q) {
        assert((s + c)[q + 3] == s[q + 3]);
    }
}

proof fn lemma_find_start_append(s: Seq<u8>, c: Seq<u8>, i: int)
    requires
        find_start_spec(s) == Some(i),
    ensures
        find_start_spec(s + c) == Some(i),
{
    lemma_find_start_from_props(s, 0);
    lemma_start_extends(s, c, i);
    assert forall|m: int| 0 <= m < i implies !is_start_at(s + c, m) by {
        // a start before `i` would lie wholly inside `s`
        assert(i + 3 <= s.len());
        if is_start_at(s + c, m) {
            assert((s + c)[m] == s[m]);
            assert((s + c)[m + 1] == s[m + 1]);
            assert((s + c)[m + 2] == s[m + 2]);
            if sc4_at(s + c, m) && m + 4 <= s.len() {
                assert((s + c)[m + 3] == s[m + 3]);
                assert(is_start_at(s, m));
            } else if sc3_at(s + c, m) {
                assert(is_start_at(s, m));
            } else {
                // a four-byte code not fitting in s: its first three
                // bytes still form no three-byte code, but they are
                // 0,0,0 -- and m+3 <= s.len() shows a three-byte
                // window inside s
                assert(sc4_at(s + c, m));
                assert(m + 4 > s.len());
                assert(m + 3 >= s.len());
                assert(m < i && i + 3 <= s.len());
                assert(false);
            }
        }
    }
    lemma_find_start_at(s + c, i);
}

/// Extending the accumulator cannot change an already extractable
/// step; an inconclusive step stays consistent.
proof fn lemma_extract_step_append(s: Seq<u8>, c: Seq<u8>)
    ensures
        ({
            let (r, b) = extract_step(s);
            match r {
                Some(f) => extract_step(s + c) == (Some(f), b + c),
                None => extract_step(s + c) == extract_step(b + c),
            }
        }),
{
    let sc = s + c;
    match find_start_spec(s) {
        None => {
            // nothing was dropped: b == s
        },
        Some(i) => {
            lemma_find_start_from_props(s, 0);
            lemma_find_start_append(s, c, i);
            let t = s.skip(i);
            assert(t + c =~= sc.skip(i));
            assert(is_start_at(t, 0)) by {
                assert(t[0] == s[i] && t[1] == s[i + 1] && t[2] == s[i + 2]);
                if sc4_at(s, i) {
                    assert(t[3] == s[i + 3]);
                }
            }
            let p = prefix_len_spec(t);
            assert(prefix_len_spec(t + c) == p) by {
                if sc4_at(t, 0) {
                    lemma_start_extends(t, c, 0);
                    assert((t + c)[0] == t[0] && (t + c)[1] == t[1] && (t + c)[2] == t[2]
                        && (t + c)[3] == t[3]);
                } else {
                    assert(sc3_at(t, 0));
                    assert(t[2] == 1);
                    assert((t + c)[2] == t[2]);
                    assert(!sc4_at(t + c, 0));
                }
            }
            assert(t.skip(p) + c =~= (t + c).skip(p));
            match find_start_spec(t.skip(p)) {
                None => {
                    // b == t; in the longer buffer both sides trim to
                    // the same suffix and continue identically
                    assert(extract_step(s + c) == extract_step(t + c)) by {
                        assert(find_start_spec(sc) == Some(i));
                        assert(find_start_spec(t + c) == Some(0int)) by {
                            lemma_start_extends(t, c, 0);
                            lemma_find_start_at(t + c, 0);
                        }
                        assert((t + c).skip(0) =~= t + c);
                        assert(sc.skip(i) =~= t + c);
                    }
                },
                Some(j) => {
                    lemma_find_start_append(t.skip(p), c, j);
                    assert(find_start_spec((t + c).skip(p)) == Some(j));
                    assert((t + c).take(p + j) =~= t.take(p + j)) by {
                        lemma_find_start_from_props(t.skip(p), 0);
                        assert(j + 3 <= t.skip(p).len());
                    }
                    assert((t + c).skip(p + j) =~= t.skip(p + j) + c) by {
                        lemma_find_start_from_props(t.skip(p), 0);
                    }
                },
            }
        },
    }
}

/// Chunking independence: draining `s`, then draining on with `c`
/// appended to the leftover, is draining `s + c` in one go.  Feeding
/// a byte stream in arbitrary chunk sizes therefore extracts the same
/// frames in the same order.
pub proof fn lemma_drain_append(s: Seq<u8>, c: Seq<u8>)
    ensures
        drain_spec(s + c).0 == drain_spec(s).0 + drain_spec(drain_spec(s).1 + c).0,
        drain_spec(s + c).1 == drain_spec(drain_spec(s).1 + c).1,
    decreases s.len(),
{
    lemma_extract_step_append(s, c);
    let (r, b) = extract_step(s);
    match r {
        Some(f) => {
            lemma_extract_step_shrinks(s);
            lemma_drain_append(b, c);
            assert(drain_spec(s).0 == seq![f] + drain_spec(b).0);
            assert(drain_spec(s).1 == drain_spec(b).1);
            assert(drain_spec(s + c).0 == seq![f] + drain_spec(b + c).0);
            assert(seq![f] + (drain_spec(b).0 + drain_spec(drain_spec(b).1 + c).0)
                =~~= (seq![f] + drain_spec(b).0) + drain_spec(drain_spec(b).1 + c).0);
        },
        None => {
            assert(drain_spec(s).0 == Seq::<Seq<u8>>::empty());
            assert(drain_spec(s).1 == b);
            assert(drain_spec(s + c) == drain_spec(b + c));
            assert(Seq::<Seq<u8>>::empty() + drain_spec(b + c).0 =~~= drain_spec(b + c).0);
        },
    }
}

/// Concatenation of a sequence of byte strings.
pub open spec fn concat_all(nals: Seq<Seq<u8>>) -> Seq<u8>
    decreases nals.len(),
{
    if nals.len() == 0 {
        Seq::empty()
    } else {
        nals[0] + concat_all(nals.skip(1))
    }
}

/// Feeding a sequence of chunks one after the other: the frames of
/// every chunk in order, and the final accumulator.
pub open spec fn drain_chunks(buf: Seq<u8>, chunks: Seq<Seq<u8>>) -> (Seq<Seq<u8>>, Seq<u8>)
    decreases chunks.len(),
{
    if chunks.len() == 0 {
        (Seq::empty(), buf)
    } else {
        let (fs, rest) = drain_spec(buf + chunks[0]);
        let (fs2, rest2) = drain_chunks(rest, chunks.skip(1));
        (fs + fs2, rest2)
    }
}

/// A drained accumulator is stable: draining its residue again
/// yields no frame and leaves it unchanged.
pub proof fn lemma_drain_residue(s: Seq<u8>)
    ensures
        drain_spec(drain_spec(s).1) == (Seq::<Seq<u8>>::empty(), drain_spec(s).1),
    decreases s.len(),
{
    let (r, b) = extract_step(s);
    match r {
        Some(_) => {
            lemma_extract_step_shrinks(s);
            lemma_drain_residue(b);
            assert(drain_spec(s).1 == drain_spec(b).1);
        },
        None => {
            assert(drain_spec(s).1 == b);
            match find_start_spec(s) {
                None => {
                    // nothing was trimmed: b is s, the same step
                    // repeats verbatim
                },
                Some(i) => {
                    lemma_find_start_from_props(s, 0);
                    let t = s.skip(i);
                    assert(b == t);
                    assert(is_start_at(t, 0)) by {
                        assert(t[0] == s[i] && t[1] == s[i + 1] && t[2] == s[i + 2]);
                        if sc4_at(s, i) {
                            assert(t[3] == s[i + 3]);
                        }
                    }
                    lemma_find_start_at(t, 0);
                    assert(t.skip(0) =~= t);
                    assert(extract_step(t) == (None::<Seq<u8>>, t));
                },
            }
        },
    }
}

/// Chunk sizes do not matter: starting from a drained accumulator,
/// feeding a byte stream in any number of pieces extracts exactly
/// the frames of feeding it whole, in the same order, with the same
/// leftover.
pub proof fn lemma_drain_chunks(buf: Seq<u8>, chunks: Seq<Seq<u8>>)
    requires
        drain_spec(buf) == (Seq::<Seq<u8>>::empty(), buf),
    ensures
        drain_chunks(buf, chunks) == drain_spec(buf + concat_all(chunks)),
    decreases chunks.len(),
{
    if chunks.len() == 0 {
        assert(buf + concat_all(chunks) =~= buf);
        assert(drain_chunks(buf, chunks) == (Seq::<Seq<u8>>::empty(), buf));
    } else {
        let c0 = chunks[0];
        let tail = chunks.skip(1);
        let (fs, rest) = drain_spec(buf + c0);
        lemma_drain_residue(buf + c0);
        lemma_drain_chunks(rest, tail);
        lemma_drain_append(buf + c0, concat_all(tail));
        assert((buf + c0) + concat_all(tail) =~= buf + concat_all(chunks));
        assert(drain_spec(buf + concat_all(chunks)).0 =~~= fs + drain_chunks(rest, tail).0);
        assert(drain_chunks(buf, chunks).0 =~~= fs + drain_chunks(rest, tail).0);
        assert(drain_chunks(buf, chunks).1 == drain_spec(buf + concat_all(chunks)).1);
    }
}

/// A well-formed Annex-B stream, cut into its NAL units: every unit
/// begins with a start code, and the first start code after each
/// unit's prefix in the remaining stream falls exactly on the next
/// unit's boundary (for the last unit: there is none).
pub open spec fn wf_nal_stream(nals: Seq<Seq<u8>>) -> bool {
    forall|k: int| 0 <= k < nals.len() ==> {
        let tail = concat_all(#[trigger] nals.skip(k));
        &&& is_start_at(nals[k], 0)
        &&& find_start_spec(tail.skip(prefix_len_spec(nals[k]))) == (if k < nals.len() - 1 {
            Some(nals[k].len() - prefix_len_spec(nals[k]))
        } else {
            None::<int>
        })
    }
}

/// NAL extraction completeness: draining the concatenation of N
/// well-formed NAL units yields exactly the first N-1 of them, in
/// order, with the last unit pending in the accumulator (never a
/// partial unit).  Together with [`lemma_drain_append`] this holds
/// for any chunking of the byte stream; `finish` then yields the
/// pending last unit.
pub proof fn lemma_extraction_complete(nals: Seq<Seq<u8>>)
    requires
        wf_nal_stream(nals),
        nals.len() >= 1,
    ensures
        drain_spec(concat_all(nals)).0 == nals.drop_last(),
        drain_spec(concat_all(nals)).1 == nals.last(),
    decreases nals.len(),
{
    let s = concat_all(nals);
    let n0 = nals[0];
    let rest = concat_all(nals.skip(1));
    assert(s == n0 + rest);
    assert(is_start_at(nals[0], 0)) by {
        assert(nals.skip(0) =~~= nals);
    }
    assert(is_start_at(s, 0)) by {
        lemma_start_extends(n0, rest, 0);
    }
    lemma_find_start_at(s, 0);
    assert(s.skip(0) =~= s);
    let p0 = prefix_len_spec(n0);
    assert(prefix_len_spec(s) == p0) by {
        if sc4_at(n0, 0) {
            lemma_start_extends(n0, rest, 0);
            assert(s[0] == n0[0] && s[1] == n0[1] && s[2] == n0[2] && s[3] == n0[3]);
        } else {
            assert(sc3_at(n0, 0));
            assert(s[2] == n0[2] && n0[2] == 1);
            assert(!sc4_at(s, 0));
        }
    }
    assert(concat_all(nals.skip(0)) == s) by {
        assert(nals.skip(0) =~~= nals);
    }
    if nals.len() == 1 {
        assert(find_start_spec(s.skip(p0)) == None::<int>);
        assert(extract_step(s) == (None::<Seq<u8>>, s));
        assert(drain_spec(s).0 =~~= nals.drop_last());
        assert(rest =~= Seq::<u8>::empty());
        assert(s =~= n0);
        assert(nals.last() == n0);
    } else {
        assert(find_start_spec(s.skip(p0)) == Some(n0.len() - p0));
        assert(extract_step(s) == (Some(s.take(p0 + (n0.len() - p0))), s.skip(
            p0 + (n0.len() - p0))));
        assert(s.take(n0.len() as int) =~= n0);
        assert(s.skip(n0.len() as int) =~= rest);
        assert(wf_nal_stream(nals.skip(1))) by {
            assert forall|k: int| 0 <= k < nals.skip(1).len() implies {
                let tail = concat_all(#[trigger] nals.skip(1).skip(k));
                &&& is_start_at(nals.skip(1)[k], 0)
                &&& find_start_spec(tail.skip(prefix_len_spec(nals.skip(1)[k]))) == (
                if k < nals.skip(1).len() - 1 {
                    Some(nals.skip(1)[k].len() - prefix_len_spec(nals.skip(1)[k]))
                } else {
                    None::<int>
                })
            } by {
                assert(nals.skip(1).skip(k) =~~= nals.skip(k + 1));
                assert(nals.skip(1)[k] == nals[k + 1]);
            }
        }
        lemma_extraction_complete(nals.skip(1));
        assert(drain_spec(s).0 == seq![n0] + drain_spec(rest).0);
        assert(drain_spec(s).1 == drain_spec(rest).1);
        assert(seq![n0] + nals.skip(1).drop_last() =~~= nals.drop_last());
        assert(nals.skip(1).last() == nals.last());
    }
}

proof fn lemma_cache_fold_push(c: CacheV, frames: Seq<Seq<u8>>, f: Seq<u8>)
    ensures
        cache_fold_spec(c, frames.push(f)) == cache_update_spec(cache_fold_spec(c, frames), f),
    decreases frames.len(),
{
    if frames.len() == 0 {
        assert(frames.push(f)[0] == f);
        assert(frames.push(f).skip(1) =~= Seq::<Seq<u8>>::empty());
        assert(cache_fold_spec(c, frames.push(f)) == cache_fold_spec(
            cache_update_spec(c, f),
            Seq::<Seq<u8>>::empty(),
        ));
        assert(cache_fold_spec(cache_update_spec(c, f), Seq::<Seq<u8>>::empty())
            == cache_update_spec(c, f));
        assert(cache_fold_spec(c, frames) == c);
    } else {
        assert(frames.push(f)[0] == frames[0]);
        assert(frames.push(f).skip(1) =~= frames.skip(1).push(f));
        lemma_cache_fold_push(cache_update_spec(c, frames[0]), frames.skip(1), f);
        assert(cache_fold_spec(c, frames.push(f)) == cache_fold_spec(
            cache_update_spec(c, frames[0]),
            frames.skip(1).push(f),
        ));
        assert(cache_fold_spec(c, frames) == cache_fold_spec(
            cache_update_spec(c, frames[0]),
            frames.skip(1),
        ));
    }
}

} // verus!
