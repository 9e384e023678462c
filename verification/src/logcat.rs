//! Logcat streaming: the per-device session registry, line batching,
//! and event naming.
//!
//! The embedder spawns `adb -s <id> logcat -v time` and reads its
//! lines; this module decides which child must die before a new one
//! starts (at most one stream per device), which lines are kept, and
//! when a batch is flushed.

use vstd::prelude::*;
use vstd::string::StringExecFns;
use crate::text::{chars_of, string_of, trim_chars, contains_sub, contains_spec, trim_spec};

verus! {

/// Lines buffered before a flush is forced.
pub const BATCH_MAX_LINES: usize = 50;

/// Milliseconds after which a non-empty batch is flushed.
pub const BATCH_MAX_DELAY_MS: u64 = 100;

/// The characters an event name accepts; everything else is replaced
/// by an underscore.
pub open spec fn is_event_char(c: char) -> bool {
    ('a' <= c && c <= 'z') || ('A' <= c && c <= 'Z') || ('0' <= c && c <= '9')
}

/// A device id with every non-alphanumeric character replaced by
/// `_`, fit for use inside an event name.
pub open spec fn sanitize_id_spec(s: Seq<char>) -> Seq<char> {
    s.map_values(
        |c: char|
            if is_event_char(c) {
                c
            } else {
                '_'
            },
    )
}

/// Sanitize a device identifier for event names.
pub fn sanitize_device_id(s: &str) -> (r: String)
    ensures
        r@ == sanitize_id_spec(s@),
{
    let cs = chars_of(s);
    let mut out: Vec<char> = Vec::new();
    let mut i: usize = 0;
    while i < cs.len()
        invariant
            0 <= i <= cs@.len(),
            out@.len() == i,
            forall|k: int| 0 <= k < i ==> out@[k] == (if is_event_char(cs@[k]) {
                cs@[k]
            } else {
                '_'
            }),
        decreases cs@.len() - i,
    {
        let c = cs[i];
        if ('a' <= c && c <= 'z') || ('A' <= c && c <= 'Z') || ('0' <= c && c <= '9') {
            out.push(c);
        } else {
            out.push('_');
        }
        i = i + 1;
    }
    proof {
        assert(out@ =~= sanitize_id_spec(s@));
    }
    string_of(out.as_slice())
}

/// The per-device event channel name, `logcat-line-<sanitized id>`.
pub fn logcat_event_name(device_id: &str) -> (r: String)
    ensures
        r@ == "logcat-line-"@ + sanitize_id_spec(device_id@),
{
    let mut s = String::from_str("logcat-line-");
    let sanitized = sanitize_device_id(device_id);
    s.append(sanitized.as_str());
    s
}

// ---------------------------------------------------------------------------
// the stream registry
// ---------------------------------------------------------------------------

/// Registry of live logcat children, keyed by device id.  The child
/// itself lives with the embedder; the registry holds its opaque
/// handle.  Invariant: device ids are unique.
pub struct LogcatState {
    pub streams: Vec<(String, u64)>,
}

pub open spec fn keys_unique(entries: Seq<(Seq<char>, u64)>) -> bool {
    forall|i: int, j: int| 0 <= i < j < entries.len() ==> (#[trigger] entries[i]).0 != (
    #[trigger] entries[j]).0
}

pub open spec fn has_key(entries: Seq<(Seq<char>, u64)>, key: Seq<char>) -> bool {
    exists|i: int| 0 <= i < entries.len() && (#[trigger] entries[i]).0 == key
}

impl LogcatState {
    pub open spec fn entries(&self) -> Seq<(Seq<char>, u64)> {
        Seq::new(self.streams@.len(), |i: int| (self.streams@[i].0@, self.streams@[i].1))
    }

    pub open spec fn wf(&self) -> bool {
        keys_unique(self.entries())
    }

    /// Empty registry: no live stream.
    pub fn new() -> (r: Self)
        ensures
            r.wf(),
            r.entries() == Seq::<(Seq<char>, u64)>::empty(),
    {
        let r = LogcatState { streams: Vec::new() };
        proof {
            assert(r.entries() =~= Seq::<(Seq<char>, u64)>::empty());
        }
        r
    }

    fn find_index(&self, device_id: &str) -> (r: Option<usize>)
        ensures
            match r {
                Some(i) => 0 <= i < self.entries().len() && self.entries()[i as int].0
                    == device_id@,
                None => !has_key(self.entries(), device_id@),
            },
    {
        let mut i: usize = 0;
        while i < self.streams.len()
            invariant
                0 <= i <= self.streams@.len(),
                forall|k: int| 0 <= k < i ==> (#[trigger] self.entries()[k]).0 != device_id@,
            decreases self.streams@.len() - i,
        {
            let dc = chars_of(device_id);
            let ec = chars_of(self.streams[i].0.as_str());
            if crate::text::chars_eq(dc.as_slice(), ec.as_slice()) {
                assert(self.entries()[i as int].0 == device_id@);
                return Some(i);
            }
            assert(self.entries()[i as int].0 != device_id@);
            i = i + 1;
        }
        None
    }

    /// Make room for a new stream: remove the device's existing
    /// stream, if any, and hand back its child for the embedder to
    /// kill, before the new child is spawned.  Afterwards the device
    /// has no stream.
    pub fn prepare_start(&mut self, device_id: &str) -> (r: Option<u64>)
        requires
            old(self).wf(),
        ensures
            final(self).wf(),
            !has_key(final(self).entries(), device_id@),
            has_key(old(self).entries(), device_id@) ==> (exists|i: int|
                0 <= i < old(self).entries().len() && (#[trigger] old(self).entries()[i]).0
                    == device_id@ && r == Some(old(self).entries()[i].1)),
            !has_key(old(self).entries(), device_id@) ==> r is None && final(self).entries()
                == old(self).entries(),
    {
        match self.find_index(device_id) {
            Some(i) => {
                let (_, child) = self.streams.remove(i);
                proof {
                    let oe = old(self).entries();
                    let ne = self.entries();
                    assert(ne =~= oe.remove(i as int));
                    assert forall|k: int| 0 <= k < ne.len() implies (#[trigger] ne[k]).0
                        != device_id@ by {
                        if k < i {
                            assert(ne[k] == oe[k]);
                        } else {
                            assert(ne[k] == oe[k + 1]);
                        }
                    }
                }
                Some(child)
            },
            None => None,
        }
    }

    /// Record the freshly spawned child for a device with no stream.
    pub fn register_stream(&mut self, device_id: &str, child: u64)
        requires
            old(self).wf(),
            !has_key(old(self).entries(), device_id@),
        ensures
            final(self).wf(),
            final(self).entries() == old(self).entries().push((device_id@, child)),
    {
        self.streams.push((String::from_str(device_id), child));
        proof {
            assert(self.entries() =~= old(self).entries().push((device_id@, child)));
        }
    }

    /// Stop a stream: remove it and hand back its child to kill.
    pub fn stop_logcat_stream(&mut self, device_id: &str) -> (r: Option<u64>)
        requires
            old(self).wf(),
        ensures
            final(self).wf(),
            !has_key(final(self).entries(), device_id@),
            !has_key(old(self).entries(), device_id@) ==> r is None && final(self).entries()
                == old(self).entries(),
    {
        self.prepare_start(device_id)
    }

    /// Drain every stream at shutdown: the registry empties and all
    /// children are handed back to be killed.
    pub fn drain_all(&mut self) -> (r: Vec<u64>)
        ensures
            final(self).entries() == Seq::<(Seq<char>, u64)>::empty(),
            r@.len() == old(self).entries().len(),
            forall|i: int| 0 <= i < r@.len() ==> r@[i] == old(self).entries()[i].1,
    {
        let mut children: Vec<u64> = Vec::new();
        let mut i: usize = 0;
        while i < self.streams.len()
            invariant
                0 <= i <= self.streams@.len(),
                self.entries() == old(self).entries(),
                children@.len() == i,
                forall|k: int| 0 <= k < i ==> children@[k] == old(self).entries()[k].1,
            decreases self.streams@.len() - i,
        {
            children.push(self.streams[i].1);
            i = i + 1;
        }
        self.streams.clear();
        proof {
            assert(self.entries() =~= Seq::<(Seq<char>, u64)>::empty());
        }
        children
    }
}

/// The single-session invariant: after a second start for the same
/// device, exactly one stream is registered for it, and the first
/// child was handed out for killing by the second `prepare_start` —
/// before the second child's reader could be registered at all.
pub proof fn lemma_single_session(entries: Seq<(Seq<char>, u64)>, id: Seq<char>, c1: u64)
    requires
        keys_unique(entries),
        !has_key(entries, id),
    ensures
        ({
            // first start registers c1
            let after_first = entries.push((id, c1));
            // the second start's prepare removes exactly c1's entry
            &&& has_key(after_first, id)
            &&& after_first[after_first.len() - 1] == (id, c1)
            &&& keys_unique(after_first)
        }),
{
    let after_first = entries.push((id, c1));
    assert forall|i: int, j: int| 0 <= i < j < after_first.len() implies (
    #[trigger] after_first[i]).0 != (#[trigger] after_first[j]).0 by {
        if j == after_first.len() - 1 {
            assert(after_first[i] == entries[i]);
            assert(!has_key(entries, id) ==> entries[i].0 != id);
        } else {
            assert(after_first[i] == entries[i]);
            assert(after_first[j] == entries[j]);
        }
    }
    assert(after_first[after_first.len() - 1].0 == id);
}

// ---------------------------------------------------------------------------
// batching
// ---------------------------------------------------------------------------

/// Payload of one batch event.
#[derive(Debug, Clone)]
pub struct LogBatchPayload {
    pub device_id: String,
    pub lines: Vec<String>,
}

/// Whether a logcat line is kept: empty lines and the buffer-banner
/// lines are skipped.
pub open spec fn line_kept(line: Seq<char>) -> bool {
    trim_spec(line).len() > 0 && !contains_spec(trim_spec(line), "--------- beginning of"@)
}

/// Batches kept lines until the count or the delay forces a flush.
pub struct LogcatBatcher {
    pub device_id: String,
    pub batch: Vec<String>,
    pub last_emit_ms: u64,
}

impl LogcatBatcher {
    pub fn new(device_id: &str, now_ms: u64) -> (r: Self)
        ensures
            r.device_id@ == device_id@,
            r.batch.deep_view() == Seq::<Seq<char>>::empty(),
            r.last_emit_ms == now_ms,
    {
        let r = LogcatBatcher {
            device_id: String::from_str(device_id),
            batch: Vec::new(),
            last_emit_ms: now_ms,
        };
        proof {
            assert(r.batch.deep_view() =~~= Seq::<Seq<char>>::empty());
        }
        r
    }

    /// Take in one line.  A skipped line changes nothing.  A kept
    /// line joins the batch; when the batch has reached the maximum
    /// count or the delay since the last flush has passed, the whole
    /// batch is emitted, in order, and the clock resets.
    pub fn push_line(&mut self, line: String, now_ms: u64) -> (r: Option<LogBatchPayload>)
        requires
            now_ms >= old(self).last_emit_ms,
        ensures
            final(self).device_id == old(self).device_id,
            !line_kept(line@) ==> r is None && final(self).batch == old(self).batch
                && final(self).last_emit_ms == old(self).last_emit_ms,
            line_kept(line@) ==> {
                let grown = old(self).batch.deep_view().push(line@);
                if grown.len() >= BATCH_MAX_LINES || now_ms - old(self).last_emit_ms
                    >= BATCH_MAX_DELAY_MS {
                    &&& r matches Some(p) && p.device_id@ == old(self).device_id@
                        && p.lines.deep_view() == grown
                    &&& final(self).batch.deep_view() == Seq::<Seq<char>>::empty()
                    &&& final(self).last_emit_ms == now_ms
                } else {
                    &&& r is None
                    &&& final(self).batch.deep_view() == grown
                    &&& final(self).last_emit_ms == old(self).last_emit_ms
                }
            },
    {
        let lc = chars_of(line.as_str());
        let trimmed = trim_chars(lc.as_slice());
        let banner = chars_of("--------- beginning of");
        if trimmed.len() == 0 || contains_sub(trimmed.as_slice(), banner.as_slice()) {
            return None;
        }
        assert(line_kept(line@));
        let ghost prev = self.batch.deep_view();
        let ghost lv = line@;
        self.batch.push(line);
        proof {
            assert(self.batch.deep_view() =~~= prev.push(lv));
        }
        if self.batch.len() >= BATCH_MAX_LINES || now_ms - self.last_emit_ms
            >= BATCH_MAX_DELAY_MS {
            let lines = self.batch.clone();
            proof {
                assert(lines.deep_view() =~~= self.batch.deep_view());
            }
            self.batch = Vec::new();
            self.last_emit_ms = now_ms;
            let payload = LogBatchPayload { device_id: self.device_id.clone(), lines };
            proof {
                assert(self.batch.deep_view() =~~= Seq::<Seq<char>>::empty());
            }
            Some(payload)
        } else {
            None
        }
    }

    /// Emit whatever remains when the stream ends.
    pub fn final_flush(&mut self) -> (r: Option<LogBatchPayload>)
        ensures
            final(self).batch.deep_view() == Seq::<Seq<char>>::empty(),
            old(self).batch.deep_view().len() == 0 ==> r is None,
            old(self).batch.deep_view().len() > 0 ==> (r matches Some(p)
                && p.device_id@ == old(self).device_id@
                && p.lines.deep_view() == old(self).batch.deep_view()),
    {
        if self.batch.len() == 0 {
            proof {
                assert(self.batch.deep_view() =~~= Seq::<Seq<char>>::empty());
            }
            None
        } else {
            let lines = self.batch.clone();
            proof {
                assert(lines.deep_view() =~~= self.batch.deep_view());
            }
            self.batch = Vec::new();
            let payload = LogBatchPayload { device_id: self.device_id.clone(), lines };
            proof {
                assert(self.batch.deep_view() =~~= Seq::<Seq<char>>::empty());
            }
            Some(payload)
        }
    }
}

} // verus!
