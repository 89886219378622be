//! Routing: the wire frame `stream_name \0 payload` that messages travel in,
//! and the per-stream counters, which move only after a successful WAL
//! write. The sockets, the WAL and the loop are left to the caller.

use vstd::prelude::*;

verus! {

/// Position of the first zero byte.
pub open spec fn first_zero(b: Seq<u8>) -> Option<int>
    decreases b.len(),
{
    if b.len() == 0 {
        None
    } else {
        match first_zero(b.drop_last()) {
            Some(i) => Some(i),
            None => if b.last() == 0 {
                Some(b.len() - 1)
            } else {
                None
            },
        }
    }
}

/// A message split into its stream name and payload at the first zero
/// byte; `None` for a message without one.
pub open spec fn split_frame(raw: Seq<u8>) -> Option<(Seq<u8>, Seq<u8>)> {
    match first_zero(raw) {
        Some(i) => Some((raw.take(i), raw.skip(i + 1))),
        None => None,
    }
}

/// The wire form of a payload on a stream: the name, a zero byte, the payload.
pub open spec fn frame(stream: Seq<u8>, payload: Seq<u8>) -> Seq<u8> {
    stream + seq![0u8] + payload
}

proof fn lemma_first_zero_none(b: Seq<u8>)
    requires
        forall|i: int| 0 <= i < b.len() ==> b[i] != 0,
    ensures
        first_zero(b) is None,
    decreases b.len(),
{
    if b.len() > 0 {
        lemma_first_zero_none(b.drop_last());
    }
}

proof fn lemma_first_zero_some_extend(b: Seq<u8>, k: int, m: int)
    requires
        0 <= k < m <= b.len(),
        first_zero(b.take(k)) is None,
        b[k] == 0,
    ensures
        first_zero(b.take(m)) == Some(k),
        m == b.len() ==> first_zero(b) == Some(k),
    decreases m - k,
{
    if m == k + 1 {
        assert(b.take(m).drop_last() =~= b.take(k));
    } else {
        lemma_first_zero_some_extend(b, k, m - 1);
        assert(b.take(m).drop_last() =~= b.take(m - 1));
    }
    if m == b.len() {
        assert(b.take(m) =~= b);
    }
}

/// Framing then splitting gives back the stream name and the payload, for
/// a stream name without a zero byte.
pub proof fn law_split_frame_roundtrip(stream: Seq<u8>, payload: Seq<u8>)
    requires
        forall|i: int| 0 <= i < stream.len() ==> stream[i] != 0,
    ensures
        split_frame(frame(stream, payload)) == Some((stream, payload)),
{
    let f = frame(stream, payload);
    let k = stream.len() as int;
    assert(f.take(k) =~= stream);
    lemma_first_zero_none(stream);
    lemma_first_zero_some_extend(f, k, f.len() as int);
    assert(f.skip(k + 1) =~= payload);
}

/// Split a message into its stream name and payload at the first zero
/// byte, or `None` when it has none.
pub fn split_stream_frame(raw: &[u8]) -> (r: Option<(Vec<u8>, Vec<u8>)>)
    ensures
        match r {
            Some((s, p)) => split_frame(raw@) == Some((s@, p@)),
            None => split_frame(raw@) is None,
        },
{
    let n = raw.len();
    let mut i: usize = 0;
    while i < n
        invariant
            i <= n,
            n == raw@.len(),
            first_zero(raw@.take(i as int)) is None,
        decreases n - i,
    {
        if raw[i] == 0 {
            proof {
                lemma_first_zero_some_extend(raw@, i as int, n as int);
            }
            let mut s: Vec<u8> = Vec::new();
            for k in 0..i
                invariant
                    i < n,
                    n == raw@.len(),
                    s@ == raw@.take(k as int),
            {
                s.push(raw[k]);
                assert(s@ =~= raw@.take(k + 1));
            }
            let mut p: Vec<u8> = Vec::new();
            for k in i + 1..n
                invariant
                    i < n,
                    n == raw@.len(),
                    p@ == raw@.subrange(i + 1, k as int),
            {
                p.push(raw[k]);
                assert(p@ =~= raw@.subrange(i + 1, k + 1));
            }
            assert(p@ =~= raw@.skip(i + 1));
            return Some((s, p));
        }
        assert(raw@.take(i + 1).drop_last() =~= raw@.take(i as int));
        i = i + 1;
    }
    assert(raw@.take(n as int) =~= raw@);
    None
}

/// The wire form of `payload` on `stream`.
pub fn frame_stream_message(stream: &[u8], payload: &[u8]) -> (w: Vec<u8>)
    ensures
        w@ == frame(stream@, payload@),
{
    let mut w: Vec<u8> = Vec::new();
    for k in 0..stream.len()
        invariant
            w@ == stream@.take(k as int),
    {
        w.push(stream[k]);
        assert(w@ =~= stream@.take(k + 1));
    }
    assert(stream@.take(stream@.len() as int) =~= stream@);
    w.push(0u8);
    let ghost head = w@;
    for k in 0..payload.len()
        invariant
            w@ == head + payload@.take(k as int),
    {
        w.push(payload[k]);
        assert(w@ =~= head + payload@.take(k + 1));
    }
    assert(payload@.take(payload@.len() as int) =~= payload@);
    w
}

/// The counters of one stream: messages written to its WAL, and the next
/// sequence number to assign.
#[derive(Debug, Clone, Copy, PartialEq, Eq, Structural)]
pub struct StreamCounters {
    pub message_count: u64,
    pub sequence_counter: u64,
}

/// `n + 1`, wrapping at the top of `u64` as an atomic add does.
pub open spec fn next_count(n: u64) -> u64 {
    if n == u64::MAX {
        0
    } else {
        (n + 1) as u64
    }
}

impl StreamCounters {
    /// Account for a WAL write of a message: a failed write changes nothing
    /// and the message is not forwarded; a successful one counts the
    /// message and, for a stream envelope, hands out the next sequence
    /// number.
    pub fn after_wal_write(&mut self, wal_ok: bool, is_envelope: bool) -> (r: Option<u64>)
        ensures
            !wal_ok ==> *final(self) == *old(self) && r is None,
            wal_ok ==> final(self).message_count == next_count(old(self).message_count),
            wal_ok && is_envelope ==> r == Some(old(self).sequence_counter) && final(self).sequence_counter
                == next_count(old(self).sequence_counter),
            wal_ok && !is_envelope ==> r is None && final(self).sequence_counter == old(self).sequence_counter,
    {
        if !wal_ok {
            return None;
        }
        self.message_count = if self.message_count == u64::MAX {
            0
        } else {
            self.message_count + 1
        };
        if is_envelope {
            let seq = self.sequence_counter;
            self.sequence_counter = if seq == u64::MAX {
                0
            } else {
                seq + 1
            };
            Some(seq)
        } else {
            None
        }
    }
}

/// The counters after a run of WAL writes, each given as whether it
/// succeeded and whether the message was a stream envelope.
pub open spec fn counters_after(c: StreamCounters, writes: Seq<(bool, bool)>) -> StreamCounters
    decreases writes.len(),
{
    if writes.len() == 0 {
        c
    } else {
        let p = counters_after(c, writes.drop_last());
        let (ok, env) = writes.last();
        if !ok {
            p
        } else if env {
            StreamCounters { message_count: next_count(p.message_count), sequence_counter: next_count(p.sequence_counter) }
        } else {
            StreamCounters { message_count: next_count(p.message_count), sequence_counter: p.sequence_counter }
        }
    }
}

/// The number of writes that hand out a sequence number.
pub open spec fn numbered(writes: Seq<(bool, bool)>) -> nat
    decreases writes.len(),
{
    if writes.len() == 0 {
        0
    } else {
        numbered(writes.drop_last()) + if writes.last().0 && writes.last().1 {
            1nat
        } else {
            0nat
        }
    }
}

/// Sequence numbers have no gaps: failed writes hand out none, so after a
/// run of writes the counter has moved by exactly the number of envelopes
/// written (short of wrapping).
pub proof fn law_sequence_without_gaps(c: StreamCounters, writes: Seq<(bool, bool)>)
    requires
        c.sequence_counter + writes.len() <= u64::MAX,
    ensures
        numbered(writes) <= writes.len(),
        counters_after(c, writes).sequence_counter == c.sequence_counter + numbered(writes),
    decreases writes.len(),
{
    if writes.len() > 0 {
        law_sequence_without_gaps(c, writes.drop_last());
    }
}

} // verus!
