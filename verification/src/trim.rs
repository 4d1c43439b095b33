//! Silence trimming.
//!
//! A pass-through stage in front of an encoder.  While the latch is closed,
//! silent samples are discarded; the first loud sample opens the latch and is
//! written.  While the latch is open, silent samples are buffered: a later
//! loud sample flushes the buffered run first (interior silence is kept),
//! and a buffer still pending when the stream ends is discarded (trailing
//! silence is trimmed).

use vstd::prelude::*;
use crate::sample::amp_abs;

verus! {

/// Amplitudes below this threshold count as silence; the first sample at
/// or above it opens the latch (0.005 of full scale; fixed in the current
/// design rather than configurable).
pub const SILENCE_THRESHOLD: i32 = 5000;

pub open spec fn is_silent(v: int) -> bool {
    amp_abs(v) < SILENCE_THRESHOLD as int
}

pub open spec fn all_silent(s: Seq<i32>) -> bool {
    forall|i: int| 0 <= i < s.len() ==> is_silent(#[trigger] s[i] as int)
}

/// The sequence with its leading run of silence removed.
pub open spec fn drop_leading(s: Seq<i32>) -> Seq<i32>
    decreases s.len(),
{
    if s.len() == 0 {
        s
    } else if is_silent(s.first() as int) {
        drop_leading(s.drop_first())
    } else {
        s
    }
}

/// The sequence with its trailing run of silence removed.
pub open spec fn drop_trailing(s: Seq<i32>) -> Seq<i32>
    decreases s.len(),
{
    if s.len() == 0 {
        s
    } else if is_silent(s.last() as int) {
        drop_trailing(s.drop_last())
    } else {
        s
    }
}

/// What silence trimming keeps of a whole stream: the leading and trailing
/// silent runs are removed, interior silence is preserved.
pub open spec fn trim_spec(s: Seq<i32>) -> Seq<i32> {
    drop_trailing(drop_leading(s))
}

/// The silence latch in front of an encoder.
pub struct SilenceTrim {
    latch_open: bool,
    pending: Vec<i32>,
    processed: Ghost<Seq<i32>>,
    emitted: Ghost<Seq<i32>>,
}

impl SilenceTrim {
    /// Every sample handed to the latch so far, in order.
    pub closed spec fn spec_processed(&self) -> Seq<i32> {
        self.processed@
    }

    /// Every sample the latch has passed through so far, in order.
    pub closed spec fn spec_emitted(&self) -> Seq<i32> {
        self.emitted@
    }

    pub closed spec fn spec_latch_open(&self) -> bool {
        self.latch_open
    }

    pub closed spec fn wf(&self) -> bool {
        &&& (!self.latch_open ==> {
            &&& all_silent(self.processed@)
            &&& self.pending@ =~= Seq::<i32>::empty()
            &&& self.emitted@ =~= Seq::<i32>::empty()
        })
        &&& (self.latch_open ==> {
            &&& self.emitted@.len() > 0
            &&& !is_silent(self.emitted@.last() as int)
            &&& all_silent(self.pending@)
            &&& drop_leading(self.processed@) =~= self.emitted@ + self.pending@
        })
    }

    /// A fresh latch: closed, nothing seen, nothing emitted.
    pub fn new() -> (r: SilenceTrim)
        ensures
            r.wf(),
            r.spec_processed() =~= Seq::<i32>::empty(),
            r.spec_emitted() =~= Seq::<i32>::empty(),
            !r.spec_latch_open(),
    {
        SilenceTrim {
            latch_open: false,
            pending: Vec::new(),
            processed: Ghost(Seq::empty()),
            emitted: Ghost(Seq::empty()),
        }
    }

    /// Feed one sample through the latch; the returned samples are the ones
    /// to write to the encoder now, in order.
    pub fn push(&mut self, s: i32) -> (out: Vec<i32>)
        requires
            old(self).wf(),
        ensures
            final(self).wf(),
            final(self).spec_processed() =~= old(self).spec_processed().push(s),
            final(self).spec_emitted() =~= old(self).spec_emitted() + out@,
            is_silent(s as int) ==> out@ =~= Seq::<i32>::empty(),
            final(self).spec_emitted() =~= trim_spec(final(self).spec_processed()),
            final(self).spec_latch_open() == (old(self).spec_latch_open() || !is_silent(s as int)),
            !is_silent(s as int) ==> final(self).spec_pending_len() == 0 && out@.len() == (
            if old(self).spec_latch_open() {
                old(self).spec_pending_len() + 1
            } else {
                1
            }),
            is_silent(s as int) ==> final(self).spec_pending_len() == (
            if old(self).spec_latch_open() {
                old(self).spec_pending_len() + 1
            } else {
                0
            }),
    {
        let ghost p = self.processed@;
        self.processed = Ghost(self.processed@.push(s));
        let silent = if s >= 0 {
            s < SILENCE_THRESHOLD
        } else {
            s > -SILENCE_THRESHOLD
        };
        let mut out: Vec<i32> = Vec::new();
        if !self.latch_open {
            if !silent {
                self.latch_open = true;
                out.push(s);
                self.emitted = Ghost(self.emitted@ + out@);
                proof {
                    lemma_drop_leading_after_silent(p, seq![s]);
                    assert(p + seq![s] =~= p.push(s));
                    assert(drop_leading(seq![s]) =~= seq![s]);
                    assert(drop_leading(self.processed@) =~= self.emitted@ + self.pending@);
                }
            } else {
                proof {
                    assert(all_silent(p.push(s)));
                    assert(self.emitted@ =~= self.emitted@ + out@);
                }
            }
        } else if silent {
            self.pending.push(s);
            proof {
                lemma_drop_leading_push_nonempty(p, s);
                assert(drop_leading(p).push(s) =~= self.emitted@ + self.pending@);
                assert(drop_leading(self.processed@) =~= self.emitted@ + self.pending@);
                assert(self.emitted@ =~= self.emitted@ + out@);
            }
        } else {
            let n = self.pending.len();
            let mut i: usize = 0;
            while i < n
                invariant
                    0 <= i <= n,
                    n == self.pending@.len(),
                    self.pending@ == old(self).pending@,
                    out@ =~= self.pending@.take(i as int),
                decreases n - i,
            {
                out.push(self.pending[i]);
                i = i + 1;
                proof {
                    assert(out@ =~= self.pending@.take(i as int));
                }
            }
            proof {
                assert(out@ =~= self.pending@);
            }
            out.push(s);
            self.pending.clear();
            self.emitted = Ghost(self.emitted@ + out@);
            proof {
                lemma_drop_leading_push_nonempty(p, s);
                assert(out@ =~= old(self).pending@.push(s));
                assert(drop_leading(p).push(s) =~= self.emitted@ + self.pending@);
                assert(drop_leading(self.processed@) =~= self.emitted@ + self.pending@);
            }
        }
        proof {
            lemma_emitted_matches_trim(self);
        }
        out
    }

    /// The number of buffered samples that finalization would discard as
    /// trailing silence.
    pub fn pending_len(&self) -> (r: usize)
        ensures
            r == self.spec_pending_len(),
    {
        self.pending.len()
    }

    pub closed spec fn spec_pending_len(&self) -> int {
        self.pending@.len() as int
    }
}

/// The latch's output law: at every point of the stream, the samples passed
/// through so far are exactly the whole-stream trimming of the samples seen
/// so far — the leading silent run and the (currently) trailing silent run
/// are withheld, interior silence has been flushed.
pub proof fn lemma_emitted_matches_trim(st: &SilenceTrim)
    requires
        st.wf(),
    ensures
        st.spec_emitted() == trim_spec(st.spec_processed()),
{
    if !st.spec_latch_open() {
        lemma_all_silent_drops(st.spec_processed());
    } else {
        let a = st.spec_emitted();
        let b = st.pending@;
        let s = drop_leading(st.spec_processed());
        assert(s =~= a + b);
        assert(s.subrange(0, a.len() as int) =~= a);
        assert(s.subrange(a.len() as int, s.len() as int) =~= b);
        lemma_drop_trailing_silent_suffix(a, s);
    }
}

/// A fully silent sequence trims to nothing.
proof fn lemma_all_silent_drops(s: Seq<i32>)
    requires
        all_silent(s),
    ensures
        drop_leading(s) =~= Seq::<i32>::empty(),
        trim_spec(s) =~= Seq::<i32>::empty(),
    decreases s.len(),
{
    if s.len() > 0 {
        assert(is_silent(s.first() as int));
        lemma_all_silent_drops(s.drop_first());
    }
}

/// Removing leading silence skips past any silent prefix.
proof fn lemma_drop_leading_after_silent(p: Seq<i32>, q: Seq<i32>)
    requires
        all_silent(p),
    ensures
        drop_leading(p + q) =~= drop_leading(q),
    decreases p.len(),
{
    if p.len() == 0 {
        assert(p + q =~= q);
    } else {
        assert(is_silent(p.first() as int));
        assert((p + q).first() == p.first());
        assert((p + q).drop_first() =~= p.drop_first() + q);
        lemma_drop_leading_after_silent(p.drop_first(), q);
    }
}

/// Once some sample has survived leading-silence removal, appending more
/// samples only appends to the remainder.
proof fn lemma_drop_leading_push_nonempty(p: Seq<i32>, x: i32)
    requires
        drop_leading(p).len() > 0,
    ensures
        drop_leading(p.push(x)) =~= drop_leading(p).push(x),
    decreases p.len(),
{
    assert(p.len() > 0);
    if is_silent(p.first() as int) {
        assert(p.push(x).first() == p.first());
        assert(p.push(x).drop_first() =~= p.drop_first().push(x));
        lemma_drop_leading_push_nonempty(p.drop_first(), x);
    } else {
        assert(p.push(x).first() == p.first());
        assert(drop_leading(p.push(x)) =~= p.push(x));
        assert(drop_leading(p) =~= p);
    }
}

/// A silent suffix after a loud-ended prefix is exactly what
/// trailing-silence removal discards.
proof fn lemma_drop_trailing_silent_suffix(a: Seq<i32>, s: Seq<i32>)
    requires
        s.len() >= a.len(),
        s.subrange(0, a.len() as int) =~= a,
        all_silent(s.subrange(a.len() as int, s.len() as int)),
        a.len() > 0,
        !is_silent(a.last() as int),
    ensures
        drop_trailing(s) =~= a,
    decreases s.len(),
{
    if s.len() == a.len() {
        assert(s =~= a);
        assert(!is_silent(s.last() as int));
    } else {
        let tail = s.subrange(a.len() as int, s.len() as int);
        assert(s.last() == tail.last());
        assert(is_silent(s.last() as int));
        assert(s.drop_last().subrange(0, a.len() as int) =~= a);
        let t2 = s.drop_last().subrange(a.len() as int, s.drop_last().len() as int);
        assert(all_silent(t2)) by {
            assert forall|i: int| 0 <= i < t2.len() implies is_silent(#[trigger] t2[i] as int) by {
                assert(t2[i] == tail[i]);
            }
        }
        lemma_drop_trailing_silent_suffix(a, s.drop_last());
    }
}

} // verus!
