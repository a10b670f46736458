//! Re-segmentation of an unframed byte stream into lines. Bytes arrive in
//! arbitrary chunks; every complete line (up to a `'\n'`, which is discarded)
//! is handed out, and the trailing text without a newline stays buffered. A
//! trailing `'\r'` is kept: this layer does not strip it.
use vstd::prelude::*;

verus! {

/// The newline byte.
pub const NL: u8 = 10;

/// The complete lines contained in a byte string: one entry per `'\n'`, each
/// holding the bytes since the previous `'\n'`, the delimiter discarded.
pub open spec fn complete_lines(s: Seq<u8>) -> Seq<Seq<u8>>
    decreases s.len(),
{
    if s.len() == 0 {
        Seq::empty()
    } else if s.last() == NL {
        complete_lines(s.drop_last()).push(line_rest(s.drop_last()))
    } else {
        complete_lines(s.drop_last())
    }
}

/// The bytes of a byte string after its last `'\n'` (the whole string when it
/// has none): what stays buffered.
pub open spec fn line_rest(s: Seq<u8>) -> Seq<u8>
    decreases s.len(),
{
    if s.len() == 0 {
        Seq::empty()
    } else if s.last() == NL {
        Seq::empty()
    } else {
        line_rest(s.drop_last()).push(s.last())
    }
}

/// What stays buffered never holds a newline.
pub proof fn lemma_line_rest_no_nl(s: Seq<u8>)
    ensures
        forall|i: int| 0 <= i < line_rest(s).len() ==> line_rest(s)[i] != NL,
    decreases s.len(),
{
    if s.len() > 0 {
        lemma_line_rest_no_nl(s.drop_last());
        if s.last() != NL {
            assert(line_rest(s) == line_rest(s.drop_last()).push(s.last()));
            assert forall|i: int| 0 <= i < line_rest(s).len() implies line_rest(s)[i] != NL by {
                if i < line_rest(s).len() - 1 {
                    assert(line_rest(s)[i] == line_rest(s.drop_last())[i]);
                }
            }
        }
    }
}

/// Appending one byte completes a line exactly when it is a newline.
pub proof fn lemma_push_step(s: Seq<u8>, b: u8)
    ensures
        complete_lines(s.push(b)) == (if b == NL {
            complete_lines(s).push(line_rest(s))
        } else {
            complete_lines(s)
        }),
        line_rest(s.push(b)) == (if b == NL {
            Seq::<u8>::empty()
        } else {
            line_rest(s).push(b)
        }),
{
    assert(s.push(b).drop_last() =~= s);
    assert(s.push(b).last() == b);
}

/// A byte string without a newline buffers whole and completes nothing.
pub proof fn lemma_no_nl_stays_buffered(s: Seq<u8>)
    requires
        forall|i: int| 0 <= i < s.len() ==> s[i] != NL,
    ensures
        complete_lines(s) == Seq::<Seq<u8>>::empty(),
        line_rest(s) == s,
    decreases s.len(),
{
    if s.len() > 0 {
        lemma_no_nl_stays_buffered(s.drop_last());
        assert(line_rest(s) =~= s);
        assert(complete_lines(s) =~= Seq::<Seq<u8>>::empty());
    }
}

/// The pending-text accumulator of a control-channel worker.
pub struct LineAccumulator {
    pending: Vec<u8>,
}

impl LineAccumulator {
    /// The bytes waiting for their newline.
    pub closed spec fn buffered(&self) -> Seq<u8> {
        self.pending@
    }

    /// The buffer holds no newline: every `'\n'` has been handed out.
    pub closed spec fn wf(&self) -> bool {
        forall|i: int| 0 <= i < self.pending@.len() ==> self.pending@[i] != NL
    }

    /// An empty accumulator.
    pub fn new() -> (a: LineAccumulator)
        ensures
            a.wf(),
            a.buffered() == Seq::<u8>::empty(),
    {
        LineAccumulator { pending: Vec::new() }
    }

    /// Append a chunk of received bytes and hand out every line it completes,
    /// in receipt order; the text after the last newline stays buffered.
    pub fn feed(&mut self, chunk: &[u8]) -> (lines: Vec<Vec<u8>>)
        requires
            old(self).wf(),
        ensures
            final(self).wf(),
            lines.deep_view() == complete_lines(old(self).buffered() + chunk@),
            final(self).buffered() == line_rest(old(self).buffered() + chunk@),
    {
        let ghost base = self.pending@;
        let mut lines: Vec<Vec<u8>> = Vec::new();
        proof {
            lemma_no_nl_stays_buffered(base);
            assert(base + chunk@.take(0) =~= base);
        }
        let mut i: usize = 0;
        while i < chunk.len()
            invariant
                0 <= i <= chunk@.len(),
                lines.deep_view() == complete_lines(base + chunk@.take(i as int)),
                self.pending@ == line_rest(base + chunk@.take(i as int)),
            decreases chunk@.len() - i,
        {
            let ghost before = base + chunk@.take(i as int);
            let b = chunk[i];
            proof {
                assert(before.push(b) =~= base + chunk@.take(i as int + 1));
                lemma_push_step(before, b);
            }
            if b == NL {
                let mut line: Vec<u8> = Vec::new();
                core::mem::swap(&mut line, &mut self.pending);
                lines.push(line);
                proof {
                    assert(line.deep_view() =~= line@);
                    assert(lines.deep_view() =~= complete_lines(before).push(line_rest(before)));
                }
            } else {
                self.pending.push(b);
                proof {
                    assert(lines.deep_view() =~= complete_lines(before));
                }
            }
            i = i + 1;
        }
        proof {
            assert(base + chunk@.take(chunk@.len() as int) =~= base + chunk@);
            lemma_line_rest_no_nl(base + chunk@);
        }
        lines
    }
}

} // verus!
