//! Server-sent events: the payloads of `data:` lines, however the bytes come in.
use vstd::prelude::*;

use crate::codec::{lossy_text, read_lossy};
use crate::text::{begins, chars_of, starts_with, text_between, trim, trimmed};

verus! {

/// Where the first line of some bytes ends; at their end where no line does.
pub open spec fn line_end(b: Seq<u8>) -> int
    decreases b.len(),
{
    if b.len() == 0 || b[0] == 10 {
        0
    } else {
        1 + line_end(b.drop_first())
    }
}

/// Whether some bytes hold the end of a line.
pub open spec fn holds_line(b: Seq<u8>) -> bool {
    line_end(b) < b.len()
}

/// A line without the carriage return at its end.
pub open spec fn bare_line(line: Seq<u8>) -> Seq<u8> {
    if line.len() > 0 && line.last() == 13 {
        line.drop_last()
    } else {
        line
    }
}

/// The first line.
pub open spec fn first_line(b: Seq<u8>) -> Seq<u8> {
    bare_line(b.take(line_end(b)))
}

/// What follows the first line.
pub open spec fn after_line(b: Seq<u8>) -> Seq<u8> {
    b.skip(line_end(b) + 1)
}

/// The payload of a line: what follows `data:`, where that is not blank.
pub open spec fn line_payload(line: Seq<u8>) -> Option<Seq<char>> {
    let s = trimmed(lossy_text(line));
    if line.len() > 0 && begins(s, "data:"@) && trimmed(s.skip(5)).len() > 0 {
        Some(trimmed(s.skip(5)))
    } else {
        None
    }
}

/// The payloads of the lines that have ended.
pub open spec fn payloads(b: Seq<u8>) -> Seq<Seq<char>>
    decreases b.len(),
    via payloads_decreases
{
    if holds_line(b) {
        let rest = payloads(after_line(b));
        match line_payload(first_line(b)) {
            Some(p) => seq![p] + rest,
            None => rest,
        }
    } else {
        Seq::empty()
    }
}

#[via_fn]
proof fn payloads_decreases(b: Seq<u8>) {
    lemma_line_end(b);
}

/// What follows the last line that has ended.
pub open spec fn unended(b: Seq<u8>) -> Seq<u8>
    decreases b.len(),
    via unended_decreases
{
    if holds_line(b) {
        unended(after_line(b))
    } else {
        b
    }
}

#[via_fn]
proof fn unended_decreases(b: Seq<u8>) {
    lemma_line_end(b);
}

proof fn lemma_line_end(b: Seq<u8>)
    ensures
        0 <= line_end(b) <= b.len(),
        holds_line(b) ==> b[line_end(b)] == 10,
        forall|i: int| 0 <= i < line_end(b) ==> b[i] != 10,
    decreases b.len(),
{
    if b.len() > 0 && b[0] != 10 {
        let t = b.drop_first();
        lemma_line_end(t);
        assert forall|i: int| 0 <= i < line_end(b) implies b[i] != 10 by {
            if i > 0 {
                assert(t[i - 1] == b[i]);
            }
        }
    }
}

proof fn lemma_line_end_at(b: Seq<u8>, n: int)
    requires
        0 <= n <= b.len(),
        forall|i: int| 0 <= i < n ==> b[i] != 10,
        n < b.len() ==> b[n] == 10,
    ensures
        line_end(b) == n,
    decreases b.len(),
{
    if n > 0 {
        let t = b.drop_first();
        assert forall|i: int| 0 <= i < n - 1 implies t[i] != 10 by {
            assert(t[i] == b[i + 1]);
        }
        lemma_line_end_at(t, n - 1);
    }
}

/// What a reader has next.
pub enum SseStep {
    Payload(String),
    /// More bytes are needed.
    Need,
    End,
}

/// The model of an [`SseStep`].
pub enum StepView {
    Payload(Seq<char>),
    Need,
    End,
}

impl View for SseStep {
    type V = StepView;

    open spec fn view(&self) -> StepView {
        match self {
            SseStep::Payload(s) => StepView::Payload(s@),
            SseStep::Need => StepView::Need,
            SseStep::End => StepView::End,
        }
    }
}

/// What a reader has next, and the bytes that are left: the payload of the first line that has
/// one; at the end of the stream also that of bytes without the end of a line.
pub open spec fn next_step(b: Seq<u8>, done: bool) -> (StepView, Seq<u8>)
    decreases b.len(),
    via next_decreases
{
    if holds_line(b) {
        match line_payload(first_line(b)) {
            Some(p) => (StepView::Payload(p), after_line(b)),
            None => next_step(after_line(b), done),
        }
    } else if done {
        match line_payload(b) {
            Some(p) => (StepView::Payload(p), Seq::empty()),
            None => (StepView::End, Seq::empty()),
        }
    } else {
        (StepView::Need, b)
    }
}

#[via_fn]
proof fn next_decreases(b: Seq<u8>, done: bool) {
    lemma_line_end(b);
}

/// Reads the payload of a line.
pub fn payload_from_line(line: &[u8]) -> (r: Option<String>)
    ensures
        match r {
            Some(p) => line_payload(line@) == Some(p@),
            None => line_payload(line@) is None,
        },
{
    if line.len() == 0 {
        return None;
    }
    let s = trim(read_lossy(line).as_str());
    if !starts_with(s.as_str(), "data:") {
        return None;
    }
    proof {
        reveal_strlit("data:");
    }
    let v = chars_of(s.as_str());
    let rest = text_between(&v, 5, v.len());
    assert(rest@ =~= s@.skip(5));
    let payload = trim(rest.as_str());
    if payload.as_str().is_empty() {
        None
    } else {
        Some(payload)
    }
}

/// A reader of server-sent events.
pub struct SseStream {
    buf: Vec<u8>,
    at: usize,
    done: bool,
}

impl SseStream {
    /// The bytes that are not read yet.
    pub closed spec fn pending(self) -> Seq<u8> {
        self.buf@.skip(self.at as int)
    }

    /// Whether the stream has ended.
    pub closed spec fn ended(self) -> bool {
        self.done
    }

    #[verifier::type_invariant]
    pub closed spec fn wf(self) -> bool {
        self.at <= self.buf@.len()
    }

    pub fn new() -> (r: SseStream)
        ensures
            r.pending() == Seq::<u8>::empty(),
            !r.ended(),
    {
        let buf: Vec<u8> = Vec::new();
        assert(buf@.skip(0) =~= Seq::empty());
        SseStream { buf, at: 0, done: false }
    }

    /// Takes bytes in.
    pub fn feed(&mut self, chunk: &[u8])
        ensures
            final(self).pending() == old(self).pending() + chunk@,
            final(self).ended() == old(self).ended(),
    {
        proof {
            use_type_invariant(&*self);
        }
        let ghost had = self.pending();
        let mut buf: Vec<u8> = Vec::new();
        let n = self.buf.len();
        let mut i: usize = self.at;
        while i < n
            invariant
                self.at <= i <= n,
                n == self.buf@.len(),
                buf@ =~= self.buf@.subrange(self.at as int, i as int),
            decreases n - i,
        {
            buf.push(self.buf[i]);
            i += 1;
        }
        assert(buf@ =~= had);
        let mut k: usize = 0;
        while k < chunk.len()
            invariant
                k <= chunk@.len(),
                buf@ =~= had + chunk@.take(k as int),
            decreases chunk@.len() - k,
        {
            buf.push(chunk[k]);
            k += 1;
        }
        assert(chunk@.take(k as int) =~= chunk@);
        let done = self.done;
        *self = SseStream { buf, at: 0, done };
        assert(self.buf@.skip(0) =~= self.buf@);
    }

    /// Notes the end of the stream.
    pub fn close(&mut self)
        ensures
            final(self).pending() == old(self).pending(),
            final(self).ended(),
    {
        proof {
            use_type_invariant(&*self);
        }
        self.done = true;
    }

    /// Reads the next payload.
    pub fn next_payload(&mut self) -> (r: SseStep)
        ensures
            (r@, final(self).pending()) == next_step(old(self).pending(), old(self).ended()),
            final(self).ended() == old(self).ended(),
    {
        proof {
            use_type_invariant(&*self);
        }
        let ghost first = self.pending();
        let ghost over = self.done;
        let n = self.buf.len();
        let mut i: usize = self.at;
        while i < n
            invariant
                self.at <= i <= n,
                n == self.buf@.len(),
                self.done == over,
                over == old(self).ended(),
                first == old(self).pending(),
                next_step(first, over) == next_step(self.pending(), over),
                forall|j: int| self.at <= j < i ==> self.buf@[j] != 10,
            decreases n - i,
        {
            if self.buf[i] == 10 {
                let ghost b = self.pending();
                let ghost k = i - self.at;
                proof {
                    assert forall|j: int| 0 <= j < k implies b[j] != 10 by {
                        assert(b[j] == self.buf@[self.at + j]);
                    }
                    assert(b[k] == 10);
                    lemma_line_end_at(b, k);
                    lemma_line_end(b);
                }
                let end: usize = if i > self.at && self.buf[i - 1] == 13 {
                    i - 1
                } else {
                    i
                };
                let line = vstd::slice::slice_subrange(self.buf.as_slice(), self.at, end);
                assert(line@ =~= first_line(b));
                let found = payload_from_line(line);
                self.at = i + 1;
                assert(self.pending() =~= after_line(b));
                match found {
                    Some(p) => {
                        return SseStep::Payload(p);
                    },
                    None => {},
                }
            }
            i += 1;
        }
        let ghost b = self.pending();
        proof {
            assert forall|j: int| 0 <= j < b.len() implies b[j] != 10 by {
                assert(b[j] == self.buf@[self.at + j]);
            }
            lemma_line_end_at(b, b.len() as int);
        }
        if !self.done {
            return SseStep::Need;
        }
        let line = vstd::slice::slice_subrange(self.buf.as_slice(), self.at, n);
        assert(line@ =~= b);
        let found = payload_from_line(line);
        self.at = n;
        assert(self.pending() =~= Seq::empty());
        match found {
            Some(p) => SseStep::Payload(p),
            None => SseStep::End,
        }
    }
}

// ---------------------------------------------------------------------------
// laws
// ---------------------------------------------------------------------------

/// It does not matter how the bytes of a stream are cut: the payloads of two chunks are those of
/// the first, and then those of what it left with the second.
pub proof fn law_chunks_do_not_matter(a: Seq<u8>, b: Seq<u8>)
    ensures
        payloads(a + b) == payloads(a) + payloads(unended(a) + b),
        unended(a + b) == unended(unended(a) + b),
    decreases a.len(),
{
    lemma_line_end(a);
    if holds_line(a) {
        let n = line_end(a);
        assert((a + b)[n] == 10);
        assert forall|i: int| 0 <= i < n implies (a + b)[i] != 10 by {
            assert((a + b)[i] == a[i]);
        }
        lemma_line_end_at(a + b, n);
        assert((a + b).take(n) =~= a.take(n));
        assert(after_line(a + b) =~= after_line(a) + b);
        law_chunks_do_not_matter(after_line(a), b);
        let more = payloads(unended(a) + b);
        match line_payload(first_line(a)) {
            Some(p) => {
                assert(seq![p] + (payloads(after_line(a)) + more) =~= (seq![p] + payloads(
                    after_line(a),
                )) + more);
            },
            None => {},
        }
    } else {
        assert(payloads(a) + payloads(a + b) =~= payloads(a + b));
    }
}

/// A reader gives the payloads of the lines one by one, and then, at the end of the stream, that
/// of what is left.
pub proof fn law_payloads_in_order(b: Seq<u8>, done: bool)
    ensures
        ({
            let (step, rest) = next_step(b, done);
            match step {
                StepView::Payload(p) => if payloads(b).len() > 0 {
                    payloads(b) == seq![p] + payloads(rest) && unended(b) == unended(rest)
                } else {
                    done && line_payload(unended(b)) == Some(p) && rest == Seq::<u8>::empty()
                },
                StepView::Need => !done && payloads(b).len() == 0 && rest == unended(b),
                StepView::End => done && payloads(b).len() == 0 && line_payload(unended(b)) is None,
            }
        }),
    decreases b.len(),
{
    lemma_line_end(b);
    if holds_line(b) && line_payload(first_line(b)) is None {
        law_payloads_in_order(after_line(b), done);
    }
}

} // verus!
