use vstd::prelude::*;

use crate::classify::{spec_classify, SpecialChar};
use crate::format::{spec_dump, spec_reference, Note};

verus! {

/// The abstract state of a document being processed.
pub ghost struct Engine {
    /// Output emitted so far.
    pub out: Seq<u8>,
    /// Bytes held back since the last point of emission.
    pub pending: Seq<u8>,
    /// Open markers not yet matched by a close marker.
    pub depth: nat,
    /// Closed footnotes not yet dumped, oldest first.
    pub notes: Seq<Note>,
    /// Footnotes numbered so far.
    pub issued: nat,
    /// Whether the end of the stream has been signalled to the output.
    pub ended: bool,
}

impl Engine {
    /// The same state with `pending` moved to the output.
    pub open spec fn release(self) -> Engine {
        Engine { out: self.out + self.pending, pending: Seq::empty(), ..self }
    }

    /// The state between two chunks: outside a footnote nothing is held back.
    pub open spec fn settled(self) -> bool {
        self.depth == 0 ==> self.pending.len() == 0
    }
}

/// The state of a fresh processor.
pub open spec fn initial() -> Engine {
    Engine {
        out: Seq::empty(),
        pending: Seq::empty(),
        depth: 0,
        notes: Seq::empty(),
        issued: 0,
        ended: false,
    }
}

/// The effect of one input byte.
///
/// A close marker outside any footnote is plain text. A close marker right
/// after an open one (an empty footnote) leaves no trace. Footnotes nest by
/// flattening: an open marker inside a footnote emits what was held back, and
/// each close marker ends the body gathered since the last marker.
pub open spec fn step(s: Engine, b: u8) -> Engine {
    match spec_classify(b) {
        SpecialChar::Open => Engine { depth: s.depth + 1, ..s.release() },
        SpecialChar::Closed => {
            if s.depth == 0 {
                Engine { pending: s.pending.push(b), ..s }
            } else if s.pending.len() == 0 {
                Engine { depth: (s.depth - 1) as nat, ..s }
            } else {
                Engine {
                    out: s.out + spec_reference(s.issued + 1),
                    pending: Seq::empty(),
                    depth: (s.depth - 1) as nat,
                    notes: s.notes.push((s.pending, s.issued + 1)),
                    issued: s.issued + 1,
                    ..s
                }
            }
        },
        SpecialChar::Pound => {
            if s.depth == 0 {
                Engine { out: s.out + s.pending + spec_dump(s.notes), pending: Seq::empty(), notes: Seq::empty(), ..s }
            } else {
                Engine { pending: s.pending.push(b), ..s }
            }
        },
        SpecialChar::NotSpecial => Engine { pending: s.pending.push(b), ..s },
    }
}

/// The effect of a run of bytes, one after the other.
pub open spec fn run(s: Engine, data: Seq<u8>) -> Engine
    decreases data.len(),
{
    if data.len() == 0 {
        s
    } else {
        step(run(s, data.drop_last()), data.last())
    }
}

/// At the end of a chunk, what is held back outside a footnote is emitted.
pub open spec fn settle(s: Engine) -> Engine {
    if s.depth == 0 {
        s.release()
    } else {
        s
    }
}

/// The effect of one chunk.
pub open spec fn after_chunk(s: Engine, data: Seq<u8>) -> Engine {
    settle(run(s, data))
}

/// The effect of a series of chunks, in order.
pub open spec fn feed(s: Engine, chunks: Seq<Seq<u8>>) -> Engine
    decreases chunks.len(),
{
    if chunks.len() == 0 {
        s
    } else {
        after_chunk(feed(s, chunks.drop_last()), chunks.last())
    }
}

/// The end of the stream: the footnotes still queued are dumped, if there
/// are any, and the output is ended. Text of a footnote left open is dropped.
pub open spec fn finish(s: Engine) -> Engine {
    Engine {
        out: if s.notes.len() == 0 { s.out } else { s.out + spec_dump(s.notes) },
        notes: Seq::empty(),
        ended: true,
        ..s
    }
}

/// The whole output for a document given as a series of chunks.
pub open spec fn document_output(chunks: Seq<Seq<u8>>) -> Seq<u8> {
    finish(feed(initial(), chunks)).out
}

/// The footnote one byte closes, if it closes one.
pub open spec fn closed_by(s: Engine, b: u8) -> Seq<Note> {
    if spec_classify(b) == SpecialChar::Closed && s.depth > 0 && s.pending.len() > 0 {
        seq![(s.pending, s.issued + 1)]
    } else {
        Seq::empty()
    }
}

/// The footnotes one byte dumps.
pub open spec fn dumped_by(s: Engine, b: u8) -> Seq<Note> {
    if spec_classify(b) == SpecialChar::Pound && s.depth == 0 {
        s.notes
    } else {
        Seq::empty()
    }
}

/// Every footnote closed during a run, in the order of closing.
pub open spec fn closed_in(s: Engine, data: Seq<u8>) -> Seq<Note>
    decreases data.len(),
{
    if data.len() == 0 {
        Seq::empty()
    } else {
        closed_in(s, data.drop_last()) + closed_by(run(s, data.drop_last()), data.last())
    }
}

/// Every footnote dumped during a run, in the order of dumping.
pub open spec fn dumped_in(s: Engine, data: Seq<u8>) -> Seq<Note>
    decreases data.len(),
{
    if data.len() == 0 {
        Seq::empty()
    } else {
        dumped_in(s, data.drop_last()) + dumped_by(run(s, data.drop_last()), data.last())
    }
}

/// Running two pieces one after the other is running their concatenation.
pub proof fn lemma_run_append(s: Engine, a: Seq<u8>, b: Seq<u8>)
    ensures
        run(s, a + b) == run(run(s, a), b),
    decreases b.len(),
{
    if b.len() == 0 {
        assert(a + b =~= a);
    } else {
        assert((a + b).drop_last() =~= a + b.drop_last());
        assert((a + b).last() == b.last());
        lemma_run_append(s, a, b.drop_last());
    }
}

proof fn lemma_settle_step(s: Engine, b: u8)
    ensures
        settle(step(settle(s), b)) == settle(step(s, b)),
{
    if s.depth == 0 {
        let t = s.release();
        assert(t.out + t.pending =~= s.out + s.pending);
        assert(t.pending.push(b) =~= seq![b]);
        assert(t.out + seq![b] =~= s.out + s.pending.push(b));
        assert(t.out + t.pending + spec_dump(t.notes) =~= s.out + s.pending + spec_dump(s.notes));
    }
}

proof fn lemma_settle_run(s: Engine, data: Seq<u8>)
    ensures
        settle(run(settle(s), data)) == settle(run(s, data)),
    decreases data.len(),
{
    if data.len() == 0 {
        assert(s.pending + Seq::<u8>::empty() =~= s.pending);
        assert(s.out + s.pending + Seq::<u8>::empty() =~= s.out + s.pending);
    } else {
        let d = data.drop_last();
        lemma_settle_run(s, d);
        lemma_settle_step(run(settle(s), d), data.last());
        lemma_settle_step(run(s, d), data.last());
    }
}

/// Chunk boundaries do not matter: processing `a` and then `b` as two chunks
/// gives the state that processing `a + b` as one chunk gives.
pub proof fn lemma_chunk_boundaries(s: Engine, a: Seq<u8>, b: Seq<u8>)
    ensures
        after_chunk(after_chunk(s, a), b) == after_chunk(s, a + b),
{
    lemma_settle_run(run(s, a), b);
    lemma_run_append(s, a, b);
}

proof fn lemma_feed_flat(s: Engine, chunks: Seq<Seq<u8>>)
    requires
        s.settled(),
    ensures
        feed(s, chunks) == after_chunk(s, chunks.flatten_alt()),
    decreases chunks.len(),
{
    if chunks.len() == 0 {
        if s.depth == 0 {
            assert(s.out + s.pending =~= s.out);
            assert(s.pending =~= Seq::<u8>::empty());
        }
    } else {
        lemma_feed_flat(s, chunks.drop_last());
        lemma_chunk_boundaries(s, chunks.drop_last().flatten_alt(), chunks.last());
    }
}

/// Any two ways of cutting the same stream into chunks lead to the same state,
/// and so to the same output.
pub proof fn lemma_split_invariance(s: Engine, x: Seq<Seq<u8>>, y: Seq<Seq<u8>>)
    requires
        s.settled(),
        x.flatten() == y.flatten(),
    ensures
        feed(s, x) == feed(s, y),
        finish(feed(s, x)).out == finish(feed(s, y)).out,
{
    x.lemma_flatten_and_flatten_alt_are_equivalent();
    y.lemma_flatten_and_flatten_alt_are_equivalent();
    lemma_feed_flat(s, x);
    lemma_feed_flat(s, y);
}

/// A whole document's output does not depend on how it was cut into chunks.
pub proof fn lemma_document_split_invariance(x: Seq<Seq<u8>>, y: Seq<Seq<u8>>)
    requires
        x.flatten() == y.flatten(),
    ensures
        document_output(x) == document_output(y),
{
    lemma_split_invariance(initial(), x, y);
}

/// Footnotes are numbered in the order they are closed: the footnote closed
/// `i`-th (from 0) during a run gets number `issued + i + 1`, whatever dumps
/// happen in between. From a fresh processor the `N`-th footnote gets `N`.
pub proof fn lemma_sequence_numbers(s: Engine, data: Seq<u8>)
    ensures
        run(s, data).issued == s.issued + closed_in(s, data).len(),
        forall|i: int|
            0 <= i < closed_in(s, data).len() ==> #[trigger] closed_in(s, data)[i].1 == s.issued + i + 1,
    decreases data.len(),
{
    if data.len() > 0 {
        let d = data.drop_last();
        lemma_sequence_numbers(s, d);
        let prev = closed_in(s, d);
        let all = closed_in(s, data);
        assert forall|i: int| 0 <= i < all.len() implies #[trigger] all[i].1 == s.issued + i + 1 by {
            if i < prev.len() {
                assert(all[i] == prev[i]);
            }
        }
    }
}

/// Footnotes leave in the order they were closed: what a run dumps, followed
/// by what is still queued after it, is what was queued before it followed by
/// what it closed.
pub proof fn lemma_fifo(s: Engine, data: Seq<u8>)
    ensures
        dumped_in(s, data) + run(s, data).notes == s.notes + closed_in(s, data),
    decreases data.len(),
{
    if data.len() == 0 {
        assert(Seq::<Note>::empty() + s.notes =~= s.notes + Seq::<Note>::empty());
    } else {
        let d = data.drop_last();
        let t = run(s, d);
        let b = data.last();
        lemma_fifo(s, d);
        assert(dumped_by(t, b) + step(t, b).notes =~= t.notes + closed_by(t, b));
        assert(dumped_in(s, data) + run(s, data).notes =~= dumped_in(s, d) + (dumped_by(t, b)
            + step(t, b).notes));
        assert(s.notes + closed_in(s, data) =~= (s.notes + closed_in(s, d)) + closed_by(t, b));
    }
}

/// Whether a byte carries no markup.
pub open spec fn is_plain(b: u8) -> bool {
    spec_classify(b) == SpecialChar::NotSpecial
}

proof fn lemma_run_plain(s: Engine, data: Seq<u8>)
    requires
        forall|i: int| 0 <= i < data.len() ==> is_plain(#[trigger] data[i]),
    ensures
        run(s, data) == (Engine { pending: s.pending + data, ..s }),
    decreases data.len(),
{
    if data.len() == 0 {
        assert(s.pending + data =~= s.pending);
    } else {
        let d = data.drop_last();
        assert(is_plain(data[data.len() - 1]));
        lemma_run_plain(s, d);
        assert((s.pending + d).push(data.last()) =~= s.pending + data);
    }
}

/// Outside a footnote, a chunk without markup goes to the output unchanged.
pub proof fn lemma_pass_through(s: Engine, data: Seq<u8>)
    requires
        s.depth == 0,
        forall|i: int| 0 <= i < data.len() ==> is_plain(#[trigger] data[i]),
    ensures
        after_chunk(s, data) == (Engine { out: s.out + s.pending + data, pending: Seq::empty(), ..s }),
{
    lemma_run_plain(s, data);
    assert(s.out + (s.pending + data) =~= s.out + s.pending + data);
}

/// A document without markup is its own output, however it is cut into chunks.
pub proof fn lemma_document_pass_through(chunks: Seq<Seq<u8>>)
    requires
        forall|i: int| 0 <= i < chunks.flatten().len() ==> is_plain(#[trigger] chunks.flatten()[i]),
    ensures
        document_output(chunks) == chunks.flatten(),
{
    chunks.lemma_flatten_and_flatten_alt_are_equivalent();
    lemma_feed_flat(initial(), chunks);
    lemma_pass_through(initial(), chunks.flatten());
    assert(Seq::<u8>::empty() + Seq::<u8>::empty() + chunks.flatten() =~= chunks.flatten());
}

/// An empty footnote `()` leaves no trace: no reference, no queued body, no
/// output of its own. Only the text held back before it is released, as any
/// open marker does.
pub proof fn lemma_empty_footnote(s: Engine)
    ensures
        run(s, seq![40u8, 41u8]) == s.release(),
{
    let data = seq![40u8, 41u8];
    let first = seq![40u8];
    assert(data.drop_last() =~= first);
    assert(first.drop_last() =~= Seq::<u8>::empty());
    assert(run(s, first.drop_last()) == s);
    assert(first.last() == 40u8);
    assert(run(s, first) == step(s, 40u8));
    assert(data.last() == 41u8);
    assert(s.release().out + Seq::<u8>::empty() =~= s.release().out);
}

} // verus!
