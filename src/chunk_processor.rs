use vstd::prelude::*;

use crate::classify::{classify, SpecialChar};
use crate::format::{footnote_block, reference_token, spec_blocks, spec_dump, Note};
use crate::model::{after_chunk, finish, initial, run, step, Engine};
use crate::queues::in_mem::InMemFootNoteQ;
use crate::queues::Queue;
use crate::writers::Writer;

verus! {

/// The engine that turns chunks of marked-up text into output.
///
/// Chunks must arrive in the order of the stream. Plain text goes to the
/// writer as soon as it is known not to belong to a footnote; footnote bodies
/// wait in a queue until a `#` outside any footnote, or the end of the stream,
/// dumps them.
pub struct ChunkProcessor<W: Writer> {
    main_writer: W,
    brackets_deep: usize,
    foot_note_queue: InMemFootNoteQ,
    collected: Vec<u8>,
    consumed: Ghost<nat>,
}

impl<W: Writer> View for ChunkProcessor<W> {
    type V = Engine;

    closed spec fn view(&self) -> Engine {
        Engine {
            out: self.main_writer.written(),
            pending: self.collected@,
            depth: self.brackets_deep as nat,
            notes: self.foot_note_queue.entries(),
            issued: self.foot_note_queue.issued(),
            ended: self.main_writer.ended(),
        }
    }
}

impl<W: Writer> ChunkProcessor<W> {
    /// The number of input bytes processed so far.
    pub closed spec fn consumed(&self) -> nat {
        self.consumed@
    }

    /// The processor's internal invariant.
    pub closed spec fn wf(&self) -> bool {
        &&& self@.settled()
        &&& self.brackets_deep as nat <= self.consumed@
        &&& self.foot_note_queue.issued() <= self.consumed@
    }

    /// A processor at the start of a document, writing after whatever
    /// `main_writer` already holds.
    pub fn new(main_writer: W) -> (r: Self)
        requires
            !main_writer.ended(),
        ensures
            r.wf(),
            r@ == (Engine { out: main_writer.written(), ..initial() }),
            r.consumed() == 0,
            r.writer() == main_writer,
    {
        let foot_note_queue = InMemFootNoteQ::new();
        let r = ChunkProcessor {
            main_writer,
            foot_note_queue,
            brackets_deep: 0,
            collected: Vec::new(),
            consumed: Ghost(0),
        };
        assert(r@.pending =~= Seq::<u8>::empty());
        r
    }

    /// The writer the output goes to.
    pub closed spec fn writer(&self) -> W {
        self.main_writer
    }

    /// The writer the output goes to.
    pub fn main_writer(&self) -> (r: &W)
        ensures
            *r == self.writer(),
            r.written() == self@.out,
            r.ended() == self@.ended,
    {
        &self.main_writer
    }

    /// Sends what was held back to the writer, leaving the buffer empty.
    fn emit_collected(&mut self)
        requires
            !old(self)@.ended,
        ensures
            final(self)@ == old(self)@.release(),
            final(self).brackets_deep == old(self).brackets_deep,
            final(self).consumed == old(self).consumed,
    {
        if self.collected.len() > 0 {
            let mut chunk: Vec<u8> = Vec::new();
            std::mem::swap(&mut chunk, &mut self.collected);
            self.main_writer.write(Some(chunk));
        }
        assert(self@.pending =~= Seq::<u8>::empty());
        assert(self@.out =~= old(self)@.out + old(self)@.pending);
    }

    /// Processes one chunk of the stream.
    pub fn process_bytes(&mut self, data: Vec<u8>)
        requires
            old(self).wf(),
            !old(self)@.ended,
            old(self).consumed() + data@.len() <= usize::MAX,
        ensures
            final(self).wf(),
            final(self)@.settled(),
            final(self)@ == after_chunk(old(self)@, data@),
            final(self).consumed() == old(self).consumed() + data@.len(),
            final(self)@.ended == old(self)@.ended,
    {
        let ghost s0 = self@;
        let ghost c0 = self.consumed@;
        let mut i: usize = 0;
        while i < data.len()
            invariant
                0 <= i <= data@.len(),
                self@ == run(s0, data@.take(i as int)),
                !self@.ended,
                self.consumed@ == c0,
                c0 + data@.len() <= usize::MAX,
                self.brackets_deep as nat <= c0 + i,
                self.foot_note_queue.issued() <= c0 + i,
            decreases data@.len() - i,
        {
            let b = data[i];
            proof {
                assert(data@.take(i + 1).drop_last() =~= data@.take(i as int));
                assert(data@.take(i + 1).last() == b);
            }
            let ghost before = self@;
            match classify(b) {
                SpecialChar::Open => {
                    self.brackets_deep = self.brackets_deep + 1;
                    self.emit_collected();
                },
                SpecialChar::Closed => {
                    if self.brackets_deep == 0 {
                        self.collected.push(b);
                    } else {
                        self.brackets_deep = self.brackets_deep - 1;
                        if self.collected.len() > 0 {
                            let mut body: Vec<u8> = Vec::new();
                            std::mem::swap(&mut body, &mut self.collected);
                            let queue_number = self.foot_note_queue.add(Some(body));
                            match queue_number {
                                Some(n) => {
                                    self.main_writer.write(Some(reference_token(n)));
                                },
                                None => {},
                            }
                        }
                    }
                },
                SpecialChar::Pound => {
                    if self.brackets_deep == 0 {
                        self.emit_collected();
                        self.dump_footers();
                    } else {
                        self.collected.push(b);
                    }
                },
                SpecialChar::NotSpecial => {
                    self.collected.push(b);
                },
            }
            proof {
                assert(self@ =~= step(before, b));
            }
            i = i + 1;
        }
        proof {
            assert(data@.take(data@.len() as int) =~= data@);
        }
        if self.brackets_deep == 0 {
            self.emit_collected();
        }
        self.consumed = Ghost(c0 + data@.len());
    }

    /// Writes the queue's remaining entries, oldest first, and empties it.
    fn drain_queue(&mut self)
        requires
            !old(self)@.ended,
        ensures
            final(self)@ == (Engine {
                out: old(self)@.out + spec_blocks(old(self)@.notes),
                notes: Seq::empty(),
                ..old(self)@
            }),
            final(self).brackets_deep == old(self).brackets_deep,
            final(self).consumed == old(self).consumed,
    {
        loop
            invariant
                !self@.ended,
                self@.out + spec_blocks(self@.notes) == old(self)@.out + spec_blocks(old(self)@.notes),
                self@.pending == old(self)@.pending,
                self@.issued == old(self)@.issued,
                self.brackets_deep == old(self).brackets_deep,
                self.consumed == old(self).consumed,
            ensures
                self@.notes.len() == 0,
            decreases self@.notes.len(),
        {
            let ghost before = self@;
            match self.foot_note_queue.pop_front() {
                Some((foot_note, queue_number)) => {
                    self.main_writer.write(Some(footnote_block(foot_note, queue_number)));
                    proof {
                        assert(before.out + spec_blocks(before.notes) =~= self@.out + spec_blocks(self@.notes));
                    }
                },
                None => {
                    assert(self@.out + spec_blocks(self@.notes) =~= self@.out);
                    break;
                },
            }
        }
        assert(self@.notes =~= Seq::<Note>::empty());
        assert(self@.out =~= old(self)@.out + spec_blocks(old(self)@.notes));
    }

    /// Writes the dump block of the queued footnotes and empties the queue.
    fn dump_footers(&mut self)
        requires
            !old(self)@.ended,
        ensures
            final(self)@ == (Engine {
                out: old(self)@.out + spec_dump(old(self)@.notes),
                notes: Seq::empty(),
                ..old(self)@
            }),
            final(self).brackets_deep == old(self).brackets_deep,
            final(self).consumed == old(self).consumed,
    {
        let mut head: Vec<u8> = Vec::new();
        head.push(10u8);
        self.main_writer.write(Some(head));
        self.drain_queue();
        assert(self@.out =~= old(self)@.out + spec_dump(old(self)@.notes));
    }

    /// Dumps every queued footnote into the output as one block, in the
    /// order they were closed, and empties the queue.
    pub fn append_stored_footers(&mut self)
        requires
            old(self).wf(),
            !old(self)@.ended,
        ensures
            final(self).wf(),
            final(self)@ == (Engine {
                out: old(self)@.out + spec_dump(old(self)@.notes),
                notes: Seq::empty(),
                ..old(self)@
            }),
            final(self).consumed() == old(self).consumed(),
    {
        self.dump_footers();
    }

    /// Hands on one event of the stream: `Some(chunk)` is processed as the
    /// next chunk; `None` ends the stream, dumping what is still queued.
    pub fn write(&mut self, buf: Option<Vec<u8>>)
        requires
            old(self).wf(),
            !old(self)@.ended,
            buf is Some ==> old(self).consumed() + buf->Some_0@.len() <= usize::MAX,
        ensures
            final(self).wf(),
            match buf {
                Some(data) => {
                    &&& final(self)@ == after_chunk(old(self)@, data@)
                    &&& final(self).consumed() == old(self).consumed() + data@.len()
                },
                None => {
                    &&& final(self)@ == finish(old(self)@)
                    &&& final(self).consumed() == old(self).consumed()
                },
            },
    {
        match buf {
            Some(data) => {
                self.process_bytes(data);
            },
            None => {
                let ghost s0 = self@;
                match self.foot_note_queue.pop_front() {
                    Some((foot_note, queue_number)) => {
                        let mut head: Vec<u8> = Vec::new();
                        head.push(10u8);
                        self.main_writer.write(Some(head));
                        self.main_writer.write(Some(footnote_block(foot_note, queue_number)));
                        self.drain_queue();
                        assert(self@.out =~= s0.out + spec_dump(s0.notes));
                    },
                    None => {},
                }
                self.main_writer.write(None);
                assert(self@.notes =~= finish(s0).notes);
                assert(self@.out =~= finish(s0).out);
            },
        }
    }
}

} // verus!
