use std::collections::VecDeque;
use vstd::prelude::*;

use super::Queue;

verus! {

/// A footnote queue held in memory.
pub struct InMemFootNoteQ {
    foot_notes: VecDeque<(Vec<u8>, usize)>,
    queue_number: usize,
}

impl InMemFootNoteQ {
    /// An empty queue whose first body will get number 1.
    pub fn new() -> (r: Self)
        ensures
            r.entries() == Seq::<(Seq<u8>, nat)>::empty(),
            r.issued() == 0,
    {
        let r = InMemFootNoteQ { foot_notes: VecDeque::new(), queue_number: 0 };
        assert(r.entries() =~= Seq::<(Seq<u8>, nat)>::empty());
        r
    }
}

impl Queue for InMemFootNoteQ {
    closed spec fn entries(&self) -> Seq<(Seq<u8>, nat)> {
        self.foot_notes@.map_values(|e: (Vec<u8>, usize)| (e.0@, e.1 as nat))
    }

    closed spec fn issued(&self) -> nat {
        self.queue_number as nat
    }

    fn add(&mut self, foot_note: Option<Vec<u8>>) -> (r: Option<usize>) {
        match foot_note {
            None => None,
            Some(body) => {
                self.queue_number = self.queue_number + 1;
                self.foot_notes.push_back((body, self.queue_number));
                assert(self.entries() =~= old(self).entries().push(
                    (body@, old(self).issued() + 1),
                ));
                Some(self.queue_number)
            },
        }
    }

    fn pop_front(&mut self) -> (r: Option<(Vec<u8>, usize)>) {
        let r = self.foot_notes.pop_front();
        if r.is_some() {
            assert(self.entries() =~= old(self).entries().drop_first());
        }
        r
    }
}

} // verus!
