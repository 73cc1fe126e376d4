use vstd::prelude::*;

pub mod in_mem;

verus! {

/// A first-in, first-out store of footnote bodies.
///
/// Each body added gets the next sequence number: 1 for the first, one more
/// for each later one, for the whole life of the queue, however often it is
/// emptied. The numbers work like tickets: they say when a body came, not
/// where it stands in the queue.
pub trait Queue {
    /// The bodies waiting, oldest first, each with its number.
    spec fn entries(&self) -> Seq<(Seq<u8>, nat)>;

    /// How many numbers have been handed out so far.
    spec fn issued(&self) -> nat;

    /// Appends a body and returns its number; `None` adds nothing.
    fn add(&mut self, item: Option<Vec<u8>>) -> (r: Option<usize>)
        requires
            item is Some ==> old(self).issued() < usize::MAX,
        ensures
            match item {
                Some(body) => {
                    &&& r == Some((old(self).issued() + 1) as usize)
                    &&& final(self).issued() == old(self).issued() + 1
                    &&& final(self).entries() == old(self).entries().push(
                        (body@, old(self).issued() + 1),
                    )
                },
                None => {
                    &&& r is None
                    &&& final(self).issued() == old(self).issued()
                    &&& final(self).entries() == old(self).entries()
                },
            },
    ;

    /// Removes and returns the oldest body with its number, or `None` when
    /// nothing waits.
    fn pop_front(&mut self) -> (r: Option<(Vec<u8>, usize)>)
        ensures
            final(self).issued() == old(self).issued(),
            match r {
                Some(e) => {
                    &&& old(self).entries().len() > 0
                    &&& old(self).entries()[0] == (e.0@, e.1 as nat)
                    &&& final(self).entries() == old(self).entries().drop_first()
                },
                None => {
                    &&& old(self).entries().len() == 0
                    &&& final(self).entries() == old(self).entries()
                },
            },
    ;
}

} // verus!
