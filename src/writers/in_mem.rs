use vstd::prelude::*;

use super::Writer;

verus! {

/// A writer that keeps the output in memory.
pub struct MemWriter {
    bytes: Vec<u8>,
    done: bool,
}

impl MemWriter {
    /// A writer with nothing written and the stream open.
    pub fn new() -> (r: Self)
        ensures
            r.written() == Seq::<u8>::empty(),
            !r.ended(),
    {
        MemWriter { bytes: Vec::new(), done: false }
    }

    /// The bytes written so far.
    pub fn bytes(&self) -> (r: &Vec<u8>)
        ensures
            r@ == self.written(),
    {
        &self.bytes
    }

    /// Whether the end of the stream has been signalled.
    pub fn is_ended(&self) -> (r: bool)
        ensures
            r == self.ended(),
    {
        self.done
    }
}

impl Writer for MemWriter {
    closed spec fn written(&self) -> Seq<u8> {
        self.bytes@
    }

    closed spec fn ended(&self) -> bool {
        self.done
    }

    fn write(&mut self, buf: Option<Vec<u8>>) {
        match buf {
            Some(mut data) => self.bytes.append(&mut data),
            None => self.done = true,
        }
    }
}

} // verus!
