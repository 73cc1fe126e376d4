use vstd::prelude::*;

pub mod in_mem;

verus! {

/// A destination for output bytes.
///
/// `write(Some(bytes))` appends bytes; `write(None)` says that the stream has
/// ended, after which nothing more may be written.
pub trait Writer {
    /// Everything appended so far. A writer that does not keep its output
    /// (a file, a socket) may leave this at its default, as nothing is then
    /// proved of it.
    closed spec fn written(&self) -> Seq<u8> {
        arbitrary()
    }

    /// Whether the end of the stream has been signalled.
    closed spec fn ended(&self) -> bool {
        arbitrary()
    }

    fn write(&mut self, buf: Option<Vec<u8>>)
        requires
            !old(self).ended(),
        ensures
            match buf {
                Some(bytes) => {
                    &&& final(self).written() == old(self).written() + bytes@
                    &&& !final(self).ended()
                },
                None => {
                    &&& final(self).written() == old(self).written()
                    &&& final(self).ended()
                },
            },
    ;
}

} // verus!
