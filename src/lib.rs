//! Turns inline footnote markup in a byte stream into numbered references,
//! with the footnote bodies gathered into dump blocks.
//!
//! Text between `(` and `)` becomes a footnote: it is replaced by `^N` and its
//! body is queued. A `#` outside any footnote dumps the queued bodies at that
//! point of the output. Input arrives in chunks of any size; the result does not
//! depend on where the chunks are cut.
pub mod classify;
pub mod format;
pub mod queues;
pub mod writers;
pub mod model;
pub mod chunk_processor;
