use vstd::prelude::*;

verus! {

/// A footnote as it waits in the queue: its body and its sequence number.
pub type Note = (Seq<u8>, nat);

/// The decimal digits of `n`, most significant first, without leading zeros.
pub open spec fn decimal(n: nat) -> Seq<u8>
    decreases n,
{
    if n < 10 {
        seq![(n + 48) as u8]
    } else {
        decimal(n / 10).push((n % 10 + 48) as u8)
    }
}

/// The inline reference that replaces footnote `n`: `^` and its number.
pub open spec fn spec_reference(n: nat) -> Seq<u8> {
    seq![94u8] + decimal(n)
}

/// One entry of a dump block: a newline, `FN-`, the number, `:`, the body,
/// and two newlines.
pub open spec fn spec_block(note: Note) -> Seq<u8> {
    seq![10u8, 70u8, 78u8, 45u8] + decimal(note.1) + seq![58u8] + note.0 + seq![10u8, 10u8]
}

/// The entries of a dump block, in queue order.
pub open spec fn spec_blocks(notes: Seq<Note>) -> Seq<u8>
    decreases notes.len(),
{
    if notes.len() == 0 {
        Seq::empty()
    } else {
        spec_block(notes[0]) + spec_blocks(notes.drop_first())
    }
}

/// A whole dump block: one leading newline, then every entry.
pub open spec fn spec_dump(notes: Seq<Note>) -> Seq<u8> {
    seq![10u8] + spec_blocks(notes)
}

/// The decimal digits of `n`.
pub fn decimal_digits(n: usize) -> (r: Vec<u8>)
    ensures
        r@ == decimal(n as nat),
    decreases n,
{
    if n < 10 {
        let mut v: Vec<u8> = Vec::new();
        v.push(n as u8 + 48);
        v
    } else {
        let mut v = decimal_digits(n / 10);
        v.push((n % 10) as u8 + 48);
        v
    }
}

/// The reference token `^n`.
pub fn reference_token(n: usize) -> (r: Vec<u8>)
    ensures
        r@ == spec_reference(n as nat),
{
    let mut r: Vec<u8> = Vec::new();
    r.push(94u8);
    let mut digits = decimal_digits(n);
    r.append(&mut digits);
    r
}

/// The dump entry for footnote `n` with the given body.
pub fn footnote_block(body: Vec<u8>, n: usize) -> (r: Vec<u8>)
    ensures
        r@ == spec_block((body@, n as nat)),
{
    let ghost b0 = body@;
    let mut body = body;
    let mut r: Vec<u8> = Vec::new();
    r.push(10u8);
    r.push(70u8);
    r.push(78u8);
    r.push(45u8);
    let mut digits = decimal_digits(n);
    r.append(&mut digits);
    r.push(58u8);
    r.append(&mut body);
    r.push(10u8);
    r.push(10u8);
    proof {
        assert(r@ =~= spec_block((b0, n as nat)));
    }
    r
}

} // verus!
