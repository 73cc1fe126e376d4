use vstd::prelude::*;

verus! {

/// The role a single input byte plays in the markup.
#[derive(Debug, Clone, Copy, PartialEq, Eq, Structural)]
pub enum SpecialChar {
    /// `(`: starts a footnote.
    Open,
    /// `)`: ends a footnote.
    Closed,
    /// `#`: dumps the queued footnotes when outside any footnote.
    Pound,
    /// Every other byte.
    NotSpecial,
}

/// The class of a byte: a fixed table over the three marker bytes.
pub open spec fn spec_classify(b: u8) -> SpecialChar {
    if b == 40 {
        SpecialChar::Open
    } else if b == 41 {
        SpecialChar::Closed
    } else if b == 35 {
        SpecialChar::Pound
    } else {
        SpecialChar::NotSpecial
    }
}

/// Classifies one byte.
pub fn classify(b: u8) -> (r: SpecialChar)
    ensures
        r == spec_classify(b),
{
    match b {
        40 => SpecialChar::Open,
        41 => SpecialChar::Closed,
        35 => SpecialChar::Pound,
        _ => SpecialChar::NotSpecial,
    }
}

} // verus!
