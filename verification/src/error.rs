//! Error values of the codec.

use vstd::prelude::*;

verus! {

/// Where a magic marker was expected. The format places one marker at the
/// start of a file; a mirrored marker at the end of a file is read by the
/// surrounding driver with the same primitives.
#[derive(Debug, Clone, Copy, PartialEq, Eq)]
pub enum MagicLocation {
    Start,
    End,
}

/// Every way the header codec can reject its input.
#[derive(Debug, Clone, Copy, PartialEq, Eq)]
pub enum Kff {
    /// The expected magic marker was not found; carries where it was looked for.
    MissingMagic(MagicLocation),
    /// The version gate failed on the major version; carries the rejected value.
    HighMajorVersionNumber(u8),
    /// The version gate failed on the minor version; carries the rejected value.
    HighMinorVersionNumber(u8),
    /// The encoding byte failed the distinctness check; carries the raw byte.
    BadEncoding(u8),
    /// Fewer bytes were available than a fixed- or variable-length read needed.
    Truncated,
    /// The underlying stream failed for a reason of its own. The verified
    /// codec never produces this value; the surrounding driver maps its
    /// stream errors to it.
    Io,
}

} // verus!
