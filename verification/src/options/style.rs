//! Line-breaking style of rendered records.

use vstd::prelude::*;

verus! {

/// Logger line breaking style: everything on one line, or the message on a
/// continuation line of its own.
#[derive(Clone, Copy, Debug, PartialEq, Eq, Structural)]
pub enum StyleConfig {
    /// Use a single-line format.
    SingleLine,
    /// Use a multi-line format.
    MultiLine,
}

impl Default for StyleConfig {
    /// Defaults to the multi-line format.
    fn default() -> (r: Self)
        ensures
            r == StyleConfig::MultiLine,
    {
        StyleConfig::MultiLine
    }
}

} // verus!
