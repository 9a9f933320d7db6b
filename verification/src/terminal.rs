//! The terminal's size, as far as it can be known.

use vstd::prelude::*;
use crate::size::TerminalBounds;

verus! {

/// `terminal_size::terminal_size`, as plain numbers: the columns and rows of
/// the terminal that the process writes to, if there is one. Trusted, with
/// nothing claimed of the answer: it is the machine's.
#[verifier::external_body]
fn query_terminal() -> (size: Option<(u16, u16)>) {
    terminal_size::terminal_size().map(|(width, height)| (width.0, height.0))
}

impl TerminalBounds {
    /// The size that is assumed where none is known: 80 columns, 30 rows.
    pub open spec fn fallback() -> TerminalBounds {
        TerminalBounds { columns: 80, rows: 30 }
    }

    /// The bounds that an answer of the terminal stands for.
    pub open spec fn of_query(size: Option<(u16, u16)>) -> TerminalBounds {
        match size {
            Some((columns, rows)) => TerminalBounds { columns: columns as u32, rows: rows as u32 },
            None => Self::fallback(),
        }
    }

    /// The bounds for the columns and rows that the terminal reported, or the
    /// fallback where it reported none.
    pub fn from_query(size: Option<(u16, u16)>) -> (bounds: TerminalBounds)
        ensures
            bounds == Self::of_query(size),
    {
        match size {
            Some((columns, rows)) => TerminalBounds { columns: columns as u32, rows: rows as u32 },
            None => TerminalBounds { columns: 80, rows: 30 },
        }
    }

    /// Asks the terminal for its size. The bounds are those of some answer:
    /// the terminal's own columns and rows, or the fallback.
    pub fn detect() -> (bounds: TerminalBounds)
        ensures
            exists|size: Option<(u16, u16)>| bounds == Self::of_query(size),
    {
        let size: Option<(u16, u16)> = query_terminal();
        Self::from_query(size)
    }
}

} // verus!
