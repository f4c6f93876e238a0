//! The anchored rectangular selection: an anchor cell and a moving cell,
//! normalized on demand to (min_row, min_col, max_row, max_col) bounds.
use vstd::prelude::*;

verus! {

/// A rectangular cell selection. `start` is the anchor and `end` the moving
/// endpoint; both are (row, col) pairs, 1-based. A selection whose two
/// corners coincide is a single-cell selection.
#[derive(Debug, Clone, Copy)]
pub struct Selection {
    pub start: (u32, u32),
    pub end: (u32, u32),
}

impl PartialEq for Selection {
    fn eq(&self, other: &Selection) -> (r: bool) {
        self.start.0 == other.start.0 && self.start.1 == other.start.1
            && self.end.0 == other.end.0 && self.end.1 == other.end.1
    }
}

impl Eq for Selection {

}

impl vstd::std_specs::cmp::PartialEqSpecImpl for Selection {
    open spec fn obeys_eq_spec() -> bool {
        true
    }

    open spec fn eq_spec(&self, other: &Selection) -> bool {
        self.start == other.start && self.end == other.end
    }
}

impl Selection {
    /// The smallest row covered by the selection.
    pub open spec fn spec_min_row(self) -> u32 {
        if self.start.0 <= self.end.0 {
            self.start.0
        } else {
            self.end.0
        }
    }

    /// The largest row covered by the selection.
    pub open spec fn spec_max_row(self) -> u32 {
        if self.start.0 <= self.end.0 {
            self.end.0
        } else {
            self.start.0
        }
    }

    /// The smallest column covered by the selection.
    pub open spec fn spec_min_col(self) -> u32 {
        if self.start.1 <= self.end.1 {
            self.start.1
        } else {
            self.end.1
        }
    }

    /// The largest column covered by the selection.
    pub open spec fn spec_max_col(self) -> u32 {
        if self.start.1 <= self.end.1 {
            self.end.1
        } else {
            self.start.1
        }
    }

    /// Whether (row, col) lies inside the normalized bounds.
    pub open spec fn spec_contains(self, row: u32, col: u32) -> bool {
        &&& self.spec_min_row() <= row <= self.spec_max_row()
        &&& self.spec_min_col() <= col <= self.spec_max_col()
    }

    /// A single-cell selection at (row, col).
    pub fn single(row: u32, col: u32) -> (s: Self)
        ensures
            s.start == (row, col),
            s.end == (row, col),
    {
        Self { start: (row, col), end: (row, col) }
    }

    /// Normalized bounds as (min_row, min_col, max_row, max_col).
    pub fn bounds(&self) -> (b: (u32, u32, u32, u32))
        ensures
            b.0 == self.spec_min_row(),
            b.1 == self.spec_min_col(),
            b.2 == self.spec_max_row(),
            b.3 == self.spec_max_col(),
    {
        let min_row = if self.start.0 <= self.end.0 {
            self.start.0
        } else {
            self.end.0
        };
        let max_row = if self.start.0 <= self.end.0 {
            self.end.0
        } else {
            self.start.0
        };
        let min_col = if self.start.1 <= self.end.1 {
            self.start.1
        } else {
            self.end.1
        };
        let max_col = if self.start.1 <= self.end.1 {
            self.end.1
        } else {
            self.start.1
        };
        (min_row, min_col, max_row, max_col)
    }

    /// Whether the given cell lies inside the selection rectangle.
    pub fn contains(&self, row: u32, col: u32) -> (r: bool)
        ensures
            r == self.spec_contains(row, col),
    {
        let (min_row, min_col, max_row, max_col) = self.bounds();
        row >= min_row && row <= max_row && col >= min_col && col <= max_col
    }

    /// Whether the selection covers exactly one cell.
    pub fn is_single(&self) -> (r: bool)
        ensures
            r == (self.start == self.end),
    {
        self.start.0 == self.end.0 && self.start.1 == self.end.1
    }
}

} // verus!
