//! Character-cell geometry of a pseudo-terminal.

use vstd::prelude::*;

verus! {

/// Columns of a freshly opened pseudo-terminal.
pub const DEFAULT_COLS: u16 = 80;

/// Rows of a freshly opened pseudo-terminal.
pub const DEFAULT_ROWS: u16 = 24;

/// Dimensions handed to the operating system when a pseudo-terminal is opened
/// or resized. Only the character cells carry information: the pixel
/// dimensions are always zero.
#[derive(Clone, Copy, Debug, PartialEq, Eq, Structural)]
pub struct Geometry {
    pub rows: u16,
    pub cols: u16,
    pub pixel_width: u16,
    pub pixel_height: u16,
}

impl Geometry {
    /// The geometry of `cols` by `rows` character cells.
    pub open spec fn spec_cells(cols: u16, rows: u16) -> Geometry {
        Geometry { rows, cols, pixel_width: 0, pixel_height: 0 }
    }

    /// The geometry every pseudo-terminal is opened with.
    pub open spec fn spec_initial() -> Geometry {
        Self::spec_cells(DEFAULT_COLS, DEFAULT_ROWS)
    }

    /// Builds the geometry of `cols` by `rows` character cells.
    pub fn cells(cols: u16, rows: u16) -> (g: Geometry)
        ensures
            g == Self::spec_cells(cols, rows),
    {
        Geometry { rows, cols, pixel_width: 0, pixel_height: 0 }
    }

    /// Builds the geometry every pseudo-terminal is opened with: 80 columns
    /// by 24 rows.
    pub fn initial() -> (g: Geometry)
        ensures
            g == Self::spec_initial(),
            g.cols == 80,
            g.rows == 24,
            g.pixel_width == 0,
            g.pixel_height == 0,
    {
        Self::cells(DEFAULT_COLS, DEFAULT_ROWS)
    }
}

} // verus!
