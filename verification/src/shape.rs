//! Grid shapes and the per-cell size uniform.
//!
//! A shape is validated before any vertex generation: zero dimensions would
//! put cells at undefined positions, so they are rejected here, as is a cell
//! count beyond the machine's addressing range.

use vstd::prelude::*;

verus! {

/// Why a width/height pair was rejected.
#[derive(Clone, Copy, Debug, PartialEq, Eq, Structural)]
pub enum ShapeError {
    ZeroWidth,
    ZeroHeight,
    TooManyCells,
}

/// A grid shape: `width` columns by `height` rows, cells stored row-major
/// (index = row * width + col).
#[derive(Clone, Copy, Debug, PartialEq, Eq, Structural)]
pub struct GridShape {
    pub width: usize,
    pub height: usize,
}

/// The per-cell size uniform, held as exact fractions:
/// dx = `dx_num / dx_den`, dy = `dy_num / dy_den`.
#[derive(Clone, Copy, Debug, PartialEq, Eq, Structural)]
pub struct DimsUniform {
    pub dx_num: usize,
    pub dx_den: usize,
    pub dy_num: usize,
    pub dy_den: usize,
}

impl GridShape {
    /// Both dimensions are positive and the cell count fits a machine word.
    pub open spec fn wf(self) -> bool {
        &&& 0 < self.width
        &&& 0 < self.height
        &&& self.width * self.height <= usize::MAX
    }

    /// Total number of cells, `width * height`.
    pub open spec fn cell_count_spec(self) -> int {
        self.width * self.height
    }

    /// Validates a width/height pair.  Zero dimensions are rejected before
    /// any vertex generation, each with its own error.
    pub fn new(width: usize, height: usize) -> (r: Result<GridShape, ShapeError>)
        ensures
            r is Ok <==> (0 < width && 0 < height && width * height <= usize::MAX),
            r matches Ok(s) ==> s == (GridShape { width, height }) && s.wf(),
            width == 0 ==> r == Err::<GridShape, ShapeError>(ShapeError::ZeroWidth),
            width > 0 && height == 0 ==> r == Err::<GridShape, ShapeError>(ShapeError::ZeroHeight),
            width > 0 && height > 0 && width * height > usize::MAX ==> r == Err::<
                GridShape,
                ShapeError,
            >(ShapeError::TooManyCells),
    {
        if width == 0 {
            Err(ShapeError::ZeroWidth)
        } else if height == 0 {
            Err(ShapeError::ZeroHeight)
        } else {
            match width.checked_mul(height) {
                Some(_) => Ok(GridShape { width, height }),
                None => Err(ShapeError::TooManyCells),
            }
        }
    }

    /// Total number of cells.
    pub fn cell_count(&self) -> (n: usize)
        requires
            self.wf(),
        ensures
            n == self.cell_count_spec(),
    {
        self.width * self.height
    }

    /// The per-cell size uniform equals exactly (2/width, 2/height) for any
    /// valid shape.
    pub fn dims_uniform(&self) -> (d: DimsUniform)
        requires
            self.wf(),
        ensures
            d.dx_num == 2,
            d.dx_den == self.width,
            d.dy_num == 2,
            d.dy_den == self.height,
    {
        DimsUniform { dx_num: 2, dx_den: self.width, dy_num: 2, dy_den: self.height }
    }
}

} // verus!
