//! Interpolation by fitting polynomials to the values at neighboring grid
//! points.

use crate::geometry::Dim3;
use crate::geometry::In3D;
use crate::tracing::ftr;
use vstd::prelude::*;

verus! {

/// Says that a configuration breaks a rule.
#[derive(Debug, Copy, Clone, PartialEq, Eq, Structural)]
pub struct InvalidConfig;

/// Says that a grid has too few cells along a dimension that is not
/// periodic.
#[derive(Debug, Copy, Clone, PartialEq, Eq, Structural)]
pub struct GridIncompatible {
    /// The dimension with too few cells.
    pub dim: Dim3,
}

/// Configuration parameters for polynomial fitting interpolation.
#[derive(Debug, Copy, Clone, PartialEq, Eq, Structural)]
pub struct PolyFitInterpolatorConfig {
    /// Order of the polynomials to fit when interpolating field values.
    pub order: usize,
    /// Linear interpolation is used when a normalized variation of the
    /// values surrounding the interpolation point exceeds this.
    pub variation_threshold_for_linear: ftr,
}

impl PolyFitInterpolatorConfig {
    /// Default order of the polynomials.
    pub const DEFAULT_ORDER: usize = 3;

    /// Default variation threshold: 0.3.
    pub const DEFAULT_VARIATION_THRESHOLD_FOR_LINEAR: ftr = 0x3FD3_3333_3333_3333;

    /// Lowest order of the polynomials.
    pub const MIN_ORDER: usize = 1;

    /// Highest order of the polynomials.
    pub const MAX_ORDER: usize = 5;

    /// Whether the configuration keeps the rules: the order is one of
    /// those that are offered.
    pub open spec fn is_valid(self) -> bool {
        Self::MIN_ORDER <= self.order <= Self::MAX_ORDER
    }

    /// Checks that the configuration keeps the rules.
    pub fn validate(&self) -> (result: Result<(), InvalidConfig>)
        ensures
            result is Ok <==> self.is_valid(),
    {
        if Self::MIN_ORDER <= self.order && self.order <= Self::MAX_ORDER {
            Ok(())
        } else {
            Err(InvalidConfig)
        }
    }

    /// Number of grid points along each dimension from which a value is
    /// interpolated: one more than the order.
    pub fn number_of_points(&self) -> (number: usize)
        requires
            self.is_valid(),
        ensures
            number == self.order + 1,
    {
        self.order + 1
    }

    /// Whether a grid with the given numbers of cells and the given
    /// periodicity has enough cells: along each dimension that is not
    /// periodic, at least as many as the interpolation takes points.
    pub open spec fn fits_grid(self, shape: Seq<usize>, is_periodic: Seq<bool>) -> bool {
        forall|d: int| 0 <= d < 3 ==> is_periodic[d] || shape[d] >= self.order + 1
    }

    /// Verifies that a grid with the given numbers of cells and the given
    /// periodicity has enough cells for the interpolation, and else names
    /// the first dimension along which it has not.
    pub fn verify_grid(&self, shape: &In3D<usize>, is_periodic: &In3D<bool>) -> (result: Result<
        (),
        GridIncompatible,
    >)
        requires
            self.is_valid(),
        ensures
            match result {
                Ok(()) => self.fits_grid(shape@, is_periodic@),
                Err(error) => !is_periodic@[error.dim.spec_num()] && shape@[error.dim.spec_num()]
                    < self.order + 1 && forall|d: int|
                    0 <= d < error.dim.spec_num() ==> is_periodic@[d] || shape@[d] >= self.order
                        + 1,
            },
    {
        proof {
            shape.lemma_three_components();
            is_periodic.lemma_three_components();
        }
        let number_of_points = self.number_of_points();
        if !is_periodic[Dim3::X] && shape[Dim3::X] < number_of_points {
            Err(GridIncompatible { dim: Dim3::X })
        } else if !is_periodic[Dim3::Y] && shape[Dim3::Y] < number_of_points {
            Err(GridIncompatible { dim: Dim3::Y })
        } else if !is_periodic[Dim3::Z] && shape[Dim3::Z] < number_of_points {
            Err(GridIncompatible { dim: Dim3::Z })
        } else {
            Ok(())
        }
    }
}

impl Default for PolyFitInterpolatorConfig {
    fn default() -> (config: Self)
        ensures
            config == (PolyFitInterpolatorConfig {
                order: PolyFitInterpolatorConfig::DEFAULT_ORDER,
                variation_threshold_for_linear:
                    PolyFitInterpolatorConfig::DEFAULT_VARIATION_THRESHOLD_FOR_LINEAR,
            }),
            config.is_valid(),
    {
        PolyFitInterpolatorConfig {
            order: Self::DEFAULT_ORDER,
            variation_threshold_for_linear: Self::DEFAULT_VARIATION_THRESHOLD_FOR_LINEAR,
        }
    }
}

/// A cell among the neighbors of a cell along one dimension.
#[derive(Debug, Copy, Clone, PartialEq, Eq, Structural)]
pub struct NeighborCell {
    /// Index of the cell along the dimension.
    pub index: usize,
    /// How many times the grid was crossed upward to reach the cell from
    /// within the grid: zero for a cell that is reached without crossing a
    /// periodic boundary, negative where the lower boundary was crossed.
    pub lap: i8,
}

impl PolyFitInterpolatorConfig {
    /// The place of the first of the cells whose values are taken for a
    /// point in the given cell: the cells are centered on the cell of the
    /// point, with the longer side above it where their number is even.
    /// Along a dimension that is not periodic they are shifted as far as
    /// is needed to stay within the grid.
    pub open spec fn first_neighbor(
        self,
        cell: int,
        number_of_cells: int,
        is_periodic: bool,
    ) -> int {
        let centered = cell - self.order / 2;
        if is_periodic {
            centered
        } else if centered < 0 {
            0
        } else if centered > number_of_cells - (self.order + 1) {
            number_of_cells - (self.order + 1)
        } else {
            centered
        }
    }

    /// The cell at the given place, counted on across the periodic
    /// boundaries of a grid with the given number of cells.
    pub open spec fn neighbor_at(place: int, number_of_cells: int) -> (int, int) {
        (place % number_of_cells, place / number_of_cells)
    }

    /// The cells along one dimension whose values are taken for a point in
    /// the given cell: one more than the order of them, from the first on.
    pub fn neighbors(&self, cell: usize, number_of_cells: usize, is_periodic: bool) -> (cells: Vec<
        NeighborCell,
    >)
        requires
            self.is_valid(),
            cell < number_of_cells,
            is_periodic || number_of_cells >= self.order + 1,
        ensures
            cells@.len() == self.order + 1,
            forall|j: int|
                0 <= j < cells@.len() ==> (#[trigger] cells@[j].index as int, cells@[j].lap as int)
                    == Self::neighbor_at(
                    self.first_neighbor(cell as int, number_of_cells as int, is_periodic) + j,
                    number_of_cells as int,
                ),
            !is_periodic ==> forall|j: int| 0 <= j < cells@.len() ==> (#[trigger] cells@[j]).lap == 0,
            exists|j: int| 0 <= j < cells@.len() && cells@[j].index == cell && cells@[j].lap == 0,
    {
        let number_of_points = self.order + 1;
        let below = self.order / 2;
        let ghost first = self.first_neighbor(cell as int, number_of_cells as int, is_periodic);
        let mut index: usize = cell;
        let mut lap: i8 = 0;
        if is_periodic {
            let mut remaining = below;
            while remaining > 0
                invariant
                    0 <= remaining <= below <= 2,
                    index < number_of_cells,
                    -(below - remaining) <= lap <= 0,
                    lap * number_of_cells + index == cell - (below - remaining),
                decreases remaining,
            {
                if index == 0 {
                    assert((lap - 1) * number_of_cells + (number_of_cells - 1) == lap
                        * number_of_cells - 1) by (nonlinear_arith);
                    index = number_of_cells - 1;
                    lap = lap - 1;
                } else {
                    index = index - 1;
                }
                remaining = remaining - 1;
            }
        } else if cell < below {
            index = 0;
        } else if cell - below > number_of_cells - number_of_points {
            index = number_of_cells - number_of_points;
        } else {
            index = cell - below;
        }
        assert(first == lap * number_of_cells + index) by {
            if !is_periodic {
                assert(0 * number_of_cells == 0) by (nonlinear_arith);
            }
        }
        let mut cells: Vec<NeighborCell> = Vec::new();
        for j in 0..number_of_points
            invariant
                number_of_points == self.order + 1,
                number_of_points <= 6,
                -2 <= lap <= j,
                j < number_of_points ==> index < number_of_cells && first + j == lap
                    * number_of_cells + index,
                !is_periodic && j < number_of_points ==> lap == 0 && index + (number_of_points
                    - j) <= number_of_cells,
                cells@.len() == j,
                forall|i: int|
                    0 <= i < j ==> (#[trigger] cells@[i].index as int, cells@[i].lap as int)
                        == Self::neighbor_at(first + i, number_of_cells as int),
                !is_periodic ==> forall|i: int| 0 <= i < j ==> (#[trigger] cells@[i]).lap == 0,
        {
            proof {
                vstd::arithmetic::div_mod::lemma_fundamental_div_mod_converse(
                    first + j,
                    number_of_cells as int,
                    lap as int,
                    index as int,
                );
            }
            cells.push(NeighborCell { index, lap });
            if j + 1 < number_of_points {
                if index + 1 < number_of_cells {
                    index = index + 1;
                } else {
                    assert((lap + 1) * number_of_cells + 0 == lap * number_of_cells + index + 1)
                        by (nonlinear_arith)
                        requires
                            index + 1 == number_of_cells,
                    ;
                    index = 0;
                    lap = lap + 1;
                }
            }
        }
        proof {
            let at = cell - first;
            assert(0 <= at < number_of_points);
            vstd::arithmetic::div_mod::lemma_fundamental_div_mod_converse(
                first + at,
                number_of_cells as int,
                0,
                cell as int,
            );
            assert((cells@[at].index as int, cells@[at].lap as int) == Self::neighbor_at(
                first + at,
                number_of_cells as int,
            ));
        }
        cells
    }
}

} // verus!
