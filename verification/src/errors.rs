use vstd::prelude::*;

verus! {

/// Why a generation call is refused before any work is done.
///
/// Invalid configuration aborts the whole call: there is no partial result
/// and no retry.  Degenerate sampling ranges are rejected here, up front,
/// rather than discovered in the middle of the placement loop.
#[derive(Clone, Copy, PartialEq, Eq, Structural, Debug)]
pub enum ConfigError {
    /// The requested grid size is zero.
    ZeroGridSize,
    /// The noise configuration asks for zero octaves.
    ZeroOctaves,
    /// The elevation field holds no cells, so no minimum or maximum exists.
    EmptyField,
    /// The pile radius range is empty or inverted.
    EmptyPileRange,
    /// The per-tile amount range is empty or inverted.
    EmptyAmountRange,
    /// The per-tile amount range starts at zero; amounts must be positive.
    ZeroAmountStart,
    /// The spawn probability ceiling lies outside the accepted band.
    CeilingOutOfRange,
    /// The per-ring probability step is zero, negative, or too large.
    StepOutOfRange,
    /// The grid side exceeds the supported maximum.
    GridTooLarge,
    /// The garbage quantity target exceeds the supported maximum.
    TargetTooLarge,
    /// The pile radius range allows radii beyond the supported maximum.
    PileTooLarge,
}

/// Why a placement run stopped short of its target.
#[derive(Clone, Copy, PartialEq, Eq, Structural, Debug)]
pub enum GarbageError {
    /// The pass budget ran out before the cumulative quantity target was
    /// met — the grid offered too few eligible tiles.
    Exhaustion,
}

} // verus!
