use vstd::prelude::*;
use crate::tile::spec_square;

verus! {

/// Probabilities are fixed-point fractions in millionths: `PROB_SCALE`
/// stands for 1.0.  Ring values are deliberately not clamped to the unit
/// band, so a large step or many rings can push them below zero; they still
/// act as thresholds in the placement comparison.
pub const PROB_SCALE: i64 = 1_000_000;

/// Round a requested pile radius up to the next odd number, so that the
/// ring probability matrix has a well-defined center cell.
pub open spec fn spec_round_to_odd(n: nat) -> nat {
    if n % 2 == 0 {
        n + 1
    } else {
        n
    }
}

/// Executable counterpart of `spec_round_to_odd`.
pub fn round_to_odd(n: usize) -> (r: usize)
    requires
        n < usize::MAX,
    ensures
        r == spec_round_to_odd(n as nat),
{
    if n % 2 == 0 {
        n + 1
    } else {
        n
    }
}

/// Which concentric square ring the cell `(y, x)` of a `size`-sided matrix
/// lies on: ring 0 is the outermost border, rings grow inward.
pub open spec fn spec_ring_index(size: int, y: int, x: int) -> int {
    let a = if y <= x {
        y
    } else {
        x
    };
    let b = if size - 1 - y <= size - 1 - x {
        size - 1 - y
    } else {
        size - 1 - x
    };
    if a <= b {
        a
    } else {
        b
    }
}

/// The value held by cell `(y, x)` of the finished matrix: a cell on ring
/// `r` (of the `size / 2` rings) holds `PROB_SCALE - step * (size / 2 - r)`,
/// rising in fixed steps from the border inward; the center cell of an
/// odd-sided matrix lies on no ring and keeps the initial zero.
pub open spec fn spec_ring_value(size: int, step: int, y: int, x: int) -> int {
    let r = spec_ring_index(size, y, x);
    if r < size / 2 {
        PROB_SCALE - step * (size / 2 - r)
    } else {
        0
    }
}

/// Every cell of the matrix for a given requested radius and step.
pub open spec fn spec_prob_matrix(m: Seq<Vec<i64>>, size: nat, step: int) -> bool {
    if size == 0 {
        m.len() == 0
    } else {
        let n = spec_round_to_odd(size) as int;
        &&& spec_square(m, n)
        &&& forall|y: int, x: int|
            0 <= y < n && 0 <= x < n ==> (#[trigger] m[y]@[x]) == spec_ring_value(n, step, y, x)
    }
}

/// Build the ring-decay probability matrix for one pile: an even requested
/// radius is rounded up to the next odd size, radius zero yields the empty
/// matrix, and each ring receives its stepped value from the outermost ring
/// inward.
pub fn generate_prob_matrix(size: usize, probability_step: i64) -> (m: Vec<Vec<i64>>)
    requires
        size < 0xFFFF,
        0 < probability_step <= 1_000_000_000,
    ensures
        spec_prob_matrix(m@, size as nat, probability_step as int),
{
    let mut matrix: Vec<Vec<i64>> = Vec::new();
    if size == 0 {
        return matrix;
    }
    let size = round_to_odd(size);
    let total_rings = size / 2;

    let mut y: usize = 0;
    while y < size
        invariant
            y <= size,
            matrix@.len() == y,
            forall|yy: int|
                0 <= yy < y ==> (#[trigger] matrix@[yy])@ == Seq::<i64>::new(size as nat, |i| 0i64),
        decreases size - y,
    {
        let mut row: Vec<i64> = Vec::new();
        let mut x: usize = 0;
        while x < size
            invariant
                x <= size,
                row@ == Seq::<i64>::new(x as nat, |i| 0i64),
            decreases size - x,
        {
            row.push(0i64);
            assert(row@ =~= Seq::<i64>::new((x + 1) as nat, |i| 0i64));
            x += 1;
        }
        matrix.push(row);
        y += 1;
    }
    assert(forall|yy: int, xx: int|
        0 <= yy < size && 0 <= xx < size ==> (#[trigger] matrix@[yy]@[xx]) == 0i64);

    let ghost n = size as int;
    let mut ring: usize = 0;
    while ring < total_rings
        invariant
            ring <= total_rings,
            total_rings == n / 2,
            n == size,
            0 < size < 0x1_0000,
            size % 2 == 1,
            0 < probability_step <= 1_000_000_000,
            spec_square(matrix@, n),
            forall|yy: int, xx: int|
                0 <= yy < n && 0 <= xx < n ==> (#[trigger] matrix@[yy]@[xx]) == (
                if spec_ring_index(n, yy, xx) < ring {
                    spec_ring_value(n, probability_step as int, yy, xx)
                } else {
                    0
                }),
        decreases total_rings - ring,
    {
        let count = total_rings - ring;
        assert(0 < count <= 0x8000);
        assert(0 <= probability_step * (count as int) <= 0x7530_0000_0000) by (nonlinear_arith)
            requires
                0 < probability_step <= 1_000_000_000,
                0 < count <= 0x8000,
        ;
        let prob: i64 = PROB_SCALE - probability_step * (count as i64);
        assert(prob == spec_ring_value(n, probability_step as int, ring as int, ring as int));

        let mut col: usize = ring;
        while col < size - ring
            invariant
                ring <= col <= size - ring,
                ring < total_rings,
                total_rings == n / 2,
                n == size,
                0 < size < 0x1_0000,
                size % 2 == 1,
                prob == PROB_SCALE - probability_step * (total_rings - ring),
                spec_square(matrix@, n),
                forall|yy: int, xx: int|
                    0 <= yy < n && 0 <= xx < n ==> (#[trigger] matrix@[yy]@[xx]) == (
                    if spec_ring_index(n, yy, xx) < ring {
                        spec_ring_value(n, probability_step as int, yy, xx)
                    } else if (yy == ring || yy == n - 1 - ring) && ring <= xx < col {
                        prob as int
                    } else {
                        0
                    }),
            decreases size - ring - col,
        {
            matrix[ring][col] = prob;
            matrix[size - 1 - ring][col] = prob;
            col += 1;
        }

        let mut rowi: usize = ring;
        while rowi < size - ring
            invariant
                ring <= rowi <= size - ring,
                ring < total_rings,
                total_rings == n / 2,
                n == size,
                0 < size < 0x1_0000,
                size % 2 == 1,
                prob == PROB_SCALE - probability_step * (total_rings - ring),
                spec_square(matrix@, n),
                forall|yy: int, xx: int|
                    0 <= yy < n && 0 <= xx < n ==> (#[trigger] matrix@[yy]@[xx]) == (
                    if spec_ring_index(n, yy, xx) < ring {
                        spec_ring_value(n, probability_step as int, yy, xx)
                    } else if (yy == ring || yy == n - 1 - ring) && ring <= xx <= n - 1 - ring {
                        prob as int
                    } else if (xx == ring || xx == n - 1 - ring) && ring <= yy < rowi {
                        prob as int
                    } else {
                        0
                    }),
            decreases size - ring - rowi,
        {
            matrix[rowi][ring] = prob;
            matrix[rowi][size - 1 - ring] = prob;
            rowi += 1;
        }

        assert(forall|yy: int, xx: int|
            0 <= yy < n && 0 <= xx < n && spec_ring_index(n, yy, xx) == ring ==> ((yy == ring || yy
            == n - 1 - ring) && ring <= xx <= n - 1 - ring) || ((xx == ring || xx == n - 1 - ring)
            && ring <= yy <= n - 1 - ring));
        ring += 1;
    }
    matrix
}

/// Rounding to the next odd number keeps order: a larger requested radius
/// never yields a smaller matrix.
pub proof fn lemma_round_to_odd_mono(a: nat, b: nat)
    requires
        a <= b,
    ensures
        spec_round_to_odd(a) <= spec_round_to_odd(b),
{
}

/// Every cell of a well-formed matrix lies in a band the placement
/// comparison can subtract from `PROB_SCALE` without overflow.
pub proof fn lemma_ring_value_bounds(size: int, step: int, y: int, x: int)
    requires
        0 < step <= 1_000_000_000,
        0 < size <= 0x1_0000,
        0 <= y < size,
        0 <= x < size,
    ensures
        -0x7530_0000_0000 <= spec_ring_value(size, step, y, x) <= PROB_SCALE,
{
    let r = spec_ring_index(size, y, x);
    assert(0 <= r);
    if r < size / 2 {
        let band = size / 2 - r;
        assert(1 <= band <= 0x8000);
        assert(step <= step * band <= 0x7530_0000_0000) by (nonlinear_arith)
            requires
                1 <= band <= 0x8000,
                0 < step <= 1_000_000_000,
        ;
    }
}

/// Rotation symmetry law: the finished matrix is invariant under a
/// 180-degree rotation — the cell `(y, x)` and the cell `(size-1-y,
/// size-1-x)` lie on the same ring and hold the same value.
pub proof fn lemma_ring_rotation_symmetry(size: int, step: int, y: int, x: int)
    requires
        0 <= y < size,
        0 <= x < size,
    ensures
        spec_ring_value(size, step, y, x) == spec_ring_value(size, step, size - 1 - y, size - 1
            - x),
{
}

} // verus!
