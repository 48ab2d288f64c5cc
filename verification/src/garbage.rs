use vstd::prelude::*;
use core::ops::Range;
use crate::errors::{ConfigError, GarbageError};
use crate::ring::{
    generate_prob_matrix, lemma_ring_value_bounds, lemma_round_to_odd_mono, spec_prob_matrix,
    spec_round_to_odd, PROB_SCALE,
};
use crate::rng::{gen_range_i64, gen_range_usize};
use crate::tile::{
    can_hold_garbage, spec_can_hold_garbage, spec_square, Content, Tile, GARBAGE_CAPACITY,
};

verus! {

/// The low edge of every spawn draw, as a fixed-point fraction in
/// millionths: a draw is uniform between this floor and the configured
/// ceiling.
pub const PROB_DRAW_FLOOR: i64 = 100_000;

/// How many build-up passes one run may spend before giving up on the
/// quantity target.  The placement loop would otherwise never terminate on
/// a grid with too few eligible tiles.
pub const MAX_BUILD_UP_PASSES: usize = 1_000_000;

/// Configuration of the garbage distribution stage.  The two probability
/// fields are fixed-point fractions in millionths of `PROB_SCALE`.
pub struct GarbageSettings {
    pub total_garbage_quantity: usize,
    pub garbage_pile_size: Range<usize>,
    pub garbage_per_tile_quantity: Range<usize>,
    pub spawn_in_near_tiles_probability: i64,
    pub probability_step_by: i64,
}

impl GarbageSettings {
    /// Initialize the struct with optimal parameters given the world size.
    pub fn default(size: usize) -> (s: GarbageSettings)
        ensures
            s.total_garbage_quantity == size,
            s.garbage_pile_size.start == 1 && s.garbage_pile_size.end == size / 20,
            s.garbage_per_tile_quantity.start == 1 && s.garbage_per_tile_quantity.end == size
                / 100,
            s.spawn_in_near_tiles_probability == PROB_SCALE,
            s.probability_step_by == 200_000i64,
    {
        GarbageSettings {
            total_garbage_quantity: size,
            garbage_pile_size: 1..size / 20,
            garbage_per_tile_quantity: 1..size / 100,
            spawn_in_near_tiles_probability: PROB_SCALE,
            probability_step_by: 200_000,
        }
    }
}

/// The settings under which one placement run on a grid of side
/// `world_len` is accepted: sampling ranges non-empty, amounts positive,
/// the draw band non-empty and within the unit band, the step positive,
/// and every size small enough that the index and counter arithmetic of
/// the run stays in bounds.
pub open spec fn spec_valid_settings(s: GarbageSettings, world_len: int) -> bool {
    &&& 0 < world_len <= 0xFFFF
    &&& s.total_garbage_quantity <= 0x0FFF_FFFF
    &&& s.garbage_pile_size.start < s.garbage_pile_size.end
    &&& s.garbage_pile_size.end <= 0x100
    &&& 1 <= s.garbage_per_tile_quantity.start
    &&& s.garbage_per_tile_quantity.start < s.garbage_per_tile_quantity.end
    &&& PROB_DRAW_FLOOR <= s.spawn_in_near_tiles_probability <= PROB_SCALE
    &&& 0 < s.probability_step_by <= 1_000_000_000
}

/// Validation is deterministic: the first failing condition decides
/// which error comes back, and a run is refused exactly when some
/// condition fails.
pub open spec fn spec_validate_settings(s: GarbageSettings, world_len: int) -> Result<
    (),
    ConfigError,
> {
    if world_len == 0 {
        Result::Err(ConfigError::ZeroGridSize)
    } else if world_len > 0xFFFF {
        Result::Err(ConfigError::GridTooLarge)
    } else if s.total_garbage_quantity > 0x0FFF_FFFF {
        Result::Err(ConfigError::TargetTooLarge)
    } else if s.garbage_pile_size.start >= s.garbage_pile_size.end {
        Result::Err(ConfigError::EmptyPileRange)
    } else if s.garbage_pile_size.end > 0x100 {
        Result::Err(ConfigError::PileTooLarge)
    } else if s.garbage_per_tile_quantity.start == 0 {
        Result::Err(ConfigError::ZeroAmountStart)
    } else if s.garbage_per_tile_quantity.start >= s.garbage_per_tile_quantity.end {
        Result::Err(ConfigError::EmptyAmountRange)
    } else if s.spawn_in_near_tiles_probability < PROB_DRAW_FLOOR
        || s.spawn_in_near_tiles_probability > PROB_SCALE {
        Result::Err(ConfigError::CeilingOutOfRange)
    } else if s.probability_step_by <= 0 || s.probability_step_by > 1_000_000_000 {
        Result::Err(ConfigError::StepOutOfRange)
    } else {
        Result::Ok(())
    }
}

/// Check a configuration before the placement loop starts: degenerate
/// sampling ranges are a configuration error and are refused here, never
/// discovered mid-loop.
pub fn validate_settings(s: &GarbageSettings, world_len: usize) -> (r: Result<(), ConfigError>)
    ensures
        r == spec_validate_settings(*s, world_len as int),
        r is Ok <==> spec_valid_settings(*s, world_len as int),
{
    if world_len == 0 {
        Result::Err(ConfigError::ZeroGridSize)
    } else if world_len > 0xFFFF {
        Result::Err(ConfigError::GridTooLarge)
    } else if s.total_garbage_quantity > 0x0FFF_FFFF {
        Result::Err(ConfigError::TargetTooLarge)
    } else if s.garbage_pile_size.start >= s.garbage_pile_size.end {
        Result::Err(ConfigError::EmptyPileRange)
    } else if s.garbage_pile_size.end > 0x100 {
        Result::Err(ConfigError::PileTooLarge)
    } else if s.garbage_per_tile_quantity.start == 0 {
        Result::Err(ConfigError::ZeroAmountStart)
    } else if s.garbage_per_tile_quantity.start >= s.garbage_per_tile_quantity.end {
        Result::Err(ConfigError::EmptyAmountRange)
    } else if s.spawn_in_near_tiles_probability < PROB_DRAW_FLOOR
        || s.spawn_in_near_tiles_probability > PROB_SCALE {
        Result::Err(ConfigError::CeilingOutOfRange)
    } else if s.probability_step_by <= 0 || s.probability_step_by > 1_000_000_000 {
        Result::Err(ConfigError::StepOutOfRange)
    } else {
        Result::Ok(())
    }
}

/// An amount one successful write may deposit: at least one, never above
/// the content capacity, below the configured range's end, and either
/// within the range or equal to the capacity cap.
pub open spec fn spec_amount_ok(a: usize, s: GarbageSettings) -> bool {
    &&& 1 <= a <= GARBAGE_CAPACITY
    &&& a < s.garbage_per_tile_quantity.end
    &&& (s.garbage_per_tile_quantity.start <= a || a == GARBAGE_CAPACITY)
}

/// How one tile may change over a placement run: it is untouched, or it
/// was an empty tile of a garbage-capable terrain and now carries a
/// permitted garbage amount, with terrain and elevation intact.  A tile
/// that already carried content is never overwritten.
pub open spec fn spec_tile_evolution(t0: Tile, t1: Tile, s: GarbageSettings) -> bool {
    ||| t1 == t0
    ||| {
        &&& t0.content == Content::Empty
        &&& spec_can_hold_garbage(t0.tile_type)
        &&& t1.tile_type == t0.tile_type
        &&& t1.elevation == t0.elevation
        &&& exists|a: usize| t1.content == Content::Garbage(a) && spec_amount_ok(a, s)
    }
}

/// The narrowest matrix any pile of this configuration can use, and hence
/// a margin inside which no placement run of it ever writes.
pub open spec fn spec_margin_low(s: GarbageSettings) -> nat {
    if s.garbage_pile_size.start == 0 {
        1
    } else {
        spec_round_to_odd(s.garbage_pile_size.start as nat)
    }
}

/// No tile within `margin` of any edge of the grid differs between the two
/// states.
pub open spec fn spec_border_untouched(g0: Seq<Vec<Tile>>, g1: Seq<Vec<Tile>>, margin: int) -> bool {
    forall|y: int, x: int|
        0 <= y < g0.len() && 0 <= x < g0[y]@.len() && (y < margin || y + margin >= g0.len() || x
            < margin || x + margin >= g0.len()) ==> (#[trigger] g1[y]@[x]) == g0[y]@[x]
}

/// Everything a placement run guarantees of the grid it mutates: the shape
/// is kept, each tile evolves as `spec_tile_evolution` allows, and the
/// border stays untouched.
pub open spec fn spec_grid_evolution(g0: Seq<Vec<Tile>>, g1: Seq<Vec<Tile>>, s: GarbageSettings) -> bool {
    &&& g1.len() == g0.len()
    &&& forall|y: int| 0 <= y < g0.len() ==> (#[trigger] g1[y])@.len() == g0[y]@.len()
    &&& forall|y: int, x: int|
        0 <= y < g0.len() && 0 <= x < g0[y]@.len() ==> spec_tile_evolution(
            g0[y]@[x],
            (#[trigger] g1[y]@[x]),
            s,
        )
    &&& spec_border_untouched(g0, g1, spec_margin_low(s) as int)
}

/// Grid evolution composes: two successive runs make one run — in
/// particular, a tile written by the first run is never overwritten by the
/// second.
pub proof fn lemma_grid_evolution_trans(
    g0: Seq<Vec<Tile>>,
    g1: Seq<Vec<Tile>>,
    g2: Seq<Vec<Tile>>,
    s: GarbageSettings,
)
    requires
        spec_grid_evolution(g0, g1, s),
        spec_grid_evolution(g1, g2, s),
    ensures
        spec_grid_evolution(g0, g2, s),
{
    assert forall|y: int, x: int| 0 <= y < g0.len() && 0 <= x < g0[y]@.len() implies
        spec_tile_evolution(g0[y]@[x], (#[trigger] g2[y]@[x]), s) by {
        assert(spec_tile_evolution(g0[y]@[x], g1[y]@[x], s));
        assert(spec_tile_evolution(g1[y]@[x], g2[y]@[x], s));
        if g1[y]@[x] == g0[y]@[x] {
        } else {
            assert(g1[y]@[x].content != Content::Empty);
            assert(g2[y]@[x] == g1[y]@[x]);
        }
    }
    assert forall|y: int, x: int|
        0 <= y < g0.len() && 0 <= x < g0[y]@.len() && (y < spec_margin_low(s) || y + spec_margin_low(
        s,
    ) >= g0.len() || x < spec_margin_low(s) || x + spec_margin_low(s) >= g0.len()) implies (
    #[trigger] g2[y]@[x]) == g0[y]@[x] by {
        assert(g1[y]@[x] == g0[y]@[x]);
        assert(g2[y]@[x] == g1[y]@[x]);
    }
}

/// The garbage amount a tile carries.
pub open spec fn spec_tile_garbage(t: Tile) -> int {
    match t.content {
        Content::Garbage(a) => a as int,
        Content::Empty => 0,
    }
}

/// Sum of the garbage amounts of the first `upto` tiles of a row.
pub open spec fn spec_row_garbage(row: Seq<Tile>, upto: int) -> int
    decreases upto,
{
    if upto <= 0 {
        0
    } else {
        spec_row_garbage(row, upto - 1) + spec_tile_garbage(row[upto - 1])
    }
}

/// Sum of the garbage amounts of the first `rows` rows of a grid.
pub open spec fn spec_grid_garbage_upto(g: Seq<Vec<Tile>>, rows: int) -> int
    decreases rows,
{
    if rows <= 0 {
        0
    } else {
        spec_grid_garbage_upto(g, rows - 1) + spec_row_garbage(
            g[rows - 1]@,
            g[rows - 1]@.len() as int,
        )
    }
}

/// Total garbage amount held by a grid.
pub open spec fn spec_grid_garbage(g: Seq<Vec<Tile>>) -> int {
    spec_grid_garbage_upto(g, g.len() as int)
}

/// Changing at most the one cell `(x)` of a row moves its sum by exactly
/// that cell's difference.
proof fn lemma_row_garbage_update(r0: Seq<Tile>, r1: Seq<Tile>, x: int, upto: int)
    requires
        0 <= x,
        forall|i: int| 0 <= i < upto && i != x ==> r0[i] == r1[i],
    ensures
        x < upto ==> spec_row_garbage(r1, upto) == spec_row_garbage(r0, upto) + spec_tile_garbage(
            r1[x],
        ) - spec_tile_garbage(r0[x]),
        x >= upto ==> spec_row_garbage(r1, upto) == spec_row_garbage(r0, upto),
    decreases upto,
{
    if upto > 0 {
        lemma_row_garbage_update(r0, r1, x, upto - 1);
    }
}

/// Changing at most the one cell `(y, x)` of a grid moves its sum by
/// exactly that cell's difference.
proof fn lemma_grid_garbage_update(
    g0: Seq<Vec<Tile>>,
    g1: Seq<Vec<Tile>>,
    y: int,
    x: int,
    rows: int,
)
    requires
        0 <= y < g0.len(),
        0 <= x < g0[y]@.len(),
        g0.len() == g1.len(),
        forall|yy: int| 0 <= yy < g0.len() ==> (#[trigger] g1[yy])@.len() == g0[yy]@.len(),
        forall|yy: int, xx: int|
            0 <= yy < g0.len() && 0 <= xx < g0[yy]@.len() && !(yy == y && xx == x) ==> (
            #[trigger] g1[yy]@[xx]) == g0[yy]@[xx],
        rows <= g0.len(),
    ensures
        y < rows ==> spec_grid_garbage_upto(g1, rows) == spec_grid_garbage_upto(g0, rows)
            + spec_tile_garbage(g1[y]@[x]) - spec_tile_garbage(g0[y]@[x]),
        y >= rows ==> spec_grid_garbage_upto(g1, rows) == spec_grid_garbage_upto(g0, rows),
    decreases rows,
{
    if rows > 0 {
        lemma_grid_garbage_update(g0, g1, y, x, rows - 1);
        if y == rows - 1 {
            lemma_row_garbage_update(g0[y]@, g1[y]@, x, g0[y]@.len() as int);
        } else {
            lemma_row_garbage_update(
                g0[rows - 1]@,
                g1[rows - 1]@,
                g0[rows - 1]@.len() as int,
                g0[rows - 1]@.len() as int,
            );
        }
    }
}

/// The cell `(y, x)` lies strictly inside the grid with a margin of at
/// least `mat` on every side.
pub open spec fn spec_in_margin(len: int, mat: int, y: int, x: int) -> bool {
    &&& mat <= y && y + mat < len
    &&& mat <= x && x + mat < len
}

/// Attempt one garbage write at `(y, x)`.  The write succeeds exactly when
/// the cell keeps a margin of `mat_size` to every edge, its terrain can
/// hold garbage, and it carries no content yet; on success only that one
/// cell changes, receiving the given amount.
pub fn set_content(
    world: &mut Vec<Vec<Tile>>,
    y: usize,
    x: usize,
    amount: usize,
    mat_size: usize,
) -> (r: bool)
    requires
        spec_square(old(world)@, old(world)@.len() as int),
    ensures
        spec_square(final(world)@, old(world)@.len() as int),
        r == ({
            &&& spec_in_margin(old(world)@.len() as int, mat_size as int, y as int, x as int)
            &&& spec_can_hold_garbage(old(world)@[y as int]@[x as int].tile_type)
            &&& old(world)@[y as int]@[x as int].content == Content::Empty
        }),
        r ==> forall|yy: int, xx: int|
            0 <= yy < old(world)@.len() && 0 <= xx < old(world)@[yy]@.len() && !(yy == y && xx == x)
                ==> (#[trigger] final(world)@[yy]@[xx]) == old(world)@[yy]@[xx],
        r ==> final(world)@[y as int]@[x as int] == (Tile {
            tile_type: old(world)@[y as int]@[x as int].tile_type,
            content: Content::Garbage(amount),
            elevation: old(world)@[y as int]@[x as int].elevation,
        }),
        !r ==> final(world)@ == old(world)@,
{
    let len = world.len();
    if y < mat_size || x < mat_size || y >= len || x >= len {
        return false;
    }
    if len - y <= mat_size || len - x <= mat_size {
        return false;
    }
    let t = world[y][x];
    if can_hold_garbage(t.tile_type) && t.content == Content::Empty {
        world[y][x] = Tile {
            tile_type: t.tile_type,
            content: Content::Garbage(amount),
            elevation: t.elevation,
        };
        true
    } else {
        false
    }
}

/// One build-up pass: sample a pile radius and its ring matrix, pick a
/// random anchor, and attempt one draw-gated write per matrix cell.  The
/// grid evolves as `spec_grid_evolution` allows, and the running counter
/// grows by what the pass placed, within its per-pass bound.
pub fn spawn_garbage_build_up(
    world: &mut Vec<Vec<Tile>>,
    settings: &GarbageSettings,
    placed: &mut usize,
    rng: &mut rand::rngs::StdRng,
)
    requires
        spec_square(old(world)@, old(world)@.len() as int),
        spec_valid_settings(*settings, old(world)@.len() as int),
        *old(placed) <= 0x0FFF_FFFF,
    ensures
        final(world)@.len() == old(world)@.len(),
        spec_square(final(world)@, old(world)@.len() as int),
        spec_grid_evolution(old(world)@, final(world)@, *settings),
        *old(placed) <= *final(placed) <= *old(placed) + 0x0020_0000,
        *final(placed) - *old(placed) == spec_grid_garbage(final(world)@) - spec_grid_garbage(
            old(world)@,
        ),
{
    let len = world.len();
    let ghost g0 = world@;
    let ghost p0 = *placed;

    // Get size of garbage pile.
    let pile = gen_range_usize(
        rng,
        settings.garbage_pile_size.start,
        settings.garbage_pile_size.end,
    );

    // The matrix side is the pile radius rounded up to the next odd number.
    let probability_matrix = generate_prob_matrix(pile, settings.probability_step_by);
    let mat_size = probability_matrix.len();
    proof {
        if pile > 0 {
            if settings.garbage_pile_size.start > 0 {
                lemma_round_to_odd_mono(settings.garbage_pile_size.start as nat, pile as nat);
            } else {
                lemma_round_to_odd_mono(1nat, pile as nat);
            }
        }
        assert(mat_size == 0 || spec_margin_low(*settings) <= mat_size);
        assert(mat_size <= 0x100);
    }

    // Random anchor cell; the margin test is per-cell, not here.
    let base_y = gen_range_usize(rng, 0, len);
    let base_x = gen_range_usize(rng, 0, len);

    let mut row_index: usize = 0;
    while row_index < mat_size
        invariant
            row_index <= mat_size,
            len == g0.len(),
            world@.len() == g0.len(),
            spec_square(g0, g0.len() as int),
            spec_square(world@, g0.len() as int),
            spec_valid_settings(*settings, g0.len() as int),
            spec_grid_evolution(g0, world@, *settings),
            base_y < len,
            base_x < len,
            mat_size == probability_matrix@.len(),
            mat_size <= 0x100,
            mat_size == 0 || spec_margin_low(*settings) <= mat_size,
            spec_prob_matrix(
                probability_matrix@,
                pile as nat,
                settings.probability_step_by as int,
            ),
            pile > 0 || mat_size == 0,
            pile > 0 ==> mat_size == spec_round_to_odd(pile as nat),
            p0 <= 0x0FFF_FFFF,
            p0 <= *placed <= p0 + row_index * 0x2000,
            *placed - p0 == spec_grid_garbage(world@) - spec_grid_garbage(g0),
        decreases mat_size - row_index,
    {
        let mut col_index: usize = 0;
        while col_index < mat_size
            invariant
                col_index <= mat_size,
                row_index < mat_size,
                len == g0.len(),
                world@.len() == g0.len(),
                spec_square(g0, g0.len() as int),
                spec_square(world@, g0.len() as int),
                spec_valid_settings(*settings, g0.len() as int),
                spec_grid_evolution(g0, world@, *settings),
                base_y < len,
                base_x < len,
                mat_size == probability_matrix@.len(),
                mat_size <= 0x100,
                spec_margin_low(*settings) <= mat_size,
                spec_prob_matrix(
                    probability_matrix@,
                    pile as nat,
                    settings.probability_step_by as int,
                ),
                pile > 0,
                mat_size == spec_round_to_odd(pile as nat),
                p0 <= 0x0FFF_FFFF,
                p0 <= *placed <= p0 + row_index * 0x2000 + col_index * 20,
                *placed - p0 == spec_grid_garbage(world@) - spec_grid_garbage(g0),
            decreases mat_size - col_index,
        {
            // Draw the spawn value for this cell.
            let value = gen_range_i64(rng, PROB_DRAW_FLOOR, settings.spawn_in_near_tiles_probability);

            proof {
                lemma_ring_value_bounds(
                    mat_size as int,
                    settings.probability_step_by as int,
                    row_index as int,
                    col_index as int,
                );
            }
            let cell = probability_matrix[row_index][col_index];

            // Assign if the probability is satisfied.
            if value > PROB_SCALE - cell {
                // Random amount of garbage for the tile content, capped at
                // the content's capacity.
                let draw = gen_range_usize(
                    rng,
                    settings.garbage_per_tile_quantity.start,
                    settings.garbage_per_tile_quantity.end,
                );
                let amount = if draw > GARBAGE_CAPACITY {
                    GARBAGE_CAPACITY
                } else {
                    draw
                };
                let ty = base_y + col_index;
                let tx = base_x + row_index;
                let ghost pre = world@;
                if set_content(world, ty, tx, amount, mat_size) {
                    proof {
                        assert(spec_amount_ok(amount, *settings));
                        assert forall|yy: int, xx: int|
                            0 <= yy < g0.len() && 0 <= xx < g0[yy]@.len() implies
                            spec_tile_evolution(g0[yy]@[xx], (#[trigger] world@[yy]@[xx]), *settings) by {
                            if yy == ty && xx == tx {
                                assert(pre[yy]@[xx].content == Content::Empty);
                                assert(spec_tile_evolution(g0[yy]@[xx], pre[yy]@[xx], *settings));
                                assert(pre[yy]@[xx] == g0[yy]@[xx]);
                                assert(world@[yy]@[xx].content == Content::Garbage(amount));
                            } else {
                                assert(world@[yy]@[xx] == pre[yy]@[xx]);
                            }
                        }
                        assert(spec_in_margin(len as int, mat_size as int, ty as int, tx as int));
                        assert forall|yy: int, xx: int|
                            0 <= yy < g0.len() && 0 <= xx < g0[yy]@.len() && (yy
                                < spec_margin_low(*settings) || yy + spec_margin_low(*settings)
                                >= g0.len() || xx < spec_margin_low(*settings) || xx
                                + spec_margin_low(*settings) >= g0.len()) implies (#[trigger] world@[yy]@[xx])
                            == g0[yy]@[xx] by {
                            assert(!(yy == ty && xx == tx));
                            assert(world@[yy]@[xx] == pre[yy]@[xx]);
                            assert(pre[yy]@[xx] == g0[yy]@[xx]);
                        }
                        lemma_grid_garbage_update(
                            pre,
                            world@,
                            ty as int,
                            tx as int,
                            pre.len() as int,
                        );
                        assert(spec_grid_garbage(world@) == spec_grid_garbage(pre) + amount);
                    }
                    *placed = *placed + amount;
                }
            }
            col_index += 1;
        }
        row_index += 1;
    }
}

/// Place garbage until the cumulative amount reaches the configured
/// target.  One build-up pass can overshoot the remaining target; the loop
/// checks only between passes.  A run that exhausts its pass budget first
/// reports `Exhaustion` instead of looping forever on a saturated grid.
pub fn spawn_garbage(
    world: &mut Vec<Vec<Tile>>,
    settings: &GarbageSettings,
    rng: &mut rand::rngs::StdRng,
) -> (r: Result<usize, GarbageError>)
    requires
        spec_square(old(world)@, old(world)@.len() as int),
        spec_valid_settings(*settings, old(world)@.len() as int),
    ensures
        final(world)@.len() == old(world)@.len(),
        spec_square(final(world)@, old(world)@.len() as int),
        spec_grid_evolution(old(world)@, final(world)@, *settings),
        r matches Ok(p) ==> p >= settings.total_garbage_quantity,
        r matches Ok(p) ==> p == spec_grid_garbage(final(world)@) - spec_grid_garbage(old(world)@),
        r is Err ==> spec_grid_garbage(final(world)@) - spec_grid_garbage(old(world)@)
            < settings.total_garbage_quantity,
{
    let ghost g0 = world@;
    let mut placed: usize = 0;
    let mut passes: usize = 0;
    while placed < settings.total_garbage_quantity && passes < MAX_BUILD_UP_PASSES
        invariant
            world@.len() == g0.len(),
            spec_square(g0, g0.len() as int),
            spec_square(world@, g0.len() as int),
            spec_valid_settings(*settings, g0.len() as int),
            spec_grid_evolution(g0, world@, *settings),
            placed <= 0x0FFF_FFFF + 0x0020_0000,
            passes <= MAX_BUILD_UP_PASSES,
            placed == spec_grid_garbage(world@) - spec_grid_garbage(g0),
        decreases MAX_BUILD_UP_PASSES - passes,
    {
        let ghost pre = world@;
        spawn_garbage_build_up(world, settings, &mut placed, rng);
        proof {
            lemma_grid_evolution_trans(g0, pre, world@, *settings);
        }
        passes += 1;
    }
    if placed >= settings.total_garbage_quantity {
        Result::Ok(placed)
    } else {
        Result::Err(GarbageError::Exhaustion)
    }
}

} // verus!
