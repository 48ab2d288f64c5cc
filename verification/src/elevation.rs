use vstd::prelude::*;
use crate::errors::ConfigError;

verus! {

/// The sign bit of a 64-bit IEEE-754 bit pattern.
pub const SIGN_BIT: u64 = 0x8000_0000_0000_0000;

/// Elevation samples enter the library as order-preserving integer keys.
///
/// `spec_sort_key` maps the raw bit pattern of a finite 64-bit float to a
/// `u64` whose unsigned order matches the float order: a negative value has
/// its sign bit set, so all its bits are flipped (reversing the descending
/// bit order of negatives); a non-negative value keeps its bits and gains
/// the sign bit, placing it above every negative.  Comparisons, minima and
/// maxima over keys therefore agree with the same operations over the
/// original samples, and the library never touches a float.
pub open spec fn spec_sort_key(bits: u64) -> u64 {
    if bits >= SIGN_BIT {
        !bits
    } else {
        bits | SIGN_BIT
    }
}

/// Inverse of `spec_sort_key`: recovers the raw bit pattern from a key.
pub open spec fn spec_key_bits(key: u64) -> u64 {
    if key >= SIGN_BIT {
        key & (!SIGN_BIT)
    } else {
        !key
    }
}

/// Executable counterpart of `spec_sort_key`.
pub fn sort_key_from_bits(bits: u64) -> (r: u64)
    ensures
        r == spec_sort_key(bits),
{
    if bits >= SIGN_BIT {
        !bits
    } else {
        bits | SIGN_BIT
    }
}

/// Executable counterpart of `spec_key_bits`.
pub fn bits_from_sort_key(key: u64) -> (r: u64)
    ensures
        r == spec_key_bits(key),
{
    if key >= SIGN_BIT {
        key & (!SIGN_BIT)
    } else {
        !key
    }
}

/// Key encoding loses nothing: decoding a key returns the bit pattern it
/// was made from, so the two executable conversions are mutual inverses.
pub proof fn lemma_sort_key_round_trip(bits: u64)
    ensures
        spec_key_bits(spec_sort_key(bits)) == bits,
{
    assert(bits >= 0x8000_0000_0000_0000u64 ==> !bits < 0x8000_0000_0000_0000u64 && !(!bits)
        == bits) by (bit_vector);
    assert(bits < 0x8000_0000_0000_0000u64 ==> (bits | 0x8000_0000_0000_0000u64)
        >= 0x8000_0000_0000_0000u64 && ((bits | 0x8000_0000_0000_0000u64) & (
    !0x8000_0000_0000_0000u64)) == bits) by (bit_vector);
}

/// Encode a whole field of raw IEEE-754 bit patterns as sort keys,
/// preserving its shape cell for cell.
pub fn encode_field(bits: &Vec<Vec<u64>>) -> (keys: Vec<Vec<u64>>)
    ensures
        keys@.len() == bits@.len(),
        forall|y: int| 0 <= y < bits@.len() ==> (#[trigger] keys@[y])@.len() == bits@[y]@.len(),
        forall|y: int, x: int|
            0 <= y < bits@.len() && 0 <= x < bits@[y]@.len() ==> (#[trigger] keys@[y]@[x])
                == spec_sort_key(bits@[y]@[x]),
{
    let mut keys: Vec<Vec<u64>> = Vec::new();
    let mut y: usize = 0;
    while y < bits.len()
        invariant
            y <= bits@.len(),
            keys@.len() == y,
            forall|yy: int| 0 <= yy < y ==> (#[trigger] keys@[yy])@.len() == bits@[yy]@.len(),
            forall|yy: int, xx: int|
                0 <= yy < y && 0 <= xx < bits@[yy]@.len() ==> (#[trigger] keys@[yy]@[xx])
                    == spec_sort_key(bits@[yy]@[xx]),
        decreases bits@.len() - y,
    {
        let row = &bits[y];
        let mut out: Vec<u64> = Vec::new();
        let mut x: usize = 0;
        while x < row.len()
            invariant
                x <= row@.len(),
                row == &bits[y as int],
                y < bits@.len(),
                out@.len() == x,
                forall|xx: int|
                    0 <= xx < x ==> (#[trigger] out@[xx]) == spec_sort_key(bits@[y as int]@[xx]),
            decreases row@.len() - x,
        {
            out.push(sort_key_from_bits(row[x]));
            x += 1;
        }
        keys.push(out);
        y += 1;
    }
    keys
}

/// There is a cell somewhere in `field`: at least one row is non-empty.
pub open spec fn spec_has_cell(field: Seq<Vec<u64>>) -> bool {
    exists|y: int| 0 <= y < field.len() && (#[trigger] field[y])@.len() > 0
}

/// `v` occurs in `field`.
pub open spec fn spec_occurs(field: Seq<Vec<u64>>, v: u64) -> bool {
    exists|y: int, x: int|
        0 <= y < field.len() && 0 <= x < field[y]@.len() && (#[trigger] field[y]@[x]) == v
}

/// `v` is a lower bound of every cell of `field`.
pub open spec fn spec_lower_bound(field: Seq<Vec<u64>>, v: u64) -> bool {
    forall|y: int, x: int|
        0 <= y < field.len() && 0 <= x < field[y]@.len() ==> v <= (#[trigger] field[y]@[x])
}

/// `v` is an upper bound of every cell of `field`.
pub open spec fn spec_upper_bound(field: Seq<Vec<u64>>, v: u64) -> bool {
    forall|y: int, x: int|
        0 <= y < field.len() && 0 <= x < field[y]@.len() ==> (#[trigger] field[y]@[x]) <= v
}

/// Global minimum of an elevation field, as a key.  Returns `None` exactly
/// when the field has no cells; otherwise the least cell value, which is
/// attained.  Because the key order matches the sample order, this is the
/// key of the least sample.
pub fn find_min_value(field: &Vec<Vec<u64>>) -> (r: Option<u64>)
    ensures
        r is Some <==> spec_has_cell(field@),
        r matches Some(m) ==> spec_occurs(field@, m) && spec_lower_bound(field@, m),
{
    let mut best: Option<u64> = None;
    let mut y: usize = 0;
    while y < field.len()
        invariant
            y <= field@.len(),
            best is Some <==> exists|yy: int|
                0 <= yy < y && (#[trigger] field@[yy])@.len() > 0,
            best matches Some(m) ==> (exists|yy: int, xx: int|
                0 <= yy < y && 0 <= xx < field@[yy]@.len() && (#[trigger] field@[yy]@[xx]) == m)
                && (forall|yy: int, xx: int|
                0 <= yy < y && 0 <= xx < field@[yy]@.len() ==> m <= (#[trigger] field@[yy]@[xx])),
        decreases field@.len() - y,
    {
        let row = &field[y];
        let mut x: usize = 0;
        while x < row.len()
            invariant
                x <= row@.len(),
                row == &field[y as int],
                y < field@.len(),
                best is Some <==> (exists|yy: int|
                    0 <= yy < y && (#[trigger] field@[yy])@.len() > 0) || x > 0,
                best matches Some(m) ==> (exists|yy: int, xx: int|
                    0 <= yy <= y && 0 <= xx < field@[yy]@.len() && (yy < y || xx < x)
                    && (#[trigger] field@[yy]@[xx]) == m) && (forall|yy: int, xx: int|
                    0 <= yy <= y && 0 <= xx < field@[yy]@.len() && (yy < y || xx < x)
                    ==> m <= (#[trigger] field@[yy]@[xx])),
            decreases row@.len() - x,
        {
            let v = row[x];
            best = match best {
                Option::None => Option::Some(v),
                Option::Some(m) => if v < m {
                    Option::Some(v)
                } else {
                    Option::Some(m)
                },
            };
            x += 1;
        }
        y += 1;
    }
    best
}

/// The field normalizer: one scan for the global minimum and one for the
/// global maximum, as keys.  A field with no cells is refused — no cell
/// could ever satisfy a classification bound against a made-up range.
pub fn elevation_range(field: &Vec<Vec<u64>>) -> (r: Result<(u64, u64), ConfigError>)
    ensures
        r is Ok <==> spec_has_cell(field@),
        r matches Ok(mm) ==> {
            &&& spec_occurs(field@, mm.0) && spec_lower_bound(field@, mm.0)
            &&& spec_occurs(field@, mm.1) && spec_upper_bound(field@, mm.1)
            &&& mm.0 <= mm.1
        },
        r is Err ==> r == Result::<(u64, u64), ConfigError>::Err(ConfigError::EmptyField),
{
    let lo = find_min_value(field);
    let hi = find_max_value(field);
    match (lo, hi) {
        (Option::Some(a), Option::Some(b)) => Result::Ok((a, b)),
        _ => Result::Err(ConfigError::EmptyField),
    }
}

/// Global maximum of an elevation field, as a key: `None` exactly when the
/// field has no cells, otherwise the greatest cell value, attained.
pub fn find_max_value(field: &Vec<Vec<u64>>) -> (r: Option<u64>)
    ensures
        r is Some <==> spec_has_cell(field@),
        r matches Some(m) ==> spec_occurs(field@, m) && spec_upper_bound(field@, m),
{
    let mut best: Option<u64> = None;
    let mut y: usize = 0;
    while y < field.len()
        invariant
            y <= field@.len(),
            best is Some <==> exists|yy: int|
                0 <= yy < y && (#[trigger] field@[yy])@.len() > 0,
            best matches Some(m) ==> (exists|yy: int, xx: int|
                0 <= yy < y && 0 <= xx < field@[yy]@.len() && (#[trigger] field@[yy]@[xx]) == m)
                && (forall|yy: int, xx: int|
                0 <= yy < y && 0 <= xx < field@[yy]@.len() ==> (#[trigger] field@[yy]@[xx]) <= m),
        decreases field@.len() - y,
    {
        let row = &field[y];
        let mut x: usize = 0;
        while x < row.len()
            invariant
                x <= row@.len(),
                row == &field[y as int],
                y < field@.len(),
                best is Some <==> (exists|yy: int|
                    0 <= yy < y && (#[trigger] field@[yy])@.len() > 0) || x > 0,
                best matches Some(m) ==> (exists|yy: int, xx: int|
                    0 <= yy <= y && 0 <= xx < field@[yy]@.len() && (yy < y || xx < x)
                    && (#[trigger] field@[yy]@[xx]) == m) && (forall|yy: int, xx: int|
                    0 <= yy <= y && 0 <= xx < field@[yy]@.len() && (yy < y || xx < x)
                    ==> (#[trigger] field@[yy]@[xx]) <= m),
            decreases row@.len() - x,
        {
            let v = row[x];
            best = match best {
                Option::None => Option::Some(v),
                Option::Some(m) => if v > m {
                    Option::Some(v)
                } else {
                    Option::Some(m)
                },
            };
            x += 1;
        }
        y += 1;
    }
    best
}

} // verus!
