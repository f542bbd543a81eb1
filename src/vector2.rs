use vstd::prelude::*;

verus! {

/// Number of fixed-point units in one grid cell.
pub const UNITS_PER_CELL: i64 = 1000;

/// A two-dimensional vector.
#[derive(Clone, Copy, Debug)]
pub struct Vector2<T> {
    pub x: T,
    pub y: T,
}

impl<T> Vector2<T> {
    pub fn new(x: T, y: T) -> (r: Self)
        ensures
            r.x == x,
            r.y == y,
    {
        Self { x, y }
    }
}

/// The grid cell that holds the fixed-point coordinate `v` (floor division).
pub open spec fn cell_of(v: int) -> int {
    v / (UNITS_PER_CELL as int)
}

/// The largest whole-cell coordinate that is not above `v`.
pub open spec fn floor_units(v: int) -> int {
    cell_of(v) * UNITS_PER_CELL
}

/// The smallest whole-cell coordinate that is not below `v`.
pub open spec fn ceil_units(v: int) -> int {
    -floor_units(-v)
}

/// The whole-cell coordinate nearest to `v`, halfway cases away from zero.
pub open spec fn round_units(v: int) -> int {
    if v >= 0 {
        floor_units(v + UNITS_PER_CELL / 2)
    } else {
        -floor_units(-v + UNITS_PER_CELL / 2)
    }
}

/// A coordinate far enough from the ends of `i64` to be rounded to a cell.
pub open spec fn roundable(v: i64) -> bool {
    i64::MIN + UNITS_PER_CELL < v < i64::MAX - UNITS_PER_CELL
}

/// The grid cell of a coordinate.
pub fn cell_index(v: i64) -> (r: i64)
    ensures
        r == cell_of(v as int),
{
    match v.checked_div_euclid(UNITS_PER_CELL) {
        Some(q) => q,
        None => {
            proof {
                assert(i64::MIN <= v / UNITS_PER_CELL <= i64::MAX) by (nonlinear_arith)
                    requires
                        i64::MIN <= v <= i64::MAX,
                        UNITS_PER_CELL == 1000,
                ;
            }
            0
        },
    }
}

fn floor_coord(v: i64) -> (r: i64)
    requires
        i64::MIN + UNITS_PER_CELL < v,
    ensures
        r == floor_units(v as int),
{
    let q = cell_index(v);
    proof {
        assert(v == UNITS_PER_CELL * (v / UNITS_PER_CELL) + v % UNITS_PER_CELL) by {
            vstd::arithmetic::div_mod::lemma_fundamental_div_mod(v as int, UNITS_PER_CELL as int);
        }
    }
    q * UNITS_PER_CELL
}

impl Vector2<i64> {
    /// Rounds both coordinates down to whole cells.
    pub fn floor(&self) -> (r: Self)
        requires
            roundable(self.x),
            roundable(self.y),
        ensures
            r.x == floor_units(self.x as int),
            r.y == floor_units(self.y as int),
    {
        let mut floored = *self;
        floored.x = floor_coord(self.x);
        floored.y = floor_coord(self.y);
        floored
    }

    /// Rounds both coordinates up to whole cells.
    pub fn ceil(&self) -> (r: Self)
        requires
            roundable(self.x),
            roundable(self.y),
        ensures
            r.x == ceil_units(self.x as int),
            r.y == ceil_units(self.y as int),
    {
        let mut ceiled = *self;
        ceiled.x = -floor_coord(-self.x);
        ceiled.y = -floor_coord(-self.y);
        ceiled
    }

    /// Rounds both coordinates to the nearest whole cells.
    pub fn round(&self) -> (r: Self)
        requires
            roundable(self.x),
            roundable(self.y),
        ensures
            r.x == round_units(self.x as int),
            r.y == round_units(self.y as int),
    {
        let mut rounded = *self;
        rounded.x = round_coord(self.x);
        rounded.y = round_coord(self.y);
        rounded
    }
}

fn round_coord(v: i64) -> (r: i64)
    requires
        roundable(v),
    ensures
        r == round_units(v as int),
{
    if v >= 0 {
        floor_coord(v + UNITS_PER_CELL / 2)
    } else {
        -floor_coord(-v + UNITS_PER_CELL / 2)
    }
}

} // verus!
