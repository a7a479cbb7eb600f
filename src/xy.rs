use rand::rngs::OsRng;
use rand::Rng;
use vstd::prelude::*;

verus! {

/// A pair of machine integers, used both as a position and as a direction.
#[derive(Debug, Clone, Copy, PartialEq, Eq, Structural)]
pub struct XY {
    pub x: isize,
    pub y: isize,
}

/// A cell of the program grid.
pub type Coord = XY;

/// A step of the instruction pointer.
pub type Direction = XY;

/// Remainder of `a` by a nonzero `b` that takes the sign of `a`, as the
/// machine's `%` on signed integers does (`%` on `int` is Euclidean: never
/// negative, whatever the sign of `b`).
pub open spec fn trunc_rem(a: int, b: int) -> int {
    if a >= 0 {
        a % b
    } else {
        -((-a) % b)
    }
}

impl XY {
    pub fn new(x: isize, y: isize) -> (r: XY)
        ensures
            r.x == x,
            r.y == y,
    {
        XY { x, y }
    }

    /// Component-wise sum, wrapping on overflow.
    pub fn plus(&self, other: &XY) -> (r: XY)
        ensures
            r.x == self.x.wrapping_add(other.x),
            r.y == self.y.wrapping_add(other.y),
    {
        XY::new(self.x.wrapping_add(other.x), self.y.wrapping_add(other.y))
    }

    /// Component-wise truncating remainder.
    pub fn modulo(&self, bounds: &XY) -> (r: XY)
        requires
            bounds.x != 0,
            bounds.y != 0,
            !(self.x == isize::MIN && bounds.x == -1),
            !(self.y == isize::MIN && bounds.y == -1),
        ensures
            r.x == trunc_rem(self.x as int, bounds.x as int),
            r.y == trunc_rem(self.y as int, bounds.y as int),
    {
        XY::new(rem_of(self.x, bounds.x), rem_of(self.y, bounds.y))
    }
}

/// Under the Euclidean `%`, a divisor and its negation leave the same
/// remainder.
proof fn lemma_rem_negated_divisor(a: int, b: int)
    requires
        b < 0,
    ensures
        a % b == a % (-b),
{
    assert(a % b == a % (-b)) by (nonlinear_arith)
        requires
            b < 0,
    ;
}

/// Truncating remainder of `a` by `b`.
fn rem_of(a: isize, b: isize) -> (r: isize)
    requires
        b != 0,
        !(a == isize::MIN && b == -1),
    ensures
        r == trunc_rem(a as int, b as int),
{
    let r = match a.checked_rem(b) {
        Some(v) => v,
        None => 0,
    };
    proof {
        let x = a as int;
        let d = b as int;
        assert(x * -1 == -x && d * -1 == -d);
        if d < 0 {
            lemma_rem_negated_divisor(x, d);
            lemma_rem_negated_divisor(-x, d);
        }
        if x == 0 {
            assert(0int % (-d) == 0 && 0int % d == 0) by (nonlinear_arith)
                requires
                    d != 0,
            ;
        }
    }
    r
}

/// The four directions the instruction pointer can take.
#[derive(Debug, Clone, Copy, PartialEq, Eq, Structural)]
pub enum CardinalDirections {
    Up,
    Right,
    Down,
    Left,
}

/// The unit step of a direction; `y` grows downwards.
pub open spec fn unit_step(d: CardinalDirections) -> XY {
    match d {
        CardinalDirections::Up => XY { x: 0, y: -1isize },
        CardinalDirections::Down => XY { x: 0, y: 1 },
        CardinalDirections::Left => XY { x: -1isize, y: 0 },
        CardinalDirections::Right => XY { x: 1, y: 0 },
    }
}

/// The direction numbered `i` in the order up, right, down, left.
pub open spec fn direction_of_index(i: int) -> Option<CardinalDirections> {
    if i == 0 {
        Some(CardinalDirections::Up)
    } else if i == 1 {
        Some(CardinalDirections::Right)
    } else if i == 2 {
        Some(CardinalDirections::Down)
    } else if i == 3 {
        Some(CardinalDirections::Left)
    } else {
        None
    }
}

impl CardinalDirections {
    pub fn to_direction(&self) -> (r: Direction)
        ensures
            r == unit_step(*self),
    {
        match self {
            CardinalDirections::Up => XY::new(0, -1),
            CardinalDirections::Down => XY::new(0, 1),
            CardinalDirections::Left => XY::new(-1, 0),
            CardinalDirections::Right => XY::new(1, 0),
        }
    }

    pub fn from_u8(i: u8) -> (r: Option<CardinalDirections>)
        ensures
            r == direction_of_index(i as int),
    {
        match i {
            0 => Some(CardinalDirections::Up),
            1 => Some(CardinalDirections::Right),
            2 => Some(CardinalDirections::Down),
            3 => Some(CardinalDirections::Left),
            _ => None,
        }
    }
}

/// Relies on rand's `OsRng` with `Rng::gen_range(0..4)`: a value drawn from
/// `0..4` by the operating system's generator (which panics only when the
/// operating system cannot supply randomness).
#[verifier::external_body]
pub(crate) fn random_index() -> (r: u8)
    ensures
        r < 4,
{
    OsRng.gen_range(0..4u8)
}

} // verus!
