//! The collision resolver: whether a moving body is just crossing one side
//! of a static obstacle.
//!
//! The resolver only compares coordinates, so it works on the edges of the
//! boxes as integers. A caller with fractional coordinates hands in any
//! integers that stand in the same order: [`coordinate`] gives such an
//! integer for the bit pattern of a binary64 number.

use vstd::prelude::*;

verus! {

/// A cardinal side of an obstacle, seen from the obstacle: a body that lands
/// on top of it crosses its `North` side.
#[derive(Clone, Copy, Debug, PartialEq, Eq, Structural)]
pub enum Side {
    North,
    South,
    East,
    West,
}

/// The sign bit of a binary64 bit pattern.
pub const SIGN_BIT: u64 = 0x8000_0000_0000_0000;

/// The bit pattern of positive infinity: the greatest magnitude that is a
/// number.
pub const INFINITY_BITS: u64 = 0x7ff0_0000_0000_0000;

/// The bit pattern without its sign bit.
pub open spec fn magnitude(bits: u64) -> int {
    if bits >= SIGN_BIT {
        bits - SIGN_BIT
    } else {
        bits as int
    }
}

/// The bit pattern is that of a number, infinite or not.
pub open spec fn is_number(bits: u64) -> bool {
    magnitude(bits) <= INFINITY_BITS
}

/// Where the number with this bit pattern stands among the numbers: its
/// magnitude, counted below zero where the sign bit is set. The two zeros
/// share the rank 0.
pub open spec fn rank(bits: u64) -> int {
    if bits >= SIGN_BIT {
        -magnitude(bits)
    } else {
        magnitude(bits)
    }
}

/// Turns the bit pattern of a binary64 number into a coordinate for the
/// resolver, or into `None` where the pattern is no number.
pub fn coordinate(bits: u64) -> (at: Option<i64>)
    ensures
        at == if is_number(bits) {
            Some(rank(bits) as i64)
        } else {
            None
        },
        at matches Some(x) ==> x == rank(bits) && -INFINITY_BITS <= x <= INFINITY_BITS,
{
    let negative = bits >= SIGN_BIT;
    let magnitude: u64 = if negative {
        bits - SIGN_BIT
    } else {
        bits
    };
    if magnitude > INFINITY_BITS {
        None
    } else if negative {
        Some(-(magnitude as i64))
    } else {
        Some(magnitude as i64)
    }
}

/// The order of two bit patterns by sign and magnitude, which is how
/// binary64 numbers are ordered: below zero the greater magnitude is the
/// lesser number, a number below zero is less than one above, and the two
/// zeros are equal.
pub open spec fn less(a: u64, b: u64) -> bool {
    if a >= SIGN_BIT && b >= SIGN_BIT {
        magnitude(a) > magnitude(b)
    } else if a >= SIGN_BIT {
        magnitude(a) > 0 || magnitude(b) > 0
    } else if b >= SIGN_BIT {
        false
    } else {
        magnitude(a) < magnitude(b)
    }
}

/// The ranks of two bit patterns stand in the order of the patterns by sign
/// and magnitude, and are equal only for equal patterns and for the two
/// zeros.
pub proof fn lemma_rank_order(a: u64, b: u64)
    ensures
        rank(a) < rank(b) <==> less(a, b),
        rank(a) == rank(b) <==> a == b || magnitude(a) == 0 && magnitude(b) == 0,
{
}

/// The four edges of an axis-aligned box. The x axis grows to the east, the
/// y axis to the south.
#[derive(Clone, Copy, Debug, PartialEq, Eq, Structural)]
pub struct Edges {
    pub north: i64,
    pub south: i64,
    pub west: i64,
    pub east: i64,
}

impl Edges {
    /// The edges at the coordinates of four binary64 bit patterns, where
    /// all four are numbers.
    pub open spec fn from_ranks(north: u64, south: u64, west: u64, east: u64) -> Option<Edges> {
        if is_number(north) && is_number(south) && is_number(west) && is_number(east) {
            Some(
                Edges {
                    north: rank(north) as i64,
                    south: rank(south) as i64,
                    west: rank(west) as i64,
                    east: rank(east) as i64,
                },
            )
        } else {
            None
        }
    }

    /// The edges of a box from the bit patterns of its four binary64
    /// coordinates, or `None` where one of them is no number: such a box can
    /// be compared with nothing.
    pub fn from_bits(north: u64, south: u64, west: u64, east: u64) -> (edges: Option<Edges>)
        ensures
            edges == Edges::from_ranks(north, south, west, east),
    {
        match (coordinate(north), coordinate(south), coordinate(west), coordinate(east)) {
            (Some(north), Some(south), Some(west), Some(east)) => Some(
                Edges { north, south, west, east },
            ),
            _ => None,
        }
    }

    /// The north edge is not south of the south edge, nor the west edge east
    /// of the east edge.
    pub open spec fn in_order(self) -> bool {
        self.north <= self.south && self.west <= self.east
    }

    /// The two boxes share some stretch of the x axis.
    pub open spec fn overlaps_x(self, other: Edges) -> bool {
        self.east > other.west && self.west < other.east
    }

    /// The two boxes share some stretch of the y axis.
    pub open spec fn overlaps_y(self, other: Edges) -> bool {
        self.south > other.north && self.north < other.south
    }

    /// No point of the box lies within `view`.
    pub open spec fn misses(self, view: Edges) -> bool {
        self.north > view.south || self.south < view.north || self.west > view.east || self.east
            < view.west
    }

    /// Whether the box lies wholly outside `view`, so that drawing it can be
    /// skipped.
    pub fn out_of_view(&self, view: &Edges) -> (out: bool)
        ensures
            out == self.misses(*view),
    {
        self.north > view.south || self.south < view.north || self.west > view.east || self.east
            < view.west
    }
}

/// The body is just crossing the given side of the obstacle.
///
/// `inner` is the obstacle drawn in by the border margin on every side: the
/// inner end of its margin band. The
/// body crosses a side when it overlaps the obstacle along that side, lies
/// beyond the side with its far edge, and has its near edge strictly between
/// the side and the matching side of `inner`.
pub open spec fn crosses(body: Edges, obstacle: Edges, inner: Edges, side: Side) -> bool {
    match side {
        Side::North => {
            &&& body.overlaps_x(obstacle)
            &&& body.north < obstacle.north
            &&& obstacle.north < body.south < inner.north
        },
        Side::South => {
            &&& body.overlaps_x(obstacle)
            &&& body.south > obstacle.south
            &&& inner.south < body.north < obstacle.south
        },
        Side::East => {
            &&& body.overlaps_y(obstacle)
            &&& body.east > obstacle.east
            &&& inner.east < body.west < obstacle.east
        },
        Side::West => {
            &&& body.overlaps_y(obstacle)
            &&& body.west < obstacle.west
            &&& obstacle.west < body.east < inner.west
        },
    }
}

/// The side that is resolved for one obstacle: the first that the body
/// crosses, trying north, east, west and south in this order.
pub open spec fn first_crossed(body: Edges, obstacle: Edges, inner: Edges) -> Option<Side> {
    if crosses(body, obstacle, inner, Side::North) {
        Some(Side::North)
    } else if crosses(body, obstacle, inner, Side::East) {
        Some(Side::East)
    } else if crosses(body, obstacle, inner, Side::West) {
        Some(Side::West)
    } else if crosses(body, obstacle, inner, Side::South) {
        Some(Side::South)
    } else {
        None
    }
}

/// Tells whether `body` is just crossing `side` of `obstacle`, whose margin
/// band ends at `inner`.
pub fn cube_collider(body: &Edges, obstacle: &Edges, inner: &Edges, side: Side) -> (collision: bool)
    ensures
        collision == crosses(*body, *obstacle, *inner, side),
{
    match side {
        Side::North => {
            body.east > obstacle.west && body.west < obstacle.east && body.north < obstacle.north
                && body.south > obstacle.north && body.south < inner.north
        },
        Side::South => {
            body.east > obstacle.west && body.west < obstacle.east && body.south > obstacle.south
                && body.north < obstacle.south && body.north > inner.south
        },
        Side::East => {
            body.south > obstacle.north && body.north < obstacle.south && body.east > obstacle.east
                && body.west < obstacle.east && body.west > inner.east
        },
        Side::West => {
            body.south > obstacle.north && body.north < obstacle.south && body.west < obstacle.west
                && body.east > obstacle.west && body.east < inner.west
        },
    }
}

/// Picks the one side of `obstacle` to resolve `body` against, or `None`
/// where the body crosses no side of it.
pub fn resolve_side(body: &Edges, obstacle: &Edges, inner: &Edges) -> (side: Option<Side>)
    ensures
        side == first_crossed(*body, *obstacle, *inner),
        side matches Some(s) ==> crosses(*body, *obstacle, *inner, s),
        side is None ==> forall|s: Side| !crosses(*body, *obstacle, *inner, s),
{
    if cube_collider(body, obstacle, inner, Side::North) {
        Some(Side::North)
    } else if cube_collider(body, obstacle, inner, Side::East) {
        Some(Side::East)
    } else if cube_collider(body, obstacle, inner, Side::West) {
        Some(Side::West)
    } else if cube_collider(body, obstacle, inner, Side::South) {
        Some(Side::South)
    } else {
        None
    }
}

/// A body that shares no stretch of the x axis with an obstacle crosses no
/// side of it, whatever the margin, as long as the obstacle's west edge is
/// not east of its east edge.
pub proof fn lemma_apart_crosses_nothing(body: Edges, obstacle: Edges, inner: Edges, side: Side)
    requires
        obstacle.west <= obstacle.east,
        !body.overlaps_x(obstacle),
    ensures
        !crosses(body, obstacle, inner, side),
        first_crossed(body, obstacle, inner) is None,
{
}

/// A body that crosses a side of an obstacle overlaps the obstacle on both
/// axes, as long as the edges of the obstacle are in order.
pub proof fn lemma_crossing_overlaps(body: Edges, obstacle: Edges, inner: Edges, side: Side)
    requires
        obstacle.in_order(),
        crosses(body, obstacle, inner, side),
    ensures
        body.overlaps_x(obstacle),
        body.overlaps_y(obstacle),
{
}

} // verus!
